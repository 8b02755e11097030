//! Finding the NADI code blocks of a document.
//!
//! The scan reads the events in order and passes each one on; where a block
//! that is to be run ends, it asks for a run of the block's code with the
//! block's options. Running the code is outside work: whoever drives the
//! scan performs each run, in order, and puts its events in its place.
use vstd::prelude::*;
use crate::code_args::{code_args, nadi_code_args, CodeHandler};
use crate::events::{event_views, Alignment, Event, EventView, MdEvent};
use crate::text::{split, split_on, views, lemma_split_len};

verus! {

/// A piece of the scanned document: an event, or a request to run the code
/// gathered from the block that just ended.
#[derive(Debug, PartialEq, Eq)]
pub enum Piece<E, S> {
    Event(E),
    Run { handler: CodeHandler, script: S, args: S },
}

/// A piece as the scan returns it.
pub type MdPiece = Piece<MdEvent, String>;

/// The mathematical value of an [`MdPiece`].
pub type PieceView = Piece<EventView, Seq<char>>;

impl View for Piece<MdEvent, String> {
    type V = Piece<EventView, Seq<char>>;

    open spec fn view(&self) -> PieceView {
        match self {
            Piece::Event(e) => Piece::Event(e@),
            Piece::Run { handler, script, args } => Piece::Run {
                handler: *handler,
                script: script@,
                args: args@,
            },
        }
    }
}

/// The views of a sequence of pieces.
pub open spec fn piece_views(v: Seq<MdPiece>) -> Seq<PieceView> {
    v.map_values(|p: MdPiece| p@)
}

/// Where the scan stands: outside a block to run, at the start of one, or
/// gathering its code.
#[derive(Clone, Copy, PartialEq, Eq, Structural, Debug)]
pub enum ScanMode {
    Idle,
    Open,
    Gather,
}

/// The scan's state: its mode, and the handler, options and code of the
/// block being read (or last read).
pub struct ScanState {
    pub mode: ScanMode,
    pub handler: CodeHandler,
    pub args: Seq<char>,
    pub script: Seq<char>,
}

pub open spec fn initial_scan() -> ScanState {
    ScanState {
        mode: ScanMode::Idle,
        handler: CodeHandler::Task,
        args: Seq::empty(),
        script: Seq::empty(),
    }
}

/// The first word of a code block's info string: what precedes its first space.
pub open spec fn first_word(s: Seq<char>) -> Seq<char> {
    split(s, ' ')[0]
}

/// One event of the scan: the next state and the pieces it gives. A block to
/// run that ends before any of its code is read runs nothing.
pub open spec fn scan_step(st: ScanState, e: EventView) -> (ScanState, Seq<PieceView>) {
    match e {
        Event::StartFencedCode { info, borrowed } => if borrowed && st.mode == ScanMode::Idle {
            let out = seq![
                Piece::Event(Event::StartFencedCode { info: first_word(info), borrowed: true }),
            ];
            match code_args(info) {
                Some((h, a)) => (ScanState { mode: ScanMode::Open, handler: h, args: a, ..st }, out),
                None => (st, out),
            }
        } else {
            (st, seq![Piece::Event(e)])
        },
        Event::Text { text, borrowed } => if borrowed && st.mode == ScanMode::Open {
            (ScanState { mode: ScanMode::Gather, script: text, ..st }, seq![Piece::Event(e)])
        } else if borrowed && st.mode == ScanMode::Gather {
            (ScanState { script: st.script + text, ..st }, seq![Piece::Event(e)])
        } else {
            (st, seq![Piece::Event(e)])
        },
        Event::EndCodeBlock => if st.mode == ScanMode::Gather {
            (
                ScanState { mode: ScanMode::Idle, ..st },
                seq![
                    Piece::Event(e),
                    Piece::Run { handler: st.handler, script: st.script, args: st.args },
                ],
            )
        } else if st.mode == ScanMode::Open {
            (ScanState { mode: ScanMode::Idle, ..st }, seq![Piece::Event(e)])
        } else {
            (st, seq![Piece::Event(e)])
        },
        _ => (st, seq![Piece::Event(e)]),
    }
}

/// The state and the pieces after the first `n` events.
pub open spec fn scan_prefix(ev: Seq<EventView>, n: nat) -> (ScanState, Seq<PieceView>)
    decreases n,
{
    if n == 0 || n > ev.len() {
        (initial_scan(), Seq::empty())
    } else {
        let (st, out) = scan_prefix(ev, (n - 1) as nat);
        let (st2, more) = scan_step(st, ev[n - 1]);
        (st2, out + more)
    }
}

/// The pieces of a whole document.
pub open spec fn scanned(ev: Seq<EventView>) -> Seq<PieceView> {
    scan_prefix(ev, ev.len()).1
}

// ---------------------------------------------------------------------------
// Laws
// ---------------------------------------------------------------------------
/// The events among the pieces, in order.
pub open spec fn events_only(ps: Seq<PieceView>) -> Seq<EventView>
    decreases ps.len(),
{
    if ps.len() == 0 {
        Seq::empty()
    } else {
        events_only(ps.drop_last()) + match ps.last() {
            Piece::Event(e) => seq![e],
            Piece::Run { .. } => Seq::empty(),
        }
    }
}

proof fn lemma_events_only_add(a: Seq<PieceView>, b: Seq<PieceView>)
    ensures
        events_only(a + b) == events_only(a) + events_only(b),
    decreases b.len(),
{
    if b.len() == 0 {
        assert(a + b =~= a);
        assert(events_only(a) + events_only(b) =~= events_only(a));
    } else {
        lemma_events_only_add(a, b.drop_last());
        assert((a + b).drop_last() =~= a + b.drop_last());
        assert(events_only(a + b) =~= events_only(a) + events_only(b));
    }
}

/// `out` is how the scan passes on the event `e`: as it is, or, for a
/// fenced code block's start, with its info string cut to its first word.
pub open spec fn passed_on(e: EventView, out: EventView) -> bool {
    out == e || (e matches Event::StartFencedCode { info, .. } && out == Event::<
        Seq<char>,
        Seq<Alignment>,
    >::StartFencedCode { info: first_word(info), borrowed: true })
}

proof fn lemma_step_events(st: ScanState, e: EventView)
    ensures
        events_only(scan_step(st, e).1).len() == 1,
        passed_on(e, events_only(scan_step(st, e).1)[0]),
{
    let more = scan_step(st, e).1;
    let empty = Seq::<PieceView>::empty();
    assert(events_only(empty) =~= Seq::<EventView>::empty());
    if more.len() == 2 {
        assert(more.drop_last() =~= seq![more[0]]);
        assert(seq![more[0]].drop_last() =~= empty);
        assert(events_only(seq![more[0]]) =~= seq![Event::<Seq<char>, Seq<Alignment>>::EndCodeBlock]);
        assert(events_only(more) =~= seq![Event::<Seq<char>, Seq<Alignment>>::EndCodeBlock]);
    } else {
        assert(more.drop_last() =~= empty);
    }
}

proof fn lemma_scan_prefix_events(ev: Seq<EventView>, n: nat)
    requires
        n <= ev.len(),
    ensures
        events_only(scan_prefix(ev, n).1).len() == n,
        forall|i: int| 0 <= i < n ==> passed_on(ev[i], #[trigger] events_only(scan_prefix(ev, n).1)[i]),
    decreases n,
{
    if n > 0 {
        lemma_scan_prefix_events(ev, (n - 1) as nat);
        let (st, out) = scan_prefix(ev, (n - 1) as nat);
        let more = scan_step(st, ev[n - 1]).1;
        lemma_events_only_add(out, more);
        let eo = events_only(more);
        lemma_step_events(st, ev[n - 1]);
        let all = events_only(scan_prefix(ev, n).1);
        assert forall|i: int| 0 <= i < n implies passed_on(ev[i], #[trigger] all[i]) by {
            if i < n - 1 {
                assert(all[i] == events_only(out)[i]);
            }
        }
    }
}

/// The scan passes on every event of the document, in order and nothing
/// else: each as it is, but for a code block's start, whose info string may
/// be cut to its first word.
pub proof fn law_scan_keeps_events(ev: Seq<EventView>)
    ensures
        events_only(scanned(ev)).len() == ev.len(),
        forall|i: int| 0 <= i < ev.len() ==> passed_on(ev[i], #[trigger] events_only(scanned(ev))[i]),
{
    lemma_scan_prefix_events(ev, ev.len());
}

/// Runs only stand right after the end of a code block.
pub open spec fn runs_follow_block_ends(ps: Seq<PieceView>) -> bool {
    forall|j: int|
        0 <= j < ps.len() && #[trigger] ps[j] is Run ==> j > 0 && ps[j - 1] == Piece::<
            EventView,
            Seq<char>,
        >::Event(Event::EndCodeBlock)
}

proof fn lemma_scan_prefix_runs(ev: Seq<EventView>, n: nat)
    requires
        n <= ev.len(),
    ensures
        runs_follow_block_ends(scan_prefix(ev, n).1),
    decreases n,
{
    if n > 0 {
        lemma_scan_prefix_runs(ev, (n - 1) as nat);
        let (st, out) = scan_prefix(ev, (n - 1) as nat);
        let more = scan_step(st, ev[n - 1]).1;
        let all = out + more;
        assert forall|j: int| 0 <= j < all.len() && #[trigger] all[j] is Run implies j > 0 && all[j
            - 1] == Piece::<EventView, Seq<char>>::Event(Event::EndCodeBlock) by {
            if j < out.len() {
                assert(all[j] == out[j]);
                assert(all[j - 1] == out[j - 1]);
            } else {
                assert(all[j] == more[j - out.len()]);
                assert(j - out.len() == 1);
                assert(all[j - 1] == more[0]);
            }
        }
    }
}

/// The end of any code block leaves the scan outside every block to run,
/// whether or not that block's code was read.
pub proof fn law_block_end_closes(st: ScanState)
    ensures
        scan_step(st, Event::EndCodeBlock).0.mode == ScanMode::Idle,
{
}

/// Outside a block to run, only the start of a fenced code block can change
/// the scan: other events are passed on and gather nothing, so only code in
/// blocks to run is ever run.
pub proof fn law_idle_ignores(st: ScanState, e: EventView)
    requires
        st.mode == ScanMode::Idle,
        !(e is StartFencedCode),
    ensures
        scan_step(st, e) == (st, seq![Piece::<EventView, Seq<char>>::Event(e)]),
{
}

/// A run's script is the code of its own block alone: the first borrowed
/// text of an opened block starts the script afresh, whatever code earlier
/// blocks left, and later texts of the block are added after it.
pub proof fn law_script_starts_afresh(st: ScanState, t: Seq<char>, u: Seq<char>)
    requires
        st.mode == ScanMode::Open,
    ensures
        scan_step(st, Event::Text { text: t, borrowed: true }).0.script == t,
        scan_step(st, Event::Text { text: t, borrowed: true }).0.mode == ScanMode::Gather,
        scan_step(
            scan_step(st, Event::Text { text: t, borrowed: true }).0,
            Event::Text { text: u, borrowed: true },
        ).0.script == t + u,
{
}

/// A block to run, read from outside any block, gives one run of exactly
/// its own code with its own options, right after its end; what earlier
/// blocks gathered does not count.
pub proof fn law_block_runs_own_code(st: ScanState, info: Seq<char>, code: Seq<char>)
    requires
        st.mode == ScanMode::Idle,
        code_args(info) is Some,
    ensures
        ({
            let s1 = scan_step(st, Event::StartFencedCode { info, borrowed: true }).0;
            let s2 = scan_step(s1, Event::Text { text: code, borrowed: true }).0;
            let (s3, out) = scan_step(s2, Event::EndCodeBlock);
            let (h, a) = code_args(info)->0;
            &&& s3.mode == ScanMode::Idle
            &&& out == seq![
                Piece::<EventView, Seq<char>>::Event(Event::EndCodeBlock),
                Piece::Run {
                    handler: h,
                    script: code,
                    args: a,
                },
            ]
        }),
{
}

/// The scan asks for a run only right after the end of a code block: the
/// run's results follow the block.
pub proof fn law_runs_follow_blocks(ev: Seq<EventView>)
    ensures
        runs_follow_block_ends(scanned(ev)),
{
    lemma_scan_prefix_runs(ev, ev.len());
}

/// The first word of `s`.
fn first_word_of(s: &str) -> (r: String)
    ensures
        r@ == first_word(s@),
{
    let pieces = split_on(s, ' ');
    proof {
        lemma_split_len(s@, ' ');
    }
    assert(views(pieces@)[0] == pieces@[0]@);
    pieces[0].clone()
}

/// Reads the document's events in order, passing each one on, and after the
/// end of each block to be run, asks for a run of its code.
pub fn process_nadi_tasks(events: Vec<MdEvent>) -> (pieces: Vec<MdPiece>)
    ensures
        piece_views(pieces@) == scanned(event_views(events@)),
{
    let ghost ev = event_views(events@);
    let ghost n = events.len();
    let mut events = events;
    // Reverse the events, so that popping yields them in document order.
    let mut rev: Vec<MdEvent> = Vec::new();
    while events.len() > 0
        invariant
            rev.len() + events.len() == n,
            forall|j: int| 0 <= j < events.len() ==> #[trigger] events@[j]@ == ev[j],
            forall|j: int| 0 <= j < rev.len() ==> #[trigger] rev@[j]@ == ev[n - 1 - j],
            ev.len() == n,
        decreases events.len(),
    {
        let e = events.pop().unwrap();
        rev.push(e);
    }
    let mut pieces: Vec<MdPiece> = Vec::new();
    let mut mode = ScanMode::Idle;
    let mut handler = CodeHandler::Task;
    let mut args = String::new();
    let mut script = String::new();
    while rev.len() > 0
        invariant
            rev.len() <= n,
            ev.len() == n,
            forall|j: int| 0 <= j < rev.len() ==> #[trigger] rev@[j]@ == ev[n - 1 - j],
            scan_prefix(ev, (n - rev.len()) as nat) == (
                ScanState { mode, handler, args: args@, script: script@ },
                piece_views(pieces@),
            ),
        decreases rev.len(),
    {
        let ghost i = (n - rev.len()) as int;
        let e = rev.pop().unwrap();
        assert(e@ == ev[i]);
        let ghost before = piece_views(pieces@);
        let ghost st = ScanState { mode, handler, args: args@, script: script@ };
        match e {
            Event::StartFencedCode { info, borrowed } => {
                if borrowed && mode == ScanMode::Idle {
                    let word = first_word_of(info.as_str());
                    match nadi_code_args(info.as_str()) {
                        Some((h, a)) => {
                            mode = ScanMode::Open;
                            handler = h;
                            args = a;
                        },
                        None => {},
                    }
                    pieces.push(Piece::Event(Event::StartFencedCode { info: word, borrowed: true }));
                } else {
                    pieces.push(Piece::Event(Event::StartFencedCode { info, borrowed }));
                }
            },
            Event::Text { text, borrowed } => {
                if borrowed && mode == ScanMode::Open {
                    script = text.clone();
                    mode = ScanMode::Gather;
                } else if borrowed && mode == ScanMode::Gather {
                    script.append(text.as_str());
                }
                pieces.push(Piece::Event(Event::Text { text, borrowed }));
            },
            Event::EndCodeBlock => {
                pieces.push(Piece::Event(Event::EndCodeBlock));
                if mode == ScanMode::Gather {
                    mode = ScanMode::Idle;
                    pieces.push(
                        Piece::Run { handler, script: script.clone(), args: args.clone() },
                    );
                } else if mode == ScanMode::Open {
                    mode = ScanMode::Idle;
                }
            },
            e => {
                pieces.push(Piece::Event(e));
            },
        }
        let ghost step = scan_step(st, ev[i]);
        assert(piece_views(pieces@) =~= before + step.1);
        assert(ScanState { mode, handler, args: args@, script: script@ } == step.0);
    }
    pieces
}

} // verus!
