//! Rendering markdown events as Typst markup.
use vstd::prelude::*;
use crate::events::{Event, EventView, HeadingLevel, MdEvent, event_views};
use crate::text::{
    chars_of, decimal, join, join_with, push_char, push_decimal, skip_leading, skip_leading_char,
    split, split_on, string_of, views,
};

verus! {

// ---------------------------------------------------------------------------
// Specifications
// ---------------------------------------------------------------------------
/// `s` with `*` and `#` escaped by a backslash.
pub open spec fn escaped(s: Seq<char>) -> Seq<char>
    decreases s.len(),
{
    if s.len() == 0 {
        Seq::<char>::empty()
    } else {
        let c = s.last();
        escaped(s.drop_last()) + if c == '*' || c == '#' {
            seq!['\\', c]
        } else {
            seq![c]
        }
    }
}

/// `l` without one trailing carriage return.
pub open spec fn strip_cr(l: Seq<char>) -> Seq<char> {
    if l.len() > 0 && l.last() == '\r' {
        l.drop_last()
    } else {
        l
    }
}

/// The lines of `s` (`str::lines`): the pieces between line feeds, a
/// carriage return before a line feed dropped, and no empty last line.
pub open spec fn lines(s: Seq<char>) -> Seq<Seq<char>> {
    let p = split(s, '\n');
    let body = p.drop_last().map_values(|l: Seq<char>| strip_cr(l));
    if p.last().len() == 0 {
        body
    } else {
        body.push(p.last())
    }
}

/// The text of a code block as written out: each line without its leading
/// `!`s, each line ended by a line feed.
pub open spec fn code_text(s: Seq<char>) -> Seq<char> {
    join(written_lines(s), seq!['\n']) + seq!['\n']
}

/// The lines of a code block's text without their leading `!`s.
pub open spec fn written_lines(s: Seq<char>) -> Seq<Seq<char>> {
    lines(s).map_values(|l: Seq<char>| skip_leading(l, '!'))
}

/// The opening of a Typst link to `url`.
pub open spec fn link_open(url: Seq<char>) -> Seq<char> {
    "#link(\""@ + url + "\")["@
}

/// The opening of a Typst figure around an image whose quoted path is `quoted`.
pub open spec fn figure_open(quoted: Seq<char>) -> Seq<char> {
    "\n#figure(image("@ + quoted + "), caption: ["@
}

/// The value of `format!("{:?}", s)` on a string: `s` quoted and escaped as
/// Rust's `Debug` does.
pub uninterp spec fn debug_quoted(s: Seq<char>) -> Seq<char>;

/// The number of a heading level.
pub open spec fn level_number(l: HeadingLevel) -> nat {
    match l {
        HeadingLevel::H1 => 1,
        HeadingLevel::H2 => 2,
        HeadingLevel::H3 => 3,
        HeadingLevel::H4 => 4,
        HeadingLevel::H5 => 5,
        HeadingLevel::H6 => 6,
    }
}

/// A table being collected: its column count, header cells, whether cells
/// now go to the body, the cell being written, and the body cells.
pub struct TableState {
    pub columns: nat,
    pub headers: Seq<Seq<char>>,
    pub on_cell: bool,
    pub cell: Seq<char>,
    pub cells: Seq<Seq<char>>,
}

/// The Typst table that a collected table becomes.
pub open spec fn table_markup(columns: nat, headers: Seq<Seq<char>>, cells: Seq<Seq<char>>) -> Seq<char> {
    "\n#table(\n  columns: "@ + decimal(columns) + ",\n  table.header("@ + join(
        headers.map_values(|h: Seq<char>| "[*"@ + h + "*]"@),
        ", "@,
    ) + "),\n  "@ + join(cells.map_values(|c: Seq<char>| "["@ + c + "]"@), ", "@) + "\n)\n\n"@
}

/// Where the rendering stands after some events.
pub struct RenderState {
    pub table: Option<TableState>,
    pub list: Option<int>,
    pub consec_par: bool,
    pub in_listitem: bool,
    pub in_code: bool,
    pub out: Seq<char>,
    pub failed: bool,
}

pub open spec fn initial_state() -> RenderState {
    RenderState {
        table: None,
        list: None,
        consec_par: false,
        in_listitem: false,
        in_code: false,
        out: Seq::<char>::empty(),
        failed: false,
    }
}

/// `txt` written to the cell being collected, or to the output outside a table.
pub open spec fn emit(st: RenderState, txt: Seq<char>) -> RenderState {
    match st.table {
        Some(t) => RenderState { table: Some(TableState { cell: t.cell + txt, ..t }), ..st },
        None => RenderState { out: st.out + txt, ..st },
    }
}

/// `txt` written to the output.
pub open spec fn put(st: RenderState, txt: Seq<char>) -> RenderState {
    RenderState { out: st.out + txt, ..st }
}

/// The effect of one event, before the paragraph flag is reset.
pub open spec fn apply(st: RenderState, e: EventView) -> RenderState {
    match e {
        Event::Code(c) => emit(st, seq!['`'] + c + seq!['`']),
        Event::Text { text, .. } => emit(
            st,
            if st.in_code {
                code_text(text)
            } else {
                escaped(text)
            },
        ),
        Event::Html(_) => RenderState { failed: true, ..st },
        Event::SoftBreak => put(st, seq!['\n']),
        Event::HardBreak => put(st, seq!['\n', '\n']),
        Event::StartParagraph => if !(st.in_listitem || st.consec_par) {
            put(st, seq!['\n', '\n', '\n'])
        } else {
            st
        },
        Event::EndParagraph => RenderState { out: st.out + seq!['\n', '\n'], consec_par: true, ..st },
        Event::StartStrong => put(st, seq!['*']),
        Event::EndStrong => put(st, seq!['*']),
        Event::StartLink(url) => emit(st, link_open(url)),
        Event::StartFencedCode { info, .. } => RenderState {
            in_code: true,
            ..put(st, "\n``````"@ + info + seq!['\n'])
        },
        Event::StartIndentedCode => RenderState { in_code: true, ..put(st, "\n``````\n"@) },
        Event::EndLink => emit(st, seq![']']),
        Event::EndCodeBlock => RenderState { in_code: false, ..put(st, "``````\n"@) },
        Event::StartList(l) => RenderState {
            list: match l {
                Some(n) => Some(n as int),
                None => None,
            },
            ..put(st, seq!['\n'])
        },
        Event::StartItem => match st.list {
            Some(n) => RenderState {
                list: Some(n + 1),
                in_listitem: true,
                ..put(st, decimal(n as nat) + seq!['.', ' '])
            },
            None => RenderState { in_listitem: true, ..put(st, seq!['-', ' ']) },
        },
        Event::EndItem => RenderState { in_listitem: false, ..put(st, seq!['\n']) },
        Event::EndList => RenderState { list: None, ..st },
        Event::StartHeading(level) => put(
            st,
            seq!['\n'] + Seq::new(level_number(level), |i: int| '=') + seq![' '],
        ),
        Event::EndHeading => put(st, seq!['\n']),
        Event::StartImage(url) => put(st, figure_open(debug_quoted(url))),
        Event::EndImage => put(st, "])\n"@),
        Event::StartTable(aligns) => RenderState {
            table: Some(
                TableState {
                    columns: aligns.len(),
                    headers: Seq::empty(),
                    on_cell: false,
                    cell: Seq::empty(),
                    cells: Seq::empty(),
                },
            ),
            ..st
        },
        Event::StartTableHead => match st.table {
            Some(t) => RenderState { table: Some(TableState { on_cell: false, ..t }), ..st },
            None => st,
        },
        Event::EndTableHead => match st.table {
            Some(t) => RenderState { table: Some(TableState { on_cell: true, ..t }), ..st },
            None => st,
        },
        Event::EndTableCell => match st.table {
            Some(t) => RenderState {
                table: Some(
                    if t.on_cell {
                        TableState { cell: Seq::empty(), cells: t.cells.push(t.cell), ..t }
                    } else {
                        TableState { cell: Seq::empty(), headers: t.headers.push(t.cell), ..t }
                    },
                ),
                ..st
            },
            None => st,
        },
        Event::EndTable => match st.table {
            Some(t) => RenderState { table: None, ..put(st, table_markup(t.columns, t.headers, t.cells)) },
            None => st,
        },
        Event::Other => st,
    }
}

/// One step of the rendering: an event after a failure changes nothing; a
/// paragraph's end sets the paragraph flag and every other event clears it.
pub open spec fn step(st: RenderState, e: EventView) -> RenderState {
    if st.failed {
        st
    } else {
        let n = apply(st, e);
        if e is EndParagraph || e is Html {
            n
        } else {
            RenderState { consec_par: false, ..n }
        }
    }
}

/// The state after the first `n` events.
pub open spec fn render_prefix(events: Seq<EventView>, n: nat) -> RenderState
    decreases n,
{
    if n == 0 || n > events.len() {
        initial_state()
    } else {
        step(render_prefix(events, (n - 1) as nat), events[n - 1])
    }
}

/// What rendering the events gives: the Typst text, or, where an HTML block
/// stops it, the text written before that block.
pub open spec fn rendered(events: Seq<EventView>) -> Result<Seq<char>, Seq<char>> {
    let st = render_prefix(events, events.len());
    if st.failed {
        Err(st.out)
    } else {
        Ok(st.out)
    }
}

/// No item of an ordered list is numbered past `u64::MAX`: wherever an item
/// starts while the rendering goes on, its number leaves room for the next.
pub open spec fn list_numbers_fit(events: Seq<EventView>) -> bool {
    forall|n: int|
        0 <= n < events.len() && #[trigger] events[n] is StartItem && !render_prefix(
            events,
            n as nat,
        ).failed ==> (render_prefix(events, n as nat).list matches Some(l) ==> l < u64::MAX)
}


// ---------------------------------------------------------------------------
// Executable rendering
// ---------------------------------------------------------------------------
/// Escapes `*` and `#` for Typst.
pub fn escape_typst(text: &str) -> (r: String)
    ensures
        r@ == escaped(text@),
{
    let mut r = String::new();
    for c in it: text.chars()
        invariant
            it.seq() == text@,
            r@ == escaped(text@.take(it.index() as int)),
    {
        let ghost i = it.index() as int;
        assert(text@.take(i + 1).drop_last() =~= text@.take(i));
        if c == '*' || c == '#' {
            push_char(&mut r, '\\');
        }
        push_char(&mut r, c);
        assert(r@ =~= escaped(text@.take(i + 1)));
    }
    assert(text@.take(text@.len() as int) =~= text@);
    r
}

/// The opening of a Typst link to `link`; the link's text and `]` follow.
pub fn format_link(link: &str) -> (r: String)
    ensures
        r@ == link_open(link@),
{
    let mut r = String::new();
    r.append("#link(\"");
    r.append(link);
    r.append("\")[");
    assert(r@ =~= link_open(link@));
    r
}

/// The opening of a Typst figure around an image whose quoted path is `quoted`.
pub fn figure_start(quoted: &str) -> (r: String)
    ensures
        r@ == figure_open(quoted@),
{
    let mut r = String::new();
    r.append("\n#figure(image(");
    r.append(quoted);
    r.append("), caption: [");
    assert(r@ =~= figure_open(quoted@));
    r
}

/// `l` without one trailing carriage return.
fn without_cr(l: &str) -> (r: String)
    ensures
        r@ == strip_cr(l@),
{
    let v = chars_of(l);
    let n = v.len();
    if n > 0 && v[n - 1] == '\r' {
        let r = string_of(&v, 0, n - 1);
        assert(r@ =~= strip_cr(l@));
        r
    } else {
        let r = string_of(&v, 0, n);
        assert(r@ =~= strip_cr(l@));
        r
    }
}

/// The text of a code block as written out: each line without its leading
/// `!`s, each line ended by a line feed.
pub fn code_block_text(text: &str) -> (r: String)
    ensures
        r@ == code_text(text@),
{
    let pieces = split_on(text, '\n');
    let ghost p = split(text@, '\n');
    proof {
        crate::text::lemma_split_len(text@, '\n');
    }
    let n = pieces.len();
    let mut kept: Vec<String> = Vec::new();
    let mut j: usize = 0;
    while j + 1 < n
        invariant
            n == pieces.len() == p.len(),
            n >= 1,
            j + 1 <= n,
            views(pieces@) == p,
            views(kept@) == p.take(j as int).map_values(
                |l: Seq<char>| skip_leading(strip_cr(l), '!'),
            ),
        decreases n - j,
    {
        let l = without_cr(pieces[j].as_str());
        let k = skip_leading_char(l.as_str(), '!');
        let ghost before = views(kept@);
        kept.push(k);
        assert(views(kept@) =~= before.push(k@));
        assert(views(pieces@)[j as int] == pieces@[j as int]@);
        assert(views(kept@) =~= p.take(j + 1).map_values(
            |l: Seq<char>| skip_leading(strip_cr(l), '!'),
        ));
        j += 1;
    }
    assert(views(pieces@)[n - 1] == pieces@[n - 1]@);
    let ghost body = views(kept@);
    if !pieces[n - 1].as_str().is_empty() {
        let k = skip_leading_char(pieces[n - 1].as_str(), '!');
        kept.push(k);
        assert(views(kept@) =~= body.push(skip_leading(p.last(), '!')));
    }
    assert(views(kept@) =~= written_lines(text@));
    let mut r = join_with(&kept, "\n");
    push_char(&mut r, '\n');
    proof {
        reveal_strlit("\n");
        assert("\n"@ =~= seq!['\n']);
    }
    r
}

/// Appends `pre + x + post` for each `x` of `v`.
fn wrap_each(v: &Vec<String>, pre: &str, post: &str) -> (r: Vec<String>)
    ensures
        views(r@) == views(v@).map_values(|x: Seq<char>| pre@ + x + post@),
{
    let mut r: Vec<String> = Vec::new();
    let mut i: usize = 0;
    while i < v.len()
        invariant
            i <= v.len(),
            views(r@) == views(v@).take(i as int).map_values(|x: Seq<char>| pre@ + x + post@),
        decreases v.len() - i,
    {
        let mut w = String::new();
        w.append(pre);
        w.append(v[i].as_str());
        w.append(post);
        let ghost before = views(r@);
        r.push(w);
        assert(views(r@) =~= before.push(w@));
        assert(views(v@)[i as int] == v@[i as int]@);
        assert(views(r@) =~= views(v@).take(i + 1).map_values(|x: Seq<char>| pre@ + x + post@));
        i += 1;
    }
    assert(views(v@).take(v.len() as int) =~= views(v@));
    r
}

/// The Typst table for the collected header and body cells.
fn table_text(columns: usize, headers: &Vec<String>, cells: &Vec<String>) -> (r: String)
    ensures
        r@ == table_markup(columns as nat, views(headers@), views(cells@)),
{
    let hs = wrap_each(headers, "[*", "*]");
    let cs = wrap_each(cells, "[", "]");
    let mut r = String::new();
    r.append("\n#table(\n  columns: ");
    push_decimal(&mut r, columns as u64);
    r.append(",\n  table.header(");
    let h = join_with(&hs, ", ");
    r.append(h.as_str());
    r.append("),\n  ");
    let c = join_with(&cs, ", ");
    r.append(c.as_str());
    r.append("\n)\n\n");
    assert(views(hs@) =~= views(headers@).map_values(|h: Seq<char>| "[*"@ + h + "*]"@));
    assert(views(cs@) =~= views(cells@).map_values(|c: Seq<char>| "["@ + c + "]"@));
    assert(r@ =~= table_markup(columns as nat, views(headers@), views(cells@)));
    r
}

/// The output so far and the state of lists, paragraphs, code blocks and
/// tables; the table fields mean something only while `in_table` is set.
struct TypstWriter {
    in_table: bool,
    columns: usize,
    headers: Vec<String>,
    on_cell: bool,
    cell: String,
    cells: Vec<String>,
    list: Option<u64>,
    consec_par: bool,
    in_listitem: bool,
    in_code: bool,
    out: String,
}

impl TypstWriter {
    spec fn state(&self) -> RenderState {
        RenderState {
            table: if self.in_table {
                Some(
                    TableState {
                        columns: self.columns as nat,
                        headers: views(self.headers@),
                        on_cell: self.on_cell,
                        cell: self.cell@,
                        cells: views(self.cells@),
                    },
                )
            } else {
                None
            },
            list: match self.list {
                Some(n) => Some(n as int),
                None => None,
            },
            consec_par: self.consec_par,
            in_listitem: self.in_listitem,
            in_code: self.in_code,
            out: self.out@,
            failed: false,
        }
    }

    fn new() -> (w: Self)
        ensures
            w.state() == initial_state(),
    {
        TypstWriter {
            in_table: false,
            columns: 0,
            headers: Vec::new(),
            on_cell: false,
            cell: String::new(),
            cells: Vec::new(),
            list: None,
            consec_par: false,
            in_listitem: false,
            in_code: false,
            out: String::new(),
        }
    }

    /// Writes `txt` to the cell being collected, or to the output outside a table.
    fn emit(&mut self, txt: &str)
        ensures
            final(self).state() == emit(old(self).state(), txt@),
            final(self).list == old(self).list,
    {
        if self.in_table {
            self.cell.append(txt);
        } else {
            self.out.append(txt);
        }
    }

    /// Writes `txt` to the output.
    fn put(&mut self, txt: &str)
        ensures
            final(self).state() == put(old(self).state(), txt@),
            final(self).list == old(self).list,
    {
        self.out.append(txt);
    }

    /// Writes one character to the output.
    fn put_char(&mut self, c: char)
        ensures
            final(self).state() == put(old(self).state(), seq![c]),
            final(self).list == old(self).list,
    {
        push_char(&mut self.out, c);
        assert(self.out@ =~= old(self).out@ + seq![c]);
    }

    /// Takes an inline event: code, text or a link's ends.
    fn feed_inline(&mut self, e: &MdEvent)
        requires
            e@ is Code || e@ is Text || e@ is StartLink || e@ is EndLink,
        ensures
            final(self).state() == apply(old(self).state(), e@),
    {
        match e {
            Event::Code(c) => {
                let mut t = String::new();
                push_char(&mut t, '`');
                t.append(c.as_str());
                push_char(&mut t, '`');
                assert(t@ =~= seq!['`'] + c@ + seq!['`']);
                self.emit(t.as_str());
            },
            Event::Text { text, .. } => {
                let t = if self.in_code {
                    code_block_text(text.as_str())
                } else {
                    escape_typst(text.as_str())
                };
                self.emit(t.as_str());
            },
            Event::StartLink(url) => {
                let t = format_link(url.as_str());
                self.emit(t.as_str());
            },
            _ => {
                self.emit("]");
                proof {
                    reveal_strlit("]");
                    assert("]"@ =~= seq![']']);
                }
            },
        }
    }

    /// Takes a break, a paragraph's or strong text's ends, or a heading's or
    /// an image's ends.
    fn feed_block(&mut self, e: &MdEvent)
        requires
            e@ is SoftBreak || e@ is HardBreak || e@ is StartParagraph || e@ is EndParagraph
                || e@ is StartStrong || e@ is EndStrong || e@ is StartHeading || e@ is EndHeading
                || e@ is StartImage || e@ is EndImage,
        ensures
            final(self).state() == apply(old(self).state(), e@),
    {
        let ghost st = self.state();
        match e {
            Event::SoftBreak => {
                self.put_char('\n');
            },
            Event::HardBreak => {
                self.put_char('\n');
                self.put_char('\n');
                assert(self.out@ =~= st.out + seq!['\n', '\n']);
            },
            Event::StartParagraph => {
                if !(self.in_listitem || self.consec_par) {
                    self.put_char('\n');
                    self.put_char('\n');
                    self.put_char('\n');
                    assert(self.out@ =~= st.out + seq!['\n', '\n', '\n']);
                }
            },
            Event::EndParagraph => {
                self.put_char('\n');
                self.put_char('\n');
                assert(self.out@ =~= st.out + seq!['\n', '\n']);
                self.consec_par = true;
            },
            Event::StartStrong | Event::EndStrong => {
                self.put_char('*');
            },
            Event::StartHeading(level) => {
                let marks: usize = match level {
                    HeadingLevel::H1 => 1,
                    HeadingLevel::H2 => 2,
                    HeadingLevel::H3 => 3,
                    HeadingLevel::H4 => 4,
                    HeadingLevel::H5 => 5,
                    HeadingLevel::H6 => 6,
                };
                let mut t = String::new();
                push_char(&mut t, '\n');
                let mut k: usize = 0;
                while k < marks
                    invariant
                        k <= marks,
                        t@ == seq!['\n'] + Seq::new(k as nat, |i: int| '='),
                    decreases marks - k,
                {
                    push_char(&mut t, '=');
                    assert(t@ =~= seq!['\n'] + Seq::new((k + 1) as nat, |i: int| '='));
                    k += 1;
                }
                push_char(&mut t, ' ');
                assert(t@ =~= seq!['\n'] + Seq::new(level_number(*level), |i: int| '=') + seq![' ']);
                self.put(t.as_str());
            },
            Event::EndHeading => {
                self.put_char('\n');
            },
            Event::StartImage(url) => {
                let q = debug_quote(url.as_str());
                let t = figure_start(q.as_str());
                self.put(t.as_str());
            },
            _ => {
                self.put("])\n");
            },
        }
    }

    /// Takes a code block's or a list's ends, or a list item's.
    fn feed_nesting(&mut self, e: &MdEvent)
        requires
            e@ is StartFencedCode || e@ is StartIndentedCode || e@ is EndCodeBlock
                || e@ is StartList || e@ is EndList || e@ is StartItem || e@ is EndItem,
            e@ is StartItem ==> (old(self).list matches Some(n) ==> n < u64::MAX),
        ensures
            final(self).state() == apply(old(self).state(), e@),
    {
        let ghost st = self.state();
        match e {
            Event::StartFencedCode { info, .. } => {
                self.put("\n``````");
                self.put(info.as_str());
                self.put_char('\n');
                assert(self.out@ =~= st.out + ("\n``````"@ + info@ + seq!['\n']));
                self.in_code = true;
            },
            Event::StartIndentedCode => {
                self.put("\n``````\n");
                self.in_code = true;
            },
            Event::EndCodeBlock => {
                self.in_code = false;
                self.put("``````\n");
            },
            Event::StartList(l) => {
                self.put_char('\n');
                self.list = *l;
            },
            Event::StartItem => {
                match self.list {
                    Some(n) => {
                        push_decimal(&mut self.out, n);
                        self.put_char('.');
                        self.put_char(' ');
                        assert(self.out@ =~= st.out + (decimal(n as nat) + seq!['.', ' ']));
                        self.list = Some(n + 1);
                    },
                    None => {
                        self.put_char('-');
                        self.put_char(' ');
                        assert(self.out@ =~= st.out + seq!['-', ' ']);
                    },
                }
                self.in_listitem = true;
            },
            Event::EndItem => {
                self.put_char('\n');
                self.in_listitem = false;
            },
            _ => {
                self.list = None;
            },
        }
    }

    /// Takes a table's, a table head's or a cell's ends.
    fn feed_table(&mut self, e: &MdEvent)
        requires
            e@ is StartTable || e@ is StartTableHead || e@ is EndTableHead || e@ is EndTableCell
                || e@ is EndTable,
        ensures
            final(self).state() == apply(old(self).state(), e@),
    {
        match e {
            Event::StartTable(aligns) => {
                self.in_table = true;
                self.columns = aligns.len();
                self.headers = Vec::new();
                self.on_cell = false;
                self.cell = String::new();
                self.cells = Vec::new();
                assert(views(self.headers@) =~= Seq::<Seq<char>>::empty());
                assert(views(self.cells@) =~= Seq::<Seq<char>>::empty());
            },
            Event::StartTableHead => {
                if self.in_table {
                    self.on_cell = false;
                }
            },
            Event::EndTableHead => {
                if self.in_table {
                    self.on_cell = true;
                }
            },
            Event::EndTableCell => {
                if self.in_table {
                    let c = self.cell.clone();
                    self.cell = String::new();
                    if self.on_cell {
                        let ghost before = views(self.cells@);
                        self.cells.push(c);
                        assert(views(self.cells@) =~= before.push(c@));
                    } else {
                        let ghost before = views(self.headers@);
                        self.headers.push(c);
                        assert(views(self.headers@) =~= before.push(c@));
                    }
                }
            },
            _ => {
                if self.in_table {
                    let t = table_text(self.columns, &self.headers, &self.cells);
                    self.put(t.as_str());
                    self.in_table = false;
                }
            },
        }
    }

    /// Takes one event; `false` where it is an HTML block, which stops the
    /// rendering with nothing changed.
    fn feed(&mut self, e: &MdEvent) -> (ok: bool)
        requires
            e@ is StartItem ==> (old(self).list matches Some(n) ==> n < u64::MAX),
        ensures
            ok == !(e@ is Html),
            ok ==> final(self).state() == step(old(self).state(), e@),
            !ok ==> final(self).state() == old(self).state(),
    {
        match e {
            Event::Html(_) => {
                return false;
            },
            Event::Other => {},
            Event::Code(_) | Event::Text { .. } | Event::StartLink(_) | Event::EndLink => {
                self.feed_inline(e);
            },
            Event::SoftBreak | Event::HardBreak | Event::StartParagraph | Event::EndParagraph
            | Event::StartStrong | Event::EndStrong | Event::StartHeading(_) | Event::EndHeading
            | Event::StartImage(_) | Event::EndImage => {
                self.feed_block(e);
            },
            Event::StartFencedCode { .. } | Event::StartIndentedCode | Event::EndCodeBlock
            | Event::StartList(_) | Event::EndList | Event::StartItem | Event::EndItem => {
                self.feed_nesting(e);
            },
            _ => {
                self.feed_table(e);
            },
        }
        if !matches!(e, Event::EndParagraph) {
            self.consec_par = false;
        }
        true
    }
}

/// An HTML block, which Typst output cannot hold; `written` is the text
/// rendered before it.
#[derive(Debug)]
pub struct HtmlBlockError {
    pub written: String,
}

/// Renders the events as Typst markup, or stops at the first HTML block.
pub fn write_typst(events: &Vec<MdEvent>) -> (r: Result<String, HtmlBlockError>)
    requires
        list_numbers_fit(event_views(events@)),
    ensures
        r matches Ok(t) ==> rendered(event_views(events@)) == Ok::<Seq<char>, Seq<char>>(t@),
        r matches Err(e) ==> rendered(event_views(events@)) == Err::<Seq<char>, Seq<char>>(
            e.written@,
        ),
        r is Err <==> exists|i: int|
            0 <= i < events.len() && #[trigger] event_views(events@)[i] is Html,
{
    let ghost ev = event_views(events@);
    proof {
        law_html_blocks_fail(ev);
    }
    let mut w = TypstWriter::new();
    let mut i: usize = 0;
    while i < events.len()
        invariant
            i <= events.len(),
            ev == event_views(events@),
            list_numbers_fit(ev),
            w.state() == render_prefix(ev, i as nat),
        decreases events.len() - i,
    {
        assert(ev[i as int] == events@[i as int]@);
        let ok = w.feed(&events[i]);
        if !ok {
            assert(render_prefix(ev, (i + 1) as nat).failed);
            proof {
                lemma_failure_sticks(ev, (i + 1) as nat);
            }
            return Err(HtmlBlockError { written: w.out });
        }
        i += 1;
    }
    Ok(w.out)
}

/// Once an HTML block stops the rendering, later events change nothing.
proof fn lemma_failure_sticks(ev: Seq<EventView>, n: nat)
    requires
        n <= ev.len(),
        render_prefix(ev, n).failed,
    ensures
        render_prefix(ev, ev.len()) == render_prefix(ev, n),
    decreases ev.len() - n,
{
    if n < ev.len() {
        assert(render_prefix(ev, (n + 1) as nat) == render_prefix(ev, n));
        lemma_failure_sticks(ev, (n + 1) as nat);
    }
}

// ---------------------------------------------------------------------------
// Laws
// ---------------------------------------------------------------------------
/// Every `*` and `#` of escaped text has a backslash right before it.
pub proof fn law_escape_marks(s: Seq<char>)
    ensures
        forall|i: int|
            0 <= i < escaped(s).len() && (#[trigger] escaped(s)[i] == '*' || escaped(s)[i] == '#')
                ==> i > 0 && escaped(s)[i - 1] == '\\',
    decreases s.len(),
{
    if s.len() > 0 {
        law_escape_marks(s.drop_last());
        let e = escaped(s.drop_last());
        assert forall|i: int|
            0 <= i < escaped(s).len() && (#[trigger] escaped(s)[i] == '*' || escaped(s)[i] == '#')
                implies i > 0 && escaped(s)[i - 1] == '\\' by {
            if i < e.len() {
                assert(escaped(s)[i] == e[i]);
                assert(escaped(s)[i - 1] == e[i - 1]);
            }
        }
    }
}

/// Text without `*` and `#` is written as it is.
pub proof fn law_escape_plain(s: Seq<char>)
    requires
        forall|i: int| 0 <= i < s.len() ==> s[i] != '*' && s[i] != '#',
    ensures
        escaped(s) == s,
    decreases s.len(),
{
    if s.len() > 0 {
        law_escape_plain(s.drop_last());
        assert(escaped(s) =~= s.drop_last() + seq![s.last()]);
        assert(s.drop_last() + seq![s.last()] =~= s);
    }
}

/// `l` without its leading `!`s begins with something other than `!`.
pub proof fn lemma_skip_leading_first(l: Seq<char>, c: char)
    ensures
        skip_leading(l, c).len() == 0 || skip_leading(l, c)[0] != c,
    decreases l.len(),
{
    if l.len() > 0 && l[0] == c {
        lemma_skip_leading_first(l.drop_first(), c);
    }
}

/// No line of a code block, as written out, begins with `!`.
pub proof fn law_code_lines_unmarked(s: Seq<char>)
    ensures
        forall|j: int|
            0 <= j < written_lines(s).len() ==> (#[trigger] written_lines(s)[j]).len() == 0
                || written_lines(s)[j][0] != '!',
{
    assert forall|j: int| 0 <= j < written_lines(s).len() implies (
    #[trigger] written_lines(s)[j]).len() == 0 || written_lines(s)[j][0] != '!' by {
        lemma_skip_leading_first(lines(s)[j], '!');
    }
}

/// An event never takes back what is written: the output after it extends
/// the output before it.
proof fn lemma_step_extends(st: RenderState, e: EventView)
    ensures
        st.out.is_prefix_of(step(st, e).out),
{
    let o = step(st, e).out;
    assert(o.len() >= st.out.len());
    assert(o.subrange(0, st.out.len() as int) =~= st.out);
}

/// A heading of level k opens with a line feed, exactly k `=` signs and a
/// space, in any state of the rendering; so headings of different levels are
/// told apart.
pub proof fn law_heading_marks(st: RenderState)
    requires
        !st.failed,
    ensures
        step(st, Event::StartHeading(HeadingLevel::H1)).out == st.out + seq!['\n', '=', ' '],
        step(st, Event::StartHeading(HeadingLevel::H2)).out == st.out + seq!['\n', '=', '=', ' '],
        step(st, Event::StartHeading(HeadingLevel::H3)).out == st.out + seq![
            '\n',
            '=',
            '=',
            '=',
            ' ',
        ],
        step(st, Event::StartHeading(HeadingLevel::H4)).out == st.out + seq![
            '\n',
            '=',
            '=',
            '=',
            '=',
            ' ',
        ],
        step(st, Event::StartHeading(HeadingLevel::H5)).out == st.out + seq![
            '\n',
            '=',
            '=',
            '=',
            '=',
            '=',
            ' ',
        ],
        step(st, Event::StartHeading(HeadingLevel::H6)).out == st.out + seq![
            '\n',
            '=',
            '=',
            '=',
            '=',
            '=',
            '=',
            ' ',
        ],
        forall|a: HeadingLevel, b: HeadingLevel|
            a != b ==> step(st, Event::StartHeading(a)).out != step(st, Event::StartHeading(b)).out,
{
    let e = st.out;
    assert(step(st, Event::StartHeading(HeadingLevel::H1)).out =~= e + seq!['\n', '=', ' ']);
    assert(step(st, Event::StartHeading(HeadingLevel::H2)).out =~= e + seq!['\n', '=', '=', ' ']);
    assert(step(st, Event::StartHeading(HeadingLevel::H3)).out =~= e + seq![
        '\n',
        '=',
        '=',
        '=',
        ' ',
    ]);
    assert(step(st, Event::StartHeading(HeadingLevel::H4)).out =~= e + seq![
        '\n',
        '=',
        '=',
        '=',
        '=',
        ' ',
    ]);
    assert(step(st, Event::StartHeading(HeadingLevel::H5)).out =~= e + seq![
        '\n',
        '=',
        '=',
        '=',
        '=',
        '=',
        ' ',
    ]);
    assert(step(st, Event::StartHeading(HeadingLevel::H6)).out =~= e + seq![
        '\n',
        '=',
        '=',
        '=',
        '=',
        '=',
        '=',
        ' ',
    ]);
    assert forall|a: HeadingLevel, b: HeadingLevel|
        a != b implies step(st, Event::StartHeading(a)).out != step(st, Event::StartHeading(b)).out by {
        let oa = step(st, Event::StartHeading(a)).out;
        let ob = step(st, Event::StartHeading(b)).out;
        assert(oa.len() == e.len() + level_number(a) + 2);
        assert(ob.len() == e.len() + level_number(b) + 2);
    }
}

/// The output only grows: what is written after some events begins with
/// what was written after fewer of them.
pub proof fn law_output_grows(ev: Seq<EventView>, m: nat, n: nat)
    requires
        m <= n <= ev.len(),
    ensures
        render_prefix(ev, m).out.is_prefix_of(render_prefix(ev, n).out),
    decreases n - m,
{
    if m < n {
        law_output_grows(ev, m, (n - 1) as nat);
        lemma_step_extends(render_prefix(ev, (n - 1) as nat), ev[n - 1]);
        let a = render_prefix(ev, m).out;
        let b = render_prefix(ev, (n - 1) as nat).out;
        let c = render_prefix(ev, n).out;
        assert(c.subrange(0, a.len() as int) =~= b.subrange(0, a.len() as int));
    } else {
        assert(render_prefix(ev, m).out.subrange(0, render_prefix(ev, m).out.len() as int)
            =~= render_prefix(ev, m).out);
    }
}

/// The rendering has failed after `n` events exactly where one of them is an
/// HTML block.
proof fn lemma_failed_prefix(ev: Seq<EventView>, n: nat)
    requires
        n <= ev.len(),
    ensures
        render_prefix(ev, n).failed <==> exists|i: int| 0 <= i < n && #[trigger] ev[i] is Html,
    decreases n,
{
    if n > 0 {
        lemma_failed_prefix(ev, (n - 1) as nat);
        if render_prefix(ev, n).failed && !render_prefix(ev, (n - 1) as nat).failed {
            assert(ev[n - 1] is Html);
        }
        if exists|i: int| 0 <= i < n && #[trigger] ev[i] is Html {
            let i = choose|i: int| 0 <= i < n && #[trigger] ev[i] is Html;
            if i < n - 1 {
                assert(render_prefix(ev, (n - 1) as nat).failed);
            }
        }
    }
}

/// A document renders exactly where it holds no HTML block.
pub proof fn law_html_blocks_fail(ev: Seq<EventView>)
    ensures
        rendered(ev) is Err <==> exists|i: int| 0 <= i < ev.len() && #[trigger] ev[i] is Html,
{
    lemma_failed_prefix(ev, ev.len());
}

// ---------------------------------------------------------------------------
// Trusted items
// ---------------------------------------------------------------------------
/// `format!("{:?}", s)` on a string: claims only that the result is
/// [`debug_quoted`] of `s`, a function of `s` alone.
#[verifier::external_body]
fn debug_quote(s: &str) -> (r: String)
    ensures
        r@ == debug_quoted(s@),
{
    format!("{:?}", s)
}

} // verus!
