//! What the code of a NADI block is run as, and what its run reports.
//!
//! A task or table block becomes a task script. The script's tasks run one
//! at a time in a NADI context that the caller holds; a [`TaskRun`] decides,
//! from what each task printed and returned, what comes next and what the
//! block finally reports. A string template block is rendered with the
//! variables written after `run`.
use vstd::prelude::*;
use nadi_core::tasks::Task;
use crate::dates::{bad_date, first_bad_date};
use crate::nadi::{parse_task_script, task_parse};
use crate::text::{
    chars_of, contains, find, first_at, join, lemma_skip_leading_suffix, lemma_split_join,
    lemma_split_len, lemma_split_pieces_free, push_char, skip_leading, skip_leading_char, split,
    split_on, split_once, string_of, trim, trim_str, views,
};

verus! {

// ---------------------------------------------------------------------------
// Reports
// ---------------------------------------------------------------------------
/// How a report is shown: verbatim, or by the output handler of a format.
#[derive(Debug, PartialEq, Eq)]
pub enum Style<S> {
    Verbose,
    Handler(S),
}

/// What a block's run reports: a header line, a body, and an option for
/// the way it is shown (a language, or the handler's options).
#[derive(Debug, PartialEq, Eq)]
pub struct Report<S> {
    pub style: Style<S>,
    pub header: S,
    pub body: S,
    pub option: S,
}

/// The mathematical value of a `Report<String>`.
pub type ReportView = Report<Seq<char>>;

impl View for Report<String> {
    type V = Report<Seq<char>>;

    open spec fn view(&self) -> ReportView {
        Report {
            style: match &self.style {
                Style::Verbose => Style::Verbose,
                Style::Handler(f) => Style::Handler(f@),
            },
            header: self.header@,
            body: self.body@,
            option: self.option@,
        }
    }
}

/// The report of a failure with the message `body`.
pub open spec fn error_report(body: Seq<char>) -> ReportView {
    Report { style: Style::Verbose, header: "*Error*:"@, body, option: "error"@ }
}

/// The report of a task script that does not parse.
pub open spec fn parse_error_report(msg: Seq<char>) -> ReportView {
    Report { style: Style::Verbose, header: "ParseError:"@, body: msg, option: "error"@ }
}

fn owned(s: &str) -> (r: String)
    ensures
        r@ == s@,
{
    let mut r = String::new();
    r.append(s);
    r
}

/// The report of a failure with the message `body`.
pub fn error_report_of(body: String) -> (r: Report<String>)
    ensures
        r@ == error_report(body@),
{
    Report { style: Style::Verbose, header: owned("*Error*:"), body, option: owned("error") }
}

// ---------------------------------------------------------------------------
// Task scripts
// ---------------------------------------------------------------------------
/// Each line without its leading `!`s, ended by a line feed.
pub open spec fn task_lines(ls: Seq<Seq<char>>) -> Seq<char>
    decreases ls.len(),
{
    if ls.len() == 0 {
        Seq::empty()
    } else {
        task_lines(ls.drop_last()) + skip_leading(ls.last(), '!') + seq!['\n']
    }
}

/// The task script of a task block: its lines (split at line feeds) without
/// their leading `!`s, each ended by a line feed, and one more line feed.
pub open spec fn task_script(task: Seq<char>) -> Seq<char> {
    task_lines(split(task, '\n')) + seq!['\n']
}

/// The name of the output handler of a task block: the first word of its
/// trimmed options.
pub open spec fn task_format(args: Seq<char>) -> Seq<char> {
    split(trim(args), ' ')[0]
}

/// What a task block's trimmed options hold after their first space.
pub open spec fn task_options(args: Seq<char>) -> Seq<char> {
    match split_once(trim(args), " "@) {
        Some((_, rest)) => rest,
        None => Seq::empty(),
    }
}

/// Whether a task block starts from a fresh NADI context: only where its
/// options ask for a `new` one; other task blocks go on in the context that
/// earlier blocks left.
pub open spec fn clears_context(args: Seq<char>) -> bool {
    contains(args, "new"@)
}

/// The lines of a table block that begin with `!`, without the `!`, each
/// ended by a line feed.
pub open spec fn table_task_lines(ls: Seq<Seq<char>>) -> Seq<char>
    decreases ls.len(),
{
    if ls.len() == 0 {
        Seq::empty()
    } else {
        let l = ls.last();
        table_task_lines(ls.drop_last()) + if l.len() > 0 && l[0] == '!' {
            l.drop_first() + seq!['\n']
        } else {
            Seq::empty()
        }
    }
}

/// The other lines of a table block, each ended by a line feed.
pub open spec fn table_body_lines(ls: Seq<Seq<char>>) -> Seq<char>
    decreases ls.len(),
{
    if ls.len() == 0 {
        Seq::empty()
    } else {
        let l = ls.last();
        table_body_lines(ls.drop_last()) + if l.len() > 0 && l[0] == '!' {
            Seq::empty()
        } else {
            l + seq!['\n']
        }
    }
}

/// The `!` lines of a table keep their order: the task lines of two runs of
/// lines are those of the first, then those of the second; a single line
/// gives itself without its `!` and with a line feed, or nothing.
pub proof fn law_table_lines_in_order(a: Seq<Seq<char>>, b: Seq<Seq<char>>, l: Seq<char>)
    ensures
        table_task_lines(a + b) == table_task_lines(a) + table_task_lines(b),
        table_body_lines(a + b) == table_body_lines(a) + table_body_lines(b),
        table_task_lines(seq![l]) == if l.len() > 0 && l[0] == '!' {
            l.drop_first() + seq!['\n']
        } else {
            Seq::<char>::empty()
        },
        table_body_lines(seq![l]) == if l.len() > 0 && l[0] == '!' {
            Seq::<char>::empty()
        } else {
            l + seq!['\n']
        },
    decreases b.len(),
{
    assert(seq![l].drop_last() =~= Seq::<Seq<char>>::empty());
    assert(table_task_lines(Seq::<Seq<char>>::empty()) =~= Seq::<char>::empty());
    assert(table_body_lines(Seq::<Seq<char>>::empty()) =~= Seq::<char>::empty());
    assert(table_task_lines(seq![l]) =~= table_task_lines(Seq::<Seq<char>>::empty()) + if l.len() > 0 && l[0] == '!' {
        l.drop_first() + seq!['\n']
    } else {
        Seq::<char>::empty()
    });
    assert(table_body_lines(seq![l]) =~= table_body_lines(Seq::<Seq<char>>::empty()) + if l.len() > 0 && l[0] == '!' {
        Seq::<char>::empty()
    } else {
        l + seq!['\n']
    });
    if b.len() == 0 {
        assert(a + b =~= a);
        assert(table_task_lines(a) + table_task_lines(b) =~= table_task_lines(a));
        assert(table_body_lines(a) + table_body_lines(b) =~= table_body_lines(a));
    } else {
        law_table_lines_in_order(a, b.drop_last(), l);
        assert((a + b).drop_last() =~= a + b.drop_last());
        assert((a + b).last() == b.last());
        assert(table_task_lines(a + b) =~= table_task_lines(a) + table_task_lines(b));
        assert(table_body_lines(a + b) =~= table_body_lines(a) + table_body_lines(b));
    }
}

/// The output format of a table block: the first word of its trimmed
/// options where they hold a space, else `markdown`.
pub open spec fn table_format(args: Seq<char>) -> Seq<char> {
    match split_once(trim(args), " "@) {
        Some((f, _)) => f,
        None => "markdown"@,
    }
}

/// The extra arguments of a table block's network function: a comma and the
/// trimmed rest of its options, where there is such a rest.
pub open spec fn table_arguments(args: Seq<char>) -> Seq<char> {
    match split_once(trim(args), " "@) {
        Some((_, rest)) => if trim(rest).len() > 0 {
            seq![','] + trim(rest)
        } else {
            Seq::empty()
        },
        None => Seq::empty(),
    }
}

/// The task script of a table block: its `!` lines, then a call of the
/// network function `table_to_<format>` with the other lines as template.
pub open spec fn table_script(table: Seq<char>, args: Seq<char>) -> Seq<char> {
    let ls = split(table, '\n');
    table_task_lines(ls) + "\nnetwork table_to_"@ + table_format(args) + "(template=\""@
        + table_body_lines(ls) + seq!['"'] + table_arguments(args) + ")\n"@
}

/// The lines without their leading `!`s, each ended by a line feed, are
/// those lines joined by line feeds, and one more line feed.
proof fn lemma_task_lines_join(ls: Seq<Seq<char>>)
    requires
        ls.len() >= 1,
    ensures
        task_lines(ls) == join(ls.map_values(|l: Seq<char>| skip_leading(l, '!')), seq!['\n'])
            + seq!['\n'],
    decreases ls.len(),
{
    let m = ls.map_values(|l: Seq<char>| skip_leading(l, '!'));
    if ls.len() == 1 {
        assert(ls.drop_last() =~= Seq::<Seq<char>>::empty());
        assert(task_lines(ls.drop_last()) =~= Seq::<char>::empty());
        assert(ls.last() == ls[0]);
        assert(m[0] == skip_leading(ls[0], '!'));
        assert(task_lines(ls) =~= m[0] + seq!['\n']);
    } else {
        lemma_task_lines_join(ls.drop_last());
        assert(m.drop_last() =~= ls.drop_last().map_values(|l: Seq<char>| skip_leading(l, '!')));
        assert(task_lines(ls) =~= join(m, seq!['\n']) + seq!['\n']);
    }
}

/// No line of a task script begins with `!`: the marks that hide a task's
/// line in the document never reach the task parser.
pub proof fn law_task_script_unmarked(task: Seq<char>)
    ensures
        forall|j: int|
            0 <= j < split(task_script(task), '\n').len() ==> (#[trigger] split(
                task_script(task),
                '\n',
            )[j]).len() == 0 || split(task_script(task), '\n')[j][0] != '!',
{
    let ls = split(task, '\n');
    lemma_split_len(task, '\n');
    lemma_split_pieces_free(task, '\n');
    let m = ls.map_values(|l: Seq<char>| skip_leading(l, '!'));
    let e = Seq::<char>::empty();
    let parts = m.push(e).push(e);
    lemma_task_lines_join(ls);
    assert(parts.drop_last() =~= m.push(e));
    assert(m.push(e).drop_last() =~= m);
    assert(join(m.push(e), seq!['\n']) =~= join(m, seq!['\n']) + seq!['\n']);
    assert(join(parts, seq!['\n']) =~= join(m, seq!['\n']) + seq!['\n'] + seq!['\n']);
    assert(task_script(task) =~= join(parts, seq!['\n']));
    assert forall|j: int, i: int| 0 <= j < parts.len() && 0 <= i < parts[j].len() implies #[trigger] parts[j][i]
        != '\n' by {
        if j < m.len() {
            lemma_skip_leading_suffix(ls[j], '!');
            let k = ls[j].len() - skip_leading(ls[j], '!').len();
            assert(parts[j][i] == m[j][i]);
            assert(m[j][i] == ls[j][i + k]);
        }
    }
    lemma_split_join(parts, '\n');
    assert forall|j: int| 0 <= j < parts.len() implies (#[trigger] parts[j]).len() == 0 || parts[j][0] != '!' by {
        if j < m.len() {
            assert(parts[j] == m[j]);
            crate::typst::lemma_skip_leading_first(ls[j], '!');
        }
    }
}

/// A task block with every line's leading `!`s taken away.
pub open spec fn strip_marks(task: Seq<char>) -> Seq<char> {
    join(split(task, '\n').map_values(|l: Seq<char>| skip_leading(l, '!')), seq!['\n'])
}

proof fn lemma_task_lines_skip(ls: Seq<Seq<char>>)
    ensures
        task_lines(ls.map_values(|l: Seq<char>| skip_leading(l, '!'))) == task_lines(ls),
    decreases ls.len(),
{
    if ls.len() > 0 {
        let m = ls.map_values(|l: Seq<char>| skip_leading(l, '!'));
        lemma_task_lines_skip(ls.drop_last());
        assert(m.drop_last() =~= ls.drop_last().map_values(|l: Seq<char>| skip_leading(l, '!')));
        crate::typst::lemma_skip_leading_first(ls.last(), '!');
        let k = skip_leading(ls.last(), '!');
        assert(m.last() == k);
        assert(skip_leading(k, '!') == k);
    }
}

/// The leading `!`s of a task block's lines do not count: the block with
/// them taken away gives the same task script, so it parses to the same
/// tasks and runs the same way.
pub proof fn law_marks_ignored(task: Seq<char>)
    ensures
        task_script(strip_marks(task)) == task_script(task),
{
    let ls = split(task, '\n');
    lemma_split_len(task, '\n');
    lemma_split_pieces_free(task, '\n');
    let m = ls.map_values(|l: Seq<char>| skip_leading(l, '!'));
    assert forall|j: int, i: int| 0 <= j < m.len() && 0 <= i < m[j].len() implies #[trigger] m[j][i]
        != '\n' by {
        lemma_skip_leading_suffix(ls[j], '!');
        let k = ls[j].len() - skip_leading(ls[j], '!').len();
        assert(m[j][i] == ls[j][i + k]);
    }
    lemma_split_join(m, '\n');
    lemma_task_lines_skip(ls);
}

/// The task script of a task block.
pub fn task_script_of(task: &str) -> (r: String)
    ensures
        r@ == task_script(task@),
{
    let lines = split_on(task, '\n');
    let ghost ls = split(task@, '\n');
    let mut r = String::new();
    let mut i: usize = 0;
    while i < lines.len()
        invariant
            i <= lines.len(),
            views(lines@) == ls,
            r@ == task_lines(ls.take(i as int)),
        decreases lines.len() - i,
    {
        assert(ls.take(i + 1).drop_last() =~= ls.take(i as int));
        assert(views(lines@)[i as int] == lines@[i as int]@);
        let l = skip_leading_char(lines[i].as_str(), '!');
        r.append(l.as_str());
        push_char(&mut r, '\n');
        i += 1;
    }
    assert(ls.take(lines.len() as int) =~= ls);
    push_char(&mut r, '\n');
    r
}

/// The task script of a table block, and its output format.
pub fn table_script_of(table: &str, args: &str) -> (r: (String, String))
    ensures
        r.0@ == table_script(table@, args@),
        r.1@ == table_format(args@),
{
    let lines = split_on(table, '\n');
    let ghost ls = split(table@, '\n');
    let mut tasks = String::new();
    let mut contents = String::new();
    let mut i: usize = 0;
    while i < lines.len()
        invariant
            i <= lines.len(),
            views(lines@) == ls,
            tasks@ == table_task_lines(ls.take(i as int)),
            contents@ == table_body_lines(ls.take(i as int)),
        decreases lines.len() - i,
    {
        assert(ls.take(i + 1).drop_last() =~= ls.take(i as int));
        assert(views(lines@)[i as int] == lines@[i as int]@);
        let v = chars_of(lines[i].as_str());
        if v.len() > 0 && v[0] == '!' {
            let rest = string_of(&v, 1, v.len());
            assert(rest@ =~= v@.drop_first());
            tasks.append(rest.as_str());
            push_char(&mut tasks, '\n');
            assert(contents@ =~= table_body_lines(ls.take(i + 1)));
        } else {
            contents.append(lines[i].as_str());
            push_char(&mut contents, '\n');
            assert(tasks@ =~= table_task_lines(ls.take(i + 1)));
        }
        i += 1;
    }
    assert(ls.take(lines.len() as int) =~= ls);
    let (format, extra) = table_options_of(args);
    let mut script = tasks;
    script.append("\nnetwork table_to_");
    script.append(format.as_str());
    script.append("(template=\"");
    script.append(contents.as_str());
    push_char(&mut script, '"');
    script.append(extra.as_str());
    script.append(")\n");
    assert(script@ =~= table_script(table@, args@));
    (script, format)
}

/// The trimmed text split at its first space, if it holds one.
fn split_at_space(text: &str) -> (r: Option<(String, String)>)
    ensures
        r matches Some((a, b)) ==> split_once(trim(text@), " "@) == Some((a@, b@)),
        r is None ==> split_once(trim(text@), " "@) is None,
{
    let t = trim_str(text);
    let v = chars_of(t.as_str());
    let space = chars_of(" ");
    proof {
        reveal_strlit(" ");
    }
    match find(&v, &space) {
        Some(k) => {
            let a = string_of(&v, 0, k);
            let b = string_of(&v, k + 1, v.len());
            assert(a@ =~= v@.take(k as int));
            assert(b@ =~= v@.skip(k + 1));
            Some((a, b))
        },
        None => None,
    }
}

/// The output format and the extra network arguments of a table block.
fn table_options_of(args: &str) -> (r: (String, String))
    ensures
        r.0@ == table_format(args@),
        r.1@ == table_arguments(args@),
{
    match split_at_space(args) {
        Some((format, rest)) => {
            let t = trim_str(rest.as_str());
            let mut extra = String::new();
            if t.as_str().unicode_len() > 0 {
                push_char(&mut extra, ',');
                extra.append(t.as_str());
            }
            assert(extra@ =~= table_arguments(args@));
            (format, extra)
        },
        None => (owned("markdown"), String::new()),
    }
}

/// The output handler's name and options of a task block.
fn task_options_of(args: &str) -> (r: (String, String))
    ensures
        r.0@ == task_format(args@),
        r.1@ == task_options(args@),
{
    let t = trim_str(args);
    let words = split_on(t.as_str(), ' ');
    proof {
        lemma_split_len(trim(args@), ' ');
    }
    assert(views(words@)[0] == words@[0]@);
    let format = words[0].clone();
    match split_at_space(args) {
        Some((_, rest)) => (format, rest),
        None => (format, String::new()),
    }
}

/// Whether `s` holds `p`.
fn holds(s: &str, p: &str) -> (r: bool)
    ensures
        r == contains(s@, p@),
{
    let v = chars_of(s);
    let w = chars_of(p);
    match find(&v, &w) {
        Some(k) => {
            assert(first_at(s@, p@, k as int));
            true
        },
        None => false,
    }
}

// ---------------------------------------------------------------------------
// Running the tasks of a block
// ---------------------------------------------------------------------------
/// The mathematical value of a [`TaskRun`].
pub struct RunView {
    pub table: bool,
    pub pending: nat,
    pub response: Seq<char>,
    pub format: Seq<char>,
    pub option: Seq<char>,
    pub stopped: Option<ReportView>,
    pub clears: bool,
}

/// The run of a block's tasks: the tasks still to run, what they have
/// printed and returned so far, how the results will be shown, and the
/// report that stopped the run, if one did.
pub struct TaskRun {
    table: bool,
    pending: Vec<Task>,
    response: String,
    format: String,
    option: String,
    stopped: Option<Report<String>>,
    clears: bool,
}

/// What to do next in a run: run a task, or show the block's report.
pub enum RunStep {
    Execute(Task),
    Done(Report<String>),
}

impl RunStep {
    /// The report to show, or `None` where a task is to run.
    pub open spec fn report(&self) -> Option<ReportView> {
        match self {
            RunStep::Execute(_) => None,
            RunStep::Done(r) => Some(r@),
        }
    }
}

/// The value of what a task returned.
pub open spec fn outcome_view(o: Result<Option<String>, String>) -> Result<Option<Seq<char>>, Seq<char>> {
    match o {
        Ok(Some(v)) => Ok(Some(v@)),
        Ok(None) => Ok(None),
        Err(e) => Err(e@),
    }
}

/// The value of what parsing a task script gave.
pub open spec fn parsed_view(p: Result<Vec<Task>, (String, String)>) -> Result<nat, (Seq<char>, Seq<char>)> {
    match p {
        Ok(ts) => Ok(ts.len() as nat),
        Err(e) => Err((e.0@, e.1@)),
    }
}

/// A run after it hands out its next task, if it has one to hand out.
pub open spec fn advanced(v: RunView) -> RunView {
    if v.stopped is None && v.pending > 0 {
        RunView { pending: (v.pending - 1) as nat, ..v }
    } else {
        v
    }
}

/// The report that a run shows next: the one that stopped it, or, where no
/// task is left, the results; `None` where a task is to run.
pub open spec fn next_report(v: RunView) -> Option<ReportView> {
    match v.stopped {
        Some(r) => Some(r),
        None => if v.pending > 0 {
            None
        } else {
            Some(results_report(v))
        },
    }
}

/// The report of a run whose tasks have all run.
pub open spec fn results_report(v: RunView) -> ReportView {
    Report {
        style: Style::Handler(v.format),
        header: "Results:"@,
        body: v.response,
        option: v.option,
    }
}

/// A run after a task printed `captured` and returned `outcome`: in a task
/// block the printed text and each returned value add to the response, and
/// a failure stops the run with the response so far and the error; in a
/// table block the response is what the last task printed and returned,
/// and a failure stops the run with the error alone. A stopped run stays
/// as it is.
pub open spec fn recorded(
    v: RunView,
    captured: Seq<char>,
    outcome: Result<Option<Seq<char>>, Seq<char>>,
) -> RunView {
    if v.stopped is Some {
        v
    } else if !v.table {
        let r = v.response + captured + if captured.len() > 0 {
            seq!['\n']
        } else {
            Seq::empty()
        };
        match outcome {
            Ok(Some(o)) => RunView { response: r + o + seq!['\n'], ..v },
            Ok(None) => RunView { response: r, ..v },
            Err(e) => RunView { response: r, stopped: Some(error_report(r + e)), ..v },
        }
    } else {
        let r = captured + seq!['\n'];
        match outcome {
            Ok(Some(o)) => RunView { response: r + o, ..v },
            Ok(None) => RunView { response: r, ..v },
            Err(e) => RunView { response: r, stopped: Some(error_report(e)), ..v },
        }
    }
}

/// The run of a task block's tasks, given what parsing its script gave.
pub open spec fn task_run_view(args: Seq<char>, parsed: Result<nat, (Seq<char>, Seq<char>)>) -> RunView {
    match parsed {
        Ok(n) => RunView {
            table: false,
            pending: n,
            response: Seq::empty(),
            format: task_format(args),
            option: task_options(args),
            stopped: None,
            clears: clears_context(args),
        },
        Err((msg, _)) => RunView {
            table: false,
            pending: 0,
            response: Seq::empty(),
            format: task_format(args),
            option: task_options(args),
            stopped: Some(parse_error_report(msg)),
            clears: false,
        },
    }
}

/// The run of a table block's tasks, `n` of them.
pub open spec fn table_run_view(args: Seq<char>, n: nat) -> RunView {
    RunView {
        table: true,
        pending: n,
        response: Seq::empty(),
        format: table_format(args),
        option: Seq::empty(),
        stopped: None,
        clears: true,
    }
}

/// A failing task does not stop the document: the run stops with a report
/// that shows the error, after all that a task block's tasks printed and
/// returned so far.
pub proof fn law_failure_reported(v: RunView, captured: Seq<char>, e: Seq<char>)
    requires
        v.stopped is None,
    ensures
        next_report(recorded(v, captured, Err(e))) matches Some(r) && r.header == "*Error*:"@
            && r.style is Verbose && r.body == if v.table {
            e
        } else {
            recorded(v, captured, Err(e)).response + e
        },
{
}

/// A value that a task returns is kept, whatever the task printed: in a
/// task block it adds the value and a line feed after what returning nothing
/// would leave; in a table block it adds the value.
pub proof fn law_values_kept(v: RunView, c: Seq<char>, o: Seq<char>)
    requires
        v.stopped is None,
    ensures
        !v.table ==> recorded(v, c, Ok(Some(o))).response == recorded(v, c, Ok(None)).response + o
            + seq!['\n'],
        v.table ==> recorded(v, c, Ok(Some(o))).response == recorded(v, c, Ok(None)).response + o,
        recorded(v, c, Ok(Some(o))).stopped is None,
{
    if !v.table {
        let r = recorded(v, c, Ok(None)).response;
        assert(recorded(v, c, Ok(Some(o))).response =~= r + o + seq!['\n']);
    }
}

/// A run never ends without a report: where no report is due, a task is
/// handed out and one fewer remains.
pub proof fn law_run_reports(v: RunView)
    ensures
        next_report(v) is Some || (v.stopped is None && v.pending > 0 && advanced(v).pending
            == v.pending - 1),
{
}

/// A stopped run stays as it is, and keeps showing the report that stopped it.
pub proof fn law_stopped_run_stays(
    v: RunView,
    captured: Seq<char>,
    outcome: Result<Option<Seq<char>>, Seq<char>>,
)
    requires
        v.stopped is Some,
    ensures
        recorded(v, captured, outcome) == v,
        advanced(v) == v,
        next_report(v) == v.stopped,
{
}

/// The tasks in reverse order, so that popping yields them in order.
fn reversed(tasks: Vec<Task>) -> (r: Vec<Task>)
    ensures
        r@ == tasks@.reverse(),
{
    let ghost orig = tasks@;
    let mut tasks = tasks;
    let mut r: Vec<Task> = Vec::new();
    while tasks.len() > 0
        invariant
            tasks@ == orig.take(tasks.len() as int),
            r@ == orig.skip(tasks.len() as int).reverse(),
            tasks.len() <= orig.len(),
        decreases tasks.len(),
    {
        let ghost k = tasks.len() as int;
        let t = tasks.pop().unwrap();
        r.push(t);
        assert(tasks@ =~= orig.take(k - 1));
        assert(r@ =~= orig.skip(k - 1).reverse());
    }
    assert(orig.skip(0) =~= orig);
    r
}

impl TaskRun {
    pub closed spec fn view(&self) -> RunView {
        RunView {
            table: self.table,
            pending: self.pending.len() as nat,
            response: self.response@,
            format: self.format@,
            option: self.option@,
            stopped: match &self.stopped {
                Some(r) => Some(r@),
                None => None,
            },
            clears: self.clears,
        }
    }

    /// The tasks still to run, the next one last.
    pub closed spec fn queue(&self) -> Seq<Task> {
        self.pending@
    }

    /// The run of a task block's tasks, from what parsing its script gave:
    /// the tasks, or the parse error's message for users and its text.
    pub fn for_tasks(args: &str, parsed: Result<Vec<Task>, (String, String)>) -> (r: TaskRun)
        ensures
            r.view() == task_run_view(args@, parsed_view(parsed)),
            parsed matches Ok(ts) ==> r.queue() == ts@.reverse(),
    {
        let (format, option) = task_options_of(args);
        match parsed {
            Ok(tasks) => {
                let clears = holds(args, "new");
                TaskRun {
                    table: false,
                    pending: reversed(tasks),
                    response: String::new(),
                    format,
                    option,
                    stopped: None,
                    clears,
                }
            },
            Err((msg, _)) => {
                let report = Report {
                    style: Style::Verbose,
                    header: owned("ParseError:"),
                    body: msg,
                    option: owned("error"),
                };
                TaskRun {
                    table: false,
                    pending: Vec::new(),
                    response: String::new(),
                    format,
                    option,
                    stopped: Some(report),
                    clears: false,
                }
            },
        }
    }

    /// The run of a table block's tasks, from its parsed tasks.
    pub fn for_table(args: &str, tasks: Vec<Task>) -> (r: TaskRun)
        ensures
            r.view() == table_run_view(args@, tasks.len() as nat),
            r.queue() == tasks@.reverse(),
    {
        let (format, _) = table_options_of(args);
        TaskRun {
            table: true,
            pending: reversed(tasks),
            response: String::new(),
            format,
            option: String::new(),
            stopped: None,
            clears: true,
        }
    }

    /// Whether the NADI context is to be cleared before the tasks run.
    pub fn clears_context(&self) -> (r: bool)
        ensures
            r == self.view().clears,
    {
        self.clears
    }

    /// The next thing to do: run the next task, or show the report that
    /// stopped the run or, once every task has run, the results.
    pub fn next(&mut self) -> (step: RunStep)
        ensures
            final(self).view() == advanced(old(self).view()),
            step.report() == next_report(old(self).view()),
            step matches RunStep::Execute(t) ==> (t == old(self).queue().last()
                && final(self).queue() == old(self).queue().drop_last()),
            step is Done ==> final(self).queue() == old(self).queue(),
    {
        match &self.stopped {
            Some(rep) => {
                return RunStep::Done(copy_report(rep));
            },
            None => {},
        }
        match self.pending.pop() {
            Some(t) => RunStep::Execute(t),
            None => RunStep::Done(
                Report {
                    style: Style::Handler(self.format.clone()),
                    header: owned("Results:"),
                    body: self.response.clone(),
                    option: self.option.clone(),
                },
            ),
        }
    }

    /// Takes what the task last handed out printed, and what it returned.
    pub fn record(&mut self, captured: &str, outcome: Result<Option<String>, String>)
        ensures
            final(self).view() == recorded(old(self).view(), captured@, outcome_view(outcome)),
            final(self).queue() == old(self).queue(),
    {
        if self.stopped.is_some() {
            return;
        }
        let ghost v = self.view();
        let ghost ov = outcome_view(outcome);
        if !self.table {
            self.response.append(captured);
            if captured.unicode_len() > 0 {
                push_char(&mut self.response, '\n');
            }
            let ghost r = self.response@;
            assert(r =~= v.response + captured@ + if captured@.len() > 0 {
                seq!['\n']
            } else {
                Seq::empty()
            });
            match outcome {
                Ok(Some(o)) => {
                    self.response.append(o.as_str());
                    push_char(&mut self.response, '\n');
                    assert(self.response@ =~= r + o@ + seq!['\n']);
                },
                Ok(None) => {},
                Err(e) => {
                    let mut body = self.response.clone();
                    body.append(e.as_str());
                    self.stopped = Some(error_report_of(body));
                },
            }
            assert(self.view() == recorded(v, captured@, ov));
        } else {
            let mut r = owned(captured);
            push_char(&mut r, '\n');
            let ghost r0 = r@;
            assert(r0 =~= captured@ + seq!['\n']);
            match outcome {
                Ok(Some(o)) => {
                    r.append(o.as_str());
                    assert(r@ =~= r0 + o@);
                },
                Ok(None) => {},
                Err(e) => {
                    self.stopped = Some(error_report_of(e));
                },
            }
            self.response = r;
            assert(self.view() == recorded(v, captured@, ov));
        }
    }
}

fn copy_report(r: &Report<String>) -> (c: Report<String>)
    ensures
        c@ == r@,
{
    Report {
        style: match &r.style {
            Style::Verbose => Style::Verbose,
            Style::Handler(f) => Style::Handler(f.clone()),
        },
        header: r.header.clone(),
        body: r.body.clone(),
        option: r.option.clone(),
    }
}

/// The error for users and the error text that a task script gets where it
/// holds the invalid date-time literal `t`.
pub open spec fn bad_date_error(t: Seq<char>) -> (Seq<char>, Seq<char>) {
    ("Error: Invalid DateTime `"@ + t + "`"@, "ParseError: Invalid DateTime `"@ + t + "`"@)
}

/// What parsing a task script gives: an error where it holds a literal of
/// date-time shape that is not a valid date-time, else what the task parser
/// gives.
pub open spec fn script_parse(script: Seq<char>) -> Result<nat, (Seq<char>, Seq<char>)> {
    match bad_date(script) {
        Some(t) => Err(bad_date_error(t)),
        None => task_parse(script),
    }
}

/// Parses a task script: first looks for an invalid date-time literal, which
/// is an error here, and only then hands the script to the task parser.
pub fn parse_script(script: &str) -> (r: Result<Vec<Task>, (String, String)>)
    ensures
        parsed_view(r) == script_parse(script@),
{
    match first_bad_date(script) {
        Some(t) => {
            let mut user = String::new();
            user.append("Error: Invalid DateTime `");
            user.append(t.as_str());
            user.append("`");
            let mut text = String::new();
            text.append("ParseError: Invalid DateTime `");
            text.append(t.as_str());
            text.append("`");
            assert(user@ =~= bad_date_error(t@).0);
            assert(text@ =~= bad_date_error(t@).1);
            Err((user, text))
        },
        None => parse_task_script(script),
    }
}

/// Prepares the run of a task block: its lines become a task script without
/// leading `!`s, which is parsed; a script that does not parse makes a run
/// that reports the parse error at once.
pub fn run_task(task: &str, args: &str) -> (r: TaskRun)
    ensures
        r.view() == task_run_view(args@, script_parse(task_script(task@))),
{
    let script = task_script_of(task);
    let parsed = parse_script(script.as_str());
    TaskRun::for_tasks(args, parsed)
}

/// Prepares the run of a table block: its `!` lines and a call of the table
/// function become a task script, which is parsed; a script that does not
/// parse is an error, with the parse error's text.
pub fn run_table(table: &str, args: &str) -> (r: Result<TaskRun, String>)
    ensures
        script_parse(table_script(table@, args@)) matches Ok(n) ==> (r matches Ok(run)
            && run.view() == table_run_view(args@, n)),
        script_parse(table_script(table@, args@)) matches Err(e) ==> (r matches Err(m) && m@
            == e.1),
{
    let (script, _) = table_script_of(table, args);
    match parse_script(script.as_str()) {
        Ok(tasks) => Ok(TaskRun::for_table(args, tasks)),
        Err((_, display)) => Err(display),
    }
}

} // verus!
