//! Which code blocks hold NADI code, and the options written after `run`.
use vstd::prelude::*;
use crate::text::{
    contains, chars_of, find, first_at, lemma_first_occurrence, occurs_at, split_once, trim, trim_end,
    trim_start, trim_str,
};

verus! {

/// What runs the code of a block: tasks, a table, or a string template.
#[derive(Clone, Copy, PartialEq, Eq, Structural, Debug)]
pub enum CodeHandler {
    Table,
    Task,
    Template,
}

/// The handler that a block's language names.
pub open spec fn handler_named(name: Seq<char>) -> Option<CodeHandler> {
    if name == "table"@ {
        Some(CodeHandler::Table)
    } else if name == "task"@ {
        Some(CodeHandler::Task)
    } else if name == "stp"@ || name == "string-template"@ {
        Some(CodeHandler::Template)
    } else {
        None
    }
}

/// The handler and the options of a code block whose info string is `mark`:
/// the block runs only where `mark` holds ` run`, and what stands before the
/// first ` run`, trimmed, names a handler; the options are all that follows it.
pub open spec fn code_args(mark: Seq<char>) -> Option<(CodeHandler, Seq<char>)> {
    match split_once(mark, " run"@) {
        Some((before, after)) => match handler_named(trim(before)) {
            Some(h) => Some((h, after)),
            None => None,
        },
        None => None,
    }
}

/// Whether two strings hold the same characters.
pub fn same_text(a: &str, b: &str) -> (r: bool)
    ensures
        r == (a@ == b@),
{
    let x = chars_of(a);
    let y = chars_of(b);
    if x.len() != y.len() {
        return false;
    }
    let mut i: usize = 0;
    while i < x.len()
        invariant
            x@ == a@,
            y@ == b@,
            x.len() == y.len(),
            i <= x.len(),
            forall|j: int| 0 <= j < i ==> x@[j] == y@[j],
        decreases x.len() - i,
    {
        if x[i] != y[i] {
            return false;
        }
        i += 1;
    }
    assert(a@ =~= b@);
    true
}

/// The handler that a block's language names.
pub fn handler_for(name: &str) -> (r: Option<CodeHandler>)
    ensures
        r == handler_named(name@),
{
    if same_text(name, "table") {
        Some(CodeHandler::Table)
    } else if same_text(name, "task") {
        Some(CodeHandler::Task)
    } else if same_text(name, "stp") || same_text(name, "string-template") {
        Some(CodeHandler::Template)
    } else {
        None
    }
}

/// The handler and the options of a code block whose info string is `mark`,
/// or `None` where the block is not to be run.
pub fn nadi_code_args(mark: &str) -> (r: Option<(CodeHandler, String)>)
    ensures
        r matches Some((h, a)) ==> code_args(mark@) == Some((h, a@)),
        r is None ==> code_args(mark@) is None,
{
    let v = chars_of(mark);
    let pat = chars_of(" run");
    proof {
        reveal_strlit(" run");
    }
    match find(&v, &pat) {
        Some(k) => {
            let before = crate::text::string_of(&v, 0, k);
            let after = crate::text::string_of(&v, k + pat.len(), v.len());
            assert(before@ =~= mark@.take(k as int));
            assert(after@ =~= mark@.skip(k + 4));
            let name = trim_str(before.as_str());
            match handler_for(name.as_str()) {
                Some(h) => Some((h, after)),
                None => None,
            }
        },
        None => None,
    }
}

/// A block whose language is a handler's name, then ` run`, then any options,
/// runs that handler with exactly those options.
pub proof fn law_run_options(name: Seq<char>, options: Seq<char>)
    requires
        handler_named(name) is Some,
    ensures
        code_args(name + " run"@ + options) == Some((handler_named(name)->0, options)),
{
    reveal_strlit("table");
    reveal_strlit("task");
    reveal_strlit("stp");
    reveal_strlit("string-template");
    reveal_strlit(" run");
    let pat = " run"@;
    let s = name + pat + options;
    let k = name.len() as int;
    assert(forall|j: int| 0 <= j < name.len() ==> 'a' <= #[trigger] name[j] <= 'z' || name[j] == '-');
    assert(s.subrange(k, k + 4) =~= pat);
    assert forall|j: int| 0 <= j < k implies !occurs_at(s, pat, j) by {
        assert(s[j] == name[j]);
        if occurs_at(s, pat, j) {
            assert(s.subrange(j, j + 4)[0] == pat[0]);
        }
    }
    assert(first_at(s, pat, k));
    lemma_first_occurrence(s, pat, k);
    assert(s.take(k) =~= name);
    assert(s.skip(k + 4) =~= options);
    assert(trim_start(name) == name);
    assert(trim_end(name) == name);
}

/// A code block runs only where its info string holds ` run`.
pub proof fn law_runs_need_run(mark: Seq<char>)
    ensures
        code_args(mark) is Some ==> contains(mark, " run"@),
{
    if code_args(mark) is Some {
        let k = choose|k: int| first_at(mark, " run"@, k);
        assert(occurs_at(mark, " run"@, k));
    }
}

} // verus!
