//! String template blocks: the variables written after `run`, and the report
//! of the rendered template.
use vstd::prelude::*;
use crate::code_run::{error_report, error_report_of, Report, ReportView, Style};
use crate::nadi::{pair_views, parse_template, render_template, template_error, template_render};
use crate::text::{
    contains, lemma_split_once_none,
    chars_of, find, join, lemma_first_occurrence, lemma_split_join, occurs_at, split, split_on, split_once, string_of, trim, trim_str, views,
};

verus! {

/// The `key=value` pairs of `;`-separated segments, each side trimmed and
/// empty segments skipped; `None` where a segment holds no `=`.
pub open spec fn parse_vars(segs: Seq<Seq<char>>) -> Option<Seq<(Seq<char>, Seq<char>)>>
    decreases segs.len(),
{
    if segs.len() == 0 {
        Some(Seq::empty())
    } else {
        match parse_vars(segs.drop_last()) {
            None => None,
            Some(ps) => {
                let s = segs.last();
                if s.len() == 0 {
                    Some(ps)
                } else {
                    match split_once(s, "="@) {
                        Some((k, v)) => Some(ps.push((trim(k), trim(v)))),
                        None => None,
                    }
                }
            },
        }
    }
}

/// The variables of a template block's options.
pub open spec fn template_vars(args: Seq<char>) -> Option<Seq<(Seq<char>, Seq<char>)>> {
    parse_vars(split(args, ';'))
}

/// The report of a template block with options `args`, from what rendering
/// the template gave.
pub open spec fn template_report(args: Seq<char>, rendered: Result<Seq<char>, Seq<char>>) -> ReportView {
    match rendered {
        Ok(t) => Report {
            style: Style::Verbose,
            header: "Results (with: "@ + args + "):"@,
            body: t,
            option: Seq::empty(),
        },
        Err(e) => error_report(e),
    }
}

/// What a template block reports: the template's parse error, else, where
/// the options are `key=value` pairs, the rendered template; `None` where
/// they are not.
pub open spec fn template_outcome(templ: Seq<char>, args: Seq<char>) -> Option<ReportView> {
    match template_error(templ) {
        Some(m) => Some(error_report(m)),
        None => match template_vars(args) {
            None => None,
            Some(vars) => Some(template_report(args, template_render(templ, vars))),
        },
    }
}

/// A variable written as `key=value`.
pub open spec fn var_text(p: (Seq<char>, Seq<char>)) -> Seq<char> {
    p.0 + "="@ + p.1
}

/// A key that reads back as itself: no `=` or `;` in it, no white space
/// around it.
pub open spec fn plain_key(k: Seq<char>) -> bool {
    trim(k) == k && forall|i: int| 0 <= i < k.len() ==> k[i] != '=' && k[i] != ';'
}

/// A value that reads back as itself: no `;` in it, no white space around it.
pub open spec fn plain_value(v: Seq<char>) -> bool {
    trim(v) == v && forall|i: int| 0 <= i < v.len() ==> v[i] != ';'
}

proof fn lemma_parse_vars_texts(ps: Seq<(Seq<char>, Seq<char>)>)
    requires
        forall|j: int| 0 <= j < ps.len() ==> plain_key(#[trigger] ps[j].0) && plain_value(ps[j].1),
    ensures
        parse_vars(ps.map_values(|p: (Seq<char>, Seq<char>)| var_text(p))) == Some(ps),
    decreases ps.len(),
{
    reveal_strlit("=");
    let parts = ps.map_values(|p: (Seq<char>, Seq<char>)| var_text(p));
    if ps.len() > 0 {
        let init = ps.drop_last();
        assert forall|j: int| 0 <= j < init.len() implies plain_key(#[trigger] init[j].0)
            && plain_value(init[j].1) by {
            assert(init[j] == ps[j]);
        }
        lemma_parse_vars_texts(init);
        assert(parts.drop_last() =~= init.map_values(|p: (Seq<char>, Seq<char>)| var_text(p)));
        let (k, v) = ps.last();
        assert(plain_key(ps[ps.len() - 1].0) && plain_value(ps[ps.len() - 1].1));
        let s = parts.last();
        assert(s == k + "="@ + v);
        let kl = k.len() as int;
        assert(s.subrange(kl, kl + 1) =~= "="@);
        assert forall|j: int| 0 <= j < kl implies !occurs_at(s, "="@, j) by {
            assert(s[j] == k[j]);
            if occurs_at(s, "="@, j) {
                assert(s.subrange(j, j + 1)[0] == "="@[0]);
            }
        }
        lemma_first_occurrence(s, "="@, kl);
        assert(s.take(kl) =~= k);
        assert(s.skip(kl + 1) =~= v);
        assert(ps.drop_last().push((k, v)) =~= ps);
    } else {
        assert(parts =~= Seq::<Seq<char>>::empty());
    }
}

/// Variables written as `key=value` and joined by `;` are read back as they
/// were written, where keys hold no `=` or `;`, values no `;`, and neither
/// has white space around it.
pub proof fn law_vars_read_back(ps: Seq<(Seq<char>, Seq<char>)>)
    requires
        forall|j: int| 0 <= j < ps.len() ==> plain_key(#[trigger] ps[j].0) && plain_value(ps[j].1),
    ensures
        template_vars(join(ps.map_values(|p: (Seq<char>, Seq<char>)| var_text(p)), ";"@)) == Some(
            ps,
        ),
{
    reveal_strlit(";");
    reveal_strlit("=");
    assert(";"@ =~= seq![';']);
    let parts = ps.map_values(|p: (Seq<char>, Seq<char>)| var_text(p));
    lemma_parse_vars_texts(ps);
    if ps.len() == 0 {
        assert(parts =~= Seq::<Seq<char>>::empty());
        assert(split(Seq::<char>::empty(), ';') =~= seq![Seq::<char>::empty()]);
        assert(seq![Seq::<char>::empty()].drop_last() =~= Seq::<Seq<char>>::empty());
    } else {
        assert forall|j: int, i: int| 0 <= j < parts.len() && 0 <= i < parts[j].len() implies #[trigger] parts[j][i]
            != ';' by {
            let (k, v) = ps[j];
            assert(plain_key(ps[j].0) && plain_value(ps[j].1));
            assert(parts[j] == k + "="@ + v);
            if i < k.len() {
                assert(parts[j][i] == k[i]);
            } else if i > k.len() {
                assert(parts[j][i] == v[i - k.len() - 1]);
            }
        }
        lemma_split_join(parts, ';');
    }
}

/// A piece of a template block's options that is not empty and holds no `=`.
pub open spec fn malformed_piece(s: Seq<char>) -> bool {
    s.len() > 0 && !contains(s, "="@)
}

proof fn lemma_parse_vars_fails(segs: Seq<Seq<char>>)
    ensures
        parse_vars(segs) is None <==> exists|j: int|
            0 <= j < segs.len() && malformed_piece(#[trigger] segs[j]),
    decreases segs.len(),
{
    if segs.len() > 0 {
        let init = segs.drop_last();
        lemma_parse_vars_fails(init);
        lemma_split_once_none(segs.last(), "="@);
        if exists|j: int| 0 <= j < init.len() && malformed_piece(#[trigger] init[j]) {
            let j = choose|j: int| 0 <= j < init.len() && malformed_piece(#[trigger] init[j]);
            assert(segs[j] == init[j]);
        }
        if exists|j: int| 0 <= j < segs.len() && malformed_piece(#[trigger] segs[j]) {
            let j = choose|j: int| 0 <= j < segs.len() && malformed_piece(#[trigger] segs[j]);
            if j < init.len() {
                assert(init[j] == segs[j]);
            }
        }
    }
}

/// A template block's options fail to be read exactly where one of their
/// `;`-separated pieces is not empty and holds no `=`; empty pieces are
/// skipped.
pub proof fn law_vars_fail_exactly(args: Seq<char>)
    ensures
        template_vars(args) is None <==> exists|j: int|
            0 <= j < split(args, ';').len() && malformed_piece(#[trigger] split(args, ';')[j]),
{
    lemma_parse_vars_fails(split(args, ';'));
}

/// A template is rendered with every pair that its options hold, in order:
/// where the template parses and the options are the pairs `ps` written as
/// `key=value` and joined by `;`, the block reports the template rendered
/// with all of `ps`; where the options read as any pairs `vs`, it is rendered
/// with all of `vs`.
pub proof fn law_all_vars_rendered(
    templ: Seq<char>,
    args: Seq<char>,
    ps: Seq<(Seq<char>, Seq<char>)>,
)
    requires
        template_error(templ) is None,
    ensures
        template_vars(args) matches Some(vs) ==> template_outcome(templ, args) == Some(
            template_report(args, template_render(templ, vs)),
        ),
        (forall|j: int| 0 <= j < ps.len() ==> plain_key(#[trigger] ps[j].0) && plain_value(ps[j].1))
            ==> template_outcome(
            templ,
            join(ps.map_values(|p: (Seq<char>, Seq<char>)| var_text(p)), ";"@),
        ) == Some(
            template_report(
                join(ps.map_values(|p: (Seq<char>, Seq<char>)| var_text(p)), ";"@),
                template_render(templ, ps),
            ),
        ),
{
    if forall|j: int| 0 <= j < ps.len() ==> plain_key(#[trigger] ps[j].0) && plain_value(ps[j].1) {
        law_vars_read_back(ps);
    }
}

/// Options of a template block that are not `key=value` pairs.
#[derive(Debug)]
pub struct MalformedVars;

impl MalformedVars {
    /// The error's message.
    pub fn message(&self) -> (m: String)
        ensures
            m@ == "variables not in key=value pairs"@,
    {
        let mut m = String::new();
        m.append("variables not in key=value pairs");
        m
    }
}

/// A malformed segment makes every longer list of segments malformed.
proof fn lemma_vars_fail_stays(ss: Seq<Seq<char>>, n: int)
    requires
        0 <= n <= ss.len(),
        parse_vars(ss.take(n)) is None,
    ensures
        parse_vars(ss) is None,
    decreases ss.len() - n,
{
    if n < ss.len() {
        assert(ss.take(n + 1).drop_last() =~= ss.take(n));
        lemma_vars_fail_stays(ss, n + 1);
    } else {
        assert(ss.take(n) =~= ss);
    }
}

/// The variables of a template block's options.
pub fn template_vars_of(args: &str) -> (r: Result<Vec<(String, String)>, MalformedVars>)
    ensures
        r matches Ok(v) ==> template_vars(args@) == Some(pair_views(v@)),
        r is Err ==> template_vars(args@) is None,
{
    let segs = split_on(args, ';');
    let ghost ss = split(args@, ';');
    let eq = chars_of("=");
    proof {
        reveal_strlit("=");
    }
    let mut vars: Vec<(String, String)> = Vec::new();
    let mut i: usize = 0;
    while i < segs.len()
        invariant
            i <= segs.len(),
            views(segs@) == ss,
            ss == split(args@, ';'),
            eq@ == "="@,
            eq@.len() == 1,
            parse_vars(ss.take(i as int)) == Some(pair_views(vars@)),
        decreases segs.len() - i,
    {
        assert(ss.take(i + 1).drop_last() =~= ss.take(i as int));
        assert(views(segs@)[i as int] == segs@[i as int]@);
        let v = chars_of(segs[i].as_str());
        if v.len() > 0 {
            match find(&v, &eq) {
                Some(k) => {
                    let key = string_of(&v, 0, k);
                    let val = string_of(&v, k + 1, v.len());
                    assert(key@ =~= v@.take(k as int));
                    assert(val@ =~= v@.skip(k + 1));
                    let key = trim_str(key.as_str());
                    let val = trim_str(val.as_str());
                    let ghost before = pair_views(vars@);
                    vars.push((key, val));
                    assert(pair_views(vars@) =~= before.push((key@, val@)));
                },
                None => {
                    proof {
                        assert(ss.take(i + 1).last() == v@);
                        assert(split_once(v@, "="@) is None);
                        assert(parse_vars(ss.take(i + 1)) is None);
                        lemma_vars_fail_stays(ss, i + 1);
                    }
                    return Err(MalformedVars);
                },
            }
        }
        i += 1;
    }
    assert(ss.take(segs.len() as int) =~= ss);
    Ok(vars)
}

/// The report of a template block with options `args`, from what rendering
/// the template gave: the text, or the error's message.
pub fn template_report_of(args: &str, rendered: Result<String, String>) -> (r: Report<String>)
    ensures
        r@ == template_report(
            args@,
            match rendered {
                Ok(t) => Ok(t@),
                Err(e) => Err(e@),
            },
        ),
{
    match rendered {
        Ok(t) => {
            let mut header = String::new();
            header.append("Results (with: ");
            header.append(args);
            header.append("):");
            Report { style: Style::Verbose, header, body: t, option: String::new() }
        },
        Err(e) => error_report_of(e),
    }
}

/// Runs a string template block: parses the template, reads the variables
/// of its options, and renders it with them.
pub fn run_template(templ: &str, args: &str) -> (r: Result<Report<String>, MalformedVars>)
    ensures
        r matches Ok(rep) ==> template_outcome(templ@, args@) == Some(rep@),
        r is Err ==> template_outcome(templ@, args@) is None,
{
    let parsed = match parse_template(templ) {
        Ok(p) => p,
        Err(msg) => {
            return Ok(error_report_of(msg));
        },
    };
    let vars = match template_vars_of(args) {
        Ok(v) => v,
        Err(e) => {
            return Err(e);
        },
    };
    let rendered = render_template(&parsed, &vars);
    Ok(template_report_of(args, rendered))
}

} // verus!
