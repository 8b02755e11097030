//! The calls into `nadi_core`: parsing task scripts and string templates,
//! and rendering a template. Each item here is trusted; its doc comment says
//! what its contract claims of the outside code.
use vstd::prelude::*;
use nadi_core::attrs::{AttrMap, Attribute, DateTime};
use nadi_core::parser::tokenizer::TaskToken;
use nadi_core::tasks::Task;
use nadi_core::template::Template;
use std::str::FromStr;

verus! {

/// `nadi_core::tasks::Task`: one parsed task, carried through unread.
#[verifier::external_type_specification]
#[verifier::external_body]
pub struct ExTask(Task);

/// `nadi_core::template::Template`: a parsed string template, carried through unread.
#[verifier::external_type_specification]
#[verifier::external_body]
pub struct ExTemplate(Template);

/// Whether `text` is a valid date-time (`DateTime::from_str` succeeds on it).
pub uninterp spec fn date_time_valid(text: Seq<char>) -> bool;

/// `DateTime::from_str` (`nadi_core::attrs`): claims only that it succeeds
/// exactly where [`date_time_valid`] holds of the text.
#[verifier::external_body]
pub(crate) fn date_time_parses(text: &str) -> (r: bool)
    ensures
        r == date_time_valid(text@),
{
    DateTime::from_str(text).is_ok()
}

/// The tokens of a task script, in order: for each, whether it is a
/// date-time token, and its text.
pub uninterp spec fn script_tokens(script: Seq<char>) -> Seq<(bool, Seq<char>)>;

/// The views of tokens.
pub open spec fn token_views(v: Seq<(bool, String)>) -> Seq<(bool, Seq<char>)> {
    v.map_values(|t: (bool, String)| (t.0, t.1@))
}

/// `nadi_core::parser::tokenizer::get_tokens`, each token taken as whether
/// it is a date-time token (`TaskToken::DateTime`) and its text: claims only
/// that the outcome is [`script_tokens`] of the script, a function of the
/// script alone.
#[verifier::external_body]
pub(crate) fn tokenize(script: &str) -> (r: Vec<(bool, String)>)
    ensures
        token_views(r@) == script_tokens(script@),
{
    nadi_core::parser::tokenizer::get_tokens(script)
        .iter()
        .map(|t| (matches!(t.ty, TaskToken::DateTime), t.content.to_string()))
        .collect()
}

/// What parsing a task script gives: the number of tasks, or the parse
/// error's message for users (`ParseError::user_msg(None)`) and its
/// `Display` text.
pub uninterp spec fn task_parse(script: Seq<char>) -> Result<nat, (Seq<char>, Seq<char>)>;

/// `nadi_core::parser::tokenizer::get_tokens` followed by
/// `nadi_core::parser::tasks::parse`: claims only that the outcome is
/// [`task_parse`] of the script, a function of the script alone. The tokens
/// in between have no plain value, so the two calls stand together. The
/// parser unwraps `DateTime::from_str` on the text of every date-time token
/// (`components::primitives`), and panics on one that is not valid;
/// `requires` leaves out every script with such a token.
#[verifier::external_body]
pub(crate) fn parse_task_script(script: &str) -> (r: Result<Vec<Task>, (String, String)>)
    requires
        crate::dates::bad_date(script@) is None,
    ensures
        r matches Ok(ts) ==> (task_parse(script@) matches Ok(n) && n == ts.len()),
        r matches Err(e) ==> (task_parse(script@) matches Err(m) && m == (e.0@, e.1@)),
{
    let tokens = nadi_core::parser::tokenizer::get_tokens(script);
    match nadi_core::parser::tasks::parse(tokens) {
        Ok(tasks) => Ok(tasks),
        Err(e) => Err((e.user_msg(None), e.to_string())),
    }
}

/// A string template parsed from `text`. Only [`parse_template`] makes one,
/// so `template` is always what `text` parses to.
pub struct ParsedTemplate {
    text: String,
    template: Template,
}

impl ParsedTemplate {
    /// The text that the template was parsed from.
    pub closed spec fn source(&self) -> Seq<char> {
        self.text@
    }
}

/// The `Display` text of the error that parsing `text` as a template gives,
/// or `None` where it parses.
pub uninterp spec fn template_error(text: Seq<char>) -> Option<Seq<char>>;

/// `Template::from_str` (`nadi_core::template`): claims only that it fails
/// exactly where [`template_error`] of the text is `Some`, with that message,
/// and that a parsed template keeps its source text.
#[verifier::external_body]
pub(crate) fn parse_template(text: &str) -> (r: Result<ParsedTemplate, String>)
    ensures
        r matches Ok(p) ==> p.source() == text@ && template_error(text@) is None,
        r matches Err(m) ==> template_error(text@) == Some(m@),
{
    match Template::from_str(text) {
        Ok(template) => Ok(ParsedTemplate { text: text.to_string(), template }),
        Err(e) => Err(e.to_string()),
    }
}

/// The views of key and value pairs.
pub open spec fn pair_views(v: Seq<(String, String)>) -> Seq<(Seq<char>, Seq<char>)> {
    v.map_values(|p: (String, String)| (p.0@, p.1@))
}

/// What rendering the template parsed from `text` gives, with each key bound
/// to its string value (a later pair replaces an earlier one of the same
/// key): the text, or the error's `Display` text.
pub uninterp spec fn template_render(
    text: Seq<char>,
    vars: Seq<(Seq<char>, Seq<char>)>,
) -> Result<Seq<char>, Seq<char>>;

/// `Template::render` on an `AttrMap` that binds each key to
/// `Attribute::String` of its value: claims only that the outcome is
/// [`template_render`] of the template's source and the pairs.
#[verifier::external_body]
pub(crate) fn render_template(t: &ParsedTemplate, vars: &Vec<(String, String)>) -> (r: Result<
    String,
    String,
>)
    ensures
        r matches Ok(s) ==> (template_render(t.source(), pair_views(vars@)) matches Ok(o) && o
            == s@),
        r matches Err(m) ==> (template_render(t.source(), pair_views(vars@)) matches Err(o) && o
            == m@),
{
    let mut map = AttrMap::new();
    for (k, v) in vars {
        map.insert(k.as_str().into(), Attribute::from(v.clone()));
    }
    t.template.render(&map).map_err(|e| e.to_string())
}

} // verus!
