use crate::merge::{any_word_in, any_word_occurs};
use crate::text::{chars_of, lines_view, lowercase};
use crate::wire::{Answer, Kind, LlmResponse, Plan};
use vstd::prelude::*;

verus! {

/// The verbs that mark a task as a change to code.
pub open spec fn code_verbs() -> Seq<Seq<char>> {
    seq![
        "add"@,
        "update"@,
        "fix"@,
        "create"@,
        "delete"@,
        "remove"@,
        "rename"@,
        "refactor"@,
        "implement"@,
        "migrate"@,
        "configure"@,
        "change"@,
        "patch"@,
        "insert"@,
        "modify"@,
    ]
}

/// The file names and endings that mark a task as a change to code.
pub open spec fn file_hints() -> Seq<Seq<char>> {
    seq![".ts"@, ".tsx"@, ".js"@, ".json"@, ".css"@, "src/app"@, "page.tsx"@, "layout.tsx"@]
}

/// A lower-case task text asks for a change to code: it holds one of the
/// verbs or one of the file hints.
pub open spec fn is_code_text(t: Seq<char>) -> bool {
    any_word_in(t, code_verbs()) || any_word_in(t, file_hints())
}

fn code_verb_list() -> (w: Vec<Vec<char>>)
    ensures
        lines_view(w@) == code_verbs(),
{
    let mut w: Vec<Vec<char>> = Vec::new();
    w.push(chars_of("add"));
    w.push(chars_of("update"));
    w.push(chars_of("fix"));
    w.push(chars_of("create"));
    w.push(chars_of("delete"));
    w.push(chars_of("remove"));
    w.push(chars_of("rename"));
    w.push(chars_of("refactor"));
    w.push(chars_of("implement"));
    w.push(chars_of("migrate"));
    w.push(chars_of("configure"));
    w.push(chars_of("change"));
    w.push(chars_of("patch"));
    w.push(chars_of("insert"));
    w.push(chars_of("modify"));
    assert(lines_view(w@) =~= code_verbs());
    w
}

fn file_hint_list() -> (w: Vec<Vec<char>>)
    ensures
        lines_view(w@) == file_hints(),
{
    let mut w: Vec<Vec<char>> = Vec::new();
    w.push(chars_of(".ts"));
    w.push(chars_of(".tsx"));
    w.push(chars_of(".js"));
    w.push(chars_of(".json"));
    w.push(chars_of(".css"));
    w.push(chars_of("src/app"));
    w.push(chars_of("page.tsx"));
    w.push(chars_of("layout.tsx"));
    assert(lines_view(w@) =~= file_hints());
    w
}

/// Whether a task text that is already in lower case asks for a change to code.
pub fn is_code_action_lowered(lowered_task: &str) -> (r: bool)
    ensures
        r == is_code_text(lowered_task@),
{
    let t = chars_of(lowered_task);
    any_word_occurs(&t, &code_verb_list()) || any_word_occurs(&t, &file_hint_list())
}

/// Whether a task asks for a change to code.
pub fn is_code_action(task: &str) -> (r: bool)
    ensures
        r == is_code_text(lowercase(task@)),
{
    let t = task.to_lowercase();
    is_code_action_lowered(t.as_str())
}

/// Whether the plan has to be asked for again, strictly: the response is an
/// answer, or holds no plan or an empty one, or holds an answer beside the
/// plan though the task is a change to code.
pub open spec fn strict_needed(resp: LlmResponse, is_code: bool) -> bool {
    resp.kind == Kind::Answer || resp.plan is None || resp.plan->0.steps@.len() == 0 || (resp.answer
        is Some && is_code)
}

/// Whether the plan has to be asked for again, strictly.
pub fn needs_strict_plan(resp: &LlmResponse, is_code: bool) -> (r: bool)
    ensures
        r == strict_needed(*resp, is_code),
{
    let is_answer = match resp.kind {
        Kind::Answer => true,
        Kind::Plan => false,
    };
    let no_steps = match &resp.plan {
        Some(p) => p.steps.len() == 0,
        None => true,
    };
    is_answer || no_steps || (resp.answer.is_some() && is_code)
}

/// What a response comes to.
#[derive(Debug)]
pub enum Reply {
    /// An answer in prose, if the response carried one.
    Answered(Option<Answer>),
    /// A plan with at least one step.
    Planned(Plan),
    /// Neither: a plan was promised and none, or an empty one, came.
    Unusable,
}

/// What a response comes to: an answer where its kind says so, else its
/// plan, if that has a step.
pub fn classify(resp: LlmResponse) -> (r: Reply)
    ensures
        match r {
            Reply::Answered(a) => resp.kind == Kind::Answer && a == resp.answer,
            Reply::Planned(p) => resp.kind == Kind::Plan && resp.plan == Some(p) && p.steps@.len() > 0,
            Reply::Unusable => resp.kind == Kind::Plan && (resp.plan is None
                || resp.plan->0.steps@.len() == 0),
        },
{
    match resp.kind {
        Kind::Answer => Reply::Answered(resp.answer),
        Kind::Plan => match resp.plan {
            Some(p) => if p.steps.len() > 0 {
                Reply::Planned(p)
            } else {
                Reply::Unusable
            },
            None => Reply::Unusable,
        },
    }
}

} // verus!
