use crate::text::{append_chars, chars_of, string_of, strings_view};
use vstd::prelude::*;

verus! {

/// Which limit of the configuration a plan goes beyond.
#[derive(Debug, Clone, Copy, PartialEq, Eq, Structural)]
pub enum Limit {
    /// More steps than `max_actions`.
    Actions,
    /// More bytes of content and patches than `max_patch_bytes`.
    PatchBytes,
}

/// What can go wrong between a proposed plan and its application.
#[derive(Debug)]
pub enum VibeError {
    /// A path that leaves the project root or that the allowlist does not admit.
    PathRejected(String),
    /// A command that the allowlist does not admit.
    CommandRejected(String),
    /// A plan with too many steps or too many bytes.
    LimitExceeded(Limit),
    /// A read, write, rename or removal that failed: the target and the cause.
    IoFailure(String, String),
    /// A command that ran longer than its budget.
    TimedOut(String),
    /// A step that lacks what its action needs.
    MalformedStep(String),
    /// A command that ended with a status other than zero.
    CommandFailed { command: String, status: i32, stdout: String, stderr: String },
    /// A response that lacks what its kind promises.
    Schema(String),
}

/// An error as plain data.
pub enum VibeErrorView {
    PathRejected(Seq<char>),
    CommandRejected(Seq<char>),
    LimitExceeded(Limit),
    IoFailure(Seq<char>, Seq<char>),
    TimedOut(Seq<char>),
    MalformedStep(Seq<char>),
    CommandFailed { command: Seq<char>, status: i32, stdout: Seq<char>, stderr: Seq<char> },
    Schema(Seq<char>),
}

impl View for VibeError {
    type V = VibeErrorView;

    open spec fn view(&self) -> VibeErrorView {
        match *self {
            VibeError::PathRejected(p) => VibeErrorView::PathRejected(p@),
            VibeError::CommandRejected(c) => VibeErrorView::CommandRejected(c@),
            VibeError::LimitExceeded(l) => VibeErrorView::LimitExceeded(l),
            VibeError::IoFailure(t, c) => VibeErrorView::IoFailure(t@, c@),
            VibeError::TimedOut(c) => VibeErrorView::TimedOut(c@),
            VibeError::MalformedStep(p) => VibeErrorView::MalformedStep(p@),
            VibeError::CommandFailed { command, status, stdout, stderr } => VibeErrorView::CommandFailed {
                command: command@,
                status,
                stdout: stdout@,
                stderr: stderr@,
            },
            VibeError::Schema(s) => VibeErrorView::Schema(s@),
        }
    }
}


/// The entries of a list, with a comma and a space between them.
pub open spec fn listed(items: Seq<Seq<char>>) -> Seq<char>
    decreases items.len(),
{
    if items.len() == 0 {
        Seq::empty()
    } else if items.len() == 1 {
        items[0]
    } else {
        listed(items.drop_last()) + ", "@ + items.last()
    }
}

/// What an error says, in one text.
pub open spec fn message_of(e: VibeErrorView) -> Seq<char> {
    match e {
        VibeErrorView::PathRejected(p) => "safety violation: path rejected: "@ + p,
        VibeErrorView::CommandRejected(c) => "safety violation: command not allowed: "@ + c,
        VibeErrorView::LimitExceeded(Limit::Actions) => "safety violation: the plan has too many steps"@,
        VibeErrorView::LimitExceeded(Limit::PatchBytes) => "safety violation: the plan carries too many bytes"@,
        VibeErrorView::IoFailure(t, c) => "apply failed: "@ + t + ": "@ + c,
        VibeErrorView::TimedOut(c) => "apply failed: command timed out: "@ + c,
        VibeErrorView::MalformedStep(p) => "schema error: malformed step for "@ + p,
        VibeErrorView::CommandFailed { command, status, stdout, stderr } => "command failed ("@
            + command + "):\nSTDOUT:\n"@ + stdout + "\nSTDERR:\n"@ + stderr,
        VibeErrorView::Schema(s) => "schema error: "@ + s,
    }
}

/// What an error says, with the allowlist that a rejected path or command
/// was held against.
pub open spec fn diagnosis_of(
    e: VibeErrorView,
    path_allowlist: Seq<Seq<char>>,
    command_allowlist: Seq<Seq<char>>,
) -> Seq<char> {
    match e {
        VibeErrorView::PathRejected(_) => message_of(e) + " (allowlist: "@ + listed(path_allowlist)
            + ")"@,
        VibeErrorView::CommandRejected(_) => message_of(e) + " (allowlist: "@ + listed(
            command_allowlist,
        ) + ")"@,
        _ => message_of(e),
    }
}

fn push_text(out: &mut Vec<char>, text: &str)
    ensures
        final(out)@ == old(out)@ + text@,
{
    append_chars(out, &chars_of(text));
}

fn listing(items: &[String]) -> (r: Vec<char>)
    ensures
        r@ == listed(strings_view(items@)),
{
    let ghost all = strings_view(items@);
    let mut out: Vec<char> = Vec::new();
    let mut i: usize = 0;
    assert(all.take(0) == Seq::<Seq<char>>::empty());
    while i < items.len()
        invariant
            i <= items.len(),
            all == strings_view(items@),
            out@ == listed(all.take(i as int)),
        decreases items.len() - i,
    {
        let ghost before = out@;
        if i > 0 {
            push_text(&mut out, ", ");
        }
        push_text(&mut out, items[i].as_str());
        proof {
            assert(all.take(i + 1).drop_last() == all.take(i as int));
            assert(all.take(i + 1).last() == items@[i as int]@);
            if i == 0 {
                assert(before + items@[i as int]@ == items@[i as int]@);
            }
        }
        i += 1;
    }
    assert(all.take(items.len() as int) == all);
    out
}

impl VibeError {
    /// What the error says, in one text.
    pub fn message(&self) -> (r: String)
        ensures
            r@ == message_of(self@),
    {
        let mut out: Vec<char> = Vec::new();
        match self {
            VibeError::PathRejected(p) => {
                push_text(&mut out, "safety violation: path rejected: ");
                push_text(&mut out, p.as_str());
            },
            VibeError::CommandRejected(c) => {
                push_text(&mut out, "safety violation: command not allowed: ");
                push_text(&mut out, c.as_str());
            },
            VibeError::LimitExceeded(Limit::Actions) => {
                push_text(&mut out, "safety violation: the plan has too many steps");
            },
            VibeError::LimitExceeded(Limit::PatchBytes) => {
                push_text(&mut out, "safety violation: the plan carries too many bytes");
            },
            VibeError::IoFailure(t, c) => {
                push_text(&mut out, "apply failed: ");
                push_text(&mut out, t.as_str());
                push_text(&mut out, ": ");
                push_text(&mut out, c.as_str());
            },
            VibeError::TimedOut(c) => {
                push_text(&mut out, "apply failed: command timed out: ");
                push_text(&mut out, c.as_str());
            },
            VibeError::MalformedStep(p) => {
                push_text(&mut out, "schema error: malformed step for ");
                push_text(&mut out, p.as_str());
            },
            VibeError::CommandFailed { command, stdout, stderr, .. } => {
                push_text(&mut out, "command failed (");
                push_text(&mut out, command.as_str());
                push_text(&mut out, "):\nSTDOUT:\n");
                push_text(&mut out, stdout.as_str());
                push_text(&mut out, "\nSTDERR:\n");
                push_text(&mut out, stderr.as_str());
            },
            VibeError::Schema(s) => {
                push_text(&mut out, "schema error: ");
                push_text(&mut out, s.as_str());
            },
        }
        assert(out@ == message_of(self@));
        string_of(&out)
    }

    /// What the error says, with the allowlist that a rejected path or
    /// command was held against.
    pub fn diagnosis(&self, path_allowlist: &[String], command_allowlist: &[String]) -> (r:
        String)
        ensures
            r@ == diagnosis_of(
                self@,
                strings_view(path_allowlist@),
                strings_view(command_allowlist@),
            ),
    {
        let mut out = chars_of(self.message().as_str());
        match self {
            VibeError::PathRejected(_) => {
                push_text(&mut out, " (allowlist: ");
                append_chars(&mut out, &listing(path_allowlist));
                push_text(&mut out, ")");
            },
            VibeError::CommandRejected(_) => {
                push_text(&mut out, " (allowlist: ");
                append_chars(&mut out, &listing(command_allowlist));
                push_text(&mut out, ")");
            },
            _ => {},
        }
        string_of(&out)
    }
}

} // verus!
