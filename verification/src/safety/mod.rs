pub mod pathguard;

use crate::config::Config;
use crate::errors::{Limit, VibeError, VibeErrorView};
use crate::safety::pathguard::{admissible, is_admissible};
use crate::text::{
    byte_len, byte_len_of, chars_of, same_chars, starts_with, starts_with_chars, strings_view, trim,
    trim_chars,
};
use crate::wire::{steps_view, Plan, Step, StepView};
use vstd::prelude::*;

verus! {

/// The allowlisted base admits the command text: they are the same, or the
/// text is the base, one space, and arguments.
pub open spec fn base_admits(base: Seq<char>, text: Seq<char>) -> bool {
    base == text || (text.len() > base.len() && starts_with(text, base) && text[base.len() as int]
        == ' ')
}

/// Some entry of the allowlist admits the command, taken without the white
/// space around it.
pub open spec fn command_admitted(cmd: Seq<char>, allowlist: Seq<Seq<char>>) -> bool {
    exists|k: int| 0 <= k < allowlist.len() && base_admits(#[trigger] allowlist[k], trim(cmd))
}

/// Some entry of the allowlist is the command, character for character.
pub open spec fn command_listed(cmd: Seq<char>, allowlist: Seq<Seq<char>>) -> bool {
    exists|k: int| 0 <= k < allowlist.len() && #[trigger] allowlist[k] == cmd
}

/// The bytes of content and patch that a step carries.
pub open spec fn payload(s: StepView) -> nat {
    match s {
        StepView::Create { content, .. } => opt_bytes(content),
        StepView::Update { patch, content, .. } => opt_bytes(content) + opt_bytes(patch),
        _ => 0,
    }
}

/// The bytes of an optional text.
pub open spec fn opt_bytes(o: Option<Seq<char>>) -> nat {
    match o {
        Some(t) => byte_len(t),
        None => 0,
    }
}

/// The bytes of content and patches that the first `n` steps carry.
pub open spec fn payload_sum(steps: Seq<StepView>, n: int) -> nat
    decreases n,
{
    if n <= 0 {
        0
    } else {
        payload_sum(steps, n - 1) + payload(steps[n - 1])
    }
}

/// The step is on a file whose path is not admissible.
pub open spec fn bad_path(s: StepView, allowlist: Seq<Seq<char>>) -> bool {
    s.path() is Some && !admissible(s.path()->0, allowlist)
}

/// The step runs a command that the allowlist does not hold.
pub open spec fn bad_command(s: StepView, allowlist: Seq<Seq<char>>) -> bool {
    s.command() is Some && !command_listed(s.command()->0, allowlist)
}

/// The path of the first step from `i` on whose path is not admissible.
pub open spec fn first_bad_path(steps: Seq<StepView>, allowlist: Seq<Seq<char>>, i: int) -> Option<
    Seq<char>,
>
    decreases steps.len() - i,
{
    if i < 0 || i >= steps.len() {
        None
    } else if bad_path(steps[i], allowlist) {
        steps[i].path()
    } else {
        first_bad_path(steps, allowlist, i + 1)
    }
}

/// The command of the first step from `i` on whose command is not listed.
pub open spec fn first_bad_command(steps: Seq<StepView>, allowlist: Seq<Seq<char>>, i: int) -> Option<
    Seq<char>,
>
    decreases steps.len() - i,
{
    if i < 0 || i >= steps.len() {
        None
    } else if bad_command(steps[i], allowlist) {
        steps[i].command()
    } else {
        first_bad_command(steps, allowlist, i + 1)
    }
}

/// What is wrong with a plan under a policy, if anything: the first of too
/// many steps, a path that is not admissible, a command that is not listed,
/// too many bytes.
pub open spec fn violation(
    steps: Seq<StepView>,
    max_actions: int,
    max_patch_bytes: int,
    path_allowlist: Seq<Seq<char>>,
    command_allowlist: Seq<Seq<char>>,
) -> Option<VibeErrorView> {
    if steps.len() > max_actions {
        Some(VibeErrorView::LimitExceeded(Limit::Actions))
    } else if first_bad_path(steps, path_allowlist, 0) is Some {
        Some(VibeErrorView::PathRejected(first_bad_path(steps, path_allowlist, 0)->0))
    } else if first_bad_command(steps, command_allowlist, 0) is Some {
        Some(VibeErrorView::CommandRejected(first_bad_command(steps, command_allowlist, 0)->0))
    } else if payload_sum(steps, steps.len() as int) > max_patch_bytes {
        Some(VibeErrorView::LimitExceeded(Limit::PatchBytes))
    } else {
        None
    }
}

/// Whether a candidate path may be touched: it is a relative path that stays
/// under the root and that the allowlist admits.
pub fn path_is_allowed(candidate: &str, allowlist: &[String]) -> (r: bool)
    ensures
        r == admissible(candidate@, strings_view(allowlist@)),
{
    is_admissible(candidate, allowlist)
}

/// Whether a command may be run: without the white space around it, it is an
/// entry of the allowlist, or an entry followed by one space and arguments.
pub fn command_is_allowed(cmd: &str, allowlist: &[String]) -> (r: bool)
    ensures
        r == command_admitted(cmd@, strings_view(allowlist@)),
{
    let text = trim_chars(&chars_of(cmd));
    let mut k: usize = 0;
    while k < allowlist.len()
        invariant
            k <= allowlist.len(),
            text@ == trim(cmd@),
            forall|q: int| 0 <= q < k ==> !base_admits(#[trigger] strings_view(allowlist@)[q], text@),
        decreases allowlist.len() - k,
    {
        assert(strings_view(allowlist@)[k as int] == allowlist@[k as int]@);
        let base = chars_of(allowlist[k].as_str());
        if same_chars(&base, &text) {
            return true;
        }
        if text.len() > base.len() && starts_with_chars(&text, &base) && text[base.len()] == ' ' {
            return true;
        }
        k += 1;
    }
    false
}

/// Whether the allowlist holds the command, character for character.
pub fn command_is_listed(cmd: &str, allowlist: &[String]) -> (r: bool)
    ensures
        r == command_listed(cmd@, strings_view(allowlist@)),
{
    let text = chars_of(cmd);
    let mut k: usize = 0;
    while k < allowlist.len()
        invariant
            k <= allowlist.len(),
            text@ == cmd@,
            forall|q: int| 0 <= q < k ==> #[trigger] strings_view(allowlist@)[q] != cmd@,
        decreases allowlist.len() - k,
    {
        assert(strings_view(allowlist@)[k as int] == allowlist@[k as int]@);
        let base = chars_of(allowlist[k].as_str());
        if same_chars(&base, &text) {
            return true;
        }
        k += 1;
    }
    false
}

fn opt_len(o: &Option<String>) -> (r: usize)
    ensures
        r == opt_bytes(crate::wire::opt_view(*o)),
{
    match o {
        Some(t) => byte_len_of(t.as_str()),
        None => 0,
    }
}

proof fn lemma_payload_grows(steps: Seq<StepView>, n: int, m: int)
    requires
        n <= m,
    ensures
        payload_sum(steps, n) <= payload_sum(steps, m),
    decreases m - n,
{
    if n < m {
        lemma_payload_grows(steps, n, m - 1);
    }
}

/// Holds a plan to the policy of a configuration, before anything is
/// touched. The checks come in this order, and the first that fails gives
/// the error: the number of steps against `max_actions`; the path of every
/// step on a file, in plan order; the command of every command and test, in
/// plan order, which must be an entry of the allowlist as it stands; the
/// bytes of content and patches against `max_patch_bytes`.
pub fn validate(plan: &Plan, cfg: &Config) -> (r: Result<(), VibeError>)
    ensures
        match violation(
            plan@.steps,
            cfg.max_actions as int,
            cfg.max_patch_bytes as int,
            strings_view(cfg.path_allowlist@),
            strings_view(cfg.command_allowlist@),
        ) {
            Some(e) => r is Err && r->Err_0@ == e,
            None => r is Ok,
        },
{
    let ghost sv = plan@.steps;
    let ghost paths = strings_view(cfg.path_allowlist@);
    let ghost commands = strings_view(cfg.command_allowlist@);
    let n = plan.steps.len();
    if n > cfg.max_actions {
        return Err(VibeError::LimitExceeded(Limit::Actions));
    }
    let mut i: usize = 0;
    while i < n
        invariant
            i <= n == plan.steps.len(),
            sv == steps_view(plan.steps@),
            n <= cfg.max_actions,
            paths == strings_view(cfg.path_allowlist@),
            first_bad_path(sv, paths, 0) == first_bad_path(sv, paths, i as int),
        decreases n - i,
    {
        assert(sv[i as int] == plan.steps@[i as int]@);
        match &plan.steps[i] {
            Step::Create { path, .. } | Step::Update { path, .. } | Step::Delete { path, .. } => {
                if !is_admissible(path.as_str(), &cfg.path_allowlist) {
                    return Err(VibeError::PathRejected(path.clone()));
                }
            },
            _ => {},
        }
        i += 1;
    }
    let mut j: usize = 0;
    while j < n
        invariant
            j <= n == plan.steps.len(),
            sv == steps_view(plan.steps@),
            n <= cfg.max_actions,
            paths == strings_view(cfg.path_allowlist@),
            first_bad_path(sv, paths, 0) is None,
            commands == strings_view(cfg.command_allowlist@),
            first_bad_command(sv, commands, 0) == first_bad_command(sv, commands, j as int),
        decreases n - j,
    {
        assert(sv[j as int] == plan.steps@[j as int]@);
        match &plan.steps[j] {
            Step::Command { command, .. } | Step::Test { command, .. } => {
                if !command_is_listed(command.as_str(), &cfg.command_allowlist) {
                    return Err(VibeError::CommandRejected(command.clone()));
                }
            },
            _ => {},
        }
        j += 1;
    }
    let mut total: usize = 0;
    let mut k: usize = 0;
    while k < n
        invariant
            k <= n == plan.steps.len(),
            sv == steps_view(plan.steps@),
            n <= cfg.max_actions,
            paths == strings_view(cfg.path_allowlist@),
            commands == strings_view(cfg.command_allowlist@),
            first_bad_path(sv, paths, 0) is None,
            first_bad_command(sv, commands, 0) is None,
            total == payload_sum(sv, k as int),
            total <= cfg.max_patch_bytes,
        decreases n - k,
    {
        assert(sv[k as int] == plan.steps@[k as int]@);
        let (first, second): (usize, usize) = match &plan.steps[k] {
            Step::Create { content, .. } => (opt_len(content), 0),
            Step::Update { patch, content, .. } => (opt_len(content), opt_len(patch)),
            _ => (0, 0),
        };
        assert(first + second == payload(sv[k as int]));
        proof {
            lemma_payload_grows(sv, k + 1, n as int);
        }
        if first > cfg.max_patch_bytes - total {
            return Err(VibeError::LimitExceeded(Limit::PatchBytes));
        }
        total = total + first;
        if second > cfg.max_patch_bytes - total {
            return Err(VibeError::LimitExceeded(Limit::PatchBytes));
        }
        total = total + second;
        k += 1;
    }
    Ok(())
}


/// An allowlisted base admits itself followed by one space and any arguments.
pub proof fn law_base_with_arguments_admitted(base: Seq<char>, arguments: Seq<char>)
    ensures
        base_admits(base, base + seq![' '] + arguments),
{
    let text = base + seq![' '] + arguments;
    assert(text.take(base.len() as int) == base);
}

/// An allowlisted base admits no text that goes on, directly behind it, with
/// anything but a space.
pub proof fn law_glued_suffix_not_admitted(base: Seq<char>, suffix: Seq<char>)
    requires
        suffix.len() > 0,
        suffix[0] != ' ',
    ensures
        !base_admits(base, base + suffix),
{
    let text = base + suffix;
    assert(text[base.len() as int] == suffix[0]);
    if base == text {
        assert(base.len() == text.len());
    }
}

} // verus!
