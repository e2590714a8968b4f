use crate::merge::{final_content, final_text};
use crate::safety::pathguard::child_of;
use crate::text::{
    append_chars, byte_len, byte_len_of, chars_of, join_line_chars, join_lines, lines_of,
    lines_view, lowercase, same_chars, split_lines, string_of,
};
use crate::wire::{opt_view, Plan, Step, StepView};
use vstd::prelude::*;

verus! {

/// What a step would do.
#[derive(Debug, Clone, Copy, PartialEq, Eq, Structural)]
pub enum ChangeKind {
    Create,
    Update,
    Delete,
    Command,
    Test,
}

/// What is on disk where a step points, as read just before the preview.
#[derive(Debug)]
pub enum FileState {
    /// No file is there.
    Absent,
    /// A file of `size` bytes is there; `text` holds what was read of it.
    Present { size: u64, text: Option<String> },
}

/// The state of a file as plain data.
pub enum FileStateView {
    Absent,
    Present { size: u64, text: Option<Seq<char>> },
}

impl View for FileState {
    type V = FileStateView;

    open spec fn view(&self) -> FileStateView {
        match *self {
            FileState::Absent => FileStateView::Absent,
            FileState::Present { size, text } => FileStateView::Present { size, text: opt_view(text) },
        }
    }
}

impl FileStateView {
    /// The size of the file, if it is there.
    pub open spec fn size(self) -> Option<u64> {
        match self {
            FileStateView::Absent => None,
            FileStateView::Present { size, .. } => Some(size),
        }
    }

    /// The text that counts as what is on disk: none for no file, and
    /// nothing for a file that was not read or could not be read as text.
    pub open spec fn text(self) -> Option<Seq<char>> {
        match self {
            FileStateView::Absent => None,
            FileStateView::Present { text: Some(t), .. } => Some(t),
            FileStateView::Present { text: None, .. } => Some(Seq::empty()),
        }
    }
}

/// A rendering of what one step would do; it changes nothing.
#[derive(Debug)]
pub struct Preview {
    pub kind: ChangeKind,
    pub path: Option<String>,
    pub bytes_before: Option<u64>,
    pub bytes_after: Option<u64>,
    pub diff_snippet: Option<String>,
    pub command: Option<String>,
}

/// A preview as plain data.
pub struct PreviewView {
    pub kind: ChangeKind,
    pub path: Option<Seq<char>>,
    pub bytes_before: Option<u64>,
    pub bytes_after: Option<u64>,
    pub diff_snippet: Option<Seq<char>>,
    pub command: Option<Seq<char>>,
}

impl View for Preview {
    type V = PreviewView;

    open spec fn view(&self) -> PreviewView {
        PreviewView {
            kind: self.kind,
            path: opt_view(self.path),
            bytes_before: self.bytes_before,
            bytes_after: self.bytes_after,
            diff_snippet: opt_view(self.diff_snippet),
            command: opt_view(self.command),
        }
    }
}

/// The previews as plain data.
pub open spec fn previews_view(v: Seq<Preview>) -> Seq<PreviewView> {
    v.map_values(|p: Preview| p@)
}

/// The states as plain data.
pub open spec fn states_view(v: Seq<FileState>) -> Seq<FileStateView> {
    v.map_values(|s: FileState| s@)
}

/// The most diff lines shown for a create.
pub open spec fn create_diff_cap() -> int {
    80
}

/// The most diff lines shown for an update.
pub open spec fn update_diff_cap() -> int {
    120
}

/// The line that marks a diff as cut short.
pub open spec fn truncation_marker() -> Seq<char> {
    "... (diff truncated)"@
}

/// The diff lines of a walk over both line sequences in step, from `i` and
/// `j`, while there is `room`: equal lines are passed over; otherwise the
/// old line, if any is left, is shown as removed, and the new line, if any
/// is left, as added.
pub open spec fn diff_walk(a: Seq<Seq<char>>, b: Seq<Seq<char>>, i: int, j: int, room: int) -> Seq<
    Seq<char>,
>
    decreases a.len() - i + b.len() - j,
{
    if i < 0 || j < 0 || i > a.len() || j > b.len() || (i == a.len() && j == b.len()) || room <= 0 {
        Seq::empty()
    } else if i < a.len() && j < b.len() && a[i] == b[j] {
        diff_walk(a, b, i + 1, j + 1, room)
    } else if i < a.len() && j < b.len() {
        seq!["- "@ + a[i], "+ "@ + b[j]] + diff_walk(a, b, i + 1, j + 1, room - 2)
    } else if i < a.len() {
        seq!["- "@ + a[i]] + diff_walk(a, b, i + 1, j, room - 1)
    } else {
        seq!["+ "@ + b[j]] + diff_walk(a, b, i, j + 1, room - 1)
    }
}

/// The diff lines of two line sequences, with the marker at the end once
/// they number `max_lines` or more.
pub open spec fn diff_lines(a: Seq<Seq<char>>, b: Seq<Seq<char>>, max_lines: int) -> Seq<Seq<char>> {
    let d = diff_walk(a, b, 0, 0, max_lines);
    if d.len() >= max_lines {
        d.push(truncation_marker())
    } else {
        d
    }
}

/// The bounded line diff of two texts.
pub open spec fn diff_text(old_text: Seq<char>, new_text: Seq<char>, max_lines: int) -> Seq<char> {
    join_lines(diff_lines(lines_of(old_text), lines_of(new_text), max_lines))
}

/// The bytes of what would be written, if the step carries content.
pub open spec fn bytes_after_write(
    is_update: bool,
    state: FileStateView,
    content: Option<Seq<char>>,
    lowered_task: Seq<char>,
) -> Option<u64> {
    match content {
        Some(c) => Some(byte_len(final_text(is_update, state.text(), c, lowered_task)) as u64),
        None => None,
    }
}

/// The diff between what is on disk and what would be written, where both
/// are known.
pub open spec fn diff_of_write(
    is_update: bool,
    state: FileStateView,
    content: Option<Seq<char>>,
    lowered_task: Seq<char>,
) -> Option<Seq<char>> {
    match (state.text(), content) {
        (Some(o), Some(c)) => Some(
            diff_text(
                o,
                final_text(is_update, Some(o), c, lowered_task),
                if is_update {
                    update_diff_cap()
                } else {
                    create_diff_cap()
                },
            ),
        ),
        _ => None,
    }
}

/// The preview of one step, given what is on disk where it points and the
/// task in lower case.
pub open spec fn preview_of(
    root: Seq<char>,
    step: StepView,
    state: FileStateView,
    lowered_task: Seq<char>,
) -> PreviewView {
    match step {
        StepView::Create { path, content, .. } => PreviewView {
            kind: ChangeKind::Create,
            path: Some(child_of(root, path)),
            bytes_before: state.size(),
            bytes_after: bytes_after_write(false, state, content, lowered_task),
            diff_snippet: diff_of_write(false, state, content, lowered_task),
            command: None,
        },
        StepView::Update { path, content, .. } => PreviewView {
            kind: ChangeKind::Update,
            path: Some(child_of(root, path)),
            bytes_before: state.size(),
            bytes_after: bytes_after_write(true, state, content, lowered_task),
            diff_snippet: diff_of_write(true, state, content, lowered_task),
            command: None,
        },
        StepView::Delete { path, .. } => PreviewView {
            kind: ChangeKind::Delete,
            path: Some(child_of(root, path)),
            bytes_before: match state.size() {
                Some(n) => Some(n),
                None => Some(0),
            },
            bytes_after: Some(0),
            diff_snippet: None,
            command: None,
        },
        StepView::Command { command, .. } => PreviewView {
            kind: ChangeKind::Command,
            path: None,
            bytes_before: None,
            bytes_after: None,
            diff_snippet: None,
            command: Some(command),
        },
        StepView::Test { command, .. } => PreviewView {
            kind: ChangeKind::Test,
            path: None,
            bytes_before: None,
            bytes_after: None,
            diff_snippet: None,
            command: Some(command),
        },
    }
}

/// The state that belongs to step `i`: the one given for it, or absent
/// where none was given.
pub open spec fn state_for(states: Seq<FileStateView>, i: int) -> FileStateView {
    if 0 <= i < states.len() {
        states[i]
    } else {
        FileStateView::Absent
    }
}

/// The previews of the steps of a plan, in plan order.
pub open spec fn previews_of(
    root: Seq<char>,
    steps: Seq<StepView>,
    states: Seq<FileStateView>,
    lowered_task: Seq<char>,
) -> Seq<PreviewView> {
    Seq::new(steps.len(), |i: int| preview_of(root, steps[i], state_for(states, i), lowered_task))
}

fn marked_line(mark: &str, line: &Vec<char>) -> (r: Vec<char>)
    ensures
        r@ == mark@ + line@,
{
    let mut v = chars_of(mark);
    append_chars(&mut v, line);
    v
}

/// The diff lines of two line sequences.
fn diff_line_vecs(a: &Vec<Vec<char>>, b: &Vec<Vec<char>>, max_lines: usize) -> (r: Vec<Vec<char>>)
    ensures
        lines_view(r@) == diff_lines(lines_view(a@), lines_view(b@), max_lines as int),
{
    let n = a.len();
    let m = b.len();
    let ghost la = lines_view(a@);
    let ghost lb = lines_view(b@);
    let ghost whole = diff_walk(la, lb, 0, 0, max_lines as int);
    let mut out: Vec<Vec<char>> = Vec::new();
    let mut i: usize = 0;
    let mut j: usize = 0;
    assert(lines_view(out@) == Seq::<Seq<char>>::empty());
    assert(Seq::<Seq<char>>::empty() + whole == whole);
    while (i < n || j < m) && out.len() < max_lines
        invariant
            i <= n == a.len(),
            j <= m == b.len(),
            la == lines_view(a@),
            lb == lines_view(b@),
            out.len() <= max_lines + 1,
            whole == diff_walk(la, lb, 0, 0, max_lines as int),
            lines_view(out@) + diff_walk(la, lb, i as int, j as int, max_lines - out.len()) == whole,
        decreases (n - i) + (m - j),
    {
        let ghost before = lines_view(out@);
        let ghost room = max_lines - out.len();
        if i < n {
            assert(la[i as int] == a@[i as int]@);
        }
        if j < m {
            assert(lb[j as int] == b@[j as int]@);
        }
        if i < n && j < m && same_chars(&a[i], &b[j]) {
            i += 1;
            j += 1;
        } else if i < n && j < m {
            let removed = marked_line("- ", &a[i]);
            let added = marked_line("+ ", &b[j]);
            proof {
                let rest = diff_walk(la, lb, i + 1, j + 1, room - 2);
                assert(lines_view(out@.push(removed).push(added)) == before.push(removed@).push(
                    added@,
                ));
                assert(before + (seq![removed@, added@] + rest) == before.push(removed@).push(added@)
                    + rest);
            }
            out.push(removed);
            out.push(added);
            i += 1;
            j += 1;
        } else if i < n {
            let removed = marked_line("- ", &a[i]);
            proof {
                let rest = diff_walk(la, lb, i + 1, j as int, room - 1);
                assert(lines_view(out@.push(removed)) == before.push(removed@));
                assert(before + (seq![removed@] + rest) == before.push(removed@) + rest);
            }
            out.push(removed);
            i += 1;
        } else {
            let added = marked_line("+ ", &b[j]);
            proof {
                let rest = diff_walk(la, lb, i as int, j + 1, room - 1);
                assert(lines_view(out@.push(added)) == before.push(added@));
                assert(before + (seq![added@] + rest) == before.push(added@) + rest);
            }
            out.push(added);
            j += 1;
        }
    }
    proof {
        assert(diff_walk(la, lb, i as int, j as int, max_lines - out.len()) == Seq::<
            Seq<char>,
        >::empty());
        assert(lines_view(out@) + Seq::<Seq<char>>::empty() == lines_view(out@));
    }
    if out.len() >= max_lines {
        let marker = chars_of("... (diff truncated)");
        assert(lines_view(out@.push(marker)) == lines_view(out@).push(marker@));
        out.push(marker);
    }
    out
}

/// A bounded line diff of two texts, for reading: both are walked in step;
/// equal lines are passed over, and where they differ the old line is shown
/// with `- ` before it and the new one with `+ `. Once `max_lines` lines are
/// shown, the walk stops and a marker line follows.
pub fn short_diff(old: &str, new: &str, max_lines: usize) -> (r: String)
    ensures
        r@ == diff_text(old@, new@, max_lines as int),
{
    let a = split_lines(&chars_of(old));
    let b = split_lines(&chars_of(new));
    let d = diff_line_vecs(&a, &b, max_lines);
    string_of(&join_line_chars(&d))
}

fn child_path(root: &str, path: &str) -> (r: String)
    ensures
        r@ == child_of(root@, path@),
{
    let mut v = chars_of(root);
    if v.len() > 0 && v[v.len() - 1] != '/' && v[v.len() - 1] != '\\' {
        v.push('/');
    }
    append_chars(&mut v, &chars_of(path));
    string_of(&v)
}

impl FileState {
    /// The text that counts as what is on disk.
    pub fn text(&self) -> (r: Option<&str>)
        ensures
            self@.text() == match r {
                Some(t) => Some(t@),
                None => None,
            },
    {
        match self {
            FileState::Absent => None,
            FileState::Present { text: Some(t), .. } => Some(t.as_str()),
            FileState::Present { text: None, .. } => {
                let e: &str = "";
                proof {
                    reveal_strlit("");
                    assert(e@ == Seq::<char>::empty());
                }
                Some(e)
            },
        }
    }
}

fn size_of(state: &FileState) -> (r: Option<u64>)
    ensures
        r == state@.size(),
{
    match state {
        FileState::Present { size, .. } => Some(*size),
        FileState::Absent => None,
    }
}

fn write_preview(
    kind: ChangeKind,
    root: &str,
    path: &str,
    content: &Option<String>,
    state: &FileState,
    lowered_task: &str,
) -> (r: Preview)
    requires
        kind == ChangeKind::Create || kind == ChangeKind::Update,
    ensures
        r@ == (PreviewView {
            kind,
            path: Some(child_of(root@, path@)),
            bytes_before: state@.size(),
            bytes_after: bytes_after_write(
                kind == ChangeKind::Update,
                state@,
                opt_view(*content),
                lowered_task@,
            ),
            diff_snippet: diff_of_write(
                kind == ChangeKind::Update,
                state@,
                opt_view(*content),
                lowered_task@,
            ),
            command: None,
        }),
{
    let is_update = kind == ChangeKind::Update;
    let old = state.text();
    let (after, diff): (Option<u64>, Option<String>) = match content {
        Some(c) => {
            let written = final_content(is_update, old, c.as_str(), lowered_task);
            let after = byte_len_of(written.as_str()) as u64;
            let diff = match old {
                Some(o) => Some(
                    short_diff(
                        o,
                        written.as_str(),
                        if is_update {
                            120
                        } else {
                            80
                        },
                    ),
                ),
                None => None,
            };
            (Some(after), diff)
        },
        None => (None, None),
    };
    Preview {
        kind,
        path: Some(child_path(root, path)),
        bytes_before: size_of(state),
        bytes_after: after,
        diff_snippet: diff,
        command: None,
    }
}

/// The preview of one step, given what is on disk where it points and the
/// task in lower case.
pub fn preview_step(root: &str, step: &Step, state: &FileState, lowered_task: &str) -> (r: Preview)
    ensures
        r@ == preview_of(root@, step@, state@, lowered_task@),
{
    match step {
        Step::Create { path, content, .. } => write_preview(
            ChangeKind::Create,
            root,
            path.as_str(),
            content,
            state,
            lowered_task,
        ),
        Step::Update { path, content, .. } => write_preview(
            ChangeKind::Update,
            root,
            path.as_str(),
            content,
            state,
            lowered_task,
        ),
        Step::Delete { path, .. } => Preview {
            kind: ChangeKind::Delete,
            path: Some(child_path(root, path.as_str())),
            bytes_before: match size_of(state) {
                Some(n) => Some(n),
                None => Some(0),
            },
            bytes_after: Some(0),
            diff_snippet: None,
            command: None,
        },
        Step::Command { command, .. } => Preview {
            kind: ChangeKind::Command,
            path: None,
            bytes_before: None,
            bytes_after: None,
            diff_snippet: None,
            command: Some(command.clone()),
        },
        Step::Test { command, .. } => Preview {
            kind: ChangeKind::Test,
            path: None,
            bytes_before: None,
            bytes_after: None,
            diff_snippet: None,
            command: Some(command.clone()),
        },
    }
}

/// The previews of a plan, given for each step what is on disk where it
/// points, and the task in lower case.
pub fn preview_lowered(root: &str, plan: &Plan, files: &[FileState], lowered_task: &str) -> (r:
    Vec<Preview>)
    ensures
        previews_view(r@) == previews_of(root@, plan@.steps, states_view(files@), lowered_task@),
{
    let ghost want = previews_of(root@, plan@.steps, states_view(files@), lowered_task@);
    let absent = FileState::Absent;
    let mut out: Vec<Preview> = Vec::new();
    let mut i: usize = 0;
    while i < plan.steps.len()
        invariant
            i <= plan.steps.len(),
            absent@ == FileStateView::Absent,
            want == previews_of(root@, plan@.steps, states_view(files@), lowered_task@),
            previews_view(out@) == want.take(i as int),
        decreases plan.steps.len() - i,
    {
        assert(plan@.steps[i as int] == plan.steps@[i as int]@);
        let state = if i < files.len() {
            assert(states_view(files@)[i as int] == files@[i as int]@);
            &files[i]
        } else {
            &absent
        };
        let p = preview_step(root, &plan.steps[i], state, lowered_task);
        assert(previews_view(out@.push(p)) == previews_view(out@).push(p@));
        assert(want.take(i + 1) == want.take(i as int).push(want[i as int]));
        out.push(p);
        i += 1;
    }
    assert(want.take(plan.steps.len() as int) == want);
    out
}

/// The previews of a plan: for each step, in plan order, what it would do
/// to what is on disk now. Nothing is changed and nothing is run.
pub fn preview(root: &str, plan: &Plan, files: &[FileState], user_task: &str) -> (r: Vec<Preview>)
    ensures
        previews_view(r@) == previews_of(
            root@,
            plan@.steps,
            states_view(files@),
            lowercase(user_task@),
        ),
{
    let t = user_task.to_lowercase();
    preview_lowered(root, plan, files, t.as_str())
}


/// The character that writes one decimal digit.
pub open spec fn digit_char(d: int) -> char {
    ((48 + d) as u8) as char
}

/// A number in decimal digits.
pub open spec fn decimal(n: nat) -> Seq<char>
    decreases n,
{
    if n < 10 {
        seq![digit_char(n as int)]
    } else {
        decimal(n / 10).push(digit_char((n % 10) as int))
    }
}

/// A size as a preview shows it: the bytes and a `B`, or a dash where
/// there is none.
pub open spec fn size_text(size: Option<u64>) -> Seq<char> {
    match size {
        Some(n) => decimal(n as nat).push('B'),
        None => seq!['-'],
    }
}

/// An optional text, or nothing.
pub open spec fn or_empty(o: Option<Seq<char>>) -> Seq<char> {
    match o {
        Some(t) => t,
        None => Seq::empty(),
    }
}

/// The path of a preview and its sizes before and after: `path  (a -> b)`.
pub open spec fn path_and_sizes(p: PreviewView) -> Seq<char> {
    or_empty(p.path) + seq![' ', ' ', '('] + size_text(p.bytes_before) + seq![' ', '-', '>', ' ']
        + size_text(p.bytes_after) + seq![')']
}

/// A preview as text under a label: for a create or an update the path,
/// the sizes and, on the next line, the diff; for a delete the path and
/// the sizes; for a command or a test the command.
pub open spec fn preview_layout(p: PreviewView, label: Seq<char>) -> Seq<char> {
    match p.kind {
        ChangeKind::Create | ChangeKind::Update => label + seq![' '] + path_and_sizes(p) + seq!['\n']
            + or_empty(p.diff_snippet),
        ChangeKind::Delete => label + seq![' '] + path_and_sizes(p),
        ChangeKind::Command | ChangeKind::Test => label + seq![' '] + or_empty(p.command),
    }
}

/// The label of a kind of change, before any colour.
pub open spec fn plain_label(kind: ChangeKind) -> Seq<char> {
    match kind {
        ChangeKind::Create => "[CREATE]"@,
        ChangeKind::Update => "[UPDATE]"@,
        ChangeKind::Delete => "[DELETE]"@,
        ChangeKind::Command => "[COMMAND]"@,
        ChangeKind::Test => "[TEST]"@,
    }
}

/// Renders a text in bold and in the colour of the given name, with
/// `colored::Colorize::color` and `bold`. The name is one of the five that
/// the labels use: `color` reads each of them as a colour of its own, and
/// reads no digits out of them, as it does out of a name that starts with
/// `#`. Whether the result carries escape sequences depends on the terminal
/// and the environment, so nothing is claimed of it.
#[verifier::external_body]
fn paint_bold(text: &str, colour: &str) -> (r: String)
    requires
        colour@ == "green"@ || colour@ == "yellow"@ || colour@ == "red"@ || colour@ == "cyan"@
            || colour@ == "magenta"@,
{
    colored::Colorize::bold(colored::Colorize::color(text, colour)).to_string()
}

fn decimal_chars(n: u64) -> (r: Vec<char>)
    ensures
        r@ == decimal(n as nat),
    decreases n,
{
    if n < 10 {
        let mut v: Vec<char> = Vec::new();
        v.push((48u8 + n as u8) as char);
        assert(v@ == seq![digit_char(n as int)]);
        v
    } else {
        let mut v = decimal_chars(n / 10);
        v.push((48u8 + (n % 10) as u8) as char);
        v
    }
}

fn push_size(out: &mut Vec<char>, size: Option<u64>)
    ensures
        final(out)@ == old(out)@ + size_text(size),
{
    match size {
        Some(n) => {
            append_chars(out, &decimal_chars(n));
            out.push('B');
            assert(out@ == old(out)@ + size_text(size));
        },
        None => {
            out.push('-');
            assert(out@ == old(out)@ + size_text(size));
        },
    }
}

fn push_opt(out: &mut Vec<char>, text: &Option<String>)
    ensures
        final(out)@ == old(out)@ + or_empty(opt_view(*text)),
{
    match text {
        Some(t) => {
            append_chars(out, &chars_of(t.as_str()));
        },
        None => {
            assert(out@ == out@ + Seq::<char>::empty());
        },
    }
}

fn push_path_and_sizes(out: &mut Vec<char>, p: &Preview)
    ensures
        final(out)@ == old(out)@ + path_and_sizes(p@),
{
    push_opt(out, &p.path);
    out.push(' ');
    out.push(' ');
    out.push('(');
    push_size(out, p.bytes_before);
    out.push(' ');
    out.push('-');
    out.push('>');
    out.push(' ');
    push_size(out, p.bytes_after);
    out.push(')');
    assert(out@ == old(out)@ + path_and_sizes(p@));
}

/// A preview as text under the label given.
pub fn layout_preview(p: &Preview, label: &str) -> (r: String)
    ensures
        r@ == preview_layout(p@, label@),
{
    let mut out = chars_of(label);
    out.push(' ');
    match p.kind {
        ChangeKind::Create | ChangeKind::Update => {
            push_path_and_sizes(&mut out, p);
            out.push('\n');
            push_opt(&mut out, &p.diff_snippet);
            assert(out@ == preview_layout(p@, label@));
        },
        ChangeKind::Delete => {
            push_path_and_sizes(&mut out, p);
            assert(out@ == preview_layout(p@, label@));
        },
        ChangeKind::Command | ChangeKind::Test => {
            push_opt(&mut out, &p.command);
            assert(out@ == preview_layout(p@, label@));
        },
    }
    string_of(&out)
}

/// A preview as text under its plain label.
pub fn plain_preview(p: &Preview) -> (r: String)
    ensures
        r@ == preview_layout(p@, plain_label(p.kind)),
{
    match p.kind {
        ChangeKind::Create => layout_preview(p, "[CREATE]"),
        ChangeKind::Update => layout_preview(p, "[UPDATE]"),
        ChangeKind::Delete => layout_preview(p, "[DELETE]"),
        ChangeKind::Command => layout_preview(p, "[COMMAND]"),
        ChangeKind::Test => layout_preview(p, "[TEST]"),
    }
}

/// A preview as text for a terminal: laid out as under any label, the label
/// being that of its kind in bold and in the kind's colour, as far as the
/// terminal takes colour.
pub fn colorize_preview(p: &Preview) -> (r: String)
    ensures
        exists|label: Seq<char>| r@ == preview_layout(p@, label),
{
    let label = match p.kind {
        ChangeKind::Create => paint_bold("[CREATE]", "green"),
        ChangeKind::Update => paint_bold("[UPDATE]", "yellow"),
        ChangeKind::Delete => paint_bold("[DELETE]", "red"),
        ChangeKind::Command => paint_bold("[COMMAND]", "cyan"),
        ChangeKind::Test => paint_bold("[TEST]", "magenta"),
    };
    layout_preview(p, label.as_str())
}

} // verus!
