use vstd::prelude::*;

verus! {

/// What a response holds.
#[derive(Debug, Clone, Copy, PartialEq, Eq, Structural)]
pub enum Kind {
    Plan,
    Answer,
}

/// The limits that a request announces to the model.
#[derive(Debug, Clone)]
pub struct Limits {
    pub max_actions: usize,
    pub max_patch_bytes: usize,
    pub allowed_commands: Vec<String>,
}

/// The allowlists that a request announces to the model.
#[derive(Debug, Clone)]
pub struct Safety {
    pub path_allowlist: Vec<String>,
    pub command_allowlist: Vec<String>,
}

/// The prompts of a request.
#[derive(Debug, Clone)]
pub struct Instruction {
    pub system: String,
    pub user: String,
    pub developer: Option<String>,
}

/// A snapshot of one file's content, as the model is to see it.
#[derive(Debug, Clone)]
pub struct FileBlob {
    pub path: String,
    pub bytes: usize,
    pub hash: Option<String>,
    pub truncated: bool,
    pub content: String,
}

/// A prose answer of the model.
#[derive(Debug, Clone)]
pub struct Answer {
    pub title: String,
    pub content: String,
}

/// One proposed operation.
#[derive(Debug)]
pub enum Step {
    Create { id: String, title: String, path: String, language: Option<String>, content: Option<String> },
    Update { id: String, title: String, path: String, patch: Option<String>, content: Option<String> },
    Delete { id: String, title: String, path: String },
    Command { id: String, title: String, command: String, cwd: Option<String> },
    Test { id: String, title: String, command: String },
}

/// An ordered list of proposed operations; the order is the order of execution.
#[derive(Debug)]
pub struct Plan {
    pub summary: String,
    pub steps: Vec<Step>,
}

/// A response of the model.
#[derive(Debug)]
pub struct LlmResponse {
    pub schema_version: String,
    pub kind: Kind,
    pub plan: Option<Plan>,
    pub answer: Option<Answer>,
}

/// The text of an optional string.
pub open spec fn opt_view(o: Option<String>) -> Option<Seq<char>> {
    match o {
        Some(s) => Some(s@),
        None => None,
    }
}

/// A step as plain data.
pub enum StepView {
    Create { id: Seq<char>, title: Seq<char>, path: Seq<char>, language: Option<Seq<char>>, content: Option<Seq<char>> },
    Update { id: Seq<char>, title: Seq<char>, path: Seq<char>, patch: Option<Seq<char>>, content: Option<Seq<char>> },
    Delete { id: Seq<char>, title: Seq<char>, path: Seq<char> },
    Command { id: Seq<char>, title: Seq<char>, command: Seq<char>, cwd: Option<Seq<char>> },
    Test { id: Seq<char>, title: Seq<char>, command: Seq<char> },
}

/// A plan as plain data.
pub struct PlanView {
    pub summary: Seq<char>,
    pub steps: Seq<StepView>,
}

impl View for Step {
    type V = StepView;

    open spec fn view(&self) -> StepView {
        match *self {
            Step::Create { id, title, path, language, content } => StepView::Create {
                id: id@,
                title: title@,
                path: path@,
                language: opt_view(language),
                content: opt_view(content),
            },
            Step::Update { id, title, path, patch, content } => StepView::Update {
                id: id@,
                title: title@,
                path: path@,
                patch: opt_view(patch),
                content: opt_view(content),
            },
            Step::Delete { id, title, path } => StepView::Delete {
                id: id@,
                title: title@,
                path: path@,
            },
            Step::Command { id, title, command, cwd } => StepView::Command {
                id: id@,
                title: title@,
                command: command@,
                cwd: opt_view(cwd),
            },
            Step::Test { id, title, command } => StepView::Test {
                id: id@,
                title: title@,
                command: command@,
            },
        }
    }
}

/// The steps as plain data.
pub open spec fn steps_view(steps: Seq<Step>) -> Seq<StepView> {
    steps.map_values(|s: Step| s@)
}

impl View for Plan {
    type V = PlanView;

    open spec fn view(&self) -> PlanView {
        PlanView { summary: self.summary@, steps: steps_view(self.steps@) }
    }
}

impl StepView {
    /// The path of a step on a file; none for a command or a test.
    pub open spec fn path(self) -> Option<Seq<char>> {
        match self {
            StepView::Create { path, .. } => Some(path),
            StepView::Update { path, .. } => Some(path),
            StepView::Delete { path, .. } => Some(path),
            _ => None,
        }
    }

    /// The command of a command or a test step; none for a step on a file.
    pub open spec fn command(self) -> Option<Seq<char>> {
        match self {
            StepView::Command { command, .. } => Some(command),
            StepView::Test { command, .. } => Some(command),
            _ => None,
        }
    }

    /// The title, which serves display only.
    pub open spec fn title(self) -> Seq<char> {
        match self {
            StepView::Create { title, .. } => title,
            StepView::Update { title, .. } => title,
            StepView::Delete { title, .. } => title,
            StepView::Command { title, .. } => title,
            StepView::Test { title, .. } => title,
        }
    }
}

/// A copy of an optional string.
pub fn clone_opt(o: &Option<String>) -> (r: Option<String>)
    ensures
        r == *o,
{
    match o {
        Some(s) => Some(s.clone()),
        None => None,
    }
}

/// A copy of a list of strings.
pub fn clone_strings(v: &[String]) -> (r: Vec<String>)
    ensures
        r@ == v@,
{
    let mut r: Vec<String> = Vec::new();
    let mut i: usize = 0;
    while i < v.len()
        invariant
            i <= v.len(),
            r@ == v@.take(i as int),
        decreases v.len() - i,
    {
        r.push(v[i].clone());
        assert(v@.take(i + 1) == v@.take(i as int).push(v@[i as int]));
        i += 1;
    }
    assert(v@.take(v.len() as int) == v@);
    r
}

impl Clone for Step {
    fn clone(&self) -> (r: Self)
        ensures
            r == *self,
    {
        match self {
            Step::Create { id, title, path, language, content } => Step::Create {
                id: id.clone(),
                title: title.clone(),
                path: path.clone(),
                language: clone_opt(language),
                content: clone_opt(content),
            },
            Step::Update { id, title, path, patch, content } => Step::Update {
                id: id.clone(),
                title: title.clone(),
                path: path.clone(),
                patch: clone_opt(patch),
                content: clone_opt(content),
            },
            Step::Delete { id, title, path } => Step::Delete {
                id: id.clone(),
                title: title.clone(),
                path: path.clone(),
            },
            Step::Command { id, title, command, cwd } => Step::Command {
                id: id.clone(),
                title: title.clone(),
                command: command.clone(),
                cwd: clone_opt(cwd),
            },
            Step::Test { id, title, command } => Step::Test {
                id: id.clone(),
                title: title.clone(),
                command: command.clone(),
            },
        }
    }
}

impl Clone for Plan {
    fn clone(&self) -> (r: Self)
        ensures
            r.summary == self.summary,
            r.steps@ == self.steps@,
            r@ == self@,
    {
        let mut steps: Vec<Step> = Vec::new();
        let mut i: usize = 0;
        while i < self.steps.len()
            invariant
                i <= self.steps.len(),
                steps@ == self.steps@.take(i as int),
            decreases self.steps.len() - i,
        {
            steps.push(self.steps[i].clone());
            assert(self.steps@.take(i + 1) == self.steps@.take(i as int).push(self.steps@[i as int]));
            i += 1;
        }
        assert(self.steps@.take(self.steps.len() as int) == self.steps@);
        Plan { summary: self.summary.clone(), steps }
    }
}

impl Default for Plan {
    fn default() -> (r: Self)
        ensures
            r@.summary.len() == 0,
            r@.steps.len() == 0,
    {
        Plan { summary: String::new(), steps: Vec::new() }
    }
}


impl Limits {
    /// The limits that a request announces.
    pub fn new(max_actions: usize, max_patch_bytes: usize, allowed_commands: &[String]) -> (r:
        Self)
        ensures
            r.max_actions == max_actions,
            r.max_patch_bytes == max_patch_bytes,
            r.allowed_commands@ == allowed_commands@,
    {
        Limits { max_actions, max_patch_bytes, allowed_commands: clone_strings(allowed_commands) }
    }
}

impl Safety {
    /// The allowlists that a request announces.
    pub fn new(path_allowlist: &[String], command_allowlist: &[String]) -> (r: Self)
        ensures
            r.path_allowlist@ == path_allowlist@,
            r.command_allowlist@ == command_allowlist@,
    {
        Safety {
            path_allowlist: clone_strings(path_allowlist),
            command_allowlist: clone_strings(command_allowlist),
        }
    }
}

impl FileBlob {
    /// The snapshot of a file of `bytes` bytes of which `content` was read,
    /// up to `max_bytes`: it is marked as cut where the file is longer.
    pub fn snapshot(path: &str, bytes: usize, max_bytes: usize, content: String) -> (r: Self)
        ensures
            r.path@ == path@,
            r.bytes == bytes,
            r.hash is None,
            r.truncated == (bytes > max_bytes),
            r.content == content,
    {
        FileBlob { path: path.to_owned(), bytes, hash: None, truncated: bytes > max_bytes, content }
    }
}

} // verus!
