use vibe_codegen::patch::{
    colorize_preview, layout_preview, plain_preview, preview, preview_lowered, preview_step,
    short_diff, ChangeKind, FileState, Preview,
};
use vibe_codegen::wire::{Plan, Step};

fn present(text: &str) -> FileState {
    FileState::Present { size: text.len() as u64, text: Some(text.to_string()) }
}

fn create(path: &str, content: Option<&str>) -> Step {
    Step::Create {
        id: "1".into(),
        title: "t".into(),
        path: path.into(),
        language: None,
        content: content.map(|s| s.to_string()),
    }
}

fn update(path: &str, content: Option<&str>, patch: Option<&str>) -> Step {
    Step::Update {
        id: "1".into(),
        title: "t".into(),
        path: path.into(),
        patch: patch.map(|s| s.to_string()),
        content: content.map(|s| s.to_string()),
    }
}

#[test]
fn diff_of_equal_texts_is_empty() {
    assert_eq!(short_diff("a\nb\n", "a\nb", 80), "");
    assert_eq!(short_diff("", "", 80), "");
}

#[test]
fn diff_shows_removed_and_added_lines() {
    assert_eq!(short_diff("a\nb\nc", "a\nx\nc", 80), "- b\n+ x");
    assert_eq!(short_diff("a", "a\nb", 80), "+ b");
    assert_eq!(short_diff("a\nb", "a", 80), "- b");
    assert_eq!(short_diff("", "x\ny", 80), "+ x\n+ y");
}

#[test]
fn diff_walks_both_texts_in_step() {
    assert_eq!(short_diff("a\nb", "x\na\nb", 80), "- a\n+ x\n- b\n+ a\n+ b");
}

#[test]
fn diff_is_cut_at_the_cap() {
    assert_eq!(short_diff("a\nb\nc", "x\ny\nz", 2), "- a\n+ x\n... (diff truncated)");
    assert_eq!(short_diff("a\nb\nc", "x\ny\nz", 3), "- a\n+ x\n- b\n+ y\n... (diff truncated)");
    assert_eq!(short_diff("a", "b", 0), "... (diff truncated)");
    assert_eq!(short_diff("a", "a", 0), "... (diff truncated)");
    assert_eq!(short_diff("a", "b", 3), "- a\n+ b");
}

#[test]
fn preview_of_a_create() {
    let p = preview_step("/root", &create("src/a.ts", Some("hi")), &FileState::Absent, "create it");
    assert_eq!(p.kind, ChangeKind::Create);
    assert_eq!(p.path.as_deref(), Some("/root/src/a.ts"));
    assert_eq!(p.bytes_before, None);
    assert_eq!(p.bytes_after, Some(3));
    assert_eq!(p.diff_snippet, None);
    assert_eq!(p.command, None);
}

#[test]
fn preview_of_a_create_over_a_file() {
    let p = preview_step("/root", &create("src/a.ts", Some("new")), &present("old\n"), "add more");
    assert_eq!(p.bytes_before, Some(4));
    assert_eq!(p.bytes_after, Some(4));
    assert_eq!(p.diff_snippet.as_deref(), Some("- old\n+ new"));
    let none = preview_step("/root", &create("src/a.ts", None), &present("old\n"), "add more");
    assert_eq!(none.bytes_after, None);
    assert_eq!(none.diff_snippet, None);
}

#[test]
fn preview_of_an_update_shows_what_would_be_written() {
    let step = update("src/a.ts", Some("b\nc"), None);
    let replaced = preview_step("/root", &step, &present("a\nb\n"), "change the file");
    assert_eq!(replaced.kind, ChangeKind::Update);
    assert_eq!(replaced.bytes_before, Some(4));
    assert_eq!(replaced.bytes_after, Some(4));
    assert_eq!(replaced.diff_snippet.as_deref(), Some("- a\n+ b\n- b\n+ c"));
    let merged = preview_step("/root", &step, &present("a\nb\n"), "add a line");
    assert_eq!(merged.bytes_after, Some(6));
    assert_eq!(merged.diff_snippet.as_deref(), Some("+ c"));
}

#[test]
fn preview_of_an_update_of_a_missing_file_or_with_a_patch_only() {
    let step = update("src/a.ts", Some("hello"), None);
    let p = preview_step("/root", &step, &FileState::Absent, "change");
    assert_eq!(p.bytes_before, None);
    assert_eq!(p.bytes_after, Some(6));
    assert_eq!(p.diff_snippet, None);
    let patch_only = preview_step("/root", &update("src/a.ts", None, Some("p")), &present("x"), "change");
    assert_eq!(patch_only.bytes_before, Some(1));
    assert_eq!(patch_only.bytes_after, None);
    assert_eq!(patch_only.diff_snippet, None);
}

#[test]
fn preview_of_a_delete() {
    let step = Step::Delete { id: "1".into(), title: "t".into(), path: "src/a.ts".into() };
    let there = preview_step("/root", &step, &FileState::Present { size: 12, text: None }, "");
    assert_eq!(there.kind, ChangeKind::Delete);
    assert_eq!(there.bytes_before, Some(12));
    assert_eq!(there.bytes_after, Some(0));
    let gone = preview_step("/root", &step, &FileState::Absent, "");
    assert_eq!(gone.bytes_before, Some(0));
    assert_eq!(gone.bytes_after, Some(0));
}

#[test]
fn preview_of_commands_passes_the_command_through() {
    let c = Step::Command { id: "1".into(), title: "t".into(), command: "npm install".into(), cwd: None };
    let t = Step::Test { id: "2".into(), title: "t".into(), command: "npm test".into() };
    let pc = preview_step("/root", &c, &FileState::Absent, "");
    let pt = preview_step("/root", &t, &FileState::Absent, "");
    assert_eq!((pc.kind, pc.command.as_deref(), pc.path), (ChangeKind::Command, Some("npm install"), None));
    assert_eq!((pt.kind, pt.command.as_deref(), pt.path), (ChangeKind::Test, Some("npm test"), None));
}

#[test]
fn preview_of_a_plan_keeps_the_order_and_takes_missing_states_as_absent() {
    let plan = Plan {
        summary: "s".into(),
        steps: vec![
            update("src/a.ts", Some("b"), None),
            create("src/b.ts", Some("x")),
            Step::Test { id: "3".into(), title: "t".into(), command: "npm test".into() },
        ],
    };
    let previews = preview("/root", &plan, &vec![present("a\n")], "ADD it");
    assert_eq!(previews.len(), 3);
    assert_eq!(previews[0].kind, ChangeKind::Update);
    assert_eq!(previews[0].diff_snippet.as_deref(), Some("+ b"));
    assert_eq!(previews[1].kind, ChangeKind::Create);
    assert_eq!(previews[1].bytes_before, None);
    assert_eq!(previews[2].kind, ChangeKind::Test);
    let lowered = preview_lowered("/root", &plan, &vec![present("a\n")], "ADD it");
    assert_eq!(lowered[0].diff_snippet.as_deref(), Some("- a\n+ b"));
}

fn sample(kind: ChangeKind) -> Preview {
    Preview {
        kind,
        path: Some("/root/src/a.ts".into()),
        bytes_before: Some(1205),
        bytes_after: None,
        diff_snippet: Some("- a\n+ b".into()),
        command: Some("npm install".into()),
    }
}

#[test]
fn layout_of_a_preview() {
    assert_eq!(
        plain_preview(&sample(ChangeKind::Create)),
        "[CREATE] /root/src/a.ts  (1205B -> -)\n- a\n+ b"
    );
    assert_eq!(
        plain_preview(&sample(ChangeKind::Update)),
        "[UPDATE] /root/src/a.ts  (1205B -> -)\n- a\n+ b"
    );
    assert_eq!(plain_preview(&sample(ChangeKind::Delete)), "[DELETE] /root/src/a.ts  (1205B -> -)");
    assert_eq!(plain_preview(&sample(ChangeKind::Command)), "[COMMAND] npm install");
    assert_eq!(plain_preview(&sample(ChangeKind::Test)), "[TEST] npm install");
    assert_eq!(layout_preview(&sample(ChangeKind::Test), "<t>"), "<t> npm install");
}

#[test]
fn layout_writes_sizes_in_decimal() {
    for n in [0u64, 7, 10, 99, 100, 1234567890, u64::MAX] {
        let p = Preview {
            kind: ChangeKind::Delete,
            path: None,
            bytes_before: Some(n),
            bytes_after: Some(0),
            diff_snippet: None,
            command: None,
        };
        assert_eq!(plain_preview(&p), format!("[DELETE]   ({n}B -> 0B)"));
    }
}

#[test]
fn coloured_preview_holds_the_label_and_the_layout() {
    let text = colorize_preview(&sample(ChangeKind::Create));
    assert!(text.contains("[CREATE]"));
    assert!(text.ends_with(" /root/src/a.ts  (1205B -> -)\n- a\n+ b"));
    let cmd = colorize_preview(&sample(ChangeKind::Command));
    assert!(cmd.contains("[COMMAND]"));
    assert!(cmd.ends_with(" npm install"));
}

#[test]
fn preview_takes_a_file_that_was_not_read_as_empty() {
    let state = FileState::Present { size: 9, text: None };
    assert_eq!(state.text(), Some(""));
    assert_eq!(FileState::Absent.text(), None);
    assert_eq!(present("a").text(), Some("a"));
    let p = preview_step("/root", &update("src/a.ts", Some("x"), None), &state, "change");
    assert_eq!(p.bytes_before, Some(9));
    assert_eq!(p.bytes_after, Some(2));
    assert_eq!(p.diff_snippet.as_deref(), Some("+ x"));
}
