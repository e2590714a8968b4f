use vibe_codegen::merge::{
    additive_merge, collapse_lines, final_content, has_use_client_top, is_additive_lowered,
    is_additive_task, merge_line_vecs, preserve_use_client, preserve_use_client_lowered,
    restore_directive_lowered,
};

fn chars(lines: &[&str]) -> Vec<Vec<char>> {
    lines.iter().map(|l| l.chars().collect()).collect()
}

fn texts(lines: &[Vec<char>]) -> Vec<String> {
    lines.iter().map(|l| l.iter().collect()).collect()
}

#[test]
fn merge_with_itself_returns_the_text() {
    let old = "a\nb\nc";
    assert_eq!(additive_merge(old, old), "a\nb\nc");
}

#[test]
fn merge_with_itself_collapses_repeated_neighbours() {
    assert_eq!(additive_merge("a\na\nb\n", "a\na\nb\n"), "a\nb");
}

#[test]
fn merge_keeps_every_old_line() {
    let old = "import a\nconst x = 1\nexport default x";
    let new = "import a\nexport default x";
    let merged = additive_merge(old, new);
    for line in old.lines() {
        assert!(merged.lines().any(|l| l == line));
    }
    assert_eq!(merged, "import a\nconst x = 1\nexport default x");
}

#[test]
fn merge_keeps_every_line_of_both_sides() {
    let old = "one\ntwo\nthree\nfour";
    let new = "zero\ntwo\nfive\nfour\nsix";
    let merged = additive_merge(old, new);
    for line in old.lines().chain(new.lines()) {
        assert!(merged.lines().any(|l| l == line), "lost {line}");
    }
}

#[test]
fn merge_lays_new_lines_in() {
    assert_eq!(additive_merge("a\nc", "a\nb\nc"), "a\nb\nc");
}

#[test]
fn merge_prefers_the_old_line_on_a_tie() {
    assert_eq!(additive_merge("x", "y"), "x\ny");
    assert_eq!(additive_merge("a\nx\nb", "a\ny\nb"), "a\nx\ny\nb");
}

#[test]
fn merge_with_an_empty_side() {
    assert_eq!(additive_merge("", "a\nb"), "a\nb");
    assert_eq!(additive_merge("a\nb", ""), "a\nb");
    assert_eq!(additive_merge("", ""), "");
}

#[test]
fn merge_reads_both_line_endings() {
    assert_eq!(additive_merge("a\r\nb\r\n", "a\nb\nc\n"), "a\nb\nc");
}

#[test]
fn merge_of_line_vectors() {
    let merged = merge_line_vecs(&chars(&["a", "b"]), &chars(&["b", "c"]));
    assert_eq!(texts(&merged), vec!["a", "b", "c"]);
}

#[test]
fn collapse_reduces_runs() {
    let out = collapse_lines(&chars(&["a", "a", "b", "a", "a", "a"]));
    assert_eq!(texts(&out), vec!["a", "b", "a"]);
}

#[test]
fn directive_is_put_back() {
    let old = "'use client'\n\nexport default function A() {}";
    let new = "export default function A() { return 1 }";
    let kept = preserve_use_client(Some(old), new, "update component");
    assert_eq!(kept, "'use client'\n\nexport default function A() { return 1 }");
    assert!(has_use_client_top(&kept));
}

#[test]
fn directive_is_not_put_back_on_request() {
    let old = "'use client'\n\nexport default function A() {}";
    let new = "export default function A() { return 1 }";
    assert_eq!(preserve_use_client(Some(old), new, "please remove use client from it"), new);
    assert_eq!(preserve_use_client(Some(old), new, "Remove 'use client' here"), new);
    assert_eq!(preserve_use_client_lowered(Some(old), new, "remove use client"), new);
}

#[test]
fn directive_is_left_alone_where_nothing_is_lost() {
    let with = "\"use client\";\nexport const a = 1";
    let without = "export const a = 1";
    assert_eq!(preserve_use_client(Some(with), with, "update"), with);
    assert_eq!(preserve_use_client(Some(without), without, "update"), without);
    assert_eq!(preserve_use_client(None, without, "update"), without);
}

#[test]
fn directive_put_back_drops_a_byte_order_mark() {
    let old = "'use client'\nexport const a = 1";
    let new = "\u{feff}export const a = 2";
    assert_eq!(
        preserve_use_client(Some(old), new, "update"),
        "'use client'\n\nexport const a = 2"
    );
}

#[test]
fn directive_is_found_behind_comments_and_blank_lines() {
    assert!(has_use_client_top("// note\n\n/* more */\n  'use client';  \nimport x"));
    assert!(has_use_client_top("\u{feff}\"use client\"\n"));
    assert!(!has_use_client_top("import x from 'y'\n'use client'\n"));
    assert!(!has_use_client_top("const a = 1\n"));
    assert!(!has_use_client_top(""));
}

#[test]
fn directive_is_looked_for_in_the_first_ten_lines_only() {
    let nine_blank = "\n".repeat(9);
    let ten_blank = "\n".repeat(10);
    assert!(has_use_client_top(&format!("{nine_blank}'use client'\n")));
    assert!(!has_use_client_top(&format!("{ten_blank}'use client'\n")));
}

#[test]
fn additive_task_words() {
    assert!(is_additive_task("Add a button"));
    assert!(is_additive_task("INSERT another row"));
    assert!(!is_additive_task("Add a button and remove the old one"));
    assert!(!is_additive_task("tidy up"));
    assert!(is_additive_lowered("append a footer"));
    assert!(!is_additive_lowered("Append a footer"));
}

#[test]
fn final_content_for_a_new_file_ends_in_a_line_feed() {
    assert_eq!(final_content(false, None, "hi", "create a file"), "hi\n");
    assert_eq!(final_content(true, None, "hi\n", "create a file"), "hi\n");
    assert_eq!(final_content(true, None, "", "create a file"), "\n");
}

#[test]
fn final_content_of_an_update_replaces_unless_the_task_is_additive() {
    assert_eq!(final_content(true, Some("hi\n"), "hello", "update the text"), "hello\n");
    assert_eq!(final_content(true, Some("a\nb\n"), "b\nc", "add a line"), "a\nb\nc\n");
    assert_eq!(final_content(false, Some("a\nb\n"), "b\nc", "add a line"), "b\nc\n");
}

#[test]
fn final_content_keeps_the_directive() {
    assert_eq!(
        final_content(true, Some("'use client'\nold\n"), "new", "update it"),
        "'use client'\n\nnew\n"
    );
    assert_eq!(
        final_content(false, Some("'use client'\nold\n"), "new", "update it"),
        "'use client'\n\nnew\n"
    );
}

#[test]
fn additive_update_keeps_the_first_old_line_with_its_mark() {
    let old = "\u{feff}// c\n'use client'\nX\n";
    let proposal = "Z\n'use client'\nX";
    let written = final_content(true, Some(old), proposal, "add z");
    assert_eq!(written, "'use client'\n\n\u{feff}// c\nZ\n'use client'\nX\n");
    for line in old.lines() {
        assert!(written.lines().any(|l| l == line), "lost {line:?}");
    }
    assert!(has_use_client_top(&written));
}

#[test]
fn directive_is_put_back_on_a_merged_text_as_it_is() {
    let old = "// c\n'use client'\nX";
    let merged = "\u{feff}// c\nZ\n'use client'\nX";
    assert_eq!(
        restore_directive_lowered(old, merged, "add z"),
        "'use client'\n\n\u{feff}// c\nZ\n'use client'\nX"
    );
    assert_eq!(restore_directive_lowered(old, merged, "add z, remove use client"), merged);
    assert_eq!(restore_directive_lowered("X", merged, "add z"), merged);
    let opens = "'use client'\nZ";
    assert_eq!(restore_directive_lowered(old, opens, "add z"), opens);
}

#[test]
fn replacing_update_drops_the_mark_of_the_new_content() {
    let old = "'use client'\nold";
    assert_eq!(
        final_content(true, Some(old), "\u{feff}new", "change it"),
        "'use client'\n\nnew\n"
    );
}

fn is_in_order(part: &[String], whole: &[String]) -> bool {
    let mut rest = whole.iter();
    part.iter().all(|p| rest.any(|w| w == p))
}

#[test]
fn merge_has_no_equal_neighbours_and_keeps_the_order() {
    let cases: [(&[&str], &[&str]); 5] = [
        (&["a", "a", "b", "c", "c"], &["b", "b", "d", "c"]),
        (&["x", "y", "x"], &["y", "x", "y"]),
        (&["a", "b"], &["b", "a"]),
        (&[], &["q", "q"]),
        (&["one", "two", "two", "three"], &["zero", "two", "three", "three", "four"]),
    ];
    for (a, b) in cases {
        let merged = texts(&merge_line_vecs(&chars(a), &chars(b)));
        assert!(merged.windows(2).all(|w| w[0] != w[1]), "{merged:?}");
        let a_once = texts(&collapse_lines(&chars(a)));
        let b_once = texts(&collapse_lines(&chars(b)));
        assert!(is_in_order(&a_once, &merged), "{a:?} in {merged:?}");
        assert!(is_in_order(&b_once, &merged), "{b:?} in {merged:?}");
    }
}
