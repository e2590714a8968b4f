use vibe_codegen::text::{
    byte_len_of, chars_of, contains_chars, copy_chars, ends_with_chars, ensure_final_newline,
    is_space_char, join_line_chars, same_chars, slice_of, split_lines, split_words,
    starts_with_chars, string_of, strip_leading_chars, strip_trailing_chars, trim_chars,
};

fn v(s: &str) -> Vec<char> {
    s.chars().collect()
}

fn s(v: &[char]) -> String {
    v.iter().collect()
}

fn lines(text: &str) -> Vec<String> {
    split_lines(&v(text)).iter().map(|l| s(l)).collect()
}

#[test]
fn chars_and_back() {
    assert_eq!(chars_of("héllo"), vec!['h', 'é', 'l', 'l', 'o']);
    assert_eq!(string_of(&vec!['h', 'é', 'l', 'l', 'o']), "héllo");
    assert_eq!(string_of(&chars_of("")), "");
}

#[test]
fn byte_length_counts_utf8() {
    assert_eq!(byte_len_of("héllo"), 6);
    assert_eq!(byte_len_of(""), 0);
}

#[test]
fn lines_are_split_as_std_splits_them() {
    for text in [
        "",
        "a",
        "a\n",
        "a\nb",
        "a\n\nb\n",
        "\n",
        "\n\n",
        "a\r\nb\r\n",
        "a\rb\n",
        "a\r",
        "a\r\r\nb",
        "\r\n",
        "x\n\r\ny",
    ] {
        let want: Vec<String> = text.lines().map(|l| l.to_string()).collect();
        assert_eq!(lines(text), want, "for {text:?}");
    }
}

#[test]
fn lines_are_joined_by_line_feeds() {
    let joined = join_line_chars(&vec![v("a"), v(""), v("b")]);
    assert_eq!(s(&joined), "a\n\nb");
    assert_eq!(s(&join_line_chars(&vec![])), "");
    assert_eq!(s(&join_line_chars(&vec![v("only")])), "only");
}

#[test]
fn trim_takes_unicode_white_space_away() {
    for text in ["", "  a b  ", "\t\n a", "a \u{a0}\u{3000}", "\u{2003}x\u{2028}", " \u{feff} ", "  "] {
        assert_eq!(s(&trim_chars(&v(text))), text.trim(), "for {text:?}");
    }
}

#[test]
fn strip_takes_repeated_characters_away() {
    assert_eq!(s(&strip_leading_chars(&v("\u{feff}\u{feff}ab\u{feff}"), '\u{feff}')), "ab\u{feff}");
    assert_eq!(s(&strip_trailing_chars(&v("/src//"), '/')), "/src");
    assert_eq!(s(&strip_trailing_chars(&v("///"), '/')), "");
}

#[test]
fn prefix_suffix_and_substring() {
    assert!(starts_with_chars(&v("import x"), &v("import ")));
    assert!(!starts_with_chars(&v("imp"), &v("import ")));
    assert!(starts_with_chars(&v("abc"), &v("")));
    assert!(ends_with_chars(&v("page.tsx"), &v(".tsx")));
    assert!(!ends_with_chars(&v("tsx"), &v(".tsx")));
    assert!(contains_chars(&v("please add it"), &v("add")));
    assert!(contains_chars(&v("add"), &v("add")));
    assert!(contains_chars(&v("abc"), &v("")));
    assert!(!contains_chars(&v("ad"), &v("add")));
    assert!(!contains_chars(&v("a d d"), &v("add")));
}

#[test]
fn final_newline_is_added_once() {
    assert_eq!(ensure_final_newline("hello"), "hello\n");
    assert_eq!(ensure_final_newline("hello\n"), "hello\n");
    assert_eq!(ensure_final_newline(""), "\n");
}

#[test]
fn white_space_is_what_std_takes_for_it() {
    let mut c = '\0';
    loop {
        assert_eq!(is_space_char(c), c.is_whitespace(), "for {:?}", c);
        if c == char::MAX {
            break;
        }
        c = char::from_u32(c as u32 + 1).unwrap_or('\u{e000}');
    }
}

#[test]
fn words_are_split_as_std_splits_them() {
    for text in ["", "  ", "a", " a  b\tc\n", "\u{3000}x\u{a0}y", "one two  three   "] {
        let got: Vec<String> = split_words(&v(text)).iter().map(|w| s(w)).collect();
        let want: Vec<&str> = text.split_whitespace().collect();
        assert_eq!(got, want, "for {text:?}");
    }
}

#[test]
fn slices_and_copies() {
    assert_eq!(s(&slice_of(&v("hello"), 1, 3)), "el");
    assert_eq!(s(&slice_of(&v("hello"), 2, 2)), "");
    assert_eq!(s(&copy_chars(&v("hello"))), "hello");
    assert!(same_chars(&v("ab"), &v("ab")));
    assert!(!same_chars(&v("ab"), &v("ac")));
    assert!(!same_chars(&v("ab"), &v("abc")));
}
