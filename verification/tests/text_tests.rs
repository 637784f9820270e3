use pseudo_lsp::text::{
    chars_of, find_first, has_at, line_spans, str_eq, string_of, utf16_units,
};

fn texts_of_spans(text: &str) -> Vec<String> {
    let chars = chars_of(text);
    line_spans(&chars)
        .iter()
        .map(|span| chars[span.start..span.end].iter().collect())
        .collect()
}

#[test]
fn chars_of_keeps_every_character_in_order() {
    assert_eq!(chars_of("aé😀"), vec!['a', 'é', '😀']);
    assert_eq!(chars_of(""), Vec::<char>::new());
}

#[test]
fn string_of_is_the_inverse_of_chars_of() {
    let text = "let x = \"ü\";\n";
    assert_eq!(string_of(&chars_of(text)), text);
    assert_eq!(string_of(&vec!['o', 'k']), "ok");
}

#[test]
fn str_eq_compares_characters() {
    assert!(str_eq("exit", "exit"));
    assert!(!str_eq("exit", "exit "));
    assert!(!str_eq("initialize", "initialized"));
    assert!(!str_eq("abc", "abd"));
    assert!(str_eq("", ""));
}

#[test]
fn utf16_units_is_two_beyond_the_basic_plane() {
    assert_eq!(utf16_units('a'), 1);
    assert_eq!(utf16_units('é'), 1);
    assert_eq!(utf16_units('\u{ffff}'), 1);
    assert_eq!(utf16_units('\u{10000}'), 2);
    assert_eq!(utf16_units('😀'), 2);
}

#[test]
fn has_at_tells_whether_the_needle_stands_there() {
    let chars = chars_of("xAAAy");
    let needle = chars_of("AAA");
    assert!(!has_at(&chars, 0, &needle));
    assert!(has_at(&chars, 1, &needle));
    assert!(!has_at(&chars, 2, &needle));
    assert!(!has_at(&chars, 3, &needle));
    assert!(!has_at(&chars, 99, &needle));
    assert!(!has_at(&chars_of("AA"), 0, &needle));
    assert!(has_at(&chars, 5, &Vec::new()));
    assert!(!has_at(&chars, 6, &Vec::new()));
}

#[test]
fn find_first_gives_the_first_occurrence() {
    let needle = chars_of("AAA");
    assert_eq!(find_first(&chars_of("AAA..AAA"), &needle), Some(0));
    assert_eq!(find_first(&chars_of(".AAAA"), &needle), Some(1));
    assert_eq!(find_first(&chars_of("AA.AA.A"), &needle), None);
    assert_eq!(find_first(&chars_of(""), &needle), None);
    assert_eq!(find_first(&chars_of("é😀AAA"), &needle), Some(2));
    assert_eq!(find_first(&chars_of("abc"), &Vec::new()), Some(0));
    assert_eq!(find_first(&chars_of(""), &Vec::new()), Some(0));
}

#[test]
fn line_spans_split_at_line_feeds() {
    assert_eq!(texts_of_spans("line0\nAAA here\nline2"), vec!["line0", "AAA here", "line2"]);
    assert_eq!(texts_of_spans(""), Vec::<String>::new());
    assert_eq!(texts_of_spans("one"), vec!["one"]);
}

#[test]
fn line_spans_open_no_line_behind_a_final_terminator() {
    assert_eq!(texts_of_spans("a\n"), vec!["a"]);
    assert_eq!(texts_of_spans("a\n\n"), vec!["a", ""]);
    assert_eq!(texts_of_spans("\n"), vec![""]);
}

#[test]
fn line_spans_take_a_carriage_return_before_a_line_feed_as_terminator() {
    assert_eq!(texts_of_spans("a\r\nb\r\n"), vec!["a", "b"]);
    assert_eq!(texts_of_spans("a\r\r\nb"), vec!["a\r", "b"]);
    assert_eq!(texts_of_spans("a\rb\n"), vec!["a\rb"]);
    assert_eq!(texts_of_spans("a\r"), vec!["a\r"]);
}

#[test]
fn line_spans_agree_with_the_lines_of_the_standard_library() {
    for text in ["", "x", "x\n", "\n\nx", "a\r\nb", "a\r", "\r\n", "a\n\r\nb\r", "é\n😀\r\n"] {
        let expected: Vec<String> = text.lines().map(|line| line.to_string()).collect();
        assert_eq!(texts_of_spans(text), expected, "for {:?}", text);
    }
}
