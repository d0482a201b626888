use rscript_runner::text::{characters, decimal_text, join, trim};

#[test]
fn decimal_of_small_numbers() {
    assert_eq!(decimal_text(0), "0");
    assert_eq!(decimal_text(7), "7");
    assert_eq!(decimal_text(10), "10");
    assert_eq!(decimal_text(255), "255");
    assert_eq!(decimal_text(1009), "1009");
}

#[test]
fn decimal_of_negative_numbers() {
    assert_eq!(decimal_text(-1), "-1");
    assert_eq!(decimal_text(-120), "-120");
}

#[test]
fn decimal_of_extremes() {
    assert_eq!(decimal_text(i32::MAX), "2147483647");
    assert_eq!(decimal_text(i32::MIN), "-2147483648");
}

#[test]
fn decimal_agrees_with_standard_formatting() {
    let samples = [0, 1, 9, 10, 11, 99, 100, 101, 12345, -5, -10, -99999, 1073741824];
    for n in samples {
        assert_eq!(decimal_text(n), format!("{}", n));
    }
}

#[test]
fn join_of_nothing_is_empty() {
    assert_eq!(join(&Vec::new(), ", "), "");
}

#[test]
fn join_of_one_has_no_separator() {
    assert_eq!(join(&vec!["a".to_string()], ", "), "a");
}

#[test]
fn join_puts_separator_between_neighbours() {
    let items = vec!["a".to_string(), "b".to_string(), "c".to_string()];
    assert_eq!(join(&items, ", "), "a, b, c");
    assert_eq!(join(&items, ""), "abc");
}

#[test]
fn trim_removes_surrounding_white_space() {
    assert_eq!(trim("  hello \n"), "hello");
    assert_eq!(trim("\n\t x y \r\n"), "x y");
    assert_eq!(trim("result\n"), "result");
}

#[test]
fn trim_keeps_inner_white_space() {
    assert_eq!(trim(" a \t b\nc "), "a \t b\nc");
}

#[test]
fn trim_of_blank_text_is_empty() {
    assert_eq!(trim(""), "");
    assert_eq!(trim("   "), "");
    assert_eq!(trim("\n"), "");
    assert_eq!(trim(" \t\r\n"), "");
}

#[test]
fn trim_leaves_tight_text_alone() {
    assert_eq!(trim("x"), "x");
    assert_eq!(trim("no-space"), "no-space");
}

#[test]
fn trim_knows_unicode_white_space() {
    assert_eq!(trim("\u{a0}\u{e9}t\u{e9}\u{3000}"), "\u{e9}t\u{e9}");
    assert_eq!(trim("\u{2003}x\u{2028}"), "x");
}

#[test]
fn trim_agrees_with_the_standard_library() {
    let samples = ["", " ", "a", " a", "a ", " a b ", "\n\na\n\n", "\u{a0}", "\u{200b}x\u{200b}", "日本 語\t"];
    for s in samples {
        assert_eq!(trim(s), s.trim());
    }
}

#[test]
fn characters_are_listed_in_order() {
    assert_eq!(characters("h\u{e9}llo"), vec!['h', '\u{e9}', 'l', 'l', 'o']);
    assert_eq!(characters(""), Vec::<char>::new());
}
