use i_o::prompt::{parse_int_line, string_or_default, strip_line, wants_default};

#[test]
fn integer_lines_read_back() {
    for i in [0i32, 7, -7, 42, -1234, 2147483647, -2147483648, 1000000] {
        let line = format!("{}\n", i);
        assert_eq!(parse_int_line(&line), Some(i));
        let crlf = format!("{}\r\n", i);
        assert_eq!(parse_int_line(&crlf), Some(i));
    }
}

#[test]
fn integer_line_matches_std_parse() {
    for s in ["12", " 12 ", "+5", "-0", "007", "+", "-", "", "1 2", "x1", "1x", "--1", "+-1",
        "2147483648", "-2147483649", "99999999999999999999", "\t-15\n", "\u{3000}8\u{a0}"] {
        assert_eq!(parse_int_line(s), s.trim().parse::<i32>().ok(), "input {:?}", s);
    }
}

#[test]
fn non_numeric_lines_are_refused() {
    for s in ["abc\n", "\n", "", "   \n", "one", "-\n", "+\n", "1.5\n", "1e3\n"] {
        assert_eq!(parse_int_line(s), None, "input {:?}", s);
    }
}

#[test]
fn blank_line_takes_the_default() {
    assert_eq!(string_or_default("\n", "dflt"), "dflt");
    assert_eq!(string_or_default("\r\n", "dflt"), "dflt");
    assert_eq!(string_or_default("", "dflt"), "dflt");
}

#[test]
fn non_blank_line_is_kept_without_its_end() {
    assert_eq!(string_or_default("hello\n", "dflt"), "hello");
    assert_eq!(string_or_default("  hi there \r\n", "dflt"), "  hi there ");
    assert_eq!(string_or_default(" \n", "dflt"), " ");
}

#[test]
fn strip_line_removes_only_the_line_end() {
    assert_eq!(strip_line("abc\n"), "abc");
    assert_eq!(strip_line("abc\r\n\n\r"), "abc");
    assert_eq!(strip_line("a\nb\n"), "a\nb");
    assert_eq!(strip_line("  x  "), "  x  ");
    assert_eq!(strip_line(""), "");
}

#[test]
fn default_wanted_only_on_blank_line() {
    assert!(wants_default("\n"));
    assert!(wants_default(""));
    assert!(!wants_default("2.5\n"));
    assert!(!wants_default(" \n"));
}
