use ev3_controller::decimal::{parse_i32, parse_u32, render_i32, render_u32};
use ev3_controller::text::{
    after_last_char, before_first_char, owned, replace_all, split_char,
    split_words, str_contains, str_equal, str_starts_with, trim_end_matching, trim_start_matching,
    trim_str,
};

#[test]
fn trim_removes_surrounding_whitespace() {
    assert_eq!(trim_str("  outA \n"), "outA");
    assert_eq!(trim_str("\t\r\n"), "");
    assert_eq!(trim_str(""), "");
    assert_eq!(trim_str("a b"), "a b");
    assert_eq!(trim_str("\u{3000}x\u{A0}"), "x");
}

#[test]
fn trim_twice_equals_trim_once() {
    let once = trim_str("  \t cd /tmp \n ");
    assert_eq!(trim_str(&once), once);
}

#[test]
fn trim_end_matching_strips_repeated_slashes() {
    assert_eq!(trim_end_matching("/home/robot///", '/'), "/home/robot");
    assert_eq!(trim_end_matching("///", '/'), "");
    assert_eq!(trim_end_matching("dir", '/'), "dir");
}

#[test]
fn trim_start_matching_strips_repeated_prefix() {
    assert_eq!(trim_start_matching("cdcd foo", "cd"), " foo");
    assert_eq!(trim_start_matching("cd", "cd"), "");
    assert_eq!(trim_start_matching("ls", "cd"), "ls");
}

#[test]
fn starts_with_and_contains() {
    assert!(str_starts_with("bash: cd: x", "bash:"));
    assert!(!str_starts_with("ba", "bash:"));
    assert!(str_starts_with("anything", ""));
    assert!(str_contains("x: No such file", "No such"));
    assert!(!str_contains("No suc", "No such"));
    assert!(str_contains("abc", ""));
}

#[test]
fn equality_of_strings() {
    assert!(str_equal("outA", "outA"));
    assert!(!str_equal("outA", "outB"));
    assert!(!str_equal("out", "outA"));
}

#[test]
fn after_last_and_before_first() {
    assert_eq!(after_last_char("ev3-ports:outA", ':'), "outA");
    assert_eq!(after_last_char("a:b:c", ':'), "c");
    assert_eq!(after_last_char("noseparator", ':'), "noseparator");
    assert_eq!(after_last_char("trailing:", ':'), "");
    assert_eq!(before_first_char("programa.py", '.'), "programa");
    assert_eq!(before_first_char("a.b.c", '.'), "a");
    assert_eq!(before_first_char("plain", '.'), "plain");
}

#[test]
fn split_words_matches_split_whitespace() {
    let cases = ["", "   ", "motor0", " motor0  motor1\nmotor2 ", "a\tb"];
    for c in cases {
        let expected: Vec<String> = c.split_whitespace().map(|s| s.to_string()).collect();
        assert_eq!(split_words(c), expected);
    }
}

#[test]
fn split_char_matches_split() {
    let cases = ["", "a", "a\nb", "a\n", "\n\n", "x\r\ny"];
    for c in cases {
        let expected: Vec<String> = c.split('\n').map(|s| s.to_string()).collect();
        assert_eq!(split_char(c, '\n'), expected);
    }
}

#[test]
fn replace_all_matches_replace() {
    let cases = [("/home/robot/prog", "/home/robot", "~"), ("aaa", "aa", "b"), ("outA", "out", ""), ("x", "yz", "q")];
    for (s, p, r) in cases {
        assert_eq!(replace_all(s, p, r), s.replace(p, r));
    }
}

#[test]
fn concatenation_helpers() {
    assert_eq!(owned("hola"), "hola");
}

#[test]
fn render_integers() {
    assert_eq!(render_i32(0), "0");
    assert_eq!(render_i32(-1050), "-1050");
    assert_eq!(render_i32(i32::MIN), "-2147483648");
    assert_eq!(render_i32(i32::MAX), "2147483647");
    assert_eq!(render_u32(u32::MAX), "4294967295");
    assert_eq!(render_u32(42), "42");
}

#[test]
fn parse_i32_accepts_what_str_parse_accepts() {
    let cases = ["0", "-0", "+7", "-2147483648", "2147483647", "2147483648", "-2147483649", "", "-", "+", "12a", " 1", "0001", "+-1", "99999999999999999999999"];
    for c in cases {
        assert_eq!(parse_i32(c), c.parse::<i32>().ok(), "case {:?}", c);
    }
}

#[test]
fn parse_u32_accepts_what_str_parse_accepts() {
    let cases = ["0", "-0", "+7", "4294967295", "4294967296", "", "+", "-1", "1234"];
    for c in cases {
        assert_eq!(parse_u32(c), c.parse::<u32>().ok(), "case {:?}", c);
    }
}

#[test]
fn rendered_integers_parse_back() {
    for n in [0, 1, -1, 9, 10, -1050, 1050, i32::MIN, i32::MAX] {
        assert_eq!(parse_i32(&render_i32(n)), Some(n));
    }
    for n in [0u32, 7, 1_000_000, u32::MAX] {
        assert_eq!(parse_u32(&render_u32(n)), Some(n));
    }
}
