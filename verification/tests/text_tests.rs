use certbot_api::text::{copy_str, join_from, lines_of, sort_strings, str_le, trim_end_str, trim_str};

fn v(items: &[&str]) -> Vec<String> {
    items.iter().map(|x| x.to_string()).collect()
}

#[test]
fn trimming() {
    assert_eq!(trim_str("  a b \t\n"), "a b");
    assert_eq!(trim_str("\u{3000}x\u{00A0}"), "x");
    assert_eq!(trim_end_str("  a  \r\n"), "  a");
    assert_eq!(trim_str(""), "");
    assert_eq!(copy_str("héllo"), "héllo");
}

#[test]
fn lines_like_str_lines() {
    assert_eq!(lines_of("a\nb\r\n\nc"), v(&["a", "b", "", "c"]));
    assert_eq!(lines_of("a\n"), v(&["a"]));
    assert_eq!(lines_of(""), Vec::<String>::new());
    assert_eq!(lines_of("x\r"), v(&["x\r"]));
    for text in ["a\nb\r\n\nc", "a\n", "", "\n\n", "x\ry\r\n"] {
        let expected: Vec<String> = text.lines().map(|l| l.to_string()).collect();
        assert_eq!(lines_of(text), expected);
    }
}

#[test]
fn joining_a_suffix() {
    let list = v(&["a", "b", "c"]);
    assert_eq!(join_from(&list, 0, ", "), "a, b, c");
    assert_eq!(join_from(&list, 2, ", "), "c");
    assert_eq!(join_from(&list, 3, ", "), "");
}

#[test]
fn string_order() {
    assert!(str_le("a", "b"));
    assert!(str_le("ab", "ab"));
    assert!(str_le("a", "ab"));
    assert!(!str_le("b", "ab"));
    assert!(str_le("Z", "a"));
}

#[test]
fn sorting_strings() {
    assert_eq!(sort_strings(v(&["b", "a", "B", "ab", "a"])), v(&["B", "a", "a", "ab", "b"]));
    let mut words = v(&["zeta", "alpha", "Mid", "mid", "é", "e"]);
    let sorted = sort_strings(words.clone());
    words.sort();
    assert_eq!(sorted, words);
}
