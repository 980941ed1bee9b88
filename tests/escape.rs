use ddb::escape;

#[test]
fn quotes_are_doubled() {
    assert_eq!(escape("O'Brien"), "O''Brien");
    assert_eq!(escape("''"), "''''");
}

#[test]
fn dangerous_text_is_removed() {
    assert_eq!(escape(";-;"), "-");
    assert_eq!(escape("a\"b;c--d"), "abcd");
    assert_eq!(escape("x\u{7}y\u{85}z"), "xyz");
    assert_eq!(escape("---"), "-");
}

#[test]
fn star_becomes_percent() {
    assert_eq!(escape("ab*"), "ab%");
}

#[test]
fn escaped_text_has_paired_quotes() {
    let e = escape("'; DROP TABLE x; --'");
    let chars: Vec<char> = e.chars().collect();
    let mut i = 0;
    while i < chars.len() {
        if chars[i] == '\'' {
            assert_eq!(chars[i + 1], '\'');
            i += 2;
        } else {
            i += 1;
        }
    }
    assert_eq!(e, "'' DROP TABLE x ''");
}
