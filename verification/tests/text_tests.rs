use gvc::text::{normalize_text, trim_text};

fn listed_as_space(c: char) -> bool {
    matches!(
        c,
        '\u{9}'..='\u{D}'
            | ' '
            | '\u{85}'
            | '\u{A0}'
            | '\u{1680}'
            | '\u{2000}'..='\u{200A}'
            | '\u{2028}'
            | '\u{2029}'
            | '\u{202F}'
            | '\u{205F}'
            | '\u{3000}'
    )
}

#[test]
fn trimming_takes_exactly_the_white_space_characters() {
    for code in 0..=0x10FFFFu32 {
        let c = match char::from_u32(code) {
            Some(c) => c,
            None => continue,
        };
        let text: String = [c, 'x', c].iter().collect();
        let expected = if listed_as_space(c) { "x".to_string() } else { text.clone() };
        assert_eq!(trim_text(&text), expected, "U+{:04X}", code);
    }
}

#[test]
fn trimming_keeps_what_stands_between() {
    assert_eq!(trim_text("  a b \t\n"), "a b");
    assert_eq!(trim_text(""), "");
    assert_eq!(trim_text(" \u{3000} "), "");
    assert_eq!(trim_text("x"), "x");
    assert_eq!(normalize_text("  YeS \r\n"), "yes");
}
