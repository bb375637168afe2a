use vhdl_waves::display_elements::{DisplayColor, DisplayFormat, DisplayOption};
use vhdl_waves::text::{char_is_whitespace, match_prefix, str_equals, to_chars};

#[test]
fn whitespace_is_the_unicode_property() {
    for c in ['\t', '\n', '\u{b}', '\u{c}', '\r', ' ', '\u{85}', '\u{a0}', '\u{1680}'] {
        assert!(char_is_whitespace(c));
    }
    for c in ['\u{2000}', '\u{2005}', '\u{200a}', '\u{2028}', '\u{2029}', '\u{202f}'] {
        assert!(char_is_whitespace(c));
    }
    assert!(char_is_whitespace('\u{205f}'));
    assert!(char_is_whitespace('\u{3000}'));
    for c in ['a', ',', '_', '\u{8}', '\u{e}', '\u{1f}', '\u{200b}', '\u{feff}', '\u{180e}'] {
        assert!(!char_is_whitespace(c));
    }
}

#[test]
fn whitespace_agrees_with_the_standard_library() {
    for code in 0u32..0x3100 {
        if let Some(c) = char::from_u32(code) {
            assert_eq!(char_is_whitespace(c), c.is_whitespace());
        }
    }
}

#[test]
fn characters_of_a_text() {
    assert_eq!(to_chars(""), Vec::<char>::new());
    assert_eq!(to_chars("aé€"), vec!['a', 'é', '€']);
}

#[test]
fn texts_are_compared_by_characters() {
    assert!(str_equals("", ""));
    assert!(str_equals("omit", "omit"));
    assert!(!str_equals("omit", "omi"));
    assert!(!str_equals("omi", "omit"));
    assert!(!str_equals("omit", "Omit"));
}

#[test]
fn prefix_gives_its_length() {
    let chars = to_chars("color réd");
    assert_eq!(match_prefix(&chars, "color "), Some(6));
    assert_eq!(match_prefix(&chars, "color ré"), Some(8));
    assert_eq!(match_prefix(&chars, ""), Some(0));
    assert_eq!(match_prefix(&chars, "color réd"), Some(9));
    assert_eq!(match_prefix(&chars, "color réd "), None);
    assert_eq!(match_prefix(&chars, "colour"), None);
}

#[test]
fn options_compare_by_value() {
    assert_eq!(DisplayOption::Color(DisplayColor::Red), DisplayOption::Color(DisplayColor::Red));
    assert_ne!(DisplayOption::Color(DisplayColor::Red), DisplayOption::Color(DisplayColor::Blue));
    assert_ne!(DisplayOption::Format(DisplayFormat::Hex), DisplayOption::Omit);
}
