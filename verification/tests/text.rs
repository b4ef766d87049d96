use clippy_lints::text::{
    first_char, is_whitespace, same_text, split_once_char, strip_prefix, strip_prefix_char, trim,
    trim_end, trim_start,
};

const SAMPLES: [&str; 9] = [
    "",
    "   ",
    "abc",
    "  abc  ",
    "\t\n a b \r\n",
    "\u{3000}x\u{2009}y\u{85}",
    "\u{200b}z\u{200b}",
    "é ü",
    "\u{1680}\u{a0}\u{202f}\u{205f}\u{2028}\u{2029}",
];

#[test]
fn whitespace_agrees_with_std() {
    for c in (0u32..=0x1_0000).filter_map(char::from_u32) {
        assert_eq!(is_whitespace(c), c.is_whitespace(), "{c:?}");
    }
}

#[test]
fn trimming_agrees_with_std() {
    for s in SAMPLES {
        assert_eq!(trim_start(s), s.trim_start());
        assert_eq!(trim_end(s), s.trim_end());
        assert_eq!(trim(s), s.trim());
    }
}

#[test]
fn prefixes_agree_with_std() {
    assert_eq!(strip_prefix("vec!{}", "vec"), Some("!{}"));
    assert_eq!(strip_prefix("vec", "vec"), Some(""));
    assert_eq!(strip_prefix("ve", "vec"), None);
    assert_eq!(strip_prefix("vex!", "vec"), None);
    assert_eq!(strip_prefix("éa", "é"), Some("a"));
    assert_eq!(strip_prefix_char("!{}", '!'), Some("{}"));
    assert_eq!(strip_prefix_char("{}", '!'), None);
    assert_eq!(strip_prefix_char("", '!'), None);
}

#[test]
fn split_once_agrees_with_std() {
    for s in ["a!b!c", "!x", "x!", "none", "", "é!ü"] {
        assert_eq!(split_once_char(s, '!'), s.split_once('!'));
    }
}

#[test]
fn first_char_and_equality() {
    assert_eq!(first_char("é!"), Some('é'));
    assert_eq!(first_char(""), None);
    assert!(same_text("vec", "vec"));
    assert!(!same_text("vec", "vecs"));
    assert!(!same_text("vec", "veC"));
}
