use gitmind::text::{
    contains_text, is_white_space_char, join_strings, replace_text, same_text, split_char, trim,
    trim_end_matches_char,
};

#[test]
fn whitespace_test_agrees_with_std_on_every_char() {
    for code in 0u32..=0x10FFFF {
        if let Some(c) = char::from_u32(code) {
            assert_eq!(is_white_space_char(c), c.is_whitespace(), "char {:#x}", code);
        }
    }
}

#[test]
fn text_helpers_agree_with_std() {
    let samples = ["", "a", "  a b  ", "a::b", "x$prompty$prompt", "\u{2003}z\u{2003}", "::", "aaaa"];
    for s in samples {
        assert_eq!(trim(s), s.trim());
        assert_eq!(split_char(s, ':'), s.split(':').collect::<Vec<_>>());
        assert_eq!(replace_text(s, "$prompt", "P"), s.replace("$prompt", "P"));
        assert_eq!(replace_text(s, "aa", "b"), s.replace("aa", "b"));
        assert_eq!(replace_text(s, "", "X"), s.replace("", "X"));
        assert_eq!(contains_text(s, "$prompt"), s.contains("$prompt"));
        assert_eq!(trim_end_matches_char(s, ':'), s.trim_end_matches(':'));
    }
}

#[test]
fn trim_removes_spaces_tabs_and_newlines() {
    assert_eq!(trim("  \n\tfeat: add login \r\n"), "feat: add login");
}

#[test]
fn trim_keeps_inner_whitespace() {
    assert_eq!(trim(" a  b "), "a  b");
}

#[test]
fn trim_of_only_whitespace_is_empty() {
    assert_eq!(trim(" \t\n "), "");
    assert_eq!(trim(""), "");
}

#[test]
fn trim_handles_unicode_whitespace() {
    assert_eq!(trim("\u{3000}\u{a0}fix\u{2028}"), "fix");
    assert_eq!(trim("\u{3000}\u{a0}fix\u{2028}"), "\u{3000}\u{a0}fix\u{2028}".trim());
}

#[test]
fn trim_is_idempotent() {
    let once = trim("  x y  ");
    assert_eq!(trim(&once), once);
}

#[test]
fn trim_end_matches_removes_every_trailing_slash() {
    assert_eq!(trim_end_matches_char("http://localhost:11434///", '/'), "http://localhost:11434");
    assert_eq!(trim_end_matches_char("http://h", '/'), "http://h");
    assert_eq!(trim_end_matches_char("///", '/'), "");
}

#[test]
fn split_keeps_empty_fields() {
    assert_eq!(split_char("cli:gemini", ':'), vec!["cli", "gemini"]);
    assert_eq!(split_char("cli", ':'), vec!["cli"]);
    assert_eq!(split_char("a::b:", ':'), vec!["a", "", "b", ""]);
    assert_eq!(split_char("", ':'), vec![""]);
}

#[test]
fn join_puts_separator_between_parts() {
    let parts = vec!["Rust".to_string(), "Python".to_string(), "Go".to_string()];
    assert_eq!(join_strings(&parts, ", "), "Rust, Python, Go");
    assert_eq!(join_strings(&vec!["Rust".to_string()], ", "), "Rust");
    assert_eq!(join_strings(&Vec::new(), ", "), "");
}

#[test]
fn replace_replaces_every_occurrence_left_to_right() {
    assert_eq!(replace_text("-p=$prompt;$prompt", "$prompt", "X"), "-p=X;X");
    assert_eq!(replace_text("aaa", "aa", "b"), "ba");
    assert_eq!(replace_text("none here", "$prompt", "X"), "none here");
    assert_eq!(replace_text("ab", "", "-"), "-a-b-");
    assert_eq!(replace_text("", "", "-"), "-");
}

#[test]
fn contains_finds_substrings() {
    assert!(contains_text("--input=$prompt", "$prompt"));
    assert!(!contains_text("--input=$promp", "$prompt"));
    assert!(contains_text("abc", ""));
}

#[test]
fn same_text_compares_contents() {
    assert!(same_text("ollama", "ollama"));
    assert!(!same_text("ollama", "olama"));
    assert!(!same_text("ollama", "ollama "));
}
