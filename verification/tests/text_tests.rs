use repokai::text::{same_text, trim, wrap_text};

fn strings(v: &[&str]) -> Vec<String> {
    v.iter().map(|s| s.to_string()).collect()
}

#[test]
fn wrap_text_breaks_between_words() {
    assert_eq!(wrap_text("hello world foo", 11), strings(&["hello world", "foo"]));
}

#[test]
fn wrap_text_moves_word_that_does_not_fit() {
    assert_eq!(wrap_text("a bc", 3), strings(&["a", "bc"]));
}

#[test]
fn wrap_text_cuts_long_words() {
    assert_eq!(wrap_text("abcdefghij", 4), strings(&["abcd", "efgh", "ij"]));
}

#[test]
fn wrap_text_flushes_before_long_word() {
    assert_eq!(wrap_text("xy abcdefg z", 3), strings(&["xy", "abc", "def", "g z"]));
}

#[test]
fn wrap_text_empty_text_gives_one_empty_line() {
    assert_eq!(wrap_text("", 10), strings(&[""]));
    assert_eq!(wrap_text(" \t\n ", 10), strings(&[""]));
}

#[test]
fn wrap_text_zero_width_counts_as_one() {
    assert_eq!(wrap_text("ab c", 0), strings(&["a", "b", "c"]));
}

#[test]
fn wrap_text_collapses_whitespace() {
    assert_eq!(wrap_text("  one\u{a0}two\n\nthree  ", 20), strings(&["one two three"]));
}

#[test]
fn wrap_text_counts_characters_not_bytes() {
    assert_eq!(wrap_text("héllo wörld", 5), strings(&["héllo", "wörld"]));
}

#[test]
fn wrap_text_lines_never_exceed_width() {
    let text = "The quick brown fox jumps over the lazy dog, supercalifragilisticexpialidocious!";
    for width in 1..30 {
        let lines = wrap_text(text, width);
        assert!(!lines.is_empty());
        for l in &lines {
            assert!(l.chars().count() <= width);
            assert!(!l.is_empty());
        }
        let joined: String = lines.concat().chars().filter(|c| *c != ' ').collect();
        let visible: String = text.chars().filter(|c| !c.is_whitespace()).collect();
        assert_eq!(joined, visible);
    }
}

#[test]
fn trim_removes_unicode_whitespace() {
    assert_eq!(trim("  \u{3000}ghp_abc\r\n"), "ghp_abc");
    assert_eq!(trim("   "), "");
    assert_eq!(trim("a b"), "a b");
}

#[test]
fn same_text_compares_characters() {
    assert!(same_text("private", "private"));
    assert!(!same_text("private", "public"));
    assert!(!same_text("priv", "private"));
}

#[test]
fn wrapping_again_changes_nothing() {
    for (text, width) in [
        ("the quick brown fox jumps over the lazy dog", 10usize),
        ("abcdefghij klm nopqrstuvwxyz a", 4),
        ("   spaced\tout\n\nwords  ", 7),
        ("", 5),
        ("x y z", 0),
    ] {
        let lines = wrap_text(text, width);
        assert_eq!(wrap_text(&lines.join(" "), width), lines);
    }
}
