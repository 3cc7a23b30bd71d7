use yazi_config::error::ErrorKind;
use yazi_config::pattern::Pattern;

fn accepts(pattern: &str, path: &str, is_dir: bool) -> bool {
    Pattern::from_str(pattern).unwrap().match_path(path, is_dir)
}

#[test]
fn star_matches_within_the_last_component() {
    assert!(accepts("*.tmp", "a/b.tmp", false));
    assert!(accepts("*.tmp", "b.tmp", false));
    assert!(accepts("*.tmp", ".tmp", false));
    assert!(!accepts("*.tmp", "a/b.tmpx", false));
    assert!(!accepts("*.tmp", "a.tmp/b", false));
}

#[test]
fn star_alone_matches_every_name() {
    assert!(accepts("*", "a/b/c", false));
    assert!(accepts("*", "", false));
    assert!(accepts("*/", "a/b", true));
}

#[test]
fn star_does_not_cross_a_separator() {
    assert!(accepts("a/*.rs", "a/b.rs", false));
    assert!(!accepts("a/*.rs", "a/b/c.rs", false));
    assert!(accepts("a/*/c.rs", "a/b/c.rs", false));
    assert!(accepts("*/*", "a/b", false));
    assert!(!accepts("*/*", "a/b/c", false));
}

#[test]
fn pattern_with_separator_is_held_against_the_whole_path() {
    assert!(accepts("src/main.rs", "src/main.rs", false));
    assert!(!accepts("src/main.rs", "x/src/main.rs", false));
    assert!(accepts("main.rs", "x/src/main.rs", false));
}

#[test]
fn question_mark_matches_one_character() {
    assert!(accepts("?.rs", "a.rs", false));
    assert!(!accepts("?.rs", "ab.rs", false));
    assert!(!accepts("?.rs", ".rs", false));
    assert!(accepts("a?c", "aéc", false));
    assert!(!accepts("a/?/c", "a///c", false));
}

#[test]
fn several_stars_backtrack() {
    assert!(accepts("*a*b*", "xaybz", false));
    assert!(accepts("*a*b*", "ab", false));
    assert!(!accepts("*a*b*", "ba", false));
    assert!(accepts("**.rs", "x.rs", false));
    assert!(accepts("a*a*a", "aaaa", false));
    assert!(!accepts("a*a*a", "aa", false));
}

#[test]
fn literal_characters_match_themselves_exactly() {
    assert!(accepts("Makefile", "Makefile", false));
    assert!(!accepts("Makefile", "makefile", false));
    assert!(!accepts("Makefile", "Makefile2", false));
    assert!(!accepts("Makefile", "", false));
}

#[test]
fn trailing_separator_makes_a_directory_pattern() {
    assert!(accepts("src/", "a/src", true));
    assert!(!accepts("src/", "a/src", false));
    assert!(accepts("src", "a/src", false));
    assert!(!accepts("src", "a/src", true));
    assert!(accepts("*.d//", "conf.d", true));
    assert!(accepts("a/b/", "a/b", true));
    assert!(!accepts("a/b/", "x/a/b", true));
}

#[test]
fn invalid_patterns_are_rejected() {
    for text in ["", "/", "//", "[abc]", "a]", "{a,b}", "x}", "*.[ch]/"] {
        let e = Pattern::from_str(text).err().unwrap();
        assert_eq!(e.kind, ErrorKind::Pattern);
        assert_eq!(e.value, text);
    }
}

#[test]
fn pattern_error_message() {
    let e = Pattern::from_str("[").err().unwrap();
    assert_eq!(e.message(), "Invalid pattern: [");
}
