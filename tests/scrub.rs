use langbuddy::text::{scrub, scrub_trimmed};

#[test]
fn scrub_stops_after_closing_parenthesis() {
    assert_eq!(scrub("(abc) extra"), "abc");
}

#[test]
fn scrub_handles_nested_parentheses() {
    assert_eq!(scrub("(a(b)c) x"), "a(b)c");
}

#[test]
fn scrub_without_parentheses_runs_to_end() {
    assert_eq!(scrub("no parens here"), "o parens here");
}

#[test]
fn scrub_unbalanced_runs_to_end() {
    assert_eq!(scrub("(abc"), "abc");
}

#[test]
fn scrub_trims_surrounding_whitespace_first() {
    assert_eq!(scrub("   (ocurrir) happen  "), "ocurrir");
    assert_eq!(scrub("\t(x)\n"), "x");
}

#[test]
fn scrub_of_empty_and_single_character() {
    assert_eq!(scrub(""), "");
    assert_eq!(scrub("   "), "");
    assert_eq!(scrub("("), "");
}

#[test]
fn scrub_stops_only_after_a_level_was_opened() {
    assert_eq!(scrub_trimmed("ab(c)d"), "b(c");
    assert_eq!(scrub_trimmed(")(x"), "");
}

#[test]
fn scrub_trimmed_keeps_inner_whitespace() {
    assert_eq!(scrub_trimmed(" (a) b"), "(a");
}
