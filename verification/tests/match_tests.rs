use glob_matcher::Matcher;
use glob_matcher::compile;

fn matcher_for(pattern: &str) -> Matcher {
    let tokens = compile(pattern).expect("pattern should compile");
    let mut m = Matcher::new();
    for t in tokens {
        m.tokens.push(t);
    }
    m
}

#[test]
fn star_accepts_everything() {
    let m = matcher_for("*");
    assert!(m.match_str(""));
    assert!(m.match_str("a"));
    assert!(m.match_str("ab"));
    assert!(m.match_str("some longer candidate"));
}

#[test]
fn question_accepts_exactly_one_character() {
    let m = matcher_for("?");
    assert!(m.match_str("a"));
    assert!(m.match_str("!"));
    assert!(!m.match_str("ab"));
    assert!(!m.match_str("abc"));
}

#[test]
fn question_accepts_empty_through_the_end_of_input_rule() {
    // At the end of the candidate a single pending token is forgiven,
    // whatever its kind; so the one token of "?" is forgiven against "".
    let m = matcher_for("?");
    assert!(m.match_str(""));
}

#[test]
fn range_group_accepts_its_members() {
    let m = matcher_for("[a-c]");
    assert!(m.match_str("a"));
    assert!(m.match_str("b"));
    assert!(m.match_str("c"));
    assert!(!m.match_str("d"));
    assert!(!m.match_str("ab"));
}

#[test]
fn range_group_accepts_empty_through_the_end_of_input_rule() {
    // Same end-of-input forgiveness as for "?": the group is the one
    // pending token when the candidate is empty.
    let m = matcher_for("[a-c]");
    assert!(m.match_str(""));
}

#[test]
fn enumeration_group_accepts_exactly_its_members() {
    let m = matcher_for("[xyz]");
    assert!(m.match_str("x"));
    assert!(m.match_str("y"));
    assert!(m.match_str("z"));
    assert!(!m.match_str("w"));
    assert!(!m.match_str("a"));
    assert!(!m.match_str("xy"));
}

#[test]
fn star_in_the_middle_consumes_characters() {
    let m = matcher_for("s*me");
    assert!(m.match_str("sooooome"));
    assert!(m.match_str("same"));
    assert!(!m.match_str("soma"));
    assert!(!m.match_str("sm"));
}

#[test]
fn star_in_the_middle_never_matches_zero_characters() {
    // A star consumes at least one character; only a trailing star is
    // satisfied without consuming, through the end-of-input rule. So
    // "s*me" does not accept "sme".
    let m = matcher_for("s*me");
    assert!(!m.match_str("sme"));
}

#[test]
fn literal_pattern_accepts_its_own_text() {
    let m = matcher_for("abc");
    assert!(m.match_str("abc"));
    assert!(!m.match_str("abd"));
    assert!(!m.match_str("a"));
    assert!(!m.match_str("abcd"));
    assert!(!m.match_str(""));
}

#[test]
fn literal_pattern_accepts_itself_minus_the_last_character() {
    // The end-of-input rule again: with "ab" compiled, the candidate "a"
    // ends while exactly the token for 'b' is pending, and is accepted.
    let m = matcher_for("ab");
    assert!(m.match_str("a"));
    assert!(!m.match_str("b"));
    assert!(!m.match_str(""));
}

#[test]
fn trailing_star_matches_zero_or_more() {
    // A trailing star is the one pending token at end-of-input, so it is
    // satisfied without consuming anything.
    let m = matcher_for("a*");
    assert!(m.match_str("a"));
    assert!(m.match_str("ab"));
    assert!(m.match_str("abcdef"));
    assert!(!m.match_str(""));
    assert!(!m.match_str("b"));
}

#[test]
fn doubled_star_still_needs_one_character() {
    // Only the last of the two stars is forgiven at end-of-input; the
    // first must consume a character.
    let m = matcher_for("**");
    assert!(m.match_str("a"));
    assert!(m.match_str("ab"));
    assert!(!m.match_str(""));
}

#[test]
fn empty_pattern_accepts_only_the_empty_candidate() {
    let m = matcher_for("");
    assert!(m.match_str(""));
    assert!(!m.match_str("x"));
}

#[test]
fn single_wildcard_inside_a_pattern() {
    let m = matcher_for("a?c");
    assert!(m.match_str("abc"));
    assert!(m.match_str("axc"));
    assert!(!m.match_str("a"));
    assert!(!m.match_str("abcd"));
}

#[test]
fn group_inside_a_pattern() {
    let m = matcher_for("a[xy]b");
    assert!(m.match_str("axb"));
    assert!(m.match_str("ayb"));
    assert!(!m.match_str("azb"));
    assert!(!m.match_str("abb"));
    assert!(!m.match_str("axbc"));
    // "ax" ends while exactly the token for 'b' is pending, so the
    // end-of-input rule accepts it.
    assert!(m.match_str("ax"));
}

#[test]
fn non_ascii_characters_match_by_equality() {
    let m = matcher_for("\u{e9}t\u{e9}");
    assert!(m.match_str("\u{e9}t\u{e9}"));
    assert!(!m.match_str("ete"));
    let m = matcher_for("[\u{3b1}-\u{3b3}]");
    assert!(m.match_str("\u{3b2}"));
    assert!(!m.match_str("\u{3b4}"));
}

#[test]
fn matching_twice_yields_the_same_verdict() {
    let m = matcher_for("s*me");
    assert_eq!(m.match_str("sooooome"), m.match_str("sooooome"));
    assert_eq!(m.match_str("soma"), m.match_str("soma"));
    let again = matcher_for("s*me");
    assert_eq!(m.match_str("sooooome"), again.match_str("sooooome"));
}

#[test]
fn reversed_range_matches_nothing_but_empty() {
    let m = matcher_for("[c-a]");
    assert!(!m.match_str("a"));
    assert!(!m.match_str("b"));
    assert!(!m.match_str("c"));
    // Empty still goes through the end-of-input rule.
    assert!(m.match_str(""));
}
