use vstd::prelude::*;

use crate::chars::char_range;
use crate::chars::is_alphanum;
use crate::chars::lemma_char_range_members;
use crate::matcher::matches_from;
use crate::matcher::pattern_matches;
use crate::parser::compile_spec;
use crate::token::ParseError;
use crate::token::TokenType;
use crate::token::TokenV;

verus! {

/// The `Empty` sentinel that ends every compiled pattern.
pub open spec fn empty_tok() -> TokenV {
    TokenV { typ: TokenType::Empty, value: '-', groups: Seq::empty() }
}

/// A literal token for the character `c`.
pub open spec fn unicode_tok(c: char) -> TokenV {
    TokenV { typ: TokenType::Unicode, value: c, groups: Seq::empty() }
}

/// A pattern character with no special meaning: alphanumeric, and none of
/// `*`, `?`, `[`.
pub open spec fn plain_char(c: char) -> bool {
    is_alphanum(c) && c != '*' && c != '?' && c != '['
}

/// The tokens that a pattern of plain characters compiles to: one literal
/// token per character, then the sentinel.
pub open spec fn literal_tokens(p: Seq<char>) -> Seq<TokenV> {
    Seq::new(p.len(), |k: int| unicode_tok(p[k])).push(empty_tok())
}

/// The tokens compiled from position `i` of such a pattern on.
spec fn literal_suffix(p: Seq<char>, i: int) -> Seq<TokenV> {
    Seq::new((p.len() - i) as nat, |k: int| unicode_tok(p[i + k])).push(empty_tok())
}

proof fn lemma_literal_compile_from(p: Seq<char>, i: int)
    requires
        0 <= i <= p.len(),
        forall|k: int| 0 <= k < p.len() ==> plain_char(#[trigger] p[k]),
    ensures
        compile_spec(p, i) == Ok::<Seq<TokenV>, ParseError>(literal_suffix(p, i)),
    decreases p.len() - i,
{
    if i == p.len() {
        assert(literal_suffix(p, i) =~= seq![empty_tok()]);
    } else {
        lemma_literal_compile_from(p, i + 1);
        assert(literal_suffix(p, i) =~= seq![unicode_tok(p[i])] + literal_suffix(p, i + 1));
    }
}

proof fn lemma_literal_match_from(p: Seq<char>, s: Seq<char>, i: int)
    requires
        0 <= i <= p.len(),
        0 <= i <= s.len(),
    ensures
        matches_from(literal_tokens(p), s, i, i) <==> ((s.len() == p.len() && (forall|k: int|
            i <= k < p.len() ==> s[k] == p[k])) || (s.len() + 1 == p.len() && (forall|k: int|
            i <= k < s.len() ==> s[k] == p[k]))),
    decreases s.len() - i,
{
    let ts = literal_tokens(p);
    assert(ts.len() == p.len() + 1);
    if i == s.len() {
    } else {
        if i < p.len() {
            lemma_literal_match_from(p, s, i + 1);
            assert(ts[i] == unicode_tok(p[i]));
        } else {
            assert(ts[i] == empty_tok());
            assert(!matches_from(ts, s, i, i));
        }
    }
}

/// Law: a pattern made only of plain characters — alphanumeric, none of
/// `*`, `?`, `[` — compiles to one literal token per character, and
/// matches exactly the candidate equal to it, character for character.
/// The one exception is the candidate that is the pattern shortened by
/// its final character: the end-of-input rule of [`matches_from`]
/// accepts that one too, so it is excluded here.
pub proof fn lemma_plain_pattern_matches_iff_equal(p: Seq<char>, s: Seq<char>)
    requires
        forall|k: int| 0 <= k < p.len() ==> plain_char(#[trigger] p[k]),
        p.len() == 0 || s != p.drop_last(),
    ensures
        compile_spec(p, 0) == Ok::<Seq<TokenV>, ParseError>(literal_tokens(p)),
        pattern_matches(literal_tokens(p), s) <==> s == p,
{
    lemma_literal_compile_from(p, 0);
    assert(literal_suffix(p, 0) =~= literal_tokens(p));
    lemma_literal_match_from(p, s, 0);
    if s.len() == p.len() && (forall|k: int| 0 <= k < p.len() ==> s[k] == p[k]) {
        assert(s =~= p);
    }
    if s.len() + 1 == p.len() && (forall|k: int| 0 <= k < s.len() ==> s[k] == p[k]) {
        assert(s =~= p.drop_last());
    }
}

/// The token sequence the pattern `"*"` compiles to.
pub open spec fn star_tokens() -> Seq<TokenV> {
    seq![TokenV { typ: TokenType::Any, value: '*', groups: Seq::empty() }, empty_tok()]
}

proof fn lemma_star_from(s: Seq<char>, i: int)
    requires
        0 <= i <= s.len(),
    ensures
        matches_from(star_tokens(), s, i, 0),
    decreases s.len() - i,
{
    if i < s.len() {
        lemma_star_from(s, i + 1);
    }
}

/// Law: the pattern `"*"` accepts every candidate, the empty one
/// included.
pub proof fn lemma_star_accepts_all(p: Seq<char>, s: Seq<char>)
    requires
        p.len() == 1,
        p[0] == '*',
    ensures
        compile_spec(p, 0) == Ok::<Seq<TokenV>, ParseError>(star_tokens()),
        pattern_matches(star_tokens(), s),
{
    assert(compile_spec(p, 1) == Ok::<Seq<TokenV>, ParseError>(seq![empty_tok()]));
    assert(seq![star_tokens()[0]] + seq![empty_tok()] =~= star_tokens());
    lemma_star_from(s, 0);
}

/// The token sequence a range pattern `[x-y]` compiles to.
pub open spec fn range_tokens(x: char, y: char) -> Seq<TokenV> {
    seq![
        TokenV { typ: TokenType::Group, value: '-', groups: char_range(x as int, y as int) },
        empty_tok(),
    ]
}

/// Law: a range pattern `[x-y]` with alphanumeric bounds accepts exactly
/// the one-character candidates whose character lies between the bounds
/// in code-point order. The empty candidate is excluded: the end-of-input
/// rule of [`matches_from`] accepts it too.
pub proof fn lemma_range_pattern_matches_members(x: char, y: char, p: Seq<char>, s: Seq<char>)
    requires
        is_alphanum(x),
        is_alphanum(y),
        p == seq!['[', x, '-', y, ']'],
        s.len() >= 1,
    ensures
        compile_spec(p, 0) == Ok::<Seq<TokenV>, ParseError>(range_tokens(x, y)),
        pattern_matches(range_tokens(x, y), s) <==> (s.len() == 1 && x as int <= s[0] as int
            <= y as int),
{
    assert(compile_spec(p, 5) == Ok::<Seq<TokenV>, ParseError>(seq![empty_tok()]));
    assert(seq![range_tokens(x, y)[0]] + seq![empty_tok()] =~= range_tokens(x, y));
    let ts = range_tokens(x, y);
    assert(matches_from(ts, s, 0, 0) == (ts[0].groups.contains(s[0]) && matches_from(ts, s, 1, 1)));
    lemma_char_range_members(x as int, y as int, s[0]);
    if s.len() == 1 {
        assert(matches_from(ts, s, 1, 1));
    } else {
        assert(!matches_from(ts, s, 1, 1));
    }
}

/// The token sequence the pattern `"?"` compiles to.
pub open spec fn question_tokens() -> Seq<TokenV> {
    seq![TokenV { typ: TokenType::Single, value: '?', groups: Seq::empty() }, empty_tok()]
}

/// Law: the pattern `"?"` accepts exactly the candidates of one
/// character, and rejects every longer one. The empty candidate is
/// excluded: the end-of-input rule of [`matches_from`] accepts it too.
pub proof fn lemma_question_matches_one_char(p: Seq<char>, s: Seq<char>)
    requires
        p.len() == 1,
        p[0] == '?',
        s.len() >= 1,
    ensures
        compile_spec(p, 0) == Ok::<Seq<TokenV>, ParseError>(question_tokens()),
        pattern_matches(question_tokens(), s) <==> s.len() == 1,
{
    assert(compile_spec(p, 1) == Ok::<Seq<TokenV>, ParseError>(seq![empty_tok()]));
    assert(seq![question_tokens()[0]] + seq![empty_tok()] =~= question_tokens());
    assert(matches_from(question_tokens(), s, 0, 0) == matches_from(question_tokens(), s, 1, 1));
    if s.len() == 1 {
        assert(matches_from(question_tokens(), s, 1, 1));
    } else {
        assert(!matches_from(question_tokens(), s, 1, 1));
    }
}

} // verus!
