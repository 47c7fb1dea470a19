use vstd::prelude::*;

use crate::chars::chars_vec;
use crate::chars::contains_char;
use crate::token::Token;
use crate::token::TokenType;
use crate::token::TokenV;
use crate::token::tok_views;
use crate::token::wf_tokens;

verus! {

/// Whether the tokens from index `k` on can consume the candidate from
/// position `i` on and reach acceptance. The rules:
///
/// - At the end of the candidate the hypothesis is accepted when the
///   pending token is the `Empty` sentinel, or when it is the
///   second-to-last token of the sequence: exactly one pending token is
///   forgiven at end-of-input, which is what lets a trailing `*` match
///   nothing.
/// - An `Any` token consumes one character and either stays pending or is
///   done; it never matches zero characters except through the rule
///   above.
/// - An `Empty` token met before the end of the candidate only discards
///   this one hypothesis; other hypotheses go on being explored.
pub open spec fn matches_from(ts: Seq<TokenV>, s: Seq<char>, i: int, k: int) -> bool
    decreases s.len() - i,
{
    if !(0 <= i <= s.len() && 0 <= k < ts.len()) {
        false
    } else if i == s.len() {
        ts[k].typ == TokenType::Empty || k + 2 == ts.len()
    } else if ts[k].typ == TokenType::Any {
        matches_from(ts, s, i + 1, k) || matches_from(ts, s, i + 1, k + 1)
    } else if ts[k].typ == TokenType::Single {
        matches_from(ts, s, i + 1, k + 1)
    } else if ts[k].typ == TokenType::Unicode {
        ts[k].value == s[i] && matches_from(ts, s, i + 1, k + 1)
    } else if ts[k].typ == TokenType::Group {
        ts[k].groups.contains(s[i]) && matches_from(ts, s, i + 1, k + 1)
    } else {
        false
    }
}

/// Whether the whole candidate `s` matches the compiled pattern `ts`:
/// some alignment of the tokens consumes `s` and reaches acceptance.
pub open spec fn pattern_matches(ts: Seq<TokenV>, s: Seq<char>) -> bool {
    matches_from(ts, s, 0, 0)
}

/// One live hypothesis during matching: a position in the candidate
/// paired with the index of the token it tries to satisfy next.
#[derive(Clone, Copy)]
struct Cursor {
    index: usize,
    state: usize,
}

spec fn pow3(e: nat) -> nat
    decreases e,
{
    if e == 0 {
        1
    } else {
        3 * pow3((e - 1) as nat)
    }
}

proof fn lemma_pow3_pos(e: nat)
    ensures
        pow3(e) >= 1,
    decreases e,
{
    if e > 0 {
        lemma_pow3_pos((e - 1) as nat);
    }
}

/// The termination budget of one hypothesis: every successor it spawns
/// sits one character further into the candidate, and one hypothesis
/// spawns at most two successors.
spec fn cursor_weight(c: Cursor, n: int) -> nat {
    if c.index <= n {
        pow3((n - c.index) as nat)
    } else {
        0
    }
}

spec fn queue_weight(cs: Seq<Cursor>, n: int) -> nat
    decreases cs.len(),
{
    if cs.len() == 0 {
        0
    } else {
        cursor_weight(cs[0], n) + queue_weight(cs.drop_first(), n)
    }
}

proof fn lemma_queue_weight_push(cs: Seq<Cursor>, c: Cursor, n: int)
    ensures
        queue_weight(cs.push(c), n) == queue_weight(cs, n) + cursor_weight(c, n),
    decreases cs.len(),
{
    assert(queue_weight(cs.push(c), n) == cursor_weight(cs.push(c)[0], n) + queue_weight(
        cs.push(c).drop_first(),
        n,
    ));
    if cs.len() == 0 {
        assert(cs.push(c)[0] == c);
        assert(cs.push(c).drop_first() =~= Seq::<Cursor>::empty());
        assert(queue_weight(Seq::<Cursor>::empty(), n) == 0);
    } else {
        assert(cs.push(c)[0] == cs[0]);
        assert(cs.push(c).drop_first() =~= cs.drop_first().push(c));
        lemma_queue_weight_push(cs.drop_first(), c, n);
        assert(queue_weight(cs, n) == cursor_weight(cs[0], n) + queue_weight(cs.drop_first(), n));
    }
}

/// Whether some hypothesis in the work-list can still reach acceptance.
spec fn any_cursor_matches(ts: Seq<TokenV>, s: Seq<char>, cs: Seq<Cursor>) -> bool {
    exists|j: int|
        0 <= j < cs.len() && matches_from(ts, s, cs[j].index as int, cs[j].state as int)
}

proof fn lemma_any_push(ts: Seq<TokenV>, s: Seq<char>, cs: Seq<Cursor>, c: Cursor)
    ensures
        any_cursor_matches(ts, s, cs.push(c)) <==> (any_cursor_matches(ts, s, cs)
            || matches_from(ts, s, c.index as int, c.state as int)),
{
    if any_cursor_matches(ts, s, cs.push(c)) {
        let j = choose|j: int|
            0 <= j < cs.push(c).len() && matches_from(
                ts,
                s,
                cs.push(c)[j].index as int,
                cs.push(c)[j].state as int,
            );
        if j < cs.len() {
            assert(cs.push(c)[j] == cs[j]);
            assert(0 <= j < cs.len() && matches_from(
                ts,
                s,
                cs[j].index as int,
                cs[j].state as int,
            ));
        } else {
            assert(cs.push(c)[j] == c);
        }
    }
    if any_cursor_matches(ts, s, cs) {
        let j = choose|j: int|
            0 <= j < cs.len() && matches_from(ts, s, cs[j].index as int, cs[j].state as int);
        assert(cs.push(c)[j] == cs[j]);
        assert(0 <= j < cs.push(c).len() && matches_from(
            ts,
            s,
            cs.push(c)[j].index as int,
            cs.push(c)[j].state as int,
        ));
    }
    if matches_from(ts, s, c.index as int, c.state as int) {
        let j = cs.len() as int;
        assert(cs.push(c)[j] == c);
        assert(0 <= j < cs.push(c).len() && matches_from(
            ts,
            s,
            cs.push(c)[j].index as int,
            cs.push(c)[j].state as int,
        ));
    }
}

proof fn lemma_any_pop(ts: Seq<TokenV>, s: Seq<char>, cs: Seq<Cursor>)
    requires
        cs.len() > 0,
    ensures
        any_cursor_matches(ts, s, cs) <==> (matches_from(
            ts,
            s,
            cs[0].index as int,
            cs[0].state as int,
        ) || any_cursor_matches(ts, s, cs.drop_first())),
{
    if any_cursor_matches(ts, s, cs) {
        let j = choose|j: int|
            0 <= j < cs.len() && matches_from(ts, s, cs[j].index as int, cs[j].state as int);
        if j > 0 {
            assert(cs.drop_first()[j - 1] == cs[j]);
            assert(0 <= j - 1 < cs.drop_first().len() && matches_from(
                ts,
                s,
                cs.drop_first()[j - 1].index as int,
                cs.drop_first()[j - 1].state as int,
            ));
        }
    }
    if matches_from(ts, s, cs[0].index as int, cs[0].state as int) {
        assert(0 <= 0 < cs.len() && matches_from(ts, s, cs[0].index as int, cs[0].state as int));
    }
    if any_cursor_matches(ts, s, cs.drop_first()) {
        let j = choose|j: int|
            0 <= j < cs.drop_first().len() && matches_from(
                ts,
                s,
                cs.drop_first()[j].index as int,
                cs.drop_first()[j].state as int,
            );
        assert(cs[j + 1] == cs.drop_first()[j]);
        assert(0 <= j + 1 < cs.len() && matches_from(
            ts,
            s,
            cs[j + 1].index as int,
            cs[j + 1].state as int,
        ));
    }
}

/// The matching engine: an owned token sequence, filled once by the
/// caller and read-only afterwards.
pub struct Matcher {
    pub tokens: Vec<Token>,
}

impl Matcher {
    /// The values of the owned token sequence.
    pub open spec fn toks(&self) -> Seq<TokenV> {
        tok_views(self.tokens@)
    }

    /// An empty matcher; the caller fills `tokens` with one compiled
    /// pattern, `Empty` sentinel included, before matching.
    pub fn new() -> (m: Matcher)
        ensures
            m.tokens@.len() == 0,
    {
        Matcher { tokens: Vec::new() }
    }

    /// Whether `to_match` matches the compiled pattern: breadth-first
    /// exploration of a work-list of hypotheses, one per way of aligning
    /// tokens against the candidate, with the verdict of
    /// [`pattern_matches`]. It is a function of the token sequence and
    /// the candidate alone, so matching the same pair twice yields the
    /// same verdict.
    #[verifier::loop_isolation(false)]
    pub fn match_str(&self, to_match: &str) -> (r: bool)
        requires
            wf_tokens(self.toks()),
        ensures
            r == pattern_matches(self.toks(), to_match@),
    {
        let ghost ts = self.toks();
        let ghost sv = to_match@;
        let t = chars_vec(to_match);
        let n = t.len();
        let tlen = self.tokens.len();
        let mut cursors: Vec<Cursor> = Vec::new();
        let start = Cursor { index: 0, state: 0 };
        cursors.push(start);
        proof {
            lemma_any_push(ts, sv, Seq::<Cursor>::empty(), start);
        }
        while cursors.len() > 0
            invariant
                forall|j: int|
                    0 <= j < cursors@.len() ==> (#[trigger] cursors@[j]).index <= n
                        && cursors@[j].state < tlen,
                pattern_matches(ts, sv) <==> any_cursor_matches(ts, sv, cursors@),
            decreases queue_weight(cursors@, n as int),
        {
            let ghost prev = cursors@;
            let c = cursors.remove(0);
            let ghost ci = c.index as int;
            let ghost ck = c.state as int;
            proof {
                assert(prev.remove(0) =~= prev.drop_first());
                lemma_any_pop(ts, sv, prev);
                lemma_pow3_pos((n - c.index) as nat);
            }
            if c.index == n {
                if self.tokens[c.state].token_type == TokenType::Empty {
                    proof {
                        assert(matches_from(ts, sv, ci, ck));
                    }
                    return true;
                }
                if c.state + 1 == tlen - 1 {
                    proof {
                        assert(matches_from(ts, sv, ci, ck));
                    }
                    return true;
                }
                proof {
                    assert(!matches_from(ts, sv, ci, ck));
                }
            } else {
                let ch = t[c.index];
                proof {
                    assert(pow3((n - c.index) as nat) == 3 * pow3((n - c.index - 1) as nat));
                    lemma_pow3_pos((n - c.index - 1) as nat);
                }
                if self.tokens[c.state].token_type == TokenType::Any {
                    let a = Cursor { index: c.index + 1, state: c.state };
                    let b = Cursor { index: c.index + 1, state: c.state + 1 };
                    let ghost mid = cursors@;
                    cursors.push(a);
                    let ghost mid2 = cursors@;
                    cursors.push(b);
                    proof {
                        lemma_any_push(ts, sv, mid, a);
                        lemma_any_push(ts, sv, mid2, b);
                        lemma_queue_weight_push(mid, a, n as int);
                        lemma_queue_weight_push(mid2, b, n as int);
                    }
                } else if self.tokens[c.state].token_type == TokenType::Single {
                    let a = Cursor { index: c.index + 1, state: c.state + 1 };
                    let ghost mid = cursors@;
                    cursors.push(a);
                    proof {
                        lemma_any_push(ts, sv, mid, a);
                        lemma_queue_weight_push(mid, a, n as int);
                    }
                } else if self.tokens[c.state].token_type == TokenType::Unicode {
                    if self.tokens[c.state].value == ch {
                        let a = Cursor { index: c.index + 1, state: c.state + 1 };
                        let ghost mid = cursors@;
                        cursors.push(a);
                        proof {
                            lemma_any_push(ts, sv, mid, a);
                            lemma_queue_weight_push(mid, a, n as int);
                        }
                    } else {
                        proof {
                            assert(!matches_from(ts, sv, ci, ck));
                        }
                    }
                } else if self.tokens[c.state].token_type == TokenType::Group {
                    if contains_char(&self.tokens[c.state].group_values, ch) {
                        let a = Cursor { index: c.index + 1, state: c.state + 1 };
                        let ghost mid = cursors@;
                        cursors.push(a);
                        proof {
                            lemma_any_push(ts, sv, mid, a);
                            lemma_queue_weight_push(mid, a, n as int);
                        }
                    } else {
                        proof {
                            assert(!matches_from(ts, sv, ci, ck));
                        }
                    }
                } else {
                    proof {
                        assert(!matches_from(ts, sv, ci, ck));
                    }
                }
            }
        }
        false
    }
}

} // verus!
