use vstd::prelude::*;

use crate::chars::char_range;
use crate::chars::is_alphanum;
use crate::token::ParseError;
use crate::token::Token;
use crate::token::TokenType;
use crate::token::TokenV;
use crate::token::tok_views;
use crate::token::wf_tokens;

verus! {

/// Scans an enumeration group from position `j` (just past the characters
/// already collected in `acc`) to the terminating `]`. Every character up
/// to and excluding the `]` joins the group, in order, duplicates kept,
/// with no character-class restriction. Yields the members and the
/// position just past the `]`, or fails when the input ends first.
pub open spec fn enum_scan(s: Seq<char>, j: int, acc: Seq<char>) -> Result<(Seq<char>, int), ParseError>
    decreases s.len() - j,
{
    if j < 0 || j >= s.len() {
        Err(ParseError::UnterminatedGroup)
    } else if s[j] == ']' {
        Ok((acc, j + 1))
    } else {
        enum_scan(s, j + 1, acc.push(s[j]))
    }
}

/// The group token read from position `i` of `s`, where `s[i] == '['`,
/// together with the position just past it; or the error that the
/// malformed group produces. A range `[x-y]` takes the full inclusive
/// character range from `x` to `y` (empty when `x > y`); any other content
/// is an enumeration, scanned by [`enum_scan`].
pub open spec fn group_spec(s: Seq<char>, i: int) -> Result<(TokenV, int), ParseError> {
    let n = s.len() as int;
    if i + 2 >= n {
        Err(ParseError::UnterminatedGroup)
    } else if !is_alphanum(s[i + 1]) {
        Err(ParseError::ExpectedAlphanumeric)
    } else if s[i + 2] == '-' {
        if i + 3 >= n {
            Err(ParseError::UnterminatedRange)
        } else if !is_alphanum(s[i + 3]) {
            Err(ParseError::ExpectedAlphanumeric)
        } else if i + 4 >= n {
            Err(ParseError::ExpectedClosingBracket)
        } else if s[i + 4] != ']' {
            Err(ParseError::ExpectedClosingBracket)
        } else {
            Ok((
                TokenV {
                    typ: TokenType::Group,
                    value: '-',
                    groups: char_range(s[i + 1] as int, s[i + 3] as int),
                },
                i + 5,
            ))
        }
    } else {
        match enum_scan(s, i + 2, seq![s[i + 1]]) {
            Ok(p) => Ok((TokenV { typ: TokenType::Group, value: '-', groups: p.0 }, p.1)),
            Err(e) => Err(e),
        }
    }
}

/// The token read from position `i` of `s`, together with the position
/// just past it, or the error raised there. At the end of the input the
/// token is the `Empty` sentinel and the position does not move, so
/// further reads keep yielding `Empty`.
pub open spec fn next_spec(s: Seq<char>, i: int) -> Result<(TokenV, int), ParseError> {
    if i >= s.len() {
        Ok((TokenV { typ: TokenType::Empty, value: '-', groups: Seq::empty() }, i))
    } else if s[i] == '*' {
        Ok((TokenV { typ: TokenType::Any, value: '*', groups: Seq::empty() }, i + 1))
    } else if s[i] == '?' {
        Ok((TokenV { typ: TokenType::Single, value: '?', groups: Seq::empty() }, i + 1))
    } else if s[i] == '[' {
        group_spec(s, i)
    } else if is_alphanum(s[i]) {
        Ok((TokenV { typ: TokenType::Unicode, value: s[i], groups: Seq::empty() }, i + 1))
    } else {
        Err(ParseError::ExpectedAlphanumeric)
    }
}

/// A successful [`enum_scan`] lands strictly past where it started, and
/// within the input.
proof fn lemma_enum_scan_advances(s: Seq<char>, j: int, acc: Seq<char>)
    ensures
        enum_scan(s, j, acc) matches Ok(p) ==> j < p.1 <= s.len(),
    decreases s.len() - j,
{
    if 0 <= j < s.len() && s[j] != ']' {
        lemma_enum_scan_advances(s, j + 1, acc.push(s[j]));
    }
}

/// A successful [`next_spec`] stays within the input, and moves strictly
/// forward whenever the token it read is not the `Empty` sentinel.
proof fn lemma_next_spec_advances(s: Seq<char>, i: int)
    requires
        0 <= i <= s.len(),
    ensures
        next_spec(s, i) matches Ok(p) ==> {
            &&& i <= p.1 <= s.len()
            &&& p.0.typ != TokenType::Empty ==> i < p.1
        },
{
    if i < s.len() && s[i] == '[' {
        lemma_enum_scan_advances(s, i + 2, seq![s[i + 1]]);
    }
}

/// The token sequence compiled from `s` starting at position `i`: the
/// tokens that [`next_spec`] reads one after the other, up to and
/// including the first `Empty` sentinel; or the first error met.
pub open spec fn compile_spec(s: Seq<char>, i: int) -> Result<Seq<TokenV>, ParseError>
    decreases s.len() - i,
    when 0 <= i <= s.len()
    via compile_spec_dec
{
    match next_spec(s, i) {
        Err(e) => Err(e),
        Ok(p) => {
            if p.0.typ == TokenType::Empty {
                Ok(seq![p.0])
            } else {
                match compile_spec(s, p.1) {
                    Err(e) => Err(e),
                    Ok(rest) => Ok(seq![p.0] + rest),
                }
            }
        },
    }
}

#[via_fn]
proof fn compile_spec_dec(s: Seq<char>, i: int) {
    lemma_next_spec_advances(s, i);
}

/// The pattern compiler: holds the pattern and a scan cursor that only
/// moves forward, and hands out one token per call of [`Parser::Next`].
pub struct Parser {
    input: Vec<char>,
    index: usize,
}

impl Parser {
    /// The pattern being compiled.
    pub closed spec fn pattern(&self) -> Seq<char> {
        self.input@
    }

    /// The scan cursor: how many characters have been consumed.
    pub closed spec fn cursor(&self) -> int {
        self.index as int
    }

    /// The cursor never leaves the pattern.
    pub closed spec fn wf(&self) -> bool {
        self.index <= self.input.len()
    }

    /// A fresh parser over `pattern`, with the cursor at the start.
    pub fn new(pattern: &str) -> (p: Parser)
        ensures
            p.wf(),
            p.pattern() == pattern@,
            p.cursor() == 0,
    {
        Parser { input: crate::chars::chars_vec(pattern), index: 0 }
    }

    /// Reads the next token and advances the cursor past the characters it
    /// consumed, exactly as [`next_spec`] says; on a malformed pattern it
    /// returns the error [`next_spec`] names and leaves the cursor where
    /// it was.
    #[allow(non_snake_case)]
    pub fn Next(&mut self) -> (r: Result<Token, ParseError>)
        requires
            old(self).wf(),
        ensures
            final(self).wf(),
            final(self).pattern() == old(self).pattern(),
            match r {
                Ok(t) => next_spec(old(self).pattern(), old(self).cursor()) == Ok::<
                    (TokenV, int),
                    ParseError,
                >((t@, final(self).cursor())),
                Err(e) => {
                    &&& next_spec(old(self).pattern(), old(self).cursor()) == Err::<
                        (TokenV, int),
                        ParseError,
                    >(e)
                    &&& final(self).cursor() == old(self).cursor()
                },
            },
    {
        let n = self.input.len();
        if self.index == n {
            let t = Token { token_type: TokenType::Empty, value: '-', group_values: Vec::new() };
            proof {
                assert(t@ =~= TokenV { typ: TokenType::Empty, value: '-', groups: Seq::empty() });
            }
            return Ok(t);
        }
        let c = self.input[self.index];
        if c == '*' {
            self.index = self.index + 1;
            let t = Token { token_type: TokenType::Any, value: '*', group_values: Vec::new() };
            proof {
                assert(t@ =~= TokenV { typ: TokenType::Any, value: '*', groups: Seq::empty() });
            }
            return Ok(t);
        }
        if c == '?' {
            self.index = self.index + 1;
            let t = Token { token_type: TokenType::Single, value: '?', group_values: Vec::new() };
            proof {
                assert(t@ =~= TokenV { typ: TokenType::Single, value: '?', groups: Seq::empty() });
            }
            return Ok(t);
        }
        if c == '[' {
            return self.next_group();
        }
        if c.is_alphanumeric() {
            self.index = self.index + 1;
            let t = Token { token_type: TokenType::Unicode, value: c, group_values: Vec::new() };
            proof {
                assert(t@ =~= TokenV {
                    typ: TokenType::Unicode,
                    value: old(self).pattern()[old(self).cursor()],
                    groups: Seq::empty(),
                });
            }
            return Ok(t);
        }
        Err(ParseError::ExpectedAlphanumeric)
    }

    /// Reads one bracketed group, starting at the `[` the cursor points at.
    #[verifier::loop_isolation(false)]
    fn next_group(&mut self) -> (r: Result<Token, ParseError>)
        requires
            old(self).wf(),
            old(self).cursor() < old(self).pattern().len(),
            old(self).pattern()[old(self).cursor()] == '[',
        ensures
            final(self).wf(),
            final(self).pattern() == old(self).pattern(),
            match r {
                Ok(t) => group_spec(old(self).pattern(), old(self).cursor()) == Ok::<
                    (TokenV, int),
                    ParseError,
                >((t@, final(self).cursor())),
                Err(e) => {
                    &&& group_spec(old(self).pattern(), old(self).cursor()) == Err::<
                        (TokenV, int),
                        ParseError,
                    >(e)
                    &&& final(self).cursor() == old(self).cursor()
                },
            },
    {
        let ghost s = self.input@;
        let ghost i0 = self.index as int;
        let i = self.index;
        let n = self.input.len();
        if n - i < 3 {
            return Err(ParseError::UnterminatedGroup);
        }
        let first = self.input[i + 1];
        if !first.is_alphanumeric() {
            return Err(ParseError::ExpectedAlphanumeric);
        }
        if self.input[i + 2] == '-' {
            if n - i == 3 {
                return Err(ParseError::UnterminatedRange);
            }
            let last = self.input[i + 3];
            if !last.is_alphanumeric() {
                return Err(ParseError::ExpectedAlphanumeric);
            }
            if n - i == 4 {
                return Err(ParseError::ExpectedClosingBracket);
            }
            if self.input[i + 4] != ']' {
                return Err(ParseError::ExpectedClosingBracket);
            }
            let values = range_values(first, last);
            self.index = i + 5;
            let t = Token { token_type: TokenType::Group, value: '-', group_values: values };
            proof {
                assert(t@ =~= TokenV {
                    typ: TokenType::Group,
                    value: '-',
                    groups: char_range(s[i0 + 1] as int, s[i0 + 3] as int),
                });
            }
            return Ok(t);
        }
        let mut values: Vec<char> = Vec::new();
        values.push(first);
        proof {
            assert(values@ =~= seq![s[i0 + 1]]);
        }
        let mut j = i + 2;
        while j < n
            invariant
                self == old(self),
                s == self.input@,
                i0 == i as int,
                n == self.input.len(),
                i + 2 <= j <= n,
                i0 + 2 < n,
                is_alphanum(s[i0 + 1]),
                s[i0 + 2] != '-',
                enum_scan(s, j as int, values@) == enum_scan(s, i0 + 2, seq![s[i0 + 1]]),
            decreases n - j,
        {
            let v = self.input[j];
            if v == ']' {
                self.index = j + 1;
                proof {
                    assert(enum_scan(s, j as int, values@) == Ok::<(Seq<char>, int), ParseError>(
                        (values@, j as int + 1),
                    ));
                }
                return Ok(Token { token_type: TokenType::Group, value: '-', group_values: values });
            }
            values.push(v);
            j = j + 1;
        }
        Err(ParseError::UnterminatedGroup)
    }
}

/// Compiles a whole pattern eagerly: drains a fresh [`Parser`] into a
/// token list, final `Empty` sentinel included, exactly as
/// [`compile_spec`] says. The result is a function of the pattern alone,
/// so compiling the same pattern twice yields identical token sequences.
/// A list it returns is always well-formed in the sense of [`wf_tokens`].
#[verifier::loop_isolation(false)]
pub fn compile(pattern: &str) -> (r: Result<Vec<Token>, ParseError>)
    ensures
        match r {
            Ok(v) => {
                &&& compile_spec(pattern@, 0) == Ok::<Seq<TokenV>, ParseError>(tok_views(v@))
                &&& wf_tokens(tok_views(v@))
            },
            Err(e) => compile_spec(pattern@, 0) == Err::<Seq<TokenV>, ParseError>(e),
        },
{
    let mut p = Parser::new(pattern);
    let mut out: Vec<Token> = Vec::new();
    proof {
        assert(tok_views(out@) =~= Seq::<TokenV>::empty());
        if compile_spec(pattern@, 0) is Ok {
            assert(tok_views(out@) + compile_spec(pattern@, 0)->Ok_0 =~= compile_spec(
                pattern@,
                0,
            )->Ok_0);
        }
    }
    loop
        invariant
            p.wf(),
            p.pattern() == pattern@,
            0 <= p.cursor() <= pattern@.len(),
            forall|k: int| 0 <= k < out@.len() ==> (#[trigger] out@[k]@).typ != TokenType::Empty,
            compile_spec(pattern@, 0) == (match compile_spec(pattern@, p.cursor()) {
                Ok(rest) => Ok::<Seq<TokenV>, ParseError>(tok_views(out@) + rest),
                Err(e) => Err::<Seq<TokenV>, ParseError>(e),
            }),
        decreases pattern@.len() - p.cursor(),
    {
        let ghost i = p.cursor();
        let ghost prev = out@;
        let t = match p.Next() {
            Ok(t) => t,
            Err(e) => {
                return Err(e);
            },
        };
        proof {
            lemma_next_spec_advances(pattern@, i);
        }
        let done = t.token_type == TokenType::Empty;
        out.push(t);
        proof {
            assert(tok_views(out@) =~= tok_views(prev) + seq![t@]);
            if !done && compile_spec(pattern@, p.cursor()) is Ok {
                let rest = compile_spec(pattern@, p.cursor())->Ok_0;
                assert(tok_views(prev) + (seq![t@] + rest) =~= tok_views(out@) + rest);
            }
        }
        if done {
            proof {
                assert(wf_tokens(tok_views(out@)));
            }
            return Ok(out);
        }
    }
}

/// The characters from `first` to `last` inclusive, in code-point order:
/// exactly [`char_range`] of their code points.
fn range_values(first: char, last: char) -> (v: Vec<char>)
    ensures
        v@ == char_range(first as int, last as int),
{
    let lo = first as u32;
    let hi = last as u32;
    let mut v: Vec<char> = Vec::new();
    if lo > hi {
        proof {
            assert(v@ =~= char_range(first as int, last as int));
        }
        return v;
    }
    let mut code = lo;
    while code <= hi
        invariant
            lo == first as u32,
            hi == last as u32,
            hi <= 0x10FFFF,
            lo <= code <= hi + 1,
            v@ == char_range(lo as int, code as int - 1),
        decreases hi + 1 - code,
    {
        match char::from_u32(code) {
            Some(ch) => {
                v.push(ch);
                proof {
                    assert(v@ =~= char_range(lo as int, code as int));
                }
            },
            None => {
                proof {
                    assert(v@ =~= char_range(lo as int, code as int));
                }
            },
        }
        code = code + 1;
    }
    v
}

} // verus!
