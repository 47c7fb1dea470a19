use vstd::prelude::*;

verus! {

/// The kind of one compiled pattern element.
#[derive(Clone, Copy, PartialEq, Eq, Structural, Debug)]
pub enum TokenType {
    /// Sentinel marking the end of the pattern; carries no payload.
    Empty,
    /// Matches exactly one literal character.
    Unicode,
    /// Matches any exactly-one character (`?`).
    Single,
    /// Matches one or more characters (`*`); a trailing `*` may also be
    /// satisfied at the end of the candidate without consuming anything.
    Any,
    /// Matches exactly one character drawn from an associated set (`[...]`).
    Group,
}

/// One compiled unit of a pattern.
///
/// `value` is meaningful only for `Unicode` tokens (it holds `'-'` as a
/// placeholder otherwise), and `group_values` only for `Group` tokens.
pub struct Token {
    pub token_type: TokenType,
    pub value: char,
    pub group_values: Vec<char>,
}

/// The mathematical value of a [`Token`]: the same three fields, with the
/// group members as a sequence.
#[verifier::ext_equal]
pub ghost struct TokenV {
    pub typ: TokenType,
    pub value: char,
    pub groups: Seq<char>,
}

impl View for Token {
    type V = TokenV;

    open spec fn view(&self) -> TokenV {
        TokenV { typ: self.token_type, value: self.value, groups: self.group_values@ }
    }
}

/// The values of a sequence of tokens.
pub open spec fn tok_views(ts: Seq<Token>) -> Seq<TokenV> {
    Seq::new(ts.len(), |k: int| ts[k]@)
}

/// A well-formed compiled pattern: at least one token, the last one the
/// `Empty` sentinel, and no `Empty` anywhere before it. Every token
/// sequence a whole pattern compiles to has this shape.
pub open spec fn wf_tokens(ts: Seq<TokenV>) -> bool {
    &&& ts.len() >= 1
    &&& ts[ts.len() - 1].typ == TokenType::Empty
    &&& forall|k: int| 0 <= k < ts.len() - 1 ==> (#[trigger] ts[k].typ) != TokenType::Empty
}

/// Why a pattern failed to compile. Every error is terminal for that
/// compilation attempt: no token sequence can be built from the pattern.
#[derive(Clone, Copy, PartialEq, Eq, Structural, Debug)]
pub enum ParseError {
    /// A `[` was opened with too little input left, or an enumeration
    /// group never found its closing `]`.
    UnterminatedGroup,
    /// A character required to be alphanumeric (a bare pattern character,
    /// or a group boundary) is not.
    ExpectedAlphanumeric,
    /// A `[x-` range was opened but no character follows the `-`.
    UnterminatedRange,
    /// A range form did not end with `]` right after its second boundary.
    ExpectedClosingBracket,
}

} // verus!
