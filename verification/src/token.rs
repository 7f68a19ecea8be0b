use vstd::prelude::*;

verus! {

/// The closed set of token kinds the tokenizer can produce.  `Eof` doubles as
/// the "unrecognized input" token: the tokenizer never fails, it degrades to
/// an end-of-input token instead.
#[derive(Clone, Copy, Debug, PartialEq, Eq, Structural)]
pub enum TSXTokenType {
    Plus,
    Question,
    Minus,
    Bang,
    Asterisk,
    Slash,
    LTag,
    RTag,
    Comma,
    Semicolon,
    LParentheses,
    RParentheses,
    LCurlyBracket,
    RCurlyBracket,
    LBracket,
    RBracket,
    Assign,
    Eq,
    NotEq,
    Colon,
    Dot,
    Pipe,
    And,
    Or,
    NullishCoalescing,
    Arrow,
    LtEq,
    GtEq,
    CloseLTag,
    CloseRTag,
    Comment,
    StartDocComment,
    EndDocComment,
    SlashEqual,
    CrossEqual,
    Increment,
    IncrementEqual,
    Add,
    Decrement,
    DecrementEqual,
    Sub,
    StringLiteral,
    NumberLiteral,
    Ident,
    Eof,
    Type,
    Export,
    Import,
    Default,
    Const,
    Let,
    Return,
    If,
    Else,
    True,
    False,
    Fn,
    Class,
    Var,
    From,
}

/// Mathematical value of a token: its kind and the exact matched text.
pub struct TokenSpec {
    pub kind: TSXTokenType,
    pub lit: Seq<char>,
}

/// The end-of-input token, also produced for unrecognized input.
pub open spec fn eof_token() -> TokenSpec {
    TokenSpec { kind: TSXTokenType::Eof, lit: Seq::empty() }
}

/// A token: a kind and the exact text that was matched for it.
#[derive(Debug, Clone, PartialEq)]
pub struct TSXToken {
    pub token_type: TSXTokenType,
    pub literal: String,
}

impl View for TSXToken {
    type V = TokenSpec;

    open spec fn view(&self) -> TokenSpec {
        TokenSpec { kind: self.token_type, lit: self.literal@ }
    }
}

impl TSXToken {
    pub fn new(token_type: TSXTokenType, literal: &str) -> (r: TSXToken)
        ensures
            r@ == (TokenSpec { kind: token_type, lit: literal@ }),
    {
        TSXToken { token_type, literal: literal.to_owned() }
    }
}

} // verus!
