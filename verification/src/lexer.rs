use vstd::prelude::*;
use vstd::string::StrSliceExecFns;

use crate::text::{
    char_alphabetic, char_numeric, char_whitespace, is_letter, is_letter_spec, is_numeric,
    is_whitespace, str_eq,
};
use crate::token::{TSXToken, TSXTokenType, TokenSpec};

verus! {

/// One step of the tokenizer: the token read at some position, and the
/// position of the first character that does not belong to it.
pub struct LexStep {
    pub kind: TSXTokenType,
    pub lit: Seq<char>,
    pub next: int,
}

/// First position at or after `i` whose character is not whitespace
/// (or the end of `s`).
pub open spec fn skip_ws_end(s: Seq<char>, i: int) -> int
    decreases s.len() - i,
{
    if 0 <= i < s.len() && char_whitespace(s[i]) {
        skip_ws_end(s, i + 1)
    } else {
        i
    }
}

/// End of a run of word characters (letters, `_`, digits) starting at `i`.
pub open spec fn word_end(s: Seq<char>, i: int) -> int
    decreases s.len() - i,
{
    if 0 <= i < s.len() && (is_letter_spec(s[i]) || char_numeric(s[i])) {
        word_end(s, i + 1)
    } else {
        i
    }
}

/// End of a run of numeric characters starting at `i`.
pub open spec fn number_end(s: Seq<char>, i: int) -> int
    decreases s.len() - i,
{
    if 0 <= i < s.len() && char_numeric(s[i]) {
        number_end(s, i + 1)
    } else {
        i
    }
}

/// First position at or after `i` holding character `c`, or the length of
/// `s` if there is none.
pub open spec fn find_char(s: Seq<char>, i: int, c: char) -> int
    decreases s.len() - i,
{
    if 0 <= i < s.len() {
        if s[i] == c {
            i
        } else {
            find_char(s, i + 1, c)
        }
    } else {
        s.len() as int
    }
}

pub proof fn lemma_skip_ws_end_bounds(s: Seq<char>, i: int)
    requires
        0 <= i <= s.len(),
    ensures
        i <= skip_ws_end(s, i) <= s.len(),
    decreases s.len() - i,
{
    if 0 <= i < s.len() && char_whitespace(s[i]) {
        lemma_skip_ws_end_bounds(s, i + 1);
    }
}

pub proof fn lemma_word_end_bounds(s: Seq<char>, i: int)
    requires
        0 <= i <= s.len(),
    ensures
        i <= word_end(s, i) <= s.len(),
    decreases s.len() - i,
{
    if 0 <= i < s.len() && (is_letter_spec(s[i]) || char_numeric(s[i])) {
        lemma_word_end_bounds(s, i + 1);
    }
}

pub proof fn lemma_number_end_bounds(s: Seq<char>, i: int)
    requires
        0 <= i <= s.len(),
    ensures
        i <= number_end(s, i) <= s.len(),
    decreases s.len() - i,
{
    if 0 <= i < s.len() && char_numeric(s[i]) {
        lemma_number_end_bounds(s, i + 1);
    }
}

pub proof fn lemma_find_char_bounds(s: Seq<char>, i: int, c: char)
    requires
        0 <= i <= s.len(),
    ensures
        i <= find_char(s, i, c) <= s.len(),
    decreases s.len() - i,
{
    if 0 <= i < s.len() && s[i] != c {
        lemma_find_char_bounds(s, i + 1, c);
    }
}

/// The keyword table: a word that is a keyword shadows the identifier token.
pub open spec fn keyword_kind(w: Seq<char>) -> Option<TSXTokenType> {
    if w == "type"@ {
        Some(TSXTokenType::Type)
    } else if w == "export"@ {
        Some(TSXTokenType::Export)
    } else if w == "import"@ {
        Some(TSXTokenType::Import)
    } else if w == "default"@ {
        Some(TSXTokenType::Default)
    } else if w == "const"@ {
        Some(TSXTokenType::Const)
    } else if w == "let"@ {
        Some(TSXTokenType::Let)
    } else if w == "return"@ {
        Some(TSXTokenType::Return)
    } else if w == "if"@ {
        Some(TSXTokenType::If)
    } else if w == "else"@ {
        Some(TSXTokenType::Else)
    } else if w == "true"@ {
        Some(TSXTokenType::True)
    } else if w == "false"@ {
        Some(TSXTokenType::False)
    } else if w == "function"@ {
        Some(TSXTokenType::Fn)
    } else if w == "class"@ {
        Some(TSXTokenType::Class)
    } else if w == "var"@ {
        Some(TSXTokenType::Var)
    } else if w == "from"@ {
        Some(TSXTokenType::From)
    } else {
        None
    }
}

/// The token produced at position `pos` of `s` (after skipping whitespace),
/// together with the position where scanning resumes.  Unrecognized
/// characters yield an end-of-input token; past the end, the end-of-input
/// token repeats without moving.
pub open spec fn spec_next_token(s: Seq<char>, pos: int) -> LexStep {
    let n: int = s.len() as int;
    let i: int = skip_ws_end(s, pos);
    if i >= n {
        LexStep { kind: TSXTokenType::Eof, lit: ""@, next: i }
    } else {
        let c: char = s[i];
        if c == ',' {
            LexStep { kind: TSXTokenType::Comma, lit: ","@, next: i + 1 }
        } else if c == ';' {
            LexStep { kind: TSXTokenType::Semicolon, lit: ";"@, next: i + 1 }
        } else if c == '(' {
            LexStep { kind: TSXTokenType::LParentheses, lit: "("@, next: i + 1 }
        } else if c == ')' {
            LexStep { kind: TSXTokenType::RParentheses, lit: ")"@, next: i + 1 }
        } else if c == '{' {
            LexStep { kind: TSXTokenType::LCurlyBracket, lit: "{"@, next: i + 1 }
        } else if c == '}' {
            LexStep { kind: TSXTokenType::RCurlyBracket, lit: "}"@, next: i + 1 }
        } else if c == '[' {
            LexStep { kind: TSXTokenType::LBracket, lit: "["@, next: i + 1 }
        } else if c == ']' {
            LexStep { kind: TSXTokenType::RBracket, lit: "]"@, next: i + 1 }
        } else if c == ':' {
            LexStep { kind: TSXTokenType::Colon, lit: ":"@, next: i + 1 }
        } else if c == '.' {
            LexStep { kind: TSXTokenType::Dot, lit: "."@, next: i + 1 }
        } else if c == '&' {
            LexStep { kind: TSXTokenType::And, lit: "&"@, next: i + 1 }
        } else if c == '#' {
            LexStep { kind: TSXTokenType::Ident, lit: "#"@, next: i + 1 }
        } else if c == '|' {
            if i + 1 < n && s[i + 1] == '|' {
                LexStep { kind: TSXTokenType::Or, lit: "||"@, next: i + 2 }
            } else {
                LexStep { kind: TSXTokenType::Pipe, lit: "|"@, next: i + 1 }
            }
        } else if c == '!' {
            if i + 1 < n && s[i + 1] == '=' {
                LexStep { kind: TSXTokenType::NotEq, lit: "!="@, next: i + 2 }
            } else {
                LexStep { kind: TSXTokenType::Bang, lit: "!"@, next: i + 1 }
            }
        } else if c == '?' {
            if i + 1 < n && s[i + 1] == '?' {
                LexStep { kind: TSXTokenType::NullishCoalescing, lit: "??"@, next: i + 2 }
            } else {
                LexStep { kind: TSXTokenType::Question, lit: "?"@, next: i + 1 }
            }
        } else if c == '=' {
            if i + 1 < n && s[i + 1] == '=' {
                LexStep { kind: TSXTokenType::Eq, lit: "=="@, next: i + 2 }
            } else if i + 1 < n && s[i + 1] == '>' {
                LexStep { kind: TSXTokenType::Arrow, lit: "=>"@, next: i + 2 }
            } else {
                LexStep { kind: TSXTokenType::Assign, lit: "="@, next: i + 1 }
            }
        } else if c == '<' {
            if i + 1 < n && s[i + 1] == '=' {
                LexStep { kind: TSXTokenType::LtEq, lit: "<="@, next: i + 2 }
            } else if i + 1 < n && s[i + 1] == '/' {
                LexStep { kind: TSXTokenType::CloseLTag, lit: "</"@, next: i + 2 }
            } else {
                LexStep { kind: TSXTokenType::LTag, lit: "<"@, next: i + 1 }
            }
        } else if c == '>' {
            if i + 1 < n && s[i + 1] == '=' {
                LexStep { kind: TSXTokenType::GtEq, lit: ">="@, next: i + 2 }
            } else {
                LexStep { kind: TSXTokenType::RTag, lit: ">"@, next: i + 1 }
            }
        } else if c == '/' {
            if i + 1 < n && s[i + 1] == '/' {
                let k: int = find_char(s, i + 1, '\n');
                let stop: int = if k + 1 < n {
                    k + 1
                } else {
                    n
                };
                LexStep { kind: TSXTokenType::Comment, lit: s.subrange(i + 2, stop), next: k }
            } else if i + 1 < n && s[i + 1] == '*' {
                LexStep { kind: TSXTokenType::StartDocComment, lit: "/*"@, next: i + 2 }
            } else if i + 1 < n && s[i + 1] == '=' {
                LexStep { kind: TSXTokenType::SlashEqual, lit: "/="@, next: i + 2 }
            } else if i + 1 < n && s[i + 1] == '>' {
                LexStep { kind: TSXTokenType::CloseRTag, lit: "/>"@, next: i + 2 }
            } else {
                LexStep { kind: TSXTokenType::Slash, lit: "/"@, next: i + 1 }
            }
        } else if c == '*' {
            if i + 1 < n && s[i + 1] == '/' {
                let p0: int = i + 2;
                if p0 >= n {
                    LexStep { kind: TSXTokenType::EndDocComment, lit: ""@, next: n }
                } else {
                    let k: int = find_char(s, p0, '*');
                    let stop: int = if k + 1 < n {
                        k + 1
                    } else {
                        n
                    };
                    let after: int = if k >= n {
                        n
                    } else if k + 1 < n && s[k + 1] == '/' {
                        k + 2
                    } else if k + 1 < n {
                        k + 1
                    } else {
                        n
                    };
                    LexStep {
                        kind: TSXTokenType::EndDocComment,
                        lit: s.subrange(p0 + 1, stop),
                        next: after,
                    }
                }
            } else if i + 1 < n && s[i + 1] == '=' {
                LexStep { kind: TSXTokenType::CrossEqual, lit: "*="@, next: i + 2 }
            } else {
                LexStep { kind: TSXTokenType::Asterisk, lit: "*"@, next: i + 1 }
            }
        } else if c == '+' {
            if i + 1 < n && s[i + 1] == '+' {
                LexStep { kind: TSXTokenType::Increment, lit: "++"@, next: i + 2 }
            } else if i + 1 < n && s[i + 1] == '=' {
                LexStep { kind: TSXTokenType::IncrementEqual, lit: "+="@, next: i + 2 }
            } else {
                LexStep { kind: TSXTokenType::Add, lit: "+"@, next: i + 1 }
            }
        } else if c == '-' {
            if i + 1 < n && s[i + 1] == '-' {
                LexStep { kind: TSXTokenType::Decrement, lit: "--"@, next: i + 2 }
            } else if i + 1 < n && s[i + 1] == '=' {
                LexStep { kind: TSXTokenType::DecrementEqual, lit: "-="@, next: i + 2 }
            } else {
                LexStep { kind: TSXTokenType::Sub, lit: "-"@, next: i + 1 }
            }
        } else if c == '"' {
            let k: int = find_char(s, i + 1, '"');
            LexStep {
                kind: TSXTokenType::StringLiteral,
                lit: s.subrange(i + 1, k),
                next: if k < n {
                    k + 1
                } else {
                    n
                },
            }
        } else if c == '\'' {
            if i + 1 >= n {
                LexStep { kind: TSXTokenType::StringLiteral, lit: ""@, next: n }
            } else {
                let k: int = find_char(s, i + 2, '"');
                LexStep {
                    kind: TSXTokenType::StringLiteral,
                    lit: s.subrange(i + 2, k),
                    next: if k < n {
                        k + 1
                    } else {
                        n
                    },
                }
            }
        } else if is_letter_spec(c) {
            let j: int = word_end(s, i + 1);
            let w: Seq<char> = s.subrange(i, j);
            let kind: TSXTokenType = match keyword_kind(w) {
                Some(k) => k,
                None => TSXTokenType::Ident,
            };
            LexStep { kind, lit: w, next: j }
        } else if char_numeric(c) {
            let j: int = number_end(s, i);
            LexStep { kind: TSXTokenType::NumberLiteral, lit: s.subrange(i, j), next: j }
        } else {
            LexStep { kind: TSXTokenType::Eof, lit: ""@, next: i + 1 }
        }
    }
}

/// Scanning one token never moves backwards, always stays within the input,
/// and makes strict progress whenever characters remain.
pub proof fn lemma_next_token_advances(s: Seq<char>, pos: int)
    requires
        0 <= pos <= s.len(),
    ensures
        pos <= spec_next_token(s, pos).next <= s.len(),
        pos < s.len() ==> pos < spec_next_token(s, pos).next,
{
    lemma_skip_ws_end_bounds(s, pos);
    let i: int = skip_ws_end(s, pos);
    let n: int = s.len() as int;
    if i < n {
        let c: char = s[i];
        if c == '/' && i + 1 < n && s[i + 1] == '/' {
            lemma_find_char_bounds(s, i + 2, '\n');
            assert(find_char(s, i + 1, '\n') == find_char(s, i + 2, '\n'));
        } else if c == '*' && i + 1 < n && s[i + 1] == '/' && i + 2 < n {
            lemma_find_char_bounds(s, i + 2, '*');
        } else if c == '"' {
            lemma_find_char_bounds(s, i + 1, '"');
        } else if c == '\'' && i + 1 < n {
            if i + 2 <= n {
                lemma_find_char_bounds(s, i + 2, '"');
            }
        } else if is_letter_spec(c) {
            lemma_word_end_bounds(s, i + 1);
        } else if char_numeric(c) {
            lemma_number_end_bounds(s, i + 1);
        }
    }
}

/// A source text held by a tokenizer fits in a machine word.
pub proof fn lemma_src_len_bound(l: &Lexer)
    requires
        l.wf(),
    ensures
        l.src().len() <= usize::MAX,
{
}

/// Pull-based tokenizer over a borrowed source text.
pub struct Lexer<'a> {
    input: &'a str,
    len: usize,
    pos: usize,
}

impl<'a> Lexer<'a> {
    /// Internal consistency: the cached length is the character count and
    /// the cursor never passes the end.
    pub closed spec fn wf(&self) -> bool {
        self.len == self.input@.len() && self.pos <= self.len
    }

    /// The source text being tokenized.
    pub closed spec fn src(&self) -> Seq<char> {
        self.input@
    }

    /// The current character position of the tokenizer.
    pub closed spec fn at_pos(&self) -> int {
        self.pos as int
    }

    pub fn new(input: &'a str) -> (r: Lexer<'a>)
        ensures
            r.wf(),
            r.src() == input@,
            r.at_pos() == 0,
    {
        let len: usize = input.unicode_len();
        Lexer { input, len, pos: 0 }
    }

    fn at(&self, i: usize) -> (c: char)
        requires
            self.wf(),
            i < self.src().len(),
        ensures
            c == self.src()[i as int],
    {
        self.input.get_char(i)
    }

    /// Extract the text between two character positions.
    fn slice(&self, from: usize, to: usize) -> (r: &'a str)
        requires
            self.wf(),
            from <= to <= self.src().len(),
        ensures
            r@ == self.src().subrange(from as int, to as int),
    {
        self.input.substring_char(from, to)
    }

    fn skip_whitespace(&mut self)
        requires
            old(self).wf(),
        ensures
            final(self).wf(),
            final(self).input == old(self).input,
            final(self).at_pos() == skip_ws_end(old(self).src(), old(self).at_pos()),
    {
        while self.pos < self.len && is_whitespace(self.at(self.pos))
            invariant
                self.wf(),
                self.input == old(self).input,
                skip_ws_end(self.src(), self.at_pos()) == skip_ws_end(
                    old(self).src(),
                    old(self).at_pos(),
                ),
            decreases self.len - self.pos,
        {
            self.pos = self.pos + 1;
        }
    }

    /// First position at or after `start` holding `c`, or the end.
    fn find_from(&self, start: usize, c: char) -> (r: usize)
        requires
            self.wf(),
            start <= self.src().len(),
        ensures
            r == find_char(self.src(), start as int, c),
    {
        let mut j: usize = start;
        while j < self.len && self.at(j) != c
            invariant
                self.wf(),
                start <= j <= self.len,
                find_char(self.src(), j as int, c) == find_char(self.src(), start as int, c),
            decreases self.len - j,
        {
            j = j + 1;
        }
        j
    }

    fn word_end_from(&self, start: usize) -> (r: usize)
        requires
            self.wf(),
            start <= self.src().len(),
        ensures
            r == word_end(self.src(), start as int),
    {
        let mut j: usize = start;
        while j < self.len && (is_letter(self.at(j)) || is_numeric(self.at(j)))
            invariant
                self.wf(),
                start <= j <= self.len,
                word_end(self.src(), j as int) == word_end(self.src(), start as int),
            decreases self.len - j,
        {
            j = j + 1;
        }
        j
    }

    fn number_end_from(&self, start: usize) -> (r: usize)
        requires
            self.wf(),
            start <= self.src().len(),
        ensures
            r == number_end(self.src(), start as int),
    {
        let mut j: usize = start;
        while j < self.len && is_numeric(self.at(j))
            invariant
                self.wf(),
                start <= j <= self.len,
                number_end(self.src(), j as int) == number_end(self.src(), start as int),
            decreases self.len - j,
        {
            j = j + 1;
        }
        j
    }

    /// Map a recognized word to its keyword token kind, if it is one.
    fn keyword_of(w: &str) -> (r: Option<TSXTokenType>)
        ensures
            r == keyword_kind(w@),
    {
        if str_eq(w, "type") {
            Some(TSXTokenType::Type)
        } else if str_eq(w, "export") {
            Some(TSXTokenType::Export)
        } else if str_eq(w, "import") {
            Some(TSXTokenType::Import)
        } else if str_eq(w, "default") {
            Some(TSXTokenType::Default)
        } else if str_eq(w, "const") {
            Some(TSXTokenType::Const)
        } else if str_eq(w, "let") {
            Some(TSXTokenType::Let)
        } else if str_eq(w, "return") {
            Some(TSXTokenType::Return)
        } else if str_eq(w, "if") {
            Some(TSXTokenType::If)
        } else if str_eq(w, "else") {
            Some(TSXTokenType::Else)
        } else if str_eq(w, "true") {
            Some(TSXTokenType::True)
        } else if str_eq(w, "false") {
            Some(TSXTokenType::False)
        } else if str_eq(w, "function") {
            Some(TSXTokenType::Fn)
        } else if str_eq(w, "class") {
            Some(TSXTokenType::Class)
        } else if str_eq(w, "var") {
            Some(TSXTokenType::Var)
        } else if str_eq(w, "from") {
            Some(TSXTokenType::From)
        } else {
            None
        }
    }

    /// Produce the next token and advance past it.
    pub fn next_token(&mut self) -> (t: TSXToken)
        requires
            old(self).wf(),
        ensures
            final(self).wf(),
            final(self).src() == old(self).src(),
            ({
                let step = spec_next_token(old(self).src(), old(self).at_pos());
                t@.kind == step.kind && t@.lit == step.lit && final(self).at_pos() == step.next
            }),
    {
        self.skip_whitespace();
        if self.pos >= self.len {
            return TSXToken::new(TSXTokenType::Eof, "");
        }
        let i: usize = self.pos;
        let c: char = self.at(i);
        if c == ',' {
            self.pos = i + 1;
            TSXToken::new(TSXTokenType::Comma, ",")
        } else if c == ';' {
            self.pos = i + 1;
            TSXToken::new(TSXTokenType::Semicolon, ";")
        } else if c == '(' {
            self.pos = i + 1;
            TSXToken::new(TSXTokenType::LParentheses, "(")
        } else if c == ')' {
            self.pos = i + 1;
            TSXToken::new(TSXTokenType::RParentheses, ")")
        } else if c == '{' {
            self.pos = i + 1;
            TSXToken::new(TSXTokenType::LCurlyBracket, "{")
        } else if c == '}' {
            self.pos = i + 1;
            TSXToken::new(TSXTokenType::RCurlyBracket, "}")
        } else if c == '[' {
            self.pos = i + 1;
            TSXToken::new(TSXTokenType::LBracket, "[")
        } else if c == ']' {
            self.pos = i + 1;
            TSXToken::new(TSXTokenType::RBracket, "]")
        } else if c == ':' {
            self.pos = i + 1;
            TSXToken::new(TSXTokenType::Colon, ":")
        } else if c == '.' {
            self.pos = i + 1;
            TSXToken::new(TSXTokenType::Dot, ".")
        } else if c == '&' {
            self.pos = i + 1;
            TSXToken::new(TSXTokenType::And, "&")
        } else if c == '#' {
            self.pos = i + 1;
            TSXToken::new(TSXTokenType::Ident, "#")
        } else if c == '|' {
            if i + 1 < self.len && self.at(i + 1) == '|' {
                self.pos = i + 2;
                TSXToken::new(TSXTokenType::Or, "||")
            } else {
                self.pos = i + 1;
                TSXToken::new(TSXTokenType::Pipe, "|")
            }
        } else if c == '!' {
            if i + 1 < self.len && self.at(i + 1) == '=' {
                self.pos = i + 2;
                TSXToken::new(TSXTokenType::NotEq, "!=")
            } else {
                self.pos = i + 1;
                TSXToken::new(TSXTokenType::Bang, "!")
            }
        } else if c == '?' {
            if i + 1 < self.len && self.at(i + 1) == '?' {
                self.pos = i + 2;
                TSXToken::new(TSXTokenType::NullishCoalescing, "??")
            } else {
                self.pos = i + 1;
                TSXToken::new(TSXTokenType::Question, "?")
            }
        } else if c == '=' {
            if i + 1 < self.len && self.at(i + 1) == '=' {
                self.pos = i + 2;
                TSXToken::new(TSXTokenType::Eq, "==")
            } else if i + 1 < self.len && self.at(i + 1) == '>' {
                self.pos = i + 2;
                TSXToken::new(TSXTokenType::Arrow, "=>")
            } else {
                self.pos = i + 1;
                TSXToken::new(TSXTokenType::Assign, "=")
            }
        } else if c == '<' {
            if i + 1 < self.len && self.at(i + 1) == '=' {
                self.pos = i + 2;
                TSXToken::new(TSXTokenType::LtEq, "<=")
            } else if i + 1 < self.len && self.at(i + 1) == '/' {
                self.pos = i + 2;
                TSXToken::new(TSXTokenType::CloseLTag, "</")
            } else {
                self.pos = i + 1;
                TSXToken::new(TSXTokenType::LTag, "<")
            }
        } else if c == '>' {
            if i + 1 < self.len && self.at(i + 1) == '=' {
                self.pos = i + 2;
                TSXToken::new(TSXTokenType::GtEq, ">=")
            } else {
                self.pos = i + 1;
                TSXToken::new(TSXTokenType::RTag, ">")
            }
        } else if c == '/' {
            if i + 1 < self.len && self.at(i + 1) == '/' {
                let k: usize = self.find_from(i + 1, '\n');
                proof {
                    lemma_find_char_bounds(self.src(), i + 2, '\n');
                    assert(find_char(self.src(), i + 1 as int, '\n') == find_char(
                        self.src(),
                        i + 2 as int,
                        '\n',
                    ));
                }
                let stop: usize = if k < self.len {
                    k + 1
                } else {
                    self.len
                };
                let lit: &str = self.slice(i + 2, stop);
                self.pos = k;
                TSXToken::new(TSXTokenType::Comment, lit)
            } else if i + 1 < self.len && self.at(i + 1) == '*' {
                self.pos = i + 2;
                TSXToken::new(TSXTokenType::StartDocComment, "/*")
            } else if i + 1 < self.len && self.at(i + 1) == '=' {
                self.pos = i + 2;
                TSXToken::new(TSXTokenType::SlashEqual, "/=")
            } else if i + 1 < self.len && self.at(i + 1) == '>' {
                self.pos = i + 2;
                TSXToken::new(TSXTokenType::CloseRTag, "/>")
            } else {
                self.pos = i + 1;
                TSXToken::new(TSXTokenType::Slash, "/")
            }
        } else if c == '*' {
            if i + 1 < self.len && self.at(i + 1) == '/' {
                if i + 2 >= self.len {
                    self.pos = self.len;
                    TSXToken::new(TSXTokenType::EndDocComment, "")
                } else {
                    let k: usize = self.find_from(i + 2, '*');
                    proof {
                        lemma_find_char_bounds(self.src(), i + 2, '*');
                    }
                    let stop: usize = if k < self.len {
                        k + 1
                    } else {
                        self.len
                    };
                    let lit: &str = self.slice(i + 3, stop);
                    if k >= self.len {
                        self.pos = self.len;
                    } else if k + 1 < self.len && self.at(k + 1) == '/' {
                        self.pos = k + 2;
                    } else if k + 1 < self.len {
                        self.pos = k + 1;
                    } else {
                        self.pos = self.len;
                    }
                    TSXToken::new(TSXTokenType::EndDocComment, lit)
                }
            } else if i + 1 < self.len && self.at(i + 1) == '=' {
                self.pos = i + 2;
                TSXToken::new(TSXTokenType::CrossEqual, "*=")
            } else {
                self.pos = i + 1;
                TSXToken::new(TSXTokenType::Asterisk, "*")
            }
        } else if c == '+' {
            if i + 1 < self.len && self.at(i + 1) == '+' {
                self.pos = i + 2;
                TSXToken::new(TSXTokenType::Increment, "++")
            } else if i + 1 < self.len && self.at(i + 1) == '=' {
                self.pos = i + 2;
                TSXToken::new(TSXTokenType::IncrementEqual, "+=")
            } else {
                self.pos = i + 1;
                TSXToken::new(TSXTokenType::Add, "+")
            }
        } else if c == '-' {
            if i + 1 < self.len && self.at(i + 1) == '-' {
                self.pos = i + 2;
                TSXToken::new(TSXTokenType::Decrement, "--")
            } else if i + 1 < self.len && self.at(i + 1) == '=' {
                self.pos = i + 2;
                TSXToken::new(TSXTokenType::DecrementEqual, "-=")
            } else {
                self.pos = i + 1;
                TSXToken::new(TSXTokenType::Sub, "-")
            }
        } else if c == '"' {
            let k: usize = self.find_from(i + 1, '"');
            proof {
                lemma_find_char_bounds(self.src(), i + 1, '"');
            }
            let lit: &str = self.slice(i + 1, k);
            self.pos = if k < self.len {
                k + 1
            } else {
                self.len
            };
            TSXToken::new(TSXTokenType::StringLiteral, lit)
        } else if c == '\'' {
            if i + 1 >= self.len {
                self.pos = self.len;
                TSXToken::new(TSXTokenType::StringLiteral, "")
            } else {
                let k: usize = self.find_from(i + 2, '"');
                proof {
                    lemma_find_char_bounds(self.src(), i + 2, '"');
                }
                let lit: &str = self.slice(i + 2, k);
                self.pos = if k < self.len {
                    k + 1
                } else {
                    self.len
                };
                TSXToken::new(TSXTokenType::StringLiteral, lit)
            }
        } else if is_letter(c) {
            let j: usize = self.word_end_from(i + 1);
            proof {
                lemma_word_end_bounds(self.src(), i + 1 as int);
            }
            let w: &str = self.slice(i, j);
            self.pos = j;
            match Self::keyword_of(w) {
                Some(kind) => TSXToken::new(kind, w),
                None => TSXToken::new(TSXTokenType::Ident, w),
            }
        } else if is_numeric(c) {
            let j: usize = self.number_end_from(i);
            proof {
                lemma_number_end_bounds(self.src(), i as int);
            }
            let w: &str = self.slice(i, j);
            self.pos = j;
            TSXToken::new(TSXTokenType::NumberLiteral, w)
        } else {
            self.pos = i + 1;
            TSXToken::new(TSXTokenType::Eof, "")
        }
    }
}

} // verus!
