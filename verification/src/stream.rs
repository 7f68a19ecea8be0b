use vstd::prelude::*;

use crate::lexer::{lemma_next_token_advances, spec_next_token};
use crate::token::{TSXTokenType, TokenSpec};

verus! {

/// The end-of-input token, as the tokenizer produces it at exhaustion.
pub open spec fn eof_token() -> TokenSpec {
    TokenSpec { kind: TSXTokenType::Eof, lit: ""@ }
}

/// The whole token stream of `s` from position `pos` on: one token per
/// step of the tokenizer, closed by the end-of-input token.  An embedded
/// end-of-input token (an unrecognized character) does not stop the
/// stream, just as it does not stop the tokenizer.
pub open spec fn spec_tokens(s: Seq<char>, pos: int) -> Seq<TokenSpec>
    decreases s.len() - pos,
    via spec_tokens_decreases
{
    if !(0 <= pos < s.len()) {
        seq![eof_token()]
    } else {
        let step = spec_next_token(s, pos);
        seq![TokenSpec { kind: step.kind, lit: step.lit }] + spec_tokens(s, step.next)
    }
}

#[via_fn]
proof fn spec_tokens_decreases(s: Seq<char>, pos: int) {
    if 0 <= pos < s.len() {
        lemma_next_token_advances(s, pos);
    }
}

/// The character position of the tokenizer after it has produced `j`
/// tokens from the start of `s`.
pub open spec fn tok_pos(s: Seq<char>, j: int) -> int
    decreases j,
{
    if j <= 0 {
        0
    } else {
        spec_next_token(s, tok_pos(s, j - 1)).next
    }
}

/// Token boundaries stay inside the input.
pub proof fn lemma_tok_pos_bounds(s: Seq<char>, j: int)
    requires
        j >= 0,
    ensures
        0 <= tok_pos(s, j) <= s.len(),
    decreases j,
{
    if j > 0 {
        lemma_tok_pos_bounds(s, j - 1);
        lemma_next_token_advances(s, tok_pos(s, j - 1));
    }
}

/// Each token swallows at least one character, so the stream cannot be
/// longer than the input plus its closing end token.
pub proof fn lemma_stream_len_bound(s: Seq<char>, pos: int)
    requires
        0 <= pos <= s.len(),
    ensures
        spec_tokens(s, pos).len() <= s.len() - pos + 1,
    decreases s.len() - pos,
{
    if 0 <= pos < s.len() {
        lemma_next_token_advances(s, pos);
        lemma_stream_len_bound(s, spec_next_token(s, pos).next);
    }
}

/// From the `j`-th boundary on, the stream is the tail of the whole stream.
pub proof fn lemma_stream_suffix(s: Seq<char>, j: int)
    requires
        0 <= j < spec_tokens(s, 0).len(),
    ensures
        0 <= tok_pos(s, j) <= s.len(),
        spec_tokens(s, tok_pos(s, j)) == spec_tokens(s, 0).skip(j),
    decreases j,
{
    lemma_tok_pos_bounds(s, j);
    if j == 0 {
        assert(spec_tokens(s, 0).skip(0) =~= spec_tokens(s, 0));
    } else {
        lemma_stream_suffix(s, j - 1);
        let p = tok_pos(s, j - 1);
        let tail = spec_tokens(s, p);
        assert(tail.len() == spec_tokens(s, 0).len() - (j - 1));
        assert(tail.len() >= 2);
        if !(0 <= p < s.len()) {
            assert(tail.len() == 1);
            assert(false);
        } else {
            let step = spec_next_token(s, p);
            assert(tail == seq![TokenSpec { kind: step.kind, lit: step.lit }] + spec_tokens(
                s,
                step.next,
            ));
            assert(spec_tokens(s, step.next) =~= tail.skip(1));
            assert(tail.skip(1) =~= spec_tokens(s, 0).skip(j));
        }
    }
}

/// What the tokenizer returns at the `j`-th boundary: exactly the `j`-th
/// token of the stream, ending at the next boundary.
pub proof fn lemma_stream_read(s: Seq<char>, j: int)
    requires
        0 <= j < spec_tokens(s, 0).len(),
    ensures
        0 <= tok_pos(s, j) <= s.len(),
        0 <= tok_pos(s, j + 1) <= s.len(),
        ({
            let step = spec_next_token(s, tok_pos(s, j));
            spec_tokens(s, 0)[j] == (TokenSpec { kind: step.kind, lit: step.lit })
                && tok_pos(s, j + 1) == step.next
        }),
{
    lemma_stream_suffix(s, j);
    lemma_tok_pos_bounds(s, j + 1);
    let p = tok_pos(s, j);
    let step = spec_next_token(s, p);
    assert(spec_tokens(s, 0).skip(j)[0] == spec_tokens(s, 0)[j]);
    if !(0 <= p < s.len()) {
        assert(p == s.len());
        assert(spec_tokens(s, p) == seq![eof_token()]);
    }
}

/// The stream is never empty, ends in the end-of-input token, and its last
/// boundary is the end of the input: reading there repeats the end token
/// without moving.
pub proof fn lemma_stream_end(s: Seq<char>)
    ensures
        spec_tokens(s, 0).len() >= 1,
        tok_pos(s, spec_tokens(s, 0).len() as int) == s.len(),
        ({
            let step = spec_next_token(s, s.len() as int);
            step.kind == TSXTokenType::Eof && step.lit == ""@ && step.next == s.len()
        }),
{
    let n = spec_tokens(s, 0).len() as int;
    lemma_stream_suffix(s, n - 1);
    let p = tok_pos(s, n - 1);
    let tail = spec_tokens(s, p);
    assert(tail.len() == 1);
    if 0 <= p < s.len() {
        lemma_next_token_advances(s, p);
        let step = spec_next_token(s, p);
        assert(tail == seq![TokenSpec { kind: step.kind, lit: step.lit }] + spec_tokens(
            s,
            step.next,
        ));
        assert(tail.len() >= 2);
        assert(false);
    }
    assert(p == s.len());
    lemma_next_token_advances(s, s.len() as int);
}

} // verus!
