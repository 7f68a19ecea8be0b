use vstd::prelude::*;
use vstd::string::StringExecFns;

use crate::component::{Component, ComponentSpec, Key, NamedProps, NamedPropsSpec, ObjectType,
    Props, PropsSpec, TSXContent, Type, TypeSpec, lemma_types_view_all, spec_obj_insert,
    type_str, types_view};
use crate::lexer::Lexer;
use crate::stream::{eof_token, lemma_stream_end, lemma_stream_len_bound, lemma_stream_read,
    spec_tokens, tok_pos};
use crate::text::str_eq;
use crate::token::{TSXToken, TSXTokenType, TokenSpec};

verus! {

/// A structural violation: the token that was found where the grammar
/// demanded another, and the kind that was demanded where one single kind
/// was.
#[derive(Debug, Clone, PartialEq)]
pub struct ParseError {
    pub expected: Option<TSXTokenType>,
    pub found: TSXToken,
}

/// Mathematical value of a `ParseError`.
pub struct ParseErrorSpec {
    pub expected: Option<TSXTokenType>,
    pub found: TokenSpec,
}

impl View for ParseError {
    type V = ParseErrorSpec;

    open spec fn view(&self) -> ParseErrorSpec {
        ParseErrorSpec { expected: self.expected, found: self.found@ }
    }
}

pub open spec fn perr(expected: Option<TSXTokenType>, found: TokenSpec) -> ParseErrorSpec {
    ParseErrorSpec { expected, found }
}

/// The parser's abstract state: the token stream of the file, how many
/// tokens the tokenizer has handed out, the one-token pushback slot, and
/// the alias table (alias name to resolved props, newest last).
pub struct PState {
    pub toks: Seq<TokenSpec>,
    pub i: int,
    pub peek: Option<TokenSpec>,
    pub tbl: Seq<(Seq<char>, PropsSpec)>,
}

/// Tokens not yet handed out, counting an occupied pushback slot as half a
/// step: every way of consuming a token makes this smaller.
pub open spec fn pmeasure(st: PState) -> int {
    2 * (if st.toks.len() - st.i >= 0 {
        st.toks.len() - st.i
    } else {
        0
    }) + (if st.peek is Some {
        1int
    } else {
        0int
    })
}

/// Take the next token: from the pushback slot if it is occupied, else
/// from the stream; past the end the end-of-input token repeats.
pub open spec fn spec_read(st: PState) -> (TokenSpec, PState) {
    match st.peek {
        Some(t) => (t, PState { peek: None, ..st }),
        None => spec_lexer_read(st),
    }
}

/// Take the next token straight from the tokenizer, bypassing the
/// pushback slot (which several parser paths do).
pub open spec fn spec_lexer_read(st: PState) -> (TokenSpec, PState) {
    if 0 <= st.i < st.toks.len() {
        (st.toks[st.i], PState { i: st.i + 1, ..st })
    } else {
        (eof_token(), st)
    }
}

/// Termination guard for resuming a scan after a nested parse.  Every
/// nested parse consumes at least one token, so in every reachable case
/// the guard is the identity on `cur`; the fallback exists only to make
/// the recursion measure self-evident.
pub open spec fn resumed(prev: PState, cur: PState) -> PState {
    if cur.toks == prev.toks && pmeasure(cur) < pmeasure(prev) {
        cur
    } else {
        PState {
            toks: prev.toks,
            i: if prev.i < prev.toks.len() {
                prev.i + 1
            } else {
                prev.i
            },
            peek: None,
            tbl: cur.tbl,
        }
    }
}

/// First index holding `name` in the alias table, or its length.
pub open spec fn spec_tbl_index_of(tbl: Seq<(Seq<char>, PropsSpec)>, name: Seq<char>) -> int
    decreases tbl.len(),
{
    if tbl.len() == 0 {
        0
    } else if tbl[0].0 == name {
        0
    } else {
        1 + spec_tbl_index_of(tbl.subrange(1, tbl.len() as int), name)
    }
}

/// Whether the alias table holds an entry under `name`.
pub open spec fn spec_tbl_contains(tbl: Seq<(Seq<char>, PropsSpec)>, name: Seq<char>) -> bool {
    exists|k: int| 0 <= k < tbl.len() && tbl[k].0 == name
}

/// Claim an alias: hand out its entry and remove it from the table.  A
/// missing alias leaves the table unchanged and hands out nothing.
pub open spec fn spec_tbl_claim(tbl: Seq<(Seq<char>, PropsSpec)>, name: Seq<char>) -> (
    Option<PropsSpec>,
    Seq<(Seq<char>, PropsSpec)>,
) {
    let j = spec_tbl_index_of(tbl, name);
    if j < tbl.len() {
        (Some(tbl[j].1), tbl.remove(j))
    } else {
        (None, tbl)
    }
}

/// Store an alias, replacing any entry already held under the same name.
pub open spec fn spec_tbl_insert(
    tbl: Seq<(Seq<char>, PropsSpec)>,
    name: Seq<char>,
    props: PropsSpec,
) -> Seq<(Seq<char>, PropsSpec)> {
    spec_tbl_claim(tbl, name).1.push((name, props))
}

/// Props stored for a `type NAME = { ... }` declaration.
pub open spec fn named_object(name: Seq<char>, obj: Seq<(Seq<char>, TypeSpec)>) -> PropsSpec {
    PropsSpec::Named(NamedPropsSpec { name, inner: TypeSpec::Object(obj) })
}

/// Props stored for a declaration followed by `& OtherAlias`: a shallow
/// intersection of the object and the named type.
pub open spec fn named_intersection(
    name: Seq<char>,
    obj: Seq<(Seq<char>, TypeSpec)>,
    other: Seq<char>,
) -> PropsSpec {
    PropsSpec::Named(
        NamedPropsSpec {
            name,
            inner: TypeSpec::Intersection(seq![TypeSpec::Object(obj), TypeSpec::Alias(other)]),
        },
    )
}

/// The stub stored when a component names an alias the table does not
/// hold: the name with an empty object shape.
pub open spec fn stub_props(name: Seq<char>) -> PropsSpec {
    PropsSpec::Named(NamedPropsSpec { name, inner: TypeSpec::Object(Seq::empty()) })
}

/// Concatenate token text until a separator (`;`, `}`, `,`) or the end of
/// the input; the separator is consumed.  This is the shallow union and
/// intersection handling: the branches are kept as one opaque text.
pub open spec fn spec_concat_until(st: PState, acc: Seq<char>) -> (Seq<char>, PState)
    decreases pmeasure(st),
{
    let (t, st1) = spec_lexer_read(st);
    if t.kind == TSXTokenType::Semicolon || t.kind == TSXTokenType::RCurlyBracket || t.kind
        == TSXTokenType::Comma || t.kind == TSXTokenType::Eof {
        (acc, st1)
    } else {
        spec_concat_until(st1, acc + t.lit)
    }
}

/// Consume the body of a parenthesized parameter list up to the matching
/// closing parenthesis, concatenating the token text.
pub open spec fn spec_paren_body(st: PState, depth: int, acc: Seq<char>) -> (
    Result<Seq<char>, ParseErrorSpec>,
    PState,
)
    decreases pmeasure(st),
{
    let (t, st1) = spec_lexer_read(st);
    if t.kind == TSXTokenType::Eof {
        (Err(perr(Some(TSXTokenType::RParentheses), t)), st1)
    } else if t.kind == TSXTokenType::RParentheses {
        if depth <= 1 {
            (Ok(acc), st1)
        } else {
            spec_paren_body(st1, depth - 1, acc + t.lit)
        }
    } else if t.kind == TSXTokenType::LParentheses {
        spec_paren_body(st1, depth + 1, acc + t.lit)
    } else {
        spec_paren_body(st1, depth, acc + t.lit)
    }
}

/// The type-value parser, entered after the `:` of a field.  `ltag` is the
/// number of angle brackets still open.  It produces the reconstructed
/// annotation text as an opaque alias type.
pub open spec fn spec_get_type_value(st: PState, ltag: int) -> (
    Result<TypeSpec, ParseErrorSpec>,
    PState,
)
    decreases pmeasure(st), 0int,
{
    let (t, st1) = spec_lexer_read(st);
    if t.kind == TSXTokenType::Ident {
        let (next, st2) = spec_lexer_read(st1);
        if next.kind == TSXTokenType::Ident || next.kind == TSXTokenType::RCurlyBracket {
            (Ok(TypeSpec::Alias(t.lit)), PState { peek: Some(next), ..st2 })
        } else if next.kind == TSXTokenType::Semicolon || next.kind == TSXTokenType::Comma {
            (Ok(TypeSpec::Alias(t.lit)), st2)
        } else if next.kind == TSXTokenType::Dot {
            let (r, st3) = spec_get_type_value(st2, ltag);
            match r {
                Ok(inner) => (Ok(TypeSpec::Alias(t.lit + "."@ + type_str(inner))), st3),
                Err(e) => (Err(e), st3),
            }
        } else if next.kind == TSXTokenType::RTag {
            spec_after_rtag(st2, ltag, t.lit + ">"@, next)
        } else if next.kind == TSXTokenType::LTag {
            let (r, st3) = spec_get_type_value(st2, ltag + 1);
            match r {
                Ok(inner) => (Ok(TypeSpec::Alias(t.lit + "<"@ + type_str(inner))), st3),
                Err(e) => (Err(e), st3),
            }
        } else if next.kind == TSXTokenType::Pipe {
            let (acc, st3) = spec_concat_until(st2, t.lit + "|"@);
            (Ok(TypeSpec::Alias(acc)), st3)
        } else if next.kind == TSXTokenType::And {
            let (acc, st3) = spec_concat_until(st2, t.lit + "&"@);
            (Ok(TypeSpec::Alias(acc)), st3)
        } else {
            (Err(perr(None, next)), st2)
        }
    } else if t.kind == TSXTokenType::LParentheses {
        let (body, st1b) = spec_paren_body(st1, 1, Seq::empty());
        match body {
            Err(e) => (Err(e), st1b),
            Ok(inner) => {
                let (arrow, st2) = spec_lexer_read(st1b);
                if arrow.kind != TSXTokenType::Arrow {
                    (Err(perr(Some(TSXTokenType::Arrow), arrow)), st2)
                } else {
                    let (r, st3) = spec_get_type_value(resumed(st, st2), 0);
                    match r {
                        Ok(ret) => (
                            Ok(TypeSpec::Alias("("@ + inner + ") => "@ + type_str(ret))),
                            st3,
                        ),
                        Err(e) => (Err(e), st3),
                    }
                }
            },
        }
    } else {
        (Err(perr(None, t)), st1)
    }
}

/// Continuation of the type-value parser after a closing `>`: track the
/// outstanding angle-bracket depth, re-entering with less depth while any
/// remains.  `acc` already ends in the `>` just seen.
pub open spec fn spec_after_rtag(st: PState, ltag: int, acc: Seq<char>, rtag_tok: TokenSpec) -> (
    Result<TypeSpec, ParseErrorSpec>,
    PState,
)
    decreases pmeasure(st), 0int,
{
    let (n2, st1) = spec_lexer_read(st);
    if n2.kind == TSXTokenType::Semicolon || n2.kind == TSXTokenType::Comma {
        spec_close_tags(st1, ltag, acc, rtag_tok)
    } else if n2.kind == TSXTokenType::Ident || n2.kind == TSXTokenType::RCurlyBracket {
        spec_close_tags(PState { peek: Some(n2), ..st1 }, ltag, acc, rtag_tok)
    } else if n2.kind == TSXTokenType::RTag {
        if ltag == 2 {
            let (n3, st2) = spec_lexer_read(st1);
            if n3.kind == TSXTokenType::Semicolon || n3.kind == TSXTokenType::Comma {
                (Ok(TypeSpec::Alias(acc + ">"@)), st2)
            } else if n3.kind == TSXTokenType::Ident || n3.kind == TSXTokenType::RCurlyBracket {
                (Ok(TypeSpec::Alias(acc + ">"@)), PState { peek: Some(n3), ..st2 })
            } else if n3.kind == TSXTokenType::Pipe {
                let (full, st3) = spec_concat_until(st2, acc + ">"@ + "|"@);
                (Ok(TypeSpec::Alias(full)), st3)
            } else {
                (Err(perr(None, n3)), st2)
            }
        } else if ltag >= 3 {
            spec_get_type_value(st1, ltag - 2)
        } else {
            (Err(perr(None, n2)), st1)
        }
    } else {
        (Err(perr(None, n2)), st1)
    }
}

/// Finish a closed generic: at depth one the accumulated text is the
/// alias; deeper, the parser re-enters with one bracket less.
pub open spec fn spec_close_tags(st: PState, ltag: int, acc: Seq<char>, rtag_tok: TokenSpec) -> (
    Result<TypeSpec, ParseErrorSpec>,
    PState,
)
    decreases pmeasure(st), 1int,
{
    if ltag == 1 {
        (Ok(TypeSpec::Alias(acc)), st)
    } else if ltag >= 2 {
        spec_get_type_value(st, ltag - 1)
    } else {
        (Err(perr(None, rtag_tok)), st)
    }
}

/// One field (and those after it) of a `type NAME = { ... }` body.  `key`
/// is the text of the field key already read; a `?` before the `:` marks
/// the field optional by suffixing the key text.
pub open spec fn spec_decl_fields(
    st: PState,
    name: Seq<char>,
    obj: Seq<(Seq<char>, TypeSpec)>,
    key: Seq<char>,
) -> (Result<(), ParseErrorSpec>, PState)
    decreases pmeasure(st), 2int,
{
    let (cq, st1) = spec_lexer_read(st);
    let qmark = cq.kind == TSXTokenType::Question;
    let (colon_ok, keylit, st2): (bool, Seq<char>, PState) = if qmark {
        let (colon, st1b) = spec_lexer_read(st1);
        (colon.kind == TSXTokenType::Colon, key + "?"@, st1b)
    } else {
        (true, key, st1)
    };
    if !colon_ok {
        (Err(perr(Some(TSXTokenType::Colon), spec_lexer_read(st1).0)), st2)
    } else {
        let (tv, st3) = spec_get_type_value(st2, 0);
        match tv {
            Err(e) => (Err(e), st3),
            Ok(ty) => {
                let obj2 = spec_obj_insert(obj, keylit, ty);
                let (nk, st4) = spec_read(st3);
                if nk.kind == TSXTokenType::Ident {
                    spec_decl_fields(resumed(st, st4), name, obj2, nk.lit)
                } else if nk.kind == TSXTokenType::RCurlyBracket {
                    spec_finish_decl(st4, name, obj2)
                } else if nk.kind == TSXTokenType::LTag || nk.kind == TSXTokenType::RTag
                    || nk.kind == TSXTokenType::Or || nk.kind == TSXTokenType::Pipe || nk.kind
                    == TSXTokenType::And {
                    spec_decl_fields(resumed(st, st4), name, obj2, keylit)
                } else {
                    (Err(perr(None, nk)), st4)
                }
            },
        }
    }
}

/// After the closing `}` of a declaration body: look one token ahead,
/// swallow stray semicolons, and catch a following `| ...` or `& Ident`.
pub open spec fn spec_finish_decl(
    st: PState,
    name: Seq<char>,
    obj: Seq<(Seq<char>, TypeSpec)>,
) -> (Result<(), ParseErrorSpec>, PState)
    decreases pmeasure(st), 1int,
{
    let (t, st1) = spec_lexer_read(st);
    spec_skip_semis(PState { peek: Some(t), ..st1 }, name, obj)
}

/// Swallow semicolons after a declaration, refilling the pushback slot.
pub open spec fn spec_skip_semis(
    st: PState,
    name: Seq<char>,
    obj: Seq<(Seq<char>, TypeSpec)>,
) -> (Result<(), ParseErrorSpec>, PState)
    decreases pmeasure(st), 0int,
{
    if st.peek matches Some(t) && t.kind == TSXTokenType::Semicolon {
        if 0 <= st.i < st.toks.len() {
            spec_skip_semis(
                PState { i: st.i + 1, peek: Some(st.toks[st.i]), ..st },
                name,
                obj,
            )
        } else {
            spec_decl_tail(PState { peek: Some(eof_token()), ..st }, name, obj)
        }
    } else {
        spec_decl_tail(st, name, obj)
    }
}

/// The declaration's tail: a `|` swallows one more token and the object
/// is stored; an `& Ident` stores a shallow intersection instead; else
/// the object is stored as it stands.  The pushback slot keeps what it
/// held, for the scan loop to see next.
pub open spec fn spec_decl_tail(
    st: PState,
    name: Seq<char>,
    obj: Seq<(Seq<char>, TypeSpec)>,
) -> (Result<(), ParseErrorSpec>, PState)
    decreases pmeasure(st), 0int, 0int,
{
    if st.peek matches Some(t) && t.kind == TSXTokenType::Pipe {
        let (_junk, st1) = spec_lexer_read(st);
        (Ok(()), PState { tbl: spec_tbl_insert(st1.tbl, name, named_object(name, obj)), ..st1 })
    } else if st.peek matches Some(t) && t.kind == TSXTokenType::And {
        let (ind, st1) = spec_lexer_read(st);
        if ind.kind != TSXTokenType::Ident {
            (Err(perr(Some(TSXTokenType::Ident), ind)), st1)
        } else {
            (
                Ok(()),
                PState {
                    tbl: spec_tbl_insert(st1.tbl, name, named_intersection(name, obj, ind.lit)),
                    ..st1
                },
            )
        }
    } else {
        (Ok(()), PState { tbl: spec_tbl_insert(st.tbl, name, named_object(name, obj)), ..st })
    }
}

/// A whole `type NAME = { ... }` body, entered just after the `{`.
pub open spec fn spec_after_type_lcurl(st: PState, name: Seq<char>) -> (
    Result<(), ParseErrorSpec>,
    PState,
)
    decreases pmeasure(st), 3int,
{
    let (k0, st1) = spec_lexer_read(st);
    if k0.kind == TSXTokenType::RCurlyBracket {
        (Ok(()), PState { tbl: spec_tbl_insert(st1.tbl, name, named_object(name, Seq::empty())), ..st1 })
    } else {
        spec_decl_fields(st1, name, Seq::empty(), k0.lit)
    }
}

/// Resolve `FC<Alias>` / `VFC<Alias>`: read the bracket and the alias
/// name, claim the alias from the table (removing it), and fall back to
/// the stub when the table does not hold it.  This always finds a
/// component.
pub open spec fn spec_claim_fc(st: PState, comp_name: Seq<char>) -> (
    Result<Option<ComponentSpec>, ParseErrorSpec>,
    PState,
) {
    let (_lt, st1) = spec_lexer_read(st);
    let (alias, st2) = spec_lexer_read(st1);
    let (claimed, tbl2) = spec_tbl_claim(st2.tbl, alias.lit);
    let stf = PState { tbl: tbl2, ..st2 };
    match claimed {
        Some(props) => (Ok(Some(ComponentSpec { name: comp_name, props })), stf),
        None => (
            Ok(Some(ComponentSpec { name: comp_name, props: stub_props(alias.lit) })),
            stf,
        ),
    }
}

/// The props parameter list of an arrow or function component, entered
/// just after its `(`.  This either finds the component or reports a
/// structural violation; `Ok` always carries the component.
pub open spec fn spec_from_props_lparen(st: PState, comp_name: Seq<char>) -> (
    Result<ComponentSpec, ParseErrorSpec>,
    PState,
)
    decreases pmeasure(st), 4int,
{
    let (t, st1) = spec_lexer_read(st);
    if t.kind == TSXTokenType::RParentheses {
        (Ok(ComponentSpec { name: comp_name, props: PropsSpec::Expand(Seq::empty()) }), st1)
    } else {
        let (colon, st2) = spec_lexer_read(st1);
        if colon.kind != TSXTokenType::Colon {
            (Err(perr(Some(TSXTokenType::Colon), colon)), st2)
        } else {
            let (pn, st3) = spec_lexer_read(st2);
            if pn.kind == TSXTokenType::Ident {
                let (claimed, tbl2) = spec_tbl_claim(st3.tbl, pn.lit);
                let stf = PState { tbl: tbl2, ..st3 };
                match claimed {
                    Some(props) => (Ok(ComponentSpec { name: comp_name, props }), stf),
                    None => (
                        Ok(ComponentSpec { name: comp_name, props: stub_props(pn.lit) }),
                        stf,
                    ),
                }
            } else {
                let (k0, st4) = spec_lexer_read(st3);
                if k0.kind == TSXTokenType::RCurlyBracket {
                    (
                        Ok(ComponentSpec {
                            name: comp_name,
                            props: PropsSpec::Expand(Seq::empty()),
                        }),
                        st4,
                    )
                } else {
                    spec_props_fields(st4, comp_name, Seq::empty(), k0)
                }
            }
        }
    }
}

/// The fields of an inline props object, mirroring the declaration-body
/// field loop but keyed by whole tokens and closed by `}` alone.
pub open spec fn spec_props_fields(
    st: PState,
    comp_name: Seq<char>,
    obj: Seq<(Seq<char>, TypeSpec)>,
    key: TokenSpec,
) -> (Result<ComponentSpec, ParseErrorSpec>, PState)
    decreases pmeasure(st), 3int,
{
    if key.kind == TSXTokenType::RCurlyBracket {
        (Ok(ComponentSpec { name: comp_name, props: PropsSpec::Expand(obj) }), st)
    } else {
        let (cq, st1) = spec_lexer_read(st);
        let qmark = cq.kind == TSXTokenType::Question;
        let (colon_ok, keylit, st2): (bool, Seq<char>, PState) = if qmark {
            let (colon, st1b) = spec_lexer_read(st1);
            (colon.kind == TSXTokenType::Colon, key.lit + "?"@, st1b)
        } else {
            (true, key.lit, st1)
        };
        if !colon_ok {
            (Err(perr(Some(TSXTokenType::Colon), spec_lexer_read(st1).0)), st2)
        } else {
            let (tv, st3) = spec_get_type_value(st2, 0);
            match tv {
                Err(e) => (Err(e), st3),
                Ok(ty) => {
                    let obj2 = spec_obj_insert(obj, keylit, ty);
                    let (nk, st4) = spec_lexer_read(st3);
                    spec_props_fields(resumed(st, st4), comp_name, obj2, nk)
                },
            }
        }
    }
}

/// What follows `export const NAME` (or `export NAME`): an `FC`-style
/// annotation or an arrow function yields the component; anything else is
/// not a component, and the scan goes on looking for a later export.
pub open spec fn spec_after_const_name(st: PState, comp_name: Seq<char>) -> (
    Result<Option<ComponentSpec>, ParseErrorSpec>,
    PState,
)
    decreases pmeasure(st), 5int,
{
    let (t, st1) = spec_lexer_read(st);
    if t.kind == TSXTokenType::Colon {
        let (tn, st2) = spec_lexer_read(st1);
        if tn.lit == "FC"@ || tn.lit == "VFC"@ {
            spec_claim_fc(st2, comp_name)
        } else if tn.lit == "React"@ {
            let (_dot, st3) = spec_lexer_read(st2);
            let (fc, st4) = spec_lexer_read(st3);
            if fc.lit == "FC"@ || fc.lit == "VFC"@ {
                spec_claim_fc(st4, comp_name)
            } else {
                (Ok(None), st4)
            }
        } else {
            (Ok(None), st2)
        }
    } else if t.kind == TSXTokenType::Assign {
        let (lp, st2) = spec_lexer_read(st1);
        if lp.kind == TSXTokenType::LParentheses {
            let (r, st3) = spec_from_props_lparen(st2, comp_name);
            match r {
                Ok(c) => (Ok(Some(c)), st3),
                Err(e) => (Err(e), st3),
            }
        } else {
            (Ok(None), st2)
        }
    } else {
        (Ok(None), st1)
    }
}

/// The scan loop: walk the token stream; a `type` declaration fills the
/// alias table, the first export recognized as a component ends the scan
/// with it, the end of input ends the scan with nothing.
pub open spec fn spec_search(st: PState) -> (
    Result<Option<ComponentSpec>, ParseErrorSpec>,
    PState,
)
    decreases pmeasure(st), 6int,
{
    let (t, st1) = spec_read(st);
    if t.kind == TSXTokenType::Type {
        let (name, st2) = spec_lexer_read(st1);
        if name.kind != TSXTokenType::Ident {
            (Err(perr(Some(TSXTokenType::Ident), name)), st2)
        } else {
            let (assign, st3) = spec_lexer_read(st2);
            if assign.kind != TSXTokenType::Assign {
                (Err(perr(Some(TSXTokenType::Assign), assign)), st3)
            } else {
                let (next, st4) = spec_lexer_read(st3);
                if next.kind == TSXTokenType::LCurlyBracket {
                    let (r, st5) = spec_after_type_lcurl(st4, name.lit);
                    match r {
                        Err(e) => (Err(e), st5),
                        Ok(u) => spec_search(resumed(st, st5)),
                    }
                } else {
                    spec_search(resumed(st, st4))
                }
            }
        }
    } else if t.kind == TSXTokenType::Export {
        let (first, st2) = spec_lexer_read(st1);
        if first.kind == TSXTokenType::Type {
            spec_search(PState { peek: Some(first), ..st2 })
        } else if first.kind == TSXTokenType::Fn {
            let (name, st3) = spec_lexer_read(st2);
            let (lp, st4) = spec_lexer_read(st3);
            if lp.kind != TSXTokenType::LParentheses {
                (Err(perr(Some(TSXTokenType::LParentheses), lp)), st4)
            } else {
                let (r, st5) = spec_from_props_lparen(st4, name.lit);
                match r {
                    Ok(c) => (Ok(Some(c)), st5),
                    Err(e) => (Err(e), st5),
                }
            }
        } else {
            let (second, st3) = spec_lexer_read(st2);
            if second.kind == TSXTokenType::Fn {
                let (name, st4) = spec_lexer_read(st3);
                let (lp, st5) = spec_lexer_read(st4);
                if lp.kind != TSXTokenType::LParentheses {
                    (Err(perr(Some(TSXTokenType::LParentheses), lp)), st5)
                } else {
                    let (r, st6) = spec_from_props_lparen(st5, name.lit);
                    match r {
                        Ok(c) => (Ok(Some(c)), st6),
                        Err(e) => (Err(e), st6),
                    }
                }
            } else if second.kind == TSXTokenType::Const {
                let (name, st4) = spec_lexer_read(st3);
                let (r, st5) = spec_after_const_name(st4, name.lit);
                match r {
                    Err(e) => (Err(e), st5),
                    Ok(Some(c)) => (Ok(Some(c)), st5),
                    Ok(None) => spec_search(resumed(st, st5)),
                }
            } else if second.kind == TSXTokenType::Ident {
                let (r, st4) = spec_after_const_name(st3, second.lit);
                match r {
                    Err(e) => (Err(e), st4),
                    Ok(Some(c)) => (Ok(Some(c)), st4),
                    Ok(None) => spec_search(resumed(st, st4)),
                }
            } else {
                spec_search(resumed(st, st3))
            }
        }
    } else if t.kind == TSXTokenType::Eof {
        (Ok(None), st1)
    } else {
        spec_search(st1)
    }
}

/// View of the alias table's backing entries.
pub open spec fn tbl_view(es: Seq<(String, crate::component::Props)>) -> Seq<
    (Seq<char>, PropsSpec),
>
    decreases es.len(),
{
    if es.len() == 0 {
        Seq::empty()
    } else {
        seq![(es[0].0@, es[0].1@)] + tbl_view(es.subrange(1, es.len() as int))
    }
}

/// `tbl_view` maps the entry list elementwise.
pub proof fn lemma_tbl_view_all(es: Seq<(String, crate::component::Props)>)
    ensures
        tbl_view(es).len() == es.len(),
        forall|i: int|
            0 <= i < es.len() ==> #[trigger] tbl_view(es)[i] == (es[i].0@, es[i].1@),
    decreases es.len(),
{
    if es.len() > 0 {
        lemma_tbl_view_all(es.subrange(1, es.len() as int));
        assert forall|i: int| 0 <= i < es.len() implies #[trigger] tbl_view(es)[i] == (
            es[i].0@,
            es[i].1@,
        ) by {
            if i > 0 {
                assert(tbl_view(es)[i] == tbl_view(es.subrange(1, es.len() as int))[i - 1]);
                assert(es.subrange(1, es.len() as int)[i - 1] == es[i]);
            }
        }
    }
}

/// The first index holding `name` is everything `spec_tbl_index_of` says.
pub proof fn lemma_tbl_index_of_props(tbl: Seq<(Seq<char>, PropsSpec)>, name: Seq<char>)
    ensures
        0 <= spec_tbl_index_of(tbl, name) <= tbl.len(),
        spec_tbl_index_of(tbl, name) < tbl.len() ==> tbl[spec_tbl_index_of(tbl, name)].0
            == name,
        forall|k: int| 0 <= k < spec_tbl_index_of(tbl, name) ==> tbl[k].0 != name,
    decreases tbl.len(),
{
    if tbl.len() > 0 && tbl[0].0 != name {
        let rest = tbl.subrange(1, tbl.len() as int);
        lemma_tbl_index_of_props(rest, name);
        assert forall|k: int| 0 <= k < spec_tbl_index_of(tbl, name) implies tbl[k].0 != name by {
            if k > 0 {
                assert(rest[k - 1] == tbl[k]);
            }
        }
        if spec_tbl_index_of(tbl, name) < tbl.len() {
            assert(rest[spec_tbl_index_of(rest, name)] == tbl[spec_tbl_index_of(tbl, name)]);
        }
    }
}

/// The alias table: maps a declared type-alias name to its resolved props.
/// An alias is handed out once ("claimed") and removed thereby.
pub struct AliasTable {
    entries: Vec<(String, crate::component::Props)>,
}

impl View for AliasTable {
    type V = Seq<(Seq<char>, PropsSpec)>;

    closed spec fn view(&self) -> Seq<(Seq<char>, PropsSpec)> {
        tbl_view(self.entries@)
    }
}

impl AliasTable {
    pub fn new() -> (r: AliasTable)
        ensures
            r@ == Seq::<(Seq<char>, PropsSpec)>::empty(),
    {
        AliasTable { entries: Vec::new() }
    }

    /// Hand out the entry stored under `name` and remove it, if there is
    /// one; the table is unchanged otherwise.
    #[verifier::loop_isolation(false)]
    pub fn claim(&mut self, name: &str) -> (r: Option<crate::component::Props>)
        ensures
            ({
                let (r0, t0) = spec_tbl_claim(old(self)@, name@);
                final(self)@ == t0 && (r is Some <==> r0 is Some) && (r matches Some(p)
                    ==> r0 matches Some(p0) && p@ == p0)
            }),
    {
        proof {
            lemma_tbl_view_all(self.entries@);
            lemma_tbl_index_of_props(self@, name@);
        }
        let ghost old_view = self@;
        let mut idx: usize = 0;
        while idx < self.entries.len() && !crate::text::str_eq(
            self.entries[idx].0.as_str(),
            name,
        )
            invariant
                idx <= self.entries.len(),
                self == old(self),
                forall|k: int| 0 <= k < idx ==> old_view[k].0 != name@,
            decreases self.entries.len() - idx,
        {
            idx = idx + 1;
        }
        if idx < self.entries.len() {
            proof {
                assert(self.entries[idx as int].0@ == name@);
                assert(old_view[idx as int] == (self.entries[idx as int].0@, self.entries[idx as int].1@));
                assert(old_view[idx as int].0 == name@);
                assert(spec_tbl_index_of(old_view, name@) == idx);
            }
            let entry = self.entries.remove(idx);
            proof {
                lemma_tbl_view_all(self.entries@);
                assert(self@ =~= old_view.remove(idx as int));
            }
            Some(entry.1)
        } else {
            proof {
                assert(spec_tbl_index_of(old_view, name@) == idx);
            }
            None
        }
    }

    /// Store props under `name`, replacing what was there.
    pub fn insert(&mut self, name: String, props: crate::component::Props)
        ensures
            final(self)@ == spec_tbl_insert(old(self)@, name@, props@),
    {
        let _ = self.claim(name.as_str());
        proof {
            lemma_tbl_view_all(self.entries@);
        }
        let ghost mid_view = self@;
        self.entries.push((name, props));
        proof {
            lemma_tbl_view_all(self.entries@);
            assert(self@ =~= mid_view.push((name@, props@)));
        }
    }
}

/// The abstract state a fresh parse of `src` starts from.
pub open spec fn init_state(src: Seq<char>) -> PState {
    PState { toks: spec_tokens(src, 0), i: 0, peek: None, tbl: Seq::empty() }
}

/// What one parse of a whole file yields: the outcome of the scan loop on
/// the file's token stream, starting from an empty alias table.
pub open spec fn spec_parse(src: Seq<char>) -> (
    Result<Option<ComponentSpec>, ParseErrorSpec>,
    PState,
) {
    spec_search(init_state(src))
}

pub open spec fn opt_comp_res_matches(
    r: Result<Option<Component>, ParseError>,
    res: Result<Option<ComponentSpec>, ParseErrorSpec>,
) -> bool {
    match r {
        Ok(Some(c)) => res matches Ok(Some(cs)) && c@ == cs,
        Ok(None) => res matches Ok(None),
        Err(e) => res matches Err(es) && e@ == es,
    }
}

pub open spec fn comp_res_matches(
    r: Result<Component, ParseError>,
    res: Result<ComponentSpec, ParseErrorSpec>,
) -> bool {
    match r {
        Ok(c) => res matches Ok(cs) && c@ == cs,
        Err(e) => res matches Err(es) && e@ == es,
    }
}

pub open spec fn type_res_matches(
    r: Result<Type, ParseError>,
    res: Result<TypeSpec, ParseErrorSpec>,
) -> bool {
    match r {
        Ok(t) => res matches Ok(ts) && t@ == ts,
        Err(e) => res matches Err(es) && e@ == es,
    }
}

pub open spec fn unit_res_matches(
    r: Result<(), ParseError>,
    res: Result<(), ParseErrorSpec>,
) -> bool {
    match r {
        Ok(u) => res is Ok,
        Err(e) => res matches Err(es) && e@ == es,
    }
}

/// The component parser: scans the token stream once with one token of
/// pushback, filling the alias table from `type` declarations until an
/// export is recognized as a component.
pub struct ComponentPartsParser<'a> {
    lexer: Lexer<'a>,
    type_buffer: AliasTable,
    peek: Option<TSXToken>,
    idx: Ghost<int>,
}

impl<'a> ComponentPartsParser<'a> {
    /// The tokenizer sits exactly at the boundary of the next token the
    /// abstract state says is due.
    pub closed spec fn wf(&self) -> bool {
        &&& self.lexer.wf()
        &&& 0 <= self.idx@ <= spec_tokens(self.lexer.src(), 0).len()
        &&& self.lexer.at_pos() == tok_pos(self.lexer.src(), self.idx@)
    }

    /// The source text being parsed.
    pub closed spec fn src(&self) -> Seq<char> {
        self.lexer.src()
    }

    /// The parser's abstract state.
    pub closed spec fn abs(&self) -> PState {
        PState {
            toks: spec_tokens(self.lexer.src(), 0),
            i: self.idx@,
            peek: match self.peek {
                Some(t) => Some(t@),
                None => None,
            },
            tbl: self.type_buffer@,
        }
    }

    pub fn new(content: &'a TSXContent) -> (r: ComponentPartsParser<'a>)
        ensures
            r.wf(),
            r.src() == content@,
            r.abs() == init_state(content@),
    {
        proof {
            lemma_stream_end(content.0@);
        }
        let lexer = Lexer::new(content.0.as_str());
        ComponentPartsParser { lexer, type_buffer: AliasTable::new(), peek: None, idx: Ghost(0) }
    }

    /// Read the next token straight from the tokenizer, bypassing the
    /// pushback slot.
    fn bump_raw(&mut self) -> (t: TSXToken)
        requires
            old(self).wf(),
        ensures
            final(self).wf(),
            final(self).src() == old(self).src(),
            ({
                let (tk, st) = spec_lexer_read(old(self).abs());
                t@ == tk && final(self).abs() == st
            }),
    {
        let ghost s = self.lexer.src();
        let ghost j = self.idx@;
        proof {
            if j < spec_tokens(s, 0).len() {
                lemma_stream_read(s, j);
            } else {
                lemma_stream_end(s);
            }
        }
        let t = self.lexer.next_token();
        proof {
            if j < spec_tokens(s, 0).len() {
                self.idx@ = j + 1;
            }
        }
        t
    }

    /// Read the next token, taking the pushback slot first.
    fn bump(&mut self) -> (t: TSXToken)
        requires
            old(self).wf(),
        ensures
            final(self).wf(),
            final(self).src() == old(self).src(),
            ({
                let (tk, st) = spec_read(old(self).abs());
                t@ == tk && final(self).abs() == st
            }),
    {
        let took = self.peek.take();
        match took {
            Some(t) => t,
            None => self.bump_raw(),
        }
    }

    /// Concatenate token text until a separator or the end of the input.
    fn concat_until(&mut self, acc: String) -> (r: String)
        requires
            old(self).wf(),
        ensures
            final(self).wf(),
            final(self).src() == old(self).src(),
            pmeasure(final(self).abs()) <= pmeasure(old(self).abs()),
            ({
                let (lit, st) = spec_concat_until(old(self).abs(), acc@);
                r@ == lit && final(self).abs() == st
            }),
        decreases pmeasure(self.abs()),
    {
        let t = self.bump_raw();
        if t.token_type == TSXTokenType::Semicolon || t.token_type == TSXTokenType::RCurlyBracket
            || t.token_type == TSXTokenType::Comma || t.token_type == TSXTokenType::Eof {
            acc
        } else {
            let mut acc2 = acc;
            acc2.append(t.literal.as_str());
            self.concat_until(acc2)
        }
    }

    /// Consume a parenthesized parameter list to its matching close.
    fn paren_body(&mut self, depth: u128, acc: String) -> (r: Result<String, ParseError>)
        requires
            old(self).wf(),
            1 <= depth as int <= old(self).abs().i,
        ensures
            final(self).wf(),
            final(self).src() == old(self).src(),
            pmeasure(final(self).abs()) <= pmeasure(old(self).abs()),
            ({
                let (res, st) = spec_paren_body(old(self).abs(), depth as int, acc@);
                final(self).abs() == st && (match r {
                    Ok(lit) => res matches Ok(l) && lit@ == l,
                    Err(e) => res matches Err(es) && e@ == es,
                })
            }),
        decreases pmeasure(self.abs()),
    {
        proof {
            crate::lexer::lemma_src_len_bound(&self.lexer);
            lemma_stream_len_bound(self.src(), 0);
        }
        let t = self.bump_raw();
        if t.token_type == TSXTokenType::Eof {
            Err(ParseError { expected: Some(TSXTokenType::RParentheses), found: t })
        } else if t.token_type == TSXTokenType::RParentheses {
            if depth <= 1 {
                Ok(acc)
            } else {
                let mut acc2 = acc;
                acc2.append(t.literal.as_str());
                self.paren_body(depth - 1, acc2)
            }
        } else if t.token_type == TSXTokenType::LParentheses {
            let mut acc2 = acc;
            acc2.append(t.literal.as_str());
            self.paren_body(depth + 1, acc2)
        } else {
            let mut acc2 = acc;
            acc2.append(t.literal.as_str());
            self.paren_body(depth, acc2)
        }
    }

    /// The type-value parser; see `spec_get_type_value`.
    #[verifier::rlimit(50)]
    fn get_type_value(&mut self, ltag: u128) -> (r: Result<Type, ParseError>)
        requires
            old(self).wf(),
            0 <= ltag as int <= old(self).abs().i,
        ensures
            final(self).wf(),
            final(self).src() == old(self).src(),
            pmeasure(final(self).abs()) <= pmeasure(old(self).abs()),
            ({
                let (res, st) = spec_get_type_value(old(self).abs(), ltag as int);
                final(self).abs() == st && type_res_matches(r, res)
            }),
        decreases pmeasure(self.abs()), 0int,
    {
        proof {
            crate::lexer::lemma_src_len_bound(&self.lexer);
            lemma_stream_len_bound(self.src(), 0);
        }
        let ghost st0 = self.abs();
        let t = self.bump_raw();
        if t.token_type == TSXTokenType::Ident {
            let next = self.bump_raw();
            if next.token_type == TSXTokenType::Ident || next.token_type
                == TSXTokenType::RCurlyBracket {
                self.peek = Some(next);
                Ok(Type::Alias(t.literal))
            } else if next.token_type == TSXTokenType::Semicolon || next.token_type
                == TSXTokenType::Comma {
                Ok(Type::Alias(t.literal))
            } else if next.token_type == TSXTokenType::Dot {
                match self.get_type_value(ltag) {
                    Err(e) => Err(e),
                    Ok(inner) => {
                        let s_in = inner.to_str();
                        let mut lit = t.literal;
                        lit.append(".");
                        lit.append(s_in.as_str());
                        Ok(Type::Alias(lit))
                    },
                }
            } else if next.token_type == TSXTokenType::RTag {
                let mut acc = t.literal;
                acc.append(">");
                self.after_rtag(ltag, acc, next)
            } else if next.token_type == TSXTokenType::LTag {
                match self.get_type_value(ltag + 1) {
                    Err(e) => Err(e),
                    Ok(inner) => {
                        let s_in = inner.to_str();
                        let mut lit = t.literal;
                        lit.append("<");
                        lit.append(s_in.as_str());
                        Ok(Type::Alias(lit))
                    },
                }
            } else if next.token_type == TSXTokenType::Pipe {
                let mut acc = t.literal;
                acc.append("|");
                let full = self.concat_until(acc);
                Ok(Type::Alias(full))
            } else if next.token_type == TSXTokenType::And {
                let mut acc = t.literal;
                acc.append("&");
                let full = self.concat_until(acc);
                Ok(Type::Alias(full))
            } else {
                Err(ParseError { expected: None, found: next })
            }
        } else if t.token_type == TSXTokenType::LParentheses {
            match self.paren_body(1, String::new()) {
                Err(e) => Err(e),
                Ok(inner) => {
                    let arrow = self.bump_raw();
                    if arrow.token_type != TSXTokenType::Arrow {
                        Err(ParseError { expected: Some(TSXTokenType::Arrow), found: arrow })
                    } else {
                        proof {
                            assert(resumed(st0, self.abs()) == self.abs());
                        }
                        match self.get_type_value(0) {
                            Err(e) => Err(e),
                            Ok(ret) => {
                                let rs = ret.to_str();
                                let mut lit = String::from_str("(");
                                lit.append(inner.as_str());
                                lit.append(") => ");
                                lit.append(rs.as_str());
                                Ok(Type::Alias(lit))
                            },
                        }
                    }
                },
            }
        } else {
            Err(ParseError { expected: None, found: t })
        }
    }

    /// Continuation after a closing `>`; see `spec_after_rtag`.
    #[verifier::rlimit(50)]
    fn after_rtag(&mut self, ltag: u128, acc: String, rtag_tok: TSXToken) -> (r: Result<
        Type,
        ParseError,
    >)
        requires
            old(self).wf(),
            0 <= ltag as int <= old(self).abs().i,
        ensures
            final(self).wf(),
            final(self).src() == old(self).src(),
            pmeasure(final(self).abs()) <= pmeasure(old(self).abs()),
            ({
                let (res, st) = spec_after_rtag(old(self).abs(), ltag as int, acc@, rtag_tok@);
                final(self).abs() == st && type_res_matches(r, res)
            }),
        decreases pmeasure(self.abs()), 0int,
    {
        let n2 = self.bump_raw();
        if n2.token_type == TSXTokenType::Semicolon || n2.token_type == TSXTokenType::Comma {
            self.close_tags(ltag, acc, rtag_tok)
        } else if n2.token_type == TSXTokenType::Ident || n2.token_type
            == TSXTokenType::RCurlyBracket {
            self.peek = Some(n2);
            self.close_tags(ltag, acc, rtag_tok)
        } else if n2.token_type == TSXTokenType::RTag {
            if ltag == 2 {
                let mut acc2 = acc;
                acc2.append(">");
                let n3 = self.bump_raw();
                if n3.token_type == TSXTokenType::Semicolon || n3.token_type
                    == TSXTokenType::Comma {
                    Ok(Type::Alias(acc2))
                } else if n3.token_type == TSXTokenType::Ident || n3.token_type
                    == TSXTokenType::RCurlyBracket {
                    self.peek = Some(n3);
                    Ok(Type::Alias(acc2))
                } else if n3.token_type == TSXTokenType::Pipe {
                    acc2.append("|");
                    let full = self.concat_until(acc2);
                    Ok(Type::Alias(full))
                } else {
                    Err(ParseError { expected: None, found: n3 })
                }
            } else if ltag >= 3 {
                self.get_type_value(ltag - 2)
            } else {
                Err(ParseError { expected: None, found: n2 })
            }
        } else {
            Err(ParseError { expected: None, found: n2 })
        }
    }

    /// Finish a closed generic; see `spec_close_tags`.
    fn close_tags(&mut self, ltag: u128, acc: String, rtag_tok: TSXToken) -> (r: Result<
        Type,
        ParseError,
    >)
        requires
            old(self).wf(),
            0 <= ltag as int <= old(self).abs().i,
        ensures
            final(self).wf(),
            final(self).src() == old(self).src(),
            pmeasure(final(self).abs()) <= pmeasure(old(self).abs()),
            ({
                let (res, st) = spec_close_tags(old(self).abs(), ltag as int, acc@, rtag_tok@);
                final(self).abs() == st && type_res_matches(r, res)
            }),
        decreases pmeasure(self.abs()), 1int,
    {
        if ltag == 1 {
            Ok(Type::Alias(acc))
        } else if ltag >= 2 {
            self.get_type_value(ltag - 1)
        } else {
            Err(ParseError { expected: None, found: rtag_tok })
        }
    }
}

impl<'a> ComponentPartsParser<'a> {
    /// One field of a `type` declaration body, and the rest after it.
    fn decl_fields(&mut self, name: &str, obj: ObjectType, key: String) -> (r: Result<
        (),
        ParseError,
    >)
        requires
            old(self).wf(),
        ensures
            final(self).wf(),
            final(self).src() == old(self).src(),
            pmeasure(final(self).abs()) <= pmeasure(old(self).abs()),
            ({
                let (res, st) = spec_decl_fields(old(self).abs(), name@, obj@, key@);
                final(self).abs() == st && unit_res_matches(r, res)
            }),
        decreases pmeasure(self.abs()), 2int,
    {
        let ghost st0 = self.abs();
        let cq = self.bump_raw();
        let keylit: String = if cq.token_type == TSXTokenType::Question {
            let colon = self.bump_raw();
            if colon.token_type != TSXTokenType::Colon {
                return Err(ParseError { expected: Some(TSXTokenType::Colon), found: colon });
            }
            let mut k = key;
            k.append("?");
            k
        } else {
            key
        };
        match self.get_type_value(0) {
            Err(e) => Err(e),
            Ok(ty) => {
                let key_text = keylit.clone();
                let mut obj2 = obj;
                obj2.insert(Key(key_text), ty);
                let nk = self.bump();
                if nk.token_type == TSXTokenType::Ident {
                    proof {
                        assert(resumed(st0, self.abs()) == self.abs());
                    }
                    self.decl_fields(name, obj2, nk.literal)
                } else if nk.token_type == TSXTokenType::RCurlyBracket {
                    self.finish_decl(name, obj2)
                } else if nk.token_type == TSXTokenType::LTag || nk.token_type
                    == TSXTokenType::RTag || nk.token_type == TSXTokenType::Or || nk.token_type
                    == TSXTokenType::Pipe || nk.token_type == TSXTokenType::And {
                    proof {
                        assert(resumed(st0, self.abs()) == self.abs());
                    }
                    self.decl_fields(name, obj2, keylit)
                } else {
                    Err(ParseError { expected: None, found: nk })
                }
            },
        }
    }

    /// After the closing `}` of a declaration body.
    fn finish_decl(&mut self, name: &str, obj: ObjectType) -> (r: Result<(), ParseError>)
        requires
            old(self).wf(),
        ensures
            final(self).wf(),
            final(self).src() == old(self).src(),
            pmeasure(final(self).abs()) <= pmeasure(old(self).abs()) + 1,
            ({
                let (res, st) = spec_finish_decl(old(self).abs(), name@, obj@);
                final(self).abs() == st && unit_res_matches(r, res)
            }),
    {
        let t = self.bump_raw();
        self.peek = Some(t);
        self.skip_semis(name, obj)
    }

    /// Whether the pushback slot holds a token of the given kind.
    fn peek_kind_is(&self, k: TSXTokenType) -> (r: bool)
        ensures
            r == (self.abs().peek matches Some(t) && t.kind == k),
    {
        match &self.peek {
            Some(t) => t.token_type == k,
            None => false,
        }
    }

    /// Swallow semicolons after a declaration, refilling the pushback
    /// slot, then handle the declaration's tail.
    fn skip_semis(&mut self, name: &str, obj: ObjectType) -> (r: Result<(), ParseError>)
        requires
            old(self).wf(),
        ensures
            final(self).wf(),
            final(self).src() == old(self).src(),
            pmeasure(final(self).abs()) <= pmeasure(old(self).abs()),
            ({
                let (res, st) = spec_skip_semis(old(self).abs(), name@, obj@);
                final(self).abs() == st && unit_res_matches(r, res)
            }),
        decreases pmeasure(self.abs()),
    {
        if !self.peek_kind_is(TSXTokenType::Semicolon) {
            return self.decl_tail(name, obj);
        }
        let t2 = self.bump_raw();
        let was_eof = t2.token_type == TSXTokenType::Eof;
        self.peek = Some(t2);
        if was_eof {
            proof {
                assert(spec_skip_semis(self.abs(), name@, obj@) == spec_decl_tail(
                    self.abs(),
                    name@,
                    obj@,
                ));
            }
            return self.decl_tail(name, obj);
        }
        self.skip_semis(name, obj)
    }

    /// The declaration's tail: catch a following `| ...` or `& Ident` and
    /// store the declared props.
    fn decl_tail(&mut self, name: &str, obj: ObjectType) -> (r: Result<(), ParseError>)
        requires
            old(self).wf(),
        ensures
            final(self).wf(),
            final(self).src() == old(self).src(),
            pmeasure(final(self).abs()) <= pmeasure(old(self).abs()),
            ({
                let (res, st) = spec_decl_tail(old(self).abs(), name@, obj@);
                final(self).abs() == st && unit_res_matches(r, res)
            }),
    {
        let is_pipe = match &self.peek {
            Some(t) => t.token_type == TSXTokenType::Pipe,
            None => false,
        };
        let is_and = match &self.peek {
            Some(t) => t.token_type == TSXTokenType::And,
            None => false,
        };
        if is_pipe {
            let _junk = self.bump_raw();
            self.type_buffer.insert(name.to_owned(), Props::Named(NamedProps::new(name, obj)));
            Ok(())
        } else if is_and {
            let ind = self.bump_raw();
            if ind.token_type != TSXTokenType::Ident {
                return Err(ParseError { expected: Some(TSXTokenType::Ident), found: ind });
            }
            let ghost obj_v = obj@;
            let mut branches: Vec<Type> = Vec::new();
            branches.push(Type::Object(obj));
            branches.push(Type::Alias(ind.literal));
            proof {
                lemma_types_view_all(branches@);
                assert(types_view(branches@) =~= seq![
                    TypeSpec::Object(obj_v),
                    TypeSpec::Alias(branches@[1]->Alias_0@),
                ]);
            }
            self.type_buffer.insert(
                name.to_owned(),
                Props::Named(NamedProps::new_intersection_type(name, branches)),
            );
            Ok(())
        } else {
            self.type_buffer.insert(name.to_owned(), Props::Named(NamedProps::new(name, obj)));
            Ok(())
        }
    }

    /// A whole `type NAME = { ... }` body, entered just after the `{`.
    fn after_type_lcurl(&mut self, name: &str) -> (r: Result<(), ParseError>)
        requires
            old(self).wf(),
        ensures
            final(self).wf(),
            final(self).src() == old(self).src(),
            pmeasure(final(self).abs()) <= pmeasure(old(self).abs()),
            ({
                let (res, st) = spec_after_type_lcurl(old(self).abs(), name@);
                final(self).abs() == st && unit_res_matches(r, res)
            }),
    {
        let k0 = self.bump_raw();
        if k0.token_type == TSXTokenType::RCurlyBracket {
            self.type_buffer.insert(
                name.to_owned(),
                Props::Named(NamedProps::new(name, ObjectType::new())),
            );
            Ok(())
        } else {
            self.decl_fields(name, ObjectType::new(), k0.literal)
        }
    }

    /// Resolve `FC<Alias>` / `VFC<Alias>` by claiming the alias.
    fn case_fc_or_vfc(&mut self, component_name: &str) -> (r: Result<
        Option<Component>,
        ParseError,
    >)
        requires
            old(self).wf(),
        ensures
            final(self).wf(),
            final(self).src() == old(self).src(),
            pmeasure(final(self).abs()) <= pmeasure(old(self).abs()),
            ({
                let (res, st) = spec_claim_fc(old(self).abs(), component_name@);
                final(self).abs() == st && opt_comp_res_matches(r, res)
            }),
    {
        let _lt = self.bump_raw();
        let alias = self.bump_raw();
        match self.type_buffer.claim(alias.literal.as_str()) {
            Some(props) => Ok(Some(Component::new(component_name, props))),
            None => Ok(
                Some(
                    Component::new(
                        component_name,
                        Props::Named(NamedProps::new(alias.literal.as_str(), ObjectType::new())),
                    ),
                ),
            ),
        }
    }

    /// The props parameter list of an arrow or function component.
    fn from_props_lparen(&mut self, component_name: &str) -> (r: Result<Component, ParseError>)
        requires
            old(self).wf(),
        ensures
            final(self).wf(),
            final(self).src() == old(self).src(),
            pmeasure(final(self).abs()) <= pmeasure(old(self).abs()),
            ({
                let (res, st) = spec_from_props_lparen(old(self).abs(), component_name@);
                final(self).abs() == st && comp_res_matches(r, res)
            }),
    {
        let t = self.bump_raw();
        if t.token_type == TSXTokenType::RParentheses {
            Ok(Component::new(component_name, Props::Expand(ObjectType::new())))
        } else {
            let colon = self.bump_raw();
            if colon.token_type != TSXTokenType::Colon {
                Err(ParseError { expected: Some(TSXTokenType::Colon), found: colon })
            } else {
                let pn = self.bump_raw();
                if pn.token_type == TSXTokenType::Ident {
                    match self.type_buffer.claim(pn.literal.as_str()) {
                        Some(props) => Ok(Component::new(component_name, props)),
                        None => Ok(
                            Component::new(
                                component_name,
                                Props::Named(
                                    NamedProps::new(pn.literal.as_str(), ObjectType::new()),
                                ),
                            ),
                        ),
                    }
                } else {
                    let k0 = self.bump_raw();
                    if k0.token_type == TSXTokenType::RCurlyBracket {
                        Ok(Component::new(component_name, Props::Expand(ObjectType::new())))
                    } else {
                        self.props_fields(component_name, ObjectType::new(), k0)
                    }
                }
            }
        }
    }

    /// The fields of an inline props object.
    fn props_fields(&mut self, component_name: &str, obj: ObjectType, key: TSXToken) -> (r:
        Result<Component, ParseError>)
        requires
            old(self).wf(),
        ensures
            final(self).wf(),
            final(self).src() == old(self).src(),
            pmeasure(final(self).abs()) <= pmeasure(old(self).abs()),
            ({
                let (res, st) = spec_props_fields(old(self).abs(), component_name@, obj@, key@);
                final(self).abs() == st && comp_res_matches(r, res)
            }),
        decreases pmeasure(self.abs()), 3int,
    {
        if key.token_type == TSXTokenType::RCurlyBracket {
            return Ok(Component::new(component_name, Props::Expand(obj)));
        }
        let ghost st0 = self.abs();
        let cq = self.bump_raw();
        let keylit: String = if cq.token_type == TSXTokenType::Question {
            let colon = self.bump_raw();
            if colon.token_type != TSXTokenType::Colon {
                return Err(ParseError { expected: Some(TSXTokenType::Colon), found: colon });
            }
            let mut k = key.literal;
            k.append("?");
            k
        } else {
            key.literal
        };
        match self.get_type_value(0) {
            Err(e) => Err(e),
            Ok(ty) => {
                let mut obj2 = obj;
                obj2.insert(Key(keylit), ty);
                let nk = self.bump_raw();
                proof {
                    assert(resumed(st0, self.abs()) == self.abs());
                }
                self.props_fields(component_name, obj2, nk)
            },
        }
    }

    /// What follows `export const NAME` (or `export NAME`).
    fn after_const_name(&mut self, component_name: &str) -> (r: Result<
        Option<Component>,
        ParseError,
    >)
        requires
            old(self).wf(),
        ensures
            final(self).wf(),
            final(self).src() == old(self).src(),
            pmeasure(final(self).abs()) <= pmeasure(old(self).abs()),
            ({
                let (res, st) = spec_after_const_name(old(self).abs(), component_name@);
                final(self).abs() == st && opt_comp_res_matches(r, res)
            }),
    {
        let t = self.bump_raw();
        if t.token_type == TSXTokenType::Colon {
            let tn = self.bump_raw();
            if str_eq(tn.literal.as_str(), "FC") || str_eq(tn.literal.as_str(), "VFC") {
                self.case_fc_or_vfc(component_name)
            } else if str_eq(tn.literal.as_str(), "React") {
                let _dot = self.bump_raw();
                let fc = self.bump_raw();
                if str_eq(fc.literal.as_str(), "FC") || str_eq(fc.literal.as_str(), "VFC") {
                    self.case_fc_or_vfc(component_name)
                } else {
                    Ok(None)
                }
            } else {
                Ok(None)
            }
        } else if t.token_type == TSXTokenType::Assign {
            let lp = self.bump_raw();
            if lp.token_type == TSXTokenType::LParentheses {
                match self.from_props_lparen(component_name) {
                    Ok(c) => Ok(Some(c)),
                    Err(e) => Err(e),
                }
            } else {
                Ok(None)
            }
        } else {
            Ok(None)
        }
    }

    /// Scan the token stream for the first export recognized as a
    /// component, filling the alias table from `type` declarations on the
    /// way; `Ok(None)` when the input ends without one.
    #[verifier::loop_isolation(false)]
    #[verifier::rlimit(50)]
    pub fn search_component(&mut self) -> (r: Result<Option<Component>, ParseError>)
        requires
            old(self).wf(),
        ensures
            final(self).wf(),
            final(self).src() == old(self).src(),
            ({
                let (res, stf) = spec_search(old(self).abs());
                final(self).abs() == stf && opt_comp_res_matches(r, res)
            }),
    {
        loop
            invariant
                self.wf(),
                self.src() == old(self).src(),
                spec_search(self.abs()) == spec_search(old(self).abs()),
            decreases pmeasure(self.abs()),
        {
            let ghost st0 = self.abs();
            let t = self.bump();
            if t.token_type == TSXTokenType::Type {
                let name = self.bump_raw();
                if name.token_type != TSXTokenType::Ident {
                    return Err(ParseError { expected: Some(TSXTokenType::Ident), found: name });
                }
                let assign = self.bump_raw();
                if assign.token_type != TSXTokenType::Assign {
                    return Err(
                        ParseError { expected: Some(TSXTokenType::Assign), found: assign },
                    );
                }
                let next = self.bump_raw();
                if next.token_type == TSXTokenType::LCurlyBracket {
                    match self.after_type_lcurl(name.literal.as_str()) {
                        Err(e) => {
                            return Err(e);
                        },
                        Ok(u) => {
                            proof {
                                assert(resumed(st0, self.abs()) == self.abs());
                            }
                        },
                    }
                } else {
                    proof {
                        assert(resumed(st0, self.abs()) == self.abs());
                    }
                }
            } else if t.token_type == TSXTokenType::Export {
                let first = self.bump_raw();
                if first.token_type == TSXTokenType::Type {
                    self.peek = Some(first);
                } else if first.token_type == TSXTokenType::Fn {
                    let name = self.bump_raw();
                    let lp = self.bump_raw();
                    if lp.token_type != TSXTokenType::LParentheses {
                        return Err(
                            ParseError {
                                expected: Some(TSXTokenType::LParentheses),
                                found: lp,
                            },
                        );
                    }
                    return match self.from_props_lparen(name.literal.as_str()) {
                        Ok(c) => Ok(Some(c)),
                        Err(e) => Err(e),
                    };
                } else {
                    let second = self.bump_raw();
                    if second.token_type == TSXTokenType::Fn {
                        let name = self.bump_raw();
                        let lp = self.bump_raw();
                        if lp.token_type != TSXTokenType::LParentheses {
                            return Err(
                                ParseError {
                                    expected: Some(TSXTokenType::LParentheses),
                                    found: lp,
                                },
                            );
                        }
                        return match self.from_props_lparen(name.literal.as_str()) {
                            Ok(c) => Ok(Some(c)),
                            Err(e) => Err(e),
                        };
                    } else if second.token_type == TSXTokenType::Const {
                        let name = self.bump_raw();
                        match self.after_const_name(name.literal.as_str()) {
                            Err(e) => {
                                return Err(e);
                            },
                            Ok(Some(c)) => {
                                return Ok(Some(c));
                            },
                            Ok(None) => {
                                proof {
                                    assert(resumed(st0, self.abs()) == self.abs());
                                }
                            },
                        }
                    } else if second.token_type == TSXTokenType::Ident {
                        match self.after_const_name(second.literal.as_str()) {
                            Err(e) => {
                                return Err(e);
                            },
                            Ok(Some(c)) => {
                                return Ok(Some(c));
                            },
                            Ok(None) => {
                                proof {
                                    assert(resumed(st0, self.abs()) == self.abs());
                                }
                            },
                        }
                    } else {
                        proof {
                            assert(resumed(st0, self.abs()) == self.abs());
                        }
                    }
                }
            } else if t.token_type == TSXTokenType::Eof {
                return Ok(None);
            } else {
            }
        }
    }
}

impl TSXContent {
    /// Scan this file's source once and hand back its exported component:
    /// `Ok(None)` when no export is recognized before the end of input, an
    /// error where the grammar's rigid positions are violated.
    pub fn to_component(&self) -> (r: Result<Option<Component>, ParseError>)
        ensures
            opt_comp_res_matches(r, spec_parse(self@).0),
    {
        let mut parser = ComponentPartsParser::new(self);
        parser.search_component()
    }
}

/// No two entries of the alias table share a name.  The table starts
/// empty and is only changed by `spec_tbl_insert` and `spec_tbl_claim`,
/// which keep this.
pub open spec fn tbl_unique(tbl: Seq<(Seq<char>, PropsSpec)>) -> bool {
    forall|i: int, j: int| 0 <= i < j < tbl.len() ==> tbl[i].0 != tbl[j].0
}

/// Claiming an alias transfers ownership: the entry is handed out and is
/// absent from the table afterward, so claiming the same alias a second
/// time hands out nothing and leaves the table as it stands.  A component
/// that names an already-claimed alias therefore falls back to the
/// unresolved stub instead of reusing the first component's fields.
pub proof fn lemma_alias_claim_transfers(tbl: Seq<(Seq<char>, PropsSpec)>, name: Seq<char>)
    requires
        tbl_unique(tbl),
        spec_tbl_contains(tbl, name),
    ensures
        ({
            let (r1, tbl1) = spec_tbl_claim(tbl, name);
            &&& r1 is Some
            &&& !spec_tbl_contains(tbl1, name)
            &&& spec_tbl_claim(tbl1, name) == (None::<PropsSpec>, tbl1)
        }),
{
    lemma_tbl_index_of_props(tbl, name);
    let j = spec_tbl_index_of(tbl, name);
    assert(j < tbl.len()) by {
        let k = choose|k: int| 0 <= k < tbl.len() && tbl[k].0 == name;
        assert(!(k < j));
    }
    let tbl1 = tbl.remove(j);
    assert forall|k: int| 0 <= k < tbl1.len() implies tbl1[k].0 != name by {
        if k < j {
            assert(tbl1[k] == tbl[k]);
        } else {
            assert(tbl1[k] == tbl[k + 1]);
            assert(tbl[j].0 == name);
        }
    }
    lemma_tbl_index_of_props(tbl1, name);
    assert(spec_tbl_index_of(tbl1, name) == tbl1.len()) by {
        if spec_tbl_index_of(tbl1, name) < tbl1.len() {
            assert(tbl1[spec_tbl_index_of(tbl1, name)].0 == name);
        }
    }
}

/// Storing an alias keeps names unique.
pub proof fn lemma_tbl_insert_unique(
    tbl: Seq<(Seq<char>, PropsSpec)>,
    name: Seq<char>,
    props: PropsSpec,
)
    requires
        tbl_unique(tbl),
    ensures
        tbl_unique(spec_tbl_insert(tbl, name, props)),
{
    lemma_tbl_claim_unique(tbl, name);
    let mid = spec_tbl_claim(tbl, name).1;
    lemma_tbl_index_of_props(tbl, name);
    let r = mid.push((name, props));
    assert forall|i: int, k: int| 0 <= i < k < r.len() implies r[i].0 != r[k].0 by {
        if k == r.len() - 1 {
            assert(r[i] == mid[i]);
            let j = spec_tbl_index_of(tbl, name);
            if j < tbl.len() {
                if i < j {
                    assert(mid[i] == tbl[i]);
                } else {
                    assert(mid[i] == tbl[i + 1]);
                    assert(tbl[j].0 == name);
                }
            } else {
                assert(mid == tbl);
                assert(tbl[i].0 != name);
            }
        } else {
            assert(r[i] == mid[i] && r[k] == mid[k]);
        }
    }
}

/// Claiming an alias keeps names unique.
pub proof fn lemma_tbl_claim_unique(tbl: Seq<(Seq<char>, PropsSpec)>, name: Seq<char>)
    requires
        tbl_unique(tbl),
    ensures
        tbl_unique(spec_tbl_claim(tbl, name).1),
{
    lemma_tbl_index_of_props(tbl, name);
    let j = spec_tbl_index_of(tbl, name);
    if j < tbl.len() {
        let tbl1 = tbl.remove(j);
        assert forall|i: int, k: int| 0 <= i < k < tbl1.len() implies tbl1[i].0 != tbl1[k].0 by {
            assert(tbl1[i] == if i < j { tbl[i] } else { tbl[i + 1] });
            assert(tbl1[k] == if k < j { tbl[k] } else { tbl[k + 1] });
        }
    }
}

} // verus!
