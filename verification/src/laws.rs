use vstd::prelude::*;

use crate::parser::{
    PState, pmeasure, resumed, spec_after_const_name, spec_after_rtag, spec_after_type_lcurl,
    spec_claim_fc, spec_close_tags, spec_concat_until, spec_decl_fields, spec_decl_tail,
    spec_finish_decl, spec_from_props_lparen, spec_get_type_value, spec_paren_body, spec_parse,
    spec_props_fields, spec_read, spec_lexer_read, spec_search, spec_skip_semis, init_state,
};
use crate::component::TypeSpec;
use crate::stream::spec_tokens;
use crate::token::{TSXTokenType, TokenSpec};

verus! {

/// No token of the stream is the `export` keyword.
pub open spec fn no_export_tokens(toks: Seq<TokenSpec>) -> bool {
    forall|k: int| 0 <= k < toks.len() ==> toks[k].kind != TSXTokenType::Export
}

/// A parser state whose stream and pushback slot hold no `export` token.
pub open spec fn export_free(st: PState) -> bool {
    &&& no_export_tokens(st.toks)
    &&& (st.peek matches Some(t) ==> t.kind != TSXTokenType::Export)
}

proof fn lemma_concat_export_free(st: PState, acc: Seq<char>)
    requires
        export_free(st),
    ensures
        ({
            let (r, st1) = spec_concat_until(st, acc);
            st1.toks == st.toks && export_free(st1)
        }),
    decreases pmeasure(st),
{
    let (t, st1) = spec_lexer_read(st);
    if !(t.kind == TSXTokenType::Semicolon || t.kind == TSXTokenType::RCurlyBracket || t.kind
        == TSXTokenType::Comma || t.kind == TSXTokenType::Eof) {
        lemma_concat_export_free(st1, acc + t.lit);
    }
}

proof fn lemma_paren_export_free(st: PState, depth: int, acc: Seq<char>)
    requires
        export_free(st),
    ensures
        ({
            let (r, st1) = spec_paren_body(st, depth, acc);
            st1.toks == st.toks && export_free(st1)
        }),
    decreases pmeasure(st),
{
    let (t, st1) = spec_lexer_read(st);
    if t.kind == TSXTokenType::Eof {
    } else if t.kind == TSXTokenType::RParentheses {
        if depth > 1 {
            lemma_paren_export_free(st1, depth - 1, acc + t.lit);
        }
    } else if t.kind == TSXTokenType::LParentheses {
        lemma_paren_export_free(st1, depth + 1, acc + t.lit);
    } else {
        lemma_paren_export_free(st1, depth, acc + t.lit);
    }
}

proof fn lemma_gtv_export_free(st: PState, ltag: int)
    requires
        export_free(st),
    ensures
        ({
            let (r, st1) = spec_get_type_value(st, ltag);
            st1.toks == st.toks && export_free(st1)
        }),
    decreases pmeasure(st), 0int,
{
    let (t, st1) = spec_lexer_read(st);
    if t.kind == TSXTokenType::Ident {
        let (next, st2) = spec_lexer_read(st1);
        if next.kind == TSXTokenType::Dot {
            lemma_gtv_export_free(st2, ltag);
        } else if next.kind == TSXTokenType::RTag {
            lemma_after_rtag_export_free(st2, ltag, t.lit + ">"@, next);
        } else if next.kind == TSXTokenType::LTag {
            lemma_gtv_export_free(st2, ltag + 1);
        } else if next.kind == TSXTokenType::Pipe {
            lemma_concat_export_free(st2, t.lit + "|"@);
        } else if next.kind == TSXTokenType::And {
            lemma_concat_export_free(st2, t.lit + "&"@);
        }
    } else if t.kind == TSXTokenType::LParentheses {
        lemma_paren_export_free(st1, 1, Seq::empty());
        let (body, st1b) = spec_paren_body(st1, 1, Seq::empty());
        if body is Ok {
            let (arrow, st2) = spec_lexer_read(st1b);
            if arrow.kind == TSXTokenType::Arrow {
                lemma_gtv_export_free(resumed(st, st2), 0);
            }
        }
    }
}

proof fn lemma_after_rtag_export_free(st: PState, ltag: int, acc: Seq<char>, rtag_tok: TokenSpec)
    requires
        export_free(st),
    ensures
        ({
            let (r, st1) = spec_after_rtag(st, ltag, acc, rtag_tok);
            st1.toks == st.toks && export_free(st1)
        }),
    decreases pmeasure(st), 0int,
{
    let (n2, st1) = spec_lexer_read(st);
    if n2.kind == TSXTokenType::Semicolon || n2.kind == TSXTokenType::Comma {
        lemma_close_export_free(st1, ltag, acc, rtag_tok);
    } else if n2.kind == TSXTokenType::Ident || n2.kind == TSXTokenType::RCurlyBracket {
        lemma_close_export_free(PState { peek: Some(n2), ..st1 }, ltag, acc, rtag_tok);
    } else if n2.kind == TSXTokenType::RTag {
        if ltag == 2 {
            let (n3, st2) = spec_lexer_read(st1);
            if n3.kind == TSXTokenType::Pipe {
                lemma_concat_export_free(st2, acc + ">"@ + "|"@);
            }
        } else if ltag >= 3 {
            lemma_gtv_export_free(st1, ltag - 2);
        }
    }
}

proof fn lemma_close_export_free(st: PState, ltag: int, acc: Seq<char>, rtag_tok: TokenSpec)
    requires
        export_free(st),
    ensures
        ({
            let (r, st1) = spec_close_tags(st, ltag, acc, rtag_tok);
            st1.toks == st.toks && export_free(st1)
        }),
    decreases pmeasure(st), 1int,
{
    if ltag >= 2 {
        lemma_gtv_export_free(st, ltag - 1);
    }
}

proof fn lemma_decl_fields_export_free(
    st: PState,
    name: Seq<char>,
    obj: Seq<(Seq<char>, TypeSpec)>,
    key: Seq<char>,
)
    requires
        export_free(st),
    ensures
        ({
            let (r, st1) = spec_decl_fields(st, name, obj, key);
            st1.toks == st.toks && export_free(st1)
        }),
    decreases pmeasure(st), 2int,
{
    let (cq, st1) = spec_lexer_read(st);
    let qmark = cq.kind == TSXTokenType::Question;
    let (colon_ok, keylit, st2): (bool, Seq<char>, PState) = if qmark {
        let (colon, st1b) = spec_lexer_read(st1);
        (colon.kind == TSXTokenType::Colon, key + "?"@, st1b)
    } else {
        (true, key, st1)
    };
    if colon_ok {
        lemma_gtv_export_free(st2, 0);
        let (tv, st3) = spec_get_type_value(st2, 0);
        if tv is Ok {
            let obj2 = crate::component::spec_obj_insert(obj, keylit, tv->Ok_0);
            let (nk, st4) = spec_read(st3);
            if nk.kind == TSXTokenType::Ident {
                lemma_decl_fields_export_free(resumed(st, st4), name, obj2, nk.lit);
            } else if nk.kind == TSXTokenType::RCurlyBracket {
                lemma_finish_export_free(st4, name, obj2);
            } else if nk.kind == TSXTokenType::LTag || nk.kind == TSXTokenType::RTag || nk.kind
                == TSXTokenType::Or || nk.kind == TSXTokenType::Pipe || nk.kind
                == TSXTokenType::And {
                lemma_decl_fields_export_free(resumed(st, st4), name, obj2, keylit);
            }
        }
    }
}

proof fn lemma_finish_export_free(st: PState, name: Seq<char>, obj: Seq<(Seq<char>, TypeSpec)>)
    requires
        export_free(st),
    ensures
        ({
            let (r, st1) = spec_finish_decl(st, name, obj);
            st1.toks == st.toks && export_free(st1)
        }),
    decreases pmeasure(st), 1int,
{
    let (t, st1) = spec_lexer_read(st);
    lemma_skip_semis_export_free(PState { peek: Some(t), ..st1 }, name, obj);
}

proof fn lemma_skip_semis_export_free(st: PState, name: Seq<char>, obj: Seq<(Seq<char>, TypeSpec)>)
    requires
        export_free(st),
    ensures
        ({
            let (r, st1) = spec_skip_semis(st, name, obj);
            st1.toks == st.toks && export_free(st1)
        }),
    decreases pmeasure(st), 0int,
{
    if st.peek matches Some(t) && t.kind == TSXTokenType::Semicolon {
        if 0 <= st.i < st.toks.len() {
            lemma_skip_semis_export_free(
                PState { i: st.i + 1, peek: Some(st.toks[st.i]), ..st },
                name,
                obj,
            );
        } else {
            lemma_decl_tail_export_free(
                PState { peek: Some(crate::stream::eof_token()), ..st },
                name,
                obj,
            );
        }
    } else {
        lemma_decl_tail_export_free(st, name, obj);
    }
}

proof fn lemma_decl_tail_export_free(st: PState, name: Seq<char>, obj: Seq<(Seq<char>, TypeSpec)>)
    requires
        export_free(st),
    ensures
        ({
            let (r, st1) = spec_decl_tail(st, name, obj);
            st1.toks == st.toks && export_free(st1)
        }),
{
}

proof fn lemma_after_type_lcurl_export_free(st: PState, name: Seq<char>)
    requires
        export_free(st),
    ensures
        ({
            let (r, st1) = spec_after_type_lcurl(st, name);
            st1.toks == st.toks && export_free(st1)
        }),
{
    let (k0, st1) = spec_lexer_read(st);
    if k0.kind != TSXTokenType::RCurlyBracket {
        lemma_decl_fields_export_free(st1, name, Seq::empty(), k0.lit);
    }
}

proof fn lemma_claim_fc_export_free(st: PState, comp_name: Seq<char>)
    requires
        export_free(st),
    ensures
        ({
            let (r, st1) = spec_claim_fc(st, comp_name);
            st1.toks == st.toks && export_free(st1)
        }),
{
}

proof fn lemma_props_fields_export_free(
    st: PState,
    comp_name: Seq<char>,
    obj: Seq<(Seq<char>, TypeSpec)>,
    key: TokenSpec,
)
    requires
        export_free(st),
    ensures
        ({
            let (r, st1) = spec_props_fields(st, comp_name, obj, key);
            st1.toks == st.toks && export_free(st1)
        }),
    decreases pmeasure(st), 3int,
{
    if key.kind != TSXTokenType::RCurlyBracket {
        let (cq, st1) = spec_lexer_read(st);
        let qmark = cq.kind == TSXTokenType::Question;
        let (colon_ok, keylit, st2): (bool, Seq<char>, PState) = if qmark {
            let (colon, st1b) = spec_lexer_read(st1);
            (colon.kind == TSXTokenType::Colon, key.lit + "?"@, st1b)
        } else {
            (true, key.lit, st1)
        };
        if colon_ok {
            lemma_gtv_export_free(st2, 0);
            let (tv, st3) = spec_get_type_value(st2, 0);
            if tv is Ok {
                let obj2 = crate::component::spec_obj_insert(obj, keylit, tv->Ok_0);
                let (nk, st4) = spec_lexer_read(st3);
                lemma_props_fields_export_free(resumed(st, st4), comp_name, obj2, nk);
            }
        }
    }
}

proof fn lemma_from_props_export_free(st: PState, comp_name: Seq<char>)
    requires
        export_free(st),
    ensures
        ({
            let (r, st1) = spec_from_props_lparen(st, comp_name);
            st1.toks == st.toks && export_free(st1)
        }),
{
    let (t, st1) = spec_lexer_read(st);
    if t.kind != TSXTokenType::RParentheses {
        let (colon, st2) = spec_lexer_read(st1);
        if colon.kind == TSXTokenType::Colon {
            let (pn, st3) = spec_lexer_read(st2);
            if pn.kind != TSXTokenType::Ident {
                let (k0, st4) = spec_lexer_read(st3);
                if k0.kind != TSXTokenType::RCurlyBracket {
                    lemma_props_fields_export_free(st4, comp_name, Seq::empty(), k0);
                }
            }
        }
    }
}

proof fn lemma_after_const_export_free(st: PState, comp_name: Seq<char>)
    requires
        export_free(st),
    ensures
        ({
            let (r, st1) = spec_after_const_name(st, comp_name);
            st1.toks == st.toks && export_free(st1)
        }),
{
    let (t, st1) = spec_lexer_read(st);
    if t.kind == TSXTokenType::Colon {
        let (tn, st2) = spec_lexer_read(st1);
        if tn.lit == "FC"@ || tn.lit == "VFC"@ {
            lemma_claim_fc_export_free(st2, comp_name);
        } else if tn.lit == "React"@ {
            let (_dot, st3) = spec_lexer_read(st2);
            let (fc, st4) = spec_lexer_read(st3);
            if fc.lit == "FC"@ || fc.lit == "VFC"@ {
                lemma_claim_fc_export_free(st4, comp_name);
            }
        }
    } else if t.kind == TSXTokenType::Assign {
        let (lp, st2) = spec_lexer_read(st1);
        if lp.kind == TSXTokenType::LParentheses {
            lemma_from_props_export_free(st2, comp_name);
        }
    }
}

/// The scan can only find a component at an `export` token: on a stream
/// with none, it runs to the end of the input (or to a structural
/// violation) without one.
proof fn lemma_search_no_export(st: PState)
    requires
        export_free(st),
    ensures
        ({
            let (r, st1) = spec_search(st);
            r matches Ok(c) ==> c is None
        }),
    decreases pmeasure(st), 6int,
{
    let (t, st1) = spec_read(st);
    assert(t.kind != TSXTokenType::Export);
    if t.kind == TSXTokenType::Type {
        let (name, st2) = spec_lexer_read(st1);
        if name.kind == TSXTokenType::Ident {
            let (assign, st3) = spec_lexer_read(st2);
            if assign.kind == TSXTokenType::Assign {
                let (next, st4) = spec_lexer_read(st3);
                if next.kind == TSXTokenType::LCurlyBracket {
                    lemma_after_type_lcurl_export_free(st4, name.lit);
                    let (r, st5) = spec_after_type_lcurl(st4, name.lit);
                    if r is Ok {
                        lemma_search_no_export(resumed(st, st5));
                    }
                } else {
                    lemma_search_no_export(resumed(st, st4));
                }
            }
        }
    } else if t.kind == TSXTokenType::Eof {
    } else {
        lemma_search_no_export(st1);
    }
}

/// If no `export` token occurs before end-of-input, the parse finds no
/// component: whenever it returns a result at all (a structural violation
/// in a `type` declaration is still reported as an error), that result is
/// `None`.
pub proof fn lemma_no_export_yields_none(src: Seq<char>)
    requires
        no_export_tokens(spec_tokens(src, 0)),
    ensures
        spec_parse(src).0 matches Ok(c) ==> c is None,
{
    lemma_search_no_export(init_state(src));
}

} // verus!
