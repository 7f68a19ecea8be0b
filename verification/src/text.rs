use vstd::prelude::*;
use vstd::string::StrSliceExecFns;

verus! {

/// Whether `c` has the Unicode `White_Space` property, as decided by
/// `char::is_whitespace`.
pub uninterp spec fn char_whitespace(c: char) -> bool;

/// Whether `c` has the Unicode `Alphabetic` property, as decided by
/// `char::is_alphabetic`.
pub uninterp spec fn char_alphabetic(c: char) -> bool;

/// Whether `c` is numeric in the Unicode sense, as decided by
/// `char::is_numeric`.
pub uninterp spec fn char_numeric(c: char) -> bool;

/// Relies on char::is_whitespace: the result depends on the character alone.
#[verifier::external_body]
pub(crate) fn is_whitespace(c: char) -> (r: bool)
    ensures
        r == char_whitespace(c),
{
    c.is_whitespace()
}

/// Relies on char::is_alphabetic: the result depends on the character alone.
#[verifier::external_body]
pub(crate) fn is_alphabetic(c: char) -> (r: bool)
    ensures
        r == char_alphabetic(c),
{
    c.is_alphabetic()
}

/// Relies on char::is_numeric: the result depends on the character alone.
#[verifier::external_body]
pub(crate) fn is_numeric(c: char) -> (r: bool)
    ensures
        r == char_numeric(c),
{
    c.is_numeric()
}

/// A word character: what the tokenizer accepts inside an identifier head.
pub open spec fn is_letter_spec(c: char) -> bool {
    char_alphabetic(c) || c == '_'
}

pub(crate) fn is_letter(c: char) -> (r: bool)
    ensures
        r == is_letter_spec(c),
{
    is_alphabetic(c) || c == '_'
}

/// Equality of two string slices, decided character by character.
pub(crate) fn str_eq(a: &str, b: &str) -> (r: bool)
    ensures
        r == (a@ == b@),
{
    let a_len: usize = a.unicode_len();
    let b_len: usize = b.unicode_len();
    if a_len != b_len {
        assert(a@ != b@) by {
            assert(a@.len() != b@.len());
        }
        return false;
    }
    let mut i: usize = 0;
    while i < a_len
        invariant
            a_len == a@.len(),
            b_len == b@.len(),
            a_len == b_len,
            i <= a_len,
            forall|j: int| 0 <= j < i ==> a@[j] == b@[j],
        decreases a_len - i,
    {
        if a.get_char(i) != b.get_char(i) {
            return false;
        }
        i = i + 1;
    }
    assert(a@ =~= b@);
    true
}

/// Strict lexicographic order on sequences of characters, by code point.
/// This is the order `String` keys have in an ordered map, since UTF-8
/// byte order agrees with code-point order.
pub open spec fn lex_lt(a: Seq<char>, b: Seq<char>) -> bool
    decreases a.len(),
{
    if b.len() == 0 {
        false
    } else if a.len() == 0 {
        true
    } else if a[0] != b[0] {
        (a[0] as u32) < (b[0] as u32)
    } else {
        lex_lt(a.drop_first(), b.drop_first())
    }
}

/// Three-way comparison backing `lex_lt`: returns a negative, zero or
/// positive answer as `a` is below, equal to or above `b`.
pub(crate) fn str_lt(a: &str, b: &str) -> (r: bool)
    ensures
        r == lex_lt(a@, b@),
{
    let a_len: usize = a.unicode_len();
    let b_len: usize = b.unicode_len();
    let mut i: usize = 0;
    proof {
        assert(a@.skip(0) =~= a@);
        assert(b@.skip(0) =~= b@);
    }
    loop
        invariant
            a_len == a@.len(),
            b_len == b@.len(),
            i <= a_len,
            i <= b_len,
            forall|j: int| 0 <= j < i ==> a@[j] == b@[j],
            lex_lt(a@, b@) == lex_lt(a@.skip(i as int), b@.skip(i as int)),
        decreases a_len - i,
    {
        proof {
            lemma_lex_lt_unfold(a@.skip(i as int), b@.skip(i as int));
        }
        if i >= b_len {
            return false;
        }
        if i >= a_len {
            return true;
        }
        let ca = a.get_char(i);
        let cb = b.get_char(i);
        if ca != cb {
            return (ca as u32) < (cb as u32);
        }
        proof {
            assert(a@.skip(i as int).drop_first() =~= a@.skip(i + 1));
            assert(b@.skip(i as int).drop_first() =~= b@.skip(i + 1));
        }
        i = i + 1;
    }
}

proof fn lemma_lex_lt_unfold(a: Seq<char>, b: Seq<char>)
    ensures
        lex_lt(a, b) == if b.len() == 0 {
            false
        } else if a.len() == 0 {
            true
        } else if a[0] != b[0] {
            (a[0] as u32) < (b[0] as u32)
        } else {
            lex_lt(a.drop_first(), b.drop_first())
        },
{
}

/// `lex_lt` is a strict order: irreflexive and trichotomous with equality.
pub proof fn lemma_lex_lt_trichotomy(a: Seq<char>, b: Seq<char>)
    ensures
        lex_lt(a, b) || lex_lt(b, a) || a == b,
        lex_lt(a, b) ==> !lex_lt(b, a) && a != b,
    decreases a.len(),
{
    if b.len() == 0 || a.len() == 0 {
        if a.len() == 0 && b.len() == 0 {
            assert(a =~= b);
        }
    } else if a[0] != b[0] {
        assert((a[0] as u32) != (b[0] as u32)) by {
            vstd::utf8::char_u32_cast(a[0], a[0] as u32);
            vstd::utf8::char_u32_cast(b[0], b[0] as u32);
        }
    } else {
        lemma_lex_lt_trichotomy(a.drop_first(), b.drop_first());
        if a.drop_first() == b.drop_first() {
            assert(a.len() == b.len());
            assert forall|i: int| 0 <= i < a.len() implies a[i] == b[i] by {
                if i > 0 {
                    assert(a[i] == a.drop_first()[i - 1]);
                    assert(b[i] == b.drop_first()[i - 1]);
                }
            }
            assert(a =~= b);
        }
    }
}

/// `lex_lt` is transitive.
pub proof fn lemma_lex_lt_transitive(a: Seq<char>, b: Seq<char>, c: Seq<char>)
    requires
        lex_lt(a, b),
        lex_lt(b, c),
    ensures
        lex_lt(a, c),
    decreases a.len(),
{
    if c.len() == 0 || b.len() == 0 || a.len() == 0 {
    } else if a[0] == b[0] && b[0] == c[0] {
        lemma_lex_lt_transitive(a.drop_first(), b.drop_first(), c.drop_first());
    } else {
        vstd::utf8::char_u32_cast(a[0], a[0] as u32);
        vstd::utf8::char_u32_cast(b[0], b[0] as u32);
        vstd::utf8::char_u32_cast(c[0], c[0] as u32);
    }
}

} // verus!
