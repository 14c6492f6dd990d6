//! String helpers shared by the graph builder: the two operations on `str`
//! that the standard library performs for us, together with their mathematical
//! meaning over sequences of characters.

use vstd::prelude::*;

verus! {

/// The character that stands for `c` in a resolved name: a dash becomes an
/// underscore, every other character stays.
pub open spec fn normalize_char(c: char) -> char {
    if c == '-' {
        '_'
    } else {
        c
    }
}

/// A name with every `-` replaced by `_`.
pub open spec fn dash_to_underscore(s: Seq<char>) -> Seq<char> {
    Seq::new(s.len(), |i: int| normalize_char(s[i]))
}

/// Lexicographic order on character sequences, characters compared by code
/// point. A proper prefix sorts before the longer sequence.
pub open spec fn lex_lt(a: Seq<char>, b: Seq<char>) -> bool
    decreases a.len(),
{
    if b.len() == 0 {
        false
    } else if a.len() == 0 {
        true
    } else if a[0] != b[0] {
        (a[0] as int) < (b[0] as int)
    } else {
        lex_lt(a.drop_first(), b.drop_first())
    }
}

/// Calls `str::replace` with the patterns `"-"` and `"_"`. Trusted: the result
/// holds the characters of `s` in order, each dash replaced by an underscore.
#[verifier::external_body]
pub(crate) fn replace_dashes(s: &str) -> (r: String)
    ensures
        r@ == dash_to_underscore(s@),
{
    s.replace("-", "_")
}

/// Calls `<` on two string slices. Trusted: the standard library orders strings
/// lexicographically by byte value, which for UTF-8 is the order of their code
/// points.
#[verifier::external_body]
pub(crate) fn str_lt(a: &str, b: &str) -> (r: bool)
    ensures
        r == lex_lt(a@, b@),
{
    a < b
}

/// No sequence sorts before itself.
pub proof fn lemma_lex_lt_irreflexive(a: Seq<char>)
    ensures
        !lex_lt(a, a),
    decreases a.len(),
{
    if a.len() > 0 {
        lemma_lex_lt_irreflexive(a.drop_first());
    }
}

/// The order is transitive.
pub proof fn lemma_lex_lt_transitive(a: Seq<char>, b: Seq<char>, c: Seq<char>)
    requires
        lex_lt(a, b),
        lex_lt(b, c),
    ensures
        lex_lt(a, c),
    decreases a.len(),
{
    if a.len() > 0 && b.len() > 0 && c.len() > 0 {
        if a[0] == b[0] && b[0] == c[0] {
            lemma_lex_lt_transitive(a.drop_first(), b.drop_first(), c.drop_first());
        }
    }
}

/// Two sequences are equal or one sorts before the other.
pub proof fn lemma_lex_lt_total(a: Seq<char>, b: Seq<char>)
    ensures
        a == b || lex_lt(a, b) || lex_lt(b, a),
    decreases a.len(),
{
    if a.len() == 0 || b.len() == 0 {
        if a.len() == 0 && b.len() == 0 {
            assert(a =~= b);
        }
    } else if a[0] == b[0] {
        lemma_lex_lt_total(a.drop_first(), b.drop_first());
        if a.drop_first() == b.drop_first() {
            assert(a =~= seq![a[0]] + a.drop_first());
            assert(b =~= seq![b[0]] + b.drop_first());
        }
    } else {
        assert(a[0] as int != b[0] as int);
    }
}

} // verus!
