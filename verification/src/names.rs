//! Identifier normalization.
//!
//! Schema objects are looked up case-insensitively: every comparison in this
//! crate goes through ASCII lower-casing, specified by [`norm_seq`].

use vstd::prelude::*;

verus! {

/// ASCII lower-casing of one character: `A`..`Z` map to `a`..`z`, every other
/// character is unchanged.
pub open spec fn lower_char(c: char) -> char {
    if 'A' <= c && c <= 'Z' {
        (((c as u8) + 32) as char)
    } else {
        c
    }
}

/// ASCII lower-casing of a character sequence, applied pointwise.
pub open spec fn norm_seq(s: Seq<char>) -> Seq<char> {
    s.map_values(|c: char| lower_char(c))
}

/// Case-insensitive equality of two character sequences.
pub open spec fn eq_nocase(a: Seq<char>, b: Seq<char>) -> bool {
    norm_seq(a) == norm_seq(b)
}

/// Lower-casing a character twice is the same as doing it once.
pub proof fn lemma_lower_char_idempotent(c: char)
    ensures
        lower_char(lower_char(c)) == lower_char(c),
{
}

/// [`norm_seq`] is idempotent: normalized names are fixed points.
pub proof fn lemma_norm_seq_idempotent(s: Seq<char>)
    ensures
        norm_seq(norm_seq(s)) == norm_seq(s),
{
    assert forall|i: int| 0 <= i < norm_seq(s).len() implies lower_char(norm_seq(s)[i])
        == norm_seq(s)[i] by {
        lemma_lower_char_idempotent(s[i]);
    }
    assert(norm_seq(norm_seq(s)) =~= norm_seq(s));
}

/// Relies on `str::to_ascii_lowercase`: ASCII upper-case letters are mapped
/// to their lower-case counterparts and all other characters are returned
/// unchanged.
#[verifier::external_body]
pub fn normalize_ident(s: &str) -> (r: String)
    ensures
        r@ == norm_seq(s@),
{
    s.to_ascii_lowercase()
}

/// Case-insensitive string comparison, the executable form of [`eq_nocase`].
pub fn eq_ignore_case(a: &str, b: &str) -> (r: bool)
    ensures
        r == eq_nocase(a@, b@),
{
    let la = normalize_ident(a);
    let lb = normalize_ident(b);
    la == lb
}

} // verus!
