//! Folding Unicode text to plain ASCII.
use unicode_normalization::UnicodeNormalization;
use vstd::prelude::*;

verus! {

/// The Unicode Normalization Form KD (compatibility decomposition) of `s`.
pub uninterp spec fn nfkd_of(s: Seq<char>) -> Seq<char>;

/// Decomposes `s`: accented letters become the base letter followed by
/// combining marks, compatibility characters become their plain forms.
///
/// Relies on unicode_normalization's `UnicodeNormalization::nfkd` on `&str`,
/// collected into a `String`: the form KD of `s`, which depends on the
/// characters of `s` alone.
#[verifier::external_body]
fn decompose_compatible(s: &str) -> (r: String)
    ensures
        r@ == nfkd_of(s@),
{
    s.nfkd().collect::<String>()
}

pub open spec fn is_ascii_char(c: char) -> bool {
    (c as u32) < 128
}

/// The ASCII characters of `s`, in order.
pub open spec fn ascii_only(s: Seq<char>) -> Seq<char> {
    s.filter(|c: char| is_ascii_char(c))
}

/// Drops every character of `s` that is not ASCII.
pub fn keep_ascii(s: &str) -> (r: String)
    ensures
        r@ == ascii_only(s@),
{
    let v = crate::text::chars_of(s);
    let mut out = String::new();
    let mut i: usize = 0;
    while i < v.len()
        invariant
            i <= v.len(),
            v@ == s@,
            out@ == ascii_only(v@.take(i as int)),
        decreases v.len() - i,
    {
        assert(v@.take(i + 1).drop_last() =~= v@.take(i as int));
        assert(v@.take(i + 1).last() == v@[i as int]);
        proof {
            reveal(Seq::filter);
        }
        if (v[i] as u32) < 128 {
            crate::text::push_char(&mut out, v[i]);
        }
        i = i + 1;
    }
    assert(v@.take(v.len() as int) =~= v@);
    out
}

/// Folds `s` to ASCII: decomposes it, then drops what is not ASCII, so
/// that `São Paulo` becomes `Sao Paulo`.
pub fn convert_unicode_to_ascii(s: &str) -> (r: String)
    ensures
        r@ == ascii_only(nfkd_of(s@)),
{
    let decomposed = decompose_compatible(s);
    keep_ascii(decomposed.as_str())
}

} // verus!
