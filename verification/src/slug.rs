use vstd::prelude::*;

verus! {

/// Longest slug, counted in bytes, that a post may carry.
pub const MAX_SLUG_BYTES: usize = 200;

/// The characters a slug may hold: lowercase ASCII letters, digits, `-` and `_`.
pub open spec fn is_slug_char(c: char) -> bool {
    ('a' <= c && c <= 'z') || ('0' <= c && c <= '9') || c == '-' || c == '_'
}

/// A slug is usable as a URL path segment and as an asset key.
pub open spec fn spec_slug_is_safe(slug: Seq<char>) -> bool {
    &&& 0 < slug.len()
    &&& slug.len() <= MAX_SLUG_BYTES
    &&& forall|i: int| 0 <= i < slug.len() ==> #[trigger] is_slug_char(slug[i])
}

/// A slug has to be safe as a URL path segment and as an asset key.
///
/// Deliberately strict rather than clever: lowercase ASCII, digits, `-` and `_`.
/// Anything else is rejected instead of transliterated.
pub fn slug_is_safe(slug: &str) -> (ok: bool)
    ensures
        ok == spec_slug_is_safe(slug@),
{
    let n = slug.unicode_len();
    if n == 0 || n > MAX_SLUG_BYTES {
        return false;
    }
    let mut i: usize = 0;
    while i < n
        invariant
            n == slug@.len(),
            i <= n,
            forall|j: int| 0 <= j < i ==> #[trigger] is_slug_char(slug@[j]),
        decreases n - i,
    {
        let c = slug.get_char(i);
        if !(('a' <= c && c <= 'z') || ('0' <= c && c <= '9') || c == '-' || c == '_') {
            assert(!is_slug_char(slug@[i as int]));
            return false;
        }
        i = i + 1;
    }
    true
}

} // verus!
