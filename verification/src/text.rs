//! Text helpers: exact string comparison and case folding of names.

use vstd::prelude::*;
use vstd::utf8::is_ascii_chars;

verus! {

/// Lowercase of a character sequence as std's `str::to_lowercase` computes
/// it (the Unicode lowercase mapping).
pub uninterp spec fn unicode_lowercase(s: Seq<char>) -> Seq<char>;

/// ASCII lowercase of one character: `A`–`Z` become `a`–`z`, every other
/// character is kept.
pub open spec fn ascii_lower_char(c: char) -> char {
    if 'A' <= c && c <= 'Z' {
        ((c as u32) + 32) as char
    } else {
        c
    }
}

/// ASCII lowercase of a character sequence.
pub open spec fn ascii_lowercase(s: Seq<char>) -> Seq<char> {
    Seq::new(s.len(), |i: int| ascii_lower_char(s[i]))
}

/// Whether a character sequence has no ASCII uppercase letter.
pub open spec fn has_no_ascii_upper(s: Seq<char>) -> bool {
    forall|i: int| 0 <= i < s.len() ==> !('A' <= #[trigger] s[i] && s[i] <= 'Z')
}

/// Lowercase of a name as `str::to_lowercase` returns it: the ASCII
/// lowercase for an all-ASCII name, the Unicode lowercase otherwise.
pub open spec fn spec_to_lowercase(s: Seq<char>) -> Seq<char> {
    if is_ascii_chars(s) {
        ascii_lowercase(s)
    } else {
        unicode_lowercase(s)
    }
}

/// Lowercase of `s` through std's `str::to_lowercase`.
///
/// Claims of the call: for an all-ASCII `s` the result is its ASCII
/// lowercase (std lowercases the ASCII prefix with `u8::to_ascii_lowercase`,
/// which is then the whole string); otherwise it is the Unicode lowercase of
/// `s`, a function of `s` alone whose values are left unsaid.
#[verifier::external_body]
pub(crate) fn to_lowercase(s: &str) -> (r: String)
    ensures
        is_ascii_chars(s@) ==> r@ == ascii_lowercase(s@),
        !is_ascii_chars(s@) ==> r@ == unicode_lowercase(s@),
{
    s.to_lowercase()
}

/// Whether two strings hold the same characters.
pub fn str_eq(a: &str, b: &str) -> (r: bool)
    ensures
        r == (a@ == b@),
{
    let n = a.unicode_len();
    if n != b.unicode_len() {
        return false;
    }
    let mut i: usize = 0;
    while i < n
        invariant
            n == a@.len(),
            n == b@.len(),
            i <= n,
            forall|j: int| 0 <= j < i ==> a@[j] == b@[j],
        decreases n - i,
    {
        if a.get_char(i) != b.get_char(i) {
            return false;
        }
        i = i + 1;
    }
    assert(a@ =~= b@);
    true
}

/// ASCII lowercase leaves a sequence with no ASCII uppercase letter unchanged.
pub proof fn lemma_ascii_lowercase_identity(s: Seq<char>)
    requires
        has_no_ascii_upper(s),
    ensures
        ascii_lowercase(s) == s,
{
    assert(ascii_lowercase(s) =~= s);
}

} // verus!
