//! Character-level helpers shared by tenant extraction, shard-name
//! normalization, and the cache-entry codec: character classes, splitting a
//! character sequence at the first occurrence of a separator, and the
//! trusted items that name what std's Unicode character functions and its
//! byte/character conversions return.

use vstd::prelude::*;

verus! {

/// ASCII decimal digit.
pub open spec fn is_digit_char(c: char) -> bool {
    '0' <= c && c <= '9'
}

/// Runtime check mirroring [`is_digit_char`].
pub fn digit_char(c: char) -> (r: bool)
    ensures
        r == is_digit_char(c),
{
    '0' <= c && c <= '9'
}

/// What `char::is_whitespace` returns: whether the character has the
/// Unicode `White_Space` property. Stating the full table here would copy
/// the Unicode data, so the result is only named.
pub uninterp spec fn is_white_space(c: char) -> bool;

/// Relies on `char::is_whitespace`: the result depends on the character
/// alone.
#[verifier::external_body]
pub(crate) fn space_char(c: char) -> (r: bool)
    ensures
        r == is_white_space(c),
{
    c.is_whitespace()
}

/// What `char::is_alphanumeric` returns: whether the character is Unicode
/// alphabetic or numeric. As with [`is_white_space`], only named.
pub uninterp spec fn is_alnum_char(c: char) -> bool;

/// Relies on `char::is_alphanumeric`: the result depends on the character
/// alone.
#[verifier::external_body]
pub(crate) fn alnum_char(c: char) -> (r: bool)
    ensures
        r == is_alnum_char(c),
{
    c.is_alphanumeric()
}

/// Characters a tenant label may consist of: Unicode alphanumerics, `-`,
/// `_`. The three metacharacters of the host grammar — the port separator
/// `:`, the label separator `.`, and the numeric sign `+` — are excluded
/// outright: Unicode classes none of them as alphanumeric, but nothing
/// stated of [`is_alnum_char`] says so, and the extraction laws must not
/// lean on an unstated fact.
pub open spec fn is_tenant_char(c: char) -> bool {
    (is_alnum_char(c) || c == '-' || c == '_') && c != ':' && c != '.' && c != '+'
}

/// Decides [`is_tenant_char`].
pub fn tenant_char(c: char) -> (r: bool)
    ensures
        r == is_tenant_char(c),
{
    (alnum_char(c) || c == '-' || c == '_') && c != ':' && c != '.' && c != '+'
}

/// What `str::to_lowercase` returns for a given character sequence. The
/// mapping follows the Unicode case tables and is not character-to-character
/// (some characters lower-case to several), so the whole-string result is
/// named.
pub uninterp spec fn lower_of(s: Seq<char>) -> Seq<char>;

/// Relies on `str::to_lowercase`: the result depends on the characters
/// alone.
#[verifier::external_body]
pub(crate) fn lowercase(s: &str) -> (r: String)
    ensures
        r@ == lower_of(s@),
{
    s.to_lowercase()
}

/// Relies on `String::push`: appends exactly the given character to the end
/// of the string.
#[verifier::external_body]
pub(crate) fn push_char(s: &mut String, c: char)
    ensures
        final(s)@ == old(s)@.push(c),
{
    s.push(c);
}

/// Relies on `str::from_utf8`: succeeds exactly on valid UTF-8 input and
/// yields the string of characters those bytes encode.
#[verifier::external_body]
pub(crate) fn bytes_to_string(v: &Vec<u8>) -> (r: Option<String>)
    ensures
        r matches Some(s) ==> vstd::utf8::valid_utf8(v@) && s@ == vstd::utf8::decode_utf8(v@),
        r is None ==> !vstd::utf8::valid_utf8(v@),
{
    match core::str::from_utf8(v.as_slice()) {
        Ok(s) => Some(s.to_string()),
        Err(_) => None,
    }
}

/// Whether `c` occurs anywhere in `s`.
pub open spec fn contains_char(s: Seq<char>, c: char) -> bool
    decreases s.len(),
{
    s.len() > 0 && (s[0] == c || contains_char(s.drop_first(), c))
}

/// The characters of `s` strictly before the first occurrence of `c`; all of
/// `s` when `c` does not occur.
pub open spec fn before_char(s: Seq<char>, c: char) -> Seq<char>
    decreases s.len(),
{
    if s.len() == 0 {
        s
    } else if s[0] == c {
        Seq::empty()
    } else {
        seq![s[0]] + before_char(s.drop_first(), c)
    }
}

/// The characters of `s` strictly after the first occurrence of `c`; empty
/// when `c` does not occur.
pub open spec fn after_char(s: Seq<char>, c: char) -> Seq<char>
    decreases s.len(),
{
    if s.len() == 0 {
        s
    } else if s[0] == c {
        s.drop_first()
    } else {
        after_char(s.drop_first(), c)
    }
}

/// Splitting at the first occurrence of `c` (witnessed by index `i`) yields
/// the subranges on either side of `i`.
pub proof fn lemma_split_at_first(s: Seq<char>, c: char, i: int)
    requires
        0 <= i <= s.len(),
        forall|j: int| 0 <= j < i ==> s[j] != c,
        i == s.len() || s[i] == c,
    ensures
        contains_char(s, c) <==> i < s.len(),
        before_char(s, c) == s.subrange(0, i),
        i < s.len() ==> after_char(s, c) == s.subrange(i + 1, s.len() as int),
    decreases s.len(),
{
    if s.len() == 0 {
        assert(before_char(s, c) =~= s.subrange(0, 0));
    } else if s[0] == c {
        assert(i == 0);
        assert(before_char(s, c) =~= s.subrange(0, 0));
        assert(after_char(s, c) =~= s.subrange(1, s.len() as int));
    } else {
        assert(i >= 1);
        let t = s.drop_first();
        assert(forall|j: int| 0 <= j < i - 1 ==> t[j] != c);
        lemma_split_at_first(t, c, i - 1);
        assert(before_char(s, c) =~= s.subrange(0, i)) by {
            assert(t.subrange(0, i - 1) =~= s.subrange(1, i));
        }
        if i < s.len() {
            assert(after_char(s, c) =~= s.subrange(i + 1, s.len() as int)) by {
                assert(t.subrange(i, t.len() as int) =~= s.subrange(i + 1, s.len() as int));
            }
        }
    }
}

/// When `c` occurs in `s`, the part after the first occurrence is strictly
/// shorter than `s`.
pub proof fn lemma_after_char_shorter(s: Seq<char>, c: char)
    requires
        contains_char(s, c),
    ensures
        after_char(s, c).len() < s.len(),
    decreases s.len(),
{
    if s[0] != c {
        lemma_after_char_shorter(s.drop_first(), c);
    }
}

/// Index of the first occurrence of `c` in `s`, or the length of `s` when
/// `c` does not occur; ties the result to [`before_char`] and [`after_char`].
pub fn find_char(s: &str, c: char) -> (r: usize)
    ensures
        r <= s@.len(),
        forall|j: int| 0 <= j < r ==> s@[j] != c,
        r < s@.len() ==> s@[r as int] == c,
        contains_char(s@, c) <==> r < s@.len(),
        before_char(s@, c) == s@.subrange(0, r as int),
        r < s@.len() ==> after_char(s@, c) == s@.subrange(r as int + 1, s@.len() as int),
{
    let n = s.unicode_len();
    let mut i: usize = 0;
    while i < n && s.get_char(i) != c
        invariant
            i <= n,
            n == s@.len(),
            forall|j: int| 0 <= j < i ==> s@[j] != c,
        decreases n - i,
    {
        i += 1;
    }
    proof {
        lemma_split_at_first(s@, c, i as int);
    }
    i
}

} // verus!
