//! Cache model: a shard assignment with an expiry, the key-naming convention
//! for the shared store, and the byte-level codec under which entries are
//! stored.

use vstd::prelude::*;
use vstd::arithmetic::div_mod::lemma_fundamental_div_mod;
use vstd::utf8::{decode_utf8, encode_utf8, valid_utf8};

use crate::chars::{
    after_char, before_char, bytes_to_string, contains_char, digit_char, find_char, is_digit_char,
    lemma_split_at_first, push_char,
};
use crate::tenant::{digits_val, lemma_digits_val_nonneg, normalize_shard_name, normalize_spec};

verus! {

/// Decimal digit character for a value in `0..10`.
pub open spec fn digit_char_of(d: int) -> char {
    if d == 0 {
        '0'
    } else if d == 1 {
        '1'
    } else if d == 2 {
        '2'
    } else if d == 3 {
        '3'
    } else if d == 4 {
        '4'
    } else if d == 5 {
        '5'
    } else if d == 6 {
        '6'
    } else if d == 7 {
        '7'
    } else if d == 8 {
        '8'
    } else {
        '9'
    }
}

/// Runtime counterpart of [`digit_char_of`].
fn digit_to_char(d: u64) -> (c: char)
    requires
        d < 10,
    ensures
        c == digit_char_of(d as int),
{
    if d == 0 {
        '0'
    } else if d == 1 {
        '1'
    } else if d == 2 {
        '2'
    } else if d == 3 {
        '3'
    } else if d == 4 {
        '4'
    } else if d == 5 {
        '5'
    } else if d == 6 {
        '6'
    } else if d == 7 {
        '7'
    } else if d == 8 {
        '8'
    } else {
        '9'
    }
}

/// Decimal representation of a non-negative number, most significant digit
/// first, with no leading zeros (`0` is written as one digit).
pub open spec fn dec_digits(n: int) -> Seq<char>
    decreases n,
{
    if n < 10 {
        seq![digit_char_of(n)]
    } else {
        dec_digits(n / 10).push(digit_char_of(n % 10))
    }
}

/// The decimal representation is non-empty, consists of digit characters,
/// and evaluates back to the number it was made from.
pub proof fn lemma_dec_digits_props(n: int)
    requires
        n >= 0,
    ensures
        dec_digits(n).len() >= 1,
        forall|j: int| 0 <= j < dec_digits(n).len() ==> is_digit_char(#[trigger] dec_digits(n)[j]),
        digits_val(dec_digits(n)) == n,
    decreases n,
{
    if n < 10 {
        let s = dec_digits(n);
        assert(s =~= seq![digit_char_of(n)]);
        assert(s.drop_last() =~= Seq::<char>::empty());
        assert(digits_val(Seq::<char>::empty()) == 0);
        assert(digits_val(s) == digits_val(s.drop_last()) * 10 + (s.last() as int - '0' as int));
        assert(digits_val(s) == digit_char_of(n) as int - '0' as int);
    } else {
        lemma_dec_digits_props(n / 10);
        lemma_fundamental_div_mod(n, 10);
        let s = dec_digits(n);
        assert(s.drop_last() =~= dec_digits(n / 10));
        assert(s.last() == digit_char_of(n % 10));
        assert(digits_val(s) == digits_val(dec_digits(n / 10)) * 10 + (n % 10));
    }
}

/// Formats `n` in decimal.
pub fn u64_to_dec(n: u64) -> (r: String)
    ensures
        r@ == dec_digits(n as int),
{
    let mut digits: Vec<char> = Vec::new();
    let mut m: u64 = n;
    loop
        invariant_except_break
            dec_digits(n as int) =~= dec_digits(m as int) + digits@.reverse(),
        ensures
            dec_digits(n as int) =~= digits@.reverse(),
        decreases m,
    {
        let c: char = digit_to_char(m % 10);
        let ghost old_digits = digits@;
        digits.push(c);
        proof {
            assert(digits@.reverse() =~= seq![c] + old_digits.reverse());
            if m >= 10 {
                assert(dec_digits(m as int) =~= dec_digits(m as int / 10).push(c));
                assert(dec_digits(m as int / 10).push(c) + old_digits.reverse() =~= dec_digits(
                    m as int / 10,
                ) + (seq![c] + old_digits.reverse()));
            } else {
                assert(dec_digits(m as int) =~= seq![c]);
                assert(seq![c] + old_digits.reverse() =~= dec_digits(m as int) + old_digits.reverse());
            }
        }
        if m < 10 {
            break;
        }
        m = m / 10;
    }
    let mut r = String::new();
    let mut i: usize = digits.len();
    while i > 0
        invariant
            i <= digits@.len(),
            r@ =~= digits@.subrange(i as int, digits@.len() as int).reverse(),
        decreases i,
    {
        i -= 1;
        let c = digits[i];
        push_char(&mut r, c);
        proof {
            assert(digits@.subrange(i as int, digits@.len() as int).reverse() =~= digits@.subrange(
                i + 1,
                digits@.len() as int,
            ).reverse().push(digits@[i as int]));
        }
    }
    proof {
        assert(digits@.subrange(0, digits@.len() as int) =~= digits@);
    }
    r
}

/// A cached shard assignment. The shard is stored in normalized form; the
/// entry counts as live strictly before `expiry`.
pub struct CacheEntry {
    pub shard: String,
    pub expiry: u64,
}

impl CacheEntry {
    /// Liveness of an entry at time `now`: expiry must lie strictly in the
    /// future, so an entry whose expiry equals `now` is already expired.
    pub open spec fn spec_is_valid(&self, now: u64) -> bool {
        self.expiry > now
    }

    pub fn new(shard: String, expiry: u64) -> (r: Self)
        ensures
            r.shard@ == shard@,
            r.expiry == expiry,
    {
        Self { shard, expiry }
    }

    /// Decides [`CacheEntry::spec_is_valid`].
    pub fn is_valid(&self, current_time: u64) -> (r: bool)
        ensures
            r == self.spec_is_valid(current_time),
    {
        self.expiry > current_time
    }

    /// Builds a fresh entry: the shard name is normalized on the way in and
    /// the expiry is `current_time + ttl_seconds`.
    pub fn with_ttl(shard: String, current_time: u64, ttl_seconds: u64) -> (r: Self)
        requires
            current_time + ttl_seconds <= u64::MAX,
        ensures
            r.shard@ == normalize_spec(shard@),
            r.expiry == current_time + ttl_seconds,
    {
        Self { shard: normalize_shard_name(shard.as_str()), expiry: current_time + ttl_seconds }
    }
}

/// The characters `tenant:`, the prefix of every cache key.
pub open spec fn key_prefix() -> Seq<char> {
    seq!['t', 'e', 'n', 'a', 'n', 't', ':']
}

/// What [`generate_cache_key`] returns.
pub open spec fn generate_key_spec(tenant: Seq<char>) -> Seq<char> {
    key_prefix() + tenant
}

/// What [`parse_cache_key`] returns: the part after the `tenant:` prefix, or
/// none when the prefix is absent.
pub open spec fn parse_key_spec(key: Seq<char>) -> Option<Seq<char>> {
    if key.len() >= 7 && key.subrange(0, 7) == key_prefix() {
        Some(key.subrange(7, key.len() as int))
    } else {
        None
    }
}

/// Cache key under which a tenant's shard assignment is stored:
/// `tenant:<tenant>`.
pub fn generate_cache_key(tenant: &str) -> (r: String)
    ensures
        r@ == generate_key_spec(tenant@),
{
    let mut r = String::from_str("tenant:");
    r.append(tenant);
    proof {
        reveal_strlit("tenant:");
        assert(r@ =~= generate_key_spec(tenant@));
    }
    r
}

/// Inverse of [`generate_cache_key`]: strips the `tenant:` prefix, or
/// returns none when the key does not carry it.
pub fn parse_cache_key(key: &str) -> (r: Option<String>)
    ensures
        r.deep_view() == parse_key_spec(key@),
{
    let p = "tenant:";
    proof {
        reveal_strlit("tenant:");
        assert(p@ =~= key_prefix());
    }
    let n = key.unicode_len();
    if n < 7 {
        return None;
    }
    let mut i: usize = 0;
    while i < 7
        invariant
            i <= 7,
            n == key@.len(),
            n >= 7,
            p@ =~= key_prefix(),
            forall|j: int| 0 <= j < i ==> key@[j] == key_prefix()[j],
        decreases 7 - i,
    {
        if key.get_char(i) != p.get_char(i) {
            proof {
                assert(key@.subrange(0, 7)[i as int] != key_prefix()[i as int]);
            }
            return None;
        }
        i += 1;
    }
    proof {
        assert(key@.subrange(0, 7) =~= key_prefix());
        assert(key@.subrange(7, n as int) == parse_key_spec(key@)->Some_0);
    }
    Some(key.substring_char(7, n).to_owned())
}

/// Every generated cache key parses back to the tenant it was generated
/// from, so key naming loses no information.
pub proof fn lemma_cache_key_round_trip(tenant: Seq<char>)
    ensures
        parse_key_spec(generate_key_spec(tenant)) == Some(tenant),
{
    let k = generate_key_spec(tenant);
    assert(k.subrange(0, 7) =~= key_prefix());
    assert(k.subrange(7, k.len() as int) =~= tenant);
}

/// An entry built with a positive TTL is live through the last second of
/// its window and expired exactly when the TTL has elapsed.
pub proof fn lemma_with_ttl_validity(e: CacheEntry, now: u64, ttl: u64)
    requires
        ttl > 0,
        now + ttl <= u64::MAX,
        e.expiry == now + ttl,
    ensures
        e.spec_is_valid((now + ttl - 1) as u64),
        !e.spec_is_valid((now + ttl) as u64),
{
}

/// The characters an entry is written as: the decimal expiry, a `:`
/// separator, then the shard name.
pub open spec fn entry_chars(shard: Seq<char>, expiry: int) -> Seq<char> {
    dec_digits(expiry) + seq![':'] + shard
}

/// Reading an entry back from characters: digits before the first `:` give
/// the expiry, everything after it is the shard. Fails when there is no
/// separator, no digits, a non-digit before the separator, or an expiry too
/// large for 64 bits.
pub open spec fn parse_entry_chars(s: Seq<char>) -> Option<(int, Seq<char>)> {
    let d = before_char(s, ':');
    if contains_char(s, ':') && d.len() > 0 && (forall|j: int|
        0 <= j < d.len() ==> is_digit_char(d[j])) && digits_val(d) <= 0xFFFF_FFFF_FFFF_FFFF {
        Some((digits_val(d), after_char(s, ':')))
    } else {
        None
    }
}

/// Serializes an entry to the bytes stored in the shared store.
pub fn encode_cache_entry(entry: &CacheEntry) -> (r: Vec<u8>)
    ensures
        r@ == encode_utf8(entry_chars(entry.shard@, entry.expiry as int)),
{
    let mut s = u64_to_dec(entry.expiry);
    s.append(":");
    s.append(entry.shard.as_str());
    proof {
        reveal_strlit(":");
        assert(s@ =~= entry_chars(entry.shard@, entry.expiry as int));
    }
    s.as_str().as_bytes_vec()
}

/// Deserializes stored bytes back into an entry; any bytes that are not
/// valid UTF-8 or do not follow the entry layout yield none (a cache miss).
pub fn decode_cache_entry(v: &Vec<u8>) -> (r: Option<CacheEntry>)
    ensures
        r matches Some(e) ==> valid_utf8(v@) && parse_entry_chars(decode_utf8(v@)) == Some(
            (e.expiry as int, e.shard@),
        ),
        r is None ==> !valid_utf8(v@) || parse_entry_chars(decode_utf8(v@)) is None,
{
    let s = match bytes_to_string(v) {
        Some(s) => s,
        None => {
            return None;
        },
    };
    let st = s.as_str();
    proof {
        assert(st@ == decode_utf8(v@));
    }
    let n = st.unicode_len();
    let sep = find_char(st, ':');
    if sep == 0 || sep >= n {
        proof {
            if sep < n {
                assert(before_char(st@, ':').len() == 0);
            }
        }
        return None;
    }
    let ghost d = before_char(st@, ':');
    proof {
        assert(d =~= st@.subrange(0, sep as int));
    }
    let expiry = match parse_u64_digits(st, 0, sep) {
        Some(x) => x,
        None => {
            proof {
                assert(parse_entry_chars(st@) is None) by {
                    if exists|j: int| 0 <= j < sep && !is_digit_char(st@[j]) {
                        let j = choose|j: int| 0 <= j < sep && !is_digit_char(st@[j]);
                        assert(d[j] == st@[j]);
                        assert(!is_digit_char(d[j]));
                    }
                }
            }
            return None;
        },
    };
    let shard = st.substring_char(sep + 1, n).to_owned();
    proof {
        assert(forall|j: int| 0 <= j < d.len() ==> is_digit_char(d[j])) by {
            assert(forall|j: int| 0 <= j < sep ==> is_digit_char(st@[j]));
            assert(forall|j: int| 0 <= j < d.len() ==> d[j] == st@[j]);
        }
        assert(after_char(st@, ':') =~= st@.subrange(sep as int + 1, n as int));
    }
    Some(CacheEntry { shard, expiry })
}

/// Parses the digit run `s[from..to]` as a 64-bit number; none when the run
/// is empty, holds a non-digit, or overflows.
fn parse_u64_digits(s: &str, from: usize, to: usize) -> (r: Option<u64>)
    requires
        from <= to <= s@.len(),
    ensures
        r matches Some(x) ==> to > from && (forall|j: int|
            from <= j < to ==> is_digit_char(s@[j])) && digits_val(s@.subrange(from as int, to as int))
            == x as int,
        r is None ==> to == from || (exists|j: int| from <= j < to && !is_digit_char(s@[j]))
            || digits_val(s@.subrange(from as int, to as int)) > 0xFFFF_FFFF_FFFF_FFFF,
{
    if to == from {
        return None;
    }
    let mut acc: u64 = 0;
    let mut too_big: bool = false;
    let mut i: usize = from;
    while i < to
        invariant
            from <= i <= to <= s@.len(),
            forall|j: int| from <= j < i ==> is_digit_char(s@[j]),
            !too_big ==> acc == digits_val(s@.subrange(from as int, i as int)),
            too_big ==> digits_val(s@.subrange(from as int, i as int)) > 0xFFFF_FFFF_FFFF_FFFF,
        decreases to - i,
    {
        let c = s.get_char(i);
        if !digit_char(c) {
            return None;
        }
        let d: u64 = c as u64 - 48;
        let ghost pre = s@.subrange(from as int, i as int);
        let ghost post = s@.subrange(from as int, i + 1 as int);
        proof {
            assert(post.drop_last() =~= pre);
            lemma_digits_val_nonneg(pre);
            lemma_fundamental_div_mod((0xFFFF_FFFF_FFFF_FFFFu64 - d) as int, 10);
        }
        if too_big {
        } else if acc > (0xFFFF_FFFF_FFFF_FFFFu64 - d) / 10 {
            too_big = true;
        } else {
            acc = acc * 10 + d;
        }
        i += 1;
    }
    if too_big {
        None
    } else {
        proof {
            assert(s@.subrange(from as int, to as int) =~= s@.subrange(from as int, i as int));
        }
        Some(acc)
    }
}

/// Writing an entry and reading it back yields the entry again: the codec
/// loses neither the expiry nor a single character of the shard name.
pub proof fn lemma_entry_codec_round_trip(shard: Seq<char>, expiry: u64)
    ensures
        parse_entry_chars(entry_chars(shard, expiry as int)) == Some((expiry as int, shard)),
{
    lemma_dec_digits_props(expiry as int);
    let digits = dec_digits(expiry as int);
    let s = entry_chars(shard, expiry as int);
    assert(forall|j: int| 0 <= j < digits.len() ==> s[j] == digits[j]);
    assert(forall|j: int| 0 <= j < digits.len() ==> s[j] != ':') by {
        assert(forall|j: int| 0 <= j < digits.len() ==> is_digit_char(#[trigger] digits[j]));
    }
    assert(s[digits.len() as int] == ':');
    lemma_split_at_first(s, ':', digits.len() as int);
    assert(before_char(s, ':') =~= digits) by {
        assert(s.subrange(0, digits.len() as int) =~= digits);
    }
    assert(after_char(s, ':') =~= shard) by {
        assert(s.subrange(digits.len() as int + 1, s.len() as int) =~= shard);
    }
}

} // verus!
