//! Tenant extraction from hostnames, mapping-store path construction, and
//! shard-name normalization.

use vstd::prelude::*;

use crate::chars::{
    after_char, before_char, contains_char, digit_char, find_char, is_digit_char, is_tenant_char,
    is_white_space, lemma_after_char_shorter, lower_of, lowercase, space_char, tenant_char,
};

verus! {

/// `s` with leading whitespace removed.
pub open spec fn trim_start_spec(s: Seq<char>) -> Seq<char>
    decreases s.len(),
{
    if s.len() > 0 && is_white_space(s[0]) {
        trim_start_spec(s.drop_first())
    } else {
        s
    }
}

/// `s` with trailing whitespace removed.
pub open spec fn trim_end_spec(s: Seq<char>) -> Seq<char>
    decreases s.len(),
{
    if s.len() > 0 && is_white_space(s.last()) {
        trim_end_spec(s.drop_last())
    } else {
        s
    }
}

/// What [`normalize_shard_name`] returns: the input trimmed of surrounding
/// whitespace, then lower-cased ([`lower_of`], the named result of
/// `str::to_lowercase`).
pub open spec fn normalize_spec(s: Seq<char>) -> Seq<char> {
    lower_of(trim_end_spec(trim_start_spec(s)))
}

/// When the first `i` characters are whitespace and the one at `i` (if any)
/// is not, trimming from the start drops exactly those `i` characters.
proof fn lemma_trim_start_at(s: Seq<char>, i: int)
    requires
        0 <= i <= s.len(),
        forall|j: int| 0 <= j < i ==> is_white_space(s[j]),
        i == s.len() || !is_white_space(s[i]),
    ensures
        trim_start_spec(s) == s.subrange(i, s.len() as int),
    decreases i,
{
    if i == 0 {
        assert(trim_start_spec(s) =~= s.subrange(0, s.len() as int));
    } else {
        let t = s.drop_first();
        lemma_trim_start_at(t, i - 1);
        assert(t.subrange(i - 1, t.len() as int) =~= s.subrange(i, s.len() as int));
    }
}

/// When every character from `k` on is whitespace and the one before `k`
/// (if any) is not, trimming from the end keeps exactly the first `k`.
proof fn lemma_trim_end_at(s: Seq<char>, k: int)
    requires
        0 <= k <= s.len(),
        forall|j: int| k <= j < s.len() ==> is_white_space(s[j]),
        k == 0 || !is_white_space(s[k - 1]),
    ensures
        trim_end_spec(s) == s.subrange(0, k),
    decreases s.len() - k,
{
    if k == s.len() {
        assert(trim_end_spec(s) =~= s.subrange(0, k));
    } else {
        let t = s.drop_last();
        lemma_trim_end_at(t, k);
        assert(t.subrange(0, k) =~= s.subrange(0, k));
    }
}

/// Trims surrounding whitespace, then lower-cases; the canonical form under
/// which shard names are stored and compared. Trimming is decided here,
/// character by character; lower-casing goes through the one trusted
/// `str::to_lowercase` call.
pub fn normalize_shard_name(shard: &str) -> (r: String)
    ensures
        r@ == normalize_spec(shard@),
{
    let n = shard.unicode_len();
    let mut start: usize = 0;
    while start < n && space_char(shard.get_char(start))
        invariant
            start <= n,
            n == shard@.len(),
            forall|j: int| 0 <= j < start ==> is_white_space(shard@[j]),
        decreases n - start,
    {
        start += 1;
    }
    let mut end: usize = n;
    while end > start && space_char(shard.get_char(end - 1))
        invariant
            start <= end <= n,
            n == shard@.len(),
            forall|j: int| end <= j < n ==> is_white_space(shard@[j]),
            forall|j: int| 0 <= j < start ==> is_white_space(shard@[j]),
        decreases end,
    {
        end -= 1;
    }
    proof {
        lemma_trim_start_at(shard@, start as int);
        let t = shard@.subrange(start as int, n as int);
        assert(forall|j: int| end - start <= j < t.len() ==> is_white_space(t[j]));
        assert(end - start == 0 || !is_white_space(t[end - start - 1]));
        lemma_trim_end_at(t, end - start);
        assert(t.subrange(0, end - start) =~= shard@.subrange(start as int, end as int));
    }
    lowercase(shard.substring_char(start, end))
}

/// Numeric value of a sequence of decimal digit characters, most significant
/// first.
pub open spec fn digits_val(s: Seq<char>) -> int
    decreases s.len(),
{
    if s.len() == 0 {
        0
    } else {
        digits_val(s.drop_last()) * 10 + (s.last() as int - '0' as int)
    }
}

/// The value of a digit string is never negative.
pub proof fn lemma_digits_val_nonneg(s: Seq<char>)
    requires
        forall|j: int| 0 <= j < s.len() ==> is_digit_char(s[j]),
    ensures
        digits_val(s) >= 0,
    decreases s.len(),
{
    if s.len() > 0 {
        lemma_digits_val_nonneg(s.drop_last());
    }
}

/// A non-empty run of decimal digits whose value fits in 32 bits.
pub open spec fn digit_run(s: Seq<char>) -> bool {
    &&& s.len() > 0
    &&& forall|j: int| 0 <= j < s.len() ==> is_digit_char(s[j])
    &&& digits_val(s) <= 0xFFFF_FFFF
}

/// A dot-free segment that parses as a 32-bit unsigned integer: an optional
/// leading `+` sign, then a non-empty digit run within range.
pub open spec fn numeric_seg(s: Seq<char>) -> bool {
    if s.len() > 0 && s[0] == '+' {
        digit_run(s.drop_first())
    } else {
        digit_run(s)
    }
}

/// A dotted-decimal host: every dot-separated segment is numeric. Such hosts
/// never yield a tenant.
pub open spec fn is_ip_like(s: Seq<char>) -> bool
    decreases s.len(),
    via is_ip_like_decreases
{
    if contains_char(s, '.') {
        numeric_seg(before_char(s, '.')) && is_ip_like(after_char(s, '.'))
    } else {
        numeric_seg(s)
    }
}

#[via_fn]
proof fn is_ip_like_decreases(s: Seq<char>) {
    if contains_char(s, '.') {
        lemma_after_char_shorter(s, '.');
    }
}

/// Decides [`numeric_seg`], tracking the parsed value with an explicit
/// too-large flag so that overlong digit strings are still rejected exactly.
pub fn numeric_segment(s: &str) -> (r: bool)
    ensures
        r == numeric_seg(s@),
{
    let n = s.unicode_len();
    let start: usize = if n > 0 && s.get_char(0) == '+' {
        1
    } else {
        0
    };
    let ghost d = s@.subrange(start as int, n as int);
    proof {
        if start == 1 {
            assert(d =~= s@.drop_first());
        } else {
            assert(d =~= s@);
        }
    }
    if n == start {
        proof {
            assert(numeric_seg(s@) == digit_run(d));
        }
        return false;
    }
    let mut acc: u64 = 0;
    let mut too_big: bool = false;
    let mut i: usize = start;
    while i < n
        invariant
            start <= i <= n,
            n == s@.len(),
            d == s@.subrange(start as int, n as int),
            numeric_seg(s@) == digit_run(d),
            forall|j: int| start <= j < i ==> is_digit_char(s@[j]),
            !too_big ==> acc == digits_val(s@.subrange(start as int, i as int)) && acc
                <= 0xFFFF_FFFF * 10 + 9,
            too_big ==> digits_val(s@.subrange(start as int, i as int)) > 0xFFFF_FFFF,
        decreases n - i,
    {
        let c = s.get_char(i);
        if !digit_char(c) {
            proof {
                assert(!is_digit_char(d[i - start]));
            }
            return false;
        }
        let ghost pre = s@.subrange(start as int, i as int);
        let ghost post = s@.subrange(start as int, i + 1 as int);
        proof {
            assert(post.drop_last() =~= pre);
            lemma_digits_val_nonneg(pre);
        }
        if too_big || acc > 0xFFFF_FFFF {
            too_big = true;
        } else {
            acc = acc * 10 + (c as u64 - 48);
        }
        i += 1;
    }
    proof {
        assert(forall|j: int| 0 <= j < d.len() ==> is_digit_char(#[trigger] d[j])) by {
            assert(forall|j: int| 0 <= j < d.len() ==> d[j] == s@[start + j]);
        }
        assert(d == s@.subrange(start as int, i as int));
    }
    !too_big && acc <= 0xFFFF_FFFF
}

/// Decides whether the host is a dotted-decimal (IPv4-style) literal, as in
/// [`is_ip_like`].
pub fn is_ip_address(s: &str) -> (r: bool)
    ensures
        r == is_ip_like(s@),
    decreases s@.len(),
{
    let n = s.unicode_len();
    let dot = find_char(s, '.');
    if dot < n {
        let seg = s.substring_char(0, dot);
        if !numeric_segment(seg) {
            return false;
        }
        let rest = s.substring_char(dot + 1, n);
        is_ip_address(rest)
    } else {
        numeric_segment(s)
    }
}

/// A usable tenant label: non-empty and made only of tenant characters.
pub open spec fn is_valid_tenant(s: Seq<char>) -> bool {
    s.len() > 0 && forall|j: int| 0 <= j < s.len() ==> is_tenant_char(s[j])
}

/// Decides [`is_valid_tenant`].
pub fn is_valid_tenant_name(name: &str) -> (r: bool)
    ensures
        r == is_valid_tenant(name@),
{
    let n = name.unicode_len();
    if n == 0 {
        return false;
    }
    let mut i: usize = 0;
    while i < n
        invariant
            i <= n,
            n == name@.len(),
            forall|j: int| 0 <= j < i ==> is_tenant_char(name@[j]),
        decreases n - i,
    {
        if !tenant_char(name.get_char(i)) {
            return false;
        }
        i += 1;
    }
    true
}

/// What [`extract_tenant_from_host`] returns: after stripping an optional
/// `:port` suffix, a host that is not dotted-decimal and has at least two
/// dot-separated labels yields its first label, provided that label is a
/// usable tenant name.
pub open spec fn tenant_of_host(host: Seq<char>) -> Option<Seq<char>> {
    let h = before_char(host, ':');
    if is_ip_like(h) {
        None
    } else if !contains_char(h, '.') {
        None
    } else {
        let lbl = before_char(h, '.');
        if is_valid_tenant(lbl) {
            Some(lbl)
        } else {
            None
        }
    }
}

/// Extracts the tenant identifier from a request host, or none for bare
/// single-label hosts, dotted-decimal literals, and labels with characters
/// outside the tenant alphabet.
pub fn extract_tenant_from_host(host: &str) -> (r: Option<String>)
    ensures
        r.deep_view() == tenant_of_host(host@),
{
    let colon = find_char(host, ':');
    let h = host.substring_char(0, colon);
    if is_ip_address(h) {
        return None;
    }
    let hn = h.unicode_len();
    let dot = find_char(h, '.');
    if dot >= hn {
        return None;
    }
    let lbl = h.substring_char(0, dot);
    if is_valid_tenant_name(lbl) {
        Some(lbl.to_owned())
    } else {
        None
    }
}

/// An all-whitespace prefix disappears under trimming from the start.
proof fn lemma_trim_start_pad(p: Seq<char>, x: Seq<char>)
    requires
        forall|j: int| 0 <= j < p.len() ==> is_white_space(p[j]),
    ensures
        trim_start_spec(p + x) == trim_start_spec(x),
    decreases p.len(),
{
    if p.len() == 0 {
        assert(p + x =~= x);
    } else {
        assert((p + x).drop_first() =~= p.drop_first() + x);
        lemma_trim_start_pad(p.drop_first(), x);
    }
}

/// An all-whitespace suffix disappears under trimming from the end.
proof fn lemma_trim_end_pad(x: Seq<char>, q: Seq<char>)
    requires
        forall|j: int| 0 <= j < q.len() ==> is_white_space(q[j]),
    ensures
        trim_end_spec(x + q) == trim_end_spec(x),
    decreases q.len(),
{
    if q.len() == 0 {
        assert(x + q =~= x);
    } else {
        assert((x + q).last() == q.last());
        assert((x + q).drop_last() =~= x + q.drop_last());
        lemma_trim_end_pad(x, q.drop_last());
    }
}

/// Appending to an input that keeps a non-space head leaves the appended
/// part untouched by start-trimming.
proof fn lemma_trim_start_append(x: Seq<char>, q: Seq<char>)
    requires
        trim_start_spec(x).len() > 0,
    ensures
        trim_start_spec(x + q) == trim_start_spec(x) + q,
    decreases x.len(),
{
    if is_white_space(x[0]) {
        assert((x + q).drop_first() =~= x.drop_first() + q);
        lemma_trim_start_append(x.drop_first(), q);
    } else {
        assert(trim_start_spec(x + q) == x + q);
        assert(trim_start_spec(x) + q =~= x + q);
    }
}

/// An input that start-trims to nothing is all whitespace.
proof fn lemma_trim_start_empty(s: Seq<char>)
    requires
        trim_start_spec(s).len() == 0,
    ensures
        forall|j: int| 0 <= j < s.len() ==> is_white_space(s[j]),
    decreases s.len(),
{
    if s.len() > 0 {
        assert(is_white_space(s[0]));
        lemma_trim_start_empty(s.drop_first());
        assert(forall|j: int| 1 <= j < s.len() ==> s[j] == s.drop_first()[j - 1]);
    }
}

/// Normalization ignores surrounding whitespace: padding the input on
/// either side with whitespace does not change its normal form.
pub proof fn lemma_normalize_ignores_padding(p: Seq<char>, s: Seq<char>, q: Seq<char>)
    requires
        forall|j: int| 0 <= j < p.len() ==> is_white_space(p[j]),
        forall|j: int| 0 <= j < q.len() ==> is_white_space(q[j]),
    ensures
        normalize_spec(p + s + q) == normalize_spec(s),
{
    assert(p + s + q =~= p + (s + q));
    lemma_trim_start_pad(p, s + q);
    if trim_start_spec(s).len() > 0 {
        lemma_trim_start_append(s, q);
        lemma_trim_end_pad(trim_start_spec(s), q);
    } else {
        lemma_trim_start_empty(s);
        assert(forall|j: int| 0 <= j < (s + q).len() ==> is_white_space((s + q)[j]));
        lemma_trim_start_pad(s + q, Seq::<char>::empty());
        assert((s + q) + Seq::<char>::empty() =~= s + q);
        assert(trim_start_spec(Seq::<char>::empty()).len() == 0);
        lemma_trim_start_pad(s, Seq::<char>::empty());
        assert(s + Seq::<char>::empty() =~= s);
    }
}

/// Splitting off a prefix that cannot hold the separator shifts the split
/// into the remainder.
proof fn lemma_before_char_concat(a: Seq<char>, b: Seq<char>, c: char)
    requires
        forall|j: int| 0 <= j < a.len() ==> a[j] != c,
    ensures
        contains_char(a + b, c) == contains_char(b, c),
        before_char(a + b, c) == a + before_char(b, c),
    decreases a.len(),
{
    if a.len() == 0 {
        assert(a + b =~= b);
        assert(a + before_char(b, c) =~= before_char(b, c));
    } else {
        let s = a + b;
        assert(s[0] == a[0]);
        assert(s.drop_first() =~= a.drop_first() + b);
        lemma_before_char_concat(a.drop_first(), b, c);
        assert(seq![s[0]] + (a.drop_first() + before_char(b, c)) =~= a + before_char(b, c));
    }
}

/// A host of the shape `<label>.<rest>` with a tenant-alphabet label keeps
/// that label as the first dot-separated part of its port-stripped form.
proof fn lemma_labeled_host_shape(host: Seq<char>, label: Seq<char>, rest: Seq<char>)
    requires
        host == label + seq!['.'] + rest,
        forall|j: int| 0 <= j < label.len() ==> is_tenant_char(label[j]),
    ensures
        contains_char(before_char(host, ':'), '.'),
        before_char(before_char(host, ':'), '.') == label,
{
    let h = before_char(host, ':');
    assert(forall|j: int| 0 <= j < label.len() ==> label[j] != ':' && label[j] != '.') by {
        assert(forall|j: int| 0 <= j < label.len() ==> is_tenant_char(label[j]));
    }
    let a = label + seq!['.'];
    assert(host =~= a + rest);
    assert(forall|j: int| 0 <= j < a.len() ==> a[j] != ':');
    lemma_before_char_concat(a, rest, ':');
    assert(h == a + before_char(rest, ':'));
    let tail = seq!['.'] + before_char(rest, ':');
    assert(h =~= label + tail);
    lemma_before_char_concat(label, tail, '.');
    assert(contains_char(tail, '.'));
    assert(before_char(tail, '.') =~= Seq::<char>::empty());
    assert(before_char(h, '.') =~= label);
}

/// Extraction law for labeled hosts: when the host reads
/// `<label>.<rest>` with a usable tenant label, and the port-stripped host
/// is not a dotted-decimal literal, extraction yields exactly the label.
/// (An all-numeric label over a numeric remainder makes the host
/// dotted-decimal, and extraction then yields none.)
pub proof fn lemma_extract_labeled_host(host: Seq<char>, label: Seq<char>, rest: Seq<char>)
    requires
        host == label + seq!['.'] + rest,
        is_valid_tenant(label),
        !is_ip_like(before_char(host, ':')),
    ensures
        tenant_of_host(host) == Some(label),
{
    lemma_labeled_host_shape(host, label, rest);
}

/// Extraction law, self-contained form: a usable label with at least one
/// non-digit character rules the dotted-decimal reading out by itself, so
/// extraction yields the label with no further side condition.
pub proof fn lemma_extract_labeled_host_nondigit(
    host: Seq<char>,
    label: Seq<char>,
    rest: Seq<char>,
    j: int,
)
    requires
        host == label + seq!['.'] + rest,
        is_valid_tenant(label),
        0 <= j < label.len(),
        !is_digit_char(label[j]),
    ensures
        tenant_of_host(host) == Some(label),
{
    lemma_labeled_host_shape(host, label, rest);
    let h = before_char(host, ':');
    assert(is_tenant_char(label[0]));
    assert(label[0] != '+');
    assert(!numeric_seg(label));
    assert(!is_ip_like(h));
}

/// The three ways extraction yields none: a dotted-decimal host, a host
/// without a second label, and a first label outside the tenant alphabet.
pub proof fn lemma_extract_none_cases(host: Seq<char>)
    ensures
        is_ip_like(before_char(host, ':')) ==> tenant_of_host(host) is None,
        !contains_char(before_char(host, ':'), '.') ==> tenant_of_host(host) is None,
        !is_valid_tenant(before_char(before_char(host, ':'), '.')) ==> tenant_of_host(host)
            is None,
{
}

/// The characters `/shard`, the fixed object-name suffix in the mapping
/// store.
pub open spec fn shard_suffix() -> Seq<char> {
    seq!['/', 's', 'h', 'a', 'r', 'd']
}

/// What [`build_gcs_path`] returns.
pub open spec fn gcs_path_spec(bucket: Seq<char>, tenant: Seq<char>) -> Seq<char> {
    seq!['/'] + bucket + seq!['/'] + tenant + shard_suffix()
}

/// What [`build_gcs_object_name`] returns.
pub open spec fn gcs_object_name_spec(tenant: Seq<char>) -> Seq<char> {
    tenant + shard_suffix()
}

/// Request path for the mapping-store lookup of `tenant` in `bucket`:
/// `/<bucket>/<tenant>/shard`.
pub fn build_gcs_path(bucket: &str, tenant: &str) -> (r: String)
    ensures
        r@ == gcs_path_spec(bucket@, tenant@),
{
    let mut r = String::from_str("/");
    r.append(bucket);
    r.append("/");
    r.append(tenant);
    r.append("/shard");
    proof {
        reveal_strlit("/");
        reveal_strlit("/shard");
        assert(r@ =~= gcs_path_spec(bucket@, tenant@));
    }
    r
}

/// Object name (no leading slash) for `tenant`'s shard mapping:
/// `<tenant>/shard`.
pub fn build_gcs_object_name(tenant: &str) -> (r: String)
    ensures
        r@ == gcs_object_name_spec(tenant@),
{
    let mut r = String::from_str(tenant);
    r.append("/shard");
    proof {
        reveal_strlit("/shard");
        assert(r@ =~= gcs_object_name_spec(tenant@));
    }
    r
}

} // verus!
