//! The `application/x-www-form-urlencoded` format, as query strings and
//! form bodies use it: `key=value` pairs joined by `&`, with `+` standing
//! for a space and `%XY` for the byte with hex value `XY`.
//!
//! Everything here works on bytes; turning decoded bytes into text is the
//! host's concern. A malformed percent escape makes a value undecodable.

use vstd::prelude::*;

verus! {

/// The position of the first occurrence of `c` in `s`, or `s.len()` when
/// there is none.
pub open spec fn first_idx(s: Seq<u8>, c: u8) -> nat
    decreases s.len(),
{
    if s.len() == 0 {
        0
    } else if s[0] == c {
        0
    } else {
        1 + first_idx(s.skip(1), c)
    }
}

/// What `first_idx` returns: a position not past the end, holding `c` if
/// within, with no `c` before it.
pub proof fn lemma_first_idx(s: Seq<u8>, c: u8)
    ensures
        first_idx(s, c) <= s.len(),
        first_idx(s, c) < s.len() ==> s[first_idx(s, c) as int] == c,
        forall|j: int| 0 <= j < first_idx(s, c) ==> s[j] != c,
    decreases s.len(),
{
    if s.len() == 0 {
    } else if s[0] == c {
    } else {
        lemma_first_idx(s.skip(1), c);
        assert forall|j: int| 0 <= j < first_idx(s, c) implies s[j] != c by {
            if j > 0 {
                assert(s.skip(1)[j - 1] == s[j]);
            }
        }
    }
}

/// A segment split at its first `=`: the key before it and the value
/// after it. A segment without `=` is all key, with an empty value.
pub open spec fn split_pair(seg: Seq<u8>) -> (Seq<u8>, Seq<u8>) {
    let i = first_idx(seg, 61);
    if i >= seg.len() {
        (seg, Seq::<u8>::empty())
    } else {
        (seg.take(i as int), seg.skip(i as int + 1))
    }
}

/// The `key=value` pairs of a query or form body: the `&`-separated
/// segments, each split at its first `=`. An empty input has no pairs.
pub open spec fn spec_pairs(s: Seq<u8>) -> Seq<(Seq<u8>, Seq<u8>)>
    decreases s.len(),
{
    if s.len() == 0 {
        Seq::<(Seq<u8>, Seq<u8>)>::empty()
    } else {
        let i = first_idx(s, 38);
        if i >= s.len() {
            seq![split_pair(s)]
        } else {
            seq![split_pair(s.take(i as int))] + spec_pairs(s.skip(i as int + 1))
        }
    }
}

/// A hex digit, upper or lower case.
pub open spec fn is_hex(b: u8) -> bool {
    (48 <= b && b <= 57) || (65 <= b && b <= 70) || (97 <= b && b <= 102)
}

/// The value of a hex digit.
pub open spec fn hex_val(b: u8) -> nat
    recommends
        is_hex(b),
{
    if 48 <= b && b <= 57 {
        (b - 48) as nat
    } else if 65 <= b && b <= 70 {
        (b - 65 + 10) as nat
    } else {
        (b - 97 + 10) as nat
    }
}

/// The decoded bytes of an urlencoded value: `+` becomes a space, `%XY`
/// the byte `XY`, and anything else stands for itself. A `%` not followed
/// by two hex digits makes the whole value undecodable.
pub open spec fn spec_decoded(s: Seq<u8>) -> Option<Seq<u8>>
    decreases s.len(),
{
    if s.len() == 0 {
        Some(Seq::<u8>::empty())
    } else if s[0] == 43 {
        match spec_decoded(s.skip(1)) {
            Some(t) => Some(seq![32u8] + t),
            None => None,
        }
    } else if s[0] == 37 {
        if s.len() >= 3 && is_hex(s[1]) && is_hex(s[2]) {
            match spec_decoded(s.skip(3)) {
                Some(t) => Some(seq![(hex_val(s[1]) * 16 + hex_val(s[2])) as u8] + t),
                None => None,
            }
        } else {
            None
        }
    } else {
        match spec_decoded(s.skip(1)) {
            Some(t) => Some(seq![s[0]] + t),
            None => None,
        }
    }
}

/// The position of the first occurrence of `c` at or after `from`, if any.
fn find_byte(s: &[u8], from: usize, c: u8) -> (r: usize)
    requires
        from <= s@.len(),
    ensures
        from <= r <= s@.len(),
        r - from == first_idx(s@.skip(from as int), c),
        r < s@.len() ==> s@[r as int] == c,
    {
    let len = s.len();
    let ghost t = s@.skip(from as int);
    proof {
        lemma_first_idx(t, c);
    }
    let mut i: usize = from;
    while i < len
        invariant
            from <= i <= len,
            len == s@.len(),
            t == s@.skip(from as int),
            forall|j: int| 0 <= j < i - from ==> t[j] != c,
            first_idx(t, c) >= i - from,
        decreases len - i,
    {
        proof {
            lemma_first_idx(t, c);
        }
        if s[i] == c {
            proof {
                assert(t[i - from] == s@[i as int]);
                lemma_first_idx(t, c);
                assert(first_idx(t, c) <= i - from);
            }
            return i;
        }
        proof {
            assert(t[i - from] == s@[i as int]);
            if first_idx(t, c) == i - from {
                assert(t[i - from] == c);
            }
        }
        i = i + 1;
    }
    proof {
        lemma_first_idx(t, c);
    }
    len
}

/// Copy `s[from .. to]` out as its own vector.
fn slice_range(s: &[u8], from: usize, to: usize) -> (r: Vec<u8>)
    requires
        from <= to <= s@.len(),
    ensures
        r@ == s@.subrange(from as int, to as int),
{
    let mut r: Vec<u8> = Vec::new();
    let mut i: usize = from;
    while i < to
        invariant
            from <= i <= to <= s@.len(),
            r@ =~= s@.subrange(from as int, i as int),
        decreases to - i,
    {
        r.push(s[i]);
        proof {
            assert(r@ =~= s@.subrange(from as int, i + 1));
        }
        i = i + 1;
    }
    r
}

/// The views of a vector of key-value byte pairs.
pub open spec fn pairs_view(v: Seq<(Vec<u8>, Vec<u8>)>) -> Seq<(Seq<u8>, Seq<u8>)> {
    v.map_values(|p: (Vec<u8>, Vec<u8>)| (p.0@, p.1@))
}

/// Split a query or form body into its `key=value` pairs.
#[verifier::rlimit(60)]
pub fn pairs(s: &[u8]) -> (r: Vec<(Vec<u8>, Vec<u8>)>)
    ensures
        pairs_view(r@) == spec_pairs(s@),
{
    let len = s.len();
    let mut r: Vec<(Vec<u8>, Vec<u8>)> = Vec::new();
    let mut pos: usize = 0;
    proof {
        assert(pairs_view(r@) =~= Seq::<(Seq<u8>, Seq<u8>)>::empty());
        assert(s@.skip(0) =~= s@);
    }
    if len == 0 {
        return r;
    }
    proof {
        assert(pairs_view(r@) + spec_pairs(s@.skip(0)) =~= spec_pairs(s@));
    }
    loop
        invariant
            pos <= len,
            len == s@.len(),
            spec_pairs(s@) == pairs_view(r@) + spec_pairs(s@.skip(pos as int)),
        decreases len - pos + 1,
    {
        if pos == len {
            proof {
                assert(s@.skip(pos as int) =~= Seq::<u8>::empty());
                assert(pairs_view(r@) =~= spec_pairs(s@));
            }
            return r;
        }
        let ghost t = s@.skip(pos as int);
        let amp = find_byte(s, pos, 38);
        let eq = find_byte(s, pos, 61);
        let (k, v) = if eq < amp {
            (slice_range(s, pos, eq), slice_range(s, eq + 1, amp))
        } else {
            (slice_range(s, pos, amp), Vec::<u8>::new())
        };
        proof {
            let seg = if first_idx(t, 38) >= t.len() {
                t
            } else {
                t.take(first_idx(t, 38) as int)
            };
            assert(seg =~= s@.subrange(pos as int, amp as int));
            lemma_first_idx(t, 61);
            lemma_first_idx(seg, 61);
            // The first `=` of the whole tail and of the segment agree:
            // either both are at the same offset before the first `&`, or
            // the segment has none.
            if eq < amp {
                assert(seg[eq - pos] == 61);
                assert(forall|j: int| 0 <= j < eq - pos ==> seg[j] != 61);
                lemma_first_idx_found(seg, 61, (eq - pos) as nat);
                assert(split_pair(seg) == (seg.take(eq - pos), seg.skip(eq - pos + 1)));
                assert(seg.take(eq - pos) =~= s@.subrange(pos as int, eq as int));
                assert(seg.skip(eq - pos + 1) =~= s@.subrange(eq + 1, amp as int));
            } else {
                assert(forall|j: int| 0 <= j < seg.len() ==> seg[j] != 61) by {
                    assert(forall|j: int| 0 <= j < seg.len() ==> seg[j] == t[j]);
                }
                lemma_first_idx_none(seg, 61);
                assert(split_pair(seg) == (seg, Seq::<u8>::empty()));
            }
            assert((k@, v@) == split_pair(seg));
        }
        let ghost before = r@;
        r.push((k, v));
        proof {
            assert(pairs_view(r@) =~= pairs_view(before).push((k@, v@)));
        }
        if amp == len {
            proof {
                assert(t.len() > 0);
                assert(first_idx(t, 38) >= t.len());
                assert(spec_pairs(t) =~= seq![split_pair(t)]);
                assert(pairs_view(r@) =~= spec_pairs(s@));
            }
            return r;
        }
        proof {
            assert(t.len() > 0);
            assert(first_idx(t, 38) == amp - pos);
            assert(first_idx(t, 38) < t.len());
            assert(spec_pairs(t) == seq![split_pair(t.take(first_idx(t, 38) as int))]
                + spec_pairs(t.skip(first_idx(t, 38) as int + 1)));
            assert(t.skip(first_idx(t, 38) as int + 1) =~= s@.skip(amp + 1));
            assert(pairs_view(r@) + spec_pairs(s@.skip(amp + 1)) =~= spec_pairs(s@));
        }
        pos = amp + 1;
    }
}

/// When position `i` holds `c` and nothing before it does, `first_idx`
/// returns `i`.
proof fn lemma_first_idx_found(s: Seq<u8>, c: u8, i: nat)
    requires
        i < s.len(),
        s[i as int] == c,
        forall|j: int| 0 <= j < i ==> s[j] != c,
    ensures
        first_idx(s, c) == i,
{
    lemma_first_idx(s, c);
    let f = first_idx(s, c);
    if f < i {
        assert(s[f as int] == c);
    }
}

/// When `c` is nowhere in `s`, `first_idx` returns the length.
proof fn lemma_first_idx_none(s: Seq<u8>, c: u8)
    requires
        forall|j: int| 0 <= j < s.len() ==> s[j] != c,
    ensures
        first_idx(s, c) >= s.len(),
{
    lemma_first_idx(s, c);
    let f = first_idx(s, c);
    if f < s.len() {
        assert(s[f as int] == c);
    }
}

/// Decode an urlencoded value. Succeeds exactly when every `%` escape is
/// well-formed, and then returns the decoded bytes.
#[verifier::rlimit(60)]
pub fn decode(s: &[u8]) -> (r: Option<Vec<u8>>)
    ensures
        match r {
            Some(v) => spec_decoded(s@) == Some(v@),
            None => spec_decoded(s@) is None,
        },
{
    let len = s.len();
    let mut acc: Vec<u8> = Vec::new();
    let mut i: usize = 0;
    proof {
        assert(s@.skip(0) =~= s@);
    }
    while i < len
        invariant
            i <= len,
            len == s@.len(),
            spec_decoded(s@) == match spec_decoded(s@.skip(i as int)) {
                Some(t) => Some(acc@ + t),
                None => None::<Seq<u8>>,
            },
        decreases len - i,
    {
        let ghost t = s@.skip(i as int);
        let b = s[i];
        proof {
            assert(t[0] == s@[i as int]);
        }
        let (out, step): (u8, usize) = if b == 43 {
            (32, 1)
        } else if b == 37 {
            if len - i >= 3 {
                let h1 = s[i + 1];
                let h2 = s[i + 2];
                proof {
                    assert(t[1] == s@[i + 1]);
                    assert(t[2] == s@[i + 2]);
                }
                match (hex_digit(h1), hex_digit(h2)) {
                    (Some(a), Some(c)) => ((a * 16 + c), 3),
                    _ => {
                        return None;
                    },
                }
            } else {
                proof {
                    assert(t.len() < 3);
                }
                return None;
            }
        } else {
            (b, 1)
        };
        let ghost before = acc@;
        acc.push(out);
        proof {
            if step == 1 {
                assert(t.skip(1) =~= s@.skip(i + 1));
                match spec_decoded(s@.skip(i + 1)) {
                    Some(u) => {
                        assert(spec_decoded(t) == Some(seq![out] + u));
                        assert(before + (seq![out] + u) =~= acc@ + u);
                    },
                    None => {},
                }
            } else {
                assert(t.len() >= 3 && is_hex(t[1]) && is_hex(t[2]));
                assert(out == (hex_val(t[1]) * 16 + hex_val(t[2])) as u8);
                assert(t.skip(3) =~= s@.skip(i + 3));
                match spec_decoded(s@.skip(i + 3)) {
                    Some(u) => {
                        assert(spec_decoded(t) == Some(seq![out] + u));
                        assert(before + (seq![out] + u) =~= acc@ + u);
                    },
                    None => {},
                }
            }
        }
        i = i + step;
    }
    proof {
        assert(s@.skip(len as int) =~= Seq::<u8>::empty());
    }
    Some(acc)
}

/// The value of one hex digit character, if it is one.
fn hex_digit(b: u8) -> (r: Option<u8>)
    ensures
        match r {
            Some(v) => is_hex(b) && v == hex_val(b) && v < 16,
            None => !is_hex(b),
        },
{
    if 48 <= b && b <= 57 {
        Some(b - 48)
    } else if 65 <= b && b <= 70 {
        Some(b - 65 + 10)
    } else if 97 <= b && b <= 102 {
        Some(b - 97 + 10)
    } else {
        None
    }
}

/// The raw value of the first pair with the given key, if any pair has it.
pub open spec fn spec_first_value(ps: Seq<(Seq<u8>, Seq<u8>)>, key: Seq<u8>) -> Option<Seq<u8>>
    decreases ps.len(),
{
    if ps.len() == 0 {
        None
    } else if ps[0].0 == key {
        Some(ps[0].1)
    } else {
        spec_first_value(ps.drop_first(), key)
    }
}

/// The decoded value of the given field of a query or form body: the first
/// pair with that key, percent-decoded. Nothing when the key is missing or
/// its value is undecodable.
pub open spec fn spec_field(s: Seq<u8>, key: Seq<u8>) -> Option<Seq<u8>> {
    match spec_first_value(spec_pairs(s), key) {
        Some(raw) => spec_decoded(raw),
        None => None,
    }
}

/// Extract and decode the given field of a query or form body.
pub fn field(s: &[u8], key: &[u8]) -> (r: Option<Vec<u8>>)
    ensures
        match r {
            Some(v) => spec_field(s@, key@) == Some(v@),
            None => spec_field(s@, key@) is None,
        },
{
    let ps = pairs(s);
    let n = ps.len();
    let mut i: usize = 0;
    proof {
        assert(pairs_view(ps@).skip(0) =~= pairs_view(ps@));
    }
    while i < n
        invariant
            i <= n,
            n == ps@.len(),
            pairs_view(ps@) == spec_pairs(s@),
            spec_first_value(pairs_view(ps@), key@) == spec_first_value(
                pairs_view(ps@).skip(i as int),
                key@,
            ),
        decreases n - i,
    {
        let ghost rest = pairs_view(ps@).skip(i as int);
        proof {
            assert(rest[0] == pairs_view(ps@)[i as int]);
            assert(pairs_view(ps@)[i as int] == (ps@[i as int].0@, ps@[i as int].1@));
            assert(rest.drop_first() =~= pairs_view(ps@).skip(i + 1));
        }
        if bytes_eq(&ps[i].0, key) {
            proof {
                assert(spec_first_value(rest, key@) == Some(ps@[i as int].1@));
            }
            return decode(&ps[i].1);
        }
        proof {
            assert(rest[0].0 != key@);
        }
        i = i + 1;
    }
    proof {
        assert(pairs_view(ps@).skip(n as int) =~= Seq::<(Seq<u8>, Seq<u8>)>::empty());
    }
    None
}

/// A decimal digit byte.
pub open spec fn is_digit_byte(b: u8) -> bool {
    48 <= b && b <= 57
}

/// Every byte of the sequence is a decimal digit.
pub open spec fn all_digit_bytes(s: Seq<u8>) -> bool {
    forall|i: int| 0 <= i < s.len() ==> is_digit_byte(#[trigger] s[i])
}

/// The number a sequence of decimal digit bytes denotes, most significant
/// first.
pub open spec fn dec_value_bytes(s: Seq<u8>) -> nat
    recommends
        all_digit_bytes(s),
    decreases s.len(),
{
    if s.len() == 0 {
        0
    } else {
        dec_value_bytes(s.drop_last()) * 10 + (s.last() - 48) as nat
    }
}

/// A byte string that denotes a `u64`: nonempty, all digits, in range.
pub open spec fn is_dec_u64(s: Seq<u8>) -> bool {
    s.len() > 0 && all_digit_bytes(s) && dec_value_bytes(s) <= u64::MAX
}

/// The value of a prefix of a digit string is at most the whole's.
proof fn lemma_dec_value_bytes_prefix_le(s: Seq<u8>, j: int)
    requires
        0 <= j <= s.len(),
    ensures
        dec_value_bytes(s.take(j)) <= dec_value_bytes(s),
    decreases s.len() - j,
{
    if j == s.len() {
        assert(s.take(j) =~= s);
    } else {
        assert(s.take(j + 1).drop_last() =~= s.take(j));
        assert(s.take(j + 1).last() == s[j]);
        lemma_dec_value_bytes_prefix_le(s, j + 1);
    }
}

/// Parse a whole byte string as a decimal `u64`: succeeds exactly on a
/// nonempty all-digit string whose value fits.
pub fn parse_u64_bytes(s: &[u8]) -> (r: Option<u64>)
    ensures
        match r {
            Some(v) => is_dec_u64(s@) && v == dec_value_bytes(s@),
            None => !is_dec_u64(s@),
        },
{
    let len = s.len();
    if len == 0 {
        return None;
    }
    let mut acc: u64 = 0;
    let mut i: usize = 0;
    while i < len
        invariant
            i <= len,
            len == s@.len(),
            all_digit_bytes(s@.take(i as int)),
            acc == dec_value_bytes(s@.take(i as int)),
        decreases len - i,
    {
        let b = s[i];
        proof {
            assert(s@.take(i + 1).drop_last() =~= s@.take(i as int));
            assert(s@.take(i + 1).last() == s@[i as int]);
        }
        if b < 48 || b > 57 {
            return None;
        }
        let d = (b - 48) as u64;
        let next = match acc.checked_mul(10) {
            Some(m) => match m.checked_add(d) {
                Some(n) => n,
                None => {
                    proof {
                        lemma_dec_value_bytes_prefix_le(s@, i + 1);
                    }
                    return None;
                },
            },
            None => {
                proof {
                    lemma_dec_value_bytes_prefix_le(s@, i + 1);
                    assert(dec_value_bytes(s@.take(i + 1)) >= acc * 10);
                }
                return None;
            },
        };
        acc = next;
        i = i + 1;
    }
    proof {
        assert(s@.take(len as int) =~= s@);
    }
    Some(acc)
}

/// The numeric value of the given field: the field, required to be a
/// decimal number in `u64` range. Nothing when the key is missing, the
/// value is undecodable, or it is not such a number.
pub open spec fn spec_field_u64(s: Seq<u8>, key: Seq<u8>) -> Option<u64> {
    match spec_field(s, key) {
        Some(d) => if is_dec_u64(d) {
            Some(dec_value_bytes(d) as u64)
        } else {
            None
        },
        None => None,
    }
}

/// Extract a numeric field of a query or form body.
pub fn field_u64(s: &[u8], key: &[u8]) -> (r: Option<u64>)
    ensures
        r == spec_field_u64(s@, key@),
{
    match field(s, key) {
        Some(v) => parse_u64_bytes(v.as_slice()),
        None => None,
    }
}

/// Whether a vector and a slice hold the same bytes.
fn bytes_eq(a: &Vec<u8>, b: &[u8]) -> (r: bool)
    ensures
        r == (a@ == b@),
{
    let n = a.len();
    if n != b.len() {
        return false;
    }
    let mut i: usize = 0;
    while i < n
        invariant
            i <= n,
            n == a@.len() == b@.len(),
            forall|j: int| 0 <= j < i ==> a@[j] == b@[j],
        decreases n - i,
    {
        if a[i] != b[i] {
            return false;
        }
        i = i + 1;
    }
    proof {
        assert(a@ =~= b@);
    }
    true
}

} // verus!
