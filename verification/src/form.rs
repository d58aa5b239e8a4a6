//! The submitted form body and its fields.
//!
//! The transport hands the handler the raw bytes of an
//! `application/x-www-form-urlencoded` body. This module gives that format a
//! specification and a verified decoder: the body splits on `'&'` into
//! non-empty segments, each segment splits at its first `'='` into a key and
//! a value, and both are percent-decoded (`'+'` becomes a space, `'%'`
//! followed by two hex digits becomes that byte, anything else stands as it
//! is). A submission needs the keys `name` and `email` exactly once each,
//! with field values that are well-formed UTF-8; other keys are ignored.
use vstd::prelude::*;
use vstd::utf8::decode_utf8;
use vstd::utf8::valid_utf8;

verus! {

/// The byte that separates key-value pairs.
pub const PAIR_SEPARATOR: u8 = 38u8;

/// The byte that separates a key from its value.
pub const KEY_VALUE_SEPARATOR: u8 = 61u8;

/// The byte `'+'`, which stands for a space in an encoded body.
pub const PLUS_BYTE: u8 = 43u8;

/// The byte `'%'`, which opens a two-digit escape.
pub const PERCENT_BYTE: u8 = 37u8;

/// The space byte a `'+'` decodes to.
pub const SPACE_BYTE: u8 = 32u8;

/// Whether `b` is an ASCII hexadecimal digit.
pub open spec fn is_hex_digit(b: u8) -> bool {
    (48 <= b <= 57) || (97 <= b <= 102) || (65 <= b <= 70)
}

/// The numeric value of the hexadecimal digit `b`.
pub open spec fn hex_value(b: u8) -> u8
    recommends
        is_hex_digit(b),
{
    if 48 <= b <= 57 {
        (b - 48) as u8
    } else if 97 <= b <= 102 {
        (b - 87) as u8
    } else {
        (b - 55) as u8
    }
}

/// The percent-decoding of `s`: `'+'` stands for a space, `'%'` followed by
/// two hex digits stands for the byte they name, and every other byte — a
/// `'%'` without two hex digits among them — stands for itself.
pub open spec fn decoded(s: Seq<u8>) -> Seq<u8>
    decreases s.len(),
{
    if s.len() == 0 {
        Seq::empty()
    } else if s[0] == PLUS_BYTE {
        seq![SPACE_BYTE] + decoded(s.skip(1))
    } else if s[0] == PERCENT_BYTE && s.len() >= 3 && is_hex_digit(s[1]) && is_hex_digit(s[2]) {
        seq![(hex_value(s[1]) * 16 + hex_value(s[2])) as u8] + decoded(s.skip(3))
    } else {
        seq![s[0]] + decoded(s.skip(1))
    }
}

/// The longest prefix of `s` free of the byte `c`.
pub open spec fn prefix_until(s: Seq<u8>, c: u8) -> Seq<u8>
    decreases s.len(),
{
    if s.len() == 0 || s[0] == c {
        Seq::empty()
    } else {
        seq![s[0]] + prefix_until(s.skip(1), c)
    }
}

/// What follows the first occurrence of `c` in `s`; empty when there is none.
pub open spec fn rest_after(s: Seq<u8>, c: u8) -> Seq<u8>
    decreases s.len(),
{
    if s.len() == 0 {
        Seq::empty()
    } else if s[0] == c {
        s.skip(1)
    } else {
        rest_after(s.skip(1), c)
    }
}

/// The non-empty segments of `s`, split on the pair separator.
pub open spec fn segments(s: Seq<u8>) -> Seq<Seq<u8>>
    decreases s.len(),
{
    if s.len() == 0 {
        Seq::empty()
    } else if s[0] == PAIR_SEPARATOR {
        segments(s.skip(1))
    } else {
        let seg = prefix_until(s, PAIR_SEPARATOR);
        let advance: int = if seg.len() + 1 <= s.len() {
            seg.len() + 1 as int
        } else {
            s.len() as int
        };
        seq![seg] + segments(s.skip(advance))
    }
}

/// The key-value pairs of a body: each segment split at its first `'='`,
/// both sides percent-decoded.
pub open spec fn pairs(body: Seq<u8>) -> Seq<(Seq<u8>, Seq<u8>)> {
    segments(body).map_values(
        |seg: Seq<u8>|
            (
                decoded(prefix_until(seg, KEY_VALUE_SEPARATOR)),
                decoded(rest_after(seg, KEY_VALUE_SEPARATOR)),
            ),
    )
}

/// How many pairs carry the key `k`.
pub open spec fn count_key(ps: Seq<(Seq<u8>, Seq<u8>)>, k: Seq<u8>) -> nat
    decreases ps.len(),
{
    if ps.len() == 0 {
        0
    } else {
        count_key(ps.drop_last(), k) + (if ps.last().0 == k {
            1nat
        } else {
            0nat
        })
    }
}

/// The value of the last pair carrying the key `k`; empty when there is none.
pub open spec fn value_for(ps: Seq<(Seq<u8>, Seq<u8>)>, k: Seq<u8>) -> Seq<u8>
    decreases ps.len(),
{
    if ps.len() == 0 {
        Seq::empty()
    } else if ps.last().0 == k {
        ps.last().1
    } else {
        value_for(ps.drop_last(), k)
    }
}

/// The bytes of the key `name`.
pub open spec fn name_key() -> Seq<u8> {
    seq![110u8, 97u8, 109u8, 101u8]
}

/// The bytes of the key `email`.
pub open spec fn email_key() -> Seq<u8> {
    seq![101u8, 109u8, 97u8, 105u8, 108u8]
}

/// The decoded `email` and `name` field bytes of a body, present exactly
/// when each of the two keys occurs exactly once.
pub open spec fn form_fields(body: Seq<u8>) -> Option<(Seq<u8>, Seq<u8>)> {
    let ps = pairs(body);
    if count_key(ps, email_key()) == 1 && count_key(ps, name_key()) == 1 {
        Some((value_for(ps, email_key()), value_for(ps, name_key())))
    } else {
        None
    }
}

/// The `email` and `name` fields of a body as strings: present exactly when
/// both keys occur exactly once and both decoded values are well-formed
/// UTF-8.
pub open spec fn parsed_form(body: Seq<u8>) -> Option<(Seq<char>, Seq<char>)> {
    match form_fields(body) {
        None => None,
        Some(f) => if valid_utf8(f.0) && valid_utf8(f.1) {
            Some((decode_utf8(f.0), decode_utf8(f.1)))
        } else {
            None
        },
    }
}

/// The two raw fields of a subscription submission, before any validation.
pub struct FormData {
    pub email: String,
    pub name: String,
}

/// A scan that stopped at `j` pins down the prefix: when no byte before `j`
/// is `c`, and `j` is either the first `c` or the end, the prefix up to `c`
/// is exactly `s.take(j)`.
proof fn lemma_prefix_until_scan(s: Seq<u8>, c: u8, j: int)
    requires
        0 <= j <= s.len(),
        forall|k: int| 0 <= k < j ==> s[k] != c,
        j < s.len() ==> s[j] == c,
    ensures
        prefix_until(s, c) == s.take(j),
    decreases j,
{
    if j == 0 {
        assert(prefix_until(s, c) =~= s.take(0));
    } else {
        lemma_prefix_until_scan(s.skip(1), c, j - 1);
        assert(seq![s[0]] + s.skip(1).take(j - 1) =~= s.take(j));
    }
}

/// The same scan pins down the rest: what follows the first `c` is
/// `s.skip(j + 1)` when `c` occurs at `j`, and empty when `c` never occurs.
proof fn lemma_rest_after_scan(s: Seq<u8>, c: u8, j: int)
    requires
        0 <= j <= s.len(),
        forall|k: int| 0 <= k < j ==> s[k] != c,
        j < s.len() ==> s[j] == c,
    ensures
        rest_after(s, c) == (if j < s.len() {
            s.skip(j + 1)
        } else {
            Seq::<u8>::empty()
        }),
    decreases j,
{
    if j == 0 {
        if s.len() == 0 {
            assert(rest_after(s, c) =~= Seq::<u8>::empty());
        }
    } else {
        lemma_rest_after_scan(s.skip(1), c, j - 1);
        if j < s.len() {
            assert(s.skip(1).skip(j) =~= s.skip(j + 1));
        }
    }
}

/// The first index in `[from, to)` where `v` holds the byte `c`, or `to`
/// when there is none.
fn find_byte_upto(v: &Vec<u8>, from: usize, to: usize, c: u8) -> (j: usize)
    requires
        from <= to <= v@.len(),
    ensures
        from <= j <= to,
        forall|k: int| from <= k < j ==> v@[k] != c,
        j < to ==> v@[j as int] == c,
{
    let mut j = from;
    while j < to
        invariant
            from <= j <= to <= v@.len(),
            forall|k: int| from <= k < j ==> v@[k] != c,
        decreases to - j,
    {
        if v[j] == c {
            return j;
        }
        j += 1;
    }
    j
}

fn is_hex_digit_byte(b: u8) -> (r: bool)
    ensures
        r == is_hex_digit(b),
{
    (48 <= b && b <= 57) || (97 <= b && b <= 102) || (65 <= b && b <= 70)
}

fn hex_value_byte(b: u8) -> (r: u8)
    requires
        is_hex_digit(b),
    ensures
        r == hex_value(b),
{
    if 48 <= b && b <= 57 {
        b - 48
    } else if 97 <= b && b <= 102 {
        b - 87
    } else {
        b - 55
    }
}

/// Percent-decodes `v[from..to]`.
fn decode_bytes(v: &Vec<u8>, from: usize, to: usize) -> (r: Vec<u8>)
    requires
        from <= to <= v@.len(),
    ensures
        r@ == decoded(v@.subrange(from as int, to as int)),
{
    let mut out: Vec<u8> = Vec::new();
    let mut i = from;
    while i < to
        invariant
            from <= i <= to <= v@.len(),
            decoded(v@.subrange(from as int, to as int)) == out@ + decoded(
                v@.subrange(i as int, to as int),
            ),
        decreases to - i,
    {
        let ghost rem = v@.subrange(i as int, to as int);
        let b = v[i];
        if b == PLUS_BYTE {
            out.push(SPACE_BYTE);
            proof {
                assert(rem.skip(1) =~= v@.subrange(i + 1, to as int));
            }
            i += 1;
        } else if b == PERCENT_BYTE && to - i >= 3 && is_hex_digit_byte(v[i + 1]) && is_hex_digit_byte(
            v[i + 2],
        ) {
            let d = hex_value_byte(v[i + 1]) * 16 + hex_value_byte(v[i + 2]);
            out.push(d);
            proof {
                assert(rem.len() >= 3 && rem[1] == v@[i + 1] && rem[2] == v@[i + 2]);
                assert(rem.skip(3) =~= v@.subrange(i + 3, to as int));
            }
            i += 3;
        } else {
            out.push(b);
            proof {
                assert(rem.skip(1) =~= v@.subrange(i + 1, to as int));
                assert(!(rem[0] == PERCENT_BYTE && rem.len() >= 3 && is_hex_digit(rem[1]) && is_hex_digit(
                    rem[2],
                )));
            }
            i += 1;
        }
    }
    proof {
        assert(v@.subrange(to as int, to as int) =~= Seq::<u8>::empty());
    }
    out
}

/// Splits the body into its decoded key-value pairs.
#[verifier::rlimit(60)]
fn parse_pairs(v: &Vec<u8>) -> (r: Vec<(Vec<u8>, Vec<u8>)>)
    ensures
        r@.len() == pairs(v@).len(),
        forall|t: int|
            0 <= t < r@.len() ==> r@[t].0@ == pairs(v@)[t].0 && r@[t].1@ == pairs(v@)[t].1,
{
    let mut out: Vec<(Vec<u8>, Vec<u8>)> = Vec::new();
    let ghost mut segs_done: Seq<Seq<u8>> = Seq::empty();
    let mut i: usize = 0;
    proof {
        assert(v@.skip(0) =~= v@);
        assert(segs_done + segments(v@) =~= segments(v@));
    }
    while i < v.len()
        invariant
            i <= v@.len(),
            segments(v@) == segs_done + segments(v@.skip(i as int)),
            out@.len() == segs_done.len(),
            forall|t: int|
                0 <= t < out@.len() ==> out@[t].0@ == decoded(
                    prefix_until(segs_done[t], KEY_VALUE_SEPARATOR),
                ) && out@[t].1@ == decoded(rest_after(segs_done[t], KEY_VALUE_SEPARATOR)),
        decreases v@.len() - i,
    {
        let ghost s_i = v@.skip(i as int);
        if v[i] == PAIR_SEPARATOR {
            proof {
                assert(s_i[0] == PAIR_SEPARATOR);
                assert(s_i.skip(1) =~= v@.skip(i + 1));
                assert(segs_done + segments(s_i) =~= segs_done + segments(v@.skip(i + 1)));
            }
            i += 1;
        } else {
            let j = find_byte_upto(v, i, v.len(), PAIR_SEPARATOR);
            let e = find_byte_upto(v, i, j, KEY_VALUE_SEPARATOR);
            let ghost seg = prefix_until(s_i, PAIR_SEPARATOR);
            proof {
                // The scan for the pair separator pins the segment down.
                assert(forall|k: int| 0 <= k < j - i ==> s_i[k] == v@[i + k] && s_i[k]
                    != PAIR_SEPARATOR);
                if j < v@.len() {
                    assert(s_i[j - i] == v@[j as int]);
                }
                lemma_prefix_until_scan(s_i, PAIR_SEPARATOR, j - i);
                assert(seg =~= v@.subrange(i as int, j as int));
                // And the scan for the key-value separator splits it.
                assert(forall|k: int| 0 <= k < e - i ==> seg[k] == v@[i + k] && seg[k]
                    != KEY_VALUE_SEPARATOR);
                if e < j {
                    assert(seg[e - i] == v@[e as int]);
                }
                lemma_prefix_until_scan(seg, KEY_VALUE_SEPARATOR, e - i);
                lemma_rest_after_scan(seg, KEY_VALUE_SEPARATOR, e - i);
                assert(prefix_until(seg, KEY_VALUE_SEPARATOR) =~= v@.subrange(
                    i as int,
                    e as int,
                ));
                if e < j {
                    assert(seg.skip(e - i + 1) =~= v@.subrange(e + 1, j as int));
                }
            }
            let key = decode_bytes(v, i, e);
            let val = if e < j {
                decode_bytes(v, e + 1, j)
            } else {
                Vec::new()
            };
            proof {
                // One segment leaves the unprocessed suffix.
                let advance: int = if seg.len() + 1 <= s_i.len() {
                    seg.len() + 1 as int
                } else {
                    s_i.len() as int
                };
                assert(segments(s_i) == seq![seg] + segments(s_i.skip(advance)));
                if j < v@.len() {
                    assert(s_i.skip(advance) =~= v@.skip(j + 1));
                } else {
                    assert(s_i.skip(advance) =~= v@.skip(j as int));
                }
                segs_done = segs_done.push(seg);
                assert(segs_done.drop_last() =~= segs_done.subrange(0, segs_done.len() - 1));
            }
            out.push((key, val));
            proof {
                if j < v@.len() {
                    assert(segments(v@) =~= segs_done + segments(v@.skip(j + 1)));
                } else {
                    assert(segments(v@) =~= segs_done + segments(v@.skip(j as int)));
                }
            }
            i = if j < v.len() {
                j + 1
            } else {
                j
            };
        }
    }
    proof {
        assert(v@.skip(i as int) =~= Seq::<u8>::empty());
        assert(segments(v@) =~= segs_done);
        assert(forall|t: int|
            0 <= t < pairs(v@).len() ==> pairs(v@)[t] == (
                decoded(prefix_until(segs_done[t], KEY_VALUE_SEPARATOR)),
                decoded(rest_after(segs_done[t], KEY_VALUE_SEPARATOR)),
            ));
    }
    out
}

/// Whether two byte strings are equal.
fn bytes_eq(a: &Vec<u8>, b: &Vec<u8>) -> (r: bool)
    ensures
        r == (a@ == b@),
{
    if a.len() != b.len() {
        return false;
    }
    let mut i: usize = 0;
    while i < a.len()
        invariant
            i <= a@.len(),
            a@.len() == b@.len(),
            forall|k: int| 0 <= k < i ==> a@[k] == b@[k],
        decreases a@.len() - i,
    {
        if a[i] != b[i] {
            return false;
        }
        i += 1;
    }
    proof {
        assert(a@ =~= b@);
    }
    true
}

/// Relies on `String::from_utf8`: it succeeds exactly on well-formed UTF-8
/// input, and then returns the string those bytes encode.
#[verifier::external_body]
fn bytes_to_utf8_string(b: Vec<u8>) -> (r: Option<String>)
    ensures
        r is Some <==> valid_utf8(b@),
        r matches Some(s) ==> s@ == decode_utf8(b@),
{
    String::from_utf8(b).ok()
}

/// Walking the pairs in order, counting a key and keeping the value of its
/// latest occurrence, matches the recursive count and lookup.
proof fn lemma_key_scan_step(ps: Seq<(Seq<u8>, Seq<u8>)>, k: Seq<u8>, t: int)
    requires
        0 <= t < ps.len(),
    ensures
        count_key(ps.take(t + 1), k) == count_key(ps.take(t), k) + (if ps[t].0 == k {
            1nat
        } else {
            0nat
        }),
        ps[t].0 == k ==> value_for(ps.take(t + 1), k) == ps[t].1,
        ps[t].0 != k ==> value_for(ps.take(t + 1), k) == value_for(ps.take(t), k),
{
    assert(ps.take(t + 1).drop_last() =~= ps.take(t));
    assert(ps.take(t + 1).last() == ps[t]);
}

impl FormData {
    /// Reads the two submission fields out of a raw form body. The fields
    /// come back exactly when the body carries the keys `name` and `email`
    /// once each with well-formed UTF-8 values; the strings are the decoded
    /// values, untouched otherwise.
    pub fn parse_body(body: &Vec<u8>) -> (r: Option<FormData>)
        ensures
            r matches Some(f) ==> parsed_form(body@) == Some((f.email@, f.name@)),
            r is None ==> parsed_form(body@) is None,
    {
        let ps = parse_pairs(body);
        let ghost spec_ps = pairs(body@);
        let email_key_bytes: Vec<u8> = vec![101u8, 109u8, 97u8, 105u8, 108u8];
        let name_key_bytes: Vec<u8> = vec![110u8, 97u8, 109u8, 101u8];
        proof {
            assert(email_key_bytes@ =~= email_key());
            assert(name_key_bytes@ =~= name_key());
        }
        let mut email_count: usize = 0;
        let mut name_count: usize = 0;
        let mut email_bytes: Vec<u8> = Vec::new();
        let mut name_bytes: Vec<u8> = Vec::new();
        let mut t: usize = 0;
        proof {
            assert(spec_ps.take(0) =~= Seq::<(Seq<u8>, Seq<u8>)>::empty());
        }
        while t < ps.len()
            invariant
                t <= ps@.len(),
                ps@.len() == spec_ps.len(),
                forall|u: int|
                    0 <= u < ps@.len() ==> ps@[u].0@ == spec_ps[u].0 && ps@[u].1@ == spec_ps[u].1,
                email_key_bytes@ == email_key(),
                name_key_bytes@ == name_key(),
                email_count <= t,
                name_count <= t,
                email_count == count_key(spec_ps.take(t as int), email_key()),
                name_count == count_key(spec_ps.take(t as int), name_key()),
                email_count > 0 ==> email_bytes@ == value_for(spec_ps.take(t as int), email_key()),
                name_count > 0 ==> name_bytes@ == value_for(spec_ps.take(t as int), name_key()),
            decreases ps@.len() - t,
        {
            proof {
                lemma_key_scan_step(spec_ps, email_key(), t as int);
                lemma_key_scan_step(spec_ps, name_key(), t as int);
            }
            let pair = &ps[t];
            if bytes_eq(&pair.0, &email_key_bytes) {
                email_count += 1;
                email_bytes = pair.1.clone();
            } else if bytes_eq(&pair.0, &name_key_bytes) {
                name_count += 1;
                name_bytes = pair.1.clone();
            }
            t += 1;
        }
        proof {
            assert(spec_ps.take(spec_ps.len() as int) =~= spec_ps);
        }
        if email_count != 1 || name_count != 1 {
            return None;
        }
        let email = match bytes_to_utf8_string(email_bytes) {
            Some(s) => s,
            None => {
                return None;
            },
        };
        let name = match bytes_to_utf8_string(name_bytes) {
            Some(s) => s,
            None => {
                return None;
            },
        };
        Some(FormData { email, name })
    }
}

} // verus!
