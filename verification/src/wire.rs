//! Protobuf wire primitives: the varint and key formats stated as spec
//! functions, and the field codecs of `prost` behind trusted wrappers.

use prost::encoding::{DecodeContext, WireType};
use vstd::prelude::*;
use vstd::utf8::{decode_utf8, encode_utf8, valid_utf8};

verus! {

/// The decoding error of `prost`.
#[verifier::external_type_specification]
#[verifier::external_body]
pub struct ExDecodeError(prost::DecodeError);

/// Bytes of the LEB128 varint encoding of `v`, least significant group first.
pub open spec fn varint_bytes(v: nat) -> Seq<u8>
    decreases v,
{
    if v < 128 {
        seq![v as u8]
    } else {
        seq![(v % 128 + 128) as u8] + varint_bytes(v / 128)
    }
}

/// Upper bound (exclusive) of the value a varint of at most `budget` bytes may carry:
/// seven bits per byte, and one bit in the tenth byte.
pub open spec fn varint_bound(budget: nat) -> nat
    decreases budget,
{
    if budget <= 1 {
        2
    } else {
        128 * varint_bound((budget - 1) as nat)
    }
}

/// Reads a varint of at most `budget` bytes from the front of `s`: the value and the
/// number of bytes read. The last allowed byte may only hold 0 or 1.
pub open spec fn varint_parse_within(s: Seq<u8>, budget: nat) -> Option<(nat, nat)>
    decreases budget,
{
    if budget == 0 || s.len() == 0 {
        None
    } else if s[0] < 128 {
        if budget == 1 && s[0] >= 2 {
            None
        } else {
            Some((s[0] as nat, 1nat))
        }
    } else {
        match varint_parse_within(s.drop_first(), (budget - 1) as nat) {
            Some((v, n)) => Some((((s[0] - 128) + 128 * v) as nat, n + 1)),
            None => None,
        }
    }
}

/// A varint read from the front of `s`, as `prost` reads it: at most ten bytes.
pub open spec fn varint_parse(s: Seq<u8>) -> Option<(u64, nat)> {
    match varint_parse_within(s, 10) {
        Some((v, n)) => Some((v as u64, n)),
        None => None,
    }
}

pub proof fn lemma_varint_bound_ten()
    ensures
        varint_bound(10) == 0x1_0000_0000_0000_0000nat,
{
    reveal_with_fuel(varint_bound, 10);
}

proof fn lemma_varint_bound_min(budget: nat)
    ensures
        varint_bound(budget) >= 2,
        budget >= 2 ==> varint_bound(budget) >= 256,
    decreases budget,
{
    if budget > 1 {
        lemma_varint_bound_min((budget - 1) as nat);
    }
}

/// What `varint_parse_within` reads stays within the budget, the input and the bound.
pub proof fn lemma_varint_parse_within_bounds(s: Seq<u8>, budget: nat)
    ensures
        varint_parse_within(s, budget) matches Some((v, n)) ==> 1 <= n <= budget && n <= s.len()
            && v < varint_bound(budget),
    decreases budget,
{
    lemma_varint_bound_min(budget);
    if budget > 0 && s.len() > 0 && s[0] >= 128 {
        lemma_varint_parse_within_bounds(s.drop_first(), (budget - 1) as nat);
        if budget >= 2 {
            assert(varint_bound(budget) == 128 * varint_bound((budget - 1) as nat));
        }
    }
}

/// What `varint_parse` reads is at most ten bytes and lies within the input.
pub proof fn lemma_varint_parse_bounds(s: Seq<u8>)
    ensures
        varint_parse(s) matches Some((v, n)) ==> 1 <= n <= 10 && n <= s.len()
            && varint_parse_within(s, 10) == Some((v as nat, n)),
{
    lemma_varint_parse_within_bounds(s, 10);
    lemma_varint_bound_ten();
}

/// A varint written by `varint_bytes` is read back whole, whatever follows it.
pub proof fn lemma_varint_roundtrip_within(v: nat, rest: Seq<u8>, budget: nat)
    requires
        budget >= 1,
        v < varint_bound(budget),
    ensures
        varint_parse_within(varint_bytes(v) + rest, budget) == Some((v, varint_bytes(v).len())),
    decreases v,
{
    let s = varint_bytes(v) + rest;
    if v < 128 {
        assert(s[0] == v as u8);
    } else {
        if budget == 1 {
            assert(false);
        }
        assert(v / 128 < varint_bound((budget - 1) as nat));
        lemma_varint_roundtrip_within(v / 128, rest, (budget - 1) as nat);
        assert(s.drop_first() =~= varint_bytes(v / 128) + rest);
        assert(s[0] == (v % 128 + 128) as u8);
    }
}

/// The varint of any `u64` is read back whole, whatever follows it.
pub proof fn lemma_varint_roundtrip(v: u64, rest: Seq<u8>)
    ensures
        varint_parse(varint_bytes(v as nat) + rest) == Some((v, varint_bytes(v as nat).len())),
        1 <= varint_bytes(v as nat).len() <= 10,
{
    lemma_varint_bound_ten();
    lemma_varint_roundtrip_within(v as nat, rest, 10);
    lemma_varint_parse_within_bounds(varint_bytes(v as nat) + rest, 10);
}


/// Wire type of a varint field.
pub const WIRE_VARINT: u8 = 0;

/// Wire type of a 64-bit field.
pub const WIRE_FIXED64: u8 = 1;

/// Wire type of a length-delimited field.
pub const WIRE_LEN: u8 = 2;

/// Wire type that opens a group.
pub const WIRE_START_GROUP: u8 = 3;

/// Wire type that closes a group.
pub const WIRE_END_GROUP: u8 = 4;

/// Wire type of a 32-bit field.
pub const WIRE_FIXED32: u8 = 5;

/// The largest field tag.
pub const MAX_TAG: u32 = 0x1fff_ffff;

/// Bytes of the key of a field: its tag and wire type in one varint.
pub open spec fn key_bytes(tag: u32, wire_type: u8) -> Seq<u8> {
    varint_bytes((tag * 8 + wire_type) as nat)
}

/// A field key read from the front of `s`: tag, wire type, bytes read.
pub open spec fn key_parse(s: Seq<u8>) -> Option<(u32, u8, nat)> {
    match varint_parse(s) {
        None => None,
        Some((k, n)) => {
            if k > 0xffff_ffffu64 || k % 8 > 5 || k / 8 < 1 {
                None
            } else {
                Some(((k / 8) as u32, (k % 8) as u8, n))
            }
        },
    }
}

/// Bytes of a varint field.
pub open spec fn varint_field_bytes(tag: u32, v: nat) -> Seq<u8> {
    key_bytes(tag, WIRE_VARINT) + varint_bytes(v)
}

/// Bytes of a length-delimited field.
pub open spec fn len_field_bytes(tag: u32, b: Seq<u8>) -> Seq<u8> {
    key_bytes(tag, WIRE_LEN) + varint_bytes(b.len()) + b
}

/// The value of a varint field, read after its key: the value and the bytes read.
pub open spec fn varint_field_parse(wire_type: u8, s: Seq<u8>) -> Option<(u64, nat)> {
    if wire_type != WIRE_VARINT {
        None
    } else {
        varint_parse(s)
    }
}

/// The payload of a length-delimited field, read after its key: the payload and the
/// bytes read.
pub open spec fn len_field_parse(wire_type: u8, s: Seq<u8>) -> Option<(Seq<u8>, nat)> {
    if wire_type != WIRE_LEN {
        None
    } else {
        match varint_parse(s) {
            None => None,
            Some((l, n)) => {
                if l > s.len() - n {
                    None
                } else {
                    Some((s.subrange(n as int, n + l), (n + l) as nat))
                }
            },
        }
    }
}

/// The text of a string field, read after its key: it must be UTF-8.
pub open spec fn string_field_parse(wire_type: u8, s: Seq<u8>) -> Option<(Seq<char>, nat)> {
    match len_field_parse(wire_type, s) {
        None => None,
        Some((b, n)) => {
            if valid_utf8(b) {
                Some((decode_utf8(b), n))
            } else {
                None
            }
        },
    }
}

/// Varints read one after another from position `pos` of `s` until position `limit`
/// is reached; a varint that runs past `limit` is an error.
pub open spec fn packed_varints(s: Seq<u8>, pos: nat, limit: nat) -> Option<Seq<u64>>
    decreases limit - pos,
{
    if pos >= limit {
        if pos == limit {
            Some(Seq::empty())
        } else {
            None
        }
    } else {
        match varint_parse(s.skip(pos as int)) {
            None => None,
            Some((v, n)) => {
                if n == 0 || pos + n > limit {
                    None
                } else {
                    match packed_varints(s, pos + n, limit) {
                        None => None,
                        Some(vs) => Some(seq![v] + vs),
                    }
                }
            },
        }
    }
}

/// The values of a repeated `int64` field read after one key: a packed run, or a
/// single varint.
pub open spec fn repeated_int64_parse(wire_type: u8, s: Seq<u8>) -> Option<(Seq<i64>, nat)> {
    if wire_type == WIRE_LEN {
        match varint_parse(s) {
            None => None,
            Some((l, n)) => {
                if l > s.len() - n {
                    None
                } else {
                    match packed_varints(s, n, (n + l) as nat) {
                        None => None,
                        Some(vs) => Some((vs.map_values(|v: u64| v as i64), (n + l) as nat)),
                    }
                }
            },
        }
    } else if wire_type == WIRE_VARINT {
        match varint_parse(s) {
            None => None,
            Some((v, n)) => Some((seq![v as i64], n)),
        }
    } else {
        None
    }
}

/// Bytes of a packed repeated `int64` field: nothing for no values.
pub open spec fn packed_int64_bytes(tag: u32, values: Seq<i64>) -> Seq<u8> {
    if values.len() == 0 {
        Seq::empty()
    } else {
        len_field_bytes(tag, varints_bytes(values))
    }
}

/// The varints of `values`, one after another.
pub open spec fn varints_bytes(values: Seq<i64>) -> Seq<u8>
    decreases values.len(),
{
    if values.len() == 0 {
        Seq::empty()
    } else {
        varint_bytes((values[0] as u64) as nat) + varints_bytes(values.drop_first())
    }
}

/// Bytes of an `int64` field, omitted when it holds 0.
pub open spec fn opt_int64_bytes(tag: u32, v: i64) -> Seq<u8> {
    if v != 0 {
        varint_field_bytes(tag, (v as u64) as nat)
    } else {
        Seq::empty()
    }
}

/// Bytes of an `int32` field, omitted when it holds 0.
pub open spec fn opt_int32_bytes(tag: u32, v: i32) -> Seq<u8> {
    if v != 0 {
        varint_field_bytes(tag, (v as u64) as nat)
    } else {
        Seq::empty()
    }
}

/// Bytes of a `bool` field, omitted when it holds false.
pub open spec fn opt_bool_bytes(tag: u32, v: bool) -> Seq<u8> {
    if v {
        varint_field_bytes(tag, 1)
    } else {
        Seq::empty()
    }
}

/// Bytes of a `string` field, omitted when it is empty.
pub open spec fn opt_string_bytes(tag: u32, t: Seq<char>) -> Seq<u8> {
    if t.len() != 0 {
        len_field_bytes(tag, encode_utf8(t))
    } else {
        Seq::empty()
    }
}

/// Bytes of a `bytes` field, omitted when it is empty.
pub open spec fn opt_bytes_bytes(tag: u32, b: Seq<u8>) -> Seq<u8> {
    if b.len() != 0 {
        len_field_bytes(tag, b)
    } else {
        Seq::empty()
    }
}

/// How many bytes a group field takes after its opening key, as `prost` skips it:
/// nested fields up to the closing key with the same tag.
pub uninterp spec fn skip_group_len(tag: u32, rest: Seq<u8>) -> Option<nat>;

/// How many bytes an unknown field takes after its key; `group_len` is what a group
/// takes up to its closing key.
pub open spec fn skip_field_len(wire_type: u8, s: Seq<u8>, group_len: Option<nat>) -> Option<nat> {
    let len: Option<(nat, nat)> = if wire_type == WIRE_VARINT {
        match varint_parse(s) {
            Some((_, n)) => Some((n, 0nat)),
            None => None,
        }
    } else if wire_type == WIRE_FIXED32 {
        Some((0nat, 4nat))
    } else if wire_type == WIRE_FIXED64 {
        Some((0nat, 8nat))
    } else if wire_type == WIRE_LEN {
        match varint_parse(s) {
            Some((l, n)) => Some((n, l as nat)),
            None => None,
        }
    } else if wire_type == WIRE_START_GROUP {
        match group_len {
            Some(n) => Some((n, 0nat)),
            None => None,
        }
    } else {
        None
    };
    match len {
        None => None,
        Some((head, payload)) => {
            if payload > s.len() - head {
                None
            } else {
                Some(head + payload)
            }
        },
    }
}

/// A key written by `key_bytes` is read back by `key_parse`, whatever follows it.
pub proof fn lemma_key_roundtrip(tag: u32, wire_type: u8, rest: Seq<u8>)
    requires
        1 <= tag <= MAX_TAG,
        wire_type <= 5,
    ensures
        key_parse(key_bytes(tag, wire_type) + rest) == Some(
            (tag, wire_type, key_bytes(tag, wire_type).len()),
        ),
        1 <= key_bytes(tag, wire_type).len() <= 10,
{
    let k = (tag * 8 + wire_type) as u64;
    lemma_varint_roundtrip(k, rest);
    assert(k % 8 == wire_type as u64);
    assert(k / 8 == tag as u64);
}

/// A varint field is read back whole: its key, then its value, then what follows.
pub proof fn lemma_varint_field_roundtrip(tag: u32, v: u64, rest: Seq<u8>)
    requires
        1 <= tag <= MAX_TAG,
    ensures
        ({
            let s = varint_field_bytes(tag, v as nat) + rest;
            let kn = key_bytes(tag, WIRE_VARINT).len();
            &&& key_parse(s) == Some((tag, WIRE_VARINT, kn))
            &&& varint_field_parse(WIRE_VARINT, s.skip(kn as int)) == Some(
                (v, varint_bytes(v as nat).len()),
            )
            &&& kn + varint_bytes(v as nat).len() == varint_field_bytes(tag, v as nat).len()
            &&& s.skip(varint_field_bytes(tag, v as nat).len() as int) == rest
        }),
{
    let kb = key_bytes(tag, WIRE_VARINT);
    let vb = varint_bytes(v as nat);
    let s = varint_field_bytes(tag, v as nat) + rest;
    assert(s =~= kb + (vb + rest));
    lemma_key_roundtrip(tag, WIRE_VARINT, vb + rest);
    assert(s.skip(kb.len() as int) =~= vb + rest);
    lemma_varint_roundtrip(v, rest);
    assert(s.skip((kb.len() + vb.len()) as int) =~= rest);
}

/// A length-delimited field is read back whole: its key, then its payload, then what
/// follows.
pub proof fn lemma_len_field_roundtrip(tag: u32, b: Seq<u8>, rest: Seq<u8>)
    requires
        1 <= tag <= MAX_TAG,
        b.len() <= u64::MAX,
    ensures
        ({
            let s = len_field_bytes(tag, b) + rest;
            let kn = key_bytes(tag, WIRE_LEN).len();
            &&& key_parse(s) == Some((tag, WIRE_LEN, kn))
            &&& len_field_parse(WIRE_LEN, s.skip(kn as int)) == Some(
                (b, varint_bytes(b.len()).len() + b.len()),
            )
            &&& kn + varint_bytes(b.len()).len() + b.len() == len_field_bytes(tag, b).len()
            &&& s.skip(len_field_bytes(tag, b).len() as int) == rest
        }),
{
    let kb = key_bytes(tag, WIRE_LEN);
    let lb = varint_bytes(b.len());
    let s = len_field_bytes(tag, b) + rest;
    assert(s =~= kb + (lb + b + rest));
    lemma_key_roundtrip(tag, WIRE_LEN, lb + b + rest);
    let r = s.skip(kb.len() as int);
    assert(r =~= lb + (b + rest));
    lemma_varint_roundtrip(b.len() as u64, b + rest);
    assert(r.subrange(lb.len() as int, (lb.len() + b.len()) as int) =~= b);
    assert(s.skip((kb.len() + lb.len() + b.len()) as int) =~= rest);
}

/// An `int64` written as a varint reads back as the same number.
pub proof fn lemma_int64_cast_roundtrip(v: i64)
    ensures
        (v as u64) as i64 == v,
{
    assert((v as u64) as i64 == v) by (bit_vector);
}

/// An `int32` written as a varint reads back as the same number.
pub proof fn lemma_int32_cast_roundtrip(v: i32)
    ensures
        (v as u64) as i32 == v,
{
    assert((v as u64) as i32 == v) by (bit_vector);
}

/// A string field is read back whole: its key, then its text, then what follows.
pub proof fn lemma_string_field_roundtrip(tag: u32, t: Seq<char>, rest: Seq<u8>)
    requires
        1 <= tag <= MAX_TAG,
        encode_utf8(t).len() <= u64::MAX,
    ensures
        ({
            let b = encode_utf8(t);
            let s = len_field_bytes(tag, b) + rest;
            let kn = key_bytes(tag, WIRE_LEN).len();
            &&& key_parse(s) == Some((tag, WIRE_LEN, kn))
            &&& string_field_parse(WIRE_LEN, s.skip(kn as int)) == Some(
                (t, varint_bytes(b.len()).len() + b.len()),
            )
            &&& kn + varint_bytes(b.len()).len() + b.len() == len_field_bytes(tag, b).len()
            &&& s.skip(len_field_bytes(tag, b).len() as int) == rest
        }),
{
    let b = encode_utf8(t);
    lemma_len_field_roundtrip(tag, b, rest);
    vstd::utf8::encode_utf8_valid_utf8(t);
    vstd::utf8::encode_utf8_decode_utf8(t);
}

/// Varints written one after another are read back one after another, up to the
/// position where they end.
pub proof fn lemma_packed_varints_roundtrip(vs: Seq<i64>, s: Seq<u8>, pos: nat, rest: Seq<u8>)
    requires
        pos <= s.len(),
        s.skip(pos as int) == varints_bytes(vs) + rest,
    ensures
        packed_varints(s, pos, pos + varints_bytes(vs).len()) == Some(
            vs.map_values(|v: i64| v as u64),
        ),
    decreases vs.len(),
{
    if vs.len() == 0 {
        assert(vs.map_values(|v: i64| v as u64) =~= Seq::<u64>::empty());
    } else {
        let head = varint_bytes((vs[0] as u64) as nat);
        let tail = varints_bytes(vs.drop_first());
        assert(s.skip(pos as int) =~= head + (tail + rest));
        lemma_varint_roundtrip(vs[0] as u64, tail + rest);
        let n = head.len();
        let t = s.skip(pos as int);
        assert(t.skip(n as int) =~= tail + rest);
        assert(s.skip((pos + n) as int) =~= t.skip(n as int));
        lemma_packed_varints_roundtrip(vs.drop_first(), s, pos + n, rest);
        assert(vs.map_values(|v: i64| v as u64) =~= seq![vs[0] as u64] + vs.drop_first().map_values(
            |v: i64| v as u64,
        ));
    }
}

/// A packed repeated `int64` field holding at least one value is read back whole.
pub proof fn lemma_packed_int64_roundtrip(tag: u32, vs: Seq<i64>, rest: Seq<u8>)
    requires
        1 <= tag <= MAX_TAG,
        vs.len() > 0,
        varints_bytes(vs).len() <= u64::MAX,
    ensures
        ({
            let b = varints_bytes(vs);
            let s = packed_int64_bytes(tag, vs) + rest;
            let kn = key_bytes(tag, WIRE_LEN).len();
            &&& key_parse(s) == Some((tag, WIRE_LEN, kn))
            &&& repeated_int64_parse(WIRE_LEN, s.skip(kn as int)) == Some(
                (vs, varint_bytes(b.len()).len() + b.len()),
            )
            &&& kn + varint_bytes(b.len()).len() + b.len() == packed_int64_bytes(tag, vs).len()
            &&& s.skip(packed_int64_bytes(tag, vs).len() as int) == rest
        }),
{
    let b = varints_bytes(vs);
    let s = packed_int64_bytes(tag, vs) + rest;
    lemma_len_field_roundtrip(tag, b, rest);
    let kn = key_bytes(tag, WIRE_LEN).len();
    let r = s.skip(kn as int);
    let lb = varint_bytes(b.len());
    assert(r =~= lb + (b + rest));
    lemma_varint_roundtrip(b.len() as u64, b + rest);
    assert(r.skip(lb.len() as int) =~= b + rest);
    lemma_packed_varints_roundtrip(vs, r, lb.len(), rest);
    let us = vs.map_values(|v: i64| v as u64);
    assert forall|i: int| 0 <= i < vs.len() implies us.map_values(|u: u64| u as i64)[i] == vs[i] by {
        lemma_int64_cast_roundtrip(vs[i]);
    }
    assert(us.map_values(|u: u64| u as i64) =~= vs);
}

/// Calls `prost::encoding::decode_key` on `buf[pos..]`. Claimed: the key is read as
/// `key_parse` states (a varint no larger than `u32::MAX`, wire type at most 5, tag at
/// least 1), and the result is the tag, the wire type's number and the count of bytes
/// left; any other input is refused.
#[verifier::external_body]
pub(crate) fn decode_key_at(buf: &[u8], pos: usize) -> (r: Result<(u32, u8, usize), prost::DecodeError>)
    requires
        pos <= buf@.len(),
    ensures
        match key_parse(buf@.skip(pos as int)) {
            Some((tag, wt, n)) => r matches Ok((t, w, rem)) && t == tag && w == wt && rem
                == buf@.len() - pos - n,
            None => r is Err,
        },
{
    let mut s: &[u8] = &buf[pos..];
    let (tag, wire_type) = prost::encoding::decode_key(&mut s)?;
    Ok((tag, wire_type as u8, s.len()))
}

/// Calls `prost::encoding::skip_field` on `buf[pos..]` for a field of the given wire
/// type and tag, the decoding context at its default depth. Claimed: the bytes skipped
/// are those `skip_field_len` states and the result is the count of bytes left; for a
/// group the count is the one named by `skip_group_len`, whose contents are not
/// stated here.
#[verifier::external_body]
pub(crate) fn skip_field_at(wire_type: u8, tag: u32, buf: &[u8], pos: usize) -> (r: Result<usize, prost::DecodeError>)
    requires
        pos <= buf@.len(),
        wire_type <= 5,
    ensures
        match skip_field_len(
            wire_type,
            buf@.skip(pos as int),
            skip_group_len(tag, buf@.skip(pos as int)),
        ) {
            Some(n) => r == Ok::<usize, prost::DecodeError>((buf@.len() - pos - n) as usize),
            None => r is Err,
        },
{
    let wt = WireType::try_from(u64::from(wire_type))?;
    let mut s: &[u8] = &buf[pos..];
    prost::encoding::skip_field(wt, tag, &mut s, DecodeContext::default())?;
    Ok(s.len())
}


/// Calls `prost::encoding::uint32::merge` on `buf[pos..]`. Claimed: a varint field is
/// read as `varint_field_parse` states, its value cut to 32 bits; the result is the
/// value and the count of bytes left.
#[verifier::external_body]
pub(crate) fn merge_uint32_at(wire_type: u8, buf: &[u8], pos: usize) -> (r: Result<(u32, usize), prost::DecodeError>)
    requires
        pos <= buf@.len(),
        wire_type <= 5,
    ensures
        match varint_field_parse(wire_type, buf@.skip(pos as int)) {
            Some((v, n)) => r matches Ok((x, rem)) && x == v as u32 && rem == buf@.len() - pos - n,
            None => r is Err,
        },
{
    let wt = WireType::try_from(u64::from(wire_type))?;
    let mut s: &[u8] = &buf[pos..];
    let mut value: u32 = 0;
    prost::encoding::uint32::merge(wt, &mut value, &mut s, DecodeContext::default())?;
    Ok((value, s.len()))
}

/// Calls `prost::encoding::int32::merge` on `buf[pos..]`. Claimed: a varint field is
/// read as `varint_field_parse` states, its value cut to a signed 32-bit integer.
#[verifier::external_body]
pub(crate) fn merge_int32_at(wire_type: u8, buf: &[u8], pos: usize) -> (r: Result<(i32, usize), prost::DecodeError>)
    requires
        pos <= buf@.len(),
        wire_type <= 5,
    ensures
        match varint_field_parse(wire_type, buf@.skip(pos as int)) {
            Some((v, n)) => r matches Ok((x, rem)) && x == v as i32 && rem == buf@.len() - pos - n,
            None => r is Err,
        },
{
    let wt = WireType::try_from(u64::from(wire_type))?;
    let mut s: &[u8] = &buf[pos..];
    let mut value: i32 = 0;
    prost::encoding::int32::merge(wt, &mut value, &mut s, DecodeContext::default())?;
    Ok((value, s.len()))
}

/// Calls `prost::encoding::int64::merge` on `buf[pos..]`. Claimed: a varint field is
/// read as `varint_field_parse` states, its value taken as a signed 64-bit integer.
#[verifier::external_body]
pub(crate) fn merge_int64_at(wire_type: u8, buf: &[u8], pos: usize) -> (r: Result<(i64, usize), prost::DecodeError>)
    requires
        pos <= buf@.len(),
        wire_type <= 5,
    ensures
        match varint_field_parse(wire_type, buf@.skip(pos as int)) {
            Some((v, n)) => r matches Ok((x, rem)) && x == v as i64 && rem == buf@.len() - pos - n,
            None => r is Err,
        },
{
    let wt = WireType::try_from(u64::from(wire_type))?;
    let mut s: &[u8] = &buf[pos..];
    let mut value: i64 = 0;
    prost::encoding::int64::merge(wt, &mut value, &mut s, DecodeContext::default())?;
    Ok((value, s.len()))
}

/// Calls `prost::encoding::bool::merge` on `buf[pos..]`. Claimed: a varint field is
/// read as `varint_field_parse` states; the value is true when the varint is not 0.
#[verifier::external_body]
pub(crate) fn merge_bool_at(wire_type: u8, buf: &[u8], pos: usize) -> (r: Result<(bool, usize), prost::DecodeError>)
    requires
        pos <= buf@.len(),
        wire_type <= 5,
    ensures
        match varint_field_parse(wire_type, buf@.skip(pos as int)) {
            Some((v, n)) => r matches Ok((x, rem)) && x == (v != 0) && rem == buf@.len() - pos - n,
            None => r is Err,
        },
{
    let wt = WireType::try_from(u64::from(wire_type))?;
    let mut s: &[u8] = &buf[pos..];
    let mut value: bool = false;
    prost::encoding::bool::merge(wt, &mut value, &mut s, DecodeContext::default())?;
    Ok((value, s.len()))
}

/// Calls `prost::encoding::bytes::merge` on `buf[pos..]` into an empty `Vec<u8>`.
/// Claimed: a length-delimited field is read as `len_field_parse` states; the result is
/// its payload and the count of bytes left.
#[verifier::external_body]
pub(crate) fn merge_bytes_at(wire_type: u8, buf: &[u8], pos: usize) -> (r: Result<(Vec<u8>, usize), prost::DecodeError>)
    requires
        pos <= buf@.len(),
        wire_type <= 5,
    ensures
        match len_field_parse(wire_type, buf@.skip(pos as int)) {
            Some((b, n)) => r matches Ok((x, rem)) && x@ == b && rem == buf@.len() - pos - n,
            None => r is Err,
        },
{
    let wt = WireType::try_from(u64::from(wire_type))?;
    let mut s: &[u8] = &buf[pos..];
    let mut value: Vec<u8> = Vec::new();
    prost::encoding::bytes::merge(wt, &mut value, &mut s, DecodeContext::default())?;
    Ok((value, s.len()))
}

/// Calls `prost::encoding::string::merge` on `buf[pos..]` into an empty `String`.
/// Claimed: a length-delimited field whose payload is UTF-8 is read as
/// `string_field_parse` states; the result is its text and the count of bytes left.
#[verifier::external_body]
pub(crate) fn merge_string_at(wire_type: u8, buf: &[u8], pos: usize) -> (r: Result<(String, usize), prost::DecodeError>)
    requires
        pos <= buf@.len(),
        wire_type <= 5,
    ensures
        match string_field_parse(wire_type, buf@.skip(pos as int)) {
            Some((t, n)) => r matches Ok((x, rem)) && x@ == t && rem == buf@.len() - pos - n,
            None => r is Err,
        },
{
    let wt = WireType::try_from(u64::from(wire_type))?;
    let mut s: &[u8] = &buf[pos..];
    let mut value = String::new();
    prost::encoding::string::merge(wt, &mut value, &mut s, DecodeContext::default())?;
    Ok((value, s.len()))
}

/// Calls `prost::encoding::int64::merge_repeated` on `buf[pos..]`. Claimed: on success
/// the values read as `repeated_int64_parse` states are appended to `values` and the
/// result is the count of bytes left; on an input that `repeated_int64_parse` refuses
/// the result is an error, and what `values` then holds is not stated.
#[verifier::external_body]
pub(crate) fn merge_repeated_int64_at(wire_type: u8, values: &mut Vec<i64>, buf: &[u8], pos: usize) -> (r:
    Result<usize, prost::DecodeError>)
    requires
        pos <= buf@.len(),
        wire_type <= 5,
    ensures
        match repeated_int64_parse(wire_type, buf@.skip(pos as int)) {
            Some((vs, n)) => r == Ok::<usize, prost::DecodeError>((buf@.len() - pos - n) as usize)
                && final(values)@ == old(values)@ + vs,
            None => r is Err,
        },
{
    let wt = WireType::try_from(u64::from(wire_type))?;
    let mut s: &[u8] = &buf[pos..];
    prost::encoding::int64::merge_repeated(wt, values, &mut s, DecodeContext::default())?;
    Ok(s.len())
}

/// Calls `prost::DecodeError::push`, which records the message and field where decoding
/// failed in the error's description. Nothing is claimed of the error.
#[verifier::external_body]
pub(crate) fn with_field_context(error: prost::DecodeError, message: &'static str, field: &'static str) -> prost::DecodeError {
    let mut error = error;
    error.push(message, field);
    error
}

/// Calls `prost::encoding::uint32::encode`. Claimed: the key and the varint of `value`
/// are appended to `buf`.
#[verifier::external_body]
pub(crate) fn encode_uint32_field(tag: u32, value: u32, buf: &mut Vec<u8>)
    requires
        1 <= tag <= MAX_TAG,
    ensures
        final(buf)@ == old(buf)@ + varint_field_bytes(tag, value as nat),
{
    prost::encoding::uint32::encode(tag, &value, buf);
}

/// Calls `prost::encoding::int32::encode`. Claimed: the key and the varint of `value`
/// taken as a 64-bit two's complement number are appended to `buf`.
#[verifier::external_body]
pub(crate) fn encode_int32_field(tag: u32, value: i32, buf: &mut Vec<u8>)
    requires
        1 <= tag <= MAX_TAG,
    ensures
        final(buf)@ == old(buf)@ + varint_field_bytes(tag, (value as u64) as nat),
{
    prost::encoding::int32::encode(tag, &value, buf);
}

/// Calls `prost::encoding::int64::encode`. Claimed: the key and the varint of `value`
/// taken as a 64-bit two's complement number are appended to `buf`.
#[verifier::external_body]
pub(crate) fn encode_int64_field(tag: u32, value: i64, buf: &mut Vec<u8>)
    requires
        1 <= tag <= MAX_TAG,
    ensures
        final(buf)@ == old(buf)@ + varint_field_bytes(tag, (value as u64) as nat),
{
    prost::encoding::int64::encode(tag, &value, buf);
}

/// Calls `prost::encoding::bool::encode`. Claimed: the key and the varint 1 or 0 are
/// appended to `buf`.
#[verifier::external_body]
pub(crate) fn encode_bool_field(tag: u32, value: bool, buf: &mut Vec<u8>)
    requires
        1 <= tag <= MAX_TAG,
    ensures
        final(buf)@ == old(buf)@ + varint_field_bytes(tag, if value { 1nat } else { 0nat }),
{
    prost::encoding::bool::encode(tag, &value, buf);
}

/// Calls `prost::encoding::bytes::encode`. Claimed: the key, the varint of the length
/// and the bytes of `value` are appended to `buf`.
#[verifier::external_body]
pub(crate) fn encode_bytes_field(tag: u32, value: &Vec<u8>, buf: &mut Vec<u8>)
    requires
        1 <= tag <= MAX_TAG,
    ensures
        final(buf)@ == old(buf)@ + len_field_bytes(tag, value@),
{
    prost::encoding::bytes::encode(tag, value, buf);
}

/// Calls `prost::encoding::string::encode`. Claimed: the key, the varint of the length
/// and the UTF-8 bytes of `value` are appended to `buf`.
#[verifier::external_body]
pub(crate) fn encode_string_field(tag: u32, value: &String, buf: &mut Vec<u8>)
    requires
        1 <= tag <= MAX_TAG,
    ensures
        final(buf)@ == old(buf)@ + len_field_bytes(tag, encode_utf8(value@)),
{
    prost::encoding::string::encode(tag, value, buf);
}

/// Calls `prost::encoding::int64::encode_packed`. Claimed: nothing is appended for no
/// values; otherwise one length-delimited field holding the varints of all values.
#[verifier::external_body]
pub(crate) fn encode_packed_int64_field(tag: u32, values: &Vec<i64>, buf: &mut Vec<u8>)
    requires
        1 <= tag <= MAX_TAG,
    ensures
        final(buf)@ == old(buf)@ + packed_int64_bytes(tag, values@),
{
    prost::encoding::int64::encode_packed(tag, values, buf);
}

} // verus!
