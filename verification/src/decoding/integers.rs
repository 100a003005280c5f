//! Integers in LEB128 and floating-point values in little-endian order.

use vstd::prelude::*;
use vstd::arithmetic::power2::pow2;
use vstd::arithmetic::power2::lemma2_to64;
use vstd::arithmetic::power2::lemma2_to64_rest;
use vstd::arithmetic::power2::lemma_pow2_adds;
use vstd::arithmetic::power2::lemma_pow2_pos;
use crate::decoding::outcome::DecodeError;
use crate::decoding::outcome::Decoded;
use crate::decoding::outcome::Parsed;
use crate::decoding::outcome::advance;
use crate::decoding::outcome::decodes_to;
use crate::structure::types::F32;
use crate::structure::types::F64;

verus! {

/// An unsigned integer of at most `bits` bits in LEB128.
///
/// A byte below 2^7 ends the integer and is its value, if it is below
/// 2^`bits`. A byte from 2^7 on gives the low seven bits and is followed by an
/// integer of `bits - 7` bits, which gives the rest; there is no such byte
/// when `bits` is 7 or less.
pub open spec fn spec_un(s: Seq<u8>, bits: nat) -> Parsed<nat>
    decreases bits,
{
    if s.len() == 0 {
        Err(DecodeError::MalformedFormat)
    } else if s[0] < 0x80 {
        if s[0] < pow2(bits) {
            Ok((s.skip(1), s[0] as nat))
        } else {
            Err(DecodeError::MalformedInteger)
        }
    } else if bits > 7 {
        match spec_un(s.skip(1), (bits - 7) as nat) {
            Ok((rest, m)) => Ok((rest, (0x80 * m + (s[0] - 0x80)) as nat)),
            Err(e) => Err(e),
        }
    } else {
        Err(DecodeError::MalformedInteger)
    }
}

/// A signed integer of at most `bits` bits in LEB128.
///
/// A byte below 2^6 ends the integer and is its value, if it is below
/// 2^(`bits` - 1). A byte `n` from 2^6 up to 2^7 ends it with the negative
/// value `n - 2^7`, if that is at least -2^(`bits` - 1). A byte from 2^7 on
/// gives the low seven bits and is followed by a signed integer of
/// `bits - 7` bits; there is no such byte when `bits` is 7 or less.
pub open spec fn spec_sn(s: Seq<u8>, bits: nat) -> Parsed<int>
    decreases bits,
{
    if s.len() == 0 {
        Err(DecodeError::MalformedFormat)
    } else if s[0] < 0x40 {
        if bits >= 1 && s[0] < pow2((bits - 1) as nat) {
            Ok((s.skip(1), s[0] as int))
        } else {
            Err(DecodeError::MalformedInteger)
        }
    } else if s[0] < 0x80 {
        if bits >= 1 && s[0] >= 0x80 - pow2((bits - 1) as nat) {
            Ok((s.skip(1), s[0] - 0x80))
        } else {
            Err(DecodeError::MalformedInteger)
        }
    } else if bits > 7 {
        match spec_sn(s.skip(1), (bits - 7) as nat) {
            Ok((rest, m)) => Ok((rest, 0x80 * m + (s[0] - 0x80))),
            Err(e) => Err(e),
        }
    } else {
        Err(DecodeError::MalformedInteger)
    }
}

/// A decoded unsigned integer of `bits` bits is below 2^`bits`.
pub proof fn lemma_un_bound(s: Seq<u8>, bits: nat)
    ensures
        spec_un(s, bits) matches Ok((rest, v)) ==> v < pow2(bits),
    decreases bits,
{
    if s.len() > 0 && s[0] >= 0x80 && bits > 7 {
        lemma_un_bound(s.skip(1), (bits - 7) as nat);
        lemma_pow2_adds(7, (bits - 7) as nat);
        lemma2_to64();
    }
}

/// A decoded signed integer of `bits` bits lies in -2^(`bits`-1) .. 2^(`bits`-1).
pub proof fn lemma_sn_bound(s: Seq<u8>, bits: nat)
    ensures
        spec_sn(s, bits) matches Ok((rest, v)) ==> bits >= 1 && -pow2((bits - 1) as nat) <= v
            < pow2((bits - 1) as nat),
    decreases bits,
{
    if s.len() > 0 && s[0] >= 0x80 && bits > 7 {
        lemma_sn_bound(s.skip(1), (bits - 7) as nat);
        lemma_pow2_adds(7, (bits - 8) as nat);
        lemma2_to64();
    }
}

/// An unsigned 32-bit integer.
pub open spec fn spec_u32(s: Seq<u8>) -> Parsed<u32> {
    match spec_un(s, 32) {
        Ok((rest, v)) => Ok((rest, v as u32)),
        Err(e) => Err(e),
    }
}

/// An unsigned 64-bit integer.
pub open spec fn spec_u64(s: Seq<u8>) -> Parsed<u64> {
    match spec_un(s, 64) {
        Ok((rest, v)) => Ok((rest, v as u64)),
        Err(e) => Err(e),
    }
}

/// A signed 32-bit integer.
pub open spec fn spec_s32(s: Seq<u8>) -> Parsed<i32> {
    match spec_sn(s, 32) {
        Ok((rest, v)) => Ok((rest, v as i32)),
        Err(e) => Err(e),
    }
}

/// A signed 64-bit integer.
pub open spec fn spec_s64(s: Seq<u8>) -> Parsed<i64> {
    match spec_sn(s, 64) {
        Ok((rest, v)) => Ok((rest, v as i64)),
        Err(e) => Err(e),
    }
}

/// The unsigned integer of `bits` bits with the same bit pattern as `v` has
/// in two's complement.
pub open spec fn twos_complement(v: int, bits: nat) -> int {
    if v < 0 {
        v + pow2(bits)
    } else {
        v
    }
}

/// An uninterpreted 32-bit integer: written signed, kept as its bit pattern.
pub open spec fn spec_i32(s: Seq<u8>) -> Parsed<u32> {
    match spec_sn(s, 32) {
        Ok((rest, v)) => Ok((rest, twos_complement(v, 32) as u32)),
        Err(e) => Err(e),
    }
}

/// An uninterpreted 64-bit integer: written signed, kept as its bit pattern.
pub open spec fn spec_i64(s: Seq<u8>) -> Parsed<u64> {
    match spec_sn(s, 64) {
        Ok((rest, v)) => Ok((rest, twos_complement(v, 64) as u64)),
        Err(e) => Err(e),
    }
}

/// 2^`e` for an exponent below 7.
fn pow2_small(e: u32) -> (r: u8)
    requires
        e < 7,
    ensures
        r == pow2(e as nat),
{
    proof {
        lemma2_to64();
    }
    if e == 0 {
        1
    } else if e == 1 {
        2
    } else if e == 2 {
        4
    } else if e == 3 {
        8
    } else if e == 4 {
        16
    } else if e == 5 {
        32
    } else {
        64
    }
}

/// Decodes an unsigned LEB128 integer of at most `bits` bits.
fn parse_un<'a>(input: &'a [u8], bits: u32) -> (r: Decoded<'a, u64>)
    requires
        bits <= 64,
    ensures
        match spec_un(input@, bits as nat) {
            Ok((rest, v)) => r matches Ok((got, x)) && got@ == rest && x == v,
            Err(e) => r == Err::<(&[u8], u64), DecodeError>(e),
        },
    decreases bits,
{
    if input.len() == 0 {
        return Err(DecodeError::MalformedFormat);
    }
    let n: u8 = input[0];
    let rest = advance(input, 1);
    proof {
        lemma2_to64();
        if bits >= 7 {
            lemma_pow2_adds(7, (bits - 7) as nat);
            lemma_pow2_pos((bits - 7) as nat);
        }
    }
    if n < 0x80 {
        if bits >= 7 || n < pow2_small(bits) {
            Ok((rest, n as u64))
        } else {
            Err(DecodeError::MalformedInteger)
        }
    } else if bits > 7 {
        match parse_un(rest, bits - 7) {
            Ok((rest2, m)) => {
                proof {
                    lemma_un_bound(rest@, (bits - 7) as nat);
                    lemma_pow2_adds((bits - 7) as nat, (64 - bits) as nat);
                    lemma_pow2_pos((64 - bits) as nat);
                    lemma2_to64_rest();
                    assert(pow2((bits - 7) as nat) <= pow2(57)) by (nonlinear_arith)
                        requires
                            pow2((bits - 7) as nat) * pow2((64 - bits) as nat) == pow2(57),
                            pow2((64 - bits) as nat) >= 1,
                            pow2((bits - 7) as nat) >= 0,
                    ;
                }
                Ok((rest2, 0x80 * m + (n - 0x80) as u64))
            },
            Err(e) => Err(e),
        }
    } else {
        Err(DecodeError::MalformedInteger)
    }
}

/// Decodes a signed LEB128 integer of at most `bits` bits.
fn parse_sn<'a>(input: &'a [u8], bits: u32) -> (r: Decoded<'a, i64>)
    requires
        bits <= 64,
    ensures
        match spec_sn(input@, bits as nat) {
            Ok((rest, v)) => r matches Ok((got, x)) && got@ == rest && x == v,
            Err(e) => r == Err::<(&[u8], i64), DecodeError>(e),
        },
    decreases bits,
{
    if input.len() == 0 {
        return Err(DecodeError::MalformedFormat);
    }
    let n: u8 = input[0];
    let rest = advance(input, 1);
    proof {
        lemma2_to64();
        if bits >= 7 {
            lemma_pow2_adds(7, (bits - 7) as nat);
            lemma_pow2_pos((bits - 7) as nat);
        }
        if bits >= 8 {
            lemma_pow2_adds(7, (bits - 8) as nat);
            lemma_pow2_pos((bits - 8) as nat);
        }
    }
    if n < 0x40 {
        if bits >= 7 || (bits >= 1 && n < pow2_small(bits - 1)) {
            Ok((rest, n as i64))
        } else {
            Err(DecodeError::MalformedInteger)
        }
    } else if n < 0x80 {
        if bits >= 7 || (bits >= 1 && n >= 0x80 - pow2_small(bits - 1)) {
            Ok((rest, n as i64 - 0x80))
        } else {
            Err(DecodeError::MalformedInteger)
        }
    } else if bits > 7 {
        match parse_sn(rest, bits - 7) {
            Ok((rest2, m)) => {
                proof {
                    lemma_sn_bound(rest@, (bits - 7) as nat);
                    lemma_pow2_adds((bits - 8) as nat, (64 - bits) as nat);
                    lemma_pow2_pos((64 - bits) as nat);
                    lemma2_to64_rest();
                    assert(pow2((bits - 8) as nat) <= pow2(56)) by (nonlinear_arith)
                        requires
                            pow2((bits - 8) as nat) * pow2((64 - bits) as nat) == pow2(56),
                            pow2((64 - bits) as nat) >= 1,
                            pow2((bits - 8) as nat) >= 0,
                    ;
                }
                Ok((rest2, 0x80 * m + (n as i64 - 0x80)))
            },
            Err(e) => Err(e),
        }
    } else {
        Err(DecodeError::MalformedInteger)
    }
}

/// Decodes an unsigned 32-bit integer.
pub fn parse_u32<'a>(input: &'a [u8]) -> (r: Decoded<'a, u32>)
    ensures
        decodes_to(r, spec_u32(input@)),
{
    proof {
        lemma_un_bound(input@, 32);
        lemma2_to64();
    }
    match parse_un(input, 32) {
        Ok((rest, v)) => Ok((rest, v as u32)),
        Err(e) => Err(e),
    }
}

/// Decodes an unsigned 64-bit integer.
pub fn parse_u64<'a>(input: &'a [u8]) -> (r: Decoded<'a, u64>)
    ensures
        decodes_to(r, spec_u64(input@)),
{
    parse_un(input, 64)
}

/// Decodes a signed 32-bit integer.
pub fn parse_s32<'a>(input: &'a [u8]) -> (r: Decoded<'a, i32>)
    ensures
        decodes_to(r, spec_s32(input@)),
{
    proof {
        lemma_sn_bound(input@, 32);
        lemma2_to64();
    }
    match parse_sn(input, 32) {
        Ok((rest, v)) => Ok((rest, v as i32)),
        Err(e) => Err(e),
    }
}

/// Decodes a signed 64-bit integer.
pub fn parse_s64<'a>(input: &'a [u8]) -> (r: Decoded<'a, i64>)
    ensures
        decodes_to(r, spec_s64(input@)),
{
    parse_sn(input, 64)
}

/// Decodes an uninterpreted 32-bit integer.
pub fn parse_i32<'a>(input: &'a [u8]) -> (r: Decoded<'a, u32>)
    ensures
        decodes_to(r, spec_i32(input@)),
{
    proof {
        lemma_sn_bound(input@, 32);
        lemma2_to64();
    }
    match parse_sn(input, 32) {
        Ok((rest, v)) => {
            let u: u32 = if v < 0 {
                (v + 0x1_0000_0000) as u32
            } else {
                v as u32
            };
            Ok((rest, u))
        },
        Err(e) => Err(e),
    }
}

/// Decodes an uninterpreted 64-bit integer.
pub fn parse_i64<'a>(input: &'a [u8]) -> (r: Decoded<'a, u64>)
    ensures
        decodes_to(r, spec_i64(input@)),
{
    proof {
        lemma_sn_bound(input@, 64);
        lemma2_to64();
        lemma2_to64_rest();
    }
    match parse_sn(input, 64) {
        Ok((rest, v)) => {
            let u: u64 = if v < 0 {
                (v + 0x7FFF_FFFF_FFFF_FFFF + 1) as u64 + 0x8000_0000_0000_0000
            } else {
                v as u64
            };
            Ok((rest, u))
        },
        Err(e) => Err(e),
    }
}

/// An unsigned integer fails only with `MalformedFormat`, where the input
/// ends before the integer does, or with `MalformedInteger`.
pub proof fn lemma_un_errors(s: Seq<u8>, bits: nat)
    ensures
        spec_un(s, bits) matches Err(e) ==> e == DecodeError::MalformedFormat || e
            == DecodeError::MalformedInteger,
    decreases bits,
{
    if s.len() > 0 && s[0] >= 0x80 && bits > 7 {
        lemma_un_errors(s.skip(1), (bits - 7) as nat);
    }
}

/// What is left after an integer is shorter than the input.
pub proof fn lemma_un_consumes(s: Seq<u8>, bits: nat)
    ensures
        spec_un(s, bits) matches Ok((rest, v)) ==> rest.len() < s.len(),
    decreases bits,
{
    if s.len() > 0 && s[0] >= 0x80 && bits > 7 {
        lemma_un_consumes(s.skip(1), (bits - 7) as nat);
    }
}

/// What is left after a signed integer is shorter than the input.
pub proof fn lemma_sn_consumes(s: Seq<u8>, bits: nat)
    ensures
        spec_sn(s, bits) matches Ok((rest, v)) ==> rest.len() < s.len(),
    decreases bits,
{
    if s.len() > 0 && s[0] >= 0x80 && bits > 7 {
        lemma_sn_consumes(s.skip(1), (bits - 7) as nat);
    }
}

/// The shortest LEB128 form of an unsigned integer: seven bits to a byte, low
/// bits first, every byte but the last marked with 2^7.
pub open spec fn spec_encode_un(v: nat) -> Seq<u8>
    decreases v,
{
    if v < 0x80 {
        seq![v as u8]
    } else {
        seq![(v % 0x80 + 0x80) as u8] + spec_encode_un(v / 0x80)
    }
}

/// The shortest LEB128 form of a signed integer: seven bits to a byte, low
/// bits first, until what is left is only the sign.
pub open spec fn spec_encode_sn(v: int) -> Seq<u8>
    decreases
            (if v >= 0 {
                v
            } else {
                -v
            }),
{
    if -0x40 <= v < 0x40 {
        seq![(v % 0x80) as u8]
    } else {
        seq![(v % 0x80 + 0x80) as u8] + spec_encode_sn(v / 0x80)
    }
}

/// The number that the low seven bits of each byte of `s` spell, the first
/// byte being the lowest digit.
pub open spec fn low_bits_sum(s: Seq<u8>) -> nat
    decreases s.len(),
{
    if s.len() == 0 {
        0
    } else {
        (s[0] % 0x80 + 0x80 * low_bits_sum(s.skip(1))) as nat
    }
}

/// A decoded unsigned integer is what the low seven bits of its bytes
/// spell, and its last byte is the first byte below 2^7.
pub proof fn lemma_un_value(s: Seq<u8>, bits: nat)
    ensures
        spec_un(s, bits) matches Ok((rest, v)) ==> {
            let k = s.len() - rest.len();
            &&& 0 < k <= s.len()
            &&& rest == s.skip(k)
            &&& v == low_bits_sum(s.take(k))
            &&& s[k - 1] < 0x80
            &&& forall|i: int| 0 <= i < k - 1 ==> s[i] >= 0x80
        },
    decreases bits,
{
    if let Ok((rest, v)) = spec_un(s, bits) {
        let k = s.len() - rest.len();
        if s[0] < 0x80 {
            assert(s.take(1).skip(1) =~= Seq::<u8>::empty());
            assert(low_bits_sum(s.take(1).skip(1)) == 0);
        } else {
            let t = s.skip(1);
            lemma_un_value(t, (bits - 7) as nat);
            assert(rest == t.skip(k - 1));
            assert(t.skip(k - 1) =~= s.skip(k));
            assert(s.take(k).skip(1) =~= t.take(k - 1));
            assert forall|i: int| 0 <= i < k - 1 implies s[i] >= 0x80 by {
                if i > 0 {
                    assert(t[i - 1] >= 0x80);
                }
            }
        }
    }
}

/// No byte sequence that decodes to `v` is shorter than the shortest form
/// of `v`.
pub proof fn lemma_un_shortest(s: Seq<u8>, bits: nat)
    ensures
        spec_un(s, bits) matches Ok((rest, v)) ==> spec_encode_un(v).len() <= s.len() - rest.len(),
    decreases bits,
{
    if let Ok((rest, v)) = spec_un(s, bits) {
        lemma_un_consumes(s, bits);
        if s[0] >= 0x80 {
            lemma_un_shortest(s.skip(1), (bits - 7) as nat);
        }
    }
}

/// No byte sequence that decodes to the signed `v` is shorter than the
/// shortest form of `v`.
pub proof fn lemma_sn_shortest(s: Seq<u8>, bits: nat)
    ensures
        spec_sn(s, bits) matches Ok((rest, v)) ==> spec_encode_sn(v).len() <= s.len() - rest.len(),
    decreases bits,
{
    if let Ok((rest, v)) = spec_sn(s, bits) {
        lemma_sn_consumes(s, bits);
        if s[0] >= 0x80 {
            lemma_sn_shortest(s.skip(1), (bits - 7) as nat);
        }
    }
}

/// Decoding the shortest form of `v`, whatever follows it, gives `v` back and
/// leaves what follows, for every width that `v` fits.
pub proof fn lemma_un_round_trip(v: nat, bits: nat, rest: Seq<u8>)
    requires
        v < pow2(bits),
    ensures
        spec_un(spec_encode_un(v) + rest, bits) == Ok::<(Seq<u8>, nat), DecodeError>((rest, v)),
    decreases v,
{
    let s = spec_encode_un(v) + rest;
    lemma2_to64();
    if v < 0x80 {
        assert(s[0] == v);
        assert(s.skip(1) =~= rest);
    } else {
        if bits <= 7 {
            lemma_pow2_adds(bits, (7 - bits) as nat);
            lemma_pow2_pos((7 - bits) as nat);
            assert(pow2(bits) <= 0x80) by (nonlinear_arith)
                requires
                    pow2(bits) * pow2((7 - bits) as nat) == 0x80,
                    pow2((7 - bits) as nat) >= 1,
            ;
        }
        lemma_pow2_adds(7, (bits - 7) as nat);
        assert(s[0] == v % 0x80 + 0x80);
        assert(s.skip(1) =~= spec_encode_un(v / 0x80) + rest);
        lemma_un_round_trip(v / 0x80, (bits - 7) as nat, rest);
    }
}

/// Decoding the shortest form of a signed `v`, whatever follows it, gives `v`
/// back and leaves what follows, for every width that `v` fits.
pub proof fn lemma_sn_round_trip(v: int, bits: nat, rest: Seq<u8>)
    requires
        bits >= 1,
        -pow2((bits - 1) as nat) <= v < pow2((bits - 1) as nat),
    ensures
        spec_sn(spec_encode_sn(v) + rest, bits) == Ok::<(Seq<u8>, int), DecodeError>((rest, v)),
    decreases
            (if v >= 0 {
                v
            } else {
                -v
            }),
{
    let s = spec_encode_sn(v) + rest;
    lemma2_to64();
    if -0x40 <= v < 0x40 {
        assert(s[0] == v % 0x80);
        assert(s.skip(1) =~= rest);
    } else {
        if bits <= 7 {
            lemma_pow2_adds((bits - 1) as nat, (7 - bits) as nat);
            lemma_pow2_pos((7 - bits) as nat);
            assert(pow2((bits - 1) as nat) <= 0x40) by (nonlinear_arith)
                requires
                    pow2((bits - 1) as nat) * pow2((7 - bits) as nat) == 0x40,
                    pow2((7 - bits) as nat) >= 1,
            ;
        }
        lemma_pow2_adds(7, (bits - 8) as nat);
        assert(s[0] == v % 0x80 + 0x80);
        assert(s.skip(1) =~= spec_encode_sn(v / 0x80) + rest);
        lemma_sn_round_trip(v / 0x80, (bits - 7) as nat, rest);
    }
}

/// An unsigned 32-bit integer in its shortest form decodes to itself.
pub proof fn lemma_u32_round_trip(v: u32, rest: Seq<u8>)
    ensures
        spec_u32(spec_encode_un(v as nat) + rest) == Ok::<(Seq<u8>, u32), DecodeError>((rest, v)),
{
    lemma2_to64();
    lemma_un_round_trip(v as nat, 32, rest);
}

/// An unsigned 64-bit integer in its shortest form decodes to itself.
pub proof fn lemma_u64_round_trip(v: u64, rest: Seq<u8>)
    ensures
        spec_u64(spec_encode_un(v as nat) + rest) == Ok::<(Seq<u8>, u64), DecodeError>((rest, v)),
{
    lemma2_to64();
    lemma_un_round_trip(v as nat, 64, rest);
}

/// A signed 32-bit integer in its shortest form decodes to itself.
pub proof fn lemma_s32_round_trip(v: i32, rest: Seq<u8>)
    ensures
        spec_s32(spec_encode_sn(v as int) + rest) == Ok::<(Seq<u8>, i32), DecodeError>((rest, v)),
{
    lemma2_to64();
    lemma_sn_round_trip(v as int, 32, rest);
}

/// A signed 64-bit integer in its shortest form decodes to itself.
pub proof fn lemma_s64_round_trip(v: i64, rest: Seq<u8>)
    ensures
        spec_s64(spec_encode_sn(v as int) + rest) == Ok::<(Seq<u8>, i64), DecodeError>((rest, v)),
{
    lemma2_to64();
    lemma2_to64_rest();
    lemma_sn_round_trip(v as int, 64, rest);
}

/// Encodes an unsigned integer in as few bytes as LEB128 allows.
pub fn encode_u64(v: u64) -> (r: Vec<u8>)
    ensures
        r@ == spec_encode_un(v as nat),
{
    let mut out: Vec<u8> = Vec::new();
    let mut x: u64 = v;
    while x >= 0x80
        invariant
            spec_encode_un(v as nat) == out@ + spec_encode_un(x as nat),
        decreases x,
    {
        let b: u8 = (x % 0x80 + 0x80) as u8;
        proof {
            assert(out@ + (seq![b] + spec_encode_un((x / 0x80) as nat)) =~= out@.push(b)
                + spec_encode_un((x / 0x80) as nat));
        }
        out.push(b);
        x = x / 0x80;
    }
    proof {
        assert(out@ + seq![x as u8] =~= out@.push(x as u8));
    }
    out.push(x as u8);
    out
}

/// Encodes an unsigned 32-bit integer in as few bytes as LEB128 allows.
pub fn encode_u32(v: u32) -> (r: Vec<u8>)
    ensures
        r@ == spec_encode_un(v as nat),
{
    encode_u64(v as u64)
}

/// Encodes a signed integer in as few bytes as LEB128 allows.
pub fn encode_s64(v: i64) -> (r: Vec<u8>)
    ensures
        r@ == spec_encode_sn(v as int),
{
    let mut out: Vec<u8> = Vec::new();
    let mut x: i64 = v;
    while x < -0x40 || x >= 0x40
        invariant
            spec_encode_sn(v as int) == out@ + spec_encode_sn(x as int),
        decreases
                (if x >= 0 {
                    x as int
                } else {
                    -(x as int)
                }),
    {
        let low: i64;
        let high: i64;
        if x >= 0 {
            low = x % 0x80;
            high = x / 0x80;
        } else {
            let w: i64 = -(x + 1);
            low = 0x7F - w % 0x80;
            high = -(w / 0x80) - 1;
        }
        assert(low == (x as int) % 0x80 && high == (x as int) / 0x80);
        let b: u8 = (low + 0x80) as u8;
        proof {
            assert(out@ + (seq![b] + spec_encode_sn(high as int)) =~= out@.push(b)
                + spec_encode_sn(high as int));
        }
        out.push(b);
        x = high;
    }
    let last: u8 = if x >= 0 {
        x as u8
    } else {
        (x + 0x80) as u8
    };
    proof {
        assert(out@ + seq![last] =~= out@.push(last));
    }
    out.push(last);
    out
}

/// Encodes a signed 32-bit integer in as few bytes as LEB128 allows.
pub fn encode_s32(v: i32) -> (r: Vec<u8>)
    ensures
        r@ == spec_encode_sn(v as int),
{
    encode_s64(v as i64)
}

/// The number whose little-endian bytes are the first four of `s`.
pub open spec fn le_u32(s: Seq<u8>) -> u32
    recommends
        s.len() >= 4,
{
    (s[0] + 0x100 * s[1] + 0x1_0000 * s[2] + 0x100_0000 * s[3]) as u32
}

/// The number whose little-endian bytes are the first eight of `s`.
pub open spec fn le_u64(s: Seq<u8>) -> u64
    recommends
        s.len() >= 8,
{
    (le_u32(s) + 0x1_0000_0000 * le_u32(s.skip(4))) as u64
}

/// The four bytes of `v`, lowest first.
pub open spec fn spec_le_bytes_u32(v: u32) -> Seq<u8> {
    seq![
        (v % 0x100) as u8,
        (v / 0x100 % 0x100) as u8,
        (v / 0x1_0000 % 0x100) as u8,
        (v / 0x100_0000) as u8,
    ]
}

/// The eight bytes of `v`, lowest first.
pub open spec fn spec_le_bytes_u64(v: u64) -> Seq<u8> {
    spec_le_bytes_u32((v % 0x1_0000_0000) as u32) + spec_le_bytes_u32((v / 0x1_0000_0000) as u32)
}

/// A 32-bit floating-point value: four bytes, lowest first, taken as they are.
pub open spec fn spec_f32(s: Seq<u8>) -> Parsed<F32> {
    if s.len() >= 4 {
        Ok((s.skip(4), F32 { bits: le_u32(s) }))
    } else {
        Err(DecodeError::MalformedFormat)
    }
}

/// A 64-bit floating-point value: eight bytes, lowest first, taken as they
/// are.
pub open spec fn spec_f64(s: Seq<u8>) -> Parsed<F64> {
    if s.len() >= 8 {
        Ok((s.skip(8), F64 { bits: le_u64(s) }))
    } else {
        Err(DecodeError::MalformedFormat)
    }
}

/// Reads four bytes as a little-endian number.
fn read_le_u32(input: &[u8]) -> (r: u32)
    requires
        input@.len() >= 4,
    ensures
        r == le_u32(input@),
{
    let b0: u32 = input[0] as u32;
    let b1: u32 = input[1] as u32;
    let b2: u32 = input[2] as u32;
    let b3: u32 = input[3] as u32;
    b0 + 0x100 * b1 + 0x1_0000 * b2 + 0x100_0000 * b3
}

/// Decodes a 32-bit floating-point value, bit for bit.
pub fn parse_f32<'a>(input: &'a [u8]) -> (r: Decoded<'a, F32>)
    ensures
        decodes_to(r, spec_f32(input@)),
{
    if input.len() >= 4 {
        let bits = read_le_u32(input);
        Ok((advance(input, 4), F32::from_bits(bits)))
    } else {
        Err(DecodeError::MalformedFormat)
    }
}

/// Decodes a 64-bit floating-point value, bit for bit.
pub fn parse_f64<'a>(input: &'a [u8]) -> (r: Decoded<'a, F64>)
    ensures
        decodes_to(r, spec_f64(input@)),
{
    if input.len() >= 8 {
        let low: u64 = read_le_u32(input) as u64;
        let high: u64 = read_le_u32(advance(input, 4)) as u64;
        Ok((advance(input, 8), F64::from_bits(low + 0x1_0000_0000 * high)))
    } else {
        Err(DecodeError::MalformedFormat)
    }
}

/// The four bytes of `v`, lowest first.
fn le_bytes_u32(v: u32, out: &mut Vec<u8>)
    ensures
        final(out)@ == old(out)@ + spec_le_bytes_u32(v),
{
    out.push((v % 0x100) as u8);
    out.push((v / 0x100 % 0x100) as u8);
    out.push((v / 0x1_0000 % 0x100) as u8);
    out.push((v / 0x100_0000) as u8);
    assert(out@ =~= old(out)@ + spec_le_bytes_u32(v));
}

/// Encodes a 32-bit floating-point value, bit for bit.
pub fn encode_f32(z: F32) -> (r: Vec<u8>)
    ensures
        r@ == spec_le_bytes_u32(z.bits),
{
    let mut out: Vec<u8> = Vec::new();
    le_bytes_u32(z.to_bits(), &mut out);
    assert(out@ =~= spec_le_bytes_u32(z.bits));
    out
}

/// Encodes a 64-bit floating-point value, bit for bit.
pub fn encode_f64(z: F64) -> (r: Vec<u8>)
    ensures
        r@ == spec_le_bytes_u64(z.bits),
{
    let mut out: Vec<u8> = Vec::new();
    let bits = z.to_bits();
    le_bytes_u32((bits % 0x1_0000_0000) as u32, &mut out);
    le_bytes_u32((bits / 0x1_0000_0000) as u32, &mut out);
    assert(out@ =~= spec_le_bytes_u64(z.bits));
    out
}

/// Every 32-bit pattern, NaN payloads included, comes back from its bytes
/// unchanged.
pub proof fn lemma_f32_round_trip(z: F32, rest: Seq<u8>)
    ensures
        spec_f32(spec_le_bytes_u32(z.bits) + rest) == Ok::<(Seq<u8>, F32), DecodeError>((rest, z)),
{
    let s = spec_le_bytes_u32(z.bits) + rest;
    assert(s.skip(4) =~= rest);
    lemma_le_u32_round_trip(z.bits, rest);
}

/// Every 64-bit pattern, NaN payloads included, comes back from its bytes
/// unchanged.
pub proof fn lemma_f64_round_trip(z: F64, rest: Seq<u8>)
    ensures
        spec_f64(spec_le_bytes_u64(z.bits) + rest) == Ok::<(Seq<u8>, F64), DecodeError>((rest, z)),
{
    let low = (z.bits % 0x1_0000_0000) as u32;
    let high = (z.bits / 0x1_0000_0000) as u32;
    let s = spec_le_bytes_u64(z.bits) + rest;
    assert(s.skip(8) =~= rest);
    assert(s =~= spec_le_bytes_u32(low) + (spec_le_bytes_u32(high) + rest));
    lemma_le_u32_round_trip(low, spec_le_bytes_u32(high) + rest);
    assert(s.skip(4) =~= spec_le_bytes_u32(high) + rest);
    lemma_le_u32_round_trip(high, rest);
}

/// The little-endian bytes of `v` stand for `v`.
pub proof fn lemma_le_u32_round_trip(v: u32, rest: Seq<u8>)
    ensures
        le_u32(spec_le_bytes_u32(v) + rest) == v,
{
    let s = spec_le_bytes_u32(v) + rest;
    assert(s[0] == v % 0x100);
    assert(s[1] == v / 0x100 % 0x100);
    assert(s[2] == v / 0x1_0000 % 0x100);
    assert(s[3] == v / 0x100_0000);
}

} // verus!
