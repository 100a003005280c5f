//! Vectors, names, types, sections and custom sections.

use vstd::prelude::*;
use vstd::slice::slice_subrange;
use vstd::slice::slice_to_vec;
use vstd::utf8::decode_utf8;
use vstd::utf8::valid_utf8;
use crate::decoding::integers::lemma_u32_round_trip;
use crate::decoding::integers::lemma_un_consumes;
use crate::decoding::integers::lemma_un_errors;
use crate::decoding::integers::spec_encode_un;
use crate::decoding::integers::parse_u32;
use crate::decoding::integers::spec_u32;
use crate::decoding::outcome::advance;
use crate::decoding::outcome::computes;
use crate::decoding::outcome::decodes_to;
use crate::decoding::outcome::decodes_to_seq;
use crate::decoding::outcome::parse_byte;
use crate::decoding::outcome::parse_tag;
use crate::decoding::outcome::spec_byte;
use crate::decoding::outcome::spec_tag;
use crate::decoding::outcome::views;
use crate::decoding::outcome::DecodeError;
use crate::decoding::outcome::Decoded;
use crate::decoding::outcome::Parsed;
use crate::structure::modules::Custom;
use crate::structure::modules::CustomView;
use crate::structure::types::ElemType;
use crate::structure::types::FuncType;
use crate::structure::types::FuncTypeView;
use crate::structure::types::GlobalType;
use crate::structure::types::Limits;
use crate::structure::types::MemType;
use crate::structure::types::Mut;
use crate::structure::types::ResultType;
use crate::structure::types::TableType;
use crate::structure::types::ValType;

verus! {

/// The outcome `p` with `acc` put before its items.
pub open spec fn with_prefix<T>(acc: Seq<T>, p: Parsed<Seq<T>>) -> Parsed<Seq<T>> {
    match p {
        Ok((rest, items)) => Ok((rest, acc + items)),
        Err(e) => Err(e),
    }
}

/// Exactly `n` occurrences of `elem`, one after the other.
pub open spec fn spec_repeat<T>(s: Seq<u8>, n: nat, elem: spec_fn(Seq<u8>) -> Parsed<T>) -> Parsed<
    Seq<T>,
>
    decreases n,
{
    if n == 0 {
        Ok((s, Seq::empty()))
    } else {
        match elem(s) {
            Ok((rest, item)) => with_prefix(seq![item], spec_repeat(rest, (n - 1) as nat, elem)),
            Err(e) => Err(e),
        }
    }
}

/// A vector: a 32-bit count, then that many occurrences of `elem`.
pub open spec fn spec_vec<T>(s: Seq<u8>, elem: spec_fn(Seq<u8>) -> Parsed<T>) -> Parsed<Seq<T>> {
    match spec_u32(s) {
        Ok((rest, n)) => spec_repeat(rest, n as nat, elem),
        Err(e) => Err(e),
    }
}

/// Decodes a vector whose elements `parse_b` decodes.
///
/// Whatever production `parse_b` computes, the result is the outcome of the
/// vector of that production: the count's error or the first failing
/// element's error, or all the elements in order and the rest after the last.
pub fn parse_vec<'a, B: View, F: Fn(&'a [u8]) -> Decoded<'a, B>>(input: &'a [u8], parse_b: F) -> (r:
    Decoded<'a, Vec<B>>)
    requires
        forall|s: &'a [u8]| parse_b.requires((s,)),
    ensures
        forall|p: spec_fn(Seq<u8>) -> Parsed<B::V>| #[trigger]
            computes(parse_b, p) ==> decodes_to_seq(r, spec_vec(input@, p)),
        match spec_u32(input@) {
            Ok((start, n)) => r matches Ok((rest, items)) ==> items@.len() == n,
            Err(e) => r == Err::<(&[u8], Vec<B>), DecodeError>(e),
        },
{
    let (start, n) = match parse_u32(input) {
        Ok(x) => x,
        Err(e) => {
            return Err(e);
        },
    };
    let mut cur: &'a [u8] = start;
    let mut out: Vec<B> = Vec::new();
    let mut k: u32 = 0;
    while k < n
        invariant
            k <= n,
            out@.len() == k,
            spec_u32(input@) == Ok::<(Seq<u8>, u32), DecodeError>((start@, n)),
            forall|s: &'a [u8]| parse_b.requires((s,)),
            forall|p: spec_fn(Seq<u8>) -> Parsed<B::V>| #[trigger]
                computes(parse_b, p) ==> spec_repeat(start@, n as nat, p) == with_prefix(
                    views(out@),
                    spec_repeat(cur@, (n - k) as nat, p),
                ),
        decreases n - k,
    {
        let step = parse_b(cur);
        match step {
            Ok((next, item)) => {
                proof {
                    assert forall|p: spec_fn(Seq<u8>) -> Parsed<B::V>| #[trigger]
                        computes(parse_b, p) implies spec_repeat(start@, n as nat, p)
                        == with_prefix(
                        views(out@.push(item)),
                        spec_repeat(next@, (n - k - 1) as nat, p),
                    ) by {
                        assert(decodes_to(step, p(cur@)));
                        let tail = spec_repeat(next@, (n - k - 1) as nat, p);
                        if let Ok((rest, items)) = tail {
                            assert(views(out@) + (seq![item@] + items) =~= views(out@.push(item))
                                + items);
                        }
                    }
                }
                out.push(item);
                cur = next;
                k = k + 1;
            },
            Err(e) => {
                proof {
                    assert forall|p: spec_fn(Seq<u8>) -> Parsed<B::V>| #[trigger]
                        computes(parse_b, p) implies spec_vec(input@, p) == Err::<
                        (Seq<u8>, Seq<B::V>),
                        DecodeError,
                    >(e) by {
                        assert(decodes_to(step, p(cur@)));
                    }
                }
                return Err(e);
            },
        }
    }
    proof {
        assert forall|p: spec_fn(Seq<u8>) -> Parsed<B::V>| #[trigger]
            computes(parse_b, p) implies spec_vec(input@, p) == Ok::<
            (Seq<u8>, Seq<B::V>),
            DecodeError,
        >((cur@, views(out@))) by {
            assert(views(out@) + Seq::<B::V>::empty() =~= views(out@));
        }
    }
    Ok((cur, out))
}

/// `n` occurrences give `n` items.
pub proof fn lemma_repeat_len<T>(s: Seq<u8>, n: nat, elem: spec_fn(Seq<u8>) -> Parsed<T>)
    ensures
        spec_repeat(s, n, elem) matches Ok((rest, items)) ==> items.len() == n,
    decreases n,
{
    if n > 0 {
        if let Ok((rest, item)) = elem(s) {
            lemma_repeat_len(rest, (n - 1) as nat, elem);
        }
    }
}

/// What is left after `n` occurrences is no longer than the input, if what
/// is left after one occurrence never is.
pub proof fn lemma_repeat_consumes<T>(s: Seq<u8>, n: nat, elem: spec_fn(Seq<u8>) -> Parsed<T>)
    requires
        forall|t: Seq<u8>| (#[trigger] elem(t)) matches Ok((rest, v)) ==> rest.len() <= t.len(),
    ensures
        spec_repeat(s, n, elem) matches Ok((rest, v)) ==> rest.len() <= s.len(),
    decreases n,
{
    if n > 0 {
        if let Ok((rest, item)) = elem(s) {
            lemma_repeat_consumes(rest, (n - 1) as nat, elem);
        }
    }
}

/// What is left after a vector is shorter than the input, if what is left
/// after one element is never longer than what the element was decoded from.
pub proof fn lemma_vec_consumes<T>(s: Seq<u8>, elem: spec_fn(Seq<u8>) -> Parsed<T>)
    requires
        forall|t: Seq<u8>| (#[trigger] elem(t)) matches Ok((rest, v)) ==> rest.len() <= t.len(),
    ensures
        spec_vec(s, elem) matches Ok((rest, v)) ==> rest.len() < s.len(),
{
    lemma_un_consumes(s, 32);
    if let Ok((rest, n)) = spec_u32(s) {
        lemma_repeat_consumes(rest, n as nat, elem);
    }
}

/// The production of one byte, as a value.
pub open spec fn byte_production() -> spec_fn(Seq<u8>) -> Parsed<u8> {
    |s: Seq<u8>| spec_byte(s)
}

/// A byte vector: a 32-bit count, then that many bytes.
pub open spec fn spec_bytes(s: Seq<u8>) -> Parsed<Seq<u8>> {
    match spec_u32(s) {
        Ok((rest, n)) => if rest.len() >= n {
            Ok((rest.skip(n as int), rest.take(n as int)))
        } else {
            Err(DecodeError::MalformedFormat)
        },
        Err(e) => Err(e),
    }
}

/// A name: a byte vector that is UTF-8, taken as the characters it encodes.
pub open spec fn spec_name(s: Seq<u8>) -> Parsed<Seq<char>> {
    match spec_bytes(s) {
        Ok((rest, bytes)) => if valid_utf8(bytes) {
            Ok((rest, decode_utf8(bytes)))
        } else {
            Err(DecodeError::MalformedName)
        },
        Err(e) => Err(e),
    }
}

/// `n` bytes one by one are the next `n` bytes.
pub proof fn lemma_repeat_bytes(s: Seq<u8>, n: nat)
    ensures
        spec_repeat(s, n, byte_production()) == if s.len() >= n {
            Ok::<(Seq<u8>, Seq<u8>), DecodeError>((s.skip(n as int), s.take(n as int)))
        } else {
            Err::<(Seq<u8>, Seq<u8>), DecodeError>(DecodeError::MalformedFormat)
        },
    decreases n,
{
    if n == 0 {
        assert(s.skip(0) =~= s);
        assert(s.take(0) =~= Seq::<u8>::empty());
    } else if s.len() > 0 {
        lemma_repeat_bytes(s.skip(1), (n - 1) as nat);
        if s.len() >= n {
            assert(s.skip(1).skip(n - 1) =~= s.skip(n as int));
            assert(seq![s[0]] + s.skip(1).take(n - 1) =~= s.take(n as int));
        }
    }
}

/// A vector of bytes is a byte vector.
pub proof fn lemma_vec_bytes(s: Seq<u8>)
    ensures
        spec_vec(s, byte_production()) == spec_bytes(s),
{
    if let Ok((rest, n)) = spec_u32(s) {
        lemma_repeat_bytes(rest, n as nat);
    }
}

/// A name decodes exactly when its bytes are UTF-8: whatever bytes follow
/// their count, and whatever follows them, the name is the characters that
/// they encode if they are UTF-8, and `MalformedName` if not.
pub proof fn lemma_name_utf8(bytes: Seq<u8>, rest: Seq<u8>)
    requires
        bytes.len() <= u32::MAX,
    ensures
        spec_name(spec_encode_un(bytes.len()) + bytes + rest) == if valid_utf8(bytes) {
            Ok::<(Seq<u8>, Seq<char>), DecodeError>((rest, decode_utf8(bytes)))
        } else {
            Err::<(Seq<u8>, Seq<char>), DecodeError>(DecodeError::MalformedName)
        },
{
    let s = spec_encode_un(bytes.len()) + bytes + rest;
    assert(s =~= spec_encode_un(bytes.len()) + (bytes + rest));
    lemma_u32_round_trip(bytes.len() as u32, bytes + rest);
    assert((bytes + rest).take(bytes.len() as int) =~= bytes);
    assert((bytes + rest).skip(bytes.len() as int) =~= rest);
}

/// A name fails with `MalformedName` only where its bytes are all there,
/// and then exactly when they are not UTF-8.
pub proof fn lemma_name_malformed(s: Seq<u8>)
    ensures
        match spec_bytes(s) {
            Ok((rest, bytes)) => spec_name(s) is Ok <==> valid_utf8(bytes),
            Err(e) => spec_name(s) == Err::<(Seq<u8>, Seq<char>), DecodeError>(e) && e
                != DecodeError::MalformedName,
        },
{
    lemma_un_errors(s, 32);
}

/// `String::from_utf8` of std, with its error dropped: the string is there
/// exactly when the bytes are UTF-8, and then holds the characters that they
/// encode.
#[verifier::external_body]
fn string_from_utf8(bytes: Vec<u8>) -> (r: Option<String>)
    ensures
        r is Some <==> valid_utf8(bytes@),
        r matches Some(text) ==> text@ == decode_utf8(bytes@),
{
    String::from_utf8(bytes).ok()
}

/// Decodes a name. It fails with `MalformedName` exactly when the bytes
/// after the count are all there and are not UTF-8.
pub fn parse_name<'a>(input: &'a [u8]) -> (r: Decoded<'a, String>)
    ensures
        decodes_to(r, spec_name(input@)),
{
    proof {
        lemma_vec_bytes(input@);
        assert(computes(parse_byte, byte_production()));
    }
    match parse_vec(input, parse_byte) {
        Ok((rest, bytes)) => {
            assert(views(bytes@) =~= bytes@);
            match string_from_utf8(bytes) {
                Some(text) => Ok((rest, text)),
                None => Err(DecodeError::MalformedName),
            }
        },
        Err(e) => Err(e),
    }
}

/// A value type: one of four bytes.
pub open spec fn spec_valtype(s: Seq<u8>) -> Parsed<ValType> {
    if s.len() == 0 {
        Err(DecodeError::MalformedFormat)
    } else if s[0] == 0x7F {
        Ok((s.skip(1), ValType::I32))
    } else if s[0] == 0x7E {
        Ok((s.skip(1), ValType::I64))
    } else if s[0] == 0x7D {
        Ok((s.skip(1), ValType::F32))
    } else if s[0] == 0x7C {
        Ok((s.skip(1), ValType::F64))
    } else {
        Err(DecodeError::MalformedType)
    }
}

/// The production of a value type, as a value.
pub open spec fn valtype_production() -> spec_fn(Seq<u8>) -> Parsed<ValType> {
    |s: Seq<u8>| spec_valtype(s)
}

/// A block type: the byte 0x40 for no result, or a value type for one.
pub open spec fn spec_blocktype(s: Seq<u8>) -> Parsed<ResultType> {
    if s.len() > 0 && s[0] == 0x40 {
        Ok((s.skip(1), None))
    } else {
        match spec_valtype(s) {
            Ok((rest, t)) => Ok((rest, Some(t))),
            Err(e) => Err(e),
        }
    }
}

/// A function type: the byte 0x60, the parameter types, the result types.
pub open spec fn spec_functype(s: Seq<u8>) -> Parsed<FuncTypeView> {
    match spec_tag(s, 0x60) {
        Ok((s1, _)) => match spec_vec(s1, valtype_production()) {
            Ok((s2, args)) => match spec_vec(s2, valtype_production()) {
                Ok((s3, results)) => Ok((s3, FuncTypeView { args, results })),
                Err(e) => Err(e),
            },
            Err(e) => Err(e),
        },
        Err(e) => Err(e),
    }
}

/// Limits: the byte 0x00 and a minimum, or the byte 0x01, a minimum and a
/// maximum.
pub open spec fn spec_limits(s: Seq<u8>) -> Parsed<Limits> {
    if s.len() > 0 && s[0] == 0x00 {
        match spec_u32(s.skip(1)) {
            Ok((rest, min)) => Ok((rest, Limits { min, max: None })),
            Err(e) => Err(e),
        }
    } else if s.len() > 0 && s[0] == 0x01 {
        match spec_u32(s.skip(1)) {
            Ok((s2, min)) => match spec_u32(s2) {
                Ok((rest, max)) => Ok((rest, Limits { min, max: Some(max) })),
                Err(e) => Err(e),
            },
            Err(e) => Err(e),
        }
    } else {
        Err(DecodeError::MalformedFormat)
    }
}

/// A memory type: its limits.
pub open spec fn spec_memtype(s: Seq<u8>) -> Parsed<MemType> {
    match spec_limits(s) {
        Ok((rest, limits)) => Ok((rest, MemType { limits })),
        Err(e) => Err(e),
    }
}

/// An element type: the byte 0x70.
pub open spec fn spec_elemtype(s: Seq<u8>) -> Parsed<ElemType> {
    match spec_tag(s, 0x70) {
        Ok((rest, _)) => Ok((rest, ElemType::AnyFunc)),
        Err(e) => Err(e),
    }
}

/// A table type: the element type, then the limits.
pub open spec fn spec_tabletype(s: Seq<u8>) -> Parsed<TableType> {
    match spec_elemtype(s) {
        Ok((s1, elemtype)) => match spec_limits(s1) {
            Ok((rest, limits)) => Ok((rest, TableType { limits, elemtype })),
            Err(e) => Err(e),
        },
        Err(e) => Err(e),
    }
}

/// A mutability: the byte 0x00 for a constant, 0x01 for a variable.
pub open spec fn spec_mut(s: Seq<u8>) -> Parsed<Mut> {
    if s.len() > 0 && s[0] == 0x00 {
        Ok((s.skip(1), Mut::Const))
    } else if s.len() > 0 && s[0] == 0x01 {
        Ok((s.skip(1), Mut::Var))
    } else {
        Err(DecodeError::MalformedFormat)
    }
}

/// A global type: the value type, then the mutability.
pub open spec fn spec_globaltype(s: Seq<u8>) -> Parsed<GlobalType> {
    match spec_valtype(s) {
        Ok((s1, valtype)) => match spec_mut(s1) {
            Ok((rest, mutability)) => Ok((rest, GlobalType { mutability, valtype })),
            Err(e) => Err(e),
        },
        Err(e) => Err(e),
    }
}

/// Decodes a value type.
pub fn parse_valtype<'a>(input: &'a [u8]) -> (r: Decoded<'a, ValType>)
    ensures
        decodes_to(r, spec_valtype(input@)),
{
    if input.len() == 0 {
        return Err(DecodeError::MalformedFormat);
    }
    let t = match input[0] {
        0x7F => ValType::I32,
        0x7E => ValType::I64,
        0x7D => ValType::F32,
        0x7C => ValType::F64,
        _ => {
            return Err(DecodeError::MalformedType);
        },
    };
    Ok((advance(input, 1), t))
}

/// Decodes a block type.
pub fn parse_blocktype<'a>(input: &'a [u8]) -> (r: Decoded<'a, ResultType>)
    ensures
        decodes_to(r, spec_blocktype(input@)),
{
    if input.len() > 0 && input[0] == 0x40 {
        Ok((advance(input, 1), None))
    } else {
        match parse_valtype(input) {
            Ok((rest, t)) => Ok((rest, Some(t))),
            Err(e) => Err(e),
        }
    }
}

/// Decodes a function type.
pub fn parse_functype<'a>(input: &'a [u8]) -> (r: Decoded<'a, FuncType>)
    ensures
        decodes_to(r, spec_functype(input@)),
{
    proof {
        assert(computes(parse_valtype, valtype_production()));
    }
    let s1 = match parse_tag(input, 0x60) {
        Ok((rest, _)) => rest,
        Err(e) => {
            return Err(e);
        },
    };
    let (s2, args) = match parse_vec(s1, parse_valtype) {
        Ok(x) => x,
        Err(e) => {
            return Err(e);
        },
    };
    let (s3, results) = match parse_vec(s2, parse_valtype) {
        Ok(x) => x,
        Err(e) => {
            return Err(e);
        },
    };
    assert(views(args@) =~= args@);
    assert(views(results@) =~= results@);
    Ok((s3, FuncType { args, results }))
}

/// Decodes limits.
pub fn parse_limits<'a>(input: &'a [u8]) -> (r: Decoded<'a, Limits>)
    ensures
        decodes_to(r, spec_limits(input@)),
{
    if input.len() > 0 && input[0] == 0x00 {
        match parse_u32(advance(input, 1)) {
            Ok((rest, min)) => Ok((rest, Limits { min, max: None })),
            Err(e) => Err(e),
        }
    } else if input.len() > 0 && input[0] == 0x01 {
        let (s2, min) = match parse_u32(advance(input, 1)) {
            Ok(x) => x,
            Err(e) => {
                return Err(e);
            },
        };
        match parse_u32(s2) {
            Ok((rest, max)) => Ok((rest, Limits { min, max: Some(max) })),
            Err(e) => Err(e),
        }
    } else {
        Err(DecodeError::MalformedFormat)
    }
}

/// Decodes a memory type.
pub fn parse_memtype<'a>(input: &'a [u8]) -> (r: Decoded<'a, MemType>)
    ensures
        decodes_to(r, spec_memtype(input@)),
{
    match parse_limits(input) {
        Ok((rest, limits)) => Ok((rest, MemType { limits })),
        Err(e) => Err(e),
    }
}

/// Decodes an element type.
pub fn parse_elemtype<'a>(input: &'a [u8]) -> (r: Decoded<'a, ElemType>)
    ensures
        decodes_to(r, spec_elemtype(input@)),
{
    match parse_tag(input, 0x70) {
        Ok((rest, _)) => Ok((rest, ElemType::AnyFunc)),
        Err(e) => Err(e),
    }
}

/// Decodes a table type.
pub fn parse_tabletype<'a>(input: &'a [u8]) -> (r: Decoded<'a, TableType>)
    ensures
        decodes_to(r, spec_tabletype(input@)),
{
    let (s1, elemtype) = match parse_elemtype(input) {
        Ok(x) => x,
        Err(e) => {
            return Err(e);
        },
    };
    match parse_limits(s1) {
        Ok((rest, limits)) => Ok((rest, TableType { limits, elemtype })),
        Err(e) => Err(e),
    }
}

/// Decodes a mutability.
pub fn parse_mut<'a>(input: &'a [u8]) -> (r: Decoded<'a, Mut>)
    ensures
        decodes_to(r, spec_mut(input@)),
{
    if input.len() > 0 && input[0] == 0x00 {
        Ok((advance(input, 1), Mut::Const))
    } else if input.len() > 0 && input[0] == 0x01 {
        Ok((advance(input, 1), Mut::Var))
    } else {
        Err(DecodeError::MalformedFormat)
    }
}

/// Decodes a global type.
pub fn parse_globaltype<'a>(input: &'a [u8]) -> (r: Decoded<'a, GlobalType>)
    ensures
        decodes_to(r, spec_globaltype(input@)),
{
    let (s1, valtype) = match parse_valtype(input) {
        Ok(x) => x,
        Err(e) => {
            return Err(e);
        },
    };
    match parse_mut(s1) {
        Ok((rest, mutability)) => Ok((rest, GlobalType { mutability, valtype })),
        Err(e) => Err(e),
    }
}

/// The frame of a section: the byte `id`, a 32-bit size, and that many
/// bytes. The outcome holds what follows the section and, as its value, the
/// bytes of the section.
pub open spec fn spec_section_frame(s: Seq<u8>, id: u8) -> Parsed<Seq<u8>> {
    match spec_tag(s, id) {
        Ok((s1, _)) => match spec_u32(s1) {
            Ok((s2, size)) => if s2.len() < size {
                Err(DecodeError::MalformedFormat)
            } else {
                Ok((s2.skip(size as int), s2.take(size as int)))
            },
            Err(e) => Err(e),
        },
        Err(e) => Err(e),
    }
}

/// The outcome of a section from the outcome `inner` of its content on the
/// bytes of the section: the content has to use them up. `after` is what
/// follows the section.
pub open spec fn section_outcome<T>(after: Seq<u8>, inner: Parsed<T>) -> Parsed<T> {
    match inner {
        Ok((left, v)) => if left.len() == 0 {
            Ok((after, v))
        } else {
            Err(DecodeError::MalformedFormat)
        },
        Err(e) => Err(e),
    }
}

/// A section: the byte `id`, a 32-bit size, and that many bytes, which
/// `content` has to use up.
pub open spec fn spec_section<T>(s: Seq<u8>, id: u8, content: spec_fn(Seq<u8>) -> Parsed<T>)
    -> Parsed<T> {
    match spec_section_frame(s, id) {
        Ok((after, bytes)) => section_outcome(after, content(bytes)),
        Err(e) => Err(e),
    }
}

/// What a decoder's result stands for: its rest and its value by their
/// views.
pub open spec fn outcome_of<T: View>(r: Decoded<T>) -> Parsed<T::V> {
    match r {
        Ok((rest, v)) => Ok((rest@, v@)),
        Err(e) => Err(e),
    }
}

/// Decodes the section with the id `id`, whose content `parse_b` decodes.
///
/// `parse_b` is called once, on the bytes of the section and nothing after
/// them, and only if the frame of the section is there. The result is the
/// outcome of the section from what that call gave. So whatever production
/// `parse_b` computes, the result is the outcome of the section of that
/// production.
pub fn parse_section<'a, B: View, F: Fn(&'a [u8]) -> Decoded<'a, B>>(
    input: &'a [u8],
    id: u8,
    parse_b: F,
) -> (r: Decoded<'a, B>)
    requires
        forall|s: &'a [u8]| parse_b.requires((s,)),
    ensures
        match spec_section_frame(input@, id) {
            Ok((after, bytes)) => exists|content: &'a [u8], inner: Decoded<'a, B>|
                content@ == bytes && parse_b.ensures((content,), inner) && outcome_of(r)
                    == section_outcome(after, outcome_of(inner)),
            Err(e) => r == Err::<(&[u8], B), DecodeError>(e),
        },
        forall|p: spec_fn(Seq<u8>) -> Parsed<B::V>| #[trigger]
            computes(parse_b, p) ==> decodes_to(r, spec_section(input@, id, p)),
{
    let s1 = match parse_tag(input, id) {
        Ok((rest, _)) => rest,
        Err(e) => {
            return Err(e);
        },
    };
    let (s2, size) = match parse_u32(s1) {
        Ok(x) => x,
        Err(e) => {
            return Err(e);
        },
    };
    if s2.len() < size as usize {
        return Err(DecodeError::MalformedFormat);
    }
    let content = slice_subrange(s2, 0, size as usize);
    let after = advance(s2, size as usize);
    let inner = parse_b(content);
    proof {
        assert forall|p: spec_fn(Seq<u8>) -> Parsed<B::V>| #[trigger]
            computes(parse_b, p) implies decodes_to(inner, p(s2@.take(size as int))) by {}
    }
    let r = match inner {
        Ok((left, v)) => {
            if left.len() == 0 {
                Ok((after, v))
            } else {
                Err(DecodeError::MalformedFormat)
            }
        },
        Err(e) => Err(e),
    };
    proof {
        assert(content@ == s2@.take(size as int) && parse_b.ensures((content,), inner)
            && outcome_of(r) == section_outcome(after@, outcome_of(inner)));
    }
    r
}

/// The content of a custom section: a name, then bytes to the end.
pub open spec fn spec_custom(s: Seq<u8>) -> Parsed<CustomView> {
    match spec_name(s) {
        Ok((rest, name)) => Ok((Seq::empty(), CustomView { name, bytes: rest })),
        Err(e) => Err(e),
    }
}

/// The production of a custom section's content, as a value.
pub open spec fn custom_production() -> spec_fn(Seq<u8>) -> Parsed<CustomView> {
    |s: Seq<u8>| spec_custom(s)
}

/// A custom section: the section with the id 0.
pub open spec fn spec_customsec(s: Seq<u8>) -> Parsed<CustomView> {
    spec_section(s, 0, custom_production())
}

/// As many custom sections as there are, up to the first byte sequence that
/// is none. This never fails.
pub open spec fn spec_customsecs(s: Seq<u8>) -> Parsed<Seq<CustomView>>
    decreases s.len(),
{
    match spec_customsec(s) {
        Ok((rest, c)) => if rest.len() < s.len() {
            with_prefix(seq![c], spec_customsecs(rest))
        } else {
            // Never so: a section takes at least its id. The test shows that
            // the definition comes to an end.
            Ok((s, Seq::empty()))
        },
        Err(_) => Ok((s, Seq::empty())),
    }
}

/// Decodes the content of a custom section.
pub fn parse_custom<'a>(input: &'a [u8]) -> (r: Decoded<'a, Custom>)
    ensures
        decodes_to(r, spec_custom(input@)),
{
    match parse_name(input) {
        Ok((rest, name)) => {
            let bytes = slice_to_vec(rest);
            let end = advance(rest, rest.len());
            assert(end@ =~= Seq::<u8>::empty());
            Ok((end, Custom { name, bytes }))
        },
        Err(e) => Err(e),
    }
}

/// Decodes a custom section.
pub fn parse_customsec<'a>(input: &'a [u8]) -> (r: Decoded<'a, Custom>)
    ensures
        decodes_to(r, spec_customsec(input@)),
{
    proof {
        assert(computes(parse_custom, custom_production()));
    }
    parse_section(input, 0, parse_custom)
}

/// Decodes custom sections for as long as there are any. The result is
/// always `Ok`.
pub fn parse_customsecs<'a>(input: &'a [u8]) -> (r: Decoded<'a, Vec<Custom>>)
    ensures
        decodes_to_seq(r, spec_customsecs(input@)),
        r is Ok,
{
    let mut cur: &'a [u8] = input;
    let mut out: Vec<Custom> = Vec::new();
    loop
        invariant
            spec_customsecs(input@) == with_prefix(views(out@), spec_customsecs(cur@)),
        decreases cur@.len(),
    {
        let step = parse_customsec(cur);
        proof {
            lemma_customsec_consumes(cur@);
        }
        match step {
            Ok((next, c)) => {
                proof {
                    if let Ok((rest, items)) = spec_customsecs(next@) {
                        assert(views(out@) + (seq![c@] + items) =~= views(out@.push(c)) + items);
                    }
                }
                out.push(c);
                cur = next;
            },
            Err(_) => {
                assert(views(out@) + Seq::<CustomView>::empty() =~= views(out@));
                return Ok((cur, out));
            },
        }
    }
}

/// What is left after a section is shorter than the input.
pub proof fn lemma_section_consumes<T>(s: Seq<u8>, id: u8, content: spec_fn(Seq<u8>) -> Parsed<T>)
    ensures
        spec_section(s, id, content) matches Ok((rest, v)) ==> rest.len() < s.len(),
{
    if let Ok((s1, _)) = spec_tag(s, id) {
        lemma_un_consumes(s1, 32);
    }
}

/// What is left after a custom section is shorter than the input.
pub proof fn lemma_customsec_consumes(s: Seq<u8>)
    ensures
        spec_customsec(s) matches Ok((rest, v)) ==> rest.len() < s.len(),
{
    lemma_section_consumes(s, 0, custom_production());
}

/// Custom sections are one custom section and then custom sections, or
/// none where no custom section is next.
pub proof fn lemma_customsecs_unfold(s: Seq<u8>)
    ensures
        spec_customsecs(s) == match spec_customsec(s) {
            Ok((rest, c)) => with_prefix(seq![c], spec_customsecs(rest)),
            Err(_) => Ok((s, Seq::empty())),
        },
{
    lemma_customsec_consumes(s);
}

} // verus!
