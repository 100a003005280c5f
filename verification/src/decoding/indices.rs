//! Indices: each is a 32-bit unsigned integer.

use vstd::prelude::*;
use crate::decoding::integers::parse_u32;
use crate::decoding::integers::spec_u32;
use crate::decoding::outcome::decodes_to;
use crate::decoding::outcome::Decoded;
use crate::decoding::outcome::Parsed;
use crate::structure::modules::FuncIdx;
use crate::structure::modules::GlobalIdx;
use crate::structure::modules::LabelIdx;
use crate::structure::modules::LocalIdx;
use crate::structure::modules::MemIdx;
use crate::structure::modules::TableIdx;
use crate::structure::modules::TypeIdx;

verus! {

/// The index of a type.
pub open spec fn spec_typeidx(s: Seq<u8>) -> Parsed<TypeIdx> {
    match spec_u32(s) {
        Ok((rest, x)) => Ok((rest, TypeIdx(x))),
        Err(e) => Err(e),
    }
}

/// Decodes the index of a type.
pub fn parse_typeidx<'a>(input: &'a [u8]) -> (r: Decoded<'a, TypeIdx>)
    ensures
        decodes_to(r, spec_typeidx(input@)),
{
    match parse_u32(input) {
        Ok((rest, x)) => Ok((rest, TypeIdx(x))),
        Err(e) => Err(e),
    }
}

/// The index of a function.
pub open spec fn spec_funcidx(s: Seq<u8>) -> Parsed<FuncIdx> {
    match spec_u32(s) {
        Ok((rest, x)) => Ok((rest, FuncIdx(x))),
        Err(e) => Err(e),
    }
}

/// Decodes the index of a function.
pub fn parse_funcidx<'a>(input: &'a [u8]) -> (r: Decoded<'a, FuncIdx>)
    ensures
        decodes_to(r, spec_funcidx(input@)),
{
    match parse_u32(input) {
        Ok((rest, x)) => Ok((rest, FuncIdx(x))),
        Err(e) => Err(e),
    }
}

/// The index of a table.
pub open spec fn spec_tableidx(s: Seq<u8>) -> Parsed<TableIdx> {
    match spec_u32(s) {
        Ok((rest, x)) => Ok((rest, TableIdx(x))),
        Err(e) => Err(e),
    }
}

/// Decodes the index of a table.
pub fn parse_tableidx<'a>(input: &'a [u8]) -> (r: Decoded<'a, TableIdx>)
    ensures
        decodes_to(r, spec_tableidx(input@)),
{
    match parse_u32(input) {
        Ok((rest, x)) => Ok((rest, TableIdx(x))),
        Err(e) => Err(e),
    }
}

/// The index of a memory.
pub open spec fn spec_memidx(s: Seq<u8>) -> Parsed<MemIdx> {
    match spec_u32(s) {
        Ok((rest, x)) => Ok((rest, MemIdx(x))),
        Err(e) => Err(e),
    }
}

/// Decodes the index of a memory.
pub fn parse_memidx<'a>(input: &'a [u8]) -> (r: Decoded<'a, MemIdx>)
    ensures
        decodes_to(r, spec_memidx(input@)),
{
    match parse_u32(input) {
        Ok((rest, x)) => Ok((rest, MemIdx(x))),
        Err(e) => Err(e),
    }
}

/// The index of a global.
pub open spec fn spec_globalidx(s: Seq<u8>) -> Parsed<GlobalIdx> {
    match spec_u32(s) {
        Ok((rest, x)) => Ok((rest, GlobalIdx(x))),
        Err(e) => Err(e),
    }
}

/// Decodes the index of a global.
pub fn parse_globalidx<'a>(input: &'a [u8]) -> (r: Decoded<'a, GlobalIdx>)
    ensures
        decodes_to(r, spec_globalidx(input@)),
{
    match parse_u32(input) {
        Ok((rest, x)) => Ok((rest, GlobalIdx(x))),
        Err(e) => Err(e),
    }
}

/// The index of a local.
pub open spec fn spec_localidx(s: Seq<u8>) -> Parsed<LocalIdx> {
    match spec_u32(s) {
        Ok((rest, x)) => Ok((rest, LocalIdx(x))),
        Err(e) => Err(e),
    }
}

/// Decodes the index of a local.
pub fn parse_localidx<'a>(input: &'a [u8]) -> (r: Decoded<'a, LocalIdx>)
    ensures
        decodes_to(r, spec_localidx(input@)),
{
    match parse_u32(input) {
        Ok((rest, x)) => Ok((rest, LocalIdx(x))),
        Err(e) => Err(e),
    }
}

/// The index of a label.
pub open spec fn spec_labelidx(s: Seq<u8>) -> Parsed<LabelIdx> {
    match spec_u32(s) {
        Ok((rest, x)) => Ok((rest, LabelIdx(x))),
        Err(e) => Err(e),
    }
}

/// Decodes the index of a label.
pub fn parse_labelidx<'a>(input: &'a [u8]) -> (r: Decoded<'a, LabelIdx>)
    ensures
        decodes_to(r, spec_labelidx(input@)),
{
    match parse_u32(input) {
        Ok((rest, x)) => Ok((rest, LabelIdx(x))),
        Err(e) => Err(e),
    }
}

/// The production of a label index, as a value.
pub open spec fn labelidx_production() -> spec_fn(Seq<u8>) -> Parsed<LabelIdx> {
    |s: Seq<u8>| spec_labelidx(s)
}

} // verus!
