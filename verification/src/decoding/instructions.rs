//! Indices, memory immediates, instructions and expressions.

use vstd::prelude::*;
use crate::decoding::indices::labelidx_production;
use crate::decoding::binary_format::lemma_vec_consumes;
use crate::decoding::binary_format::parse_blocktype;
use crate::decoding::binary_format::parse_vec;
use crate::decoding::binary_format::spec_blocktype;
use crate::decoding::binary_format::spec_vec;
use crate::decoding::binary_format::with_prefix;
use crate::decoding::indices::parse_funcidx;
use crate::decoding::indices::parse_globalidx;
use crate::decoding::indices::parse_labelidx;
use crate::decoding::indices::parse_localidx;
use crate::decoding::indices::parse_typeidx;
use crate::decoding::indices::spec_funcidx;
use crate::decoding::indices::spec_globalidx;
use crate::decoding::indices::spec_labelidx;
use crate::decoding::indices::spec_localidx;
use crate::decoding::indices::spec_typeidx;
use crate::decoding::integers::lemma_sn_consumes;
use crate::decoding::integers::lemma_un_consumes;
use crate::decoding::integers::parse_f32;
use crate::decoding::integers::parse_f64;
use crate::decoding::integers::parse_i32;
use crate::decoding::integers::parse_i64;
use crate::decoding::integers::parse_u32;
use crate::decoding::integers::spec_f32;
use crate::decoding::integers::spec_f64;
use crate::decoding::integers::spec_i32;
use crate::decoding::integers::spec_i64;
use crate::decoding::integers::spec_u32;
use crate::decoding::outcome::advance;
use crate::decoding::outcome::computes;
use crate::decoding::outcome::decodes_to;
use crate::decoding::outcome::decodes_to_seq;
use crate::decoding::outcome::parse_tag;
use crate::decoding::outcome::spec_tag;
use crate::decoding::outcome::views;
use crate::decoding::outcome::DecodeError;
use crate::decoding::outcome::Decoded;
use crate::decoding::outcome::Parsed;
use crate::structure::instructions::instrs_view;
use crate::structure::instructions::Expr;
use crate::structure::instructions::Instr;
use crate::structure::instructions::InstrView;
use crate::structure::instructions::Memarg;
use crate::structure::types::ResultType;

verus! {

/// A memory immediate: the alignment, then the offset.
pub open spec fn spec_memarg(s: Seq<u8>) -> Parsed<Memarg> {
    match spec_u32(s) {
        Ok((s1, align)) => match spec_u32(s1) {
            Ok((rest, offset)) => Ok((rest, Memarg { offset, align })),
            Err(e) => Err(e),
        },
        Err(e) => Err(e),
    }
}

/// Decodes a memory immediate.
pub fn parse_memarg<'a>(input: &'a [u8]) -> (r: Decoded<'a, Memarg>)
    ensures
        decodes_to(r, spec_memarg(input@)),
{
    let (s1, align) = match parse_u32(input) {
        Ok(x) => x,
        Err(e) => {
            return Err(e);
        },
    };
    match parse_u32(s1) {
        Ok((rest, offset)) => Ok((rest, Memarg { offset, align })),
        Err(e) => Err(e),
    }
}

/// The instruction that the opcode `op` is by itself, if it is one: the
/// instructions that carry nothing after their opcode.
pub open spec fn plain_instr(op: u8) -> Option<Instr> {
    match op {
        0x00 => Some(Instr::Unreachable),
        0x01 => Some(Instr::Nop),
        0x0F => Some(Instr::Return),
        0x1A => Some(Instr::Drop),
        0x1B => Some(Instr::Select),
        0x3F => Some(Instr::CurrentMemory),
        0x40 => Some(Instr::GrowMemory),
        0x45 => Some(Instr::I32EqZ),
        0x46 => Some(Instr::I32Eq),
        0x47 => Some(Instr::I32Ne),
        0x48 => Some(Instr::I32LtS),
        0x49 => Some(Instr::I32LtU),
        0x4A => Some(Instr::I32GtS),
        0x4B => Some(Instr::I32GtU),
        0x4C => Some(Instr::I32LeS),
        0x4D => Some(Instr::I32LeU),
        0x4E => Some(Instr::I32GeS),
        0x4F => Some(Instr::I32GeU),
        0x50 => Some(Instr::I64EqZ),
        0x51 => Some(Instr::I64Eq),
        0x52 => Some(Instr::I64Ne),
        0x53 => Some(Instr::I64LtS),
        0x54 => Some(Instr::I64LtU),
        0x55 => Some(Instr::I64GtS),
        0x56 => Some(Instr::I64GtU),
        0x57 => Some(Instr::I64LeS),
        0x58 => Some(Instr::I64LeU),
        0x59 => Some(Instr::I64GeS),
        0x5A => Some(Instr::I64GeU),
        0x5B => Some(Instr::F32Eq),
        0x5C => Some(Instr::F32Ne),
        0x5D => Some(Instr::F32Lt),
        0x5E => Some(Instr::F32Gt),
        0x5F => Some(Instr::F32Le),
        0x60 => Some(Instr::F32Ge),
        0x61 => Some(Instr::F64Eq),
        0x62 => Some(Instr::F64Ne),
        0x63 => Some(Instr::F64Lt),
        0x64 => Some(Instr::F64Gt),
        0x65 => Some(Instr::F64Le),
        0x66 => Some(Instr::F64Ge),
        0x67 => Some(Instr::I32Clz),
        0x68 => Some(Instr::I32Ctz),
        0x69 => Some(Instr::I32Popcnt),
        0x6A => Some(Instr::I32Add),
        0x6B => Some(Instr::I32Sub),
        0x6C => Some(Instr::I32Mul),
        0x6D => Some(Instr::I32DivS),
        0x6E => Some(Instr::I32DivU),
        0x6F => Some(Instr::I32RemS),
        0x70 => Some(Instr::I32RemU),
        0x71 => Some(Instr::I32And),
        0x72 => Some(Instr::I32Or),
        0x73 => Some(Instr::I32Xor),
        0x74 => Some(Instr::I32Shl),
        0x75 => Some(Instr::I32ShrS),
        0x76 => Some(Instr::I32ShrU),
        0x77 => Some(Instr::I32Rotl),
        0x78 => Some(Instr::I32Rotr),
        0x79 => Some(Instr::I64Clz),
        0x7A => Some(Instr::I64Ctz),
        0x7B => Some(Instr::I64Popcnt),
        0x7C => Some(Instr::I64Add),
        0x7D => Some(Instr::I64Sub),
        0x7E => Some(Instr::I64Mul),
        0x7F => Some(Instr::I64DivS),
        0x80 => Some(Instr::I64DivU),
        0x81 => Some(Instr::I64RemS),
        0x82 => Some(Instr::I64RemU),
        0x83 => Some(Instr::I64And),
        0x84 => Some(Instr::I64Or),
        0x85 => Some(Instr::I64Xor),
        0x86 => Some(Instr::I64Shl),
        0x87 => Some(Instr::I64ShrS),
        0x88 => Some(Instr::I64ShrU),
        0x89 => Some(Instr::I64Rotl),
        0x8A => Some(Instr::I64Rotr),
        0x8B => Some(Instr::F32Abs),
        0x8C => Some(Instr::F32Neg),
        0x8D => Some(Instr::F32Ceil),
        0x8E => Some(Instr::F32Floor),
        0x8F => Some(Instr::F32Trunc),
        0x90 => Some(Instr::F32Nearest),
        0x91 => Some(Instr::F32Sqrt),
        0x92 => Some(Instr::F32Add),
        0x93 => Some(Instr::F32Sub),
        0x94 => Some(Instr::F32Mul),
        0x95 => Some(Instr::F32Div),
        0x96 => Some(Instr::F32Min),
        0x97 => Some(Instr::F32Max),
        0x98 => Some(Instr::F32CopySign),
        0x99 => Some(Instr::F64Abs),
        0x9A => Some(Instr::F64Neg),
        0x9B => Some(Instr::F64Ceil),
        0x9C => Some(Instr::F64Floor),
        0x9D => Some(Instr::F64Trunc),
        0x9E => Some(Instr::F64Nearest),
        0x9F => Some(Instr::F64Sqrt),
        0xA0 => Some(Instr::F64Add),
        0xA1 => Some(Instr::F64Sub),
        0xA2 => Some(Instr::F64Mul),
        0xA3 => Some(Instr::F64Div),
        0xA4 => Some(Instr::F64Min),
        0xA5 => Some(Instr::F64Max),
        0xA6 => Some(Instr::F64CopySign),
        0xA7 => Some(Instr::I32WrapI64),
        0xA8 => Some(Instr::I32TruncSF32),
        0xA9 => Some(Instr::I32TruncUF32),
        0xAA => Some(Instr::I32TruncSF64),
        0xAB => Some(Instr::I32TruncUF64),
        0xAC => Some(Instr::I64ExtendSI32),
        0xAD => Some(Instr::I64ExtendUI32),
        0xAE => Some(Instr::I64TruncSF32),
        0xAF => Some(Instr::I64TruncUF32),
        0xB0 => Some(Instr::I64TruncSF64),
        0xB1 => Some(Instr::I64TruncUF64),
        0xB2 => Some(Instr::F32ConvertSI32),
        0xB3 => Some(Instr::F32ConvertUI32),
        0xB4 => Some(Instr::F32ConvertSI64),
        0xB5 => Some(Instr::F32ConvertUI64),
        0xB6 => Some(Instr::F32DemoteF64),
        0xB7 => Some(Instr::F64ConvertSI32),
        0xB8 => Some(Instr::F64ConvertUI32),
        0xB9 => Some(Instr::F64ConvertSI64),
        0xBA => Some(Instr::F64ConvertUI64),
        0xBB => Some(Instr::F64PromoteF32),
        0xBC => Some(Instr::I32ReinterpretF32),
        0xBD => Some(Instr::I64ReinterpretF64),
        0xBE => Some(Instr::F32ReinterpretI32),
        0xBF => Some(Instr::F64ReinterpretI64),
        _ => None,
    }
}

/// The memory instruction with the opcode `op`, from 0x28 to 0x3E, and the
/// immediate `m`.
pub open spec fn memory_instr(op: u8, m: Memarg) -> Instr
    recommends
        0x28 <= op <= 0x3E,
{
    match op {
        0x28 => Instr::I32Load(m),
        0x29 => Instr::I64Load(m),
        0x2A => Instr::F32Load(m),
        0x2B => Instr::F64Load(m),
        0x2C => Instr::I32Load8S(m),
        0x2D => Instr::I32Load8U(m),
        0x2E => Instr::I32Load16S(m),
        0x2F => Instr::I32Load16U(m),
        0x30 => Instr::I64Load8S(m),
        0x31 => Instr::I64Load8U(m),
        0x32 => Instr::I64Load16S(m),
        0x33 => Instr::I64Load16U(m),
        0x34 => Instr::I64Load32S(m),
        0x35 => Instr::I64Load32U(m),
        0x36 => Instr::I32Store(m),
        0x37 => Instr::I64Store(m),
        0x38 => Instr::F32Store(m),
        0x39 => Instr::F64Store(m),
        0x3A => Instr::I32Store8(m),
        0x3B => Instr::I32Store16(m),
        0x3C => Instr::I64Store8(m),
        0x3D => Instr::I64Store16(m),
        _ => Instr::I64Store32(m),
    }
}

/// The structured instruction with the opcode `op`, 0x02 or 0x03.
pub open spec fn block_instr(op: u8, rt: ResultType, body: Seq<InstrView>) -> InstrView
    recommends
        op == 0x02 || op == 0x03,
{
    if op == 0x02 {
        InstrView::Block(rt, body)
    } else {
        InstrView::Loop(rt, body)
    }
}

/// A byte that ends a sequence of instructions: the end marker 0x0B or the
/// else marker 0x05.
pub open spec fn is_terminator(b: u8) -> bool {
    b == 0x0B || b == 0x05
}

/// One instruction: an opcode, and what that opcode asks for after it.
///
/// A block or a loop is a block type, instructions, and the end marker. An
/// if is a block type, instructions, then either the end marker, or the else
/// marker, instructions and the end marker. A byte that is no opcode gives
/// `MalformedOpcode`.
pub open spec fn spec_instr(s: Seq<u8>) -> Parsed<InstrView>
    decreases s.len(), 0nat,
{
    if s.len() == 0 {
        Err(DecodeError::MalformedFormat)
    } else {
        let op = s[0];
        let t = s.skip(1);
        if op == 0x02 || op == 0x03 {
            match spec_blocktype(t) {
                Ok((t1, rt)) => match spec_instrs(t1) {
                    Ok((t2, body)) => match spec_tag(t2, 0x0B) {
                        Ok((rest, _)) => Ok((rest, block_instr(op, rt, body))),
                        Err(e) => Err(e),
                    },
                    Err(e) => Err(e),
                },
                Err(e) => Err(e),
            }
        } else if op == 0x04 {
            match spec_blocktype(t) {
                Ok((t1, rt)) => match spec_instrs(t1) {
                    Ok((t2, then_body)) => if t2.len() > t1.len() {
                        // Never so: what is left is no longer than the input.
                        // The test shows that the definition comes to an end.
                        Err(DecodeError::MalformedFormat)
                    } else if t2.len() > 0 && t2[0] == 0x05 {
                        match spec_instrs(t2.skip(1)) {
                            Ok((t3, else_body)) => match spec_tag(t3, 0x0B) {
                                Ok((rest, _)) => Ok(
                                    (rest, InstrView::IfElse(rt, then_body, else_body)),
                                ),
                                Err(e) => Err(e),
                            },
                            Err(e) => Err(e),
                        }
                    } else {
                        match spec_tag(t2, 0x0B) {
                            Ok((rest, _)) => Ok(
                                (rest, InstrView::IfElse(rt, then_body, Seq::empty())),
                            ),
                            Err(e) => Err(e),
                        }
                    },
                    Err(e) => Err(e),
                },
                Err(e) => Err(e),
            }
        } else {
            spec_flat_instr(op, t)
        }
    }
}

/// Instructions up to a byte that ends them or the end of the input; that
/// byte stays in the rest. An instruction that fails makes the sequence
/// fail.
pub open spec fn spec_instrs(s: Seq<u8>) -> Parsed<Seq<InstrView>>
    decreases s.len(), 1nat,
{
    if s.len() == 0 || is_terminator(s[0]) {
        Ok((s, Seq::empty()))
    } else {
        match spec_instr(s) {
            Ok((rest, i)) => if rest.len() < s.len() {
                with_prefix(seq![i], spec_instrs(rest))
            } else {
                // Never so: an instruction takes at least its opcode. The test
                // shows that the definition comes to an end.
                Err(DecodeError::MalformedFormat)
            },
            Err(e) => Err(e),
        }
    }
}

/// An instruction that holds no other instruction, after its opcode `op`.
pub open spec fn spec_flat_instr(op: u8, t: Seq<u8>) -> Parsed<InstrView> {
    if op == 0x0C {
        match spec_labelidx(t) {
            Ok((rest, l)) => Ok((rest, InstrView::Plain(Instr::Br(l)))),
            Err(e) => Err(e),
        }
    } else if op == 0x0D {
        match spec_labelidx(t) {
            Ok((rest, l)) => Ok((rest, InstrView::Plain(Instr::BrIf(l)))),
            Err(e) => Err(e),
        }
    } else if op == 0x0E {
        match spec_vec(t, labelidx_production()) {
            Ok((t1, labels)) => match spec_labelidx(t1) {
                Ok((rest, default)) => Ok((rest, InstrView::BrTable(labels, default))),
                Err(e) => Err(e),
            },
            Err(e) => Err(e),
        }
    } else if op == 0x10 {
        match spec_funcidx(t) {
            Ok((rest, x)) => Ok((rest, InstrView::Plain(Instr::Call(x)))),
            Err(e) => Err(e),
        }
    } else if op == 0x11 {
        match spec_typeidx(t) {
            Ok((t1, x)) => match spec_tag(t1, 0x00) {
                Ok((rest, _)) => Ok((rest, InstrView::Plain(Instr::CallIndirect(x)))),
                Err(e) => Err(e),
            },
            Err(e) => Err(e),
        }
    } else if op == 0x20 {
        match spec_localidx(t) {
            Ok((rest, x)) => Ok((rest, InstrView::Plain(Instr::GetLocal(x)))),
            Err(e) => Err(e),
        }
    } else if op == 0x21 {
        match spec_localidx(t) {
            Ok((rest, x)) => Ok((rest, InstrView::Plain(Instr::SetLocal(x)))),
            Err(e) => Err(e),
        }
    } else if op == 0x22 {
        match spec_localidx(t) {
            Ok((rest, x)) => Ok((rest, InstrView::Plain(Instr::TeeLocal(x)))),
            Err(e) => Err(e),
        }
    } else if op == 0x23 {
        match spec_globalidx(t) {
            Ok((rest, x)) => Ok((rest, InstrView::Plain(Instr::GetGlobal(x)))),
            Err(e) => Err(e),
        }
    } else if op == 0x24 {
        match spec_globalidx(t) {
            Ok((rest, x)) => Ok((rest, InstrView::Plain(Instr::SetGlobal(x)))),
            Err(e) => Err(e),
        }
    } else if 0x28 <= op <= 0x3E {
        match spec_memarg(t) {
            Ok((rest, m)) => Ok((rest, InstrView::Plain(memory_instr(op, m)))),
            Err(e) => Err(e),
        }
    } else if op == 0x41 {
        match spec_i32(t) {
            Ok((rest, n)) => Ok((rest, InstrView::Plain(Instr::I32Const(n)))),
            Err(e) => Err(e),
        }
    } else if op == 0x42 {
        match spec_i64(t) {
            Ok((rest, n)) => Ok((rest, InstrView::Plain(Instr::I64Const(n)))),
            Err(e) => Err(e),
        }
    } else if op == 0x43 {
        match spec_f32(t) {
            Ok((rest, z)) => Ok((rest, InstrView::Plain(Instr::F32Const(z)))),
            Err(e) => Err(e),
        }
    } else if op == 0x44 {
        match spec_f64(t) {
            Ok((rest, z)) => Ok((rest, InstrView::Plain(Instr::F64Const(z)))),
            Err(e) => Err(e),
        }
    } else {
        match plain_instr(op) {
            Some(i) => Ok((t, InstrView::Plain(i))),
            None => Err(DecodeError::MalformedOpcode),
        }
    }
}

/// An expression: instructions, then the end marker.
pub open spec fn spec_expr(s: Seq<u8>) -> Parsed<Seq<InstrView>> {
    match spec_instrs(s) {
        Ok((s1, body)) => match spec_tag(s1, 0x0B) {
            Ok((rest, _)) => Ok((rest, body)),
            Err(e) => Err(e),
        },
        Err(e) => Err(e),
    }
}

/// The instruction that the opcode `op` is by itself, if it is one.
fn plain_of(op: u8) -> (r: Option<Instr>)
    ensures
        r == plain_instr(op),
{
    match op {
        0x00 => Some(Instr::Unreachable),
        0x01 => Some(Instr::Nop),
        0x0F => Some(Instr::Return),
        0x1A => Some(Instr::Drop),
        0x1B => Some(Instr::Select),
        0x3F => Some(Instr::CurrentMemory),
        0x40 => Some(Instr::GrowMemory),
        0x45 => Some(Instr::I32EqZ),
        0x46 => Some(Instr::I32Eq),
        0x47 => Some(Instr::I32Ne),
        0x48 => Some(Instr::I32LtS),
        0x49 => Some(Instr::I32LtU),
        0x4A => Some(Instr::I32GtS),
        0x4B => Some(Instr::I32GtU),
        0x4C => Some(Instr::I32LeS),
        0x4D => Some(Instr::I32LeU),
        0x4E => Some(Instr::I32GeS),
        0x4F => Some(Instr::I32GeU),
        0x50 => Some(Instr::I64EqZ),
        0x51 => Some(Instr::I64Eq),
        0x52 => Some(Instr::I64Ne),
        0x53 => Some(Instr::I64LtS),
        0x54 => Some(Instr::I64LtU),
        0x55 => Some(Instr::I64GtS),
        0x56 => Some(Instr::I64GtU),
        0x57 => Some(Instr::I64LeS),
        0x58 => Some(Instr::I64LeU),
        0x59 => Some(Instr::I64GeS),
        0x5A => Some(Instr::I64GeU),
        0x5B => Some(Instr::F32Eq),
        0x5C => Some(Instr::F32Ne),
        0x5D => Some(Instr::F32Lt),
        0x5E => Some(Instr::F32Gt),
        0x5F => Some(Instr::F32Le),
        0x60 => Some(Instr::F32Ge),
        0x61 => Some(Instr::F64Eq),
        0x62 => Some(Instr::F64Ne),
        0x63 => Some(Instr::F64Lt),
        0x64 => Some(Instr::F64Gt),
        0x65 => Some(Instr::F64Le),
        0x66 => Some(Instr::F64Ge),
        0x67 => Some(Instr::I32Clz),
        0x68 => Some(Instr::I32Ctz),
        0x69 => Some(Instr::I32Popcnt),
        0x6A => Some(Instr::I32Add),
        0x6B => Some(Instr::I32Sub),
        0x6C => Some(Instr::I32Mul),
        0x6D => Some(Instr::I32DivS),
        0x6E => Some(Instr::I32DivU),
        0x6F => Some(Instr::I32RemS),
        0x70 => Some(Instr::I32RemU),
        0x71 => Some(Instr::I32And),
        0x72 => Some(Instr::I32Or),
        0x73 => Some(Instr::I32Xor),
        0x74 => Some(Instr::I32Shl),
        0x75 => Some(Instr::I32ShrS),
        0x76 => Some(Instr::I32ShrU),
        0x77 => Some(Instr::I32Rotl),
        0x78 => Some(Instr::I32Rotr),
        0x79 => Some(Instr::I64Clz),
        0x7A => Some(Instr::I64Ctz),
        0x7B => Some(Instr::I64Popcnt),
        0x7C => Some(Instr::I64Add),
        0x7D => Some(Instr::I64Sub),
        0x7E => Some(Instr::I64Mul),
        0x7F => Some(Instr::I64DivS),
        0x80 => Some(Instr::I64DivU),
        0x81 => Some(Instr::I64RemS),
        0x82 => Some(Instr::I64RemU),
        0x83 => Some(Instr::I64And),
        0x84 => Some(Instr::I64Or),
        0x85 => Some(Instr::I64Xor),
        0x86 => Some(Instr::I64Shl),
        0x87 => Some(Instr::I64ShrS),
        0x88 => Some(Instr::I64ShrU),
        0x89 => Some(Instr::I64Rotl),
        0x8A => Some(Instr::I64Rotr),
        0x8B => Some(Instr::F32Abs),
        0x8C => Some(Instr::F32Neg),
        0x8D => Some(Instr::F32Ceil),
        0x8E => Some(Instr::F32Floor),
        0x8F => Some(Instr::F32Trunc),
        0x90 => Some(Instr::F32Nearest),
        0x91 => Some(Instr::F32Sqrt),
        0x92 => Some(Instr::F32Add),
        0x93 => Some(Instr::F32Sub),
        0x94 => Some(Instr::F32Mul),
        0x95 => Some(Instr::F32Div),
        0x96 => Some(Instr::F32Min),
        0x97 => Some(Instr::F32Max),
        0x98 => Some(Instr::F32CopySign),
        0x99 => Some(Instr::F64Abs),
        0x9A => Some(Instr::F64Neg),
        0x9B => Some(Instr::F64Ceil),
        0x9C => Some(Instr::F64Floor),
        0x9D => Some(Instr::F64Trunc),
        0x9E => Some(Instr::F64Nearest),
        0x9F => Some(Instr::F64Sqrt),
        0xA0 => Some(Instr::F64Add),
        0xA1 => Some(Instr::F64Sub),
        0xA2 => Some(Instr::F64Mul),
        0xA3 => Some(Instr::F64Div),
        0xA4 => Some(Instr::F64Min),
        0xA5 => Some(Instr::F64Max),
        0xA6 => Some(Instr::F64CopySign),
        0xA7 => Some(Instr::I32WrapI64),
        0xA8 => Some(Instr::I32TruncSF32),
        0xA9 => Some(Instr::I32TruncUF32),
        0xAA => Some(Instr::I32TruncSF64),
        0xAB => Some(Instr::I32TruncUF64),
        0xAC => Some(Instr::I64ExtendSI32),
        0xAD => Some(Instr::I64ExtendUI32),
        0xAE => Some(Instr::I64TruncSF32),
        0xAF => Some(Instr::I64TruncUF32),
        0xB0 => Some(Instr::I64TruncSF64),
        0xB1 => Some(Instr::I64TruncUF64),
        0xB2 => Some(Instr::F32ConvertSI32),
        0xB3 => Some(Instr::F32ConvertUI32),
        0xB4 => Some(Instr::F32ConvertSI64),
        0xB5 => Some(Instr::F32ConvertUI64),
        0xB6 => Some(Instr::F32DemoteF64),
        0xB7 => Some(Instr::F64ConvertSI32),
        0xB8 => Some(Instr::F64ConvertUI32),
        0xB9 => Some(Instr::F64ConvertSI64),
        0xBA => Some(Instr::F64ConvertUI64),
        0xBB => Some(Instr::F64PromoteF32),
        0xBC => Some(Instr::I32ReinterpretF32),
        0xBD => Some(Instr::I64ReinterpretF64),
        0xBE => Some(Instr::F32ReinterpretI32),
        0xBF => Some(Instr::F64ReinterpretI64),
        _ => None,
    }
}

/// The memory instruction with the opcode `op` and the immediate `m`.
fn memory_of(op: u8, m: Memarg) -> (r: Instr)
    requires
        0x28 <= op <= 0x3E,
    ensures
        r == memory_instr(op, m),
{
    match op {
        0x28 => Instr::I32Load(m),
        0x29 => Instr::I64Load(m),
        0x2A => Instr::F32Load(m),
        0x2B => Instr::F64Load(m),
        0x2C => Instr::I32Load8S(m),
        0x2D => Instr::I32Load8U(m),
        0x2E => Instr::I32Load16S(m),
        0x2F => Instr::I32Load16U(m),
        0x30 => Instr::I64Load8S(m),
        0x31 => Instr::I64Load8U(m),
        0x32 => Instr::I64Load16S(m),
        0x33 => Instr::I64Load16U(m),
        0x34 => Instr::I64Load32S(m),
        0x35 => Instr::I64Load32U(m),
        0x36 => Instr::I32Store(m),
        0x37 => Instr::I64Store(m),
        0x38 => Instr::F32Store(m),
        0x39 => Instr::F64Store(m),
        0x3A => Instr::I32Store8(m),
        0x3B => Instr::I32Store16(m),
        0x3C => Instr::I64Store8(m),
        0x3D => Instr::I64Store16(m),
        _ => Instr::I64Store32(m),
    }
}

/// What is left after an instruction without nested instructions is no
/// longer than what followed its opcode.
pub proof fn lemma_flat_instr_consumes(op: u8, t: Seq<u8>)
    ensures
        spec_flat_instr(op, t) matches Ok((rest, v)) ==> rest.len() <= t.len(),
{
    lemma_un_consumes(t, 32);
    lemma_sn_consumes(t, 32);
    lemma_sn_consumes(t, 64);
    if let Ok((t1, _)) = spec_u32(t) {
        lemma_un_consumes(t1, 32);
    }
    assert forall|x: Seq<u8>|
        ((#[trigger] labelidx_production()(x)) matches Ok((rest, v)) ==> rest.len() <= x.len()) by {
        lemma_un_consumes(x, 32);
    }
    lemma_vec_consumes(t, labelidx_production());
    if let Ok((t1, _)) = spec_vec(t, labelidx_production()) {
        lemma_un_consumes(t1, 32);
    }
}

/// What is left after an instruction is shorter than the input.
pub proof fn lemma_instr_consumes(s: Seq<u8>)
    ensures
        spec_instr(s) matches Ok((rest, v)) ==> rest.len() < s.len(),
    decreases s.len(), 0nat,
{
    if s.len() > 0 {
        let op = s[0];
        let t = s.skip(1);
        if op == 0x02 || op == 0x03 || op == 0x04 {
            if let Ok((t1, rt)) = spec_blocktype(t) {
                lemma_instrs_consumes(t1);
                if let Ok((t2, _)) = spec_instrs(t1) {
                    if t2.len() > 0 && t2[0] == 0x05 {
                        lemma_instrs_consumes(t2.skip(1));
                    }
                }
            }
        } else {
            lemma_flat_instr_consumes(op, t);
        }
    }
}

/// What is left after a sequence of instructions is no longer than the
/// input.
pub proof fn lemma_instrs_consumes(s: Seq<u8>)
    ensures
        spec_instrs(s) matches Ok((rest, v)) ==> rest.len() <= s.len(),
    decreases s.len(), 1nat,
{
    if !(s.len() == 0 || is_terminator(s[0])) {
        lemma_instr_consumes(s);
        if let Ok((rest, i)) = spec_instr(s) {
            lemma_instrs_consumes(rest);
        }
    }
}

/// A sequence of instructions that does not start with a byte that ends it
/// is an instruction and then a sequence of instructions.
pub proof fn lemma_instrs_unfold(s: Seq<u8>)
    requires
        s.len() > 0,
        !is_terminator(s[0]),
    ensures
        spec_instrs(s) == match spec_instr(s) {
            Ok((rest, i)) => with_prefix(seq![i], spec_instrs(rest)),
            Err(e) => Err(e),
        },
{
    lemma_instr_consumes(s);
}

/// A block or a loop decodes exactly when its opcode is followed by a block
/// type, by instructions that decode, and by the end marker.
pub proof fn lemma_block_nesting(s: Seq<u8>)
    requires
        s.len() > 0,
        s[0] == 0x02 || s[0] == 0x03,
    ensures
        spec_instr(s) is Ok <==> (spec_blocktype(s.skip(1)) matches Ok((t1, rt)) && (spec_instrs(
            t1,
        ) matches Ok((t2, body)) && t2.len() > 0 && t2[0] == 0x0B)),
        spec_blocktype(s.skip(1)) matches Ok((t1, rt)) ==> (spec_instrs(t1) matches Ok(
            (t2, body),
        ) ==> (t2.len() > 0 && t2[0] == 0x0B ==> spec_instr(s) == Ok::<
            (Seq<u8>, InstrView),
            DecodeError,
        >((t2.skip(1), block_instr(s[0], rt, body))))),
{
}

/// An if decodes exactly when its opcode is followed by a block type, by
/// instructions that decode, and then either by the end marker, or by the
/// else marker, instructions that decode, and the end marker.
pub proof fn lemma_if_nesting(s: Seq<u8>)
    requires
        s.len() > 0,
        s[0] == 0x04,
    ensures
        spec_instr(s) is Ok <==> (spec_blocktype(s.skip(1)) matches Ok((t1, rt)) && (spec_instrs(
            t1,
        ) matches Ok((t2, then_body)) && t2.len() > 0 && (t2[0] == 0x0B || (t2[0] == 0x05
            && (spec_instrs(t2.skip(1)) matches Ok((t3, else_body)) && t3.len() > 0 && t3[0]
            == 0x0B))))),
{
    if let Ok((t1, rt)) = spec_blocktype(s.skip(1)) {
        lemma_instrs_consumes(t1);
    }
}

/// What a vector of instructions stands for, either way of writing it.
pub proof fn lemma_instrs_views(s: Seq<Instr>)
    ensures
        instrs_view(s) == views(s),
{
    assert(instrs_view(s) =~= views(s));
}

/// Decodes an instruction that holds no other instruction, after its opcode.
fn parse_flat_instr<'a>(op: u8, t: &'a [u8]) -> (r: Decoded<'a, Instr>)
    ensures
        decodes_to(r, spec_flat_instr(op, t@)),
{
    if op == 0x0C {
        match parse_labelidx(t) {
            Ok((rest, l)) => Ok((rest, Instr::Br(l))),
            Err(e) => Err(e),
        }
    } else if op == 0x0D {
        match parse_labelidx(t) {
            Ok((rest, l)) => Ok((rest, Instr::BrIf(l))),
            Err(e) => Err(e),
        }
    } else if op == 0x0E {
        proof {
            assert(computes(parse_labelidx, labelidx_production()));
        }
        let (t1, labels) = match parse_vec(t, parse_labelidx) {
            Ok(x) => x,
            Err(e) => {
                return Err(e);
            },
        };
        assert(views(labels@) =~= labels@);
        match parse_labelidx(t1) {
            Ok((rest, default)) => Ok((rest, Instr::BrTable(labels, default))),
            Err(e) => Err(e),
        }
    } else if op == 0x10 {
        match parse_funcidx(t) {
            Ok((rest, x)) => Ok((rest, Instr::Call(x))),
            Err(e) => Err(e),
        }
    } else if op == 0x11 {
        let (t1, x) = match parse_typeidx(t) {
            Ok(x) => x,
            Err(e) => {
                return Err(e);
            },
        };
        match parse_tag(t1, 0x00) {
            Ok((rest, _)) => Ok((rest, Instr::CallIndirect(x))),
            Err(e) => Err(e),
        }
    } else if op == 0x20 {
        match parse_localidx(t) {
            Ok((rest, x)) => Ok((rest, Instr::GetLocal(x))),
            Err(e) => Err(e),
        }
    } else if op == 0x21 {
        match parse_localidx(t) {
            Ok((rest, x)) => Ok((rest, Instr::SetLocal(x))),
            Err(e) => Err(e),
        }
    } else if op == 0x22 {
        match parse_localidx(t) {
            Ok((rest, x)) => Ok((rest, Instr::TeeLocal(x))),
            Err(e) => Err(e),
        }
    } else if op == 0x23 {
        match parse_globalidx(t) {
            Ok((rest, x)) => Ok((rest, Instr::GetGlobal(x))),
            Err(e) => Err(e),
        }
    } else if op == 0x24 {
        match parse_globalidx(t) {
            Ok((rest, x)) => Ok((rest, Instr::SetGlobal(x))),
            Err(e) => Err(e),
        }
    } else if 0x28 <= op && op <= 0x3E {
        match parse_memarg(t) {
            Ok((rest, m)) => Ok((rest, memory_of(op, m))),
            Err(e) => Err(e),
        }
    } else if op == 0x41 {
        match parse_i32(t) {
            Ok((rest, n)) => Ok((rest, Instr::I32Const(n))),
            Err(e) => Err(e),
        }
    } else if op == 0x42 {
        match parse_i64(t) {
            Ok((rest, n)) => Ok((rest, Instr::I64Const(n))),
            Err(e) => Err(e),
        }
    } else if op == 0x43 {
        match parse_f32(t) {
            Ok((rest, z)) => Ok((rest, Instr::F32Const(z))),
            Err(e) => Err(e),
        }
    } else if op == 0x44 {
        match parse_f64(t) {
            Ok((rest, z)) => Ok((rest, Instr::F64Const(z))),
            Err(e) => Err(e),
        }
    } else {
        match plain_of(op) {
            Some(i) => Ok((t, i)),
            None => Err(DecodeError::MalformedOpcode),
        }
    }
}

/// Decodes one instruction, with all that is nested in it.
pub fn parse_instr<'a>(input: &'a [u8]) -> (r: Decoded<'a, Instr>)
    ensures
        decodes_to(r, spec_instr(input@)),
    decreases input@.len(), 0nat,
{
    if input.len() == 0 {
        return Err(DecodeError::MalformedFormat);
    }
    let op: u8 = input[0];
    let t = advance(input, 1);
    if op == 0x02 || op == 0x03 {
        let (t1, rt) = match parse_blocktype(t) {
            Ok(x) => x,
            Err(e) => {
                return Err(e);
            },
        };
        let (t2, body) = match parse_instrs(t1) {
            Ok(x) => x,
            Err(e) => {
                return Err(e);
            },
        };
        let rest = match parse_tag(t2, 0x0B) {
            Ok((rest, _)) => rest,
            Err(e) => {
                return Err(e);
            },
        };
        proof {
            lemma_instrs_views(body@);
        }
        if op == 0x02 {
            Ok((rest, Instr::Block(rt, body)))
        } else {
            Ok((rest, Instr::Loop(rt, body)))
        }
    } else if op == 0x04 {
        let (t1, rt) = match parse_blocktype(t) {
            Ok(x) => x,
            Err(e) => {
                return Err(e);
            },
        };
        let (t2, then_body) = match parse_instrs(t1) {
            Ok(x) => x,
            Err(e) => {
                return Err(e);
            },
        };
        proof {
            lemma_instrs_consumes(t1@);
            lemma_instrs_views(then_body@);
        }
        if t2.len() > 0 && t2[0] == 0x05 {
            let (t3, else_body) = match parse_instrs(advance(t2, 1)) {
                Ok(x) => x,
                Err(e) => {
                    return Err(e);
                },
            };
            proof {
                lemma_instrs_views(else_body@);
            }
            match parse_tag(t3, 0x0B) {
                Ok((rest, _)) => Ok((rest, Instr::IfElse(rt, then_body, else_body))),
                Err(e) => Err(e),
            }
        } else {
            let else_body: Vec<Instr> = Vec::new();
            proof {
                lemma_instrs_views(else_body@);
                assert(views(else_body@) =~= Seq::<InstrView>::empty());
            }
            match parse_tag(t2, 0x0B) {
                Ok((rest, _)) => Ok((rest, Instr::IfElse(rt, then_body, else_body))),
                Err(e) => Err(e),
            }
        }
    } else {
        parse_flat_instr(op, t)
    }
}

/// Decodes instructions up to the end marker, the else marker or the end of
/// the input, and leaves that marker in the rest.
pub fn parse_instrs<'a>(input: &'a [u8]) -> (r: Decoded<'a, Vec<Instr>>)
    ensures
        decodes_to_seq(r, spec_instrs(input@)),
    decreases input@.len(), 1nat,
{
    let mut cur: &'a [u8] = input;
    let mut out: Vec<Instr> = Vec::new();
    loop
        invariant
            cur@.len() <= input@.len(),
            spec_instrs(input@) == with_prefix(views(out@), spec_instrs(cur@)),
        decreases cur@.len(),
    {
        if cur.len() == 0 || cur[0] == 0x0B || cur[0] == 0x05 {
            assert(views(out@) + Seq::<InstrView>::empty() =~= views(out@));
            return Ok((cur, out));
        }
        let step = parse_instr(cur);
        proof {
            lemma_instr_consumes(cur@);
        }
        match step {
            Ok((next, i)) => {
                proof {
                    if let Ok((rest, items)) = spec_instrs(next@) {
                        assert(views(out@) + (seq![i@] + items) =~= views(out@.push(i)) + items);
                    }
                }
                out.push(i);
                cur = next;
            },
            Err(e) => {
                return Err(e);
            },
        }
    }
}

/// Decodes an expression.
pub fn parse_expr<'a>(input: &'a [u8]) -> (r: Decoded<'a, Expr>)
    ensures
        decodes_to(r, spec_expr(input@)),
{
    let (s1, body) = match parse_instrs(input) {
        Ok(x) => x,
        Err(e) => {
            return Err(e);
        },
    };
    proof {
        lemma_instrs_views(body@);
    }
    match parse_tag(s1, 0x0B) {
        Ok((rest, _)) => Ok((rest, Expr { body })),
        Err(e) => Err(e),
    }
}

} // verus!
