//! How types, sections and instructions are written, and that decoding
//! reads back what was written.

use vstd::prelude::*;
use vstd::arithmetic::power2::lemma2_to64;
use vstd::arithmetic::power2::lemma2_to64_rest;
use vstd::arithmetic::power2::lemma_pow2_unfold;
use vstd::arithmetic::power2::pow2;
use crate::decoding::indices::labelidx_production;
use crate::decoding::binary_format::lemma_repeat_len;
use crate::decoding::binary_format::section_outcome;
use crate::decoding::binary_format::spec_blocktype;
use crate::decoding::binary_format::spec_functype;
use crate::decoding::binary_format::spec_limits;
use crate::decoding::binary_format::spec_section;
use crate::decoding::binary_format::spec_section_frame;
use crate::decoding::binary_format::spec_valtype;
use crate::decoding::binary_format::valtype_production;
use crate::decoding::binary_format::spec_repeat;
use crate::decoding::instructions::block_instr;
use crate::decoding::instructions::is_terminator;
use crate::decoding::instructions::lemma_instr_consumes;
use crate::decoding::instructions::memory_instr;
use crate::decoding::instructions::plain_instr;
use crate::decoding::instructions::spec_expr;
use crate::decoding::instructions::spec_flat_instr;
use crate::decoding::instructions::spec_instr;
use crate::decoding::instructions::spec_instrs;
use crate::decoding::integers::lemma_f32_round_trip;
use crate::decoding::integers::lemma_f64_round_trip;
use crate::decoding::integers::lemma_sn_round_trip;
use crate::decoding::integers::lemma_u32_round_trip;
use crate::decoding::integers::spec_encode_sn;
use crate::decoding::integers::spec_encode_un;
use crate::decoding::integers::spec_le_bytes_u32;
use crate::decoding::integers::spec_le_bytes_u64;
use crate::decoding::integers::spec_u32;
use crate::decoding::integers::twos_complement;
use crate::decoding::outcome::DecodeError;
use crate::decoding::outcome::Parsed;
use crate::structure::instructions::Instr;
use crate::structure::instructions::InstrView;
use crate::structure::instructions::Memarg;
use crate::structure::modules::LabelIdx;
use crate::structure::types::FuncTypeView;
use crate::structure::types::Limits;
use crate::structure::types::ResultType;
use crate::structure::types::ValType;

verus! {

/// The byte of a value type.
pub open spec fn spec_encode_valtype(t: ValType) -> u8 {
    match t {
        ValType::I32 => 0x7F,
        ValType::I64 => 0x7E,
        ValType::F32 => 0x7D,
        ValType::F64 => 0x7C,
    }
}

/// The byte of a block type.
pub open spec fn spec_encode_blocktype(rt: ResultType) -> Seq<u8> {
    match rt {
        None => seq![0x40u8],
        Some(t) => seq![spec_encode_valtype(t)],
    }
}

/// The signed integer of `bits` bits with the bit pattern `n`.
pub open spec fn as_signed(n: int, bits: nat) -> int
    recommends
        bits >= 1,
        0 <= n < pow2(bits),
{
    if n >= pow2((bits - 1) as nat) {
        n - pow2(bits)
    } else {
        n
    }
}

/// A memory immediate: the alignment, then the offset.
pub open spec fn spec_encode_memarg(m: Memarg) -> Seq<u8> {
    spec_encode_un(m.align as nat) + spec_encode_un(m.offset as nat)
}

/// Label indices, one after the other.
pub open spec fn spec_encode_labels(labels: Seq<LabelIdx>) -> Seq<u8>
    decreases labels.len(),
{
    if labels.len() == 0 {
        Seq::empty()
    } else {
        spec_encode_un(labels[0].0 as nat) + spec_encode_labels(labels.skip(1))
    }
}

/// The opcode of an instruction that carries nothing after its opcode.
pub open spec fn plain_opcode(i: Instr) -> Option<u8> {
    match i {
        Instr::Unreachable => Some(0x00),
        Instr::Nop => Some(0x01),
        Instr::Return => Some(0x0F),
        Instr::Drop => Some(0x1A),
        Instr::Select => Some(0x1B),
        Instr::CurrentMemory => Some(0x3F),
        Instr::GrowMemory => Some(0x40),
        Instr::I32EqZ => Some(0x45),
        Instr::I32Eq => Some(0x46),
        Instr::I32Ne => Some(0x47),
        Instr::I32LtS => Some(0x48),
        Instr::I32LtU => Some(0x49),
        Instr::I32GtS => Some(0x4A),
        Instr::I32GtU => Some(0x4B),
        Instr::I32LeS => Some(0x4C),
        Instr::I32LeU => Some(0x4D),
        Instr::I32GeS => Some(0x4E),
        Instr::I32GeU => Some(0x4F),
        Instr::I64EqZ => Some(0x50),
        Instr::I64Eq => Some(0x51),
        Instr::I64Ne => Some(0x52),
        Instr::I64LtS => Some(0x53),
        Instr::I64LtU => Some(0x54),
        Instr::I64GtS => Some(0x55),
        Instr::I64GtU => Some(0x56),
        Instr::I64LeS => Some(0x57),
        Instr::I64LeU => Some(0x58),
        Instr::I64GeS => Some(0x59),
        Instr::I64GeU => Some(0x5A),
        Instr::F32Eq => Some(0x5B),
        Instr::F32Ne => Some(0x5C),
        Instr::F32Lt => Some(0x5D),
        Instr::F32Gt => Some(0x5E),
        Instr::F32Le => Some(0x5F),
        Instr::F32Ge => Some(0x60),
        Instr::F64Eq => Some(0x61),
        Instr::F64Ne => Some(0x62),
        Instr::F64Lt => Some(0x63),
        Instr::F64Gt => Some(0x64),
        Instr::F64Le => Some(0x65),
        Instr::F64Ge => Some(0x66),
        Instr::I32Clz => Some(0x67),
        Instr::I32Ctz => Some(0x68),
        Instr::I32Popcnt => Some(0x69),
        Instr::I32Add => Some(0x6A),
        Instr::I32Sub => Some(0x6B),
        Instr::I32Mul => Some(0x6C),
        Instr::I32DivS => Some(0x6D),
        Instr::I32DivU => Some(0x6E),
        Instr::I32RemS => Some(0x6F),
        Instr::I32RemU => Some(0x70),
        Instr::I32And => Some(0x71),
        Instr::I32Or => Some(0x72),
        Instr::I32Xor => Some(0x73),
        Instr::I32Shl => Some(0x74),
        Instr::I32ShrS => Some(0x75),
        Instr::I32ShrU => Some(0x76),
        Instr::I32Rotl => Some(0x77),
        Instr::I32Rotr => Some(0x78),
        Instr::I64Clz => Some(0x79),
        Instr::I64Ctz => Some(0x7A),
        Instr::I64Popcnt => Some(0x7B),
        Instr::I64Add => Some(0x7C),
        Instr::I64Sub => Some(0x7D),
        Instr::I64Mul => Some(0x7E),
        Instr::I64DivS => Some(0x7F),
        Instr::I64DivU => Some(0x80),
        Instr::I64RemS => Some(0x81),
        Instr::I64RemU => Some(0x82),
        Instr::I64And => Some(0x83),
        Instr::I64Or => Some(0x84),
        Instr::I64Xor => Some(0x85),
        Instr::I64Shl => Some(0x86),
        Instr::I64ShrS => Some(0x87),
        Instr::I64ShrU => Some(0x88),
        Instr::I64Rotl => Some(0x89),
        Instr::I64Rotr => Some(0x8A),
        Instr::F32Abs => Some(0x8B),
        Instr::F32Neg => Some(0x8C),
        Instr::F32Ceil => Some(0x8D),
        Instr::F32Floor => Some(0x8E),
        Instr::F32Trunc => Some(0x8F),
        Instr::F32Nearest => Some(0x90),
        Instr::F32Sqrt => Some(0x91),
        Instr::F32Add => Some(0x92),
        Instr::F32Sub => Some(0x93),
        Instr::F32Mul => Some(0x94),
        Instr::F32Div => Some(0x95),
        Instr::F32Min => Some(0x96),
        Instr::F32Max => Some(0x97),
        Instr::F32CopySign => Some(0x98),
        Instr::F64Abs => Some(0x99),
        Instr::F64Neg => Some(0x9A),
        Instr::F64Ceil => Some(0x9B),
        Instr::F64Floor => Some(0x9C),
        Instr::F64Trunc => Some(0x9D),
        Instr::F64Nearest => Some(0x9E),
        Instr::F64Sqrt => Some(0x9F),
        Instr::F64Add => Some(0xA0),
        Instr::F64Sub => Some(0xA1),
        Instr::F64Mul => Some(0xA2),
        Instr::F64Div => Some(0xA3),
        Instr::F64Min => Some(0xA4),
        Instr::F64Max => Some(0xA5),
        Instr::F64CopySign => Some(0xA6),
        Instr::I32WrapI64 => Some(0xA7),
        Instr::I32TruncSF32 => Some(0xA8),
        Instr::I32TruncUF32 => Some(0xA9),
        Instr::I32TruncSF64 => Some(0xAA),
        Instr::I32TruncUF64 => Some(0xAB),
        Instr::I64ExtendSI32 => Some(0xAC),
        Instr::I64ExtendUI32 => Some(0xAD),
        Instr::I64TruncSF32 => Some(0xAE),
        Instr::I64TruncUF32 => Some(0xAF),
        Instr::I64TruncSF64 => Some(0xB0),
        Instr::I64TruncUF64 => Some(0xB1),
        Instr::F32ConvertSI32 => Some(0xB2),
        Instr::F32ConvertUI32 => Some(0xB3),
        Instr::F32ConvertSI64 => Some(0xB4),
        Instr::F32ConvertUI64 => Some(0xB5),
        Instr::F32DemoteF64 => Some(0xB6),
        Instr::F64ConvertSI32 => Some(0xB7),
        Instr::F64ConvertUI32 => Some(0xB8),
        Instr::F64ConvertSI64 => Some(0xB9),
        Instr::F64ConvertUI64 => Some(0xBA),
        Instr::F64PromoteF32 => Some(0xBB),
        Instr::I32ReinterpretF32 => Some(0xBC),
        Instr::I64ReinterpretF64 => Some(0xBD),
        Instr::F32ReinterpretI32 => Some(0xBE),
        Instr::F64ReinterpretI64 => Some(0xBF),
        _ => None,
    }
}

/// The opcode and the immediate of a memory instruction.
pub open spec fn memory_opcode(i: Instr) -> Option<(u8, Memarg)> {
    match i {
        Instr::I32Load(m) => Some((0x28, m)),
        Instr::I64Load(m) => Some((0x29, m)),
        Instr::F32Load(m) => Some((0x2A, m)),
        Instr::F64Load(m) => Some((0x2B, m)),
        Instr::I32Load8S(m) => Some((0x2C, m)),
        Instr::I32Load8U(m) => Some((0x2D, m)),
        Instr::I32Load16S(m) => Some((0x2E, m)),
        Instr::I32Load16U(m) => Some((0x2F, m)),
        Instr::I64Load8S(m) => Some((0x30, m)),
        Instr::I64Load8U(m) => Some((0x31, m)),
        Instr::I64Load16S(m) => Some((0x32, m)),
        Instr::I64Load16U(m) => Some((0x33, m)),
        Instr::I64Load32S(m) => Some((0x34, m)),
        Instr::I64Load32U(m) => Some((0x35, m)),
        Instr::I32Store(m) => Some((0x36, m)),
        Instr::I64Store(m) => Some((0x37, m)),
        Instr::F32Store(m) => Some((0x38, m)),
        Instr::F64Store(m) => Some((0x39, m)),
        Instr::I32Store8(m) => Some((0x3A, m)),
        Instr::I32Store16(m) => Some((0x3B, m)),
        Instr::I64Store8(m) => Some((0x3C, m)),
        Instr::I64Store16(m) => Some((0x3D, m)),
        Instr::I64Store32(m) => Some((0x3E, m)),
        _ => None,
    }
}

/// The instruction holds no other instruction and no vector.
pub open spec fn is_flat(i: Instr) -> bool {
    !(i is Block) && !(i is Loop) && !(i is IfElse) && !(i is BrTable)
}

/// How an instruction that holds no other instruction is written: its
/// opcode, then what the opcode asks for, each integer in its shortest form.
pub open spec fn spec_encode_flat(i: Instr) -> Seq<u8>
    recommends
        is_flat(i),
{
    match i {
        Instr::Br(l) => seq![0x0Cu8] + spec_encode_un(l.0 as nat),
        Instr::BrIf(l) => seq![0x0Du8] + spec_encode_un(l.0 as nat),
        Instr::Call(x) => seq![0x10u8] + spec_encode_un(x.0 as nat),
        Instr::CallIndirect(x) => seq![0x11u8] + spec_encode_un(x.0 as nat) + seq![0x00u8],
        Instr::GetLocal(x) => seq![0x20u8] + spec_encode_un(x.0 as nat),
        Instr::SetLocal(x) => seq![0x21u8] + spec_encode_un(x.0 as nat),
        Instr::TeeLocal(x) => seq![0x22u8] + spec_encode_un(x.0 as nat),
        Instr::GetGlobal(x) => seq![0x23u8] + spec_encode_un(x.0 as nat),
        Instr::SetGlobal(x) => seq![0x24u8] + spec_encode_un(x.0 as nat),
        Instr::I32Const(n) => seq![0x41u8] + spec_encode_sn(as_signed(n as int, 32)),
        Instr::I64Const(n) => seq![0x42u8] + spec_encode_sn(as_signed(n as int, 64)),
        Instr::F32Const(z) => seq![0x43u8] + spec_le_bytes_u32(z.bits),
        Instr::F64Const(z) => seq![0x44u8] + spec_le_bytes_u64(z.bits),
        _ => match memory_opcode(i) {
            Some((op, m)) => seq![op] + spec_encode_memarg(m),
            None => match plain_opcode(i) {
                Some(op) => seq![op],
                None => Seq::empty(),
            },
        },
    }
}

/// What is written is an instruction that can be decoded: nothing stands
/// for a structured instruction but its parts, and a branch table has a
/// count that fits 32 bits.
pub open spec fn well_formed(v: InstrView) -> bool
    decreases v,
{
    match v {
        InstrView::Plain(i) => is_flat(i),
        InstrView::Block(_, body) => all_well_formed(body),
        InstrView::Loop(_, body) => all_well_formed(body),
        InstrView::IfElse(_, then_body, else_body) => all_well_formed(then_body)
            && all_well_formed(else_body),
        InstrView::BrTable(labels, _) => labels.len() <= u32::MAX,
    }
}

/// Every instruction of the sequence is well formed.
pub open spec fn all_well_formed(vs: Seq<InstrView>) -> bool
    decreases vs,
{
    forall|k: int| 0 <= k < vs.len() ==> well_formed(#[trigger] vs[k])
}

/// How an instruction is written. An if is written without an else marker
/// where it has nothing to do otherwise.
pub open spec fn spec_encode_instr(v: InstrView) -> Seq<u8>
    decreases v, 0nat,
{
    match v {
        InstrView::Plain(i) => spec_encode_flat(i),
        InstrView::Block(rt, body) => seq![0x02u8] + spec_encode_blocktype(rt)
            + spec_encode_instrs(body, 0) + seq![0x0Bu8],
        InstrView::Loop(rt, body) => seq![0x03u8] + spec_encode_blocktype(rt) + spec_encode_instrs(
            body,
            0,
        ) + seq![0x0Bu8],
        InstrView::IfElse(rt, then_body, else_body) => seq![0x04u8] + spec_encode_blocktype(rt)
            + spec_encode_instrs(then_body, 0) + (if else_body.len() == 0 {
            Seq::empty()
        } else {
            seq![0x05u8] + spec_encode_instrs(else_body, 0)
        }) + seq![0x0Bu8],
        InstrView::BrTable(labels, default) => seq![0x0Eu8] + spec_encode_un(labels.len())
            + spec_encode_labels(labels) + spec_encode_un(default.0 as nat),
    }
}

/// How the instructions of `vs` from the position `k` on are written: one
/// after the other.
pub open spec fn spec_encode_instrs(vs: Seq<InstrView>, k: nat) -> Seq<u8>
    decreases vs, vs.len() - k,
{
    if k >= vs.len() {
        Seq::empty()
    } else {
        spec_encode_instr(vs[k as int]) + spec_encode_instrs(vs, k + 1)
    }
}

/// A block type that was written is read back.
pub proof fn lemma_blocktype_round_trip(rt: ResultType, rest: Seq<u8>)
    ensures
        spec_blocktype(spec_encode_blocktype(rt) + rest) == Ok::<(Seq<u8>, ResultType), DecodeError>(
            (rest, rt),
        ),
{
    let s = spec_encode_blocktype(rt) + rest;
    assert(s.skip(1) =~= rest);
}

/// Label indices that were written are read back, as many as were written.
pub proof fn lemma_labels_round_trip(labels: Seq<LabelIdx>, rest: Seq<u8>)
    ensures
        spec_repeat(spec_encode_labels(labels) + rest, labels.len(), labelidx_production()) == Ok::<
            (Seq<u8>, Seq<LabelIdx>),
            DecodeError,
        >((rest, labels)),
    decreases labels.len(),
{
    if labels.len() == 0 {
        assert(spec_encode_labels(labels) + rest =~= rest);
        assert(labels =~= Seq::<LabelIdx>::empty());
    } else {
        let s = spec_encode_labels(labels) + rest;
        let tail = spec_encode_labels(labels.skip(1)) + rest;
        assert(s =~= spec_encode_un(labels[0].0 as nat) + tail);
        lemma_u32_round_trip(labels[0].0, tail);
        lemma_labels_round_trip(labels.skip(1), rest);
        assert(seq![labels[0]] + labels.skip(1) =~= labels);
    }
}

/// The two's complement of the signed integer with the bit pattern `n` is
/// `n`.
pub proof fn lemma_as_signed(n: int, bits: nat)
    requires
        bits >= 1,
        0 <= n < pow2(bits),
    ensures
        -pow2((bits - 1) as nat) <= as_signed(n, bits) < pow2((bits - 1) as nat),
        twos_complement(as_signed(n, bits), bits) == n,
{
    lemma_pow2_unfold(bits);
}

/// An instruction that carries nothing after its opcode is the one that
/// its opcode stands for, and its opcode starts no other kind of
/// instruction.
pub proof fn lemma_plain_opcode(i: Instr, t: Seq<u8>)
    ensures
        plain_opcode(i) matches Some(op) ==> plain_instr(op) == Some(i) && spec_flat_instr(op, t)
            == Ok::<(Seq<u8>, InstrView), DecodeError>((t, InstrView::Plain(i))) && op != 0x02
            && op != 0x03 && op != 0x04,
{
}

/// A memory instruction is the one that its opcode and its immediate stand
/// for.
pub proof fn lemma_memory_opcode(i: Instr)
    ensures
        memory_opcode(i) matches Some((op, m)) ==> 0x28 <= op <= 0x3E && memory_instr(op, m) == i,
{
}

/// An instruction that holds no other instruction and no vector is a
/// memory instruction, one that carries nothing, or one of the thirteen
/// that carry an index or a constant.
pub proof fn lemma_flat_kinds(i: Instr)
    requires
        is_flat(i),
    ensures
        memory_opcode(i) is Some || plain_opcode(i) is Some || i is Br || i is BrIf || i is Call
            || i is CallIndirect || i is GetLocal || i is SetLocal || i is TeeLocal
            || i is GetGlobal || i is SetGlobal || i is I32Const || i is I64Const
            || i is F32Const || i is F64Const,
{
}

/// An instruction that holds no other instruction is read back from what
/// it is written as, whatever follows.
pub proof fn lemma_flat_round_trip(i: Instr, rest: Seq<u8>)
    requires
        is_flat(i),
    ensures
        ({
            let s = spec_encode_flat(i) + rest;
            &&& s.len() > 0
            &&& s[0] != 0x02 && s[0] != 0x03 && s[0] != 0x04
            &&& spec_flat_instr(s[0], s.skip(1)) == Ok::<(Seq<u8>, InstrView), DecodeError>(
                (rest, InstrView::Plain(i)),
            )
        }),
{
    let s = spec_encode_flat(i) + rest;
    lemma2_to64();
    lemma2_to64_rest();
    match i {
        Instr::Br(l) => {
            assert(s.skip(1) =~= spec_encode_un(l.0 as nat) + rest);
            lemma_u32_round_trip(l.0, rest);
        },
        Instr::BrIf(l) => {
            assert(s.skip(1) =~= spec_encode_un(l.0 as nat) + rest);
            lemma_u32_round_trip(l.0, rest);
        },
        Instr::Call(x) => {
            assert(s.skip(1) =~= spec_encode_un(x.0 as nat) + rest);
            lemma_u32_round_trip(x.0, rest);
        },
        Instr::CallIndirect(x) => {
            let tail = seq![0x00u8] + rest;
            assert(s.skip(1) =~= spec_encode_un(x.0 as nat) + tail);
            lemma_u32_round_trip(x.0, tail);
            assert(tail.skip(1) =~= rest);
        },
        Instr::GetLocal(x) => {
            assert(s.skip(1) =~= spec_encode_un(x.0 as nat) + rest);
            lemma_u32_round_trip(x.0, rest);
        },
        Instr::SetLocal(x) => {
            assert(s.skip(1) =~= spec_encode_un(x.0 as nat) + rest);
            lemma_u32_round_trip(x.0, rest);
        },
        Instr::TeeLocal(x) => {
            assert(s.skip(1) =~= spec_encode_un(x.0 as nat) + rest);
            lemma_u32_round_trip(x.0, rest);
        },
        Instr::GetGlobal(x) => {
            assert(s.skip(1) =~= spec_encode_un(x.0 as nat) + rest);
            lemma_u32_round_trip(x.0, rest);
        },
        Instr::SetGlobal(x) => {
            assert(s.skip(1) =~= spec_encode_un(x.0 as nat) + rest);
            lemma_u32_round_trip(x.0, rest);
        },
        Instr::I32Const(n) => {
            let v = as_signed(n as int, 32);
            assert(s.skip(1) =~= spec_encode_sn(v) + rest);
            lemma_as_signed(n as int, 32);
            lemma_sn_round_trip(v, 32, rest);
        },
        Instr::I64Const(n) => {
            let v = as_signed(n as int, 64);
            assert(s.skip(1) =~= spec_encode_sn(v) + rest);
            lemma_as_signed(n as int, 64);
            lemma_sn_round_trip(v, 64, rest);
        },
        Instr::F32Const(z) => {
            assert(s.skip(1) =~= spec_le_bytes_u32(z.bits) + rest);
            lemma_f32_round_trip(z, rest);
        },
        Instr::F64Const(z) => {
            assert(s.skip(1) =~= spec_le_bytes_u64(z.bits) + rest);
            lemma_f64_round_trip(z, rest);
        },
        _ => {
            lemma_flat_kinds(i);
            lemma_memory_opcode(i);
            match memory_opcode(i) {
                Some((op, m)) => {
                    let tail = spec_encode_un(m.offset as nat) + rest;
                    assert(s.skip(1) =~= spec_encode_un(m.align as nat) + tail);
                    lemma_u32_round_trip(m.align, tail);
                    lemma_u32_round_trip(m.offset, rest);
                },
                None => {
                    assert(s.skip(1) =~= rest);
                    lemma_plain_opcode(i, rest);
                },
            }
        },
    }
}

/// A block or a loop is read back, if its instructions are.
proof fn lemma_block_case(op: u8, rt: ResultType, body: Seq<InstrView>, rest: Seq<u8>)
    requires
        op == 0x02 || op == 0x03,
        spec_instrs(spec_encode_instrs(body, 0) + (seq![0x0Bu8] + rest)) == Ok::<
            (Seq<u8>, Seq<InstrView>),
            DecodeError,
        >((seq![0x0Bu8] + rest, body)),
    ensures
        spec_instr(
            seq![op] + spec_encode_blocktype(rt) + spec_encode_instrs(body, 0) + seq![0x0Bu8]
                + rest,
        ) == Ok::<(Seq<u8>, InstrView), DecodeError>((rest, block_instr(op, rt, body))),
{
    let end = seq![0x0Bu8] + rest;
    let t1 = spec_encode_instrs(body, 0) + end;
    let s = seq![op] + spec_encode_blocktype(rt) + spec_encode_instrs(body, 0) + seq![0x0Bu8]
        + rest;
    assert(end.skip(1) =~= rest);
    assert(s.skip(1) =~= spec_encode_blocktype(rt) + t1);
    lemma_blocktype_round_trip(rt, t1);
}

/// An if is read back, if its instructions are.
proof fn lemma_if_case(
    rt: ResultType,
    then_body: Seq<InstrView>,
    else_body: Seq<InstrView>,
    rest: Seq<u8>,
)
    requires
        else_body.len() == 0 ==> spec_instrs(
            spec_encode_instrs(then_body, 0) + (seq![0x0Bu8] + rest),
        ) == Ok::<(Seq<u8>, Seq<InstrView>), DecodeError>((seq![0x0Bu8] + rest, then_body)),
        else_body.len() > 0 ==> spec_instrs(
            spec_encode_instrs(then_body, 0) + (seq![0x05u8] + (spec_encode_instrs(else_body, 0)
                + (seq![0x0Bu8] + rest))),
        ) == Ok::<(Seq<u8>, Seq<InstrView>), DecodeError>(
            (seq![0x05u8] + (spec_encode_instrs(else_body, 0) + (seq![0x0Bu8] + rest)), then_body),
        ),
        else_body.len() > 0 ==> spec_instrs(
            spec_encode_instrs(else_body, 0) + (seq![0x0Bu8] + rest),
        ) == Ok::<(Seq<u8>, Seq<InstrView>), DecodeError>((seq![0x0Bu8] + rest, else_body)),
    ensures
        spec_instr(spec_encode_instr(InstrView::IfElse(rt, then_body, else_body)) + rest) == Ok::<
            (Seq<u8>, InstrView),
            DecodeError,
        >((rest, InstrView::IfElse(rt, then_body, else_body))),
{
    let s = spec_encode_instr(InstrView::IfElse(rt, then_body, else_body)) + rest;
    let end = seq![0x0Bu8] + rest;
    assert(end.skip(1) =~= rest);
    if else_body.len() == 0 {
        let t1 = spec_encode_instrs(then_body, 0) + end;
        assert(s.skip(1) =~= spec_encode_blocktype(rt) + t1);
        lemma_blocktype_round_trip(rt, t1);
        assert(else_body =~= Seq::<InstrView>::empty());
    } else {
        let t3 = spec_encode_instrs(else_body, 0) + end;
        let t2 = seq![0x05u8] + t3;
        let t1 = spec_encode_instrs(then_body, 0) + t2;
        assert(s.skip(1) =~= spec_encode_blocktype(rt) + t1);
        lemma_blocktype_round_trip(rt, t1);
        assert(t2.skip(1) =~= t3);
    }
}

/// A branch table is read back.
proof fn lemma_br_table_case(labels: Seq<LabelIdx>, default: LabelIdx, rest: Seq<u8>)
    requires
        labels.len() <= u32::MAX,
    ensures
        spec_instr(spec_encode_instr(InstrView::BrTable(labels, default)) + rest) == Ok::<
            (Seq<u8>, InstrView),
            DecodeError,
        >((rest, InstrView::BrTable(labels, default))),
{
    let s = spec_encode_instr(InstrView::BrTable(labels, default)) + rest;
    let t2 = spec_encode_un(default.0 as nat) + rest;
    let t1 = spec_encode_labels(labels) + t2;
    assert(s.skip(1) =~= spec_encode_un(labels.len()) + t1);
    lemma_u32_round_trip(labels.len() as u32, t1);
    lemma_labels_round_trip(labels, t2);
    lemma_u32_round_trip(default.0, rest);
    assert(spec_flat_instr(0x0E, s.skip(1)) == Ok::<(Seq<u8>, InstrView), DecodeError>(
        (rest, InstrView::BrTable(labels, default)),
    ));
}

/// An instruction that holds no other instruction is read back.
proof fn lemma_plain_case(i: Instr, rest: Seq<u8>)
    requires
        is_flat(i),
    ensures
        spec_instr(spec_encode_flat(i) + rest) == Ok::<(Seq<u8>, InstrView), DecodeError>(
            (rest, InstrView::Plain(i)),
        ),
{
    lemma_flat_round_trip(i, rest);
}

/// Decoding reads back what was written: a well-formed instruction comes
/// back from its bytes, whatever follows them, and what follows is left.
pub proof fn lemma_instr_round_trip(v: InstrView, rest: Seq<u8>)
    requires
        well_formed(v),
    ensures
        spec_instr(spec_encode_instr(v) + rest) == Ok::<(Seq<u8>, InstrView), DecodeError>(
            (rest, v),
        ),
    decreases v, 0nat,
{
    let end = seq![0x0Bu8] + rest;
    match v {
        InstrView::Plain(i) => {
            lemma_plain_case(i, rest);
        },
        InstrView::Block(rt, body) => {
            lemma_instrs_round_trip(body, 0, end);
            assert(body.skip(0) =~= body);
            lemma_block_case(0x02, rt, body, rest);
        },
        InstrView::Loop(rt, body) => {
            lemma_instrs_round_trip(body, 0, end);
            assert(body.skip(0) =~= body);
            lemma_block_case(0x03, rt, body, rest);
        },
        InstrView::IfElse(rt, then_body, else_body) => {
            assert(then_body.skip(0) =~= then_body);
            assert(else_body.skip(0) =~= else_body);
            if else_body.len() == 0 {
                lemma_instrs_round_trip(then_body, 0, end);
            } else {
                let t2 = seq![0x05u8] + (spec_encode_instrs(else_body, 0) + end);
                lemma_instrs_round_trip(then_body, 0, t2);
                lemma_instrs_round_trip(else_body, 0, end);
            }
            lemma_if_case(rt, then_body, else_body, rest);
        },
        InstrView::BrTable(labels, default) => {
            lemma_br_table_case(labels, default, rest);
        },
    }
}

/// Decoding reads back a sequence of well-formed instructions from their
/// bytes, if a byte that ends a sequence or nothing follows them.
pub proof fn lemma_instrs_round_trip(vs: Seq<InstrView>, k: nat, rest: Seq<u8>)
    requires
        all_well_formed(vs),
        k <= vs.len(),
        rest.len() == 0 || is_terminator(rest[0]),
    ensures
        spec_instrs(spec_encode_instrs(vs, k) + rest) == Ok::<
            (Seq<u8>, Seq<InstrView>),
            DecodeError,
        >((rest, vs.skip(k as int))),
    decreases vs, vs.len() - k,
{
    let s = spec_encode_instrs(vs, k) + rest;
    if k == vs.len() {
        assert(s =~= rest);
        assert(vs.skip(k as int) =~= Seq::<InstrView>::empty());
    } else {
        let tail = spec_encode_instrs(vs, k + 1) + rest;
        assert(s =~= spec_encode_instr(vs[k as int]) + tail);
        lemma_instr_round_trip(vs[k as int], tail);
        lemma_instr_consumes(s);
        lemma_instrs_round_trip(vs, k + 1, rest);
        assert(seq![vs[k as int]] + vs.skip(k as int + 1) =~= vs.skip(k as int));
    }
}

/// Decoding reads back an expression: well-formed instructions and the end
/// marker.
pub proof fn lemma_expr_round_trip(vs: Seq<InstrView>, rest: Seq<u8>)
    requires
        all_well_formed(vs),
    ensures
        spec_expr(spec_encode_instrs(vs, 0) + seq![0x0Bu8] + rest) == Ok::<
            (Seq<u8>, Seq<InstrView>),
            DecodeError,
        >((rest, vs)),
{
    let end = seq![0x0Bu8] + rest;
    assert(spec_encode_instrs(vs, 0) + seq![0x0Bu8] + rest =~= spec_encode_instrs(vs, 0) + end);
    lemma_instrs_round_trip(vs, 0, end);
    assert(vs.skip(0) =~= vs);
    assert(end.skip(1) =~= rest);
}

/// What is decoded after an opcode is well formed.
pub proof fn lemma_decoded_flat_well_formed(op: u8, t: Seq<u8>)
    ensures
        spec_flat_instr(op, t) matches Ok((rest, v)) ==> well_formed(v),
{
    if op == 0x0E {
        if let Ok((t1, n)) = spec_u32(t) {
            lemma_repeat_len(t1, n as nat, labelidx_production());
        }
    }
}

/// What is decoded is well formed, so it is read back from what it is
/// written as.
pub proof fn lemma_decoded_well_formed(s: Seq<u8>)
    ensures
        spec_instr(s) matches Ok((rest, v)) ==> well_formed(v),
    decreases s.len(), 0nat,
{
    if s.len() > 0 {
        let op = s[0];
        let t = s.skip(1);
        if op == 0x02 || op == 0x03 || op == 0x04 {
            if let Ok((t1, rt)) = spec_blocktype(t) {
                lemma_decoded_all_well_formed(t1);
                if let Ok((t2, then_body)) = spec_instrs(t1) {
                    if t2.len() <= t1.len() && t2.len() > 0 && t2[0] == 0x05 {
                        lemma_decoded_all_well_formed(t2.skip(1));
                    }
                }
            }
        } else {
            lemma_decoded_flat_well_formed(op, t);
        }
    }
}

/// The instructions of a decoded sequence are well formed.
pub proof fn lemma_decoded_all_well_formed(s: Seq<u8>)
    ensures
        spec_instrs(s) matches Ok((rest, vs)) ==> all_well_formed(vs),
    decreases s.len(), 1nat,
{
    if !(s.len() == 0 || is_terminator(s[0])) {
        lemma_decoded_well_formed(s);
        if let Ok((rest, i)) = spec_instr(s) {
            if rest.len() < s.len() {
                lemma_decoded_all_well_formed(rest);
                if let Ok((rest2, vs)) = spec_instrs(rest) {
                    let all = seq![i] + vs;
                    assert forall|k: int| 0 <= k < all.len() implies well_formed(
                        #[trigger] all[k],
                    ) by {
                        if k > 0 {
                            assert(all[k] == vs[k - 1]);
                        }
                    }
                }
            }
        }
    }
}

/// Value types, one byte each.
pub open spec fn spec_encode_valtypes(ts: Seq<ValType>) -> Seq<u8> {
    Seq::new(ts.len(), |k: int| spec_encode_valtype(ts[k]))
}

/// How a function type is written: the byte 0x60, then each list of types
/// behind its count.
pub open spec fn spec_encode_functype(t: FuncTypeView) -> Seq<u8> {
    seq![0x60u8] + spec_encode_un(t.args.len()) + spec_encode_valtypes(t.args) + spec_encode_un(
        t.results.len(),
    ) + spec_encode_valtypes(t.results)
}

/// How limits are written.
pub open spec fn spec_encode_limits(l: Limits) -> Seq<u8> {
    match l.max {
        None => seq![0x00u8] + spec_encode_un(l.min as nat),
        Some(max) => seq![0x01u8] + spec_encode_un(l.min as nat) + spec_encode_un(max as nat),
    }
}

/// A value type that was written is read back.
pub proof fn lemma_valtype_round_trip(t: ValType, rest: Seq<u8>)
    ensures
        spec_valtype(seq![spec_encode_valtype(t)] + rest) == Ok::<(Seq<u8>, ValType), DecodeError>(
            (rest, t),
        ),
{
    let s = seq![spec_encode_valtype(t)] + rest;
    assert(s.skip(1) =~= rest);
}

/// Value types that were written are read back, as many as were written.
pub proof fn lemma_valtypes_round_trip(ts: Seq<ValType>, rest: Seq<u8>)
    ensures
        spec_repeat(spec_encode_valtypes(ts) + rest, ts.len(), valtype_production()) == Ok::<
            (Seq<u8>, Seq<ValType>),
            DecodeError,
        >((rest, ts)),
    decreases ts.len(),
{
    let s = spec_encode_valtypes(ts) + rest;
    if ts.len() == 0 {
        assert(s =~= rest);
        assert(ts =~= Seq::<ValType>::empty());
    } else {
        let tail = spec_encode_valtypes(ts.skip(1)) + rest;
        assert(s =~= seq![spec_encode_valtype(ts[0])] + tail);
        lemma_valtype_round_trip(ts[0], tail);
        lemma_valtypes_round_trip(ts.skip(1), rest);
        assert(seq![ts[0]] + ts.skip(1) =~= ts);
    }
}

/// A function type that was written is read back.
pub proof fn lemma_functype_round_trip(t: FuncTypeView, rest: Seq<u8>)
    requires
        t.args.len() <= u32::MAX,
        t.results.len() <= u32::MAX,
    ensures
        spec_functype(spec_encode_functype(t) + rest) == Ok::<(Seq<u8>, FuncTypeView), DecodeError>(
            (rest, t),
        ),
{
    let s = spec_encode_functype(t) + rest;
    let s4 = spec_encode_valtypes(t.results) + rest;
    let s3 = spec_encode_un(t.results.len()) + s4;
    let s2 = spec_encode_valtypes(t.args) + s3;
    let s1 = spec_encode_un(t.args.len()) + s2;
    assert(s.skip(1) =~= s1);
    lemma_u32_round_trip(t.args.len() as u32, s2);
    lemma_valtypes_round_trip(t.args, s3);
    lemma_u32_round_trip(t.results.len() as u32, s4);
    lemma_valtypes_round_trip(t.results, rest);
}

/// Limits that were written are read back.
pub proof fn lemma_limits_round_trip(l: Limits, rest: Seq<u8>)
    ensures
        spec_limits(spec_encode_limits(l) + rest) == Ok::<(Seq<u8>, Limits), DecodeError>(
            (rest, l),
        ),
{
    let s = spec_encode_limits(l) + rest;
    match l.max {
        None => {
            assert(s.skip(1) =~= spec_encode_un(l.min as nat) + rest);
            lemma_u32_round_trip(l.min, rest);
        },
        Some(max) => {
            let tail = spec_encode_un(max as nat) + rest;
            assert(s.skip(1) =~= spec_encode_un(l.min as nat) + tail);
            lemma_u32_round_trip(l.min, tail);
            lemma_u32_round_trip(max, rest);
        },
    }
}

/// A section is found by its frame: behind its id and the count of its
/// bytes, its outcome is that of its content on just those bytes, and what
/// follows them is left.
pub proof fn lemma_section_round_trip<T>(
    id: u8,
    bytes: Seq<u8>,
    rest: Seq<u8>,
    content: spec_fn(Seq<u8>) -> Parsed<T>,
)
    requires
        bytes.len() <= u32::MAX,
    ensures
        spec_section_frame(seq![id] + spec_encode_un(bytes.len()) + bytes + rest, id) == Ok::<
            (Seq<u8>, Seq<u8>),
            DecodeError,
        >((rest, bytes)),
        spec_section(seq![id] + spec_encode_un(bytes.len()) + bytes + rest, id, content)
            == section_outcome(rest, content(bytes)),
{
    let s = seq![id] + spec_encode_un(bytes.len()) + bytes + rest;
    assert(s.skip(1) =~= spec_encode_un(bytes.len()) + (bytes + rest));
    lemma_u32_round_trip(bytes.len() as u32, bytes + rest);
    assert((bytes + rest).take(bytes.len() as int) =~= bytes);
    assert((bytes + rest).skip(bytes.len() as int) =~= rest);
}

} // verus!
