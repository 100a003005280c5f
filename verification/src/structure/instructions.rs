//! Instructions and expressions.

use vstd::prelude::*;
use crate::structure::modules::FuncIdx;
use crate::structure::modules::GlobalIdx;
use crate::structure::modules::LabelIdx;
use crate::structure::modules::LocalIdx;
use crate::structure::modules::TypeIdx;
use crate::structure::types::ResultType;
use crate::structure::types::F32;
use crate::structure::types::F64;
use crate::structure::types::I32;
use crate::structure::types::I64;

verus! {

/// The immediate of a memory instruction.
#[derive(Clone, Copy, Debug, PartialEq, Eq, Structural)]
pub struct Memarg {
    pub offset: u32,
    pub align: u32,
}

/// One instruction. The structured ones hold the instructions nested in them.
#[derive(Debug, PartialEq)]
pub enum Instr {
    // Control instructions.
    Unreachable,
    Nop,
    Block(ResultType, Vec<Instr>),
    Loop(ResultType, Vec<Instr>),
    IfElse(ResultType, Vec<Instr>, Vec<Instr>),
    Br(LabelIdx),
    BrIf(LabelIdx),
    BrTable(Vec<LabelIdx>, LabelIdx),
    Return,
    Call(FuncIdx),
    CallIndirect(TypeIdx),
    // Parametric instructions.
    Drop,
    Select,
    // Variable instructions.
    GetLocal(LocalIdx),
    SetLocal(LocalIdx),
    TeeLocal(LocalIdx),
    GetGlobal(GlobalIdx),
    SetGlobal(GlobalIdx),
    // Memory instructions.
    I32Load(Memarg),
    I64Load(Memarg),
    F32Load(Memarg),
    F64Load(Memarg),
    I32Load8S(Memarg),
    I32Load8U(Memarg),
    I32Load16S(Memarg),
    I32Load16U(Memarg),
    I64Load8S(Memarg),
    I64Load8U(Memarg),
    I64Load16S(Memarg),
    I64Load16U(Memarg),
    I64Load32S(Memarg),
    I64Load32U(Memarg),
    I32Store(Memarg),
    I64Store(Memarg),
    F32Store(Memarg),
    F64Store(Memarg),
    I32Store8(Memarg),
    I32Store16(Memarg),
    I64Store8(Memarg),
    I64Store16(Memarg),
    I64Store32(Memarg),
    CurrentMemory,
    GrowMemory,
    // Numeric instructions.
    I32Const(I32),
    I64Const(I64),
    F32Const(F32),
    F64Const(F64),
    I32EqZ,
    I32Eq,
    I32Ne,
    I32LtS,
    I32LtU,
    I32GtS,
    I32GtU,
    I32LeS,
    I32LeU,
    I32GeS,
    I32GeU,
    I64EqZ,
    I64Eq,
    I64Ne,
    I64LtS,
    I64LtU,
    I64GtS,
    I64GtU,
    I64LeS,
    I64LeU,
    I64GeS,
    I64GeU,
    F32Eq,
    F32Ne,
    F32Lt,
    F32Gt,
    F32Le,
    F32Ge,
    F64Eq,
    F64Ne,
    F64Lt,
    F64Gt,
    F64Le,
    F64Ge,
    I32Clz,
    I32Ctz,
    I32Popcnt,
    I32Add,
    I32Sub,
    I32Mul,
    I32DivS,
    I32DivU,
    I32RemS,
    I32RemU,
    I32And,
    I32Or,
    I32Xor,
    I32Shl,
    I32ShrS,
    I32ShrU,
    I32Rotl,
    I32Rotr,
    I64Clz,
    I64Ctz,
    I64Popcnt,
    I64Add,
    I64Sub,
    I64Mul,
    I64DivS,
    I64DivU,
    I64RemS,
    I64RemU,
    I64And,
    I64Or,
    I64Xor,
    I64Shl,
    I64ShrS,
    I64ShrU,
    I64Rotl,
    I64Rotr,
    F32Abs,
    F32Neg,
    F32Ceil,
    F32Floor,
    F32Trunc,
    F32Nearest,
    F32Sqrt,
    F32Add,
    F32Sub,
    F32Mul,
    F32Div,
    F32Min,
    F32Max,
    F32CopySign,
    F64Abs,
    F64Neg,
    F64Ceil,
    F64Floor,
    F64Trunc,
    F64Nearest,
    F64Sqrt,
    F64Add,
    F64Sub,
    F64Mul,
    F64Div,
    F64Min,
    F64Max,
    F64CopySign,
    I32WrapI64,
    I32TruncSF32,
    I32TruncUF32,
    I32TruncSF64,
    I32TruncUF64,
    I64ExtendSI32,
    I64ExtendUI32,
    I64TruncSF32,
    I64TruncUF32,
    I64TruncSF64,
    I64TruncUF64,
    F32ConvertSI32,
    F32ConvertUI32,
    F32ConvertSI64,
    F32ConvertUI64,
    F32DemoteF64,
    F64ConvertSI32,
    F64ConvertUI32,
    F64ConvertSI64,
    F64ConvertUI64,
    F64PromoteF32,
    I32ReinterpretF32,
    I64ReinterpretF64,
    F32ReinterpretI32,
    F64ReinterpretI64,
}

/// What an `Instr` stands for. An instruction with nothing nested in it
/// stands for itself; a structured one for its parts, with each nested
/// sequence taken as a sequence of what its instructions stand for.
pub enum InstrView {
    Plain(Instr),
    Block(ResultType, Seq<InstrView>),
    Loop(ResultType, Seq<InstrView>),
    IfElse(ResultType, Seq<InstrView>, Seq<InstrView>),
    BrTable(Seq<LabelIdx>, LabelIdx),
}

impl View for Instr {
    type V = InstrView;

    open spec fn view(&self) -> InstrView
        decreases self,
    {
        match self {
            Instr::Block(rt, body) => InstrView::Block(*rt, instrs_view(body@)),
            Instr::Loop(rt, body) => InstrView::Loop(*rt, instrs_view(body@)),
            Instr::IfElse(rt, then_body, else_body) => InstrView::IfElse(
                *rt,
                instrs_view(then_body@),
                instrs_view(else_body@),
            ),
            Instr::BrTable(labels, default) => InstrView::BrTable(labels@, *default),
            _ => InstrView::Plain(*self),
        }
    }
}

/// What a sequence of instructions stands for, one by one.
pub open spec fn instrs_view(s: Seq<Instr>) -> Seq<InstrView>
    decreases s,
{
    Seq::new(
        s.len(),
        |i: int|
            if 0 <= i < s.len() {
                s[i]@
            } else {
                arbitrary()
            },
    )
}

/// Appending an instruction appends what it stands for.
pub proof fn lemma_instrs_view_push(s: Seq<Instr>, i: Instr)
    ensures
        instrs_view(s.push(i)) == instrs_view(s).push(i@),
{
    assert(instrs_view(s.push(i)) =~= instrs_view(s).push(i@));
}

/// A function body or an initializer: instructions up to an end marker.
#[derive(Debug, PartialEq)]
pub struct Expr {
    pub body: Vec<Instr>,
}

impl View for Expr {
    type V = Seq<InstrView>;

    open spec fn view(&self) -> Seq<InstrView> {
        instrs_view(self.body@)
    }
}

impl View for Memarg {
    type V = Memarg;

    open spec fn view(&self) -> Memarg {
        *self
    }
}

} // verus!
