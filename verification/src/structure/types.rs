//! Value, function, table, memory and global types.

use vstd::prelude::*;
use vstd::std_specs::cmp::PartialEqSpecImpl;

verus! {

/// A 32-bit integer value; signedness is a matter of interpretation.
pub type I32 = u32;

/// A 64-bit integer value; signedness is a matter of interpretation.
pub type I64 = u64;

/// A single byte of linear memory.
pub type Byte = u8;

/// A 32-bit IEEE 754 value, held as its bit pattern.
///
/// Two values compare equal with `==` when IEEE 754 says they do: a NaN
/// equals nothing, and the two zeros equal each other.
#[derive(Clone, Copy, Debug)]
pub struct F32 {
    pub bits: u32,
}

/// A 64-bit IEEE 754 value, held as its bit pattern.
///
/// Two values compare equal with `==` when IEEE 754 says they do: a NaN
/// equals nothing, and the two zeros equal each other.
#[derive(Clone, Copy, Debug)]
pub struct F64 {
    pub bits: u64,
}

impl F32 {
    /// The bit pattern without its sign bit.
    pub open spec fn magnitude(self) -> u32 {
        self.bits % 0x8000_0000
    }

    /// All exponent bits set and a non-zero fraction.
    pub open spec fn is_nan(self) -> bool {
        self.magnitude() > 0x7F80_0000
    }

    /// Positive or negative zero.
    pub open spec fn is_zero(self) -> bool {
        self.magnitude() == 0
    }

    /// IEEE 754 equality of two bit patterns.
    pub open spec fn ieee_eq(self, other: Self) -> bool {
        &&& !self.is_nan()
        &&& !other.is_nan()
        &&& (self.bits == other.bits || (self.is_zero() && other.is_zero()))
    }

    /// The value with the bit pattern `bits`.
    pub fn from_bits(bits: u32) -> (r: Self)
        ensures
            r.bits == bits,
    {
        F32 { bits }
    }

    /// The bit pattern of the value.
    pub fn to_bits(self) -> (r: u32)
        ensures
            r == self.bits,
    {
        self.bits
    }
}

impl PartialEq for F32 {
    fn eq(&self, other: &Self) -> (r: bool) {
        let a: u32 = self.bits % 0x8000_0000;
        let b: u32 = other.bits % 0x8000_0000;
        a <= 0x7F80_0000 && b <= 0x7F80_0000 && (self.bits == other.bits || (a == 0 && b == 0))
    }
}

impl PartialEqSpecImpl for F32 {
    open spec fn obeys_eq_spec() -> bool {
        true
    }

    open spec fn eq_spec(&self, other: &Self) -> bool {
        self.ieee_eq(*other)
    }
}

impl F64 {
    /// The bit pattern without its sign bit.
    pub open spec fn magnitude(self) -> u64 {
        self.bits % 0x8000_0000_0000_0000
    }

    /// All exponent bits set and a non-zero fraction.
    pub open spec fn is_nan(self) -> bool {
        self.magnitude() > 0x7FF0_0000_0000_0000
    }

    /// Positive or negative zero.
    pub open spec fn is_zero(self) -> bool {
        self.magnitude() == 0
    }

    /// IEEE 754 equality of two bit patterns.
    pub open spec fn ieee_eq(self, other: Self) -> bool {
        &&& !self.is_nan()
        &&& !other.is_nan()
        &&& (self.bits == other.bits || (self.is_zero() && other.is_zero()))
    }

    /// The value with the bit pattern `bits`.
    pub fn from_bits(bits: u64) -> (r: Self)
        ensures
            r.bits == bits,
    {
        F64 { bits }
    }

    /// The bit pattern of the value.
    pub fn to_bits(self) -> (r: u64)
        ensures
            r == self.bits,
    {
        self.bits
    }
}

impl PartialEq for F64 {
    fn eq(&self, other: &Self) -> (r: bool) {
        let a: u64 = self.bits % 0x8000_0000_0000_0000;
        let b: u64 = other.bits % 0x8000_0000_0000_0000;
        a <= 0x7FF0_0000_0000_0000 && b <= 0x7FF0_0000_0000_0000 && (self.bits == other.bits || (a
            == 0 && b == 0))
    }
}

impl PartialEqSpecImpl for F64 {
    open spec fn obeys_eq_spec() -> bool {
        true
    }

    open spec fn eq_spec(&self, other: &Self) -> bool {
        self.ieee_eq(*other)
    }
}

/// The type of a value.
#[derive(Clone, Copy, Debug, PartialEq, Eq, Structural)]
pub enum ValType {
    I32,
    I64,
    F32,
    F64,
}

/// The result of a block or function: at most one value.
pub type ResultType = Option<ValType>;

/// The signature of a function.
#[derive(Clone, Debug, PartialEq, Eq)]
pub struct FuncType {
    pub args: Vec<ValType>,
    pub results: Vec<ValType>,
}

/// What a `FuncType` stands for: its parameter and result types in order.
pub struct FuncTypeView {
    pub args: Seq<ValType>,
    pub results: Seq<ValType>,
}

impl View for FuncType {
    type V = FuncTypeView;

    open spec fn view(&self) -> FuncTypeView {
        FuncTypeView { args: self.args@, results: self.results@ }
    }
}

/// Size bounds of a table or memory.
#[derive(Clone, Copy, Debug, PartialEq, Eq, Structural)]
pub struct Limits {
    pub min: u32,
    pub max: Option<u32>,
}

/// The type of a linear memory; its limits count pages.
#[derive(Clone, Copy, Debug, PartialEq, Eq, Structural)]
pub struct MemType {
    pub limits: Limits,
}

/// The type of the elements of a table.
#[derive(Clone, Copy, Debug, PartialEq, Eq, Structural)]
pub enum ElemType {
    AnyFunc,
}

/// The type of a table; its limits count entries.
#[derive(Clone, Copy, Debug, PartialEq, Eq, Structural)]
pub struct TableType {
    pub limits: Limits,
    pub elemtype: ElemType,
}

/// Whether a global can be written.
#[derive(Clone, Copy, Debug, PartialEq, Eq, Structural)]
pub enum Mut {
    Const,
    Var,
}

/// The type of a global variable.
#[derive(Clone, Copy, Debug, PartialEq, Eq, Structural)]
pub struct GlobalType {
    pub mutability: Mut,
    pub valtype: ValType,
}

impl View for F32 {
    type V = F32;

    open spec fn view(&self) -> F32 {
        *self
    }
}

impl View for F64 {
    type V = F64;

    open spec fn view(&self) -> F64 {
        *self
    }
}

impl View for ValType {
    type V = ValType;

    open spec fn view(&self) -> ValType {
        *self
    }
}

impl View for Limits {
    type V = Limits;

    open spec fn view(&self) -> Limits {
        *self
    }
}

impl View for MemType {
    type V = MemType;

    open spec fn view(&self) -> MemType {
        *self
    }
}

impl View for ElemType {
    type V = ElemType;

    open spec fn view(&self) -> ElemType {
        *self
    }
}

impl View for TableType {
    type V = TableType;

    open spec fn view(&self) -> TableType {
        *self
    }
}

impl View for Mut {
    type V = Mut;

    open spec fn view(&self) -> Mut {
        *self
    }
}

impl View for GlobalType {
    type V = GlobalType;

    open spec fn view(&self) -> GlobalType {
        *self
    }
}

} // verus!
