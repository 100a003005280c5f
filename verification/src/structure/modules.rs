//! Module-local indices and custom sections.

use vstd::prelude::*;
use vstd::std_specs::convert::FromSpecImpl;

verus! {

/// Index of a function type within a module.
#[derive(Clone, Copy, Debug, PartialEq, Eq, Structural)]
pub struct TypeIdx(pub u32);

/// Index of a function within a module.
#[derive(Clone, Copy, Debug, PartialEq, Eq, Structural)]
pub struct FuncIdx(pub u32);

/// Index of a table within a module.
#[derive(Clone, Copy, Debug, PartialEq, Eq, Structural)]
pub struct TableIdx(pub u32);

/// Index of a memory within a module.
#[derive(Clone, Copy, Debug, PartialEq, Eq, Structural)]
pub struct MemIdx(pub u32);

/// Index of a global within a module.
#[derive(Clone, Copy, Debug, PartialEq, Eq, Structural)]
pub struct GlobalIdx(pub u32);

/// Index of a local variable within a function.
#[derive(Clone, Copy, Debug, PartialEq, Eq, Structural)]
pub struct LocalIdx(pub u32);

/// Index of an enclosing label, counted from the innermost.
#[derive(Clone, Copy, Debug, PartialEq, Eq, Structural)]
pub struct LabelIdx(pub u32);

/// A custom section: a name and uninterpreted bytes.
#[derive(Clone, Debug, PartialEq, Eq)]
pub struct Custom {
    pub name: String,
    pub bytes: Vec<u8>,
}

/// What a `Custom` stands for: the characters of its name and its bytes.
pub struct CustomView {
    pub name: Seq<char>,
    pub bytes: Seq<u8>,
}

impl View for Custom {
    type V = CustomView;

    open spec fn view(&self) -> CustomView {
        CustomView { name: self.name@, bytes: self.bytes@ }
    }
}

impl View for TypeIdx {
    type V = TypeIdx;

    open spec fn view(&self) -> TypeIdx {
        *self
    }
}

impl View for FuncIdx {
    type V = FuncIdx;

    open spec fn view(&self) -> FuncIdx {
        *self
    }
}

impl View for TableIdx {
    type V = TableIdx;

    open spec fn view(&self) -> TableIdx {
        *self
    }
}

impl View for MemIdx {
    type V = MemIdx;

    open spec fn view(&self) -> MemIdx {
        *self
    }
}

impl View for GlobalIdx {
    type V = GlobalIdx;

    open spec fn view(&self) -> GlobalIdx {
        *self
    }
}

impl View for LocalIdx {
    type V = LocalIdx;

    open spec fn view(&self) -> LocalIdx {
        *self
    }
}

impl View for LabelIdx {
    type V = LabelIdx;

    open spec fn view(&self) -> LabelIdx {
        *self
    }
}

impl From<usize> for TypeIdx {
    /// Keeps the low 32 bits.
    fn from(a: usize) -> (r: Self) {
        TypeIdx((a as u64 % 0x1_0000_0000) as u32)
    }
}

impl FromSpecImpl<usize> for TypeIdx {
    open spec fn obeys_from_spec() -> bool {
        true
    }

    open spec fn from_spec(a: usize) -> Self {
        TypeIdx((a as int % 0x1_0000_0000) as u32)
    }
}

impl From<TypeIdx> for usize {
    fn from(a: TypeIdx) -> (r: Self) {
        a.0 as usize
    }
}

impl FromSpecImpl<TypeIdx> for usize {
    open spec fn obeys_from_spec() -> bool {
        true
    }

    open spec fn from_spec(a: TypeIdx) -> Self {
        a.0 as usize
    }
}

impl From<usize> for FuncIdx {
    /// Keeps the low 32 bits.
    fn from(a: usize) -> (r: Self) {
        FuncIdx((a as u64 % 0x1_0000_0000) as u32)
    }
}

impl FromSpecImpl<usize> for FuncIdx {
    open spec fn obeys_from_spec() -> bool {
        true
    }

    open spec fn from_spec(a: usize) -> Self {
        FuncIdx((a as int % 0x1_0000_0000) as u32)
    }
}

impl From<FuncIdx> for usize {
    fn from(a: FuncIdx) -> (r: Self) {
        a.0 as usize
    }
}

impl FromSpecImpl<FuncIdx> for usize {
    open spec fn obeys_from_spec() -> bool {
        true
    }

    open spec fn from_spec(a: FuncIdx) -> Self {
        a.0 as usize
    }
}

impl From<usize> for TableIdx {
    /// Keeps the low 32 bits.
    fn from(a: usize) -> (r: Self) {
        TableIdx((a as u64 % 0x1_0000_0000) as u32)
    }
}

impl FromSpecImpl<usize> for TableIdx {
    open spec fn obeys_from_spec() -> bool {
        true
    }

    open spec fn from_spec(a: usize) -> Self {
        TableIdx((a as int % 0x1_0000_0000) as u32)
    }
}

impl From<TableIdx> for usize {
    fn from(a: TableIdx) -> (r: Self) {
        a.0 as usize
    }
}

impl FromSpecImpl<TableIdx> for usize {
    open spec fn obeys_from_spec() -> bool {
        true
    }

    open spec fn from_spec(a: TableIdx) -> Self {
        a.0 as usize
    }
}

impl From<usize> for MemIdx {
    /// Keeps the low 32 bits.
    fn from(a: usize) -> (r: Self) {
        MemIdx((a as u64 % 0x1_0000_0000) as u32)
    }
}

impl FromSpecImpl<usize> for MemIdx {
    open spec fn obeys_from_spec() -> bool {
        true
    }

    open spec fn from_spec(a: usize) -> Self {
        MemIdx((a as int % 0x1_0000_0000) as u32)
    }
}

impl From<MemIdx> for usize {
    fn from(a: MemIdx) -> (r: Self) {
        a.0 as usize
    }
}

impl FromSpecImpl<MemIdx> for usize {
    open spec fn obeys_from_spec() -> bool {
        true
    }

    open spec fn from_spec(a: MemIdx) -> Self {
        a.0 as usize
    }
}

impl From<usize> for GlobalIdx {
    /// Keeps the low 32 bits.
    fn from(a: usize) -> (r: Self) {
        GlobalIdx((a as u64 % 0x1_0000_0000) as u32)
    }
}

impl FromSpecImpl<usize> for GlobalIdx {
    open spec fn obeys_from_spec() -> bool {
        true
    }

    open spec fn from_spec(a: usize) -> Self {
        GlobalIdx((a as int % 0x1_0000_0000) as u32)
    }
}

impl From<GlobalIdx> for usize {
    fn from(a: GlobalIdx) -> (r: Self) {
        a.0 as usize
    }
}

impl FromSpecImpl<GlobalIdx> for usize {
    open spec fn obeys_from_spec() -> bool {
        true
    }

    open spec fn from_spec(a: GlobalIdx) -> Self {
        a.0 as usize
    }
}

impl From<usize> for LocalIdx {
    /// Keeps the low 32 bits.
    fn from(a: usize) -> (r: Self) {
        LocalIdx((a as u64 % 0x1_0000_0000) as u32)
    }
}

impl FromSpecImpl<usize> for LocalIdx {
    open spec fn obeys_from_spec() -> bool {
        true
    }

    open spec fn from_spec(a: usize) -> Self {
        LocalIdx((a as int % 0x1_0000_0000) as u32)
    }
}

impl From<LocalIdx> for usize {
    fn from(a: LocalIdx) -> (r: Self) {
        a.0 as usize
    }
}

impl FromSpecImpl<LocalIdx> for usize {
    open spec fn obeys_from_spec() -> bool {
        true
    }

    open spec fn from_spec(a: LocalIdx) -> Self {
        a.0 as usize
    }
}

impl From<usize> for LabelIdx {
    /// Keeps the low 32 bits.
    fn from(a: usize) -> (r: Self) {
        LabelIdx((a as u64 % 0x1_0000_0000) as u32)
    }
}

impl FromSpecImpl<usize> for LabelIdx {
    open spec fn obeys_from_spec() -> bool {
        true
    }

    open spec fn from_spec(a: usize) -> Self {
        LabelIdx((a as int % 0x1_0000_0000) as u32)
    }
}

impl From<LabelIdx> for usize {
    fn from(a: LabelIdx) -> (r: Self) {
        a.0 as usize
    }
}

impl FromSpecImpl<LabelIdx> for usize {
    open spec fn obeys_from_spec() -> bool {
        true
    }

    open spec fn from_spec(a: LabelIdx) -> Self {
        a.0 as usize
    }
}

} // verus!
