//! The store, the instances it holds, and the execution stack.

use std::marker::PhantomData;
use vstd::pervasive::unreached;
use vstd::prelude::*;
use vstd::std_specs::cmp::PartialEqSpecImpl;
use vstd::std_specs::convert::FromSpec;
use vstd::std_specs::convert::IntoSpec;
use crate::structure::instructions::Instr;
use crate::structure::modules::FuncIdx;
use crate::structure::modules::GlobalIdx;
use crate::structure::modules::LabelIdx;
use crate::structure::modules::LocalIdx;
use crate::structure::modules::MemIdx;
use crate::structure::modules::TableIdx;
use crate::structure::types::Byte;
use crate::structure::types::Mut;
use crate::structure::types::ValType;
use crate::structure::types::F32;
use crate::structure::types::F64;
use crate::structure::types::I32;
use crate::structure::types::I64;
use crate::structure_references::StructureReference;

verus! {

/// A vector that grows at its end and is indexed by `IndexT` alone.
///
/// It stands for the sequence of its entries. The address of an entry is its
/// position, turned into an `IndexT`.
#[derive(Debug, PartialEq)]
pub struct TypedIndexVec<T, IndexT> {
    data: Vec<T>,
    _marker: PhantomData<IndexT>,
}

impl<T, IndexT> View for TypedIndexVec<T, IndexT> {
    type V = Seq<T>;

    closed spec fn view(&self) -> Seq<T> {
        self.data@
    }
}

impl<T: Clone, IndexT> Clone for TypedIndexVec<T, IndexT> {
    fn clone(&self) -> (r: Self)
        ensures
            r@.len() == self@.len(),
            forall|i: int| 0 <= i < self@.len() ==> cloned(self@[i], #[trigger] r@[i]),
    {
        TypedIndexVec { data: self.data.clone(), _marker: PhantomData }
    }
}

/// The position that the address `addr` names.
pub open spec fn position_of<IndexT: Into<usize>>(addr: IndexT) -> usize {
    addr.into_spec()
}

/// The address of the entry at the position `n`.
pub open spec fn address_at<IndexT: From<usize>>(n: usize) -> IndexT {
    IndexT::from_spec(n)
}

/// The entry of `s` at the address `addr`, if there is one.
pub open spec fn spec_get<T, IndexT: Into<usize>>(s: Seq<T>, addr: IndexT) -> Option<T> {
    if position_of(addr) < s.len() {
        Some(s[position_of(addr) as int])
    } else {
        None
    }
}

impl<T, IndexT> TypedIndexVec<T, IndexT> where IndexT: Into<usize> + From<usize> {
    /// The entry at `addr`, or `None` past the end.
    pub fn get(&self, addr: IndexT) -> (r: Option<&T>)
        ensures
            IndexT::obeys_into_spec() ==> match r {
                Some(e) => spec_get(self@, addr) == Some(*e),
                None => spec_get(self@, addr) is None,
            },
    {
        let i: usize = addr.into();
        if i < self.data.len() {
            Some(&self.data[i])
        } else {
            None
        }
    }

    /// The entry at `addr` for writing, or `None` past the end. Only that
    /// entry can change.
    pub fn get_mut(&mut self, addr: IndexT) -> (r: Option<&mut T>)
        ensures
            IndexT::obeys_into_spec() ==> match r {
                Some(e) => {
                    &&& spec_get(old(self)@, addr) == Some(*e)
                    &&& final(self)@ == old(self)@.update(position_of(addr) as int, *final(e))
                },
                None => spec_get(old(self)@, addr) is None && final(self)@ == old(self)@,
            },
            final(self)@.len() == old(self)@.len(),
    {
        let i: usize = addr.into();
        if i < self.data.len() {
            Some(&mut self.data[i])
        } else {
            None
        }
    }

    /// The address that the next entry will get: the length.
    pub fn next_addr(&self) -> (r: IndexT)
        ensures
            IndexT::obeys_from_spec() ==> r == address_at::<IndexT>(self@.len() as usize),
    {
        let n: usize = self.data.len();
        n.into()
    }

    /// Appends `inst` and returns its address: the length before the call.
    pub fn push(&mut self, inst: T) -> (r: IndexT)
        ensures
            final(self)@ == old(self)@.push(inst),
            IndexT::obeys_from_spec() ==> r == address_at::<IndexT>(old(self)@.len() as usize),
    {
        let addr = self.next_addr();
        self.data.push(inst);
        addr
    }

    /// Removes the last entry, if there is one. This is for entries that
    /// were appended a moment ago and whose address nobody holds.
    pub fn pop_aux(&mut self)
        ensures
            final(self)@ == if old(self)@.len() > 0 {
                old(self)@.drop_last()
            } else {
                old(self)@
            },
    {
        let _ = self.data.pop();
    }

    /// The entry at `addr`, which has to be there.
    pub fn index(&self, addr: IndexT) -> (r: &T)
        requires
            IndexT::obeys_into_spec(),
            position_of(addr) < self@.len(),
        ensures
            *r == self@[position_of(addr) as int],
    {
        let i: usize = addr.into();
        &self.data[i]
    }

    /// The entry at `addr` for writing, which has to be there. Only that
    /// entry can change.
    pub fn index_mut(&mut self, addr: IndexT) -> (r: &mut T)
        requires
            IndexT::obeys_into_spec(),
            position_of(addr) < old(self)@.len(),
        ensures
            *r == old(self)@[position_of(addr) as int],
            final(self)@ == old(self)@.update(position_of(addr) as int, *final(r)),
    {
        let i: usize = addr.into();
        &mut self.data[i]
    }
}

impl<T, IndexT> From<Vec<T>> for TypedIndexVec<T, IndexT> {
    fn from(v: Vec<T>) -> (r: Self)
        ensures
            r@ == v@,
    {
        TypedIndexVec { data: v, _marker: PhantomData }
    }
}

impl<T, IndexT> vstd::std_specs::convert::FromSpecImpl<Vec<T>> for TypedIndexVec<T, IndexT> {
    open spec fn obeys_from_spec() -> bool {
        true
    }

    open spec fn from_spec(v: Vec<T>) -> Self {
        wrap(v)
    }
}

/// The typed-index vector that holds the entries of `v`.
pub closed spec fn wrap<T, IndexT>(v: Vec<T>) -> TypedIndexVec<T, IndexT> {
    TypedIndexVec { data: v, _marker: PhantomData }
}

/// A vector turned into a typed-index vector keeps its entries.
pub broadcast proof fn lemma_wrap_view<T, IndexT>(v: Vec<T>)
    ensures
        (#[trigger] wrap::<T, IndexT>(v))@ == v@,
{
}

/// An address stays good: the address that an append gave out names the
/// appended entry however many entries are appended after it, as long as
/// the address type can hold the position.
pub proof fn lemma_address_stability<T, IndexT: Into<usize> + From<usize>>(
    s: Seq<T>,
    inst: T,
    later: Seq<T>,
)
    requires
        s.len() <= usize::MAX,
        position_of(address_at::<IndexT>(s.len() as usize)) == s.len(),
    ensures
        spec_get(s.push(inst) + later, address_at::<IndexT>(s.len() as usize)) == Some(inst),
{
}

/// Every position is an address of each of the five kinds, and is the
/// position of that address.
pub proof fn lemma_addresses_hold_positions(n: usize)
    ensures
        position_of(address_at::<FuncAddr>(n)) == n,
        position_of(address_at::<TableAddr>(n)) == n,
        position_of(address_at::<MemAddr>(n)) == n,
        position_of(address_at::<GlobalAddr>(n)) == n,
        position_of(address_at::<ModuleAddr>(n)) == n,
{
}

/// Every position that fits 32 bits is an index of each kind that indexes a
/// typed-index vector here, and is the position of that index.
pub proof fn lemma_indices_hold_positions(n: usize)
    requires
        n <= u32::MAX,
    ensures
        position_of(address_at::<FuncIdx>(n)) == n,
        position_of(address_at::<TableIdx>(n)) == n,
        position_of(address_at::<MemIdx>(n)) == n,
        position_of(address_at::<GlobalIdx>(n)) == n,
        position_of(address_at::<LocalIdx>(n)) == n,
{
}

/// The address of a function instance in the store: its position there.
#[derive(Clone, Copy, Debug, PartialEq, Eq, Structural)]
pub struct FuncAddr(pub usize);

impl From<usize> for FuncAddr {
    fn from(a: usize) -> (r: Self) {
        FuncAddr(a)
    }
}

impl vstd::std_specs::convert::FromSpecImpl<usize> for FuncAddr {
    open spec fn obeys_from_spec() -> bool {
        true
    }

    open spec fn from_spec(a: usize) -> Self {
        FuncAddr(a)
    }
}

impl From<FuncAddr> for usize {
    fn from(a: FuncAddr) -> (r: Self) {
        a.0
    }
}

impl vstd::std_specs::convert::FromSpecImpl<FuncAddr> for usize {
    open spec fn obeys_from_spec() -> bool {
        true
    }

    open spec fn from_spec(a: FuncAddr) -> Self {
        a.0
    }
}

/// The address of a table instance in the store: its position there.
#[derive(Clone, Copy, Debug, PartialEq, Eq, Structural)]
pub struct TableAddr(pub usize);

impl From<usize> for TableAddr {
    fn from(a: usize) -> (r: Self) {
        TableAddr(a)
    }
}

impl vstd::std_specs::convert::FromSpecImpl<usize> for TableAddr {
    open spec fn obeys_from_spec() -> bool {
        true
    }

    open spec fn from_spec(a: usize) -> Self {
        TableAddr(a)
    }
}

impl From<TableAddr> for usize {
    fn from(a: TableAddr) -> (r: Self) {
        a.0
    }
}

impl vstd::std_specs::convert::FromSpecImpl<TableAddr> for usize {
    open spec fn obeys_from_spec() -> bool {
        true
    }

    open spec fn from_spec(a: TableAddr) -> Self {
        a.0
    }
}

/// The address of a memory instance in the store: its position there.
#[derive(Clone, Copy, Debug, PartialEq, Eq, Structural)]
pub struct MemAddr(pub usize);

impl From<usize> for MemAddr {
    fn from(a: usize) -> (r: Self) {
        MemAddr(a)
    }
}

impl vstd::std_specs::convert::FromSpecImpl<usize> for MemAddr {
    open spec fn obeys_from_spec() -> bool {
        true
    }

    open spec fn from_spec(a: usize) -> Self {
        MemAddr(a)
    }
}

impl From<MemAddr> for usize {
    fn from(a: MemAddr) -> (r: Self) {
        a.0
    }
}

impl vstd::std_specs::convert::FromSpecImpl<MemAddr> for usize {
    open spec fn obeys_from_spec() -> bool {
        true
    }

    open spec fn from_spec(a: MemAddr) -> Self {
        a.0
    }
}

/// The address of a global instance in the store: its position there.
#[derive(Clone, Copy, Debug, PartialEq, Eq, Structural)]
pub struct GlobalAddr(pub usize);

impl From<usize> for GlobalAddr {
    fn from(a: usize) -> (r: Self) {
        GlobalAddr(a)
    }
}

impl vstd::std_specs::convert::FromSpecImpl<usize> for GlobalAddr {
    open spec fn obeys_from_spec() -> bool {
        true
    }

    open spec fn from_spec(a: usize) -> Self {
        GlobalAddr(a)
    }
}

impl From<GlobalAddr> for usize {
    fn from(a: GlobalAddr) -> (r: Self) {
        a.0
    }
}

impl vstd::std_specs::convert::FromSpecImpl<GlobalAddr> for usize {
    open spec fn obeys_from_spec() -> bool {
        true
    }

    open spec fn from_spec(a: GlobalAddr) -> Self {
        a.0
    }
}

/// The address of a module instance in the store: its position there.
#[derive(Clone, Copy, Debug, PartialEq, Eq, Structural)]
pub struct ModuleAddr(pub usize);

impl From<usize> for ModuleAddr {
    fn from(a: usize) -> (r: Self) {
        ModuleAddr(a)
    }
}

impl vstd::std_specs::convert::FromSpecImpl<usize> for ModuleAddr {
    open spec fn obeys_from_spec() -> bool {
        true
    }

    open spec fn from_spec(a: usize) -> Self {
        ModuleAddr(a)
    }
}

impl From<ModuleAddr> for usize {
    fn from(a: ModuleAddr) -> (r: Self) {
        a.0
    }
}

impl vstd::std_specs::convert::FromSpecImpl<ModuleAddr> for usize {
    open spec fn obeys_from_spec() -> bool {
        true
    }

    open spec fn from_spec(a: ModuleAddr) -> Self {
        a.0
    }
}

/// A value: one of the four value types with its payload. The two float
/// payloads are bit patterns, and `==` compares them as IEEE 754 does.
#[derive(Clone, Copy, Debug)]
pub enum Val {
    I32(I32),
    I64(I64),
    F32(F32),
    F64(F64),
}

impl Val {
    /// The type of this value.
    pub fn ty(&self) -> (r: ValType)
        ensures
            r == self.spec_ty(),
    {
        match *self {
            Val::I32(_) => ValType::I32,
            Val::I64(_) => ValType::I64,
            Val::F32(_) => ValType::F32,
            Val::F64(_) => ValType::F64,
        }
    }

    /// The type of this value.
    pub open spec fn spec_ty(&self) -> ValType {
        match *self {
            Val::I32(_) => ValType::I32,
            Val::I64(_) => ValType::I64,
            Val::F32(_) => ValType::F32,
            Val::F64(_) => ValType::F64,
        }
    }

    /// The two values have one type and equal payloads, floats compared as
    /// IEEE 754 compares them.
    pub open spec fn same(&self, other: &Self) -> bool {
        match (*self, *other) {
            (Val::I32(a), Val::I32(b)) => a == b,
            (Val::I64(a), Val::I64(b)) => a == b,
            (Val::F32(a), Val::F32(b)) => a.ieee_eq(b),
            (Val::F64(a), Val::F64(b)) => a.ieee_eq(b),
            _ => false,
        }
    }
}

impl PartialEq for Val {
    fn eq(&self, other: &Self) -> (r: bool) {
        match (*self, *other) {
            (Val::I32(a), Val::I32(b)) => a == b,
            (Val::I64(a), Val::I64(b)) => a == b,
            (Val::F32(a), Val::F32(b)) => a == b,
            (Val::F64(a), Val::F64(b)) => a == b,
            _ => false,
        }
    }
}

impl PartialEqSpecImpl for Val {
    open spec fn obeys_eq_spec() -> bool {
        true
    }

    open spec fn eq_spec(&self, other: &Self) -> bool {
        self.same(other)
    }
}

/// How an invocation ended: with its result values, or with a trap.
pub enum Result {
    Vals(Vec<Val>),
    Trap,
}

/// Everything that instantiation has allocated, by kind. Entries are added
/// at the end and never leave, so an address stays good.
///
/// Module instances live in the store too: a function instance names its
/// module by address, and a module names its functions by address, so
/// neither owns the other.
pub struct Store<Refs> where Refs: StructureReference {
    pub funcs: TypedIndexVec<FuncInst<Refs>, FuncAddr>,
    pub tables: TypedIndexVec<TableInst, TableAddr>,
    pub mems: TypedIndexVec<MemInst, MemAddr>,
    pub globals: TypedIndexVec<GlobalInst, GlobalAddr>,
    pub modules: TypedIndexVec<ModuleInst<Refs>, ModuleAddr>,
}

impl<Refs> Store<Refs> where Refs: StructureReference {
    /// A store with nothing in it.
    pub fn new() -> (r: Self)
        ensures
            r.funcs@.len() == 0,
            r.tables@.len() == 0,
            r.mems@.len() == 0,
            r.globals@.len() == 0,
            r.modules@.len() == 0,
    {
        Store {
            funcs: TypedIndexVec::from(Vec::new()),
            tables: TypedIndexVec::from(Vec::new()),
            mems: TypedIndexVec::from(Vec::new()),
            globals: TypedIndexVec::from(Vec::new()),
            modules: TypedIndexVec::from(Vec::new()),
        }
    }

    /// Adds a function instance and returns its address, which named
    /// nothing before. Nothing else in the store changes.
    pub fn alloc_func(&mut self, inst: FuncInst<Refs>) -> (r: FuncAddr)
        ensures
            r == FuncAddr(old(self).funcs@.len() as usize),
            final(self).funcs@ == old(self).funcs@.push(inst),
            final(self).tables == old(self).tables,
            final(self).mems == old(self).mems,
            final(self).globals == old(self).globals,
            final(self).modules == old(self).modules,
    {
        self.funcs.push(inst)
    }

    /// Adds a table instance and returns its address, which named nothing
    /// before. Nothing else in the store changes.
    pub fn alloc_table(&mut self, inst: TableInst) -> (r: TableAddr)
        ensures
            r == TableAddr(old(self).tables@.len() as usize),
            final(self).tables@ == old(self).tables@.push(inst),
            final(self).funcs == old(self).funcs,
            final(self).mems == old(self).mems,
            final(self).globals == old(self).globals,
            final(self).modules == old(self).modules,
    {
        self.tables.push(inst)
    }

    /// Adds a memory instance and returns its address, which named nothing
    /// before. Nothing else in the store changes.
    pub fn alloc_mem(&mut self, inst: MemInst) -> (r: MemAddr)
        ensures
            r == MemAddr(old(self).mems@.len() as usize),
            final(self).mems@ == old(self).mems@.push(inst),
            final(self).funcs == old(self).funcs,
            final(self).tables == old(self).tables,
            final(self).globals == old(self).globals,
            final(self).modules == old(self).modules,
    {
        self.mems.push(inst)
    }

    /// Adds a global instance and returns its address, which named nothing
    /// before. Nothing else in the store changes.
    pub fn alloc_global(&mut self, inst: GlobalInst) -> (r: GlobalAddr)
        ensures
            r == GlobalAddr(old(self).globals@.len() as usize),
            final(self).globals@ == old(self).globals@.push(inst),
            final(self).funcs == old(self).funcs,
            final(self).tables == old(self).tables,
            final(self).mems == old(self).mems,
            final(self).modules == old(self).modules,
    {
        self.globals.push(inst)
    }

    /// Adds a module instance and returns its address, which named nothing
    /// before. Nothing else in the store changes.
    pub fn alloc_module(&mut self, inst: ModuleInst<Refs>) -> (r: ModuleAddr)
        ensures
            r == ModuleAddr(old(self).modules@.len() as usize),
            final(self).modules@ == old(self).modules@.push(inst),
            final(self).funcs == old(self).funcs,
            final(self).tables == old(self).tables,
            final(self).mems == old(self).mems,
            final(self).globals == old(self).globals,
    {
        self.modules.push(inst)
    }
}

/// A module at run time: its function types, the addresses that its
/// indices stand for, and its exports.
#[derive(Clone)]
pub struct ModuleInst<Refs> where Refs: StructureReference {
    pub types: Refs::FuncTypesRef,
    pub funcaddrs: TypedIndexVec<FuncAddr, FuncIdx>,
    pub tableaddrs: TypedIndexVec<TableAddr, TableIdx>,
    pub memaddrs: TypedIndexVec<MemAddr, MemIdx>,
    pub globaladdrs: TypedIndexVec<GlobalAddr, GlobalIdx>,
    pub exports: Vec<ExportInst<Refs>>,
}

impl<Refs> ModuleInst<Refs> where Refs: StructureReference {
    /// A module instance of the given parts.
    pub fn new(
        types: Refs::FuncTypesRef,
        funcaddrs: TypedIndexVec<FuncAddr, FuncIdx>,
        tableaddrs: TypedIndexVec<TableAddr, TableIdx>,
        memaddrs: TypedIndexVec<MemAddr, MemIdx>,
        globaladdrs: TypedIndexVec<GlobalAddr, GlobalIdx>,
        exports: Vec<ExportInst<Refs>>,
    ) -> (r: Self)
        ensures
            r == (ModuleInst::<Refs> {
                types,
                funcaddrs,
                tableaddrs,
                memaddrs,
                globaladdrs,
                exports,
            }),
    {
        ModuleInst { types, funcaddrs, tableaddrs, memaddrs, globaladdrs, exports }
    }
}

/// A function at run time: one of a module, or one of the host.
#[derive(Clone)]
pub enum FuncInst<Refs> where Refs: StructureReference {
    Internal { type_: Refs::FuncTypeRef, module: ModuleAddr, code: Refs::FuncRef },
    Host { type_: Refs::FuncTypeRef, hostcode: HostFunc },
}

impl<Refs> FuncInst<Refs> where Refs: StructureReference {
    /// The type of the function, whichever kind it is.
    pub fn type_(&self) -> (r: &Refs::FuncTypeRef)
        ensures
            *r == self.spec_type(),
    {
        match self {
            FuncInst::Internal { type_, .. } => type_,
            FuncInst::Host { type_, .. } => type_,
        }
    }

    /// The type of the function, whichever kind it is.
    pub open spec fn spec_type(&self) -> Refs::FuncTypeRef {
        match *self {
            FuncInst::Internal { type_, .. } => type_,
            FuncInst::Host { type_, .. } => type_,
        }
    }
}

/// A function of the host, by the number under which the embedder keeps it.
#[derive(Clone, Copy, Debug, PartialEq, Eq, Structural)]
pub struct HostFunc {
    pub id: u32,
}

/// A table at run time: its slots, and the size it may grow to.
pub struct TableInst {
    pub elem: Vec<FuncElem>,
    pub max: Option<u32>,
}

/// A slot of a table: a function, or nothing yet.
#[derive(Clone, Copy, Debug, PartialEq, Eq, Structural)]
pub struct FuncElem(pub Option<FuncAddr>);

/// A memory at run time: its bytes, and the number of pages it may grow to.
pub struct MemInst {
    pub data: Vec<Byte>,
    pub max: Option<u32>,
}

/// A global at run time: its value, and whether it may be written.
pub struct GlobalInst {
    pub value: Val,
    pub mutability: Mut,
}

/// An export at run time: a name and what it names.
#[derive(Clone)]
pub struct ExportInst<Refs> where Refs: StructureReference {
    pub name: Refs::NameRef,
    pub value: ExternVal,
}

/// What an export or import can be.
#[derive(Clone, Copy, Debug, PartialEq, Eq, Structural)]
pub enum ExternVal {
    Func(FuncAddr),
    Table(TableAddr),
    Mem(MemAddr),
    Global(GlobalAddr),
}

/// Which of a label and an activation is nearer the top of the stack.
#[derive(Clone, Copy, Debug, PartialEq, Eq, Structural)]
pub enum TopCtrlEntry {
    Label,
    Activation,
    /// The stack holds neither.
    Neither,
}

/// A branch target on the stack.
#[derive(Debug, PartialEq)]
pub struct Label<'instr> {
    /// How many values a branch to this label keeps: 0 or 1.
    pub n: usize,
    /// Where a branch to this label goes on.
    pub branch_target: &'instr [Instr],
    /// Where execution goes on when the construct ends without a branch.
    pub next_instr: &'instr [Instr],
}

/// A call in progress on the stack.
#[derive(Debug, PartialEq)]
pub struct Activation<'instr> {
    /// How many values the call returns: 0 or 1.
    pub n: usize,
    pub frame: Frame,
    /// Where the caller goes on after the call.
    pub next_instr: &'instr [Instr],
}

/// An entry of the stack.
#[derive(Debug, PartialEq)]
pub enum StackElem<'instr> {
    Val(Val),
    Label(Label<'instr>),
    Activation(Activation<'instr>),
}

/// The locals of a call and the module that the called function is of.
#[derive(Debug, PartialEq)]
pub struct Frame {
    pub locals: TypedIndexVec<Val, LocalIdx>,
    pub module: ModuleAddr,
}

/// Where the labels of `s` are, from the bottom up.
pub open spec fn label_positions(s: Seq<StackElem>) -> Seq<int>
    decreases s.len(),
{
    if s.len() == 0 {
        Seq::empty()
    } else if s.last() is Label {
        label_positions(s.drop_last()).push(s.len() - 1)
    } else {
        label_positions(s.drop_last())
    }
}

/// Where the activations of `s` are, from the bottom up.
pub open spec fn frame_positions(s: Seq<StackElem>) -> Seq<int>
    decreases s.len(),
{
    if s.len() == 0 {
        Seq::empty()
    } else if s.last() is Activation {
        frame_positions(s.drop_last()).push(s.len() - 1)
    } else {
        frame_positions(s.drop_last())
    }
}

/// Where the label is that encloses the top of `s` at depth `l`, the
/// innermost being at depth 0.
pub open spec fn lth_label_position(s: Seq<StackElem>, l: int) -> int
    recommends
        0 <= l < label_positions(s).len(),
{
    label_positions(s)[label_positions(s).len() - 1 - l]
}

/// Where the topmost activation of `s` is.
pub open spec fn top_frame_position(s: Seq<StackElem>) -> int
    recommends
        frame_positions(s).len() > 0,
{
    frame_positions(s).last()
}

/// The kind of the topmost entry of `s` that is no value.
pub open spec fn top_ctrl(s: Seq<StackElem>) -> TopCtrlEntry
    decreases s.len(),
{
    if s.len() == 0 {
        TopCtrlEntry::Neither
    } else {
        match s.last() {
            StackElem::Val(_) => top_ctrl(s.drop_last()),
            StackElem::Label(_) => TopCtrlEntry::Label,
            StackElem::Activation(_) => TopCtrlEntry::Activation,
        }
    }
}

/// The positions of the labels are in the stack, hold labels, and rise.
pub proof fn lemma_label_positions(s: Seq<StackElem>)
    ensures
        forall|i: int|
            0 <= i < label_positions(s).len() ==> 0 <= (#[trigger] label_positions(s)[i]) < s.len()
                && s[label_positions(s)[i]] is Label,
        forall|i: int, j: int|
            0 <= i < j < label_positions(s).len() ==> label_positions(s)[i] < label_positions(
                s,
            )[j],
        forall|k: int|
            0 <= k < s.len() && s[k] is Label ==> exists|i: int|
                0 <= i < label_positions(s).len() && label_positions(s)[i] == k,
    decreases s.len(),
{
    if s.len() > 0 {
        let t = s.drop_last();
        lemma_label_positions(t);
        assert forall|k: int| 0 <= k < s.len() && s[k] is Label implies exists|i: int|
            0 <= i < label_positions(s).len() && label_positions(s)[i] == k by {
            if k < t.len() {
                assert(t[k] is Label);
                let i = choose|i: int| 0 <= i < label_positions(t).len() && label_positions(t)[i] == k;
                assert(label_positions(s)[i] == k);
            } else {
                assert(label_positions(s)[label_positions(s).len() - 1] == k);
            }
        }
    }
}

/// The positions of the activations are in the stack, hold activations, and
/// rise.
pub proof fn lemma_frame_positions(s: Seq<StackElem>)
    ensures
        forall|i: int|
            0 <= i < frame_positions(s).len() ==> 0 <= (#[trigger] frame_positions(s)[i]) < s.len()
                && s[frame_positions(s)[i]] is Activation,
        forall|i: int, j: int|
            0 <= i < j < frame_positions(s).len() ==> frame_positions(s)[i] < frame_positions(
                s,
            )[j],
        forall|k: int|
            0 <= k < s.len() && s[k] is Activation ==> exists|i: int|
                0 <= i < frame_positions(s).len() && frame_positions(s)[i] == k,
    decreases s.len(),
{
    if s.len() > 0 {
        let t = s.drop_last();
        lemma_frame_positions(t);
        assert forall|k: int| 0 <= k < s.len() && s[k] is Activation implies exists|i: int|
            0 <= i < frame_positions(s).len() && frame_positions(s)[i] == k by {
            if k < t.len() {
                assert(t[k] is Activation);
                let i = choose|i: int| 0 <= i < frame_positions(t).len() && frame_positions(t)[i] == k;
                assert(frame_positions(s)[i] == k);
            } else {
                assert(frame_positions(s)[frame_positions(s).len() - 1] == k);
            }
        }
    }
}

/// The topmost entry that is no value is an activation exactly when there
/// is an activation and no label above it; a label exactly when there is a
/// label and no activation above it; and neither exactly when the stack
/// holds no label and no activation. The two topmost positions never meet.
pub proof fn lemma_top_ctrl(s: Seq<StackElem>)
    ensures
        top_ctrl(s) == TopCtrlEntry::Activation <==> frame_positions(s).len() > 0 && (
        label_positions(s).len() == 0 || frame_positions(s).last() > label_positions(s).last()),
        top_ctrl(s) == TopCtrlEntry::Label <==> label_positions(s).len() > 0 && (frame_positions(
            s,
        ).len() == 0 || label_positions(s).last() > frame_positions(s).last()),
        top_ctrl(s) == TopCtrlEntry::Neither <==> frame_positions(s).len() == 0 && label_positions(
            s,
        ).len() == 0,
        frame_positions(s).len() > 0 && label_positions(s).len() > 0 ==> frame_positions(s).last()
            != label_positions(s).last(),
    decreases s.len(),
{
    if s.len() > 0 {
        let t = s.drop_last();
        lemma_top_ctrl(t);
        lemma_label_positions(t);
        lemma_frame_positions(t);
        if label_positions(t).len() > 0 {
            assert(label_positions(t)[label_positions(t).len() - 1] < t.len());
        }
        if frame_positions(t).len() > 0 {
            assert(frame_positions(t)[frame_positions(t).len() - 1] < t.len());
        }
    }
}

/// Replacing an entry by one of its kind leaves the labels and the
/// activations where they are.
pub proof fn lemma_positions_update(s: Seq<StackElem>, k: int, e: StackElem)
    requires
        0 <= k < s.len(),
        s[k] is Label <==> e is Label,
        s[k] is Activation <==> e is Activation,
    ensures
        label_positions(s.update(k, e)) == label_positions(s),
        frame_positions(s.update(k, e)) == frame_positions(s),
    decreases s.len(),
{
    let u = s.update(k, e);
    if k < s.len() - 1 {
        assert(u.drop_last() =~= s.drop_last().update(k, e));
        lemma_positions_update(s.drop_last(), k, e);
    } else {
        assert(u.drop_last() =~= s.drop_last());
    }
}

/// One step of a computation on the stack.
pub enum StackOp<'instr> {
    /// Put the entry on top.
    Push(StackElem<'instr>),
    /// Take a value off the top.
    PopVal,
    /// Take a label off the top.
    PopLabel,
    /// Take an activation off the top.
    PopFrame,
}

/// The stack after the step `op`, or `None` where `op` takes off the top
/// what is not there.
pub open spec fn step<'instr>(s: Seq<StackElem<'instr>>, op: StackOp<'instr>) -> Option<
    Seq<StackElem<'instr>>,
> {
    match op {
        StackOp::Push(e) => Some(s.push(e)),
        StackOp::PopVal => if s.len() > 0 && s.last() is Val {
            Some(s.drop_last())
        } else {
            None
        },
        StackOp::PopLabel => if s.len() > 0 && s.last() is Label {
            Some(s.drop_last())
        } else {
            None
        },
        StackOp::PopFrame => if s.len() > 0 && s.last() is Activation {
            Some(s.drop_last())
        } else {
            None
        },
    }
}

/// The stack after the steps `ops` in order, or `None` where one of them
/// takes off the top what is not there.
pub open spec fn run<'instr>(s: Seq<StackElem<'instr>>, ops: Seq<StackOp<'instr>>) -> Option<
    Seq<StackElem<'instr>>,
>
    decreases ops.len(),
{
    if ops.len() == 0 {
        Some(s)
    } else {
        match run(s, ops.drop_last()) {
            Some(t) => step(t, ops.last()),
            None => None,
        }
    }
}

/// How many more entries the steps `ops` put on than they take off, or
/// `None` where they take off more than they have put on so far.
pub open spec fn depth(ops: Seq<StackOp>) -> Option<nat>
    decreases ops.len(),
{
    if ops.len() == 0 {
        Some(0)
    } else {
        match depth(ops.drop_last()) {
            Some(d) => match ops.last() {
                StackOp::Push(_) => Some(d + 1),
                _ => if d > 0 {
                    Some((d - 1) as nat)
                } else {
                    None
                },
            },
            None => None,
        }
    }
}

/// Steps that never take off more than they have put on leave what was
/// below them alone.
pub proof fn lemma_run_keeps_base<'instr>(s: Seq<StackElem<'instr>>, ops: Seq<StackOp<'instr>>)
    requires
        depth(ops) is Some,
        run(s, ops) is Some,
    ensures
        run(s, ops)->Some_0.len() == s.len() + depth(ops)->Some_0,
        run(s, ops)->Some_0.take(s.len() as int) == s,
    decreases ops.len(),
{
    if ops.len() == 0 {
        assert(s.take(s.len() as int) =~= s);
    } else {
        lemma_run_keeps_base(s, ops.drop_last());
        let t = run(s, ops.drop_last())->Some_0;
        let r = run(s, ops)->Some_0;
        assert(r.take(s.len() as int) =~= t.take(s.len() as int));
    }
}

/// Pushes that are balanced by matching pops, last in first out, give the
/// stack back as it was. From the empty stack they end on the empty stack,
/// with no label and no activation recorded.
pub proof fn lemma_stack_discipline<'instr>(s: Seq<StackElem<'instr>>, ops: Seq<StackOp<'instr>>)
    requires
        depth(ops) == Some(0nat),
        run(s, ops) is Some,
    ensures
        run(s, ops) == Some(s),
        s.len() == 0 ==> label_positions(run(s, ops)->Some_0).len() == 0 && frame_positions(
            run(s, ops)->Some_0,
        ).len() == 0 && top_ctrl(run(s, ops)->Some_0) == TopCtrlEntry::Neither,
{
    lemma_run_keeps_base(s, ops);
    let r = run(s, ops)->Some_0;
    assert(r.take(s.len() as int) =~= r);
}

/// A label put on top is the innermost, and the labels below it are one
/// deeper than they were.
pub proof fn lemma_lth_label_push_label<'instr>(
    s: Seq<StackElem<'instr>>,
    label: Label<'instr>,
    l: int,
)
    requires
        0 <= l < label_positions(s).len(),
    ensures
        label_positions(s.push(StackElem::Label(label))).len() == label_positions(s).len() + 1,
        lth_label_position(s.push(StackElem::Label(label)), 0) == s.len(),
        lth_label_position(s.push(StackElem::Label(label)), l + 1) == lth_label_position(s, l),
{
    let t = s.push(StackElem::Label(label));
    assert(t.drop_last() =~= s);
}

/// After three labels are put on a stack, the last is at depth 0, the
/// second at depth 1 and the first at depth 2.
pub proof fn lemma_lth_label_three<'instr>(
    s: Seq<StackElem<'instr>>,
    l0: Label<'instr>,
    l1: Label<'instr>,
    l2: Label<'instr>,
)
    ensures
        ({
            let t = s.push(StackElem::Label(l0)).push(StackElem::Label(l1)).push(
                StackElem::Label(l2),
            );
            &&& label_positions(t).len() == label_positions(s).len() + 3
            &&& t[lth_label_position(t, 0)] == StackElem::Label(l2)
            &&& t[lth_label_position(t, 1)] == StackElem::Label(l1)
            &&& t[lth_label_position(t, 2)] == StackElem::Label(l0)
        }),
{
    let t0 = s.push(StackElem::Label(l0));
    let t1 = t0.push(StackElem::Label(l1));
    let t2 = t1.push(StackElem::Label(l2));
    assert(t0.drop_last() =~= s);
    assert(t1.drop_last() =~= t0);
    assert(t2.drop_last() =~= t1);
    let p = label_positions(s);
    let n = s.len() as int;
    assert(label_positions(t0) == p.push(n));
    assert(label_positions(t1) == p.push(n).push(n + 1));
    assert(label_positions(t2) == p.push(n).push(n + 1).push(n + 2));
}

/// The operand and control stack of one invocation.
///
/// It stands for the sequence of its entries, bottom first. Beside the
/// entries it keeps where the labels and where the activations are, so that
/// the topmost of either and the label at a given depth are found in one
/// step.
pub struct Stack<'instr> {
    data: Vec<StackElem<'instr>>,
    frame_indices: Vec<usize>,
    label_indices: Vec<usize>,
}

impl<'instr> View for Stack<'instr> {
    type V = Seq<StackElem<'instr>>;

    closed spec fn view(&self) -> Seq<StackElem<'instr>> {
        self.data@
    }
}

impl<'instr> Default for Stack<'instr> {
    fn default() -> (r: Self)
        ensures
            r.wf(),
            r@ == Seq::<StackElem<'instr>>::empty(),
    {
        Stack::new()
    }
}

/// The positions in `v`, as integers.
pub open spec fn as_positions(v: Seq<usize>) -> Seq<int> {
    Seq::new(v.len(), |i: int| v[i] as int)
}

impl<'instr> Stack<'instr> {
    /// Where the labels are, as the stack has recorded them.
    pub closed spec fn label_indices(&self) -> Seq<usize> {
        self.label_indices@
    }

    /// Where the activations are, as the stack has recorded them.
    pub closed spec fn frame_indices(&self) -> Seq<usize> {
        self.frame_indices@
    }

    /// The recorded positions are those of the labels and of the
    /// activations among the entries. Every stack that `new` made and the
    /// methods below changed is well formed.
    pub open spec fn wf(&self) -> bool {
        &&& as_positions(self.label_indices()) == label_positions(self@)
        &&& as_positions(self.frame_indices()) == frame_positions(self@)
    }

    /// In a well-formed stack the recorded positions of the labels rise,
    /// and each is the position of a label; so with the activations. A stack
    /// without entries has recorded none.
    pub proof fn lemma_recorded_positions(&self)
        requires
            self.wf(),
        ensures
            forall|i: int, j: int|
                0 <= i < j < self.label_indices().len() ==> self.label_indices()[i]
                    < self.label_indices()[j],
            forall|i: int|
                0 <= i < self.label_indices().len() ==> (#[trigger] self.label_indices()[i])
                    < self@.len() && self@[self.label_indices()[i] as int] is Label,
            forall|i: int, j: int|
                0 <= i < j < self.frame_indices().len() ==> self.frame_indices()[i]
                    < self.frame_indices()[j],
            forall|i: int|
                0 <= i < self.frame_indices().len() ==> (#[trigger] self.frame_indices()[i])
                    < self@.len() && self@[self.frame_indices()[i] as int] is Activation,
            self@.len() == 0 ==> self.label_indices().len() == 0 && self.frame_indices().len()
                == 0,
    {
        lemma_label_positions(self@);
        lemma_frame_positions(self@);
        let lp = label_positions(self@);
        let fp = frame_positions(self@);
        let li = self.label_indices();
        let fi = self.frame_indices();
        assert(as_positions(li).len() == lp.len());
        assert(as_positions(fi).len() == fp.len());
        assert forall|i: int, j: int| 0 <= i < j < li.len() implies li[i] < li[j] by {
            assert(as_positions(li)[i] == lp[i] && as_positions(li)[j] == lp[j]);
        }
        assert forall|i: int| 0 <= i < li.len() implies (#[trigger] li[i]) < self@.len()
            && self@[li[i] as int] is Label by {
            assert(as_positions(li)[i] == lp[i]);
        }
        assert forall|i: int, j: int| 0 <= i < j < fi.len() implies fi[i] < fi[j] by {
            assert(as_positions(fi)[i] == fp[i] && as_positions(fi)[j] == fp[j]);
        }
        assert forall|i: int| 0 <= i < fi.len() implies (#[trigger] fi[i]) < self@.len()
            && self@[fi[i] as int] is Activation by {
            assert(as_positions(fi)[i] == fp[i]);
        }
    }

    /// An empty stack.
    pub fn new() -> (r: Self)
        ensures
            r.wf(),
            r@ == Seq::<StackElem<'instr>>::empty(),
    {
        let r = Stack { data: Vec::new(), frame_indices: Vec::new(), label_indices: Vec::new() };
        assert(as_positions(r.label_indices@) =~= label_positions(r.data@));
        assert(as_positions(r.frame_indices@) =~= frame_positions(r.data@));
        r
    }

    /// Puts a value on top.
    pub fn push_val(&mut self, val: Val)
        requires
            old(self).wf(),
        ensures
            final(self).wf(),
            final(self)@ == old(self)@.push(StackElem::Val(val)),
    {
        proof {
            assert(self.data@.push(StackElem::Val(val)).drop_last() =~= self.data@);
        }
        self.data.push(StackElem::Val(val));
    }

    /// Puts a label on top.
    pub fn push_label(
        &mut self,
        n: usize,
        branch_target: &'instr [Instr],
        next_instr: &'instr [Instr],
    )
        requires
            old(self).wf(),
            n <= 1,
        ensures
            final(self).wf(),
            final(self)@ == old(self)@.push(
                StackElem::Label(Label { n, branch_target, next_instr }),
            ),
    {
        proof {
            let e = StackElem::Label(Label { n, branch_target, next_instr });
            assert(self.data@.push(e).drop_last() =~= self.data@);
            assert(as_positions(self.label_indices@.push(self.data.len())) =~= as_positions(
                self.label_indices@,
            ).push(self.data@.len() as int));
        }
        self.label_indices.push(self.data.len());
        self.data.push(StackElem::Label(Label { n, branch_target, next_instr }));
    }

    /// Puts an activation on top.
    pub fn push_frame(&mut self, n: usize, frame: Frame, next_instr: &'instr [Instr])
        requires
            old(self).wf(),
            n <= 1,
        ensures
            final(self).wf(),
            final(self)@ == old(self)@.push(
                StackElem::Activation(Activation { n, frame, next_instr }),
            ),
    {
        proof {
            let e = StackElem::Activation(Activation { n, frame, next_instr });
            assert(self.data@.push(e).drop_last() =~= self.data@);
            assert(as_positions(self.frame_indices@.push(self.data.len())) =~= as_positions(
                self.frame_indices@,
            ).push(self.data@.len() as int));
        }
        self.frame_indices.push(self.data.len());
        self.data.push(StackElem::Activation(Activation { n, frame, next_instr }));
    }

    /// The entry on top, if there is one.
    pub fn top(&self) -> (r: Option<&StackElem<'instr>>)
        ensures
            match r {
                Some(e) => self@.len() > 0 && *e == self@.last(),
                None => self@.len() == 0,
            },
    {
        if self.data.len() > 0 {
            Some(&self.data[self.data.len() - 1])
        } else {
            None
        }
    }

    /// Takes the activation off the top.
    pub fn pop_frame(&mut self) -> (r: Activation<'instr>)
        requires
            old(self).wf(),
            old(self)@.len() > 0,
            old(self)@.last() is Activation,
        ensures
            final(self).wf(),
            final(self)@ == old(self)@.drop_last(),
            StackElem::Activation(r) == old(self)@.last(),
    {
        proof {
            assert(as_positions(self.frame_indices@.drop_last()) =~= as_positions(
                self.frame_indices@,
            ).drop_last());
            assert(frame_positions(self.data@).drop_last() =~= frame_positions(
                self.data@.drop_last(),
            ));
        }
        let _ = self.frame_indices.pop();
        match self.data.pop() {
            Some(StackElem::Activation(a)) => a,
            _ => unreached(),
        }
    }

    /// Takes the value off the top.
    pub fn pop_val(&mut self) -> (r: Val)
        requires
            old(self).wf(),
            old(self)@.len() > 0,
            old(self)@.last() is Val,
        ensures
            final(self).wf(),
            final(self)@ == old(self)@.drop_last(),
            StackElem::Val(r) == old(self)@.last(),
    {
        match self.data.pop() {
            Some(StackElem::Val(val)) => val,
            _ => unreached(),
        }
    }

    /// Takes the label off the top.
    pub fn pop_label(&mut self) -> (r: Label<'instr>)
        requires
            old(self).wf(),
            old(self)@.len() > 0,
            old(self)@.last() is Label,
        ensures
            final(self).wf(),
            final(self)@ == old(self)@.drop_last(),
            StackElem::Label(r) == old(self)@.last(),
    {
        proof {
            assert(as_positions(self.label_indices@.drop_last()) =~= as_positions(
                self.label_indices@,
            ).drop_last());
            assert(label_positions(self.data@).drop_last() =~= label_positions(
                self.data@.drop_last(),
            ));
        }
        let _ = self.label_indices.pop();
        match self.data.pop() {
            Some(StackElem::Label(l)) => l,
            _ => unreached(),
        }
    }

    /// The label that encloses the top at depth `l`, the innermost being at
    /// depth 0.
    pub fn lth_label(&self, l: LabelIdx) -> (r: &Label<'instr>)
        requires
            self.wf(),
            l.0 < label_positions(self@).len(),
        ensures
            StackElem::Label(*r) == self@[lth_label_position(self@, l.0 as int)],
    {
        proof {
            lemma_label_positions(self.data@);
        }
        let len = self.label_indices.len();
        let pos = self.label_indices[len - 1 - (l.0 as usize)];
        assert(pos as int == as_positions(self.label_indices@)[len - 1 - l.0]);
        match &self.data[pos] {
            StackElem::Label(l) => l,
            _ => unreached(),
        }
    }

    /// The value on top, which stays there.
    pub fn peek_val(&mut self) -> (r: Val)
        requires
            old(self).wf(),
            old(self)@.len() > 0,
            old(self)@.last() is Val,
        ensures
            final(self).wf(),
            final(self)@ == old(self)@,
            StackElem::Val(r) == old(self)@.last(),
    {
        match &self.data[self.data.len() - 1] {
            StackElem::Val(val) => *val,
            _ => unreached(),
        }
    }

    /// The topmost label.
    pub fn current_label(&self) -> (r: &Label<'instr>)
        requires
            self.wf(),
            label_positions(self@).len() > 0,
        ensures
            StackElem::Label(*r) == self@[lth_label_position(self@, 0)],
    {
        proof {
            lemma_label_positions(self.data@);
        }
        let cli = self.label_indices[self.label_indices.len() - 1];
        assert(cli as int == as_positions(self.label_indices@)[self.label_indices.len() - 1]);
        match &self.data[cli] {
            StackElem::Label(l) => l,
            _ => unreached(),
        }
    }

    /// The topmost activation, for writing. Only that activation can
    /// change.
    pub fn current_activation(&mut self) -> (r: &mut Activation<'instr>)
        requires
            old(self).wf(),
            frame_positions(old(self)@).len() > 0,
        ensures
            final(self).wf(),
            StackElem::Activation(*r) == old(self)@[top_frame_position(old(self)@)],
            final(self)@ == old(self)@.update(
                top_frame_position(old(self)@),
                StackElem::Activation(*final(r)),
            ),
    {
        proof {
            lemma_frame_positions(self.data@);
        }
        let cfi = self.frame_indices[self.frame_indices.len() - 1];
        assert(cfi as int == as_positions(self.frame_indices@)[self.frame_indices.len() - 1]);
        proof {
            assert forall|a: Activation<'instr>|
                label_positions(
                    #[trigger] self.data@.update(cfi as int, StackElem::Activation(a)),
                ) == label_positions(self.data@) && frame_positions(
                    self.data@.update(cfi as int, StackElem::Activation(a)),
                ) == frame_positions(self.data@) by {
                lemma_positions_update(self.data@, cfi as int, StackElem::Activation(a));
            }
        }
        match &mut self.data[cfi] {
            StackElem::Activation(a) => a,
            _ => unreached(),
        }
    }

    /// The frame of the topmost activation, for writing. Only that frame
    /// can change.
    pub fn current_frame(&mut self) -> (r: &mut Frame)
        requires
            old(self).wf(),
            frame_positions(old(self)@).len() > 0,
        ensures
            final(self).wf(),
            old(self)@[top_frame_position(old(self)@)] matches StackElem::Activation(a) && *r
                == a.frame && final(self)@ == old(self)@.update(
                top_frame_position(old(self)@),
                StackElem::Activation(
                    Activation { n: a.n, frame: *final(r), next_instr: a.next_instr },
                ),
            ),
    {
        &mut self.current_activation().frame
    }

    /// How many values the topmost activation returns.
    pub fn current_frame_arity(&mut self) -> (r: usize)
        requires
            old(self).wf(),
            frame_positions(old(self)@).len() > 0,
        ensures
            final(self).wf(),
            final(self)@ == old(self)@,
            old(self)@[top_frame_position(old(self)@)] matches StackElem::Activation(a) && r
                == a.n,
    {
        proof {
            lemma_frame_positions(self@);
        }
        let r = self.current_activation().n;
        assert(self@ =~= old(self)@);
        r
    }

    /// How many labels are on the stack.
    pub fn label_count(&self) -> (r: usize)
        requires
            self.wf(),
        ensures
            r == label_positions(self@).len(),
    {
        self.label_indices.len()
    }

    /// Which of the topmost label and the topmost activation is nearer the
    /// top.
    pub fn top_ctrl_entry(&self) -> (r: TopCtrlEntry)
        requires
            self.wf(),
        ensures
            r == top_ctrl(self@),
    {
        proof {
            lemma_top_ctrl(self.data@);
        }
        let nf = self.frame_indices.len();
        let nl = self.label_indices.len();
        if nf > 0 && nl > 0 {
            let fi = self.frame_indices[nf - 1];
            let li = self.label_indices[nl - 1];
            assert(fi as int == as_positions(self.frame_indices@)[nf - 1]);
            assert(li as int == as_positions(self.label_indices@)[nl - 1]);
            if fi > li {
                TopCtrlEntry::Activation
            } else {
                TopCtrlEntry::Label
            }
        } else if nf > 0 {
            TopCtrlEntry::Activation
        } else if nl > 0 {
            TopCtrlEntry::Label
        } else {
            TopCtrlEntry::Neither
        }
    }
}

} // verus!
