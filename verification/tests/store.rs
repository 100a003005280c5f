use greenwasm::runtime_structure::ExportInst;
use greenwasm::runtime_structure::ExternVal;
use greenwasm::runtime_structure::FuncAddr;
use greenwasm::runtime_structure::FuncElem;
use greenwasm::runtime_structure::FuncInst;
use greenwasm::runtime_structure::GlobalAddr;
use greenwasm::runtime_structure::GlobalInst;
use greenwasm::runtime_structure::HostFunc;
use greenwasm::runtime_structure::MemAddr;
use greenwasm::runtime_structure::MemInst;
use greenwasm::runtime_structure::ModuleAddr;
use greenwasm::runtime_structure::ModuleInst;
use greenwasm::runtime_structure::Store;
use greenwasm::runtime_structure::TableAddr;
use greenwasm::runtime_structure::TableInst;
use greenwasm::runtime_structure::TypedIndexVec;
use greenwasm::runtime_structure::Val;
use greenwasm::structure::instructions::Expr;
use greenwasm::structure::instructions::Instr;
use greenwasm::structure::modules::FuncIdx;
use greenwasm::structure::modules::GlobalIdx;
use greenwasm::structure::modules::LabelIdx;
use greenwasm::structure::modules::LocalIdx;
use greenwasm::structure::modules::MemIdx;
use greenwasm::structure::modules::TableIdx;
use greenwasm::structure::modules::TypeIdx;
use greenwasm::structure::types::FuncType;
use greenwasm::structure::types::Mut;
use greenwasm::structure::types::ValType;
use greenwasm::structure::types::F32;
use greenwasm::structure::types::F64;
use greenwasm::structure_references::StructureReference;
use std::rc::Rc;

#[derive(Clone)]
struct Shared;

impl StructureReference for Shared {
    type FuncTypesRef = Rc<Vec<FuncType>>;
    type FuncTypeRef = Rc<FuncType>;
    type FuncRef = Rc<Expr>;
    type NameRef = Rc<str>;
}

#[test]
fn push_gives_the_length_before() {
    let mut v: TypedIndexVec<u32, FuncAddr> = TypedIndexVec::from(Vec::new());
    for i in 0..10usize {
        assert_eq!(v.next_addr(), FuncAddr(i));
        assert_eq!(v.push(100 + i as u32), FuncAddr(i));
    }
    assert_eq!(v.next_addr(), FuncAddr(10));
}

#[test]
fn an_address_keeps_its_entry() {
    let mut v: TypedIndexVec<String, ModuleAddr> = TypedIndexVec::from(Vec::new());
    let first = v.push("first".to_string());
    let second = v.push("second".to_string());
    for i in 0..100 {
        v.push(format!("later {}", i));
        assert_eq!(v.get(first).unwrap(), "first");
        assert_eq!(v.get(second).unwrap(), "second");
        assert_eq!(v.index(first), "first");
    }
}

#[test]
fn get_past_the_end_is_none() {
    let mut v: TypedIndexVec<u8, MemAddr> = TypedIndexVec::from(vec![1, 2, 3]);
    assert_eq!(v.get(MemAddr(2)), Some(&3));
    assert_eq!(v.get(MemAddr(3)), None);
    assert_eq!(v.get(MemAddr(usize::MAX)), None);
    assert!(v.get_mut(MemAddr(3)).is_none());
    assert_eq!(v.next_addr(), MemAddr(3));
}

#[test]
fn get_mut_and_index_mut_write_one_entry() {
    let mut v: TypedIndexVec<u8, TableAddr> = TypedIndexVec::from(vec![1, 2, 3]);
    *v.get_mut(TableAddr(1)).unwrap() = 20;
    *v.index_mut(TableAddr(2)) = 30;
    assert_eq!(v, TypedIndexVec::from(vec![1, 20, 30]));
    assert_eq!(*v.index(TableAddr(0)), 1);
}

#[test]
fn pop_aux_takes_the_last_entry_back() {
    let mut v: TypedIndexVec<u8, GlobalAddr> = TypedIndexVec::from(vec![1]);
    let a = v.push(2);
    assert_eq!(a, GlobalAddr(1));
    v.pop_aux();
    assert_eq!(v.get(a), None);
    assert_eq!(v.next_addr(), GlobalAddr(1));
    v.pop_aux();
    v.pop_aux();
    assert_eq!(v.next_addr(), GlobalAddr(0));
}

#[test]
fn from_vec_keeps_the_order() {
    let v: TypedIndexVec<char, LocalIdx> = TypedIndexVec::from(vec!['a', 'b', 'c']);
    assert_eq!(v.get(LocalIdx(0)), Some(&'a'));
    assert_eq!(v.get(LocalIdx(1)), Some(&'b'));
    assert_eq!(v.get(LocalIdx(2)), Some(&'c'));
    assert_eq!(v.next_addr(), LocalIdx(3));
    let w = v.clone();
    assert_eq!(v, w);
}

#[test]
fn addresses_convert_to_and_from_positions() {
    assert_eq!(FuncAddr::from(3usize), FuncAddr(3));
    assert_eq!(usize::from(FuncAddr(3)), 3);
    assert_eq!(usize::from(TableAddr::from(4usize)), 4);
    assert_eq!(usize::from(MemAddr::from(5usize)), 5);
    assert_eq!(usize::from(GlobalAddr::from(6usize)), 6);
    assert_eq!(usize::from(ModuleAddr::from(usize::MAX)), usize::MAX);
}

#[test]
fn indices_convert_to_and_from_positions() {
    assert_eq!(TypeIdx::from(1usize), TypeIdx(1));
    assert_eq!(FuncIdx::from(2usize), FuncIdx(2));
    assert_eq!(TableIdx::from(3usize), TableIdx(3));
    assert_eq!(MemIdx::from(4usize), MemIdx(4));
    assert_eq!(GlobalIdx::from(5usize), GlobalIdx(5));
    assert_eq!(LocalIdx::from(6usize), LocalIdx(6));
    assert_eq!(LabelIdx::from(7usize), LabelIdx(7));
    assert_eq!(usize::from(LabelIdx(u32::MAX)), u32::MAX as usize);
    assert_eq!(LocalIdx::from(u32::MAX as usize), LocalIdx(u32::MAX));
    assert_eq!(LocalIdx::from((u32::MAX as usize).wrapping_add(2)), LocalIdx(1));
}

#[test]
fn val_knows_its_type() {
    assert_eq!(Val::I32(1).ty(), ValType::I32);
    assert_eq!(Val::I64(1).ty(), ValType::I64);
    assert_eq!(Val::F32(F32::from_bits(1)).ty(), ValType::F32);
    assert_eq!(Val::F64(F64::from_bits(1)).ty(), ValType::F64);
}

#[test]
fn val_equality() {
    assert_eq!(Val::I32(1), Val::I32(1));
    assert_ne!(Val::I32(1), Val::I32(2));
    assert_ne!(Val::I32(1), Val::I64(1));
    assert_ne!(Val::F32(F32::from_bits(1)), Val::I32(1));
    assert_eq!(Val::F32(F32::from_bits(0)), Val::F32(F32::from_bits(0x8000_0000)));
    assert_ne!(Val::F32(F32::from_bits(0x7FC0_0000)), Val::F32(F32::from_bits(0x7FC0_0000)));
    assert_eq!(
        Val::F64(F64::from_bits(2.5f64.to_bits())),
        Val::F64(F64::from_bits(2.5f64.to_bits()))
    );
    assert_ne!(
        Val::F64(F64::from_bits(0x7FF8_0000_0000_0000)),
        Val::F64(F64::from_bits(0x7FF8_0000_0000_0000))
    );
}

#[test]
fn func_inst_type_of_either_kind() {
    let t = Rc::new(FuncType { args: vec![ValType::I32], results: vec![] });
    let internal: FuncInst<Shared> = FuncInst::Internal {
        type_: t.clone(),
        module: ModuleAddr(0),
        code: Rc::new(Expr { body: vec![Instr::Nop] }),
    };
    let host: FuncInst<Shared> = FuncInst::Host { type_: t.clone(), hostcode: HostFunc { id: 3 } };
    assert!(Rc::ptr_eq(internal.type_(), &t));
    assert!(Rc::ptr_eq(host.type_(), &t));
    assert_eq!(**host.clone().type_(), *t);
}

#[test]
fn store_starts_empty_and_hands_out_addresses() {
    let mut store: Store<Shared> = Store::new();
    assert_eq!(store.funcs.next_addr(), FuncAddr(0));
    assert_eq!(store.tables.next_addr(), TableAddr(0));
    assert_eq!(store.mems.next_addr(), MemAddr(0));
    assert_eq!(store.globals.next_addr(), GlobalAddr(0));
    assert_eq!(store.modules.next_addr(), ModuleAddr(0));

    let t = Rc::new(FuncType { args: vec![], results: vec![ValType::I32] });
    let module_addr = store.modules.next_addr();
    let f = store.funcs.push(FuncInst::Internal {
        type_: t.clone(),
        module: module_addr,
        code: Rc::new(Expr { body: vec![Instr::I32Const(1)] }),
    });
    let h = store.funcs.push(FuncInst::Host { type_: t.clone(), hostcode: HostFunc { id: 9 } });
    let tab = store
        .tables
        .push(TableInst { elem: vec![FuncElem(None), FuncElem(Some(f))], max: Some(2) });
    let mem = store.mems.push(MemInst { data: vec![0; 4], max: None });
    let g = store.globals.push(GlobalInst { value: Val::I32(5), mutability: Mut::Var });
    let m = store.modules.push(ModuleInst {
        types: Rc::new(vec![(*t).clone()]),
        funcaddrs: TypedIndexVec::from(vec![f, h]),
        tableaddrs: TypedIndexVec::from(vec![tab]),
        memaddrs: TypedIndexVec::from(vec![mem]),
        globaladdrs: TypedIndexVec::from(vec![g]),
        exports: vec![ExportInst { name: Rc::from("f"), value: ExternVal::Func(f) }],
    });
    assert_eq!((f, h), (FuncAddr(0), FuncAddr(1)));
    assert_eq!(tab, TableAddr(0));
    assert_eq!(mem, MemAddr(0));
    assert_eq!(g, GlobalAddr(0));
    assert_eq!(m, module_addr);

    let module = store.modules.get(m).unwrap();
    assert_eq!(module.funcaddrs.get(FuncIdx(1)), Some(&h));
    assert_eq!(module.tableaddrs.get(TableIdx(0)), Some(&tab));
    assert_eq!(module.memaddrs.get(MemIdx(0)), Some(&mem));
    assert_eq!(module.globaladdrs.get(GlobalIdx(0)), Some(&g));
    assert_eq!(module.exports[0].value, ExternVal::Func(f));
    assert_eq!(&*module.exports[0].name, "f");
    assert_eq!(store.tables.index(tab).elem[1], FuncElem(Some(f)));

    store.globals.index_mut(g).value = Val::I32(6);
    assert_eq!(store.globals.get(g).unwrap().value, Val::I32(6));
    store.mems.get_mut(mem).unwrap().data[2] = 0xAB;
    assert_eq!(store.mems.index(mem).data, vec![0, 0, 0xAB, 0]);
    match store.funcs.index(f) {
        FuncInst::Internal { module, .. } => assert_eq!(*module, m),
        FuncInst::Host { .. } => panic!("an internal function was stored"),
    }
}

#[test]
fn alloc_returns_fresh_addresses_of_each_kind() {
    let mut store: Store<Shared> = Store::new();
    let t = Rc::new(FuncType { args: vec![], results: vec![] });
    for i in 0..3usize {
        let f = store.alloc_func(FuncInst::Host { type_: t.clone(), hostcode: HostFunc { id: 1 } });
        assert_eq!(f, FuncAddr(i));
        assert!(store.funcs.get(FuncAddr(i + 1)).is_none());
    }
    assert_eq!(store.alloc_table(TableInst { elem: vec![], max: None }), TableAddr(0));
    assert_eq!(store.alloc_table(TableInst { elem: vec![], max: Some(1) }), TableAddr(1));
    assert_eq!(store.alloc_mem(MemInst { data: vec![], max: Some(1) }), MemAddr(0));
    assert_eq!(
        store.alloc_global(GlobalInst { value: Val::I64(7), mutability: Mut::Const }),
        GlobalAddr(0)
    );
    let module = ModuleInst::new(
        Rc::new(vec![]),
        TypedIndexVec::from(vec![FuncAddr(0), FuncAddr(2)]),
        TypedIndexVec::from(vec![TableAddr(1)]),
        TypedIndexVec::from(vec![MemAddr(0)]),
        TypedIndexVec::from(vec![GlobalAddr(0)]),
        vec![ExportInst { name: Rc::from("g"), value: ExternVal::Global(GlobalAddr(0)) }],
    );
    assert_eq!(store.alloc_module(module), ModuleAddr(0));
    assert_eq!(store.funcs.next_addr(), FuncAddr(3));
    assert_eq!(store.tables.next_addr(), TableAddr(2));
    assert_eq!(store.mems.next_addr(), MemAddr(1));
    assert_eq!(store.globals.next_addr(), GlobalAddr(1));
    assert_eq!(store.modules.next_addr(), ModuleAddr(1));
    let m = store.modules.index(ModuleAddr(0));
    assert_eq!(m.funcaddrs.get(FuncIdx(1)), Some(&FuncAddr(2)));
    assert_eq!(m.exports[0].value, ExternVal::Global(GlobalAddr(0)));
    assert_eq!(store.tables.index(TableAddr(1)).max, Some(1));
    assert_eq!(store.globals.index(GlobalAddr(0)).value, Val::I64(7));
}
