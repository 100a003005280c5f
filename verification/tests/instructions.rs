use greenwasm::decoding::instructions::parse_expr;
use greenwasm::decoding::instructions::parse_instr;
use greenwasm::decoding::instructions::parse_instrs;
use greenwasm::decoding::instructions::parse_memarg;
use greenwasm::decoding::outcome::DecodeError;
use greenwasm::structure::instructions::Expr;
use greenwasm::structure::instructions::Instr;
use greenwasm::structure::instructions::Memarg;
use greenwasm::structure::modules::FuncIdx;
use greenwasm::structure::modules::GlobalIdx;
use greenwasm::structure::modules::LabelIdx;
use greenwasm::structure::modules::LocalIdx;
use greenwasm::structure::modules::TypeIdx;
use greenwasm::structure::types::ValType;
use greenwasm::structure::types::F32;
use greenwasm::structure::types::F64;

#[test]
fn memarg_align_then_offset() {
    let (rest, m) = parse_memarg(&[0x02, 0x10, 0x01]).unwrap();
    assert_eq!(m, Memarg { offset: 16, align: 2 });
    assert_eq!(rest, &[0x01u8][..]);
    assert_eq!(parse_memarg(&[0x02]), Err(DecodeError::MalformedFormat));
}

#[test]
fn instr_empty_input() {
    assert_eq!(parse_instr(&[]), Err(DecodeError::MalformedFormat));
}

#[test]
fn instr_markers_are_no_opcodes() {
    assert_eq!(parse_instr(&[0x0B]), Err(DecodeError::MalformedOpcode));
    assert_eq!(parse_instr(&[0x05]), Err(DecodeError::MalformedOpcode));
    assert_eq!(parse_instr(&[0xFF]), Err(DecodeError::MalformedOpcode));
    assert_eq!(parse_instr(&[0xC0]), Err(DecodeError::MalformedOpcode));
}

#[test]
fn instr_empty_block_and_loop() {
    let (rest, i) = parse_instr(&[0x02, 0x40, 0x0B, 0x01]).unwrap();
    assert_eq!(i, Instr::Block(None, vec![]));
    assert_eq!(rest, &[0x01u8][..]);
    let (rest, i) = parse_instr(&[0x03, 0x7F, 0x01, 0x0B]).unwrap();
    assert_eq!(i, Instr::Loop(Some(ValType::I32), vec![Instr::Nop]));
    assert!(rest.is_empty());
}

#[test]
fn instr_nested_blocks() {
    let input = [0x02u8, 0x40, 0x03, 0x7E, 0x02, 0x40, 0x00, 0x0B, 0x01, 0x0B, 0x1A, 0x0B];
    let (rest, i) = parse_instr(&input).unwrap();
    assert_eq!(
        i,
        Instr::Block(
            None,
            vec![
                Instr::Loop(
                    Some(ValType::I64),
                    vec![Instr::Block(None, vec![Instr::Unreachable]), Instr::Nop]
                ),
                Instr::Drop,
            ]
        )
    );
    assert!(rest.is_empty());
}

#[test]
fn instr_block_without_end() {
    assert_eq!(parse_instr(&[0x02, 0x40, 0x01]), Err(DecodeError::MalformedFormat));
    assert_eq!(parse_instr(&[0x02, 0x40]), Err(DecodeError::MalformedFormat));
    assert_eq!(parse_instr(&[0x02]), Err(DecodeError::MalformedFormat));
    assert_eq!(parse_instr(&[0x02, 0x40, 0x02, 0x40, 0x0B]), Err(DecodeError::MalformedFormat));
}

#[test]
fn instr_block_with_else_marker() {
    assert_eq!(parse_instr(&[0x02, 0x40, 0x01, 0x05, 0x0B]), Err(DecodeError::MalformedFormat));
    assert_eq!(parse_instr(&[0x03, 0x40, 0x05, 0x0B]), Err(DecodeError::MalformedFormat));
}

#[test]
fn instr_block_with_bad_content() {
    assert_eq!(parse_instr(&[0x02, 0x40, 0xFF, 0x0B]), Err(DecodeError::MalformedOpcode));
    assert_eq!(parse_instr(&[0x02, 0x00, 0x0B]), Err(DecodeError::MalformedType));
    assert_eq!(
        parse_instr(&[0x02, 0x40, 0x41, 0xFF, 0xFF, 0xFF, 0xFF, 0x0F, 0x0B]),
        Err(DecodeError::MalformedInteger)
    );
}

#[test]
fn instr_if_without_else() {
    let (rest, i) = parse_instr(&[0x04, 0x40, 0x01, 0x0B, 0x00]).unwrap();
    assert_eq!(i, Instr::IfElse(None, vec![Instr::Nop], vec![]));
    assert_eq!(rest, &[0x00u8][..]);
}

#[test]
fn instr_if_with_else() {
    let input = [0x04u8, 0x7F, 0x41, 0x01, 0x05, 0x41, 0x02, 0x0B];
    let (rest, i) = parse_instr(&input).unwrap();
    assert_eq!(
        i,
        Instr::IfElse(Some(ValType::I32), vec![Instr::I32Const(1)], vec![Instr::I32Const(2)])
    );
    assert!(rest.is_empty());
    let (_, i) = parse_instr(&[0x04, 0x40, 0x05, 0x0B]).unwrap();
    assert_eq!(i, Instr::IfElse(None, vec![], vec![]));
}

#[test]
fn instr_if_errors() {
    assert_eq!(parse_instr(&[0x04, 0x40, 0x01]), Err(DecodeError::MalformedFormat));
    assert_eq!(parse_instr(&[0x04, 0x40, 0x01, 0x05, 0x01]), Err(DecodeError::MalformedFormat));
    assert_eq!(
        parse_instr(&[0x04, 0x40, 0x01, 0x05, 0x01, 0x05, 0x01, 0x0B]),
        Err(DecodeError::MalformedFormat)
    );
    assert_eq!(parse_instr(&[0x04, 0x40, 0x05, 0xC0, 0x0B]), Err(DecodeError::MalformedOpcode));
}

#[test]
fn instr_if_nested_in_if() {
    let input = [0x04u8, 0x40, 0x04, 0x40, 0x01, 0x05, 0x00, 0x0B, 0x05, 0x0F, 0x0B];
    let (rest, i) = parse_instr(&input).unwrap();
    assert_eq!(
        i,
        Instr::IfElse(
            None,
            vec![Instr::IfElse(None, vec![Instr::Nop], vec![Instr::Unreachable])],
            vec![Instr::Return]
        )
    );
    assert!(rest.is_empty());
}

#[test]
fn instr_branches() {
    assert_eq!(parse_instr(&[0x0C, 0x03]).unwrap().1, Instr::Br(LabelIdx(3)));
    assert_eq!(parse_instr(&[0x0D, 0x80, 0x01]).unwrap().1, Instr::BrIf(LabelIdx(128)));
    let (rest, i) = parse_instr(&[0x0E, 0x02, 0x00, 0x01, 0x02, 0x0B]).unwrap();
    assert_eq!(i, Instr::BrTable(vec![LabelIdx(0), LabelIdx(1)], LabelIdx(2)));
    assert_eq!(rest, &[0x0Bu8][..]);
    assert_eq!(parse_instr(&[0x0E, 0x00, 0x07]).unwrap().1, Instr::BrTable(vec![], LabelIdx(7)));
    assert_eq!(parse_instr(&[0x0E, 0x02, 0x00, 0x01]), Err(DecodeError::MalformedFormat));
    assert_eq!(parse_instr(&[0x0C]), Err(DecodeError::MalformedFormat));
}

#[test]
fn instr_calls() {
    assert_eq!(parse_instr(&[0x10, 0x05]).unwrap().1, Instr::Call(FuncIdx(5)));
    let (rest, i) = parse_instr(&[0x11, 0x02, 0x00, 0x01]).unwrap();
    assert_eq!(i, Instr::CallIndirect(TypeIdx(2)));
    assert_eq!(rest, &[0x01u8][..]);
    assert_eq!(parse_instr(&[0x11, 0x02, 0x01]), Err(DecodeError::MalformedFormat));
    assert_eq!(parse_instr(&[0x11, 0x02]), Err(DecodeError::MalformedFormat));
}

#[test]
fn instr_variables() {
    assert_eq!(parse_instr(&[0x20, 0x00]).unwrap().1, Instr::GetLocal(LocalIdx(0)));
    assert_eq!(parse_instr(&[0x21, 0x01]).unwrap().1, Instr::SetLocal(LocalIdx(1)));
    assert_eq!(parse_instr(&[0x22, 0x02]).unwrap().1, Instr::TeeLocal(LocalIdx(2)));
    assert_eq!(parse_instr(&[0x23, 0x03]).unwrap().1, Instr::GetGlobal(GlobalIdx(3)));
    assert_eq!(parse_instr(&[0x24, 0x04]).unwrap().1, Instr::SetGlobal(GlobalIdx(4)));
    assert_eq!(parse_instr(&[0x25, 0x04]), Err(DecodeError::MalformedOpcode));
}

#[test]
fn instr_memory_size_takes_no_byte() {
    let (rest, i) = parse_instr(&[0x3F, 0x00]).unwrap();
    assert_eq!(i, Instr::CurrentMemory);
    assert_eq!(rest, &[0x00u8][..]);
    let (rest, i) = parse_instr(&[0x40]).unwrap();
    assert_eq!(i, Instr::GrowMemory);
    assert!(rest.is_empty());
}

#[test]
fn instr_constants() {
    assert_eq!(parse_instr(&[0x41, 0x7F]).unwrap().1, Instr::I32Const(0xFFFF_FFFF));
    assert_eq!(parse_instr(&[0x42, 0x7F]).unwrap().1, Instr::I64Const(u64::MAX));
    assert_eq!(
        parse_instr(&[0x41, 0xC0, 0xBB, 0x78]).unwrap().1,
        Instr::I32Const((-123456i32) as u32)
    );
    let (rest, i) = parse_instr(&[0x43, 0x00, 0x00, 0x80, 0x3F, 0x0B]).unwrap();
    assert_eq!(i, Instr::F32Const(F32::from_bits(1.0f32.to_bits())));
    assert_eq!(rest, &[0x0Bu8][..]);
    let (_, i) =
        parse_instr(&[0x44, 0x00, 0x00, 0x00, 0x00, 0x00, 0x00, 0x00, 0xC0]).unwrap();
    assert_eq!(i, Instr::F64Const(F64::from_bits((-2.0f64).to_bits())));
    assert_eq!(parse_instr(&[0x43, 0x00, 0x00, 0x80]), Err(DecodeError::MalformedFormat));
    assert_eq!(
        parse_instr(&[0x41, 0xFF, 0xFF, 0xFF, 0xFF, 0x0F]),
        Err(DecodeError::MalformedInteger)
    );
}

#[test]
fn instrs_stop_at_a_marker() {
    let (rest, is) = parse_instrs(&[0x01, 0x00, 0x0B, 0x01]).unwrap();
    assert_eq!(is, vec![Instr::Nop, Instr::Unreachable]);
    assert_eq!(rest, &[0x0Bu8, 0x01][..]);
    let (rest, is) = parse_instrs(&[0x01, 0x05, 0x01]).unwrap();
    assert_eq!(is, vec![Instr::Nop]);
    assert_eq!(rest, &[0x05u8, 0x01][..]);
    let (rest, is) = parse_instrs(&[0x01, 0x01]).unwrap();
    assert_eq!(is, vec![Instr::Nop, Instr::Nop]);
    assert!(rest.is_empty());
    let (rest, is) = parse_instrs(&[]).unwrap();
    assert!(is.is_empty());
    assert!(rest.is_empty());
    assert_eq!(parse_instrs(&[0x01, 0xFF, 0x0B]), Err(DecodeError::MalformedOpcode));
}

#[test]
fn expr_ends_with_the_end_marker() {
    let (rest, e) = parse_expr(&[0x41, 0x2A, 0x0B, 0x41]).unwrap();
    assert_eq!(e, Expr { body: vec![Instr::I32Const(42)] });
    assert_eq!(rest, &[0x41u8][..]);
    let (rest, e) = parse_expr(&[0x0B]).unwrap();
    assert_eq!(e, Expr { body: vec![] });
    assert!(rest.is_empty());
}

#[test]
fn expr_errors() {
    assert_eq!(parse_expr(&[]), Err(DecodeError::MalformedFormat));
    assert_eq!(parse_expr(&[0x41, 0x2A]), Err(DecodeError::MalformedFormat));
    assert_eq!(parse_expr(&[0x41, 0x2A, 0x05]), Err(DecodeError::MalformedFormat));
    assert_eq!(parse_expr(&[0x06, 0x0B]), Err(DecodeError::MalformedOpcode));
}

#[test]
fn block_decodes_exactly_when_its_content_does() {
    let contents: [&[u8]; 6] =
        [&[], &[0x01], &[0x41, 0x2A], &[0xFF], &[0x41], &[0x02, 0x40, 0x0B]];
    for content in contents {
        let content_ok = match parse_instrs(content) {
            Ok((rest, _)) => rest.is_empty(),
            Err(_) => false,
        };
        for op in [0x02u8, 0x03, 0x04] {
            let mut input = vec![op, 0x40];
            input.extend_from_slice(content);
            assert!(parse_instr(&input).is_err());
            input.push(0x0B);
            assert_eq!(parse_instr(&input).is_ok(), content_ok);
        }
    }
}

#[test]
fn instr_block_with_const() {
    let input = [0x02u8, 0x40, 0x41, 0x2A, 0x0B];
    let (rest, i) = parse_instr(&input).unwrap();
    assert_eq!(i, Instr::Block(None, vec![Instr::I32Const(42)]));
    assert!(rest.is_empty());
}
