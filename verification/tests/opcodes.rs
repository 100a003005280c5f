use greenwasm::decoding::instructions::parse_instr;
use greenwasm::decoding::outcome::DecodeError;
use greenwasm::structure::instructions::Instr;
use greenwasm::structure::instructions::Memarg;

fn plain_table() -> Vec<(u8, Instr)> {
    vec![
        (0x00, Instr::Unreachable),
        (0x01, Instr::Nop),
        (0x0F, Instr::Return),
        (0x1A, Instr::Drop),
        (0x1B, Instr::Select),
        (0x3F, Instr::CurrentMemory),
        (0x40, Instr::GrowMemory),
        (0x45, Instr::I32EqZ),
        (0x46, Instr::I32Eq),
        (0x47, Instr::I32Ne),
        (0x48, Instr::I32LtS),
        (0x49, Instr::I32LtU),
        (0x4A, Instr::I32GtS),
        (0x4B, Instr::I32GtU),
        (0x4C, Instr::I32LeS),
        (0x4D, Instr::I32LeU),
        (0x4E, Instr::I32GeS),
        (0x4F, Instr::I32GeU),
        (0x50, Instr::I64EqZ),
        (0x51, Instr::I64Eq),
        (0x52, Instr::I64Ne),
        (0x53, Instr::I64LtS),
        (0x54, Instr::I64LtU),
        (0x55, Instr::I64GtS),
        (0x56, Instr::I64GtU),
        (0x57, Instr::I64LeS),
        (0x58, Instr::I64LeU),
        (0x59, Instr::I64GeS),
        (0x5A, Instr::I64GeU),
        (0x5B, Instr::F32Eq),
        (0x5C, Instr::F32Ne),
        (0x5D, Instr::F32Lt),
        (0x5E, Instr::F32Gt),
        (0x5F, Instr::F32Le),
        (0x60, Instr::F32Ge),
        (0x61, Instr::F64Eq),
        (0x62, Instr::F64Ne),
        (0x63, Instr::F64Lt),
        (0x64, Instr::F64Gt),
        (0x65, Instr::F64Le),
        (0x66, Instr::F64Ge),
        (0x67, Instr::I32Clz),
        (0x68, Instr::I32Ctz),
        (0x69, Instr::I32Popcnt),
        (0x6A, Instr::I32Add),
        (0x6B, Instr::I32Sub),
        (0x6C, Instr::I32Mul),
        (0x6D, Instr::I32DivS),
        (0x6E, Instr::I32DivU),
        (0x6F, Instr::I32RemS),
        (0x70, Instr::I32RemU),
        (0x71, Instr::I32And),
        (0x72, Instr::I32Or),
        (0x73, Instr::I32Xor),
        (0x74, Instr::I32Shl),
        (0x75, Instr::I32ShrS),
        (0x76, Instr::I32ShrU),
        (0x77, Instr::I32Rotl),
        (0x78, Instr::I32Rotr),
        (0x79, Instr::I64Clz),
        (0x7A, Instr::I64Ctz),
        (0x7B, Instr::I64Popcnt),
        (0x7C, Instr::I64Add),
        (0x7D, Instr::I64Sub),
        (0x7E, Instr::I64Mul),
        (0x7F, Instr::I64DivS),
        (0x80, Instr::I64DivU),
        (0x81, Instr::I64RemS),
        (0x82, Instr::I64RemU),
        (0x83, Instr::I64And),
        (0x84, Instr::I64Or),
        (0x85, Instr::I64Xor),
        (0x86, Instr::I64Shl),
        (0x87, Instr::I64ShrS),
        (0x88, Instr::I64ShrU),
        (0x89, Instr::I64Rotl),
        (0x8A, Instr::I64Rotr),
        (0x8B, Instr::F32Abs),
        (0x8C, Instr::F32Neg),
        (0x8D, Instr::F32Ceil),
        (0x8E, Instr::F32Floor),
        (0x8F, Instr::F32Trunc),
        (0x90, Instr::F32Nearest),
        (0x91, Instr::F32Sqrt),
        (0x92, Instr::F32Add),
        (0x93, Instr::F32Sub),
        (0x94, Instr::F32Mul),
        (0x95, Instr::F32Div),
        (0x96, Instr::F32Min),
        (0x97, Instr::F32Max),
        (0x98, Instr::F32CopySign),
        (0x99, Instr::F64Abs),
        (0x9A, Instr::F64Neg),
        (0x9B, Instr::F64Ceil),
        (0x9C, Instr::F64Floor),
        (0x9D, Instr::F64Trunc),
        (0x9E, Instr::F64Nearest),
        (0x9F, Instr::F64Sqrt),
        (0xA0, Instr::F64Add),
        (0xA1, Instr::F64Sub),
        (0xA2, Instr::F64Mul),
        (0xA3, Instr::F64Div),
        (0xA4, Instr::F64Min),
        (0xA5, Instr::F64Max),
        (0xA6, Instr::F64CopySign),
        (0xA7, Instr::I32WrapI64),
        (0xA8, Instr::I32TruncSF32),
        (0xA9, Instr::I32TruncUF32),
        (0xAA, Instr::I32TruncSF64),
        (0xAB, Instr::I32TruncUF64),
        (0xAC, Instr::I64ExtendSI32),
        (0xAD, Instr::I64ExtendUI32),
        (0xAE, Instr::I64TruncSF32),
        (0xAF, Instr::I64TruncUF32),
        (0xB0, Instr::I64TruncSF64),
        (0xB1, Instr::I64TruncUF64),
        (0xB2, Instr::F32ConvertSI32),
        (0xB3, Instr::F32ConvertUI32),
        (0xB4, Instr::F32ConvertSI64),
        (0xB5, Instr::F32ConvertUI64),
        (0xB6, Instr::F32DemoteF64),
        (0xB7, Instr::F64ConvertSI32),
        (0xB8, Instr::F64ConvertUI32),
        (0xB9, Instr::F64ConvertSI64),
        (0xBA, Instr::F64ConvertUI64),
        (0xBB, Instr::F64PromoteF32),
        (0xBC, Instr::I32ReinterpretF32),
        (0xBD, Instr::I64ReinterpretF64),
        (0xBE, Instr::F32ReinterpretI32),
        (0xBF, Instr::F64ReinterpretI64),
    ]
}

fn memory_table(m: Memarg) -> Vec<(u8, Instr)> {
    vec![
        (0x28, Instr::I32Load(m)),
        (0x29, Instr::I64Load(m)),
        (0x2A, Instr::F32Load(m)),
        (0x2B, Instr::F64Load(m)),
        (0x2C, Instr::I32Load8S(m)),
        (0x2D, Instr::I32Load8U(m)),
        (0x2E, Instr::I32Load16S(m)),
        (0x2F, Instr::I32Load16U(m)),
        (0x30, Instr::I64Load8S(m)),
        (0x31, Instr::I64Load8U(m)),
        (0x32, Instr::I64Load16S(m)),
        (0x33, Instr::I64Load16U(m)),
        (0x34, Instr::I64Load32S(m)),
        (0x35, Instr::I64Load32U(m)),
        (0x36, Instr::I32Store(m)),
        (0x37, Instr::I64Store(m)),
        (0x38, Instr::F32Store(m)),
        (0x39, Instr::F64Store(m)),
        (0x3A, Instr::I32Store8(m)),
        (0x3B, Instr::I32Store16(m)),
        (0x3C, Instr::I64Store8(m)),
        (0x3D, Instr::I64Store16(m)),
        (0x3E, Instr::I64Store32(m)),
    ]
}

#[test]
fn every_opcode_without_immediate() {
    let table = plain_table();
    assert_eq!(table.len(), 130);
    for (op, expected) in table {
        let input = [op, 0xEE];
        let (rest, i) = parse_instr(&input).unwrap();
        assert_eq!(i, expected);
        assert_eq!(rest, &[0xEEu8][..]);
    }
}

#[test]
fn every_memory_opcode() {
    let m = Memarg { offset: 16, align: 2 };
    let table = memory_table(m);
    assert_eq!(table.len(), 23);
    for (op, expected) in table {
        let input = [op, 0x02, 0x10, 0xEE];
        let (rest, i) = parse_instr(&input).unwrap();
        assert_eq!(i, expected);
        assert_eq!(rest, &[0xEEu8][..]);
        assert_eq!(parse_instr(&[op, 0x02]), Err(DecodeError::MalformedFormat));
    }
}

#[test]
fn every_byte_that_is_no_opcode() {
    let mut known = [false; 256];
    for (op, _) in plain_table() {
        known[op as usize] = true;
    }
    for (op, _) in memory_table(Memarg { offset: 0, align: 0 }) {
        known[op as usize] = true;
    }
    for op in [
        0x02u8, 0x03, 0x04, 0x0C, 0x0D, 0x0E, 0x10, 0x11, 0x20, 0x21, 0x22, 0x23, 0x24, 0x41,
        0x42, 0x43, 0x44,
    ] {
        known[op as usize] = true;
    }
    let mut unknown = 0;
    for op in 0..=255u8 {
        if !known[op as usize] {
            unknown += 1;
            let input = [op, 0x00, 0x00, 0x00, 0x00, 0x00, 0x00, 0x00, 0x00, 0x0B];
            assert_eq!(parse_instr(&input), Err(DecodeError::MalformedOpcode));
        }
    }
    assert_eq!(unknown, 256 - 170);
}
