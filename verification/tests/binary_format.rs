use wasm_instrumentation::ast::{
    BlockType, Expr, ExportType, FunctionIdx, Import, ImportType, Instr, LabelIdx, Limits, Locals,
    Memarg, MemoryType, Module, Section, TypeIdx, ValType, WithSize,
};
use wasm_instrumentation::binary::WasmBinary;
use wasm_instrumentation::leb128::Leb128;

fn leb(value: u32, byte_count: usize) -> Leb128<u32> {
    Leb128 { value, byte_count }
}

fn encode<T: WasmBinary>(v: &T) -> Vec<u8> {
    let mut out = Vec::new();
    v.encode(&mut out).expect("encodable");
    out
}

#[test]
fn unsigned_leb128_reads_value_and_length() {
    let (v, n) = <Leb128<u32> as WasmBinary>::decode(&[0xe5, 0x8e, 0x26, 0xff]).unwrap();
    assert_eq!(v, leb(624485, 3));
    assert_eq!(n, 3);
    assert_eq!(encode(&v), vec![0xe5, 0x8e, 0x26]);
}

#[test]
fn padded_leb128_keeps_its_length() {
    let (v, n) = <Leb128<u32> as WasmBinary>::decode(&[0x80, 0x80, 0x00]).unwrap();
    assert_eq!(v, leb(0, 3));
    assert_eq!(n, 3);
    assert_eq!(encode(&v), vec![0x80, 0x80, 0x00]);
}

#[test]
fn infeasible_byte_count_gives_shortest_encoding() {
    assert_eq!(encode(&leb(300, 1)), vec![0xac, 0x02]);
    assert_eq!(encode(&leb(300, 9)), vec![0xac, 0x02]);
    assert_eq!(encode(&leb(1, 5)), vec![0x81, 0x80, 0x80, 0x80, 0x00]);
}

#[test]
fn unsigned_leb128_limits() {
    let (v, n) = <Leb128<u32> as WasmBinary>::decode(&[0xff, 0xff, 0xff, 0xff, 0x0f]).unwrap();
    assert_eq!(v, leb(u32::MAX, 5));
    assert_eq!(n, 5);
    // one past u32::MAX
    assert!(<Leb128<u32> as WasmBinary>::decode(&[0x80, 0x80, 0x80, 0x80, 0x10]).is_none());
    // six bytes
    assert!(<Leb128<u32> as WasmBinary>::decode(&[0x80, 0x80, 0x80, 0x80, 0x80, 0x00]).is_none());
    // unterminated
    assert!(<Leb128<u32> as WasmBinary>::decode(&[0x80, 0x80]).is_none());
    assert!(<Leb128<u32> as WasmBinary>::decode(&[]).is_none());
}

#[test]
fn signed_leb128() {
    let (v, n) = <Leb128<i32> as WasmBinary>::decode(&[0x7f]).unwrap();
    assert_eq!(v, Leb128 { value: -1i32, byte_count: 1 });
    assert_eq!(n, 1);
    let (v, _) = <Leb128<i32> as WasmBinary>::decode(&[0xc0, 0xbb, 0x78]).unwrap();
    assert_eq!(v.value, -123456);
    let (v, n) = <Leb128<i32> as WasmBinary>::decode(&[0xff, 0xff, 0xff, 0xff, 0x7f]).unwrap();
    assert_eq!(v, Leb128 { value: -1i32, byte_count: 5 });
    assert_eq!(n, 5);
    assert_eq!(encode(&v), vec![0xff, 0xff, 0xff, 0xff, 0x7f]);
    // the unused bits of the fifth byte must repeat the sign
    assert!(<Leb128<i32> as WasmBinary>::decode(&[0xff, 0xff, 0xff, 0xff, 0x4f]).is_none());
    assert_eq!(encode(&Leb128 { value: 64i32, byte_count: 1 }), vec![0xc0, 0x00]);
    assert_eq!(encode(&Leb128 { value: -64i32, byte_count: 1 }), vec![0x40]);
    let min = Leb128 { value: i64::MIN, byte_count: 10 };
    let bytes = encode(&min);
    assert_eq!(bytes, vec![0x80, 0x80, 0x80, 0x80, 0x80, 0x80, 0x80, 0x80, 0x80, 0x7f]);
    assert_eq!(<Leb128<i64> as WasmBinary>::decode(&bytes), Some((min, 10)));
}

fn sample_values() -> Vec<u64> {
    let mut vs = vec![0, 1, 63, 64, 127, 128, 255, 256, 16383, 16384, 624485];
    let mut x: u64 = 0x9e37_79b9_7f4a_7c15;
    for _ in 0..200 {
        x ^= x << 13;
        x ^= x >> 7;
        x ^= x << 17;
        vs.push(x >> (x % 64));
    }
    vs.push(u32::MAX as u64);
    vs.push(u64::MAX);
    vs
}

#[test]
fn unsigned_leb128_agrees_with_leb128_crate() {
    for v in sample_values() {
        let v = v as u32;
        let mut theirs = Vec::new();
        leb128::write::unsigned(&mut theirs, v as u64).unwrap();
        let ours = encode(&leb(v, 1));
        assert_eq!(ours, theirs);
        let (back, n) = <Leb128<u32> as WasmBinary>::decode(&theirs).unwrap();
        assert_eq!(back.value, v);
        assert_eq!(n, theirs.len());
    }
}

#[test]
fn signed_leb128_agrees_with_leb128_crate() {
    for v in sample_values() {
        let v = v as i64;
        let mut theirs = Vec::new();
        leb128::write::signed(&mut theirs, v).unwrap();
        let ours = encode(&Leb128 { value: v, byte_count: 1 });
        assert_eq!(ours, theirs);
        let (back, n) = <Leb128<i64> as WasmBinary>::decode(&theirs).unwrap();
        assert_eq!(back.value, v);
        assert_eq!(n, theirs.len());
        let w = v as i32;
        let mut theirs = Vec::new();
        leb128::write::signed(&mut theirs, w as i64).unwrap();
        assert_eq!(encode(&Leb128 { value: w, byte_count: 1 }), theirs);
        let read = leb128::read::signed(&mut &theirs[..]).unwrap();
        assert_eq!(read, w as i64);
    }
}

#[test]
fn value_types_and_limits() {
    assert_eq!(ValType::decode(&[0x7f]), Some((ValType::I32, 1)));
    assert_eq!(ValType::decode(&[0x7c]), Some((ValType::F64, 1)));
    assert!(ValType::decode(&[0x7b]).is_none());
    assert_eq!(BlockType::decode(&[0x40]), Some((BlockType(None), 1)));
    assert_eq!(BlockType::decode(&[0x7e]), Some((BlockType(Some(ValType::I64)), 1)));
    let (m, n) = MemoryType::decode(&[0x01, 0x01, 0x80, 0x02]).unwrap();
    assert_eq!(m, MemoryType(Limits::MinMax(leb(1, 1), leb(256, 2))));
    assert_eq!(n, 4);
    assert_eq!(encode(&m), vec![0x01, 0x01, 0x80, 0x02]);
    assert!(Limits::decode(&[0x02, 0x01]).is_none());
}

#[test]
fn expression_runs_to_end() {
    let bytes = [0x41, 0x2a, 0x0b, 0x01];
    let (e, n) = Expr::decode(&bytes).unwrap();
    assert_eq!(n, 3);
    assert_eq!(e, Expr(vec![Instr::I32Const(Leb128 { value: 42, byte_count: 1 }), Instr::End]));
    assert_eq!(encode(&e), bytes[..3].to_vec());
    // no End
    assert!(Expr::decode(&[0x41, 0x2a]).is_none());
}

#[test]
fn if_else_nesting() {
    let bytes = [0x04, 0x40, 0x01, 0x05, 0x00, 0x0b];
    let (i, n) = Instr::decode(&bytes).unwrap();
    assert_eq!(n, 6);
    assert_eq!(
        i,
        Instr::If(
            BlockType(None),
            Expr(vec![Instr::Nop, Instr::Else(Expr(vec![Instr::Unreachable, Instr::End]))]),
        ),
    );
    assert_eq!(encode(&i), bytes.to_vec());
}

#[test]
fn immediates() {
    let bytes = [
        0x0e, 0x02, 0x00, 0x01, 0x02, 0x28, 0x02, 0x10, 0x43, 0x00, 0x00, 0xc0, 0x3f, 0x44, 0, 0,
        0, 0, 0, 0, 0xf8, 0x3f, 0x11, 0x03, 0x00, 0x0b,
    ];
    let (e, n) = Expr::decode(&bytes).unwrap();
    assert_eq!(n, bytes.len());
    assert_eq!(e.0.len(), 6);
    assert_eq!(
        e.0[0],
        Instr::BrTable(
            Leb128 { value: vec![LabelIdx(leb(0, 1)), LabelIdx(leb(1, 1))], byte_count: 1 },
            LabelIdx(leb(2, 1)),
        ),
    );
    assert_eq!(e.0[1], Instr::I32Load(Memarg { alignment: leb(2, 1), offset: leb(16, 1) }));
    assert_eq!(e.0[2], Instr::F32Const(1.5f32.to_bits()));
    assert_eq!(e.0[3], Instr::F64Const(1.5f64.to_bits()));
    assert_eq!(encode(&e), bytes.to_vec());
    // a truncated float constant
    assert!(Instr::decode(&[0x43, 0x00, 0x00]).is_none());
    // an unknown opcode
    assert!(Instr::decode(&[0xc0]).is_none());
}

#[test]
fn sized_content_must_fill_its_size() {
    let ok = [0x03, 0x02, 0x01, 0x01];
    let (s, n) = Section::decode(&ok).unwrap();
    assert_eq!(n, 4);
    assert_eq!(
        s,
        Section::Function(WithSize {
            size: Leb128 { value: (), byte_count: 1 },
            content: Leb128 { value: vec![TypeIdx(leb(1, 1))], byte_count: 1 },
        }),
    );
    // size says three bytes, the content takes two
    assert!(Section::decode(&[0x03, 0x03, 0x01, 0x01, 0x00]).is_none());
    // size beyond the input
    assert!(Section::decode(&[0x03, 0x05, 0x01, 0x01]).is_none());
    // unknown section id
    assert!(Section::decode(&[0x0c, 0x00]).is_none());
}

#[test]
fn names_must_be_utf8() {
    let bytes = [0x03, b'e', b'n', b'v', 0x01, b'f', 0x00, 0x05];
    let (imp, n) = Import::decode(&bytes).unwrap();
    assert_eq!(n, bytes.len());
    assert_eq!(imp.module.value, "env");
    assert_eq!(imp.name.value, "f");
    assert_eq!(imp.type_, ImportType::Function(TypeIdx(leb(5, 1))));
    assert_eq!(encode(&imp), bytes.to_vec());
    let bad = [0x02, 0xc3, 0x28, 0x01, b'f', 0x00, 0x05];
    assert!(Import::decode(&bad).is_none());
    let two_byte = [0x02, 0xc3, 0xa9, 0x00, 0x00, 0x00];
    let (imp, _) = Import::decode(&two_byte).unwrap();
    assert_eq!(imp.module.value, "\u{e9}");
}

const SMALL_MODULE: [u8; 34] = [
    0x00, 0x61, 0x73, 0x6d, 0x01, 0x00, 0x00, 0x00, // header
    0x01, 0x05, 0x01, 0x60, 0x00, 0x01, 0x7f, // type section
    0x03, 0x02, 0x01, 0x00, // function section
    0x07, 0x05, 0x01, 0x01, b'f', 0x00, 0x00, // export section
    0x0a, 0x06, 0x01, 0x04, 0x00, 0x41, 0x2a, 0x0b, // code section
];

#[test]
fn module_decodes_and_encodes_back() {
    let m = Module::decode(&SMALL_MODULE).unwrap();
    assert_eq!(m.sections.len(), 4);
    match &m.sections[2] {
        Section::Export(exports) => {
            let e = &exports.content.value[0];
            assert_eq!(e.name.value, "f");
            assert_eq!(e.type_, ExportType::Function(FunctionIdx(leb(0, 1))));
        },
        _ => panic!("expected an export section"),
    }
    match &m.sections[3] {
        Section::Code(code) => {
            let f = &code.content.value[0].content;
            assert_eq!(f.locals.value.len(), 0);
            assert_eq!(
                f.body,
                Expr(vec![Instr::I32Const(Leb128 { value: 42, byte_count: 1 }), Instr::End]),
            );
        },
        _ => panic!("expected a code section"),
    }
    assert_eq!(m.encode().unwrap(), SMALL_MODULE.to_vec());
}

#[test]
fn module_with_padded_sizes_encodes_back() {
    let bytes = [
        0x00, 0x61, 0x73, 0x6d, 0x01, 0x00, 0x00, 0x00, 0x0a, 0x88, 0x80, 0x00, 0x01, 0x85, 0x00,
        0x01, 0x02, 0x7f, 0x01, 0x0b,
    ];
    let m = Module::decode(&bytes).unwrap();
    match &m.sections[0] {
        Section::Code(code) => {
            assert_eq!(code.size.byte_count, 3);
            let f = &code.content.value[0];
            assert_eq!(f.size.byte_count, 2);
            assert_eq!(f.content.locals.value, vec![Locals { count: leb(2, 1), type_: ValType::I32 }]);
        },
        _ => panic!("expected a code section"),
    }
    assert_eq!(m.encode().unwrap(), bytes.to_vec());
}

#[test]
fn module_header_is_checked() {
    assert_eq!(Module::decode(&SMALL_MODULE[..8]).unwrap().sections.len(), 0);
    let mut bad = SMALL_MODULE;
    bad[4] = 0x02;
    assert!(Module::decode(&bad).is_none());
    assert!(Module::decode(&SMALL_MODULE[..7]).is_none());
    // a section cut short
    assert!(Module::decode(&SMALL_MODULE[..20]).is_none());
}

#[test]
fn changed_content_gets_a_new_size() {
    let m = Module::decode(&SMALL_MODULE).unwrap();
    let mut sections = m.sections;
    match &mut sections[3] {
        Section::Code(code) => {
            let body = &mut code.deref_mut().value[0].deref_mut().body;
            body.0.insert(0, Instr::Nop);
        },
        _ => panic!("expected a code section"),
    }
    let out = Module { sections }.encode().unwrap();
    assert_eq!(&out[26..], &[0x0a, 0x07, 0x01, 0x05, 0x00, 0x01, 0x41, 0x2a, 0x0b]);
}

#[test]
fn with_size_from_and_deref() {
    let w: WithSize<u8> = WithSize::from(7u8);
    assert_eq!(*w.deref(), 7);
    assert_eq!(w.size.byte_count, 1);
    let mut v: WithSize<Leb128<Vec<u8>>> = WithSize::from(vec![1u8, 2, 3]);
    assert_eq!(v.content.value, vec![1, 2, 3]);
    v.deref_mut().value.push(4);
    assert_eq!(encode(&v), vec![0x05, 0x04, 1, 2, 3, 4]);
}
