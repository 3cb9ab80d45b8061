//! The fixed bytes and layouts of the WebAssembly binary format, stated over all
//! values: section ids, kind bytes, type bytes, the order of the parts of each
//! record, and the module header. Together with the round-trip laws of
//! `WasmBinary`, they fix what each decoder reads and each encoder writes.
use vstd::prelude::*;
use crate::ast::{
    BlockType, Data, Instr, LabelIdx, LocalIdx, Element, ElemType, Export, ExportType, Expr, FuncType, Function, FunctionIdx,
    Global, GlobalIdx, GlobalType, Import, ImportType, Limits, Locals, Memarg, MemoryIdx,
    MemoryType, Mut, Section, TableIdx, TableType, TypeIdx, ValType, WithSize,
};
use crate::binary::{WasmBinary, encode_all, lemma_encode_all_append, lemma_encode_all_single, u32_bound};
use crate::leb128::{MAX_LEN_32, MAX_LEN_64, encode_unsigned};
use crate::code::{
    InstrModel, canonical_instr, decode_instr, encodable_instr, encode_instr, instr_model, le_bytes_32,
    le_bytes_64,
};
use crate::leb128::Leb128;
use vstd::utf8::encode_utf8;
use crate::module::{module_header, spec_decode_module, spec_encode_module};
use crate::sections::{
    DataModel, ElementModel, ExportModel, FunctionModel, GlobalModel, ImportModel, SectionModel,
};
use crate::types::FuncTypeModel;

verus! {


/// Value types are the bytes `0x7f` (i32), `0x7e` (i64), `0x7d` (f32) and `0x7c`
/// (f64), both ways, and no other byte is a value type.
pub proof fn lemma_valtype_bytes(rest: Seq<u8>)
    ensures
        ValType::spec_encode(ValType::I32) == seq![0x7fu8],
        ValType::spec_encode(ValType::I64) == seq![0x7eu8],
        ValType::spec_encode(ValType::F32) == seq![0x7du8],
        ValType::spec_encode(ValType::F64) == seq![0x7cu8],
        ValType::spec_decode(seq![0x7fu8] + rest) == Some((ValType::I32, 1nat)),
        ValType::spec_decode(seq![0x7eu8] + rest) == Some((ValType::I64, 1nat)),
        ValType::spec_decode(seq![0x7du8] + rest) == Some((ValType::F32, 1nat)),
        ValType::spec_decode(seq![0x7cu8] + rest) == Some((ValType::F64, 1nat)),
        forall|b: u8| !(b == 0x7fu8 || b == 0x7eu8 || b == 0x7du8 || b == 0x7cu8) ==> #[trigger] ValType::spec_decode(seq![b] + rest) is None,
{
    assert forall|b: u8| !(b == 0x7fu8 || b == 0x7eu8 || b == 0x7du8 || b == 0x7cu8) implies #[trigger] ValType::spec_decode(seq![b] + rest) is None by {
        assert((seq![b] + rest)[0] == b);
    }
    assert((seq![0x7fu8] + rest)[0] == 0x7fu8);
    assert((seq![0x7eu8] + rest)[0] == 0x7eu8);
    assert((seq![0x7du8] + rest)[0] == 0x7du8);
    assert((seq![0x7cu8] + rest)[0] == 0x7cu8);
}

/// Mutability is `0x00` (const) or `0x01` (var), both ways, and no other byte.
pub proof fn lemma_mut_bytes(rest: Seq<u8>)
    ensures
        Mut::spec_encode(Mut::Const) == seq![0x00u8],
        Mut::spec_encode(Mut::Var) == seq![0x01u8],
        Mut::spec_decode(seq![0x00u8] + rest) == Some((Mut::Const, 1nat)),
        Mut::spec_decode(seq![0x01u8] + rest) == Some((Mut::Var, 1nat)),
        forall|b: u8| !(b == 0x00u8 || b == 0x01u8) ==> #[trigger] Mut::spec_decode(seq![b] + rest) is None,
{
    assert forall|b: u8| !(b == 0x00u8 || b == 0x01u8) implies #[trigger] Mut::spec_decode(seq![b] + rest) is None by {
        assert((seq![b] + rest)[0] == b);
    }
    assert((seq![0x00u8] + rest)[0] == 0x00u8);
    assert((seq![0x01u8] + rest)[0] == 0x01u8);
}

/// The only element type is `anyfunc`, the byte `0x70`.
pub proof fn lemma_elemtype_bytes(rest: Seq<u8>)
    ensures
        ElemType::spec_encode(ElemType::Anyfunc) == seq![0x70u8],
        ElemType::spec_decode(seq![0x70u8] + rest) == Some((ElemType::Anyfunc, 1nat)),
        forall|b: u8| !(b == 0x70u8) ==> #[trigger] ElemType::spec_decode(seq![b] + rest) is None,
{
    assert forall|b: u8| !(b == 0x70u8) implies #[trigger] ElemType::spec_decode(seq![b] + rest) is None by {
        assert((seq![b] + rest)[0] == b);
    }
    assert((seq![0x70u8] + rest)[0] == 0x70u8);
}

/// An import kind byte is 0 (function), 1 (table), 2 (memory) or 3 (global), followed
/// by its description; a decoded import kind is the one its first byte names.
pub proof fn lemma_import_kinds()
    ensures
        forall|x: <TypeIdx as WasmBinary>::Model| #[trigger] ImportType::spec_encode(ImportType::Function(x)) == seq![0x00u8] + <TypeIdx as WasmBinary>::spec_encode(x),
        forall|x: <TableType as WasmBinary>::Model| #[trigger] ImportType::spec_encode(ImportType::Table(x)) == seq![0x01u8] + <TableType as WasmBinary>::spec_encode(x),
        forall|x: <MemoryType as WasmBinary>::Model| #[trigger] ImportType::spec_encode(ImportType::Memory(x)) == seq![0x02u8] + <MemoryType as WasmBinary>::spec_encode(x),
        forall|x: <GlobalType as WasmBinary>::Model| #[trigger] ImportType::spec_encode(ImportType::Global(x)) == seq![0x03u8] + <GlobalType as WasmBinary>::spec_encode(x),
        forall|s: Seq<u8>| #[trigger] ImportType::spec_decode(s) is Some ==> {
            let (m, _unused) = ImportType::spec_decode(s)->0;
            (m is Function <==> s[0] == 0x00u8) && (m is Table <==> s[0] == 0x01u8) && (m is Memory <==> s[0] == 0x02u8) && (m is Global <==> s[0] == 0x03u8)
        },
{
    assert forall|s: Seq<u8>| #[trigger] ImportType::spec_decode(s) is Some implies {
        let (m, _unused) = ImportType::spec_decode(s)->0;
        (m is Function <==> s[0] == 0x00u8) && (m is Table <==> s[0] == 0x01u8) && (m is Memory <==> s[0] == 0x02u8) && (m is Global <==> s[0] == 0x03u8)
    } by {
        ImportType::lemma_encode_decoded(s);
        let (m, n) = ImportType::spec_decode(s)->0;
        assert(ImportType::spec_encode(m)[0] == s.take(n as int)[0]);
    }
}

/// An export kind byte is 0 (function), 1 (table), 2 (memory) or 3 (global), followed
/// by its index; a decoded export kind is the one its first byte names.
pub proof fn lemma_export_kinds()
    ensures
        forall|x: <FunctionIdx as WasmBinary>::Model| #[trigger] ExportType::spec_encode(ExportType::Function(x)) == seq![0x00u8] + <FunctionIdx as WasmBinary>::spec_encode(x),
        forall|x: <TableIdx as WasmBinary>::Model| #[trigger] ExportType::spec_encode(ExportType::Table(x)) == seq![0x01u8] + <TableIdx as WasmBinary>::spec_encode(x),
        forall|x: <MemoryIdx as WasmBinary>::Model| #[trigger] ExportType::spec_encode(ExportType::Memory(x)) == seq![0x02u8] + <MemoryIdx as WasmBinary>::spec_encode(x),
        forall|x: <GlobalIdx as WasmBinary>::Model| #[trigger] ExportType::spec_encode(ExportType::Global(x)) == seq![0x03u8] + <GlobalIdx as WasmBinary>::spec_encode(x),
        forall|s: Seq<u8>| #[trigger] ExportType::spec_decode(s) is Some ==> {
            let (m, _unused) = ExportType::spec_decode(s)->0;
            (m is Function <==> s[0] == 0x00u8) && (m is Table <==> s[0] == 0x01u8) && (m is Memory <==> s[0] == 0x02u8) && (m is Global <==> s[0] == 0x03u8)
        },
{
    assert forall|s: Seq<u8>| #[trigger] ExportType::spec_decode(s) is Some implies {
        let (m, _unused) = ExportType::spec_decode(s)->0;
        (m is Function <==> s[0] == 0x00u8) && (m is Table <==> s[0] == 0x01u8) && (m is Memory <==> s[0] == 0x02u8) && (m is Global <==> s[0] == 0x03u8)
    } by {
        ExportType::lemma_encode_decoded(s);
        let (m, n) = ExportType::spec_decode(s)->0;
        assert(ExportType::spec_encode(m)[0] == s.take(n as int)[0]);
    }
}

/// Section ids are those of the WebAssembly format: 0 custom, 1 type, 2 import,
/// 3 function, 4 table, 5 memory, 6 global, 7 export, 8 start, 9 element, 10 code,
/// 11 data; a decoded section is of the kind its id names.
pub proof fn lemma_section_ids()
    ensures
        forall|x: <Leb128<Vec<u8>> as WasmBinary>::Model| #[trigger] Section::spec_encode(SectionModel::Custom(x)) == seq![0x00u8] + <Leb128<Vec<u8>> as WasmBinary>::spec_encode(x),
        forall|x: <WithSize<Leb128<Vec<FuncType>>> as WasmBinary>::Model| #[trigger] Section::spec_encode(SectionModel::Type(x)) == seq![0x01u8] + <WithSize<Leb128<Vec<FuncType>>> as WasmBinary>::spec_encode(x),
        forall|x: <WithSize<Leb128<Vec<Import>>> as WasmBinary>::Model| #[trigger] Section::spec_encode(SectionModel::Import(x)) == seq![0x02u8] + <WithSize<Leb128<Vec<Import>>> as WasmBinary>::spec_encode(x),
        forall|x: <WithSize<Leb128<Vec<TypeIdx>>> as WasmBinary>::Model| #[trigger] Section::spec_encode(SectionModel::Function(x)) == seq![0x03u8] + <WithSize<Leb128<Vec<TypeIdx>>> as WasmBinary>::spec_encode(x),
        forall|x: <WithSize<Leb128<Vec<TableType>>> as WasmBinary>::Model| #[trigger] Section::spec_encode(SectionModel::Table(x)) == seq![0x04u8] + <WithSize<Leb128<Vec<TableType>>> as WasmBinary>::spec_encode(x),
        forall|x: <WithSize<Leb128<Vec<MemoryType>>> as WasmBinary>::Model| #[trigger] Section::spec_encode(SectionModel::Memory(x)) == seq![0x05u8] + <WithSize<Leb128<Vec<MemoryType>>> as WasmBinary>::spec_encode(x),
        forall|x: <WithSize<Leb128<Vec<Global>>> as WasmBinary>::Model| #[trigger] Section::spec_encode(SectionModel::Global(x)) == seq![0x06u8] + <WithSize<Leb128<Vec<Global>>> as WasmBinary>::spec_encode(x),
        forall|x: <WithSize<Leb128<Vec<Export>>> as WasmBinary>::Model| #[trigger] Section::spec_encode(SectionModel::Export(x)) == seq![0x07u8] + <WithSize<Leb128<Vec<Export>>> as WasmBinary>::spec_encode(x),
        forall|x: <WithSize<FunctionIdx> as WasmBinary>::Model| #[trigger] Section::spec_encode(SectionModel::Start(x)) == seq![0x08u8] + <WithSize<FunctionIdx> as WasmBinary>::spec_encode(x),
        forall|x: <WithSize<Leb128<Vec<Element>>> as WasmBinary>::Model| #[trigger] Section::spec_encode(SectionModel::Element(x)) == seq![0x09u8] + <WithSize<Leb128<Vec<Element>>> as WasmBinary>::spec_encode(x),
        forall|x: <WithSize<Leb128<Vec<WithSize<Function>>>> as WasmBinary>::Model| #[trigger] Section::spec_encode(SectionModel::Code(x)) == seq![0x0au8] + <WithSize<Leb128<Vec<WithSize<Function>>>> as WasmBinary>::spec_encode(x),
        forall|x: <WithSize<Leb128<Vec<Data>>> as WasmBinary>::Model| #[trigger] Section::spec_encode(SectionModel::Data(x)) == seq![0x0bu8] + <WithSize<Leb128<Vec<Data>>> as WasmBinary>::spec_encode(x),
        forall|s: Seq<u8>| #[trigger] Section::spec_decode(s) is Some ==> {
            let (m, _unused) = Section::spec_decode(s)->0;
            (m is Custom <==> s[0] == 0x00u8) && (m is Type <==> s[0] == 0x01u8) && (m is Import <==> s[0] == 0x02u8) && (m is Function <==> s[0] == 0x03u8) && (m is Table <==> s[0] == 0x04u8) && (m is Memory <==> s[0] == 0x05u8) && (m is Global <==> s[0] == 0x06u8) && (m is Export <==> s[0] == 0x07u8) && (m is Start <==> s[0] == 0x08u8) && (m is Element <==> s[0] == 0x09u8) && (m is Code <==> s[0] == 0x0au8) && (m is Data <==> s[0] == 0x0bu8)
        },
{
    assert forall|s: Seq<u8>| #[trigger] Section::spec_decode(s) is Some implies {
        let (m, _unused) = Section::spec_decode(s)->0;
        (m is Custom <==> s[0] == 0x00u8) && (m is Type <==> s[0] == 0x01u8) && (m is Import <==> s[0] == 0x02u8) && (m is Function <==> s[0] == 0x03u8) && (m is Table <==> s[0] == 0x04u8) && (m is Memory <==> s[0] == 0x05u8) && (m is Global <==> s[0] == 0x06u8) && (m is Export <==> s[0] == 0x07u8) && (m is Start <==> s[0] == 0x08u8) && (m is Element <==> s[0] == 0x09u8) && (m is Code <==> s[0] == 0x0au8) && (m is Data <==> s[0] == 0x0bu8)
    } by {
        Section::lemma_encode_decoded(s);
        let (m, n) = Section::spec_decode(s)->0;
        assert(Section::spec_encode(m)[0] == s.take(n as int)[0]);
    }
}

/// A block type is `0x40` for no result, else the byte of its value type.
pub proof fn lemma_block_type_bytes()
    ensures
        BlockType::spec_encode(BlockType(None)) == seq![0x40u8],
        forall|v: ValType| #[trigger] BlockType::spec_encode(BlockType(Some(v))) == ValType::spec_encode(v),
        forall|rest: Seq<u8>| #[trigger] BlockType::spec_decode(seq![0x40u8] + rest) == Some((BlockType(None), 1nat)),
{
    assert forall|rest: Seq<u8>| #[trigger] BlockType::spec_decode(seq![0x40u8] + rest) == Some((BlockType(None), 1nat)) by {
        assert((seq![0x40u8] + rest)[0] == 0x40u8);
    }
}

/// Limits are `0x00` and a minimum, or `0x01`, a minimum and then a maximum; decoded
/// limits have a maximum exactly when their first byte is `0x01`.
pub proof fn lemma_limits_layout()
    ensures
        forall|a: Leb128<u32>| #[trigger] Limits::spec_encode(Limits::Min(a)) == seq![0x00u8] + <Leb128<u32> as WasmBinary>::spec_encode(a),
        forall|a: Leb128<u32>, b: Leb128<u32>| #[trigger] Limits::spec_encode(Limits::MinMax(a, b)) == seq![0x01u8] + <Leb128<u32> as WasmBinary>::spec_encode(a) + <Leb128<u32> as WasmBinary>::spec_encode(b),
        forall|s: Seq<u8>| #[trigger] Limits::spec_decode(s) is Some ==> {
            let (m, _unused) = Limits::spec_decode(s)->0;
            (m is Min <==> s[0] == 0x00u8) && (m is MinMax <==> s[0] == 0x01u8)
        },
{
    assert forall|a: Leb128<u32>, b: Leb128<u32>| #[trigger] Limits::spec_encode(Limits::MinMax(a, b)) == seq![0x01u8] + <Leb128<u32> as WasmBinary>::spec_encode(a) + <Leb128<u32> as WasmBinary>::spec_encode(b) by {
        assert(seq![0x01u8] + (<Leb128<u32> as WasmBinary>::spec_encode(a) + <Leb128<u32> as WasmBinary>::spec_encode(b)) =~= seq![0x01u8] + <Leb128<u32> as WasmBinary>::spec_encode(a) + <Leb128<u32> as WasmBinary>::spec_encode(b));
    }
    assert forall|s: Seq<u8>| #[trigger] Limits::spec_decode(s) is Some implies {
        let (m, _unused) = Limits::spec_decode(s)->0;
        (m is Min <==> s[0] == 0x00u8) && (m is MinMax <==> s[0] == 0x01u8)
    } by {
        Limits::lemma_encode_decoded(s);
        let (m, n) = Limits::spec_decode(s)->0;
        assert(Limits::spec_encode(m)[0] == s.take(n as int)[0]);
    }
}

/// A function type is `0x60`, then its parameter types, then its result types.
pub proof fn lemma_func_type_layout()
    ensures
        forall|m: FuncTypeModel| #[trigger] FuncType::spec_encode(m) == seq![0x60u8] + <Leb128<Vec<ValType>> as WasmBinary>::spec_encode(m.params) + <Leb128<Vec<ValType>> as WasmBinary>::spec_encode(m.results),
{
    assert forall|m: FuncTypeModel| #[trigger] FuncType::spec_encode(m) == seq![0x60u8] + <Leb128<Vec<ValType>> as WasmBinary>::spec_encode(m.params) + <Leb128<Vec<ValType>> as WasmBinary>::spec_encode(m.results) by {
        let a = <Leb128<Vec<ValType>> as WasmBinary>::spec_encode(m.params);
        let b = <Leb128<Vec<ValType>> as WasmBinary>::spec_encode(m.results);
        assert(seq![0x60u8] + (a + b) =~= seq![0x60u8] + a + b);
    }
}

/// The parts of tables, memories, globals, locals and memory immediates stand in
/// the order of the WebAssembly format.
pub proof fn lemma_small_layouts()
    ensures
        forall|t: TableType| #[trigger] TableType::spec_encode(t) == ElemType::spec_encode(t.0) + Limits::spec_encode(t.1),
        forall|t: MemoryType| #[trigger] MemoryType::spec_encode(t) == Limits::spec_encode(t.0),
        forall|g: GlobalType| #[trigger] GlobalType::spec_encode(g) == ValType::spec_encode(g.0) + Mut::spec_encode(g.1),
        forall|l: Locals| #[trigger] Locals::spec_encode(l) == <Leb128<u32> as WasmBinary>::spec_encode(l.count) + ValType::spec_encode(l.type_),
        forall|m: Memarg| #[trigger] Memarg::spec_encode(m) == <Leb128<u32> as WasmBinary>::spec_encode(m.alignment) + <Leb128<u32> as WasmBinary>::spec_encode(m.offset),
{
}

/// Function bodies, globals, element and data segments, imports and exports hold
/// their parts in the order of the WebAssembly format.
pub proof fn lemma_record_layouts()
    ensures
        forall|f: FunctionModel| #[trigger] Function::spec_encode(f) == <Leb128<Vec<Locals>> as WasmBinary>::spec_encode(f.locals) + Expr::spec_encode(f.body),
        forall|g: GlobalModel| #[trigger] Global::spec_encode(g) == GlobalType::spec_encode(g.type_) + Expr::spec_encode(g.init),
        forall|e: ElementModel| #[trigger] Element::spec_encode(e) == TableIdx::spec_encode(e.table) + Expr::spec_encode(e.offset) + <Leb128<Vec<FunctionIdx>> as WasmBinary>::spec_encode(e.init),
        forall|d: DataModel| #[trigger] Data::spec_encode(d) == MemoryIdx::spec_encode(d.memory) + Expr::spec_encode(d.offset) + <Leb128<Vec<u8>> as WasmBinary>::spec_encode(d.init),
        forall|i: ImportModel| #[trigger] Import::spec_encode(i) == <Leb128<String> as WasmBinary>::spec_encode(i.module) + <Leb128<String> as WasmBinary>::spec_encode(i.name) + ImportType::spec_encode(i.type_),
        forall|x: ExportModel| #[trigger] Export::spec_encode(x) == <Leb128<String> as WasmBinary>::spec_encode(x.name) + ExportType::spec_encode(x.type_),
{
    assert forall|e: ElementModel| #[trigger] Element::spec_encode(e) == TableIdx::spec_encode(e.table) + Expr::spec_encode(e.offset) + <Leb128<Vec<FunctionIdx>> as WasmBinary>::spec_encode(e.init) by {
        let a = TableIdx::spec_encode(e.table);
        let b = Expr::spec_encode(e.offset);
        let c = <Leb128<Vec<FunctionIdx>> as WasmBinary>::spec_encode(e.init);
        assert(a + (b + c) =~= a + b + c);
    }
    assert forall|d: DataModel| #[trigger] Data::spec_encode(d) == MemoryIdx::spec_encode(d.memory) + Expr::spec_encode(d.offset) + <Leb128<Vec<u8>> as WasmBinary>::spec_encode(d.init) by {
        let a = MemoryIdx::spec_encode(d.memory);
        let b = Expr::spec_encode(d.offset);
        let c = <Leb128<Vec<u8>> as WasmBinary>::spec_encode(d.init);
        assert(a + (b + c) =~= a + b + c);
    }
    assert forall|i: ImportModel| #[trigger] Import::spec_encode(i) == <Leb128<String> as WasmBinary>::spec_encode(i.module) + <Leb128<String> as WasmBinary>::spec_encode(i.name) + ImportType::spec_encode(i.type_) by {
        let a = <Leb128<String> as WasmBinary>::spec_encode(i.module);
        let b = <Leb128<String> as WasmBinary>::spec_encode(i.name);
        let c = ImportType::spec_encode(i.type_);
        assert(a + (b + c) =~= a + b + c);
    }
}

/// A module starts with `\0asm` and version 1 (`01 00 00 00`), and a decoded module
/// started with them.
pub proof fn lemma_module_header()
    ensures
        forall|xs: Seq<SectionModel>| #[trigger] spec_encode_module(xs).take(8) == seq![0x00u8, 0x61u8, 0x73u8, 0x6du8, 0x01u8, 0x00u8, 0x00u8, 0x00u8],
        forall|s: Seq<u8>| #[trigger] spec_decode_module(s) is Some ==> s.len() >= 8 && s.take(8) == seq![0x00u8, 0x61u8, 0x73u8, 0x6du8, 0x01u8, 0x00u8, 0x00u8, 0x00u8],
{
    let h = seq![0x00u8, 0x61u8, 0x73u8, 0x6du8, 0x01u8, 0x00u8, 0x00u8, 0x00u8];
    assert(module_header() =~= h);
    assert forall|xs: Seq<SectionModel>| #[trigger] spec_encode_module(xs).take(8) == h by {
        assert(spec_encode_module(xs).take(8) =~= module_header());
    }
}

/// The instructions without immediates with opcodes `0x00` to `0x57` are the single
/// byte that the WebAssembly format gives them, both ways.
pub proof fn lemma_plain_opcodes_0(rest: Seq<u8>)
    ensures
        encode_instr(instr_model(Instr::Unreachable)) == seq![0x00u8],
        decode_instr(seq![0x00u8] + rest) == Some((instr_model(Instr::Unreachable), 1nat)),
        encode_instr(instr_model(Instr::Nop)) == seq![0x01u8],
        decode_instr(seq![0x01u8] + rest) == Some((instr_model(Instr::Nop), 1nat)),
        encode_instr(instr_model(Instr::End)) == seq![0x0bu8],
        decode_instr(seq![0x0bu8] + rest) == Some((instr_model(Instr::End), 1nat)),
        encode_instr(instr_model(Instr::Return)) == seq![0x0fu8],
        decode_instr(seq![0x0fu8] + rest) == Some((instr_model(Instr::Return), 1nat)),
        encode_instr(instr_model(Instr::Drop)) == seq![0x1au8],
        decode_instr(seq![0x1au8] + rest) == Some((instr_model(Instr::Drop), 1nat)),
        encode_instr(instr_model(Instr::Select)) == seq![0x1bu8],
        decode_instr(seq![0x1bu8] + rest) == Some((instr_model(Instr::Select), 1nat)),
        encode_instr(instr_model(Instr::I32Eqz)) == seq![0x45u8],
        decode_instr(seq![0x45u8] + rest) == Some((instr_model(Instr::I32Eqz), 1nat)),
        encode_instr(instr_model(Instr::I32Eq)) == seq![0x46u8],
        decode_instr(seq![0x46u8] + rest) == Some((instr_model(Instr::I32Eq), 1nat)),
        encode_instr(instr_model(Instr::I32Ne)) == seq![0x47u8],
        decode_instr(seq![0x47u8] + rest) == Some((instr_model(Instr::I32Ne), 1nat)),
        encode_instr(instr_model(Instr::I32LtS)) == seq![0x48u8],
        decode_instr(seq![0x48u8] + rest) == Some((instr_model(Instr::I32LtS), 1nat)),
        encode_instr(instr_model(Instr::I32LtU)) == seq![0x49u8],
        decode_instr(seq![0x49u8] + rest) == Some((instr_model(Instr::I32LtU), 1nat)),
        encode_instr(instr_model(Instr::I32GtS)) == seq![0x4au8],
        decode_instr(seq![0x4au8] + rest) == Some((instr_model(Instr::I32GtS), 1nat)),
        encode_instr(instr_model(Instr::I32GtU)) == seq![0x4bu8],
        decode_instr(seq![0x4bu8] + rest) == Some((instr_model(Instr::I32GtU), 1nat)),
        encode_instr(instr_model(Instr::I32LeS)) == seq![0x4cu8],
        decode_instr(seq![0x4cu8] + rest) == Some((instr_model(Instr::I32LeS), 1nat)),
        encode_instr(instr_model(Instr::I32LeU)) == seq![0x4du8],
        decode_instr(seq![0x4du8] + rest) == Some((instr_model(Instr::I32LeU), 1nat)),
        encode_instr(instr_model(Instr::I32GeS)) == seq![0x4eu8],
        decode_instr(seq![0x4eu8] + rest) == Some((instr_model(Instr::I32GeS), 1nat)),
        encode_instr(instr_model(Instr::I32GeU)) == seq![0x4fu8],
        decode_instr(seq![0x4fu8] + rest) == Some((instr_model(Instr::I32GeU), 1nat)),
        encode_instr(instr_model(Instr::I64Eqz)) == seq![0x50u8],
        decode_instr(seq![0x50u8] + rest) == Some((instr_model(Instr::I64Eqz), 1nat)),
        encode_instr(instr_model(Instr::I64Eq)) == seq![0x51u8],
        decode_instr(seq![0x51u8] + rest) == Some((instr_model(Instr::I64Eq), 1nat)),
        encode_instr(instr_model(Instr::I64Ne)) == seq![0x52u8],
        decode_instr(seq![0x52u8] + rest) == Some((instr_model(Instr::I64Ne), 1nat)),
        encode_instr(instr_model(Instr::I64LtS)) == seq![0x53u8],
        decode_instr(seq![0x53u8] + rest) == Some((instr_model(Instr::I64LtS), 1nat)),
        encode_instr(instr_model(Instr::I64LtU)) == seq![0x54u8],
        decode_instr(seq![0x54u8] + rest) == Some((instr_model(Instr::I64LtU), 1nat)),
        encode_instr(instr_model(Instr::I64GtS)) == seq![0x55u8],
        decode_instr(seq![0x55u8] + rest) == Some((instr_model(Instr::I64GtS), 1nat)),
        encode_instr(instr_model(Instr::I64GtU)) == seq![0x56u8],
        decode_instr(seq![0x56u8] + rest) == Some((instr_model(Instr::I64GtU), 1nat)),
        encode_instr(instr_model(Instr::I64LeS)) == seq![0x57u8],
        decode_instr(seq![0x57u8] + rest) == Some((instr_model(Instr::I64LeS), 1nat)),
{
    assert((seq![0x00u8] + rest)[0] == 0x00u8);
    assert((seq![0x01u8] + rest)[0] == 0x01u8);
    assert((seq![0x0bu8] + rest)[0] == 0x0bu8);
    assert((seq![0x0fu8] + rest)[0] == 0x0fu8);
    assert((seq![0x1au8] + rest)[0] == 0x1au8);
    assert((seq![0x1bu8] + rest)[0] == 0x1bu8);
    assert((seq![0x45u8] + rest)[0] == 0x45u8);
    assert((seq![0x46u8] + rest)[0] == 0x46u8);
    assert((seq![0x47u8] + rest)[0] == 0x47u8);
    assert((seq![0x48u8] + rest)[0] == 0x48u8);
    assert((seq![0x49u8] + rest)[0] == 0x49u8);
    assert((seq![0x4au8] + rest)[0] == 0x4au8);
    assert((seq![0x4bu8] + rest)[0] == 0x4bu8);
    assert((seq![0x4cu8] + rest)[0] == 0x4cu8);
    assert((seq![0x4du8] + rest)[0] == 0x4du8);
    assert((seq![0x4eu8] + rest)[0] == 0x4eu8);
    assert((seq![0x4fu8] + rest)[0] == 0x4fu8);
    assert((seq![0x50u8] + rest)[0] == 0x50u8);
    assert((seq![0x51u8] + rest)[0] == 0x51u8);
    assert((seq![0x52u8] + rest)[0] == 0x52u8);
    assert((seq![0x53u8] + rest)[0] == 0x53u8);
    assert((seq![0x54u8] + rest)[0] == 0x54u8);
    assert((seq![0x55u8] + rest)[0] == 0x55u8);
    assert((seq![0x56u8] + rest)[0] == 0x56u8);
    assert((seq![0x57u8] + rest)[0] == 0x57u8);
}

/// The instructions without immediates with opcodes `0x58` to `0x70` are the single
/// byte that the WebAssembly format gives them, both ways.
pub proof fn lemma_plain_opcodes_1(rest: Seq<u8>)
    ensures
        encode_instr(instr_model(Instr::I64LeU)) == seq![0x58u8],
        decode_instr(seq![0x58u8] + rest) == Some((instr_model(Instr::I64LeU), 1nat)),
        encode_instr(instr_model(Instr::I64GeS)) == seq![0x59u8],
        decode_instr(seq![0x59u8] + rest) == Some((instr_model(Instr::I64GeS), 1nat)),
        encode_instr(instr_model(Instr::I64GeU)) == seq![0x5au8],
        decode_instr(seq![0x5au8] + rest) == Some((instr_model(Instr::I64GeU), 1nat)),
        encode_instr(instr_model(Instr::F32Eq)) == seq![0x5bu8],
        decode_instr(seq![0x5bu8] + rest) == Some((instr_model(Instr::F32Eq), 1nat)),
        encode_instr(instr_model(Instr::F32Ne)) == seq![0x5cu8],
        decode_instr(seq![0x5cu8] + rest) == Some((instr_model(Instr::F32Ne), 1nat)),
        encode_instr(instr_model(Instr::F32Lt)) == seq![0x5du8],
        decode_instr(seq![0x5du8] + rest) == Some((instr_model(Instr::F32Lt), 1nat)),
        encode_instr(instr_model(Instr::F32Gt)) == seq![0x5eu8],
        decode_instr(seq![0x5eu8] + rest) == Some((instr_model(Instr::F32Gt), 1nat)),
        encode_instr(instr_model(Instr::F32Le)) == seq![0x5fu8],
        decode_instr(seq![0x5fu8] + rest) == Some((instr_model(Instr::F32Le), 1nat)),
        encode_instr(instr_model(Instr::F32Ge)) == seq![0x60u8],
        decode_instr(seq![0x60u8] + rest) == Some((instr_model(Instr::F32Ge), 1nat)),
        encode_instr(instr_model(Instr::F64Eq)) == seq![0x61u8],
        decode_instr(seq![0x61u8] + rest) == Some((instr_model(Instr::F64Eq), 1nat)),
        encode_instr(instr_model(Instr::F64Ne)) == seq![0x62u8],
        decode_instr(seq![0x62u8] + rest) == Some((instr_model(Instr::F64Ne), 1nat)),
        encode_instr(instr_model(Instr::F64Lt)) == seq![0x63u8],
        decode_instr(seq![0x63u8] + rest) == Some((instr_model(Instr::F64Lt), 1nat)),
        encode_instr(instr_model(Instr::F64Gt)) == seq![0x64u8],
        decode_instr(seq![0x64u8] + rest) == Some((instr_model(Instr::F64Gt), 1nat)),
        encode_instr(instr_model(Instr::F64Le)) == seq![0x65u8],
        decode_instr(seq![0x65u8] + rest) == Some((instr_model(Instr::F64Le), 1nat)),
        encode_instr(instr_model(Instr::F64Ge)) == seq![0x66u8],
        decode_instr(seq![0x66u8] + rest) == Some((instr_model(Instr::F64Ge), 1nat)),
        encode_instr(instr_model(Instr::I32Clz)) == seq![0x67u8],
        decode_instr(seq![0x67u8] + rest) == Some((instr_model(Instr::I32Clz), 1nat)),
        encode_instr(instr_model(Instr::I32Ctz)) == seq![0x68u8],
        decode_instr(seq![0x68u8] + rest) == Some((instr_model(Instr::I32Ctz), 1nat)),
        encode_instr(instr_model(Instr::I32Popcnt)) == seq![0x69u8],
        decode_instr(seq![0x69u8] + rest) == Some((instr_model(Instr::I32Popcnt), 1nat)),
        encode_instr(instr_model(Instr::I32Add)) == seq![0x6au8],
        decode_instr(seq![0x6au8] + rest) == Some((instr_model(Instr::I32Add), 1nat)),
        encode_instr(instr_model(Instr::I32Sub)) == seq![0x6bu8],
        decode_instr(seq![0x6bu8] + rest) == Some((instr_model(Instr::I32Sub), 1nat)),
        encode_instr(instr_model(Instr::I32Mul)) == seq![0x6cu8],
        decode_instr(seq![0x6cu8] + rest) == Some((instr_model(Instr::I32Mul), 1nat)),
        encode_instr(instr_model(Instr::I32DivS)) == seq![0x6du8],
        decode_instr(seq![0x6du8] + rest) == Some((instr_model(Instr::I32DivS), 1nat)),
        encode_instr(instr_model(Instr::I32DivU)) == seq![0x6eu8],
        decode_instr(seq![0x6eu8] + rest) == Some((instr_model(Instr::I32DivU), 1nat)),
        encode_instr(instr_model(Instr::I32RemS)) == seq![0x6fu8],
        decode_instr(seq![0x6fu8] + rest) == Some((instr_model(Instr::I32RemS), 1nat)),
        encode_instr(instr_model(Instr::I32RemU)) == seq![0x70u8],
        decode_instr(seq![0x70u8] + rest) == Some((instr_model(Instr::I32RemU), 1nat)),
{
    assert((seq![0x58u8] + rest)[0] == 0x58u8);
    assert((seq![0x59u8] + rest)[0] == 0x59u8);
    assert((seq![0x5au8] + rest)[0] == 0x5au8);
    assert((seq![0x5bu8] + rest)[0] == 0x5bu8);
    assert((seq![0x5cu8] + rest)[0] == 0x5cu8);
    assert((seq![0x5du8] + rest)[0] == 0x5du8);
    assert((seq![0x5eu8] + rest)[0] == 0x5eu8);
    assert((seq![0x5fu8] + rest)[0] == 0x5fu8);
    assert((seq![0x60u8] + rest)[0] == 0x60u8);
    assert((seq![0x61u8] + rest)[0] == 0x61u8);
    assert((seq![0x62u8] + rest)[0] == 0x62u8);
    assert((seq![0x63u8] + rest)[0] == 0x63u8);
    assert((seq![0x64u8] + rest)[0] == 0x64u8);
    assert((seq![0x65u8] + rest)[0] == 0x65u8);
    assert((seq![0x66u8] + rest)[0] == 0x66u8);
    assert((seq![0x67u8] + rest)[0] == 0x67u8);
    assert((seq![0x68u8] + rest)[0] == 0x68u8);
    assert((seq![0x69u8] + rest)[0] == 0x69u8);
    assert((seq![0x6au8] + rest)[0] == 0x6au8);
    assert((seq![0x6bu8] + rest)[0] == 0x6bu8);
    assert((seq![0x6cu8] + rest)[0] == 0x6cu8);
    assert((seq![0x6du8] + rest)[0] == 0x6du8);
    assert((seq![0x6eu8] + rest)[0] == 0x6eu8);
    assert((seq![0x6fu8] + rest)[0] == 0x6fu8);
    assert((seq![0x70u8] + rest)[0] == 0x70u8);
}

/// The instructions without immediates with opcodes `0x71` to `0x89` are the single
/// byte that the WebAssembly format gives them, both ways.
pub proof fn lemma_plain_opcodes_2(rest: Seq<u8>)
    ensures
        encode_instr(instr_model(Instr::I32And)) == seq![0x71u8],
        decode_instr(seq![0x71u8] + rest) == Some((instr_model(Instr::I32And), 1nat)),
        encode_instr(instr_model(Instr::I32Or)) == seq![0x72u8],
        decode_instr(seq![0x72u8] + rest) == Some((instr_model(Instr::I32Or), 1nat)),
        encode_instr(instr_model(Instr::I32Xor)) == seq![0x73u8],
        decode_instr(seq![0x73u8] + rest) == Some((instr_model(Instr::I32Xor), 1nat)),
        encode_instr(instr_model(Instr::I32Shl)) == seq![0x74u8],
        decode_instr(seq![0x74u8] + rest) == Some((instr_model(Instr::I32Shl), 1nat)),
        encode_instr(instr_model(Instr::I32ShrS)) == seq![0x75u8],
        decode_instr(seq![0x75u8] + rest) == Some((instr_model(Instr::I32ShrS), 1nat)),
        encode_instr(instr_model(Instr::I32ShrU)) == seq![0x76u8],
        decode_instr(seq![0x76u8] + rest) == Some((instr_model(Instr::I32ShrU), 1nat)),
        encode_instr(instr_model(Instr::I32Rotl)) == seq![0x77u8],
        decode_instr(seq![0x77u8] + rest) == Some((instr_model(Instr::I32Rotl), 1nat)),
        encode_instr(instr_model(Instr::I32Rotr)) == seq![0x78u8],
        decode_instr(seq![0x78u8] + rest) == Some((instr_model(Instr::I32Rotr), 1nat)),
        encode_instr(instr_model(Instr::I64Clz)) == seq![0x79u8],
        decode_instr(seq![0x79u8] + rest) == Some((instr_model(Instr::I64Clz), 1nat)),
        encode_instr(instr_model(Instr::I64Ctz)) == seq![0x7au8],
        decode_instr(seq![0x7au8] + rest) == Some((instr_model(Instr::I64Ctz), 1nat)),
        encode_instr(instr_model(Instr::I64Popcnt)) == seq![0x7bu8],
        decode_instr(seq![0x7bu8] + rest) == Some((instr_model(Instr::I64Popcnt), 1nat)),
        encode_instr(instr_model(Instr::I64Add)) == seq![0x7cu8],
        decode_instr(seq![0x7cu8] + rest) == Some((instr_model(Instr::I64Add), 1nat)),
        encode_instr(instr_model(Instr::I64Sub)) == seq![0x7du8],
        decode_instr(seq![0x7du8] + rest) == Some((instr_model(Instr::I64Sub), 1nat)),
        encode_instr(instr_model(Instr::I64Mul)) == seq![0x7eu8],
        decode_instr(seq![0x7eu8] + rest) == Some((instr_model(Instr::I64Mul), 1nat)),
        encode_instr(instr_model(Instr::I64DivS)) == seq![0x7fu8],
        decode_instr(seq![0x7fu8] + rest) == Some((instr_model(Instr::I64DivS), 1nat)),
        encode_instr(instr_model(Instr::I64DivU)) == seq![0x80u8],
        decode_instr(seq![0x80u8] + rest) == Some((instr_model(Instr::I64DivU), 1nat)),
        encode_instr(instr_model(Instr::I64RemS)) == seq![0x81u8],
        decode_instr(seq![0x81u8] + rest) == Some((instr_model(Instr::I64RemS), 1nat)),
        encode_instr(instr_model(Instr::I64RemU)) == seq![0x82u8],
        decode_instr(seq![0x82u8] + rest) == Some((instr_model(Instr::I64RemU), 1nat)),
        encode_instr(instr_model(Instr::I64And)) == seq![0x83u8],
        decode_instr(seq![0x83u8] + rest) == Some((instr_model(Instr::I64And), 1nat)),
        encode_instr(instr_model(Instr::I64Or)) == seq![0x84u8],
        decode_instr(seq![0x84u8] + rest) == Some((instr_model(Instr::I64Or), 1nat)),
        encode_instr(instr_model(Instr::I64Xor)) == seq![0x85u8],
        decode_instr(seq![0x85u8] + rest) == Some((instr_model(Instr::I64Xor), 1nat)),
        encode_instr(instr_model(Instr::I64Shl)) == seq![0x86u8],
        decode_instr(seq![0x86u8] + rest) == Some((instr_model(Instr::I64Shl), 1nat)),
        encode_instr(instr_model(Instr::I64ShrS)) == seq![0x87u8],
        decode_instr(seq![0x87u8] + rest) == Some((instr_model(Instr::I64ShrS), 1nat)),
        encode_instr(instr_model(Instr::I64ShrU)) == seq![0x88u8],
        decode_instr(seq![0x88u8] + rest) == Some((instr_model(Instr::I64ShrU), 1nat)),
        encode_instr(instr_model(Instr::I64Rotl)) == seq![0x89u8],
        decode_instr(seq![0x89u8] + rest) == Some((instr_model(Instr::I64Rotl), 1nat)),
{
    assert((seq![0x71u8] + rest)[0] == 0x71u8);
    assert((seq![0x72u8] + rest)[0] == 0x72u8);
    assert((seq![0x73u8] + rest)[0] == 0x73u8);
    assert((seq![0x74u8] + rest)[0] == 0x74u8);
    assert((seq![0x75u8] + rest)[0] == 0x75u8);
    assert((seq![0x76u8] + rest)[0] == 0x76u8);
    assert((seq![0x77u8] + rest)[0] == 0x77u8);
    assert((seq![0x78u8] + rest)[0] == 0x78u8);
    assert((seq![0x79u8] + rest)[0] == 0x79u8);
    assert((seq![0x7au8] + rest)[0] == 0x7au8);
    assert((seq![0x7bu8] + rest)[0] == 0x7bu8);
    assert((seq![0x7cu8] + rest)[0] == 0x7cu8);
    assert((seq![0x7du8] + rest)[0] == 0x7du8);
    assert((seq![0x7eu8] + rest)[0] == 0x7eu8);
    assert((seq![0x7fu8] + rest)[0] == 0x7fu8);
    assert((seq![0x80u8] + rest)[0] == 0x80u8);
    assert((seq![0x81u8] + rest)[0] == 0x81u8);
    assert((seq![0x82u8] + rest)[0] == 0x82u8);
    assert((seq![0x83u8] + rest)[0] == 0x83u8);
    assert((seq![0x84u8] + rest)[0] == 0x84u8);
    assert((seq![0x85u8] + rest)[0] == 0x85u8);
    assert((seq![0x86u8] + rest)[0] == 0x86u8);
    assert((seq![0x87u8] + rest)[0] == 0x87u8);
    assert((seq![0x88u8] + rest)[0] == 0x88u8);
    assert((seq![0x89u8] + rest)[0] == 0x89u8);
}

/// The instructions without immediates with opcodes `0x8a` to `0xa2` are the single
/// byte that the WebAssembly format gives them, both ways.
pub proof fn lemma_plain_opcodes_3(rest: Seq<u8>)
    ensures
        encode_instr(instr_model(Instr::I64Rotr)) == seq![0x8au8],
        decode_instr(seq![0x8au8] + rest) == Some((instr_model(Instr::I64Rotr), 1nat)),
        encode_instr(instr_model(Instr::F32Abs)) == seq![0x8bu8],
        decode_instr(seq![0x8bu8] + rest) == Some((instr_model(Instr::F32Abs), 1nat)),
        encode_instr(instr_model(Instr::F32Neg)) == seq![0x8cu8],
        decode_instr(seq![0x8cu8] + rest) == Some((instr_model(Instr::F32Neg), 1nat)),
        encode_instr(instr_model(Instr::F32Ceil)) == seq![0x8du8],
        decode_instr(seq![0x8du8] + rest) == Some((instr_model(Instr::F32Ceil), 1nat)),
        encode_instr(instr_model(Instr::F32Floor)) == seq![0x8eu8],
        decode_instr(seq![0x8eu8] + rest) == Some((instr_model(Instr::F32Floor), 1nat)),
        encode_instr(instr_model(Instr::F32Trunc)) == seq![0x8fu8],
        decode_instr(seq![0x8fu8] + rest) == Some((instr_model(Instr::F32Trunc), 1nat)),
        encode_instr(instr_model(Instr::F32Nearest)) == seq![0x90u8],
        decode_instr(seq![0x90u8] + rest) == Some((instr_model(Instr::F32Nearest), 1nat)),
        encode_instr(instr_model(Instr::F32Sqrt)) == seq![0x91u8],
        decode_instr(seq![0x91u8] + rest) == Some((instr_model(Instr::F32Sqrt), 1nat)),
        encode_instr(instr_model(Instr::F32Add)) == seq![0x92u8],
        decode_instr(seq![0x92u8] + rest) == Some((instr_model(Instr::F32Add), 1nat)),
        encode_instr(instr_model(Instr::F32Sub)) == seq![0x93u8],
        decode_instr(seq![0x93u8] + rest) == Some((instr_model(Instr::F32Sub), 1nat)),
        encode_instr(instr_model(Instr::F32Mul)) == seq![0x94u8],
        decode_instr(seq![0x94u8] + rest) == Some((instr_model(Instr::F32Mul), 1nat)),
        encode_instr(instr_model(Instr::F32Div)) == seq![0x95u8],
        decode_instr(seq![0x95u8] + rest) == Some((instr_model(Instr::F32Div), 1nat)),
        encode_instr(instr_model(Instr::F32Min)) == seq![0x96u8],
        decode_instr(seq![0x96u8] + rest) == Some((instr_model(Instr::F32Min), 1nat)),
        encode_instr(instr_model(Instr::F32Max)) == seq![0x97u8],
        decode_instr(seq![0x97u8] + rest) == Some((instr_model(Instr::F32Max), 1nat)),
        encode_instr(instr_model(Instr::F32Copysign)) == seq![0x98u8],
        decode_instr(seq![0x98u8] + rest) == Some((instr_model(Instr::F32Copysign), 1nat)),
        encode_instr(instr_model(Instr::F64Abs)) == seq![0x99u8],
        decode_instr(seq![0x99u8] + rest) == Some((instr_model(Instr::F64Abs), 1nat)),
        encode_instr(instr_model(Instr::F64Neg)) == seq![0x9au8],
        decode_instr(seq![0x9au8] + rest) == Some((instr_model(Instr::F64Neg), 1nat)),
        encode_instr(instr_model(Instr::F64Ceil)) == seq![0x9bu8],
        decode_instr(seq![0x9bu8] + rest) == Some((instr_model(Instr::F64Ceil), 1nat)),
        encode_instr(instr_model(Instr::F64Floor)) == seq![0x9cu8],
        decode_instr(seq![0x9cu8] + rest) == Some((instr_model(Instr::F64Floor), 1nat)),
        encode_instr(instr_model(Instr::F64Trunc)) == seq![0x9du8],
        decode_instr(seq![0x9du8] + rest) == Some((instr_model(Instr::F64Trunc), 1nat)),
        encode_instr(instr_model(Instr::F64Nearest)) == seq![0x9eu8],
        decode_instr(seq![0x9eu8] + rest) == Some((instr_model(Instr::F64Nearest), 1nat)),
        encode_instr(instr_model(Instr::F64Sqrt)) == seq![0x9fu8],
        decode_instr(seq![0x9fu8] + rest) == Some((instr_model(Instr::F64Sqrt), 1nat)),
        encode_instr(instr_model(Instr::F64Add)) == seq![0xa0u8],
        decode_instr(seq![0xa0u8] + rest) == Some((instr_model(Instr::F64Add), 1nat)),
        encode_instr(instr_model(Instr::F64Sub)) == seq![0xa1u8],
        decode_instr(seq![0xa1u8] + rest) == Some((instr_model(Instr::F64Sub), 1nat)),
        encode_instr(instr_model(Instr::F64Mul)) == seq![0xa2u8],
        decode_instr(seq![0xa2u8] + rest) == Some((instr_model(Instr::F64Mul), 1nat)),
{
    assert((seq![0x8au8] + rest)[0] == 0x8au8);
    assert((seq![0x8bu8] + rest)[0] == 0x8bu8);
    assert((seq![0x8cu8] + rest)[0] == 0x8cu8);
    assert((seq![0x8du8] + rest)[0] == 0x8du8);
    assert((seq![0x8eu8] + rest)[0] == 0x8eu8);
    assert((seq![0x8fu8] + rest)[0] == 0x8fu8);
    assert((seq![0x90u8] + rest)[0] == 0x90u8);
    assert((seq![0x91u8] + rest)[0] == 0x91u8);
    assert((seq![0x92u8] + rest)[0] == 0x92u8);
    assert((seq![0x93u8] + rest)[0] == 0x93u8);
    assert((seq![0x94u8] + rest)[0] == 0x94u8);
    assert((seq![0x95u8] + rest)[0] == 0x95u8);
    assert((seq![0x96u8] + rest)[0] == 0x96u8);
    assert((seq![0x97u8] + rest)[0] == 0x97u8);
    assert((seq![0x98u8] + rest)[0] == 0x98u8);
    assert((seq![0x99u8] + rest)[0] == 0x99u8);
    assert((seq![0x9au8] + rest)[0] == 0x9au8);
    assert((seq![0x9bu8] + rest)[0] == 0x9bu8);
    assert((seq![0x9cu8] + rest)[0] == 0x9cu8);
    assert((seq![0x9du8] + rest)[0] == 0x9du8);
    assert((seq![0x9eu8] + rest)[0] == 0x9eu8);
    assert((seq![0x9fu8] + rest)[0] == 0x9fu8);
    assert((seq![0xa0u8] + rest)[0] == 0xa0u8);
    assert((seq![0xa1u8] + rest)[0] == 0xa1u8);
    assert((seq![0xa2u8] + rest)[0] == 0xa2u8);
}

/// The instructions without immediates with opcodes `0xa3` to `0xbb` are the single
/// byte that the WebAssembly format gives them, both ways.
pub proof fn lemma_plain_opcodes_4(rest: Seq<u8>)
    ensures
        encode_instr(instr_model(Instr::F64Div)) == seq![0xa3u8],
        decode_instr(seq![0xa3u8] + rest) == Some((instr_model(Instr::F64Div), 1nat)),
        encode_instr(instr_model(Instr::F64Min)) == seq![0xa4u8],
        decode_instr(seq![0xa4u8] + rest) == Some((instr_model(Instr::F64Min), 1nat)),
        encode_instr(instr_model(Instr::F64Max)) == seq![0xa5u8],
        decode_instr(seq![0xa5u8] + rest) == Some((instr_model(Instr::F64Max), 1nat)),
        encode_instr(instr_model(Instr::F64Copysign)) == seq![0xa6u8],
        decode_instr(seq![0xa6u8] + rest) == Some((instr_model(Instr::F64Copysign), 1nat)),
        encode_instr(instr_model(Instr::I32WrapI64)) == seq![0xa7u8],
        decode_instr(seq![0xa7u8] + rest) == Some((instr_model(Instr::I32WrapI64), 1nat)),
        encode_instr(instr_model(Instr::I32TruncSF32)) == seq![0xa8u8],
        decode_instr(seq![0xa8u8] + rest) == Some((instr_model(Instr::I32TruncSF32), 1nat)),
        encode_instr(instr_model(Instr::I32TruncUF32)) == seq![0xa9u8],
        decode_instr(seq![0xa9u8] + rest) == Some((instr_model(Instr::I32TruncUF32), 1nat)),
        encode_instr(instr_model(Instr::I32TruncSF64)) == seq![0xaau8],
        decode_instr(seq![0xaau8] + rest) == Some((instr_model(Instr::I32TruncSF64), 1nat)),
        encode_instr(instr_model(Instr::I32TruncUF64)) == seq![0xabu8],
        decode_instr(seq![0xabu8] + rest) == Some((instr_model(Instr::I32TruncUF64), 1nat)),
        encode_instr(instr_model(Instr::I64ExtendSI32)) == seq![0xacu8],
        decode_instr(seq![0xacu8] + rest) == Some((instr_model(Instr::I64ExtendSI32), 1nat)),
        encode_instr(instr_model(Instr::I64ExtendUI32)) == seq![0xadu8],
        decode_instr(seq![0xadu8] + rest) == Some((instr_model(Instr::I64ExtendUI32), 1nat)),
        encode_instr(instr_model(Instr::I64TruncSF32)) == seq![0xaeu8],
        decode_instr(seq![0xaeu8] + rest) == Some((instr_model(Instr::I64TruncSF32), 1nat)),
        encode_instr(instr_model(Instr::I64TruncUF32)) == seq![0xafu8],
        decode_instr(seq![0xafu8] + rest) == Some((instr_model(Instr::I64TruncUF32), 1nat)),
        encode_instr(instr_model(Instr::I64TruncSF64)) == seq![0xb0u8],
        decode_instr(seq![0xb0u8] + rest) == Some((instr_model(Instr::I64TruncSF64), 1nat)),
        encode_instr(instr_model(Instr::I64TruncUF64)) == seq![0xb1u8],
        decode_instr(seq![0xb1u8] + rest) == Some((instr_model(Instr::I64TruncUF64), 1nat)),
        encode_instr(instr_model(Instr::F32ConvertSI32)) == seq![0xb2u8],
        decode_instr(seq![0xb2u8] + rest) == Some((instr_model(Instr::F32ConvertSI32), 1nat)),
        encode_instr(instr_model(Instr::F32ConvertUI32)) == seq![0xb3u8],
        decode_instr(seq![0xb3u8] + rest) == Some((instr_model(Instr::F32ConvertUI32), 1nat)),
        encode_instr(instr_model(Instr::F32ConvertSI64)) == seq![0xb4u8],
        decode_instr(seq![0xb4u8] + rest) == Some((instr_model(Instr::F32ConvertSI64), 1nat)),
        encode_instr(instr_model(Instr::F32ConvertUI64)) == seq![0xb5u8],
        decode_instr(seq![0xb5u8] + rest) == Some((instr_model(Instr::F32ConvertUI64), 1nat)),
        encode_instr(instr_model(Instr::F32DemoteF64)) == seq![0xb6u8],
        decode_instr(seq![0xb6u8] + rest) == Some((instr_model(Instr::F32DemoteF64), 1nat)),
        encode_instr(instr_model(Instr::F64ConvertSI32)) == seq![0xb7u8],
        decode_instr(seq![0xb7u8] + rest) == Some((instr_model(Instr::F64ConvertSI32), 1nat)),
        encode_instr(instr_model(Instr::F64ConvertUI32)) == seq![0xb8u8],
        decode_instr(seq![0xb8u8] + rest) == Some((instr_model(Instr::F64ConvertUI32), 1nat)),
        encode_instr(instr_model(Instr::F64ConvertSI64)) == seq![0xb9u8],
        decode_instr(seq![0xb9u8] + rest) == Some((instr_model(Instr::F64ConvertSI64), 1nat)),
        encode_instr(instr_model(Instr::F64ConvertUI64)) == seq![0xbau8],
        decode_instr(seq![0xbau8] + rest) == Some((instr_model(Instr::F64ConvertUI64), 1nat)),
        encode_instr(instr_model(Instr::F64PromoteF32)) == seq![0xbbu8],
        decode_instr(seq![0xbbu8] + rest) == Some((instr_model(Instr::F64PromoteF32), 1nat)),
{
    assert((seq![0xa3u8] + rest)[0] == 0xa3u8);
    assert((seq![0xa4u8] + rest)[0] == 0xa4u8);
    assert((seq![0xa5u8] + rest)[0] == 0xa5u8);
    assert((seq![0xa6u8] + rest)[0] == 0xa6u8);
    assert((seq![0xa7u8] + rest)[0] == 0xa7u8);
    assert((seq![0xa8u8] + rest)[0] == 0xa8u8);
    assert((seq![0xa9u8] + rest)[0] == 0xa9u8);
    assert((seq![0xaau8] + rest)[0] == 0xaau8);
    assert((seq![0xabu8] + rest)[0] == 0xabu8);
    assert((seq![0xacu8] + rest)[0] == 0xacu8);
    assert((seq![0xadu8] + rest)[0] == 0xadu8);
    assert((seq![0xaeu8] + rest)[0] == 0xaeu8);
    assert((seq![0xafu8] + rest)[0] == 0xafu8);
    assert((seq![0xb0u8] + rest)[0] == 0xb0u8);
    assert((seq![0xb1u8] + rest)[0] == 0xb1u8);
    assert((seq![0xb2u8] + rest)[0] == 0xb2u8);
    assert((seq![0xb3u8] + rest)[0] == 0xb3u8);
    assert((seq![0xb4u8] + rest)[0] == 0xb4u8);
    assert((seq![0xb5u8] + rest)[0] == 0xb5u8);
    assert((seq![0xb6u8] + rest)[0] == 0xb6u8);
    assert((seq![0xb7u8] + rest)[0] == 0xb7u8);
    assert((seq![0xb8u8] + rest)[0] == 0xb8u8);
    assert((seq![0xb9u8] + rest)[0] == 0xb9u8);
    assert((seq![0xbau8] + rest)[0] == 0xbau8);
    assert((seq![0xbbu8] + rest)[0] == 0xbbu8);
}

/// The instructions without immediates with opcodes `0xbc` to `0xbf` are the single
/// byte that the WebAssembly format gives them, both ways.
pub proof fn lemma_plain_opcodes_5(rest: Seq<u8>)
    ensures
        encode_instr(instr_model(Instr::I32ReinterpretF32)) == seq![0xbcu8],
        decode_instr(seq![0xbcu8] + rest) == Some((instr_model(Instr::I32ReinterpretF32), 1nat)),
        encode_instr(instr_model(Instr::I64ReinterpretF64)) == seq![0xbdu8],
        decode_instr(seq![0xbdu8] + rest) == Some((instr_model(Instr::I64ReinterpretF64), 1nat)),
        encode_instr(instr_model(Instr::F32ReinterpretI32)) == seq![0xbeu8],
        decode_instr(seq![0xbeu8] + rest) == Some((instr_model(Instr::F32ReinterpretI32), 1nat)),
        encode_instr(instr_model(Instr::F64ReinterpretI64)) == seq![0xbfu8],
        decode_instr(seq![0xbfu8] + rest) == Some((instr_model(Instr::F64ReinterpretI64), 1nat)),
{
    assert((seq![0xbcu8] + rest)[0] == 0xbcu8);
    assert((seq![0xbdu8] + rest)[0] == 0xbdu8);
    assert((seq![0xbeu8] + rest)[0] == 0xbeu8);
    assert((seq![0xbfu8] + rest)[0] == 0xbfu8);
}

/// Blocks, `else`, branch tables and indirect calls: the opcode that the WebAssembly format gives each, then its
/// immediates in the order of the format; each reads back whenever its immediates do.
pub proof fn lemma_instr_layout_control()
    ensures
        forall|bt: BlockType, e: Expr| #[trigger] instr_model(Instr::Block(bt, e)) == InstrModel::Block(0x02u8, bt, e.model()),
        forall|bt: BlockType, e: Expr| #[trigger] encode_instr(instr_model(Instr::Block(bt, e))) == seq![0x02u8] + BlockType::spec_encode(bt) + Expr::spec_encode(e.model()),
        forall|bt: BlockType, e: Expr| Expr::canonical(e.model()) && Expr::encodable(e.model()) ==> canonical_instr(#[trigger] instr_model(Instr::Block(bt, e))) && encodable_instr(instr_model(Instr::Block(bt, e))),
        forall|bt: BlockType, e: Expr| #[trigger] instr_model(Instr::Loop(bt, e)) == InstrModel::Block(0x03u8, bt, e.model()),
        forall|bt: BlockType, e: Expr| #[trigger] encode_instr(instr_model(Instr::Loop(bt, e))) == seq![0x03u8] + BlockType::spec_encode(bt) + Expr::spec_encode(e.model()),
        forall|bt: BlockType, e: Expr| Expr::canonical(e.model()) && Expr::encodable(e.model()) ==> canonical_instr(#[trigger] instr_model(Instr::Loop(bt, e))) && encodable_instr(instr_model(Instr::Loop(bt, e))),
        forall|bt: BlockType, e: Expr| #[trigger] instr_model(Instr::If(bt, e)) == InstrModel::Block(0x04u8, bt, e.model()),
        forall|bt: BlockType, e: Expr| #[trigger] encode_instr(instr_model(Instr::If(bt, e))) == seq![0x04u8] + BlockType::spec_encode(bt) + Expr::spec_encode(e.model()),
        forall|bt: BlockType, e: Expr| Expr::canonical(e.model()) && Expr::encodable(e.model()) ==> canonical_instr(#[trigger] instr_model(Instr::If(bt, e))) && encodable_instr(instr_model(Instr::If(bt, e))),
        forall|e: Expr| #[trigger] encode_instr(instr_model(Instr::Else(e))) == seq![0x05u8] + Expr::spec_encode(e.model()),
        forall|e: Expr| Expr::canonical(e.model()) && Expr::encodable(e.model()) ==> canonical_instr(#[trigger] instr_model(Instr::Else(e))) && encodable_instr(instr_model(Instr::Else(e))),
{
}

/// Branches, calls, locals, globals and memory size: the opcode that the WebAssembly format gives each, then its
/// immediates in the order of the format; each reads back whenever its immediates do.
pub proof fn lemma_instr_layout_index()
    ensures
        forall|x: LabelIdx| #[trigger] encode_instr(instr_model(Instr::Br(x))) == seq![0x0cu8] + LabelIdx::spec_encode(x),
        forall|x: LabelIdx| LabelIdx::canonical(x) ==> canonical_instr(#[trigger] instr_model(Instr::Br(x))) && encodable_instr(instr_model(Instr::Br(x))),
        forall|x: LabelIdx| #[trigger] encode_instr(instr_model(Instr::BrIf(x))) == seq![0x0du8] + LabelIdx::spec_encode(x),
        forall|x: LabelIdx| LabelIdx::canonical(x) ==> canonical_instr(#[trigger] instr_model(Instr::BrIf(x))) && encodable_instr(instr_model(Instr::BrIf(x))),
        forall|ts: Leb128<Vec<LabelIdx>>, d: LabelIdx| #[trigger] encode_instr(instr_model(Instr::BrTable(ts, d))) == seq![0x0eu8] + <Leb128<Vec<LabelIdx>> as WasmBinary>::spec_encode(ts.model()) + LabelIdx::spec_encode(d),
        forall|ts: Leb128<Vec<LabelIdx>>, d: LabelIdx| <Leb128<Vec<LabelIdx>> as WasmBinary>::canonical(ts.model()) && <Leb128<Vec<LabelIdx>> as WasmBinary>::encodable(ts.model()) && LabelIdx::canonical(d) ==> canonical_instr(#[trigger] instr_model(Instr::BrTable(ts, d))) && encodable_instr(instr_model(Instr::BrTable(ts, d))),
        forall|x: FunctionIdx| #[trigger] encode_instr(instr_model(Instr::Call(x))) == seq![0x10u8] + FunctionIdx::spec_encode(x),
        forall|x: FunctionIdx| FunctionIdx::canonical(x) ==> canonical_instr(#[trigger] instr_model(Instr::Call(x))) && encodable_instr(instr_model(Instr::Call(x))),
        forall|ty: TypeIdx, tb: TableIdx| #[trigger] encode_instr(instr_model(Instr::CallIndirect(ty, tb))) == seq![0x11u8] + TypeIdx::spec_encode(ty) + TableIdx::spec_encode(tb),
        forall|ty: TypeIdx, tb: TableIdx| TypeIdx::canonical(ty) && TableIdx::canonical(tb) ==> canonical_instr(#[trigger] instr_model(Instr::CallIndirect(ty, tb))) && encodable_instr(instr_model(Instr::CallIndirect(ty, tb))),
        forall|x: LocalIdx| #[trigger] encode_instr(instr_model(Instr::GetLocal(x))) == seq![0x20u8] + LocalIdx::spec_encode(x),
        forall|x: LocalIdx| LocalIdx::canonical(x) ==> canonical_instr(#[trigger] instr_model(Instr::GetLocal(x))) && encodable_instr(instr_model(Instr::GetLocal(x))),
        forall|x: LocalIdx| #[trigger] encode_instr(instr_model(Instr::SetLocal(x))) == seq![0x21u8] + LocalIdx::spec_encode(x),
        forall|x: LocalIdx| LocalIdx::canonical(x) ==> canonical_instr(#[trigger] instr_model(Instr::SetLocal(x))) && encodable_instr(instr_model(Instr::SetLocal(x))),
        forall|x: LocalIdx| #[trigger] encode_instr(instr_model(Instr::TeeLocal(x))) == seq![0x22u8] + LocalIdx::spec_encode(x),
        forall|x: LocalIdx| LocalIdx::canonical(x) ==> canonical_instr(#[trigger] instr_model(Instr::TeeLocal(x))) && encodable_instr(instr_model(Instr::TeeLocal(x))),
        forall|x: GlobalIdx| #[trigger] encode_instr(instr_model(Instr::GetGlobal(x))) == seq![0x23u8] + GlobalIdx::spec_encode(x),
        forall|x: GlobalIdx| GlobalIdx::canonical(x) ==> canonical_instr(#[trigger] instr_model(Instr::GetGlobal(x))) && encodable_instr(instr_model(Instr::GetGlobal(x))),
        forall|x: GlobalIdx| #[trigger] encode_instr(instr_model(Instr::SetGlobal(x))) == seq![0x24u8] + GlobalIdx::spec_encode(x),
        forall|x: GlobalIdx| GlobalIdx::canonical(x) ==> canonical_instr(#[trigger] instr_model(Instr::SetGlobal(x))) && encodable_instr(instr_model(Instr::SetGlobal(x))),
        forall|x: MemoryIdx| #[trigger] encode_instr(instr_model(Instr::CurrentMemory(x))) == seq![0x3fu8] + MemoryIdx::spec_encode(x),
        forall|x: MemoryIdx| MemoryIdx::canonical(x) ==> canonical_instr(#[trigger] instr_model(Instr::CurrentMemory(x))) && encodable_instr(instr_model(Instr::CurrentMemory(x))),
        forall|x: MemoryIdx| #[trigger] encode_instr(instr_model(Instr::GrowMemory(x))) == seq![0x40u8] + MemoryIdx::spec_encode(x),
        forall|x: MemoryIdx| MemoryIdx::canonical(x) ==> canonical_instr(#[trigger] instr_model(Instr::GrowMemory(x))) && encodable_instr(instr_model(Instr::GrowMemory(x))),
{
}

/// Loads: the opcode that the WebAssembly format gives each, then its
/// immediates in the order of the format; each reads back whenever its immediates do.
pub proof fn lemma_instr_layout_memory_0()
    ensures
        forall|ma: Memarg| #[trigger] encode_instr(instr_model(Instr::I32Load(ma))) == seq![0x28u8] + Memarg::spec_encode(ma),
        forall|ma: Memarg| Memarg::canonical(ma) ==> canonical_instr(#[trigger] instr_model(Instr::I32Load(ma))) && encodable_instr(instr_model(Instr::I32Load(ma))),
        forall|ma: Memarg| #[trigger] encode_instr(instr_model(Instr::I64Load(ma))) == seq![0x29u8] + Memarg::spec_encode(ma),
        forall|ma: Memarg| Memarg::canonical(ma) ==> canonical_instr(#[trigger] instr_model(Instr::I64Load(ma))) && encodable_instr(instr_model(Instr::I64Load(ma))),
        forall|ma: Memarg| #[trigger] encode_instr(instr_model(Instr::F32Load(ma))) == seq![0x2au8] + Memarg::spec_encode(ma),
        forall|ma: Memarg| Memarg::canonical(ma) ==> canonical_instr(#[trigger] instr_model(Instr::F32Load(ma))) && encodable_instr(instr_model(Instr::F32Load(ma))),
        forall|ma: Memarg| #[trigger] encode_instr(instr_model(Instr::F64Load(ma))) == seq![0x2bu8] + Memarg::spec_encode(ma),
        forall|ma: Memarg| Memarg::canonical(ma) ==> canonical_instr(#[trigger] instr_model(Instr::F64Load(ma))) && encodable_instr(instr_model(Instr::F64Load(ma))),
        forall|ma: Memarg| #[trigger] encode_instr(instr_model(Instr::I32Load8S(ma))) == seq![0x2cu8] + Memarg::spec_encode(ma),
        forall|ma: Memarg| Memarg::canonical(ma) ==> canonical_instr(#[trigger] instr_model(Instr::I32Load8S(ma))) && encodable_instr(instr_model(Instr::I32Load8S(ma))),
        forall|ma: Memarg| #[trigger] encode_instr(instr_model(Instr::I32Load8U(ma))) == seq![0x2du8] + Memarg::spec_encode(ma),
        forall|ma: Memarg| Memarg::canonical(ma) ==> canonical_instr(#[trigger] instr_model(Instr::I32Load8U(ma))) && encodable_instr(instr_model(Instr::I32Load8U(ma))),
        forall|ma: Memarg| #[trigger] encode_instr(instr_model(Instr::I32Load16S(ma))) == seq![0x2eu8] + Memarg::spec_encode(ma),
        forall|ma: Memarg| Memarg::canonical(ma) ==> canonical_instr(#[trigger] instr_model(Instr::I32Load16S(ma))) && encodable_instr(instr_model(Instr::I32Load16S(ma))),
        forall|ma: Memarg| #[trigger] encode_instr(instr_model(Instr::I32Load16U(ma))) == seq![0x2fu8] + Memarg::spec_encode(ma),
        forall|ma: Memarg| Memarg::canonical(ma) ==> canonical_instr(#[trigger] instr_model(Instr::I32Load16U(ma))) && encodable_instr(instr_model(Instr::I32Load16U(ma))),
        forall|ma: Memarg| #[trigger] encode_instr(instr_model(Instr::I64Load8S(ma))) == seq![0x30u8] + Memarg::spec_encode(ma),
        forall|ma: Memarg| Memarg::canonical(ma) ==> canonical_instr(#[trigger] instr_model(Instr::I64Load8S(ma))) && encodable_instr(instr_model(Instr::I64Load8S(ma))),
        forall|ma: Memarg| #[trigger] encode_instr(instr_model(Instr::I64Load8U(ma))) == seq![0x31u8] + Memarg::spec_encode(ma),
        forall|ma: Memarg| Memarg::canonical(ma) ==> canonical_instr(#[trigger] instr_model(Instr::I64Load8U(ma))) && encodable_instr(instr_model(Instr::I64Load8U(ma))),
        forall|ma: Memarg| #[trigger] encode_instr(instr_model(Instr::I64Load16S(ma))) == seq![0x32u8] + Memarg::spec_encode(ma),
        forall|ma: Memarg| Memarg::canonical(ma) ==> canonical_instr(#[trigger] instr_model(Instr::I64Load16S(ma))) && encodable_instr(instr_model(Instr::I64Load16S(ma))),
{
}

/// Loads and stores: the opcode that the WebAssembly format gives each, then its
/// immediates in the order of the format; each reads back whenever its immediates do.
pub proof fn lemma_instr_layout_memory_1()
    ensures
        forall|ma: Memarg| #[trigger] encode_instr(instr_model(Instr::I64Load16U(ma))) == seq![0x33u8] + Memarg::spec_encode(ma),
        forall|ma: Memarg| Memarg::canonical(ma) ==> canonical_instr(#[trigger] instr_model(Instr::I64Load16U(ma))) && encodable_instr(instr_model(Instr::I64Load16U(ma))),
        forall|ma: Memarg| #[trigger] encode_instr(instr_model(Instr::I64Load32S(ma))) == seq![0x34u8] + Memarg::spec_encode(ma),
        forall|ma: Memarg| Memarg::canonical(ma) ==> canonical_instr(#[trigger] instr_model(Instr::I64Load32S(ma))) && encodable_instr(instr_model(Instr::I64Load32S(ma))),
        forall|ma: Memarg| #[trigger] encode_instr(instr_model(Instr::I64Load32U(ma))) == seq![0x35u8] + Memarg::spec_encode(ma),
        forall|ma: Memarg| Memarg::canonical(ma) ==> canonical_instr(#[trigger] instr_model(Instr::I64Load32U(ma))) && encodable_instr(instr_model(Instr::I64Load32U(ma))),
        forall|ma: Memarg| #[trigger] encode_instr(instr_model(Instr::I32Store(ma))) == seq![0x36u8] + Memarg::spec_encode(ma),
        forall|ma: Memarg| Memarg::canonical(ma) ==> canonical_instr(#[trigger] instr_model(Instr::I32Store(ma))) && encodable_instr(instr_model(Instr::I32Store(ma))),
        forall|ma: Memarg| #[trigger] encode_instr(instr_model(Instr::I64Store(ma))) == seq![0x37u8] + Memarg::spec_encode(ma),
        forall|ma: Memarg| Memarg::canonical(ma) ==> canonical_instr(#[trigger] instr_model(Instr::I64Store(ma))) && encodable_instr(instr_model(Instr::I64Store(ma))),
        forall|ma: Memarg| #[trigger] encode_instr(instr_model(Instr::F32Store(ma))) == seq![0x38u8] + Memarg::spec_encode(ma),
        forall|ma: Memarg| Memarg::canonical(ma) ==> canonical_instr(#[trigger] instr_model(Instr::F32Store(ma))) && encodable_instr(instr_model(Instr::F32Store(ma))),
        forall|ma: Memarg| #[trigger] encode_instr(instr_model(Instr::F64Store(ma))) == seq![0x39u8] + Memarg::spec_encode(ma),
        forall|ma: Memarg| Memarg::canonical(ma) ==> canonical_instr(#[trigger] instr_model(Instr::F64Store(ma))) && encodable_instr(instr_model(Instr::F64Store(ma))),
        forall|ma: Memarg| #[trigger] encode_instr(instr_model(Instr::I32Store8(ma))) == seq![0x3au8] + Memarg::spec_encode(ma),
        forall|ma: Memarg| Memarg::canonical(ma) ==> canonical_instr(#[trigger] instr_model(Instr::I32Store8(ma))) && encodable_instr(instr_model(Instr::I32Store8(ma))),
        forall|ma: Memarg| #[trigger] encode_instr(instr_model(Instr::I32Store16(ma))) == seq![0x3bu8] + Memarg::spec_encode(ma),
        forall|ma: Memarg| Memarg::canonical(ma) ==> canonical_instr(#[trigger] instr_model(Instr::I32Store16(ma))) && encodable_instr(instr_model(Instr::I32Store16(ma))),
        forall|ma: Memarg| #[trigger] encode_instr(instr_model(Instr::I64Store8(ma))) == seq![0x3cu8] + Memarg::spec_encode(ma),
        forall|ma: Memarg| Memarg::canonical(ma) ==> canonical_instr(#[trigger] instr_model(Instr::I64Store8(ma))) && encodable_instr(instr_model(Instr::I64Store8(ma))),
        forall|ma: Memarg| #[trigger] encode_instr(instr_model(Instr::I64Store16(ma))) == seq![0x3du8] + Memarg::spec_encode(ma),
        forall|ma: Memarg| Memarg::canonical(ma) ==> canonical_instr(#[trigger] instr_model(Instr::I64Store16(ma))) && encodable_instr(instr_model(Instr::I64Store16(ma))),
        forall|ma: Memarg| #[trigger] encode_instr(instr_model(Instr::I64Store32(ma))) == seq![0x3eu8] + Memarg::spec_encode(ma),
        forall|ma: Memarg| Memarg::canonical(ma) ==> canonical_instr(#[trigger] instr_model(Instr::I64Store32(ma))) && encodable_instr(instr_model(Instr::I64Store32(ma))),
{
}

/// Constants: the opcode that the WebAssembly format gives each, then its
/// immediates in the order of the format; each reads back whenever its immediates do.
pub proof fn lemma_instr_layout_constants()
    ensures
        forall|c: Leb128<i32>| #[trigger] encode_instr(instr_model(Instr::I32Const(c))) == seq![0x41u8] + <Leb128<i32> as WasmBinary>::spec_encode(c),
        forall|c: Leb128<i32>| <Leb128<i32> as WasmBinary>::canonical(c) ==> canonical_instr(#[trigger] instr_model(Instr::I32Const(c))) && encodable_instr(instr_model(Instr::I32Const(c))),
        forall|c: Leb128<i64>| #[trigger] encode_instr(instr_model(Instr::I64Const(c))) == seq![0x42u8] + <Leb128<i64> as WasmBinary>::spec_encode(c),
        forall|c: Leb128<i64>| <Leb128<i64> as WasmBinary>::canonical(c) ==> canonical_instr(#[trigger] instr_model(Instr::I64Const(c))) && encodable_instr(instr_model(Instr::I64Const(c))),
        forall|b: u32| #[trigger] encode_instr(instr_model(Instr::F32Const(b))) == seq![0x43u8] + le_bytes_32(b),
        forall|b: u32| canonical_instr(#[trigger] instr_model(Instr::F32Const(b))) && encodable_instr(instr_model(Instr::F32Const(b))),
        forall|b: u64| #[trigger] encode_instr(instr_model(Instr::F64Const(b))) == seq![0x44u8] + le_bytes_64(b),
        forall|b: u64| canonical_instr(#[trigger] instr_model(Instr::F64Const(b))) && encodable_instr(instr_model(Instr::F64Const(b))),
{
}

/// 32-bit float constants are written as the little-endian bytes of their bits:
/// byte `k` holds the bits `8k` to `8k + 7`.
pub proof fn lemma_f32_bytes_little_endian(b: u32)
    ensures
        le_bytes_32(b) == seq![(b % 256) as u8, ((b / 0x100) % 256) as u8, ((b / 0x10000) % 256) as u8, ((b / 0x1000000) % 256) as u8],
{
    assert(((b & 0xff) as u8 == (b % 256) as u8) && (((b >> 8u32) & 0xff) as u8 == ((b / 0x100) % 256) as u8) && (((b >> 16u32) & 0xff) as u8 == ((b / 0x10000) % 256) as u8) && (((b >> 24u32) & 0xff) as u8 == ((b / 0x1000000) % 256) as u8)) by (bit_vector);
    assert(le_bytes_32(b) =~= seq![(b % 256) as u8, ((b / 0x100) % 256) as u8, ((b / 0x10000) % 256) as u8, ((b / 0x1000000) % 256) as u8]);
}

/// 64-bit float constants are written as the little-endian bytes of their bits:
/// byte `k` holds the bits `8k` to `8k + 7`.
pub proof fn lemma_f64_bytes_little_endian(b: u64)
    ensures
        le_bytes_64(b) == seq![((b / 0x1) % 256) as u8, ((b / 0x100) % 256) as u8, ((b / 0x10000) % 256) as u8, ((b / 0x1000000) % 256) as u8, ((b / 0x100000000) % 256) as u8, ((b / 0x10000000000) % 256) as u8, ((b / 0x1000000000000) % 256) as u8, ((b / 0x100000000000000) % 256) as u8],
{
    let lo = (b & 0xffff_ffff) as u32;
    let hi = (b >> 32u64) as u32;
    assert(((lo & 0xff) as u8 == ((b / 0x1) % 256) as u8) && (((lo >> 8u32) & 0xff) as u8 == ((b / 0x100) % 256) as u8) && (((lo >> 16u32) & 0xff) as u8 == ((b / 0x10000) % 256) as u8) && (((lo >> 24u32) & 0xff) as u8 == ((b / 0x1000000) % 256) as u8)) by (bit_vector)
        requires
            lo == (b & 0xffff_ffff) as u32,
    ;
    assert(((hi & 0xff) as u8 == ((b / 0x100000000) % 256) as u8) && (((hi >> 8u32) & 0xff) as u8 == ((b / 0x10000000000) % 256) as u8) && (((hi >> 16u32) & 0xff) as u8 == ((b / 0x1000000000000) % 256) as u8) && (((hi >> 24u32) & 0xff) as u8 == ((b / 0x100000000000000) % 256) as u8)) by (bit_vector)
        requires
            hi == (b >> 32u64) as u32,
    ;
    assert(le_bytes_64(b) =~= seq![((b / 0x1) % 256) as u8, ((b / 0x100) % 256) as u8, ((b / 0x10000) % 256) as u8, ((b / 0x1000000) % 256) as u8, ((b / 0x100000000) % 256) as u8, ((b / 0x10000000000) % 256) as u8, ((b / 0x1000000000000) % 256) as u8, ((b / 0x100000000000000) % 256) as u8]);
}

/// A vector is its element count as an unsigned 32-bit LEB128 integer (in the stored
/// byte count where that can hold it), then the encodings of its elements in order;
/// a name is its length in bytes, then its UTF-8 bytes.
pub proof fn lemma_vector_and_name_layout<T: WasmBinary>(m: Leb128<Seq<T::Model>>, xs: Seq<T::Model>, x: T::Model, name: Leb128<Seq<char>>)
    ensures
        MAX_LEN_32 == 5,
        MAX_LEN_64 == 10,
        u32_bound() == 0x1_0000_0000,
        <Leb128<Vec<T>> as WasmBinary>::spec_encode(m) == encode_unsigned(m.value.len(), m.byte_count as nat, 5) + encode_all::<T>(m.value),
        encode_all::<T>(Seq::empty()) == Seq::<u8>::empty(),
        encode_all::<T>(xs.push(x)) == encode_all::<T>(xs) + T::spec_encode(x),
        <Leb128<String> as WasmBinary>::spec_encode(name) == encode_unsigned(encode_utf8(name.value).len(), name.byte_count as nat, 5) + encode_utf8(name.value),
{
    lemma_encode_all_append::<T>(xs, seq![x]);
    lemma_encode_all_single::<T>(x);
    assert(xs + seq![x] =~= xs.push(x));
}

} // verus!
