//! Instructions and instruction sequences: their model, and their encoding.
//!
//! An instruction is an opcode byte followed by its immediates. A sequence of
//! instructions is not preceded by a count: it runs up to and including the first
//! `End` or `Else`. `Block`, `Loop` and `If` hold the sequence that follows their
//! block type, and `Else` the sequence that follows it.
use vstd::prelude::*;
use crate::ast::{
    BlockType, Expr, FunctionIdx, GlobalIdx, Instr, LabelIdx, LocalIdx, Memarg, MemoryIdx, TableIdx,
    TypeIdx,
};
use crate::binary::{
    EncodeError, WasmBinary, decode_tagged, lemma_tagged_decoded, lemma_tagged_encoded,
};
use crate::leb128::Leb128;

verus! {

/// What an instruction holds: its opcode and its immediates.
pub enum InstrModel {
    /// An instruction without immediates.
    Plain(u8),
    /// `block`, `loop` or `if`: the opcode, the block type and the enclosed sequence.
    Block(u8, BlockType, Seq<InstrModel>),
    /// `else` and the sequence that follows it.
    Else(Seq<InstrModel>),
    /// An instruction with one index: branches, calls, locals, globals, and the
    /// memory index of `current_memory` and `grow_memory`.
    Index(u8, Leb128<u32>),
    BrTable(Leb128<Seq<LabelIdx>>, LabelIdx),
    CallIndirect(TypeIdx, TableIdx),
    /// A load or a store.
    Memory(u8, Memarg),
    I32Const(Leb128<i32>),
    I64Const(Leb128<i64>),
    /// The bits of a 32-bit float constant.
    F32Const(u32),
    /// The bits of a 64-bit float constant.
    F64Const(u64),
}

/// The opcodes of instructions without immediates.
pub open spec fn is_plain_op(op: u8) -> bool {
    op == 0x00 || op == 0x01 || op == 0x0b || op == 0x0f || op == 0x1a || op == 0x1b || (0x45
        <= op && op <= 0xbf)
}

/// The opcodes of `block`, `loop` and `if`.
pub open spec fn is_block_op(op: u8) -> bool {
    0x02 <= op && op <= 0x04
}

/// The opcodes of instructions with one index.
pub open spec fn is_index_op(op: u8) -> bool {
    op == 0x0c || op == 0x0d || op == 0x10 || (0x20 <= op && op <= 0x24) || op == 0x3f || op
        == 0x40
}

/// The opcodes of loads and stores.
pub open spec fn is_memory_op(op: u8) -> bool {
    0x28 <= op && op <= 0x3e
}

/// `End` and `Else` close a sequence of instructions.
pub open spec fn closes(i: InstrModel) -> bool {
    i == InstrModel::Plain(0x0b) || i is Else
}

/// The little-endian bytes of a 32-bit word.
pub open spec fn le_bytes_32(b: u32) -> Seq<u8> {
    seq![(b & 0xff) as u8, ((b >> 8u32) & 0xff) as u8, ((b >> 16u32) & 0xff) as u8, ((b >> 24u32) & 0xff) as u8]
}

/// The 32-bit word of four little-endian bytes.
pub open spec fn le_value_32(s: Seq<u8>) -> u32 {
    (s[0] as u32) | ((s[1] as u32) << 8u32) | ((s[2] as u32) << 16u32) | ((s[3] as u32) << 24u32)
}

/// The little-endian bytes of a 64-bit word.
pub open spec fn le_bytes_64(b: u64) -> Seq<u8> {
    le_bytes_32((b & 0xffff_ffff) as u32) + le_bytes_32((b >> 32u64) as u32)
}

/// The 64-bit word of eight little-endian bytes.
pub open spec fn le_value_64(s: Seq<u8>) -> u64 {
    (le_value_32(s) as u64) | ((le_value_32(s.skip(4)) as u64) << 32u64)
}

/// The model of an instruction.
pub open spec fn instr_model(i: Instr) -> InstrModel
    decreases i, 0nat,
{
    match i {
        Instr::Unreachable => InstrModel::Plain(0x00),
        Instr::Nop => InstrModel::Plain(0x01),
        Instr::Block(bt, e) => InstrModel::Block(0x02, bt, expr_models(e.0@, 0)),
        Instr::Loop(bt, e) => InstrModel::Block(0x03, bt, expr_models(e.0@, 0)),
        Instr::If(bt, e) => InstrModel::Block(0x04, bt, expr_models(e.0@, 0)),
        Instr::Else(e) => InstrModel::Else(expr_models(e.0@, 0)),
        Instr::End => InstrModel::Plain(0x0b),
        Instr::Br(x) => InstrModel::Index(0x0c, x.0),
        Instr::BrIf(x) => InstrModel::Index(0x0d, x.0),
        Instr::BrTable(ts, d) => InstrModel::BrTable(ts.model(), d),
        Instr::Return => InstrModel::Plain(0x0f),
        Instr::Call(x) => InstrModel::Index(0x10, x.0),
        Instr::CallIndirect(t, tb) => InstrModel::CallIndirect(t, tb),
        Instr::Drop => InstrModel::Plain(0x1a),
        Instr::Select => InstrModel::Plain(0x1b),
        Instr::GetLocal(x) => InstrModel::Index(0x20, x.0),
        Instr::SetLocal(x) => InstrModel::Index(0x21, x.0),
        Instr::TeeLocal(x) => InstrModel::Index(0x22, x.0),
        Instr::GetGlobal(x) => InstrModel::Index(0x23, x.0),
        Instr::SetGlobal(x) => InstrModel::Index(0x24, x.0),
        Instr::I32Load(ma) => InstrModel::Memory(0x28, ma),
        Instr::I64Load(ma) => InstrModel::Memory(0x29, ma),
        Instr::F32Load(ma) => InstrModel::Memory(0x2a, ma),
        Instr::F64Load(ma) => InstrModel::Memory(0x2b, ma),
        Instr::I32Load8S(ma) => InstrModel::Memory(0x2c, ma),
        Instr::I32Load8U(ma) => InstrModel::Memory(0x2d, ma),
        Instr::I32Load16S(ma) => InstrModel::Memory(0x2e, ma),
        Instr::I32Load16U(ma) => InstrModel::Memory(0x2f, ma),
        Instr::I64Load8S(ma) => InstrModel::Memory(0x30, ma),
        Instr::I64Load8U(ma) => InstrModel::Memory(0x31, ma),
        Instr::I64Load16S(ma) => InstrModel::Memory(0x32, ma),
        Instr::I64Load16U(ma) => InstrModel::Memory(0x33, ma),
        Instr::I64Load32S(ma) => InstrModel::Memory(0x34, ma),
        Instr::I64Load32U(ma) => InstrModel::Memory(0x35, ma),
        Instr::I32Store(ma) => InstrModel::Memory(0x36, ma),
        Instr::I64Store(ma) => InstrModel::Memory(0x37, ma),
        Instr::F32Store(ma) => InstrModel::Memory(0x38, ma),
        Instr::F64Store(ma) => InstrModel::Memory(0x39, ma),
        Instr::I32Store8(ma) => InstrModel::Memory(0x3a, ma),
        Instr::I32Store16(ma) => InstrModel::Memory(0x3b, ma),
        Instr::I64Store8(ma) => InstrModel::Memory(0x3c, ma),
        Instr::I64Store16(ma) => InstrModel::Memory(0x3d, ma),
        Instr::I64Store32(ma) => InstrModel::Memory(0x3e, ma),
        Instr::CurrentMemory(x) => InstrModel::Index(0x3f, x.0),
        Instr::GrowMemory(x) => InstrModel::Index(0x40, x.0),
        Instr::I32Const(c) => InstrModel::I32Const(c),
        Instr::I64Const(c) => InstrModel::I64Const(c),
        Instr::F32Const(b) => InstrModel::F32Const(b),
        Instr::F64Const(b) => InstrModel::F64Const(b),
        Instr::I32Eqz => InstrModel::Plain(0x45),
        Instr::I32Eq => InstrModel::Plain(0x46),
        Instr::I32Ne => InstrModel::Plain(0x47),
        Instr::I32LtS => InstrModel::Plain(0x48),
        Instr::I32LtU => InstrModel::Plain(0x49),
        Instr::I32GtS => InstrModel::Plain(0x4a),
        Instr::I32GtU => InstrModel::Plain(0x4b),
        Instr::I32LeS => InstrModel::Plain(0x4c),
        Instr::I32LeU => InstrModel::Plain(0x4d),
        Instr::I32GeS => InstrModel::Plain(0x4e),
        Instr::I32GeU => InstrModel::Plain(0x4f),
        Instr::I64Eqz => InstrModel::Plain(0x50),
        Instr::I64Eq => InstrModel::Plain(0x51),
        Instr::I64Ne => InstrModel::Plain(0x52),
        Instr::I64LtS => InstrModel::Plain(0x53),
        Instr::I64LtU => InstrModel::Plain(0x54),
        Instr::I64GtS => InstrModel::Plain(0x55),
        Instr::I64GtU => InstrModel::Plain(0x56),
        Instr::I64LeS => InstrModel::Plain(0x57),
        Instr::I64LeU => InstrModel::Plain(0x58),
        Instr::I64GeS => InstrModel::Plain(0x59),
        Instr::I64GeU => InstrModel::Plain(0x5a),
        Instr::F32Eq => InstrModel::Plain(0x5b),
        Instr::F32Ne => InstrModel::Plain(0x5c),
        Instr::F32Lt => InstrModel::Plain(0x5d),
        Instr::F32Gt => InstrModel::Plain(0x5e),
        Instr::F32Le => InstrModel::Plain(0x5f),
        Instr::F32Ge => InstrModel::Plain(0x60),
        Instr::F64Eq => InstrModel::Plain(0x61),
        Instr::F64Ne => InstrModel::Plain(0x62),
        Instr::F64Lt => InstrModel::Plain(0x63),
        Instr::F64Gt => InstrModel::Plain(0x64),
        Instr::F64Le => InstrModel::Plain(0x65),
        Instr::F64Ge => InstrModel::Plain(0x66),
        Instr::I32Clz => InstrModel::Plain(0x67),
        Instr::I32Ctz => InstrModel::Plain(0x68),
        Instr::I32Popcnt => InstrModel::Plain(0x69),
        Instr::I32Add => InstrModel::Plain(0x6a),
        Instr::I32Sub => InstrModel::Plain(0x6b),
        Instr::I32Mul => InstrModel::Plain(0x6c),
        Instr::I32DivS => InstrModel::Plain(0x6d),
        Instr::I32DivU => InstrModel::Plain(0x6e),
        Instr::I32RemS => InstrModel::Plain(0x6f),
        Instr::I32RemU => InstrModel::Plain(0x70),
        Instr::I32And => InstrModel::Plain(0x71),
        Instr::I32Or => InstrModel::Plain(0x72),
        Instr::I32Xor => InstrModel::Plain(0x73),
        Instr::I32Shl => InstrModel::Plain(0x74),
        Instr::I32ShrS => InstrModel::Plain(0x75),
        Instr::I32ShrU => InstrModel::Plain(0x76),
        Instr::I32Rotl => InstrModel::Plain(0x77),
        Instr::I32Rotr => InstrModel::Plain(0x78),
        Instr::I64Clz => InstrModel::Plain(0x79),
        Instr::I64Ctz => InstrModel::Plain(0x7a),
        Instr::I64Popcnt => InstrModel::Plain(0x7b),
        Instr::I64Add => InstrModel::Plain(0x7c),
        Instr::I64Sub => InstrModel::Plain(0x7d),
        Instr::I64Mul => InstrModel::Plain(0x7e),
        Instr::I64DivS => InstrModel::Plain(0x7f),
        Instr::I64DivU => InstrModel::Plain(0x80),
        Instr::I64RemS => InstrModel::Plain(0x81),
        Instr::I64RemU => InstrModel::Plain(0x82),
        Instr::I64And => InstrModel::Plain(0x83),
        Instr::I64Or => InstrModel::Plain(0x84),
        Instr::I64Xor => InstrModel::Plain(0x85),
        Instr::I64Shl => InstrModel::Plain(0x86),
        Instr::I64ShrS => InstrModel::Plain(0x87),
        Instr::I64ShrU => InstrModel::Plain(0x88),
        Instr::I64Rotl => InstrModel::Plain(0x89),
        Instr::I64Rotr => InstrModel::Plain(0x8a),
        Instr::F32Abs => InstrModel::Plain(0x8b),
        Instr::F32Neg => InstrModel::Plain(0x8c),
        Instr::F32Ceil => InstrModel::Plain(0x8d),
        Instr::F32Floor => InstrModel::Plain(0x8e),
        Instr::F32Trunc => InstrModel::Plain(0x8f),
        Instr::F32Nearest => InstrModel::Plain(0x90),
        Instr::F32Sqrt => InstrModel::Plain(0x91),
        Instr::F32Add => InstrModel::Plain(0x92),
        Instr::F32Sub => InstrModel::Plain(0x93),
        Instr::F32Mul => InstrModel::Plain(0x94),
        Instr::F32Div => InstrModel::Plain(0x95),
        Instr::F32Min => InstrModel::Plain(0x96),
        Instr::F32Max => InstrModel::Plain(0x97),
        Instr::F32Copysign => InstrModel::Plain(0x98),
        Instr::F64Abs => InstrModel::Plain(0x99),
        Instr::F64Neg => InstrModel::Plain(0x9a),
        Instr::F64Ceil => InstrModel::Plain(0x9b),
        Instr::F64Floor => InstrModel::Plain(0x9c),
        Instr::F64Trunc => InstrModel::Plain(0x9d),
        Instr::F64Nearest => InstrModel::Plain(0x9e),
        Instr::F64Sqrt => InstrModel::Plain(0x9f),
        Instr::F64Add => InstrModel::Plain(0xa0),
        Instr::F64Sub => InstrModel::Plain(0xa1),
        Instr::F64Mul => InstrModel::Plain(0xa2),
        Instr::F64Div => InstrModel::Plain(0xa3),
        Instr::F64Min => InstrModel::Plain(0xa4),
        Instr::F64Max => InstrModel::Plain(0xa5),
        Instr::F64Copysign => InstrModel::Plain(0xa6),
        Instr::I32WrapI64 => InstrModel::Plain(0xa7),
        Instr::I32TruncSF32 => InstrModel::Plain(0xa8),
        Instr::I32TruncUF32 => InstrModel::Plain(0xa9),
        Instr::I32TruncSF64 => InstrModel::Plain(0xaa),
        Instr::I32TruncUF64 => InstrModel::Plain(0xab),
        Instr::I64ExtendSI32 => InstrModel::Plain(0xac),
        Instr::I64ExtendUI32 => InstrModel::Plain(0xad),
        Instr::I64TruncSF32 => InstrModel::Plain(0xae),
        Instr::I64TruncUF32 => InstrModel::Plain(0xaf),
        Instr::I64TruncSF64 => InstrModel::Plain(0xb0),
        Instr::I64TruncUF64 => InstrModel::Plain(0xb1),
        Instr::F32ConvertSI32 => InstrModel::Plain(0xb2),
        Instr::F32ConvertUI32 => InstrModel::Plain(0xb3),
        Instr::F32ConvertSI64 => InstrModel::Plain(0xb4),
        Instr::F32ConvertUI64 => InstrModel::Plain(0xb5),
        Instr::F32DemoteF64 => InstrModel::Plain(0xb6),
        Instr::F64ConvertSI32 => InstrModel::Plain(0xb7),
        Instr::F64ConvertUI32 => InstrModel::Plain(0xb8),
        Instr::F64ConvertSI64 => InstrModel::Plain(0xb9),
        Instr::F64ConvertUI64 => InstrModel::Plain(0xba),
        Instr::F64PromoteF32 => InstrModel::Plain(0xbb),
        Instr::I32ReinterpretF32 => InstrModel::Plain(0xbc),
        Instr::I64ReinterpretF64 => InstrModel::Plain(0xbd),
        Instr::F32ReinterpretI32 => InstrModel::Plain(0xbe),
        Instr::F64ReinterpretI64 => InstrModel::Plain(0xbf),
    }
}

/// The models of the instructions of `v` from index `k` on.
pub open spec fn expr_models(v: Seq<Instr>, k: int) -> Seq<InstrModel>
    decreases v, v.len() - k,
{
    if 0 <= k < v.len() {
        seq![instr_model(v[k])] + expr_models(v, k + 1)
    } else {
        Seq::empty()
    }
}

/// The encoding of an instruction.
pub open spec fn encode_instr(i: InstrModel) -> Seq<u8>
    decreases i, 0nat,
{
    match i {
        InstrModel::Plain(op) => seq![op],
        InstrModel::Block(op, bt, body) => seq![op] + BlockType::spec_encode(bt) + encode_from(body, 0),
        InstrModel::Else(body) => seq![0x05u8] + encode_from(body, 0),
        InstrModel::Index(op, x) => seq![op] + <Leb128<u32> as WasmBinary>::spec_encode(x),
        InstrModel::BrTable(ts, d) => seq![0x0eu8] + <(Leb128<Vec<LabelIdx>>, LabelIdx) as WasmBinary>::spec_encode((ts, d)),
        InstrModel::CallIndirect(t, tb) => seq![0x11u8] + <(TypeIdx, TableIdx) as WasmBinary>::spec_encode((t, tb)),
        InstrModel::Memory(op, ma) => seq![op] + Memarg::spec_encode(ma),
        InstrModel::I32Const(c) => seq![0x41u8] + <Leb128<i32> as WasmBinary>::spec_encode(c),
        InstrModel::I64Const(c) => seq![0x42u8] + <Leb128<i64> as WasmBinary>::spec_encode(c),
        InstrModel::F32Const(b) => seq![0x43u8] + le_bytes_32(b),
        InstrModel::F64Const(b) => seq![0x44u8] + le_bytes_64(b),
    }
}

/// The encodings of the instructions of `e` from index `k` on, one after the other.
pub open spec fn encode_from(e: Seq<InstrModel>, k: int) -> Seq<u8>
    decreases e, e.len() - k,
{
    if 0 <= k < e.len() {
        encode_instr(e[k]) + encode_from(e, k + 1)
    } else {
        Seq::empty()
    }
}

/// Every count in the instruction fits in 32 bits.
pub open spec fn encodable_instr(i: InstrModel) -> bool
    decreases i, 0nat,
{
    match i {
        InstrModel::Block(_, _, body) => encodable_from(body, 0),
        InstrModel::Else(body) => encodable_from(body, 0),
        InstrModel::BrTable(ts, d) => <Leb128<Vec<LabelIdx>> as WasmBinary>::encodable(ts),
        _ => true,
    }
}

pub open spec fn encodable_from(e: Seq<InstrModel>, k: int) -> bool
    decreases e, e.len() - k,
{
    if 0 <= k < e.len() {
        encodable_instr(e[k]) && encodable_from(e, k + 1)
    } else {
        true
    }
}

/// A sequence is closed by its last instruction, and by no other.
pub open spec fn closed_by_last(e: Seq<InstrModel>) -> bool {
    &&& e.len() >= 1
    &&& closes(e[e.len() - 1])
    &&& forall|k: int| 0 <= k < e.len() - 1 ==> !closes(#[trigger] e[k])
}

/// The opcode fits the form of the instruction, its byte counts are ones that an
/// encoding can have, and its sequences are closed by their last instruction.
pub open spec fn canonical_instr(i: InstrModel) -> bool
    decreases i, 0nat,
{
    match i {
        InstrModel::Plain(op) => is_plain_op(op),
        InstrModel::Block(op, _, body) => is_block_op(op) && closed_by_last(body) && canonical_from(body, 0),
        InstrModel::Else(body) => closed_by_last(body) && canonical_from(body, 0),
        InstrModel::Index(op, x) => is_index_op(op) && <Leb128<u32> as WasmBinary>::canonical(x),
        InstrModel::BrTable(ts, d) => <(Leb128<Vec<LabelIdx>>, LabelIdx) as WasmBinary>::canonical((ts, d)),
        InstrModel::CallIndirect(t, tb) => <(TypeIdx, TableIdx) as WasmBinary>::canonical((t, tb)),
        InstrModel::Memory(op, ma) => is_memory_op(op) && Memarg::canonical(ma),
        InstrModel::I32Const(c) => <Leb128<i32> as WasmBinary>::canonical(c),
        InstrModel::I64Const(c) => <Leb128<i64> as WasmBinary>::canonical(c),
        _ => true,
    }
}

pub open spec fn canonical_from(e: Seq<InstrModel>, k: int) -> bool
    decreases e, e.len() - k,
{
    if 0 <= k < e.len() {
        canonical_instr(e[k]) && canonical_from(e, k + 1)
    } else {
        true
    }
}

/// The instruction at the front of `s`, with the number of bytes it takes.
pub open spec fn decode_instr(s: Seq<u8>) -> Option<(InstrModel, nat)>
    decreases s.len(), 1nat,
{
    if s.len() == 0 {
        None
    } else {
        let op = s[0];
        let t = s.skip(1);
        if is_plain_op(op) {
            Some((InstrModel::Plain(op), 1))
        } else if is_block_op(op) {
            if s.len() >= 2 {
                match BlockType::spec_decode(t) {
                    Some((bt, _)) => match decode_seq(s.skip(2)) {
                        Some((body, m)) => Some((InstrModel::Block(op, bt, body), m + 2)),
                        None => None,
                    },
                    None => None,
                }
            } else {
                None
            }
        } else if op == 0x05 {
            match decode_seq(t) {
                Some((body, m)) => Some((InstrModel::Else(body), m + 1)),
                None => None,
            }
        } else if is_index_op(op) {
            match <Leb128<u32> as WasmBinary>::spec_decode(t) {
                Some((x, m)) => Some((InstrModel::Index(op, x), m + 1)),
                None => None,
            }
        } else if op == 0x0e {
            match <(Leb128<Vec<LabelIdx>>, LabelIdx) as WasmBinary>::spec_decode(t) {
                Some((p, m)) => Some((InstrModel::BrTable(p.0, p.1), m + 1)),
                None => None,
            }
        } else if op == 0x11 {
            match <(TypeIdx, TableIdx) as WasmBinary>::spec_decode(t) {
                Some((p, m)) => Some((InstrModel::CallIndirect(p.0, p.1), m + 1)),
                None => None,
            }
        } else if is_memory_op(op) {
            match Memarg::spec_decode(t) {
                Some((ma, m)) => Some((InstrModel::Memory(op, ma), m + 1)),
                None => None,
            }
        } else if op == 0x41 {
            match <Leb128<i32> as WasmBinary>::spec_decode(t) {
                Some((c, m)) => Some((InstrModel::I32Const(c), m + 1)),
                None => None,
            }
        } else if op == 0x42 {
            match <Leb128<i64> as WasmBinary>::spec_decode(t) {
                Some((c, m)) => Some((InstrModel::I64Const(c), m + 1)),
                None => None,
            }
        } else if op == 0x43 {
            if s.len() >= 5 {
                Some((InstrModel::F32Const(le_value_32(t)), 5))
            } else {
                None
            }
        } else if op == 0x44 {
            if s.len() >= 9 {
                Some((InstrModel::F64Const(le_value_64(t)), 9))
            } else {
                None
            }
        } else {
            None
        }
    }
}

/// The sequence of instructions at the front of `s`, up to and including the first
/// `End` or `Else`, with the number of bytes it takes.
pub open spec fn decode_seq(s: Seq<u8>) -> Option<(Seq<InstrModel>, nat)>
    decreases s.len(), 2nat,
{
    match decode_instr(s) {
        Some((i, n)) => if closes(i) {
            Some((seq![i], n))
        } else if 1 <= n <= s.len() {
            match decode_seq(s.skip(n as int)) {
                Some((rest, m)) => Some((seq![i] + rest, n + m)),
                None => None,
            }
        } else {
            None
        },
        None => None,
    }
}

proof fn lemma_le32_roundtrip(b: u32, rest: Seq<u8>)
    ensures
        (le_bytes_32(b) + rest).len() >= 4,
        le_value_32(le_bytes_32(b) + rest) == b,
{
    let s = le_bytes_32(b) + rest;
    let b0 = s[0];
    let b1 = s[1];
    let b2 = s[2];
    let b3 = s[3];
    assert(b0 == (b & 0xff) as u8);
    assert(b1 == ((b >> 8u32) & 0xff) as u8);
    assert(b2 == ((b >> 16u32) & 0xff) as u8);
    assert(b3 == ((b >> 24u32) & 0xff) as u8);
    assert((b0 as u32) | ((b1 as u32) << 8u32) | ((b2 as u32) << 16u32) | ((b3 as u32) << 24u32)
        == b) by (bit_vector)
        requires
            b0 == (b & 0xff) as u8,
            b1 == ((b >> 8u32) & 0xff) as u8,
            b2 == ((b >> 16u32) & 0xff) as u8,
            b3 == ((b >> 24u32) & 0xff) as u8,
    ;
}

proof fn lemma_le32_rewrite(s: Seq<u8>)
    requires
        s.len() >= 4,
    ensures
        le_bytes_32(le_value_32(s)) == s.take(4),
{
    let v = le_value_32(s);
    let b0 = s[0];
    let b1 = s[1];
    let b2 = s[2];
    let b3 = s[3];
    assert((v & 0xff) as u8 == b0 && ((v >> 8u32) & 0xff) as u8 == b1 && ((v >> 16u32) & 0xff) as u8
        == b2 && ((v >> 24u32) & 0xff) as u8 == b3) by (bit_vector)
        requires
            v == (b0 as u32) | ((b1 as u32) << 8u32) | ((b2 as u32) << 16u32) | ((b3 as u32)
                << 24u32),
    ;
    assert(le_bytes_32(v) =~= s.take(4));
}

proof fn lemma_le64_roundtrip(b: u64, rest: Seq<u8>)
    ensures
        (le_bytes_64(b) + rest).len() >= 8,
        le_value_64(le_bytes_64(b) + rest) == b,
{
    let lo = (b & 0xffff_ffff) as u32;
    let hi = (b >> 32u64) as u32;
    let s = le_bytes_64(b) + rest;
    assert(s =~= le_bytes_32(lo) + (le_bytes_32(hi) + rest));
    lemma_le32_roundtrip(lo, le_bytes_32(hi) + rest);
    assert(s.skip(4) =~= le_bytes_32(hi) + rest);
    lemma_le32_roundtrip(hi, rest);
    assert(((lo as u64) | ((hi as u64) << 32u64)) == b) by (bit_vector)
        requires
            lo == (b & 0xffff_ffff) as u32,
            hi == (b >> 32u64) as u32,
    ;
}

proof fn lemma_le64_rewrite(s: Seq<u8>)
    requires
        s.len() >= 8,
    ensures
        le_bytes_64(le_value_64(s)) == s.take(8),
{
    let lo = le_value_32(s);
    let hi = le_value_32(s.skip(4));
    let v = le_value_64(s);
    assert((v & 0xffff_ffff) as u32 == lo && (v >> 32u64) as u32 == hi) by (bit_vector)
        requires
            v == (lo as u64) | ((hi as u64) << 32u64),
    ;
    lemma_le32_rewrite(s);
    lemma_le32_rewrite(s.skip(4));
    assert(le_bytes_64(v) =~= s.take(8));
}

/// Dropping the first instruction of a sequence shifts the indices of the rest.
proof fn lemma_from_cons(x: InstrModel, r: Seq<InstrModel>, k: int)
    requires
        0 <= k,
    ensures
        encode_from(seq![x] + r, k + 1) == encode_from(r, k),
        encodable_from(seq![x] + r, k + 1) == encodable_from(r, k),
        canonical_from(seq![x] + r, k + 1) == canonical_from(r, k),
    decreases r.len() - k,
{
    let e = seq![x] + r;
    if k < r.len() {
        assert(e[k + 1] == r[k]);
        lemma_from_cons(x, r, k + 1);
    }
}

/// An instruction reads back from its encoding, whatever follows it.
pub proof fn lemma_instr_roundtrip(i: InstrModel, rest: Seq<u8>)
    requires
        encodable_instr(i),
        canonical_instr(i),
    ensures
        decode_instr(encode_instr(i) + rest) == Some((i, encode_instr(i).len())),
    decreases i, 0nat,
{
    let s = encode_instr(i) + rest;
    match i {
        InstrModel::Plain(op) => {},
        InstrModel::Block(op, bt, body) => {
            let eb = encode_from(body, 0);
            let et = BlockType::spec_encode(bt);
            assert(s =~= seq![op] + (et + (eb + rest)));
            assert(s.skip(1) =~= et + (eb + rest));
            BlockType::lemma_decode_encoded(bt, eb + rest);
            assert(s.skip(2) =~= eb + rest);
            lemma_seq_roundtrip(body, 0, rest);
            assert(body.skip(0) =~= body);
        },
        InstrModel::Else(body) => {
            let eb = encode_from(body, 0);
            assert(s.skip(1) =~= eb + rest);
            lemma_seq_roundtrip(body, 0, rest);
            assert(body.skip(0) =~= body);
        },
        InstrModel::Index(op, x) => {
            lemma_tagged_encoded::<Leb128<u32>>(op, x, rest);
        },
        InstrModel::BrTable(ts, d) => {
            lemma_tagged_encoded::<(Leb128<Vec<LabelIdx>>, LabelIdx)>(0x0e, (ts, d), rest);
        },
        InstrModel::CallIndirect(t, tb) => {
            lemma_tagged_encoded::<(TypeIdx, TableIdx)>(0x11, (t, tb), rest);
        },
        InstrModel::Memory(op, ma) => {
            lemma_tagged_encoded::<Memarg>(op, ma, rest);
        },
        InstrModel::I32Const(c) => {
            lemma_tagged_encoded::<Leb128<i32>>(0x41, c, rest);
        },
        InstrModel::I64Const(c) => {
            lemma_tagged_encoded::<Leb128<i64>>(0x42, c, rest);
        },
        InstrModel::F32Const(b) => {
            assert(s.skip(1) =~= le_bytes_32(b) + rest);
            lemma_le32_roundtrip(b, rest);
        },
        InstrModel::F64Const(b) => {
            assert(s.skip(1) =~= le_bytes_64(b) + rest);
            lemma_le64_roundtrip(b, rest);
        },
    }
}

/// A closed sequence reads back from its encoding, whatever follows it.
pub proof fn lemma_seq_roundtrip(e: Seq<InstrModel>, k: int, rest: Seq<u8>)
    requires
        0 <= k < e.len(),
        closed_by_last(e),
        encodable_from(e, k),
        canonical_from(e, k),
    ensures
        decode_seq(encode_from(e, k) + rest) == Some((e.skip(k), encode_from(e, k).len())),
    decreases e, e.len() - k,
{
    let x = e[k];
    let ex = encode_instr(x);
    let er = encode_from(e, k + 1);
    assert(encode_from(e, k) + rest =~= ex + (er + rest));
    lemma_instr_roundtrip(x, er + rest);
    if k == e.len() - 1 {
        assert(e.skip(k) =~= seq![x]);
        assert(er =~= Seq::<u8>::empty());
    } else {
        assert(!closes(x));
        assert((ex + (er + rest)).skip(ex.len() as int) =~= er + rest);
        lemma_seq_roundtrip(e, k + 1, rest);
        assert(seq![x] + e.skip(k + 1) =~= e.skip(k));
    }
}

/// An instruction read from bytes encodes back to them.
pub proof fn lemma_instr_reencode(s: Seq<u8>)
    requires
        decode_instr(s) is Some,
    ensures
        ({
            let (i, n) = decode_instr(s)->0;
            &&& 1 <= n <= s.len()
            &&& encodable_instr(i)
            &&& canonical_instr(i)
            &&& encode_instr(i) == s.take(n as int)
        }),
    decreases s.len(), 1nat,
{
    let op = s[0];
    let (i, n) = decode_instr(s)->0;
    if is_plain_op(op) {
        assert(s.take(1) =~= seq![op]);
    } else if is_block_op(op) {
        let t = s.skip(1);
        BlockType::lemma_encode_decoded(t);
        let (bt, nb) = BlockType::spec_decode(t)->0;
        lemma_seq_reencode(s.skip(2));
        let (body, m) = decode_seq(s.skip(2))->0;
        assert(s.take(n as int) =~= seq![op] + t.take(1) + s.skip(2).take(m as int));
    } else if op == 0x05 {
        lemma_seq_reencode(s.skip(1));
        let (body, m) = decode_seq(s.skip(1))->0;
        assert(s.take(n as int) =~= seq![op] + s.skip(1).take(m as int));
    } else if is_index_op(op) {
        lemma_tagged_decoded::<Leb128<u32>>(s);
    } else if op == 0x0e {
        lemma_tagged_decoded::<(Leb128<Vec<LabelIdx>>, LabelIdx)>(s);
    } else if op == 0x11 {
        lemma_tagged_decoded::<(TypeIdx, TableIdx)>(s);
    } else if is_memory_op(op) {
        lemma_tagged_decoded::<Memarg>(s);
    } else if op == 0x41 {
        lemma_tagged_decoded::<Leb128<i32>>(s);
    } else if op == 0x42 {
        lemma_tagged_decoded::<Leb128<i64>>(s);
    } else if op == 0x43 {
        lemma_le32_rewrite(s.skip(1));
        assert(s.take(5) =~= seq![op] + s.skip(1).take(4));
    } else {
        lemma_le64_rewrite(s.skip(1));
        assert(s.take(9) =~= seq![op] + s.skip(1).take(8));
    }
}

/// A sequence read from bytes is closed by its last instruction and encodes back to
/// them.
pub proof fn lemma_seq_reencode(s: Seq<u8>)
    requires
        decode_seq(s) is Some,
    ensures
        ({
            let (e, n) = decode_seq(s)->0;
            &&& 1 <= n <= s.len()
            &&& closed_by_last(e)
            &&& encodable_from(e, 0)
            &&& canonical_from(e, 0)
            &&& encode_from(e, 0) == s.take(n as int)
        }),
    decreases s.len(), 2nat,
{
    let (i, n) = decode_instr(s)->0;
    lemma_instr_reencode(s);
    let (e, total) = decode_seq(s)->0;
    if closes(i) {
        assert(e =~= seq![i]);
        assert(encode_from(e, 1) =~= Seq::<u8>::empty());
        assert(encode_from(e, 0) =~= encode_instr(i));
        assert(closed_by_last(e));
        assert(total == n);
        assert(encodable_from(e, 1));
        assert(canonical_from(e, 1));
    } else {
        let t = s.skip(n as int);
        lemma_seq_reencode(t);
        let (r, m) = decode_seq(t)->0;
        assert(e =~= seq![i] + r);
        lemma_from_cons(i, r, 0);
        assert(s.take(n as int) + t.take(m as int) =~= s.take((n + m) as int));
        assert forall|k: int| 0 <= k < e.len() - 1 implies !closes(#[trigger] e[k]) by {
            if k > 0 {
                assert(e[k] == r[k - 1]);
            }
        }
        assert(e[e.len() - 1] == r[r.len() - 1]);
        assert(closed_by_last(e));
        assert(encodable_from(e, 0));
        assert(canonical_from(e, 0));
        assert(encode_from(e, 0) == s.take((n + m) as int));
        assert(total == n + m);
        assert(t.len() == s.len() - n);
    }
}

/// The instruction without immediates that `op` stands for.
fn plain_instr(op: u8) -> (i: Instr)
    requires
        is_plain_op(op),
    ensures
        instr_model(i) == InstrModel::Plain(op),
{
    match op {
        0x00 => Instr::Unreachable,
        0x01 => Instr::Nop,
        0x0b => Instr::End,
        0x0f => Instr::Return,
        0x1a => Instr::Drop,
        0x1b => Instr::Select,
        0x45 => Instr::I32Eqz,
        0x46 => Instr::I32Eq,
        0x47 => Instr::I32Ne,
        0x48 => Instr::I32LtS,
        0x49 => Instr::I32LtU,
        0x4a => Instr::I32GtS,
        0x4b => Instr::I32GtU,
        0x4c => Instr::I32LeS,
        0x4d => Instr::I32LeU,
        0x4e => Instr::I32GeS,
        0x4f => Instr::I32GeU,
        0x50 => Instr::I64Eqz,
        0x51 => Instr::I64Eq,
        0x52 => Instr::I64Ne,
        0x53 => Instr::I64LtS,
        0x54 => Instr::I64LtU,
        0x55 => Instr::I64GtS,
        0x56 => Instr::I64GtU,
        0x57 => Instr::I64LeS,
        0x58 => Instr::I64LeU,
        0x59 => Instr::I64GeS,
        0x5a => Instr::I64GeU,
        0x5b => Instr::F32Eq,
        0x5c => Instr::F32Ne,
        0x5d => Instr::F32Lt,
        0x5e => Instr::F32Gt,
        0x5f => Instr::F32Le,
        0x60 => Instr::F32Ge,
        0x61 => Instr::F64Eq,
        0x62 => Instr::F64Ne,
        0x63 => Instr::F64Lt,
        0x64 => Instr::F64Gt,
        0x65 => Instr::F64Le,
        0x66 => Instr::F64Ge,
        0x67 => Instr::I32Clz,
        0x68 => Instr::I32Ctz,
        0x69 => Instr::I32Popcnt,
        0x6a => Instr::I32Add,
        0x6b => Instr::I32Sub,
        0x6c => Instr::I32Mul,
        0x6d => Instr::I32DivS,
        0x6e => Instr::I32DivU,
        0x6f => Instr::I32RemS,
        0x70 => Instr::I32RemU,
        0x71 => Instr::I32And,
        0x72 => Instr::I32Or,
        0x73 => Instr::I32Xor,
        0x74 => Instr::I32Shl,
        0x75 => Instr::I32ShrS,
        0x76 => Instr::I32ShrU,
        0x77 => Instr::I32Rotl,
        0x78 => Instr::I32Rotr,
        0x79 => Instr::I64Clz,
        0x7a => Instr::I64Ctz,
        0x7b => Instr::I64Popcnt,
        0x7c => Instr::I64Add,
        0x7d => Instr::I64Sub,
        0x7e => Instr::I64Mul,
        0x7f => Instr::I64DivS,
        0x80 => Instr::I64DivU,
        0x81 => Instr::I64RemS,
        0x82 => Instr::I64RemU,
        0x83 => Instr::I64And,
        0x84 => Instr::I64Or,
        0x85 => Instr::I64Xor,
        0x86 => Instr::I64Shl,
        0x87 => Instr::I64ShrS,
        0x88 => Instr::I64ShrU,
        0x89 => Instr::I64Rotl,
        0x8a => Instr::I64Rotr,
        0x8b => Instr::F32Abs,
        0x8c => Instr::F32Neg,
        0x8d => Instr::F32Ceil,
        0x8e => Instr::F32Floor,
        0x8f => Instr::F32Trunc,
        0x90 => Instr::F32Nearest,
        0x91 => Instr::F32Sqrt,
        0x92 => Instr::F32Add,
        0x93 => Instr::F32Sub,
        0x94 => Instr::F32Mul,
        0x95 => Instr::F32Div,
        0x96 => Instr::F32Min,
        0x97 => Instr::F32Max,
        0x98 => Instr::F32Copysign,
        0x99 => Instr::F64Abs,
        0x9a => Instr::F64Neg,
        0x9b => Instr::F64Ceil,
        0x9c => Instr::F64Floor,
        0x9d => Instr::F64Trunc,
        0x9e => Instr::F64Nearest,
        0x9f => Instr::F64Sqrt,
        0xa0 => Instr::F64Add,
        0xa1 => Instr::F64Sub,
        0xa2 => Instr::F64Mul,
        0xa3 => Instr::F64Div,
        0xa4 => Instr::F64Min,
        0xa5 => Instr::F64Max,
        0xa6 => Instr::F64Copysign,
        0xa7 => Instr::I32WrapI64,
        0xa8 => Instr::I32TruncSF32,
        0xa9 => Instr::I32TruncUF32,
        0xaa => Instr::I32TruncSF64,
        0xab => Instr::I32TruncUF64,
        0xac => Instr::I64ExtendSI32,
        0xad => Instr::I64ExtendUI32,
        0xae => Instr::I64TruncSF32,
        0xaf => Instr::I64TruncUF32,
        0xb0 => Instr::I64TruncSF64,
        0xb1 => Instr::I64TruncUF64,
        0xb2 => Instr::F32ConvertSI32,
        0xb3 => Instr::F32ConvertUI32,
        0xb4 => Instr::F32ConvertSI64,
        0xb5 => Instr::F32ConvertUI64,
        0xb6 => Instr::F32DemoteF64,
        0xb7 => Instr::F64ConvertSI32,
        0xb8 => Instr::F64ConvertUI32,
        0xb9 => Instr::F64ConvertSI64,
        0xba => Instr::F64ConvertUI64,
        0xbb => Instr::F64PromoteF32,
        0xbc => Instr::I32ReinterpretF32,
        0xbd => Instr::I64ReinterpretF64,
        0xbe => Instr::F32ReinterpretI32,
        0xbf => Instr::F64ReinterpretI64,
        // no other opcode meets the precondition
        _ => Instr::Nop,
    }
}

/// The opcode of an instruction without immediates.
fn plain_opcode(i: &Instr) -> (op: u8)
    requires
        instr_model(*i) is Plain,
    ensures
        instr_model(*i) == InstrModel::Plain(op),
{
    match i {
        Instr::Unreachable => 0x00,
        Instr::Nop => 0x01,
        Instr::End => 0x0b,
        Instr::Return => 0x0f,
        Instr::Drop => 0x1a,
        Instr::Select => 0x1b,
        Instr::I32Eqz => 0x45,
        Instr::I32Eq => 0x46,
        Instr::I32Ne => 0x47,
        Instr::I32LtS => 0x48,
        Instr::I32LtU => 0x49,
        Instr::I32GtS => 0x4a,
        Instr::I32GtU => 0x4b,
        Instr::I32LeS => 0x4c,
        Instr::I32LeU => 0x4d,
        Instr::I32GeS => 0x4e,
        Instr::I32GeU => 0x4f,
        Instr::I64Eqz => 0x50,
        Instr::I64Eq => 0x51,
        Instr::I64Ne => 0x52,
        Instr::I64LtS => 0x53,
        Instr::I64LtU => 0x54,
        Instr::I64GtS => 0x55,
        Instr::I64GtU => 0x56,
        Instr::I64LeS => 0x57,
        Instr::I64LeU => 0x58,
        Instr::I64GeS => 0x59,
        Instr::I64GeU => 0x5a,
        Instr::F32Eq => 0x5b,
        Instr::F32Ne => 0x5c,
        Instr::F32Lt => 0x5d,
        Instr::F32Gt => 0x5e,
        Instr::F32Le => 0x5f,
        Instr::F32Ge => 0x60,
        Instr::F64Eq => 0x61,
        Instr::F64Ne => 0x62,
        Instr::F64Lt => 0x63,
        Instr::F64Gt => 0x64,
        Instr::F64Le => 0x65,
        Instr::F64Ge => 0x66,
        Instr::I32Clz => 0x67,
        Instr::I32Ctz => 0x68,
        Instr::I32Popcnt => 0x69,
        Instr::I32Add => 0x6a,
        Instr::I32Sub => 0x6b,
        Instr::I32Mul => 0x6c,
        Instr::I32DivS => 0x6d,
        Instr::I32DivU => 0x6e,
        Instr::I32RemS => 0x6f,
        Instr::I32RemU => 0x70,
        Instr::I32And => 0x71,
        Instr::I32Or => 0x72,
        Instr::I32Xor => 0x73,
        Instr::I32Shl => 0x74,
        Instr::I32ShrS => 0x75,
        Instr::I32ShrU => 0x76,
        Instr::I32Rotl => 0x77,
        Instr::I32Rotr => 0x78,
        Instr::I64Clz => 0x79,
        Instr::I64Ctz => 0x7a,
        Instr::I64Popcnt => 0x7b,
        Instr::I64Add => 0x7c,
        Instr::I64Sub => 0x7d,
        Instr::I64Mul => 0x7e,
        Instr::I64DivS => 0x7f,
        Instr::I64DivU => 0x80,
        Instr::I64RemS => 0x81,
        Instr::I64RemU => 0x82,
        Instr::I64And => 0x83,
        Instr::I64Or => 0x84,
        Instr::I64Xor => 0x85,
        Instr::I64Shl => 0x86,
        Instr::I64ShrS => 0x87,
        Instr::I64ShrU => 0x88,
        Instr::I64Rotl => 0x89,
        Instr::I64Rotr => 0x8a,
        Instr::F32Abs => 0x8b,
        Instr::F32Neg => 0x8c,
        Instr::F32Ceil => 0x8d,
        Instr::F32Floor => 0x8e,
        Instr::F32Trunc => 0x8f,
        Instr::F32Nearest => 0x90,
        Instr::F32Sqrt => 0x91,
        Instr::F32Add => 0x92,
        Instr::F32Sub => 0x93,
        Instr::F32Mul => 0x94,
        Instr::F32Div => 0x95,
        Instr::F32Min => 0x96,
        Instr::F32Max => 0x97,
        Instr::F32Copysign => 0x98,
        Instr::F64Abs => 0x99,
        Instr::F64Neg => 0x9a,
        Instr::F64Ceil => 0x9b,
        Instr::F64Floor => 0x9c,
        Instr::F64Trunc => 0x9d,
        Instr::F64Nearest => 0x9e,
        Instr::F64Sqrt => 0x9f,
        Instr::F64Add => 0xa0,
        Instr::F64Sub => 0xa1,
        Instr::F64Mul => 0xa2,
        Instr::F64Div => 0xa3,
        Instr::F64Min => 0xa4,
        Instr::F64Max => 0xa5,
        Instr::F64Copysign => 0xa6,
        Instr::I32WrapI64 => 0xa7,
        Instr::I32TruncSF32 => 0xa8,
        Instr::I32TruncUF32 => 0xa9,
        Instr::I32TruncSF64 => 0xaa,
        Instr::I32TruncUF64 => 0xab,
        Instr::I64ExtendSI32 => 0xac,
        Instr::I64ExtendUI32 => 0xad,
        Instr::I64TruncSF32 => 0xae,
        Instr::I64TruncUF32 => 0xaf,
        Instr::I64TruncSF64 => 0xb0,
        Instr::I64TruncUF64 => 0xb1,
        Instr::F32ConvertSI32 => 0xb2,
        Instr::F32ConvertUI32 => 0xb3,
        Instr::F32ConvertSI64 => 0xb4,
        Instr::F32ConvertUI64 => 0xb5,
        Instr::F32DemoteF64 => 0xb6,
        Instr::F64ConvertSI32 => 0xb7,
        Instr::F64ConvertUI32 => 0xb8,
        Instr::F64ConvertSI64 => 0xb9,
        Instr::F64ConvertUI64 => 0xba,
        Instr::F64PromoteF32 => 0xbb,
        Instr::I32ReinterpretF32 => 0xbc,
        Instr::I64ReinterpretF64 => 0xbd,
        Instr::F32ReinterpretI32 => 0xbe,
        Instr::F64ReinterpretI64 => 0xbf,
        // no other instruction meets the precondition
        _ => 0,
    }
}

/// The instruction with one index that `op` stands for.
fn index_instr(op: u8, x: Leb128<u32>) -> (i: Instr)
    requires
        is_index_op(op),
    ensures
        instr_model(i) == InstrModel::Index(op, x),
{
    match op {
        0x0c => Instr::Br(LabelIdx(x)),
        0x0d => Instr::BrIf(LabelIdx(x)),
        0x10 => Instr::Call(FunctionIdx(x)),
        0x20 => Instr::GetLocal(LocalIdx(x)),
        0x21 => Instr::SetLocal(LocalIdx(x)),
        0x22 => Instr::TeeLocal(LocalIdx(x)),
        0x23 => Instr::GetGlobal(GlobalIdx(x)),
        0x24 => Instr::SetGlobal(GlobalIdx(x)),
        0x3f => Instr::CurrentMemory(MemoryIdx(x)),
        _ => Instr::GrowMemory(MemoryIdx(x)),
    }
}

/// The load or store that `op` stands for.
fn memory_instr(op: u8, ma: Memarg) -> (i: Instr)
    requires
        is_memory_op(op),
    ensures
        instr_model(i) == InstrModel::Memory(op, ma),
{
    match op {
        0x28 => Instr::I32Load(ma),
        0x29 => Instr::I64Load(ma),
        0x2a => Instr::F32Load(ma),
        0x2b => Instr::F64Load(ma),
        0x2c => Instr::I32Load8S(ma),
        0x2d => Instr::I32Load8U(ma),
        0x2e => Instr::I32Load16S(ma),
        0x2f => Instr::I32Load16U(ma),
        0x30 => Instr::I64Load8S(ma),
        0x31 => Instr::I64Load8U(ma),
        0x32 => Instr::I64Load16S(ma),
        0x33 => Instr::I64Load16U(ma),
        0x34 => Instr::I64Load32S(ma),
        0x35 => Instr::I64Load32U(ma),
        0x36 => Instr::I32Store(ma),
        0x37 => Instr::I64Store(ma),
        0x38 => Instr::F32Store(ma),
        0x39 => Instr::F64Store(ma),
        0x3a => Instr::I32Store8(ma),
        0x3b => Instr::I32Store16(ma),
        0x3c => Instr::I64Store8(ma),
        0x3d => Instr::I64Store16(ma),
        _ => Instr::I64Store32(ma),
    }
}

/// The block, loop or if that `op` stands for.
fn block_instr(op: u8, bt: BlockType, body: Expr) -> (i: Instr)
    requires
        is_block_op(op),
    ensures
        instr_model(i) == InstrModel::Block(op, bt, expr_models(body.0@, 0)),
{
    match op {
        0x02 => Instr::Block(bt, body),
        0x03 => Instr::Loop(bt, body),
        _ => Instr::If(bt, body),
    }
}

/// The models of `v` from index `k` on, one for each instruction.
proof fn lemma_expr_models(v: Seq<Instr>, k: int)
    requires
        0 <= k <= v.len(),
    ensures
        expr_models(v, k) == v.skip(k).map_values(|x: Instr| instr_model(x)),
    decreases v.len() - k,
{
    if k < v.len() {
        lemma_expr_models(v, k + 1);
    }
    assert(expr_models(v, k) =~= v.skip(k).map_values(|x: Instr| instr_model(x)));
}

proof fn lemma_expr_models_push(v: Seq<Instr>, x: Instr)
    ensures
        expr_models(v.push(x), 0) == expr_models(v, 0) + seq![instr_model(x)],
{
    lemma_expr_models(v, 0);
    lemma_expr_models(v.push(x), 0);
    assert(expr_models(v.push(x), 0) =~= expr_models(v, 0) + seq![instr_model(x)]);
}

fn push_le32(out: &mut Vec<u8>, b: u32)
    ensures
        final(out)@ == old(out)@ + le_bytes_32(b),
{
    out.push((b & 0xff) as u8);
    out.push(((b >> 8u32) & 0xff) as u8);
    out.push(((b >> 16u32) & 0xff) as u8);
    out.push(((b >> 24u32) & 0xff) as u8);
    assert(out@ =~= old(out)@ + le_bytes_32(b));
}

fn push_le64(out: &mut Vec<u8>, b: u64)
    ensures
        final(out)@ == old(out)@ + le_bytes_64(b),
{
    push_le32(out, (b & 0xffff_ffff) as u32);
    push_le32(out, (b >> 32u64) as u32);
    assert(out@ =~= old(out)@ + le_bytes_64(b));
}

fn read_le32(bytes: &[u8]) -> (v: u32)
    requires
        bytes.len() >= 4,
    ensures
        v == le_value_32(bytes@),
{
    (bytes[0] as u32) | ((bytes[1] as u32) << 8u32) | ((bytes[2] as u32) << 16u32) | ((
    bytes[3] as u32) << 24u32)
}

fn read_le64(bytes: &[u8]) -> (v: u64)
    requires
        bytes.len() >= 8,
    ensures
        v == le_value_64(bytes@),
{
    let lo = read_le32(bytes);
    let high_bytes = &bytes[4..bytes.len()];
    assert(high_bytes@ =~= bytes@.skip(4));
    let hi = read_le32(high_bytes);
    (lo as u64) | ((hi as u64) << 32u64)
}

fn plain_op(op: u8) -> (b: bool)
    ensures
        b == is_plain_op(op),
{
    op == 0x00 || op == 0x01 || op == 0x0b || op == 0x0f || op == 0x1a || op == 0x1b || (0x45
        <= op && op <= 0xbf)
}

fn closes_exec(i: &Instr) -> (b: bool)
    ensures
        b == closes(instr_model(*i)),
{
    match i {
        Instr::End => true,
        Instr::Else(_) => true,
        _ => false,
    }
}

/// Decodes the instruction at the front of `bytes`.
fn decode_one(bytes: &[u8]) -> (r: Option<(Instr, usize)>)
    ensures
        match r {
            Some((i, n)) => decode_instr(bytes@) == Some((instr_model(i), n as nat)),
            None => decode_instr(bytes@) is None,
        },
    decreases bytes@.len(), 1nat,
{
    if bytes.len() == 0 {
        return None;
    }
    let op = bytes[0];
    let len = bytes.len();
    let t = &bytes[1..len];
    assert(t@ =~= bytes@.skip(1));
    if plain_op(op) {
        Some((plain_instr(op), 1))
    } else if 0x02 <= op && op <= 0x04 {
        if len < 2 {
            return None;
        }
        let bt = match BlockType::decode(t) {
            Some((bt, _)) => bt,
            None => return None,
        };
        let body_bytes = &bytes[2..len];
        assert(body_bytes@ =~= bytes@.skip(2));
        match decode_seq_exec(body_bytes) {
            Some((body, m)) => {
                proof {
                    lemma_seq_reencode(body_bytes@);
                }
                Some((block_instr(op, bt, Expr(body)), m + 2))
            },
            None => None,
        }
    } else if op == 0x05 {
        match decode_seq_exec(t) {
            Some((body, m)) => {
                proof {
                    lemma_seq_reencode(t@);
                }
                Some((Instr::Else(Expr(body)), m + 1))
            },
            None => None,
        }
    } else if op == 0x0c || op == 0x0d || op == 0x10 || (0x20 <= op && op <= 0x24) || op == 0x3f
        || op == 0x40 {
        match decode_tagged::<Leb128<u32>>(bytes) {
            Some((x, n)) => Some((index_instr(op, x), n)),
            None => None,
        }
    } else if op == 0x0e {
        match decode_tagged::<(Leb128<Vec<LabelIdx>>, LabelIdx)>(bytes) {
            Some((p, n)) => Some((Instr::BrTable(p.0, p.1), n)),
            None => None,
        }
    } else if op == 0x11 {
        match decode_tagged::<(TypeIdx, TableIdx)>(bytes) {
            Some((p, n)) => Some((Instr::CallIndirect(p.0, p.1), n)),
            None => None,
        }
    } else if 0x28 <= op && op <= 0x3e {
        match decode_tagged::<Memarg>(bytes) {
            Some((ma, n)) => Some((memory_instr(op, ma), n)),
            None => None,
        }
    } else if op == 0x41 {
        match decode_tagged::<Leb128<i32>>(bytes) {
            Some((c, n)) => Some((Instr::I32Const(c), n)),
            None => None,
        }
    } else if op == 0x42 {
        match decode_tagged::<Leb128<i64>>(bytes) {
            Some((c, n)) => Some((Instr::I64Const(c), n)),
            None => None,
        }
    } else if op == 0x43 {
        if len >= 5 {
            Some((Instr::F32Const(read_le32(t)), 5))
        } else {
            None
        }
    } else if op == 0x44 {
        if len >= 9 {
            Some((Instr::F64Const(read_le64(t)), 9))
        } else {
            None
        }
    } else {
        None
    }
}

/// Decodes the sequence of instructions at the front of `bytes`, up to and
/// including the first `End` or `Else`.
fn decode_seq_exec(bytes: &[u8]) -> (r: Option<(Vec<Instr>, usize)>)
    ensures
        match r {
            Some((v, n)) => decode_seq(bytes@) == Some((expr_models(v@, 0), n as nat)),
            None => decode_seq(bytes@) is None,
        },
    decreases bytes@.len(), 2nat,
{
    let mut items: Vec<Instr> = Vec::new();
    let mut pos: usize = 0;
    assert(bytes@.skip(0) =~= bytes@);
    assert(expr_models(items@, 0) + Seq::<InstrModel>::empty() =~= Seq::<InstrModel>::empty());
    loop
        invariant
            pos <= bytes.len(),
            decode_seq(bytes@) == match decode_seq(bytes@.skip(pos as int)) {
                Some((r, m)) => Some((expr_models(items@, 0) + r, (pos + m) as nat)),
                None => None,
            },
        decreases bytes.len() - pos,
    {
        let rest = &bytes[pos..bytes.len()];
        assert(rest@ =~= bytes@.skip(pos as int));
        match decode_one(rest) {
            None => return None,
            Some((x, n)) => {
                proof {
                    lemma_instr_reencode(rest@);
                    lemma_expr_models_push(items@, x);
                }
                let c = closes_exec(&x);
                let ghost before = expr_models(items@, 0);
                items.push(x);
                if c {
                    return Some((items, pos + n));
                }
                proof {
                    assert(rest@.skip(n as int) =~= bytes@.skip((pos + n) as int));
                    assert forall|r: Seq<InstrModel>|
                        #![trigger before + (seq![instr_model(x)] + r)]
                        before + (seq![instr_model(x)] + r) =~= expr_models(items@, 0) + r by {}
                }
                pos = pos + n;
            },
        }
    }
}

/// Appends the encoding of an instruction.
#[verifier::spinoff_prover]
#[verifier::rlimit(40)]
fn encode_one(i: &Instr, out: &mut Vec<u8>) -> (r: Result<(), EncodeError>)
    ensures
        r is Ok <==> encodable_instr(instr_model(*i)),
        r is Ok ==> final(out)@ == old(out)@ + encode_instr(instr_model(*i)),
    decreases *i,
{
    match i {
        Instr::Block(bt, e) => {
            out.push(0x02);
            let _ = bt.encode(out);
            let ghost mid = out@;
            let r = encode_seq(&e.0, out);
            assert(r is Ok ==> out@ =~= old(out)@ + encode_instr(instr_model(*i)));
            r
        },
        Instr::Loop(bt, e) => {
            out.push(0x03);
            let _ = bt.encode(out);
            let ghost mid = out@;
            let r = encode_seq(&e.0, out);
            assert(r is Ok ==> out@ =~= old(out)@ + encode_instr(instr_model(*i)));
            r
        },
        Instr::If(bt, e) => {
            out.push(0x04);
            let _ = bt.encode(out);
            let ghost mid = out@;
            let r = encode_seq(&e.0, out);
            assert(r is Ok ==> out@ =~= old(out)@ + encode_instr(instr_model(*i)));
            r
        },
        Instr::Else(e) => {
            out.push(0x05);
            let r = encode_seq(&e.0, out);
            assert(r is Ok ==> out@ =~= old(out)@ + encode_instr(instr_model(*i)));
            r
        },
        Instr::Br(x) => {
            out.push(0x0c);
            x.encode(out)
        },
        Instr::BrIf(x) => {
            out.push(0x0d);
            x.encode(out)
        },
        Instr::Call(x) => {
            out.push(0x10);
            x.encode(out)
        },
        Instr::GetLocal(x) => {
            out.push(0x20);
            x.encode(out)
        },
        Instr::SetLocal(x) => {
            out.push(0x21);
            x.encode(out)
        },
        Instr::TeeLocal(x) => {
            out.push(0x22);
            x.encode(out)
        },
        Instr::GetGlobal(x) => {
            out.push(0x23);
            x.encode(out)
        },
        Instr::SetGlobal(x) => {
            out.push(0x24);
            x.encode(out)
        },
        Instr::CurrentMemory(x) => {
            out.push(0x3f);
            x.encode(out)
        },
        Instr::GrowMemory(x) => {
            out.push(0x40);
            x.encode(out)
        },
        Instr::BrTable(ts, d) => {
            out.push(0x0e);
            match ts.encode(out) {
                Ok(()) => {},
                Err(e) => return Err(e),
            }
            let _ = d.encode(out);
            assert(out@ =~= old(out)@ + encode_instr(instr_model(*i)));
            Ok(())
        },
        Instr::CallIndirect(t, tb) => {
            out.push(0x11);
            let _ = t.encode(out);
            let _ = tb.encode(out);
            assert(out@ =~= old(out)@ + encode_instr(instr_model(*i)));
            Ok(())
        },
        Instr::I32Load(ma) => {
            out.push(0x28);
            ma.encode(out)
        },
        Instr::I64Load(ma) => {
            out.push(0x29);
            ma.encode(out)
        },
        Instr::F32Load(ma) => {
            out.push(0x2a);
            ma.encode(out)
        },
        Instr::F64Load(ma) => {
            out.push(0x2b);
            ma.encode(out)
        },
        Instr::I32Load8S(ma) => {
            out.push(0x2c);
            ma.encode(out)
        },
        Instr::I32Load8U(ma) => {
            out.push(0x2d);
            ma.encode(out)
        },
        Instr::I32Load16S(ma) => {
            out.push(0x2e);
            ma.encode(out)
        },
        Instr::I32Load16U(ma) => {
            out.push(0x2f);
            ma.encode(out)
        },
        Instr::I64Load8S(ma) => {
            out.push(0x30);
            ma.encode(out)
        },
        Instr::I64Load8U(ma) => {
            out.push(0x31);
            ma.encode(out)
        },
        Instr::I64Load16S(ma) => {
            out.push(0x32);
            ma.encode(out)
        },
        Instr::I64Load16U(ma) => {
            out.push(0x33);
            ma.encode(out)
        },
        Instr::I64Load32S(ma) => {
            out.push(0x34);
            ma.encode(out)
        },
        Instr::I64Load32U(ma) => {
            out.push(0x35);
            ma.encode(out)
        },
        Instr::I32Store(ma) => {
            out.push(0x36);
            ma.encode(out)
        },
        Instr::I64Store(ma) => {
            out.push(0x37);
            ma.encode(out)
        },
        Instr::F32Store(ma) => {
            out.push(0x38);
            ma.encode(out)
        },
        Instr::F64Store(ma) => {
            out.push(0x39);
            ma.encode(out)
        },
        Instr::I32Store8(ma) => {
            out.push(0x3a);
            ma.encode(out)
        },
        Instr::I32Store16(ma) => {
            out.push(0x3b);
            ma.encode(out)
        },
        Instr::I64Store8(ma) => {
            out.push(0x3c);
            ma.encode(out)
        },
        Instr::I64Store16(ma) => {
            out.push(0x3d);
            ma.encode(out)
        },
        Instr::I64Store32(ma) => {
            out.push(0x3e);
            ma.encode(out)
        },
        Instr::I32Const(c) => {
            out.push(0x41);
            c.encode(out)
        },
        Instr::I64Const(c) => {
            out.push(0x42);
            c.encode(out)
        },
        Instr::F32Const(b) => {
            out.push(0x43);
            push_le32(out, *b);
            assert(out@ =~= old(out)@ + encode_instr(instr_model(*i)));
            Ok(())
        },
        Instr::F64Const(b) => {
            out.push(0x44);
            push_le64(out, *b);
            assert(out@ =~= old(out)@ + encode_instr(instr_model(*i)));
            Ok(())
        },
        _ => {
            out.push(plain_opcode(i));
            Ok(())
        },
    }
}

/// Appends the encodings of a sequence of instructions.
fn encode_seq(v: &Vec<Instr>, out: &mut Vec<u8>) -> (r: Result<(), EncodeError>)
    ensures
        r is Ok <==> encodable_from(expr_models(v@, 0), 0),
        r is Ok ==> final(out)@ == old(out)@ + encode_from(expr_models(v@, 0), 0),
    decreases *v,
{
    let ghost e = expr_models(v@, 0);
    proof {
        lemma_expr_models(v@, 0);
        assert(v@.skip(0) =~= v@);
    }
    let mut i: usize = 0;
    while i < v.len()
        invariant
            i <= v.len(),
            e == expr_models(v@, 0),
            e == v@.map_values(|x: Instr| instr_model(x)),
            encodable_from(e, 0) == encodable_from(e, i as int),
            out@ + encode_from(e, i as int) == old(out)@ + encode_from(e, 0),
        decreases v.len() - i,
    {
        proof {
            assert(vstd::std_specs::vec::spec_vec_len(v) == v@.len());
        }
        let ghost before = out@;
        match encode_one(&v[i], out) {
            Ok(()) => {},
            Err(err) => {
                return Err(err);
            },
        }
        proof {
            assert(e[i as int] == instr_model(v@[i as int]));
            assert(before + encode_from(e, i as int) =~= out@ + encode_from(e, i + 1));
        }
        i = i + 1;
    }
    proof {
        assert(encode_from(e, i as int) =~= Seq::<u8>::empty());
        assert(out@ =~= out@ + encode_from(e, i as int));
    }
    Ok(())
}

/// An instruction sequence: its instructions, up to and including the closing
/// `End` or `Else`.
impl WasmBinary for Expr {
    type Model = Seq<InstrModel>;

    open spec fn model(&self) -> Seq<InstrModel> {
        expr_models(self.0@, 0)
    }

    open spec fn encodable(m: Seq<InstrModel>) -> bool {
        encodable_from(m, 0)
    }

    open spec fn canonical(m: Seq<InstrModel>) -> bool {
        closed_by_last(m) && canonical_from(m, 0)
    }

    open spec fn spec_encode(m: Seq<InstrModel>) -> Seq<u8> {
        encode_from(m, 0)
    }

    open spec fn spec_decode(s: Seq<u8>) -> Option<(Seq<InstrModel>, nat)> {
        decode_seq(s)
    }

    proof fn lemma_decode_encoded(m: Seq<InstrModel>, rest: Seq<u8>) {
        lemma_seq_roundtrip(m, 0, rest);
        assert(m.skip(0) =~= m);
    }

    proof fn lemma_encode_decoded(s: Seq<u8>) {
        lemma_seq_reencode(s);
    }

    fn decode(bytes: &[u8]) -> (r: Option<(Expr, usize)>) {
        match decode_seq_exec(bytes) {
            Some((v, n)) => Some((Expr(v), n)),
            None => None,
        }
    }

    fn encode(&self, out: &mut Vec<u8>) -> (r: Result<(), EncodeError>) {
        encode_seq(&self.0, out)
    }
}

/// An instruction: its opcode, then its immediates.
impl WasmBinary for Instr {
    type Model = InstrModel;

    open spec fn model(&self) -> InstrModel {
        instr_model(*self)
    }

    open spec fn encodable(m: InstrModel) -> bool {
        encodable_instr(m)
    }

    open spec fn canonical(m: InstrModel) -> bool {
        canonical_instr(m)
    }

    open spec fn spec_encode(m: InstrModel) -> Seq<u8> {
        encode_instr(m)
    }

    open spec fn spec_decode(s: Seq<u8>) -> Option<(InstrModel, nat)> {
        decode_instr(s)
    }

    proof fn lemma_decode_encoded(m: InstrModel, rest: Seq<u8>) {
        lemma_instr_roundtrip(m, rest);
    }

    proof fn lemma_encode_decoded(s: Seq<u8>) {
        lemma_instr_reencode(s);
    }

    fn decode(bytes: &[u8]) -> (r: Option<(Instr, usize)>) {
        decode_one(bytes)
    }

    fn encode(&self, out: &mut Vec<u8>) -> (r: Result<(), EncodeError>) {
        encode_one(self, out)
    }
}

} // verus!
