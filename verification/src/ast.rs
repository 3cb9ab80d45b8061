//! The abstract syntax of a WebAssembly module.
//!
//! The types follow the binary format closely: every count, length and size is a
//! `Leb128`, which remembers how many bytes it was written with, and a section or
//! function body is a `WithSize`, which remembers the byte count of its size.
use vstd::prelude::*;
use crate::leb128::Leb128;

verus! {

/// A module: its sections, in the order in which they stand.
#[derive(Debug, PartialEq, PartialOrd)]
pub struct Module {
    /// The number of sections is not encoded: they run to the end of the input.
    pub sections: Vec<Section>,
}

/// Content preceded by its size in bytes.
///
/// The size itself is not kept, since transformations of the content change it;
/// only the number of bytes that its LEB128 encoding took, so that decoding and
/// encoding the size give back the same bytes.
#[derive(Debug, Clone, PartialEq, PartialOrd)]
pub struct WithSize<T> {
    pub size: Leb128<()>,
    pub content: T,
}

impl<T> WithSize<T> {
    /// The content.
    pub fn deref(&self) -> (r: &T)
        ensures
            *r == self.content,
    {
        &self.content
    }

    /// The content, to change in place; the byte count of the size stays.
    pub fn deref_mut(&mut self) -> (r: &mut T)
        ensures
            *r == old(self).content,
            *final(self) == (WithSize { size: old(self).size, content: *final(r) }),
    {
        &mut self.content
    }
}

/// Content with no stored byte count for its size: it is written in as few bytes
/// as it needs.
impl<T> From<T> for WithSize<T> {
    fn from(content: T) -> (r: Self) {
        WithSize { size: Leb128 { value: (), byte_count: 1 }, content }
    }
}

impl<T> vstd::std_specs::convert::FromSpecImpl<T> for WithSize<T> {
    open spec fn obeys_from_spec() -> bool {
        true
    }

    open spec fn from_spec(v: T) -> Self {
        WithSize { size: Leb128 { value: (), byte_count: 1 }, content: v }
    }
}

/// Content that is itself counted, with no stored byte counts: both the size and
/// the count are written in as few bytes as they need.
impl<T> From<T> for WithSize<Leb128<T>> {
    fn from(content: T) -> (r: Self) {
        WithSize {
            size: Leb128 { value: (), byte_count: 1 },
            content: Leb128 { value: content, byte_count: 1 },
        }
    }
}

impl<T> vstd::std_specs::convert::FromSpecImpl<T> for WithSize<Leb128<T>> {
    open spec fn obeys_from_spec() -> bool {
        true
    }

    open spec fn from_spec(v: T) -> Self {
        WithSize {
            size: Leb128 { value: (), byte_count: 1 },
            content: Leb128 { value: v, byte_count: 1 },
        }
    }
}

/* Sections */

/// A section, identified in the binary format by its id byte (0 to 11).
#[derive(Debug, PartialEq, PartialOrd)]
pub enum Section {
    Custom(Leb128<Vec<u8>>),
    Type(WithSize<Leb128<Vec<FuncType>>>),
    Import(WithSize<Leb128<Vec<Import>>>),
    Function(WithSize<Leb128<Vec<TypeIdx>>>),
    Table(WithSize<Leb128<Vec<TableType>>>),
    Memory(WithSize<Leb128<Vec<MemoryType>>>),
    Global(WithSize<Leb128<Vec<Global>>>),
    Export(WithSize<Leb128<Vec<Export>>>),
    Start(WithSize<FunctionIdx>),
    Element(WithSize<Leb128<Vec<Element>>>),
    Code(WithSize<Leb128<Vec<WithSize<Function>>>>),
    Data(WithSize<Leb128<Vec<Data>>>),
}

#[derive(Debug, PartialEq, PartialOrd)]
pub struct Global {
    pub type_: GlobalType,
    pub init: Expr,
}

#[derive(Debug, PartialEq, PartialOrd)]
pub struct Element {
    /// Always 0 in WebAssembly version 1.
    pub table: TableIdx,
    pub offset: Expr,
    pub init: Leb128<Vec<FunctionIdx>>,
}

#[derive(Debug, PartialEq, PartialOrd)]
pub struct Data {
    /// Always 0 in WebAssembly version 1.
    pub memory: MemoryIdx,
    pub offset: Expr,
    pub init: Leb128<Vec<u8>>,
}

#[derive(Debug, Clone, PartialEq, PartialOrd)]
pub struct Import {
    pub module: Leb128<String>,
    pub name: Leb128<String>,
    pub type_: ImportType,
}

#[derive(Debug, Clone, PartialEq, PartialOrd)]
pub struct Export {
    pub name: Leb128<String>,
    pub type_: ExportType,
}

/* Types */

#[derive(Debug, Clone, Copy, PartialEq, PartialOrd)]
pub enum ValType {
    I32,
    I64,
    F32,
    F64,
}

/// A function type; its encoding starts with the byte `0x60`.
#[derive(Debug, Clone, PartialEq, PartialOrd)]
pub struct FuncType {
    pub params: Leb128<Vec<ValType>>,
    pub results: Leb128<Vec<ValType>>,
}

/// The result type of a block: none (the byte `0x40`) or one value type.
#[derive(Debug, Clone, Copy, PartialEq, PartialOrd)]
pub struct BlockType(pub Option<ValType>);

#[derive(Debug, Clone, Copy, PartialEq, PartialOrd)]
pub enum Limits {
    Min(Leb128<u32>),
    MinMax(Leb128<u32>, Leb128<u32>),
}

#[derive(Debug, Clone, Copy, PartialEq, PartialOrd)]
pub struct TableType(pub ElemType, pub Limits);

#[derive(Debug, Clone, Copy, PartialEq, PartialOrd)]
pub enum ElemType {
    Anyfunc,
}

#[derive(Debug, Clone, Copy, PartialEq, PartialOrd)]
pub struct MemoryType(pub Limits);

#[derive(Debug, Clone, Copy, PartialEq, PartialOrd)]
pub struct GlobalType(pub ValType, pub Mut);

#[derive(Debug, Clone, Copy, PartialEq, PartialOrd)]
pub enum Mut {
    Const,
    Var,
}

#[derive(Debug, Clone, Copy, PartialEq, PartialOrd)]
pub enum ImportType {
    Function(TypeIdx),
    Table(TableType),
    Memory(MemoryType),
    Global(GlobalType),
}

#[derive(Debug, Clone, Copy, PartialEq, PartialOrd)]
pub enum ExportType {
    Function(FunctionIdx),
    Table(TableIdx),
    Memory(MemoryIdx),
    Global(GlobalIdx),
}

/* Indices */

#[derive(Debug, Clone, Copy, PartialEq, PartialOrd)]
pub struct TypeIdx(pub Leb128<u32>);

#[derive(Debug, Clone, Copy, PartialEq, PartialOrd)]
pub struct FunctionIdx(pub Leb128<u32>);

#[derive(Debug, Clone, Copy, PartialEq, PartialOrd)]
pub struct TableIdx(pub Leb128<u32>);

#[derive(Debug, Clone, Copy, PartialEq, PartialOrd)]
pub struct MemoryIdx(pub Leb128<u32>);

#[derive(Debug, Clone, Copy, PartialEq, PartialOrd)]
pub struct GlobalIdx(pub Leb128<u32>);

#[derive(Debug, Clone, Copy, PartialEq, PartialOrd)]
pub struct LocalIdx(pub Leb128<u32>);

#[derive(Debug, Clone, Copy, PartialEq, PartialOrd)]
pub struct LabelIdx(pub Leb128<u32>);

/* Code */

#[derive(Debug, PartialEq, PartialOrd)]
pub struct Function {
    pub locals: Leb128<Vec<Locals>>,
    pub body: Expr,
}

#[derive(Debug, Clone, Copy, PartialEq, PartialOrd)]
pub struct Locals {
    pub count: Leb128<u32>,
    pub type_: ValType,
}

/// A sequence of instructions, up to and including the `End` (or `Else`) that
/// closes it. Its number of instructions is not encoded.
#[derive(Debug, PartialEq, PartialOrd)]
pub struct Expr(pub Vec<Instr>);

/// An instruction. `Block`, `Loop`, `If` and `Else` hold the instructions they
/// enclose; `F32Const` and `F64Const` hold the bits of their constant.
#[derive(Debug, PartialEq, PartialOrd)]
pub enum Instr {
    Unreachable,
    Nop,
    Block(BlockType, Expr),
    Loop(BlockType, Expr),
    If(BlockType, Expr),
    Else(Expr),
    End,
    Br(LabelIdx),
    BrIf(LabelIdx),
    BrTable(Leb128<Vec<LabelIdx>>, LabelIdx),
    Return,
    Call(FunctionIdx),
    CallIndirect(TypeIdx, TableIdx),
    Drop,
    Select,
    GetLocal(LocalIdx),
    SetLocal(LocalIdx),
    TeeLocal(LocalIdx),
    GetGlobal(GlobalIdx),
    SetGlobal(GlobalIdx),
    I32Load(Memarg),
    I64Load(Memarg),
    F32Load(Memarg),
    F64Load(Memarg),
    I32Load8S(Memarg),
    I32Load8U(Memarg),
    I32Load16S(Memarg),
    I32Load16U(Memarg),
    I64Load8S(Memarg),
    I64Load8U(Memarg),
    I64Load16S(Memarg),
    I64Load16U(Memarg),
    I64Load32S(Memarg),
    I64Load32U(Memarg),
    I32Store(Memarg),
    I64Store(Memarg),
    F32Store(Memarg),
    F64Store(Memarg),
    I32Store8(Memarg),
    I32Store16(Memarg),
    I64Store8(Memarg),
    I64Store16(Memarg),
    I64Store32(Memarg),
    CurrentMemory(MemoryIdx),
    GrowMemory(MemoryIdx),
    I32Const(Leb128<i32>),
    I64Const(Leb128<i64>),
    F32Const(u32),
    F64Const(u64),
    I32Eqz,
    I32Eq,
    I32Ne,
    I32LtS,
    I32LtU,
    I32GtS,
    I32GtU,
    I32LeS,
    I32LeU,
    I32GeS,
    I32GeU,
    I64Eqz,
    I64Eq,
    I64Ne,
    I64LtS,
    I64LtU,
    I64GtS,
    I64GtU,
    I64LeS,
    I64LeU,
    I64GeS,
    I64GeU,
    F32Eq,
    F32Ne,
    F32Lt,
    F32Gt,
    F32Le,
    F32Ge,
    F64Eq,
    F64Ne,
    F64Lt,
    F64Gt,
    F64Le,
    F64Ge,
    I32Clz,
    I32Ctz,
    I32Popcnt,
    I32Add,
    I32Sub,
    I32Mul,
    I32DivS,
    I32DivU,
    I32RemS,
    I32RemU,
    I32And,
    I32Or,
    I32Xor,
    I32Shl,
    I32ShrS,
    I32ShrU,
    I32Rotl,
    I32Rotr,
    I64Clz,
    I64Ctz,
    I64Popcnt,
    I64Add,
    I64Sub,
    I64Mul,
    I64DivS,
    I64DivU,
    I64RemS,
    I64RemU,
    I64And,
    I64Or,
    I64Xor,
    I64Shl,
    I64ShrS,
    I64ShrU,
    I64Rotl,
    I64Rotr,
    F32Abs,
    F32Neg,
    F32Ceil,
    F32Floor,
    F32Trunc,
    F32Nearest,
    F32Sqrt,
    F32Add,
    F32Sub,
    F32Mul,
    F32Div,
    F32Min,
    F32Max,
    F32Copysign,
    F64Abs,
    F64Neg,
    F64Ceil,
    F64Floor,
    F64Trunc,
    F64Nearest,
    F64Sqrt,
    F64Add,
    F64Sub,
    F64Mul,
    F64Div,
    F64Min,
    F64Max,
    F64Copysign,
    I32WrapI64,
    I32TruncSF32,
    I32TruncUF32,
    I32TruncSF64,
    I32TruncUF64,
    I64ExtendSI32,
    I64ExtendUI32,
    I64TruncSF32,
    I64TruncUF32,
    I64TruncSF64,
    I64TruncUF64,
    F32ConvertSI32,
    F32ConvertUI32,
    F32ConvertSI64,
    F32ConvertUI64,
    F32DemoteF64,
    F64ConvertSI32,
    F64ConvertUI32,
    F64ConvertSI64,
    F64ConvertUI64,
    F64PromoteF32,
    I32ReinterpretF32,
    I64ReinterpretF64,
    F32ReinterpretI32,
    F64ReinterpretI64,
}

#[derive(Debug, Clone, Copy, PartialEq, PartialOrd)]
pub struct Memarg {
    pub alignment: Leb128<u32>,
    pub offset: Leb128<u32>,
}

} // verus!
