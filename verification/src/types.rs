//! The encodings of types, limits, indices and the other small parts of a module.
use vstd::prelude::*;
use crate::ast::{
    BlockType, ElemType, ExportType, FuncType, FunctionIdx, GlobalIdx, GlobalType, ImportType,
    LabelIdx, Limits, LocalIdx, Locals, Memarg, MemoryIdx, MemoryType, Mut, TableIdx, TableType,
    TypeIdx, ValType,
};
use crate::binary::{
    EncodeError, WasmBinary, decode_tagged, lemma_tagged_decoded, lemma_tagged_encoded,
};
use crate::leb128::Leb128;

verus! {

impl ValType {
    /// The byte that stands for the value type.
    pub open spec fn tag(self) -> u8 {
        match self {
            ValType::I32 => 0x7f,
            ValType::I64 => 0x7e,
            ValType::F32 => 0x7d,
            ValType::F64 => 0x7c,
        }
    }

    /// The value type that a byte stands for.
    pub open spec fn from_tag(b: u8) -> Option<ValType> {
        if b == 0x7f {
            Some(ValType::I32)
        } else if b == 0x7e {
            Some(ValType::I64)
        } else if b == 0x7d {
            Some(ValType::F32)
        } else if b == 0x7c {
            Some(ValType::F64)
        } else {
            None
        }
    }
}

impl WasmBinary for ValType {
    type Model = ValType;

    open spec fn model(&self) -> ValType {
        *self
    }

    open spec fn encodable(m: ValType) -> bool {
        true
    }

    open spec fn canonical(m: ValType) -> bool {
        true
    }

    open spec fn spec_encode(m: ValType) -> Seq<u8> {
        seq![m.tag()]
    }

    open spec fn spec_decode(s: Seq<u8>) -> Option<(ValType, nat)> {
        if s.len() >= 1 {
            match ValType::from_tag(s[0]) {
                Some(v) => Some((v, 1)),
                None => None,
            }
        } else {
            None
        }
    }

    proof fn lemma_decode_encoded(m: ValType, rest: Seq<u8>) {
    }

    proof fn lemma_encode_decoded(s: Seq<u8>) {
        assert(s.take(1) =~= seq![s[0]]);
    }

    fn decode(bytes: &[u8]) -> (r: Option<(ValType, usize)>) {
        if bytes.len() == 0 {
            return None;
        }
        match bytes[0] {
            0x7f => Some((ValType::I32, 1)),
            0x7e => Some((ValType::I64, 1)),
            0x7d => Some((ValType::F32, 1)),
            0x7c => Some((ValType::F64, 1)),
            _ => None,
        }
    }

    fn encode(&self, out: &mut Vec<u8>) -> (r: Result<(), EncodeError>) {
        out.push(
            match self {
            ValType::I32 => 0x7f,
            ValType::I64 => 0x7e,
            ValType::F32 => 0x7d,
            ValType::F64 => 0x7c,
            },
        );
        Ok(())
    }
}

impl Mut {
    /// The byte that stands for the mutability.
    pub open spec fn tag(self) -> u8 {
        match self {
            Mut::Const => 0x0,
            Mut::Var => 0x1,
        }
    }

    /// The mutability that a byte stands for.
    pub open spec fn from_tag(b: u8) -> Option<Mut> {
        if b == 0x0 {
            Some(Mut::Const)
        } else if b == 0x1 {
            Some(Mut::Var)
        } else {
            None
        }
    }
}

impl WasmBinary for Mut {
    type Model = Mut;

    open spec fn model(&self) -> Mut {
        *self
    }

    open spec fn encodable(m: Mut) -> bool {
        true
    }

    open spec fn canonical(m: Mut) -> bool {
        true
    }

    open spec fn spec_encode(m: Mut) -> Seq<u8> {
        seq![m.tag()]
    }

    open spec fn spec_decode(s: Seq<u8>) -> Option<(Mut, nat)> {
        if s.len() >= 1 {
            match Mut::from_tag(s[0]) {
                Some(v) => Some((v, 1)),
                None => None,
            }
        } else {
            None
        }
    }

    proof fn lemma_decode_encoded(m: Mut, rest: Seq<u8>) {
    }

    proof fn lemma_encode_decoded(s: Seq<u8>) {
        assert(s.take(1) =~= seq![s[0]]);
    }

    fn decode(bytes: &[u8]) -> (r: Option<(Mut, usize)>) {
        if bytes.len() == 0 {
            return None;
        }
        match bytes[0] {
            0x0 => Some((Mut::Const, 1)),
            0x1 => Some((Mut::Var, 1)),
            _ => None,
        }
    }

    fn encode(&self, out: &mut Vec<u8>) -> (r: Result<(), EncodeError>) {
        out.push(
            match self {
            Mut::Const => 0x0,
            Mut::Var => 0x1,
            },
        );
        Ok(())
    }
}

impl ElemType {
    /// The byte that stands for the element type.
    pub open spec fn tag(self) -> u8 {
        match self {
            ElemType::Anyfunc => 0x70,
        }
    }

    /// The element type that a byte stands for.
    pub open spec fn from_tag(b: u8) -> Option<ElemType> {
        if b == 0x70 {
            Some(ElemType::Anyfunc)
        } else {
            None
        }
    }
}

impl WasmBinary for ElemType {
    type Model = ElemType;

    open spec fn model(&self) -> ElemType {
        *self
    }

    open spec fn encodable(m: ElemType) -> bool {
        true
    }

    open spec fn canonical(m: ElemType) -> bool {
        true
    }

    open spec fn spec_encode(m: ElemType) -> Seq<u8> {
        seq![m.tag()]
    }

    open spec fn spec_decode(s: Seq<u8>) -> Option<(ElemType, nat)> {
        if s.len() >= 1 {
            match ElemType::from_tag(s[0]) {
                Some(v) => Some((v, 1)),
                None => None,
            }
        } else {
            None
        }
    }

    proof fn lemma_decode_encoded(m: ElemType, rest: Seq<u8>) {
    }

    proof fn lemma_encode_decoded(s: Seq<u8>) {
        assert(s.take(1) =~= seq![s[0]]);
    }

    fn decode(bytes: &[u8]) -> (r: Option<(ElemType, usize)>) {
        if bytes.len() == 0 {
            return None;
        }
        match bytes[0] {
            0x70 => Some((ElemType::Anyfunc, 1)),
            _ => None,
        }
    }

    fn encode(&self, out: &mut Vec<u8>) -> (r: Result<(), EncodeError>) {
        out.push(
            match self {
            ElemType::Anyfunc => 0x70,
            },
        );
        Ok(())
    }
}

/// A type index: an unsigned 32-bit LEB128 integer.
impl WasmBinary for TypeIdx {
    type Model = TypeIdx;

    open spec fn model(&self) -> TypeIdx {
        *self
    }

    open spec fn encodable(m: TypeIdx) -> bool {
        true
    }

    open spec fn canonical(m: TypeIdx) -> bool {
        <Leb128<u32> as WasmBinary>::canonical(m.0)
    }

    open spec fn spec_encode(m: TypeIdx) -> Seq<u8> {
        <Leb128<u32> as WasmBinary>::spec_encode(m.0)
    }

    open spec fn spec_decode(s: Seq<u8>) -> Option<(TypeIdx, nat)> {
        match <Leb128<u32> as WasmBinary>::spec_decode(s) {
            Some((v, n)) => Some((TypeIdx(v), n)),
            None => None,
        }
    }

    proof fn lemma_decode_encoded(m: TypeIdx, rest: Seq<u8>) {
        <Leb128<u32> as WasmBinary>::lemma_decode_encoded(m.0, rest);
    }

    proof fn lemma_encode_decoded(s: Seq<u8>) {
        <Leb128<u32> as WasmBinary>::lemma_encode_decoded(s);
    }

    fn decode(bytes: &[u8]) -> (r: Option<(TypeIdx, usize)>) {
        match <Leb128<u32> as WasmBinary>::decode(bytes) {
            Some((v, n)) => Some((TypeIdx(v), n)),
            None => None,
        }
    }

    fn encode(&self, out: &mut Vec<u8>) -> (r: Result<(), EncodeError>) {
        self.0.encode(out)
    }
}

/// A function index: an unsigned 32-bit LEB128 integer.
impl WasmBinary for FunctionIdx {
    type Model = FunctionIdx;

    open spec fn model(&self) -> FunctionIdx {
        *self
    }

    open spec fn encodable(m: FunctionIdx) -> bool {
        true
    }

    open spec fn canonical(m: FunctionIdx) -> bool {
        <Leb128<u32> as WasmBinary>::canonical(m.0)
    }

    open spec fn spec_encode(m: FunctionIdx) -> Seq<u8> {
        <Leb128<u32> as WasmBinary>::spec_encode(m.0)
    }

    open spec fn spec_decode(s: Seq<u8>) -> Option<(FunctionIdx, nat)> {
        match <Leb128<u32> as WasmBinary>::spec_decode(s) {
            Some((v, n)) => Some((FunctionIdx(v), n)),
            None => None,
        }
    }

    proof fn lemma_decode_encoded(m: FunctionIdx, rest: Seq<u8>) {
        <Leb128<u32> as WasmBinary>::lemma_decode_encoded(m.0, rest);
    }

    proof fn lemma_encode_decoded(s: Seq<u8>) {
        <Leb128<u32> as WasmBinary>::lemma_encode_decoded(s);
    }

    fn decode(bytes: &[u8]) -> (r: Option<(FunctionIdx, usize)>) {
        match <Leb128<u32> as WasmBinary>::decode(bytes) {
            Some((v, n)) => Some((FunctionIdx(v), n)),
            None => None,
        }
    }

    fn encode(&self, out: &mut Vec<u8>) -> (r: Result<(), EncodeError>) {
        self.0.encode(out)
    }
}

/// A table index: an unsigned 32-bit LEB128 integer.
impl WasmBinary for TableIdx {
    type Model = TableIdx;

    open spec fn model(&self) -> TableIdx {
        *self
    }

    open spec fn encodable(m: TableIdx) -> bool {
        true
    }

    open spec fn canonical(m: TableIdx) -> bool {
        <Leb128<u32> as WasmBinary>::canonical(m.0)
    }

    open spec fn spec_encode(m: TableIdx) -> Seq<u8> {
        <Leb128<u32> as WasmBinary>::spec_encode(m.0)
    }

    open spec fn spec_decode(s: Seq<u8>) -> Option<(TableIdx, nat)> {
        match <Leb128<u32> as WasmBinary>::spec_decode(s) {
            Some((v, n)) => Some((TableIdx(v), n)),
            None => None,
        }
    }

    proof fn lemma_decode_encoded(m: TableIdx, rest: Seq<u8>) {
        <Leb128<u32> as WasmBinary>::lemma_decode_encoded(m.0, rest);
    }

    proof fn lemma_encode_decoded(s: Seq<u8>) {
        <Leb128<u32> as WasmBinary>::lemma_encode_decoded(s);
    }

    fn decode(bytes: &[u8]) -> (r: Option<(TableIdx, usize)>) {
        match <Leb128<u32> as WasmBinary>::decode(bytes) {
            Some((v, n)) => Some((TableIdx(v), n)),
            None => None,
        }
    }

    fn encode(&self, out: &mut Vec<u8>) -> (r: Result<(), EncodeError>) {
        self.0.encode(out)
    }
}

/// A memory index: an unsigned 32-bit LEB128 integer.
impl WasmBinary for MemoryIdx {
    type Model = MemoryIdx;

    open spec fn model(&self) -> MemoryIdx {
        *self
    }

    open spec fn encodable(m: MemoryIdx) -> bool {
        true
    }

    open spec fn canonical(m: MemoryIdx) -> bool {
        <Leb128<u32> as WasmBinary>::canonical(m.0)
    }

    open spec fn spec_encode(m: MemoryIdx) -> Seq<u8> {
        <Leb128<u32> as WasmBinary>::spec_encode(m.0)
    }

    open spec fn spec_decode(s: Seq<u8>) -> Option<(MemoryIdx, nat)> {
        match <Leb128<u32> as WasmBinary>::spec_decode(s) {
            Some((v, n)) => Some((MemoryIdx(v), n)),
            None => None,
        }
    }

    proof fn lemma_decode_encoded(m: MemoryIdx, rest: Seq<u8>) {
        <Leb128<u32> as WasmBinary>::lemma_decode_encoded(m.0, rest);
    }

    proof fn lemma_encode_decoded(s: Seq<u8>) {
        <Leb128<u32> as WasmBinary>::lemma_encode_decoded(s);
    }

    fn decode(bytes: &[u8]) -> (r: Option<(MemoryIdx, usize)>) {
        match <Leb128<u32> as WasmBinary>::decode(bytes) {
            Some((v, n)) => Some((MemoryIdx(v), n)),
            None => None,
        }
    }

    fn encode(&self, out: &mut Vec<u8>) -> (r: Result<(), EncodeError>) {
        self.0.encode(out)
    }
}

/// A global index: an unsigned 32-bit LEB128 integer.
impl WasmBinary for GlobalIdx {
    type Model = GlobalIdx;

    open spec fn model(&self) -> GlobalIdx {
        *self
    }

    open spec fn encodable(m: GlobalIdx) -> bool {
        true
    }

    open spec fn canonical(m: GlobalIdx) -> bool {
        <Leb128<u32> as WasmBinary>::canonical(m.0)
    }

    open spec fn spec_encode(m: GlobalIdx) -> Seq<u8> {
        <Leb128<u32> as WasmBinary>::spec_encode(m.0)
    }

    open spec fn spec_decode(s: Seq<u8>) -> Option<(GlobalIdx, nat)> {
        match <Leb128<u32> as WasmBinary>::spec_decode(s) {
            Some((v, n)) => Some((GlobalIdx(v), n)),
            None => None,
        }
    }

    proof fn lemma_decode_encoded(m: GlobalIdx, rest: Seq<u8>) {
        <Leb128<u32> as WasmBinary>::lemma_decode_encoded(m.0, rest);
    }

    proof fn lemma_encode_decoded(s: Seq<u8>) {
        <Leb128<u32> as WasmBinary>::lemma_encode_decoded(s);
    }

    fn decode(bytes: &[u8]) -> (r: Option<(GlobalIdx, usize)>) {
        match <Leb128<u32> as WasmBinary>::decode(bytes) {
            Some((v, n)) => Some((GlobalIdx(v), n)),
            None => None,
        }
    }

    fn encode(&self, out: &mut Vec<u8>) -> (r: Result<(), EncodeError>) {
        self.0.encode(out)
    }
}

/// A local index: an unsigned 32-bit LEB128 integer.
impl WasmBinary for LocalIdx {
    type Model = LocalIdx;

    open spec fn model(&self) -> LocalIdx {
        *self
    }

    open spec fn encodable(m: LocalIdx) -> bool {
        true
    }

    open spec fn canonical(m: LocalIdx) -> bool {
        <Leb128<u32> as WasmBinary>::canonical(m.0)
    }

    open spec fn spec_encode(m: LocalIdx) -> Seq<u8> {
        <Leb128<u32> as WasmBinary>::spec_encode(m.0)
    }

    open spec fn spec_decode(s: Seq<u8>) -> Option<(LocalIdx, nat)> {
        match <Leb128<u32> as WasmBinary>::spec_decode(s) {
            Some((v, n)) => Some((LocalIdx(v), n)),
            None => None,
        }
    }

    proof fn lemma_decode_encoded(m: LocalIdx, rest: Seq<u8>) {
        <Leb128<u32> as WasmBinary>::lemma_decode_encoded(m.0, rest);
    }

    proof fn lemma_encode_decoded(s: Seq<u8>) {
        <Leb128<u32> as WasmBinary>::lemma_encode_decoded(s);
    }

    fn decode(bytes: &[u8]) -> (r: Option<(LocalIdx, usize)>) {
        match <Leb128<u32> as WasmBinary>::decode(bytes) {
            Some((v, n)) => Some((LocalIdx(v), n)),
            None => None,
        }
    }

    fn encode(&self, out: &mut Vec<u8>) -> (r: Result<(), EncodeError>) {
        self.0.encode(out)
    }
}

/// A label index: an unsigned 32-bit LEB128 integer.
impl WasmBinary for LabelIdx {
    type Model = LabelIdx;

    open spec fn model(&self) -> LabelIdx {
        *self
    }

    open spec fn encodable(m: LabelIdx) -> bool {
        true
    }

    open spec fn canonical(m: LabelIdx) -> bool {
        <Leb128<u32> as WasmBinary>::canonical(m.0)
    }

    open spec fn spec_encode(m: LabelIdx) -> Seq<u8> {
        <Leb128<u32> as WasmBinary>::spec_encode(m.0)
    }

    open spec fn spec_decode(s: Seq<u8>) -> Option<(LabelIdx, nat)> {
        match <Leb128<u32> as WasmBinary>::spec_decode(s) {
            Some((v, n)) => Some((LabelIdx(v), n)),
            None => None,
        }
    }

    proof fn lemma_decode_encoded(m: LabelIdx, rest: Seq<u8>) {
        <Leb128<u32> as WasmBinary>::lemma_decode_encoded(m.0, rest);
    }

    proof fn lemma_encode_decoded(s: Seq<u8>) {
        <Leb128<u32> as WasmBinary>::lemma_encode_decoded(s);
    }

    fn decode(bytes: &[u8]) -> (r: Option<(LabelIdx, usize)>) {
        match <Leb128<u32> as WasmBinary>::decode(bytes) {
            Some((v, n)) => Some((LabelIdx(v), n)),
            None => None,
        }
    }

    fn encode(&self, out: &mut Vec<u8>) -> (r: Result<(), EncodeError>) {
        self.0.encode(out)
    }
}

/// The block type: `0x40` for none, else the byte of its value type.
impl WasmBinary for BlockType {
    type Model = BlockType;

    open spec fn model(&self) -> BlockType {
        *self
    }

    open spec fn encodable(m: BlockType) -> bool {
        true
    }

    open spec fn canonical(m: BlockType) -> bool {
        true
    }

    open spec fn spec_encode(m: BlockType) -> Seq<u8> {
        match m.0 {
            None => seq![0x40u8],
            Some(v) => seq![v.tag()],
        }
    }

    open spec fn spec_decode(s: Seq<u8>) -> Option<(BlockType, nat)> {
        if s.len() == 0 {
            None
        } else if s[0] == 0x40 {
            Some((BlockType(None), 1))
        } else {
            match ValType::from_tag(s[0]) {
                Some(v) => Some((BlockType(Some(v)), 1)),
                None => None,
            }
        }
    }

    proof fn lemma_decode_encoded(m: BlockType, rest: Seq<u8>) {
    }

    proof fn lemma_encode_decoded(s: Seq<u8>) {
        assert(s.take(1) =~= seq![s[0]]);
    }

    fn decode(bytes: &[u8]) -> (r: Option<(BlockType, usize)>) {
        if bytes.len() == 0 {
            return None;
        }
        if bytes[0] == 0x40 {
            Some((BlockType(None), 1))
        } else {
            match ValType::decode(bytes) {
                Some((v, n)) => Some((BlockType(Some(v)), n)),
                None => None,
            }
        }
    }

    fn encode(&self, out: &mut Vec<u8>) -> (r: Result<(), EncodeError>) {
        match self.0 {
            None => {
                out.push(0x40);
                Ok(())
            },
            Some(v) => v.encode(out),
        }
    }
}

/// Limits: `0x00` and a minimum, or `0x01`, a minimum and a maximum.
impl WasmBinary for Limits {
    type Model = Limits;

    open spec fn model(&self) -> Limits {
        *self
    }

    open spec fn encodable(m: Limits) -> bool {
        true
    }

    open spec fn canonical(m: Limits) -> bool {
        match m {
            Limits::Min(a) => <Leb128<u32> as WasmBinary>::canonical(a),
            Limits::MinMax(a, b) => <(Leb128<u32>, Leb128<u32>) as WasmBinary>::canonical((a, b)),
        }
    }

    open spec fn spec_encode(m: Limits) -> Seq<u8> {
        match m {
            Limits::Min(a) => seq![0x00u8] + <Leb128<u32> as WasmBinary>::spec_encode(a),
            Limits::MinMax(a, b) => seq![0x01u8] + <(Leb128<u32>, Leb128<u32>) as WasmBinary>::spec_encode((a, b)),
        }
    }

    open spec fn spec_decode(s: Seq<u8>) -> Option<(Limits, nat)> {
        if s.len() == 0 {
            None
        } else if s[0] == 0x00 {
            match <Leb128<u32> as WasmBinary>::spec_decode(s.skip(1)) {
                Some((a, n)) => Some((Limits::Min(a), n + 1)),
                None => None,
            }
        } else if s[0] == 0x01 {
            match <(Leb128<u32>, Leb128<u32>) as WasmBinary>::spec_decode(s.skip(1)) {
                Some((p, n)) => Some((Limits::MinMax(p.0, p.1), n + 1)),
                None => None,
            }
        } else {
            None
        }
    }

    proof fn lemma_decode_encoded(m: Limits, rest: Seq<u8>) {
        match m {
            Limits::Min(a) => lemma_tagged_encoded::<Leb128<u32>>(0x00, a, rest),
            Limits::MinMax(a, b) => lemma_tagged_encoded::<(Leb128<u32>, Leb128<u32>)>(0x01, (a, b), rest),
        }
    }

    proof fn lemma_encode_decoded(s: Seq<u8>) {
        if s[0] == 0x00 {
            lemma_tagged_decoded::<Leb128<u32>>(s);
        } else {
            lemma_tagged_decoded::<(Leb128<u32>, Leb128<u32>)>(s);
        }
    }

    fn decode(bytes: &[u8]) -> (r: Option<(Limits, usize)>) {
        if bytes.len() == 0 {
            return None;
        }
        if bytes[0] == 0x00 {
            match decode_tagged::<Leb128<u32>>(bytes) {
                Some((a, n)) => Some((Limits::Min(a), n)),
                None => None,
            }
        } else if bytes[0] == 0x01 {
            match decode_tagged::<(Leb128<u32>, Leb128<u32>)>(bytes) {
                Some((p, n)) => Some((Limits::MinMax(p.0, p.1), n)),
                None => None,
            }
        } else {
            None
        }
    }

    fn encode(&self, out: &mut Vec<u8>) -> (r: Result<(), EncodeError>) {
        match self {
            Limits::Min(a) => {
                out.push(0x00);
                a.encode(out)
            },
            Limits::MinMax(a, b) => {
                out.push(0x01);
                let ghost mid = out@;
                let _ = a.encode(out);
                let _ = b.encode(out);
                assert(out@ =~= mid + <(Leb128<u32>, Leb128<u32>) as WasmBinary>::spec_encode((*a, *b)));
                Ok(())
            },
        }
    }
}

/// A table type: its element type, then its limits.
impl WasmBinary for TableType {
    type Model = TableType;

    open spec fn model(&self) -> TableType {
        *self
    }

    open spec fn encodable(m: TableType) -> bool {
        true
    }

    open spec fn canonical(m: TableType) -> bool {
        Limits::canonical(m.1)
    }

    open spec fn spec_encode(m: TableType) -> Seq<u8> {
        <(ElemType, Limits) as WasmBinary>::spec_encode((m.0, m.1))
    }

    open spec fn spec_decode(s: Seq<u8>) -> Option<(TableType, nat)> {
        match <(ElemType, Limits) as WasmBinary>::spec_decode(s) {
            Some((p, n)) => Some((TableType(p.0, p.1), n)),
            None => None,
        }
    }

    proof fn lemma_decode_encoded(m: TableType, rest: Seq<u8>) {
        <(ElemType, Limits) as WasmBinary>::lemma_decode_encoded((m.0, m.1), rest);
    }

    proof fn lemma_encode_decoded(s: Seq<u8>) {
        <(ElemType, Limits) as WasmBinary>::lemma_encode_decoded(s);
    }

    fn decode(bytes: &[u8]) -> (r: Option<(TableType, usize)>) {
        match <(ElemType, Limits) as WasmBinary>::decode(bytes) {
            Some((p, n)) => Some((TableType(p.0, p.1), n)),
            None => None,
        }
    }

    fn encode(&self, out: &mut Vec<u8>) -> (r: Result<(), EncodeError>) {
        let _ = self.0.encode(out);
        self.1.encode(out)
    }
}

/// A memory type: its limits.
impl WasmBinary for MemoryType {
    type Model = MemoryType;

    open spec fn model(&self) -> MemoryType {
        *self
    }

    open spec fn encodable(m: MemoryType) -> bool {
        true
    }

    open spec fn canonical(m: MemoryType) -> bool {
        Limits::canonical(m.0)
    }

    open spec fn spec_encode(m: MemoryType) -> Seq<u8> {
        Limits::spec_encode(m.0)
    }

    open spec fn spec_decode(s: Seq<u8>) -> Option<(MemoryType, nat)> {
        match Limits::spec_decode(s) {
            Some((l, n)) => Some((MemoryType(l), n)),
            None => None,
        }
    }

    proof fn lemma_decode_encoded(m: MemoryType, rest: Seq<u8>) {
        Limits::lemma_decode_encoded(m.0, rest);
    }

    proof fn lemma_encode_decoded(s: Seq<u8>) {
        Limits::lemma_encode_decoded(s);
    }

    fn decode(bytes: &[u8]) -> (r: Option<(MemoryType, usize)>) {
        match Limits::decode(bytes) {
            Some((l, n)) => Some((MemoryType(l), n)),
            None => None,
        }
    }

    fn encode(&self, out: &mut Vec<u8>) -> (r: Result<(), EncodeError>) {
        self.0.encode(out)
    }
}

/// A global type: its value type, then its mutability.
impl WasmBinary for GlobalType {
    type Model = GlobalType;

    open spec fn model(&self) -> GlobalType {
        *self
    }

    open spec fn encodable(m: GlobalType) -> bool {
        true
    }

    open spec fn canonical(m: GlobalType) -> bool {
        true
    }

    open spec fn spec_encode(m: GlobalType) -> Seq<u8> {
        <(ValType, Mut) as WasmBinary>::spec_encode((m.0, m.1))
    }

    open spec fn spec_decode(s: Seq<u8>) -> Option<(GlobalType, nat)> {
        match <(ValType, Mut) as WasmBinary>::spec_decode(s) {
            Some((p, n)) => Some((GlobalType(p.0, p.1), n)),
            None => None,
        }
    }

    proof fn lemma_decode_encoded(m: GlobalType, rest: Seq<u8>) {
        <(ValType, Mut) as WasmBinary>::lemma_decode_encoded((m.0, m.1), rest);
    }

    proof fn lemma_encode_decoded(s: Seq<u8>) {
        <(ValType, Mut) as WasmBinary>::lemma_encode_decoded(s);
    }

    fn decode(bytes: &[u8]) -> (r: Option<(GlobalType, usize)>) {
        match <(ValType, Mut) as WasmBinary>::decode(bytes) {
            Some((p, n)) => Some((GlobalType(p.0, p.1), n)),
            None => None,
        }
    }

    fn encode(&self, out: &mut Vec<u8>) -> (r: Result<(), EncodeError>) {
        let _ = self.0.encode(out);
        self.1.encode(out)
    }
}

/// Locals: how many, then their value type.
impl WasmBinary for Locals {
    type Model = Locals;

    open spec fn model(&self) -> Locals {
        *self
    }

    open spec fn encodable(m: Locals) -> bool {
        true
    }

    open spec fn canonical(m: Locals) -> bool {
        <Leb128<u32> as WasmBinary>::canonical(m.count)
    }

    open spec fn spec_encode(m: Locals) -> Seq<u8> {
        <(Leb128<u32>, ValType) as WasmBinary>::spec_encode((m.count, m.type_))
    }

    open spec fn spec_decode(s: Seq<u8>) -> Option<(Locals, nat)> {
        match <(Leb128<u32>, ValType) as WasmBinary>::spec_decode(s) {
            Some((p, n)) => Some((Locals { count: p.0, type_: p.1 }, n)),
            None => None,
        }
    }

    proof fn lemma_decode_encoded(m: Locals, rest: Seq<u8>) {
        <(Leb128<u32>, ValType) as WasmBinary>::lemma_decode_encoded((m.count, m.type_), rest);
    }

    proof fn lemma_encode_decoded(s: Seq<u8>) {
        <(Leb128<u32>, ValType) as WasmBinary>::lemma_encode_decoded(s);
    }

    fn decode(bytes: &[u8]) -> (r: Option<(Locals, usize)>) {
        match <(Leb128<u32>, ValType) as WasmBinary>::decode(bytes) {
            Some((p, n)) => Some((Locals { count: p.0, type_: p.1 }, n)),
            None => None,
        }
    }

    fn encode(&self, out: &mut Vec<u8>) -> (r: Result<(), EncodeError>) {
        let _ = self.count.encode(out);
        self.type_.encode(out)
    }
}

/// The immediate of a load or store: alignment, then offset.
impl WasmBinary for Memarg {
    type Model = Memarg;

    open spec fn model(&self) -> Memarg {
        *self
    }

    open spec fn encodable(m: Memarg) -> bool {
        true
    }

    open spec fn canonical(m: Memarg) -> bool {
        <(Leb128<u32>, Leb128<u32>) as WasmBinary>::canonical((m.alignment, m.offset))
    }

    open spec fn spec_encode(m: Memarg) -> Seq<u8> {
        <(Leb128<u32>, Leb128<u32>) as WasmBinary>::spec_encode((m.alignment, m.offset))
    }

    open spec fn spec_decode(s: Seq<u8>) -> Option<(Memarg, nat)> {
        match <(Leb128<u32>, Leb128<u32>) as WasmBinary>::spec_decode(s) {
            Some((p, n)) => Some((Memarg { alignment: p.0, offset: p.1 }, n)),
            None => None,
        }
    }

    proof fn lemma_decode_encoded(m: Memarg, rest: Seq<u8>) {
        <(Leb128<u32>, Leb128<u32>) as WasmBinary>::lemma_decode_encoded((m.alignment, m.offset), rest);
    }

    proof fn lemma_encode_decoded(s: Seq<u8>) {
        <(Leb128<u32>, Leb128<u32>) as WasmBinary>::lemma_encode_decoded(s);
    }

    fn decode(bytes: &[u8]) -> (r: Option<(Memarg, usize)>) {
        match <(Leb128<u32>, Leb128<u32>) as WasmBinary>::decode(bytes) {
            Some((p, n)) => Some((Memarg { alignment: p.0, offset: p.1 }, n)),
            None => None,
        }
    }

    fn encode(&self, out: &mut Vec<u8>) -> (r: Result<(), EncodeError>) {
        let _ = self.alignment.encode(out);
        self.offset.encode(out)
    }
}

/// What a function type holds.
pub struct FuncTypeModel {
    pub params: Leb128<Seq<ValType>>,
    pub results: Leb128<Seq<ValType>>,
}

/// A function type: `0x60`, its parameter types, then its result types.
impl WasmBinary for FuncType {
    type Model = FuncTypeModel;

    open spec fn model(&self) -> FuncTypeModel {
        FuncTypeModel { params: self.params.model(), results: self.results.model() }
    }

    open spec fn encodable(m: FuncTypeModel) -> bool {
        <(Leb128<Vec<ValType>>, Leb128<Vec<ValType>>) as WasmBinary>::encodable((m.params, m.results))
    }

    open spec fn canonical(m: FuncTypeModel) -> bool {
        <(Leb128<Vec<ValType>>, Leb128<Vec<ValType>>) as WasmBinary>::canonical((m.params, m.results))
    }

    open spec fn spec_encode(m: FuncTypeModel) -> Seq<u8> {
        seq![0x60u8] + <(Leb128<Vec<ValType>>, Leb128<Vec<ValType>>) as WasmBinary>::spec_encode(
            (m.params, m.results),
        )
    }

    open spec fn spec_decode(s: Seq<u8>) -> Option<(FuncTypeModel, nat)> {
        if s.len() >= 1 && s[0] == 0x60 {
            match <(Leb128<Vec<ValType>>, Leb128<Vec<ValType>>) as WasmBinary>::spec_decode(s.skip(1)) {
                Some((p, n)) => Some((FuncTypeModel { params: p.0, results: p.1 }, n + 1)),
                None => None,
            }
        } else {
            None
        }
    }

    proof fn lemma_decode_encoded(m: FuncTypeModel, rest: Seq<u8>) {
        lemma_tagged_encoded::<(Leb128<Vec<ValType>>, Leb128<Vec<ValType>>)>(
            0x60,
            (m.params, m.results),
            rest,
        );
    }

    proof fn lemma_encode_decoded(s: Seq<u8>) {
        lemma_tagged_decoded::<(Leb128<Vec<ValType>>, Leb128<Vec<ValType>>)>(s);
    }

    fn decode(bytes: &[u8]) -> (r: Option<(FuncType, usize)>) {
        if bytes.len() == 0 || bytes[0] != 0x60 {
            return None;
        }
        match decode_tagged::<(Leb128<Vec<ValType>>, Leb128<Vec<ValType>>)>(bytes) {
            Some((p, n)) => {
                let (params, results) = p;
                Some((FuncType { params, results }, n))
            },
            None => None,
        }
    }

    fn encode(&self, out: &mut Vec<u8>) -> (r: Result<(), EncodeError>) {
        out.push(0x60);
        match self.params.encode(out) {
            Ok(()) => {},
            Err(e) => return Err(e),
        }
        match self.results.encode(out) {
            Ok(()) => {},
            Err(e) => return Err(e),
        }
        assert(out@ =~= old(out)@ + Self::spec_encode(self.model()));
        Ok(())
    }
}

/// What an import brings in: a tag (0 to 3), then a type index, a table type, a
/// memory type or a global type.
impl WasmBinary for ImportType {
    type Model = ImportType;

    open spec fn model(&self) -> ImportType {
        *self
    }

    open spec fn encodable(m: ImportType) -> bool {
        true
    }

    open spec fn canonical(m: ImportType) -> bool {
        match m {
            ImportType::Function(x) => TypeIdx::canonical(x),
            ImportType::Table(x) => TableType::canonical(x),
            ImportType::Memory(x) => MemoryType::canonical(x),
            ImportType::Global(x) => GlobalType::canonical(x),
        }
    }

    open spec fn spec_encode(m: ImportType) -> Seq<u8> {
        match m {
            ImportType::Function(x) => seq![0u8] + TypeIdx::spec_encode(x),
            ImportType::Table(x) => seq![1u8] + TableType::spec_encode(x),
            ImportType::Memory(x) => seq![2u8] + MemoryType::spec_encode(x),
            ImportType::Global(x) => seq![3u8] + GlobalType::spec_encode(x),
        }
    }

    open spec fn spec_decode(s: Seq<u8>) -> Option<(ImportType, nat)> {
        if s.len() == 0 {
            None
        } else if s[0] == 0 {
            match TypeIdx::spec_decode(s.skip(1)) {
                Some((x, n)) => Some((ImportType::Function(x), n + 1)),
                None => None,
            }
        } else if s[0] == 1 {
            match TableType::spec_decode(s.skip(1)) {
                Some((x, n)) => Some((ImportType::Table(x), n + 1)),
                None => None,
            }
        } else if s[0] == 2 {
            match MemoryType::spec_decode(s.skip(1)) {
                Some((x, n)) => Some((ImportType::Memory(x), n + 1)),
                None => None,
            }
        } else if s[0] == 3 {
            match GlobalType::spec_decode(s.skip(1)) {
                Some((x, n)) => Some((ImportType::Global(x), n + 1)),
                None => None,
            }
        } else {
            None
        }
    }

    proof fn lemma_decode_encoded(m: ImportType, rest: Seq<u8>) {
        match m {
            ImportType::Function(x) => lemma_tagged_encoded::<TypeIdx>(0, x, rest),
            ImportType::Table(x) => lemma_tagged_encoded::<TableType>(1, x, rest),
            ImportType::Memory(x) => lemma_tagged_encoded::<MemoryType>(2, x, rest),
            ImportType::Global(x) => lemma_tagged_encoded::<GlobalType>(3, x, rest),
        }
    }

    proof fn lemma_encode_decoded(s: Seq<u8>) {
        if s[0] == 0 {
            lemma_tagged_decoded::<TypeIdx>(s);
        } else if s[0] == 1 {
            lemma_tagged_decoded::<TableType>(s);
        } else if s[0] == 2 {
            lemma_tagged_decoded::<MemoryType>(s);
        } else {
            lemma_tagged_decoded::<GlobalType>(s);
        }
    }

    fn decode(bytes: &[u8]) -> (r: Option<(ImportType, usize)>) {
        if bytes.len() == 0 {
            return None;
        }
        let tag = bytes[0];
        if tag == 0 {
            match decode_tagged::<TypeIdx>(bytes) {
                Some((x, n)) => Some((ImportType::Function(x), n)),
                None => None,
            }
        } else if tag == 1 {
            match decode_tagged::<TableType>(bytes) {
                Some((x, n)) => Some((ImportType::Table(x), n)),
                None => None,
            }
        } else if tag == 2 {
            match decode_tagged::<MemoryType>(bytes) {
                Some((x, n)) => Some((ImportType::Memory(x), n)),
                None => None,
            }
        } else if tag == 3 {
            match decode_tagged::<GlobalType>(bytes) {
                Some((x, n)) => Some((ImportType::Global(x), n)),
                None => None,
            }
        } else {
            None
        }
    }

    fn encode(&self, out: &mut Vec<u8>) -> (r: Result<(), EncodeError>) {
        match self {
            ImportType::Function(x) => {
                out.push(0);
                x.encode(out)
            },
            ImportType::Table(x) => {
                out.push(1);
                x.encode(out)
            },
            ImportType::Memory(x) => {
                out.push(2);
                x.encode(out)
            },
            ImportType::Global(x) => {
                out.push(3);
                x.encode(out)
            },
        }
    }
}

/// What an export makes visible: a tag (0 to 3), then a function, table, memory or
/// global index.
impl WasmBinary for ExportType {
    type Model = ExportType;

    open spec fn model(&self) -> ExportType {
        *self
    }

    open spec fn encodable(m: ExportType) -> bool {
        true
    }

    open spec fn canonical(m: ExportType) -> bool {
        match m {
            ExportType::Function(x) => FunctionIdx::canonical(x),
            ExportType::Table(x) => TableIdx::canonical(x),
            ExportType::Memory(x) => MemoryIdx::canonical(x),
            ExportType::Global(x) => GlobalIdx::canonical(x),
        }
    }

    open spec fn spec_encode(m: ExportType) -> Seq<u8> {
        match m {
            ExportType::Function(x) => seq![0u8] + FunctionIdx::spec_encode(x),
            ExportType::Table(x) => seq![1u8] + TableIdx::spec_encode(x),
            ExportType::Memory(x) => seq![2u8] + MemoryIdx::spec_encode(x),
            ExportType::Global(x) => seq![3u8] + GlobalIdx::spec_encode(x),
        }
    }

    open spec fn spec_decode(s: Seq<u8>) -> Option<(ExportType, nat)> {
        if s.len() == 0 {
            None
        } else if s[0] == 0 {
            match FunctionIdx::spec_decode(s.skip(1)) {
                Some((x, n)) => Some((ExportType::Function(x), n + 1)),
                None => None,
            }
        } else if s[0] == 1 {
            match TableIdx::spec_decode(s.skip(1)) {
                Some((x, n)) => Some((ExportType::Table(x), n + 1)),
                None => None,
            }
        } else if s[0] == 2 {
            match MemoryIdx::spec_decode(s.skip(1)) {
                Some((x, n)) => Some((ExportType::Memory(x), n + 1)),
                None => None,
            }
        } else if s[0] == 3 {
            match GlobalIdx::spec_decode(s.skip(1)) {
                Some((x, n)) => Some((ExportType::Global(x), n + 1)),
                None => None,
            }
        } else {
            None
        }
    }

    proof fn lemma_decode_encoded(m: ExportType, rest: Seq<u8>) {
        match m {
            ExportType::Function(x) => lemma_tagged_encoded::<FunctionIdx>(0, x, rest),
            ExportType::Table(x) => lemma_tagged_encoded::<TableIdx>(1, x, rest),
            ExportType::Memory(x) => lemma_tagged_encoded::<MemoryIdx>(2, x, rest),
            ExportType::Global(x) => lemma_tagged_encoded::<GlobalIdx>(3, x, rest),
        }
    }

    proof fn lemma_encode_decoded(s: Seq<u8>) {
        if s[0] == 0 {
            lemma_tagged_decoded::<FunctionIdx>(s);
        } else if s[0] == 1 {
            lemma_tagged_decoded::<TableIdx>(s);
        } else if s[0] == 2 {
            lemma_tagged_decoded::<MemoryIdx>(s);
        } else {
            lemma_tagged_decoded::<GlobalIdx>(s);
        }
    }

    fn decode(bytes: &[u8]) -> (r: Option<(ExportType, usize)>) {
        if bytes.len() == 0 {
            return None;
        }
        let tag = bytes[0];
        if tag == 0 {
            match decode_tagged::<FunctionIdx>(bytes) {
                Some((x, n)) => Some((ExportType::Function(x), n)),
                None => None,
            }
        } else if tag == 1 {
            match decode_tagged::<TableIdx>(bytes) {
                Some((x, n)) => Some((ExportType::Table(x), n)),
                None => None,
            }
        } else if tag == 2 {
            match decode_tagged::<MemoryIdx>(bytes) {
                Some((x, n)) => Some((ExportType::Memory(x), n)),
                None => None,
            }
        } else if tag == 3 {
            match decode_tagged::<GlobalIdx>(bytes) {
                Some((x, n)) => Some((ExportType::Global(x), n)),
                None => None,
            }
        } else {
            None
        }
    }

    fn encode(&self, out: &mut Vec<u8>) -> (r: Result<(), EncodeError>) {
        match self {
            ExportType::Function(x) => {
                out.push(0);
                x.encode(out)
            },
            ExportType::Table(x) => {
                out.push(1);
                x.encode(out)
            },
            ExportType::Memory(x) => {
                out.push(2);
                x.encode(out)
            },
            ExportType::Global(x) => {
                out.push(3);
                x.encode(out)
            },
        }
    }
}

} // verus!
