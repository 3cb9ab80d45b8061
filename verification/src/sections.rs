//! The encodings of sections and of the records they hold.
use vstd::prelude::*;
use crate::ast::{
    Data, Element, Export, ExportType, Expr, FuncType, Function, FunctionIdx, Global, GlobalType,
    Import, ImportType, Locals, MemoryIdx, MemoryType, Section, TableIdx, TableType, TypeIdx,
    WithSize,
};
use crate::binary::{
    EncodeError, WasmBinary, decode_tagged, lemma_tagged_decoded, lemma_tagged_encoded,
};
use crate::code::InstrModel;
use crate::leb128::Leb128;
use crate::types::FuncTypeModel;

verus! {

/// What a function body holds.
pub struct FunctionModel {
    pub locals: Leb128<Seq<Locals>>,
    pub body: Seq<InstrModel>,
}

/// A function body: its locals, then its instructions.
impl WasmBinary for Function {
    type Model = FunctionModel;

    open spec fn model(&self) -> FunctionModel {
        FunctionModel { locals: self.locals.model(), body: self.body.model() }
    }

    open spec fn encodable(m: FunctionModel) -> bool {
        <(Leb128<Vec<Locals>>, Expr) as WasmBinary>::encodable((m.locals, m.body))
    }

    open spec fn canonical(m: FunctionModel) -> bool {
        <(Leb128<Vec<Locals>>, Expr) as WasmBinary>::canonical((m.locals, m.body))
    }

    open spec fn spec_encode(m: FunctionModel) -> Seq<u8> {
        <(Leb128<Vec<Locals>>, Expr) as WasmBinary>::spec_encode((m.locals, m.body))
    }

    open spec fn spec_decode(s: Seq<u8>) -> Option<(FunctionModel, nat)> {
        match <(Leb128<Vec<Locals>>, Expr) as WasmBinary>::spec_decode(s) {
            Some((p, n)) => Some((FunctionModel { locals: p.0, body: p.1 }, n)),
            None => None,
        }
    }

    proof fn lemma_decode_encoded(m: FunctionModel, rest: Seq<u8>) {
        <(Leb128<Vec<Locals>>, Expr) as WasmBinary>::lemma_decode_encoded((m.locals, m.body), rest);
    }

    proof fn lemma_encode_decoded(s: Seq<u8>) {
        <(Leb128<Vec<Locals>>, Expr) as WasmBinary>::lemma_encode_decoded(s);
    }

    fn decode(bytes: &[u8]) -> (r: Option<(Function, usize)>) {
        match <(Leb128<Vec<Locals>>, Expr) as WasmBinary>::decode(bytes) {
            Some((p, n)) => {
                let (locals, body) = p;
                Some((Function { locals, body }, n))
            },
            None => None,
        }
    }

    fn encode(&self, out: &mut Vec<u8>) -> (r: Result<(), EncodeError>) {
        match self.locals.encode(out) {
            Ok(()) => {},
            Err(e) => return Err(e),
        }
        match self.body.encode(out) {
            Ok(()) => {},
            Err(e) => return Err(e),
        }
        assert(out@ =~= old(out)@ + Self::spec_encode(self.model()));
        Ok(())
    }
}

/// What a global holds.
pub struct GlobalModel {
    pub type_: GlobalType,
    pub init: Seq<InstrModel>,
}

/// A global: its type, then its initializer.
impl WasmBinary for Global {
    type Model = GlobalModel;

    open spec fn model(&self) -> GlobalModel {
        GlobalModel { type_: self.type_.model(), init: self.init.model() }
    }

    open spec fn encodable(m: GlobalModel) -> bool {
        <(GlobalType, Expr) as WasmBinary>::encodable((m.type_, m.init))
    }

    open spec fn canonical(m: GlobalModel) -> bool {
        <(GlobalType, Expr) as WasmBinary>::canonical((m.type_, m.init))
    }

    open spec fn spec_encode(m: GlobalModel) -> Seq<u8> {
        <(GlobalType, Expr) as WasmBinary>::spec_encode((m.type_, m.init))
    }

    open spec fn spec_decode(s: Seq<u8>) -> Option<(GlobalModel, nat)> {
        match <(GlobalType, Expr) as WasmBinary>::spec_decode(s) {
            Some((p, n)) => Some((GlobalModel { type_: p.0, init: p.1 }, n)),
            None => None,
        }
    }

    proof fn lemma_decode_encoded(m: GlobalModel, rest: Seq<u8>) {
        <(GlobalType, Expr) as WasmBinary>::lemma_decode_encoded((m.type_, m.init), rest);
    }

    proof fn lemma_encode_decoded(s: Seq<u8>) {
        <(GlobalType, Expr) as WasmBinary>::lemma_encode_decoded(s);
    }

    fn decode(bytes: &[u8]) -> (r: Option<(Global, usize)>) {
        match <(GlobalType, Expr) as WasmBinary>::decode(bytes) {
            Some((p, n)) => {
                let (type_, init) = p;
                Some((Global { type_, init }, n))
            },
            None => None,
        }
    }

    fn encode(&self, out: &mut Vec<u8>) -> (r: Result<(), EncodeError>) {
        match self.type_.encode(out) {
            Ok(()) => {},
            Err(e) => return Err(e),
        }
        match self.init.encode(out) {
            Ok(()) => {},
            Err(e) => return Err(e),
        }
        assert(out@ =~= old(out)@ + Self::spec_encode(self.model()));
        Ok(())
    }
}

/// What an element segment holds.
pub struct ElementModel {
    pub table: TableIdx,
    pub offset: Seq<InstrModel>,
    pub init: Leb128<Seq<FunctionIdx>>,
}

/// An element segment: its table, its offset, then the functions it holds.
impl WasmBinary for Element {
    type Model = ElementModel;

    open spec fn model(&self) -> ElementModel {
        ElementModel { table: self.table.model(), offset: self.offset.model(), init: self.init.model() }
    }

    open spec fn encodable(m: ElementModel) -> bool {
        <(TableIdx, (Expr, Leb128<Vec<FunctionIdx>>)) as WasmBinary>::encodable((m.table, (m.offset, m.init)))
    }

    open spec fn canonical(m: ElementModel) -> bool {
        <(TableIdx, (Expr, Leb128<Vec<FunctionIdx>>)) as WasmBinary>::canonical((m.table, (m.offset, m.init)))
    }

    open spec fn spec_encode(m: ElementModel) -> Seq<u8> {
        <(TableIdx, (Expr, Leb128<Vec<FunctionIdx>>)) as WasmBinary>::spec_encode((m.table, (m.offset, m.init)))
    }

    open spec fn spec_decode(s: Seq<u8>) -> Option<(ElementModel, nat)> {
        match <(TableIdx, (Expr, Leb128<Vec<FunctionIdx>>)) as WasmBinary>::spec_decode(s) {
            Some((p, n)) => Some((ElementModel { table: p.0, offset: p.1.0, init: p.1.1 }, n)),
            None => None,
        }
    }

    proof fn lemma_decode_encoded(m: ElementModel, rest: Seq<u8>) {
        <(TableIdx, (Expr, Leb128<Vec<FunctionIdx>>)) as WasmBinary>::lemma_decode_encoded((m.table, (m.offset, m.init)), rest);
    }

    proof fn lemma_encode_decoded(s: Seq<u8>) {
        <(TableIdx, (Expr, Leb128<Vec<FunctionIdx>>)) as WasmBinary>::lemma_encode_decoded(s);
    }

    fn decode(bytes: &[u8]) -> (r: Option<(Element, usize)>) {
        match <(TableIdx, (Expr, Leb128<Vec<FunctionIdx>>)) as WasmBinary>::decode(bytes) {
            Some((p, n)) => {
                let (table, (offset, init)) = p;
                Some((Element { table, offset, init }, n))
            },
            None => None,
        }
    }

    fn encode(&self, out: &mut Vec<u8>) -> (r: Result<(), EncodeError>) {
        match self.table.encode(out) {
            Ok(()) => {},
            Err(e) => return Err(e),
        }
        match self.offset.encode(out) {
            Ok(()) => {},
            Err(e) => return Err(e),
        }
        match self.init.encode(out) {
            Ok(()) => {},
            Err(e) => return Err(e),
        }
        assert(out@ =~= old(out)@ + Self::spec_encode(self.model()));
        Ok(())
    }
}

/// What a data segment holds.
pub struct DataModel {
    pub memory: MemoryIdx,
    pub offset: Seq<InstrModel>,
    pub init: Leb128<Seq<u8>>,
}

/// A data segment: its memory, its offset, then its bytes.
impl WasmBinary for Data {
    type Model = DataModel;

    open spec fn model(&self) -> DataModel {
        DataModel { memory: self.memory.model(), offset: self.offset.model(), init: self.init.model() }
    }

    open spec fn encodable(m: DataModel) -> bool {
        <(MemoryIdx, (Expr, Leb128<Vec<u8>>)) as WasmBinary>::encodable((m.memory, (m.offset, m.init)))
    }

    open spec fn canonical(m: DataModel) -> bool {
        <(MemoryIdx, (Expr, Leb128<Vec<u8>>)) as WasmBinary>::canonical((m.memory, (m.offset, m.init)))
    }

    open spec fn spec_encode(m: DataModel) -> Seq<u8> {
        <(MemoryIdx, (Expr, Leb128<Vec<u8>>)) as WasmBinary>::spec_encode((m.memory, (m.offset, m.init)))
    }

    open spec fn spec_decode(s: Seq<u8>) -> Option<(DataModel, nat)> {
        match <(MemoryIdx, (Expr, Leb128<Vec<u8>>)) as WasmBinary>::spec_decode(s) {
            Some((p, n)) => Some((DataModel { memory: p.0, offset: p.1.0, init: p.1.1 }, n)),
            None => None,
        }
    }

    proof fn lemma_decode_encoded(m: DataModel, rest: Seq<u8>) {
        <(MemoryIdx, (Expr, Leb128<Vec<u8>>)) as WasmBinary>::lemma_decode_encoded((m.memory, (m.offset, m.init)), rest);
    }

    proof fn lemma_encode_decoded(s: Seq<u8>) {
        <(MemoryIdx, (Expr, Leb128<Vec<u8>>)) as WasmBinary>::lemma_encode_decoded(s);
    }

    fn decode(bytes: &[u8]) -> (r: Option<(Data, usize)>) {
        match <(MemoryIdx, (Expr, Leb128<Vec<u8>>)) as WasmBinary>::decode(bytes) {
            Some((p, n)) => {
                let (memory, (offset, init)) = p;
                Some((Data { memory, offset, init }, n))
            },
            None => None,
        }
    }

    fn encode(&self, out: &mut Vec<u8>) -> (r: Result<(), EncodeError>) {
        match self.memory.encode(out) {
            Ok(()) => {},
            Err(e) => return Err(e),
        }
        match self.offset.encode(out) {
            Ok(()) => {},
            Err(e) => return Err(e),
        }
        match self.init.encode(out) {
            Ok(()) => {},
            Err(e) => return Err(e),
        }
        assert(out@ =~= old(out)@ + Self::spec_encode(self.model()));
        Ok(())
    }
}

/// What an import holds.
pub struct ImportModel {
    pub module: Leb128<Seq<char>>,
    pub name: Leb128<Seq<char>>,
    pub type_: ImportType,
}

/// An import: its module name, its name, then what it imports.
impl WasmBinary for Import {
    type Model = ImportModel;

    open spec fn model(&self) -> ImportModel {
        ImportModel { module: self.module.model(), name: self.name.model(), type_: self.type_.model() }
    }

    open spec fn encodable(m: ImportModel) -> bool {
        <(Leb128<String>, (Leb128<String>, ImportType)) as WasmBinary>::encodable((m.module, (m.name, m.type_)))
    }

    open spec fn canonical(m: ImportModel) -> bool {
        <(Leb128<String>, (Leb128<String>, ImportType)) as WasmBinary>::canonical((m.module, (m.name, m.type_)))
    }

    open spec fn spec_encode(m: ImportModel) -> Seq<u8> {
        <(Leb128<String>, (Leb128<String>, ImportType)) as WasmBinary>::spec_encode((m.module, (m.name, m.type_)))
    }

    open spec fn spec_decode(s: Seq<u8>) -> Option<(ImportModel, nat)> {
        match <(Leb128<String>, (Leb128<String>, ImportType)) as WasmBinary>::spec_decode(s) {
            Some((p, n)) => Some((ImportModel { module: p.0, name: p.1.0, type_: p.1.1 }, n)),
            None => None,
        }
    }

    proof fn lemma_decode_encoded(m: ImportModel, rest: Seq<u8>) {
        <(Leb128<String>, (Leb128<String>, ImportType)) as WasmBinary>::lemma_decode_encoded((m.module, (m.name, m.type_)), rest);
    }

    proof fn lemma_encode_decoded(s: Seq<u8>) {
        <(Leb128<String>, (Leb128<String>, ImportType)) as WasmBinary>::lemma_encode_decoded(s);
    }

    fn decode(bytes: &[u8]) -> (r: Option<(Import, usize)>) {
        match <(Leb128<String>, (Leb128<String>, ImportType)) as WasmBinary>::decode(bytes) {
            Some((p, n)) => {
                let (module, (name, type_)) = p;
                Some((Import { module, name, type_ }, n))
            },
            None => None,
        }
    }

    fn encode(&self, out: &mut Vec<u8>) -> (r: Result<(), EncodeError>) {
        match self.module.encode(out) {
            Ok(()) => {},
            Err(e) => return Err(e),
        }
        match self.name.encode(out) {
            Ok(()) => {},
            Err(e) => return Err(e),
        }
        match self.type_.encode(out) {
            Ok(()) => {},
            Err(e) => return Err(e),
        }
        assert(out@ =~= old(out)@ + Self::spec_encode(self.model()));
        Ok(())
    }
}

/// What an export holds.
pub struct ExportModel {
    pub name: Leb128<Seq<char>>,
    pub type_: ExportType,
}

/// An export: its name, then what it exports.
impl WasmBinary for Export {
    type Model = ExportModel;

    open spec fn model(&self) -> ExportModel {
        ExportModel { name: self.name.model(), type_: self.type_.model() }
    }

    open spec fn encodable(m: ExportModel) -> bool {
        <(Leb128<String>, ExportType) as WasmBinary>::encodable((m.name, m.type_))
    }

    open spec fn canonical(m: ExportModel) -> bool {
        <(Leb128<String>, ExportType) as WasmBinary>::canonical((m.name, m.type_))
    }

    open spec fn spec_encode(m: ExportModel) -> Seq<u8> {
        <(Leb128<String>, ExportType) as WasmBinary>::spec_encode((m.name, m.type_))
    }

    open spec fn spec_decode(s: Seq<u8>) -> Option<(ExportModel, nat)> {
        match <(Leb128<String>, ExportType) as WasmBinary>::spec_decode(s) {
            Some((p, n)) => Some((ExportModel { name: p.0, type_: p.1 }, n)),
            None => None,
        }
    }

    proof fn lemma_decode_encoded(m: ExportModel, rest: Seq<u8>) {
        <(Leb128<String>, ExportType) as WasmBinary>::lemma_decode_encoded((m.name, m.type_), rest);
    }

    proof fn lemma_encode_decoded(s: Seq<u8>) {
        <(Leb128<String>, ExportType) as WasmBinary>::lemma_encode_decoded(s);
    }

    fn decode(bytes: &[u8]) -> (r: Option<(Export, usize)>) {
        match <(Leb128<String>, ExportType) as WasmBinary>::decode(bytes) {
            Some((p, n)) => {
                let (name, type_) = p;
                Some((Export { name, type_ }, n))
            },
            None => None,
        }
    }

    fn encode(&self, out: &mut Vec<u8>) -> (r: Result<(), EncodeError>) {
        match self.name.encode(out) {
            Ok(()) => {},
            Err(e) => return Err(e),
        }
        match self.type_.encode(out) {
            Ok(()) => {},
            Err(e) => return Err(e),
        }
        assert(out@ =~= old(out)@ + Self::spec_encode(self.model()));
        Ok(())
    }
}

/// What a section holds.
pub enum SectionModel {
    Custom(Leb128<Seq<u8>>),
    Type(WithSize<Leb128<Seq<FuncTypeModel>>>),
    Import(WithSize<Leb128<Seq<ImportModel>>>),
    Function(WithSize<Leb128<Seq<TypeIdx>>>),
    Table(WithSize<Leb128<Seq<TableType>>>),
    Memory(WithSize<Leb128<Seq<MemoryType>>>),
    Global(WithSize<Leb128<Seq<GlobalModel>>>),
    Export(WithSize<Leb128<Seq<ExportModel>>>),
    Start(WithSize<FunctionIdx>),
    Element(WithSize<Leb128<Seq<ElementModel>>>),
    Code(WithSize<Leb128<Seq<WithSize<FunctionModel>>>>),
    Data(WithSize<Leb128<Seq<DataModel>>>),
}

/// A section: its id byte (0 to 11), then its content.
impl WasmBinary for Section {
    type Model = SectionModel;

    open spec fn model(&self) -> SectionModel {
        match self {
            Section::Custom(x) => SectionModel::Custom(x.model()),
            Section::Type(x) => SectionModel::Type(x.model()),
            Section::Import(x) => SectionModel::Import(x.model()),
            Section::Function(x) => SectionModel::Function(x.model()),
            Section::Table(x) => SectionModel::Table(x.model()),
            Section::Memory(x) => SectionModel::Memory(x.model()),
            Section::Global(x) => SectionModel::Global(x.model()),
            Section::Export(x) => SectionModel::Export(x.model()),
            Section::Start(x) => SectionModel::Start(x.model()),
            Section::Element(x) => SectionModel::Element(x.model()),
            Section::Code(x) => SectionModel::Code(x.model()),
            Section::Data(x) => SectionModel::Data(x.model()),
        }
    }

    open spec fn encodable(m: SectionModel) -> bool {
        match m {
            SectionModel::Custom(x) => <Leb128<Vec<u8>> as WasmBinary>::encodable(x),
            SectionModel::Type(x) => <WithSize<Leb128<Vec<FuncType>>> as WasmBinary>::encodable(x),
            SectionModel::Import(x) => <WithSize<Leb128<Vec<Import>>> as WasmBinary>::encodable(x),
            SectionModel::Function(x) => <WithSize<Leb128<Vec<TypeIdx>>> as WasmBinary>::encodable(x),
            SectionModel::Table(x) => <WithSize<Leb128<Vec<TableType>>> as WasmBinary>::encodable(x),
            SectionModel::Memory(x) => <WithSize<Leb128<Vec<MemoryType>>> as WasmBinary>::encodable(x),
            SectionModel::Global(x) => <WithSize<Leb128<Vec<Global>>> as WasmBinary>::encodable(x),
            SectionModel::Export(x) => <WithSize<Leb128<Vec<Export>>> as WasmBinary>::encodable(x),
            SectionModel::Start(x) => <WithSize<FunctionIdx> as WasmBinary>::encodable(x),
            SectionModel::Element(x) => <WithSize<Leb128<Vec<Element>>> as WasmBinary>::encodable(x),
            SectionModel::Code(x) => <WithSize<Leb128<Vec<WithSize<Function>>>> as WasmBinary>::encodable(x),
            SectionModel::Data(x) => <WithSize<Leb128<Vec<Data>>> as WasmBinary>::encodable(x),
        }
    }

    open spec fn canonical(m: SectionModel) -> bool {
        match m {
            SectionModel::Custom(x) => <Leb128<Vec<u8>> as WasmBinary>::canonical(x),
            SectionModel::Type(x) => <WithSize<Leb128<Vec<FuncType>>> as WasmBinary>::canonical(x),
            SectionModel::Import(x) => <WithSize<Leb128<Vec<Import>>> as WasmBinary>::canonical(x),
            SectionModel::Function(x) => <WithSize<Leb128<Vec<TypeIdx>>> as WasmBinary>::canonical(x),
            SectionModel::Table(x) => <WithSize<Leb128<Vec<TableType>>> as WasmBinary>::canonical(x),
            SectionModel::Memory(x) => <WithSize<Leb128<Vec<MemoryType>>> as WasmBinary>::canonical(x),
            SectionModel::Global(x) => <WithSize<Leb128<Vec<Global>>> as WasmBinary>::canonical(x),
            SectionModel::Export(x) => <WithSize<Leb128<Vec<Export>>> as WasmBinary>::canonical(x),
            SectionModel::Start(x) => <WithSize<FunctionIdx> as WasmBinary>::canonical(x),
            SectionModel::Element(x) => <WithSize<Leb128<Vec<Element>>> as WasmBinary>::canonical(x),
            SectionModel::Code(x) => <WithSize<Leb128<Vec<WithSize<Function>>>> as WasmBinary>::canonical(x),
            SectionModel::Data(x) => <WithSize<Leb128<Vec<Data>>> as WasmBinary>::canonical(x),
        }
    }

    open spec fn spec_encode(m: SectionModel) -> Seq<u8> {
        match m {
            SectionModel::Custom(x) => seq![0u8] + <Leb128<Vec<u8>> as WasmBinary>::spec_encode(x),
            SectionModel::Type(x) => seq![1u8] + <WithSize<Leb128<Vec<FuncType>>> as WasmBinary>::spec_encode(x),
            SectionModel::Import(x) => seq![2u8] + <WithSize<Leb128<Vec<Import>>> as WasmBinary>::spec_encode(x),
            SectionModel::Function(x) => seq![3u8] + <WithSize<Leb128<Vec<TypeIdx>>> as WasmBinary>::spec_encode(x),
            SectionModel::Table(x) => seq![4u8] + <WithSize<Leb128<Vec<TableType>>> as WasmBinary>::spec_encode(x),
            SectionModel::Memory(x) => seq![5u8] + <WithSize<Leb128<Vec<MemoryType>>> as WasmBinary>::spec_encode(x),
            SectionModel::Global(x) => seq![6u8] + <WithSize<Leb128<Vec<Global>>> as WasmBinary>::spec_encode(x),
            SectionModel::Export(x) => seq![7u8] + <WithSize<Leb128<Vec<Export>>> as WasmBinary>::spec_encode(x),
            SectionModel::Start(x) => seq![8u8] + <WithSize<FunctionIdx> as WasmBinary>::spec_encode(x),
            SectionModel::Element(x) => seq![9u8] + <WithSize<Leb128<Vec<Element>>> as WasmBinary>::spec_encode(x),
            SectionModel::Code(x) => seq![10u8] + <WithSize<Leb128<Vec<WithSize<Function>>>> as WasmBinary>::spec_encode(x),
            SectionModel::Data(x) => seq![11u8] + <WithSize<Leb128<Vec<Data>>> as WasmBinary>::spec_encode(x),
        }
    }

    open spec fn spec_decode(s: Seq<u8>) -> Option<(SectionModel, nat)> {
        if s.len() == 0 {
            None
        } else if s[0] == 0 {
            match <Leb128<Vec<u8>> as WasmBinary>::spec_decode(s.skip(1)) {
                Some((x, n)) => Some((SectionModel::Custom(x), n + 1)),
                None => None,
            }
        } else if s[0] == 1 {
            match <WithSize<Leb128<Vec<FuncType>>> as WasmBinary>::spec_decode(s.skip(1)) {
                Some((x, n)) => Some((SectionModel::Type(x), n + 1)),
                None => None,
            }
        } else if s[0] == 2 {
            match <WithSize<Leb128<Vec<Import>>> as WasmBinary>::spec_decode(s.skip(1)) {
                Some((x, n)) => Some((SectionModel::Import(x), n + 1)),
                None => None,
            }
        } else if s[0] == 3 {
            match <WithSize<Leb128<Vec<TypeIdx>>> as WasmBinary>::spec_decode(s.skip(1)) {
                Some((x, n)) => Some((SectionModel::Function(x), n + 1)),
                None => None,
            }
        } else if s[0] == 4 {
            match <WithSize<Leb128<Vec<TableType>>> as WasmBinary>::spec_decode(s.skip(1)) {
                Some((x, n)) => Some((SectionModel::Table(x), n + 1)),
                None => None,
            }
        } else if s[0] == 5 {
            match <WithSize<Leb128<Vec<MemoryType>>> as WasmBinary>::spec_decode(s.skip(1)) {
                Some((x, n)) => Some((SectionModel::Memory(x), n + 1)),
                None => None,
            }
        } else if s[0] == 6 {
            match <WithSize<Leb128<Vec<Global>>> as WasmBinary>::spec_decode(s.skip(1)) {
                Some((x, n)) => Some((SectionModel::Global(x), n + 1)),
                None => None,
            }
        } else if s[0] == 7 {
            match <WithSize<Leb128<Vec<Export>>> as WasmBinary>::spec_decode(s.skip(1)) {
                Some((x, n)) => Some((SectionModel::Export(x), n + 1)),
                None => None,
            }
        } else if s[0] == 8 {
            match <WithSize<FunctionIdx> as WasmBinary>::spec_decode(s.skip(1)) {
                Some((x, n)) => Some((SectionModel::Start(x), n + 1)),
                None => None,
            }
        } else if s[0] == 9 {
            match <WithSize<Leb128<Vec<Element>>> as WasmBinary>::spec_decode(s.skip(1)) {
                Some((x, n)) => Some((SectionModel::Element(x), n + 1)),
                None => None,
            }
        } else if s[0] == 10 {
            match <WithSize<Leb128<Vec<WithSize<Function>>>> as WasmBinary>::spec_decode(s.skip(1)) {
                Some((x, n)) => Some((SectionModel::Code(x), n + 1)),
                None => None,
            }
        } else if s[0] == 11 {
            match <WithSize<Leb128<Vec<Data>>> as WasmBinary>::spec_decode(s.skip(1)) {
                Some((x, n)) => Some((SectionModel::Data(x), n + 1)),
                None => None,
            }
        } else {
            None
        }
    }

    proof fn lemma_decode_encoded(m: SectionModel, rest: Seq<u8>) {
        match m {
            SectionModel::Custom(x) => lemma_tagged_encoded::<Leb128<Vec<u8>>>(0, x, rest),
            SectionModel::Type(x) => lemma_tagged_encoded::<WithSize<Leb128<Vec<FuncType>>>>(1, x, rest),
            SectionModel::Import(x) => lemma_tagged_encoded::<WithSize<Leb128<Vec<Import>>>>(2, x, rest),
            SectionModel::Function(x) => lemma_tagged_encoded::<WithSize<Leb128<Vec<TypeIdx>>>>(3, x, rest),
            SectionModel::Table(x) => lemma_tagged_encoded::<WithSize<Leb128<Vec<TableType>>>>(4, x, rest),
            SectionModel::Memory(x) => lemma_tagged_encoded::<WithSize<Leb128<Vec<MemoryType>>>>(5, x, rest),
            SectionModel::Global(x) => lemma_tagged_encoded::<WithSize<Leb128<Vec<Global>>>>(6, x, rest),
            SectionModel::Export(x) => lemma_tagged_encoded::<WithSize<Leb128<Vec<Export>>>>(7, x, rest),
            SectionModel::Start(x) => lemma_tagged_encoded::<WithSize<FunctionIdx>>(8, x, rest),
            SectionModel::Element(x) => lemma_tagged_encoded::<WithSize<Leb128<Vec<Element>>>>(9, x, rest),
            SectionModel::Code(x) => lemma_tagged_encoded::<WithSize<Leb128<Vec<WithSize<Function>>>>>(10, x, rest),
            SectionModel::Data(x) => lemma_tagged_encoded::<WithSize<Leb128<Vec<Data>>>>(11, x, rest),
        }
    }

    proof fn lemma_encode_decoded(s: Seq<u8>) {
        if s.len() == 0 {
        } else if s[0] == 0 {
            lemma_tagged_decoded::<Leb128<Vec<u8>>>(s);
        } else if s[0] == 1 {
            lemma_tagged_decoded::<WithSize<Leb128<Vec<FuncType>>>>(s);
        } else if s[0] == 2 {
            lemma_tagged_decoded::<WithSize<Leb128<Vec<Import>>>>(s);
        } else if s[0] == 3 {
            lemma_tagged_decoded::<WithSize<Leb128<Vec<TypeIdx>>>>(s);
        } else if s[0] == 4 {
            lemma_tagged_decoded::<WithSize<Leb128<Vec<TableType>>>>(s);
        } else if s[0] == 5 {
            lemma_tagged_decoded::<WithSize<Leb128<Vec<MemoryType>>>>(s);
        } else if s[0] == 6 {
            lemma_tagged_decoded::<WithSize<Leb128<Vec<Global>>>>(s);
        } else if s[0] == 7 {
            lemma_tagged_decoded::<WithSize<Leb128<Vec<Export>>>>(s);
        } else if s[0] == 8 {
            lemma_tagged_decoded::<WithSize<FunctionIdx>>(s);
        } else if s[0] == 9 {
            lemma_tagged_decoded::<WithSize<Leb128<Vec<Element>>>>(s);
        } else if s[0] == 10 {
            lemma_tagged_decoded::<WithSize<Leb128<Vec<WithSize<Function>>>>>(s);
        } else if s[0] == 11 {
            lemma_tagged_decoded::<WithSize<Leb128<Vec<Data>>>>(s);
        }
    }

    fn decode(bytes: &[u8]) -> (r: Option<(Section, usize)>) {
        if bytes.len() == 0 {
            return None;
        }
        let tag = bytes[0];
        if tag > 11 {
            None
        } else if tag == 0 {
            match decode_tagged::<Leb128<Vec<u8>>>(bytes) {
                Some((x, n)) => Some((Section::Custom(x), n)),
                None => None,
            }
        } else if tag == 1 {
            match decode_tagged::<WithSize<Leb128<Vec<FuncType>>>>(bytes) {
                Some((x, n)) => Some((Section::Type(x), n)),
                None => None,
            }
        } else if tag == 2 {
            match decode_tagged::<WithSize<Leb128<Vec<Import>>>>(bytes) {
                Some((x, n)) => Some((Section::Import(x), n)),
                None => None,
            }
        } else if tag == 3 {
            match decode_tagged::<WithSize<Leb128<Vec<TypeIdx>>>>(bytes) {
                Some((x, n)) => Some((Section::Function(x), n)),
                None => None,
            }
        } else if tag == 4 {
            match decode_tagged::<WithSize<Leb128<Vec<TableType>>>>(bytes) {
                Some((x, n)) => Some((Section::Table(x), n)),
                None => None,
            }
        } else if tag == 5 {
            match decode_tagged::<WithSize<Leb128<Vec<MemoryType>>>>(bytes) {
                Some((x, n)) => Some((Section::Memory(x), n)),
                None => None,
            }
        } else if tag == 6 {
            match decode_tagged::<WithSize<Leb128<Vec<Global>>>>(bytes) {
                Some((x, n)) => Some((Section::Global(x), n)),
                None => None,
            }
        } else if tag == 7 {
            match decode_tagged::<WithSize<Leb128<Vec<Export>>>>(bytes) {
                Some((x, n)) => Some((Section::Export(x), n)),
                None => None,
            }
        } else if tag == 8 {
            match decode_tagged::<WithSize<FunctionIdx>>(bytes) {
                Some((x, n)) => Some((Section::Start(x), n)),
                None => None,
            }
        } else if tag == 9 {
            match decode_tagged::<WithSize<Leb128<Vec<Element>>>>(bytes) {
                Some((x, n)) => Some((Section::Element(x), n)),
                None => None,
            }
        } else if tag == 10 {
            match decode_tagged::<WithSize<Leb128<Vec<WithSize<Function>>>>>(bytes) {
                Some((x, n)) => Some((Section::Code(x), n)),
                None => None,
            }
        } else if tag == 11 {
            match decode_tagged::<WithSize<Leb128<Vec<Data>>>>(bytes) {
                Some((x, n)) => Some((Section::Data(x), n)),
                None => None,
            }
        } else {
            None
        }
    }

    fn encode(&self, out: &mut Vec<u8>) -> (r: Result<(), EncodeError>) {
        match self {
            Section::Custom(x) => {
                out.push(0);
                x.encode(out)
            },
            Section::Type(x) => {
                out.push(1);
                x.encode(out)
            },
            Section::Import(x) => {
                out.push(2);
                x.encode(out)
            },
            Section::Function(x) => {
                out.push(3);
                x.encode(out)
            },
            Section::Table(x) => {
                out.push(4);
                x.encode(out)
            },
            Section::Memory(x) => {
                out.push(5);
                x.encode(out)
            },
            Section::Global(x) => {
                out.push(6);
                x.encode(out)
            },
            Section::Export(x) => {
                out.push(7);
                x.encode(out)
            },
            Section::Start(x) => {
                out.push(8);
                x.encode(out)
            },
            Section::Element(x) => {
                out.push(9);
                x.encode(out)
            },
            Section::Code(x) => {
                out.push(10);
                x.encode(out)
            },
            Section::Data(x) => {
                out.push(11);
                x.encode(out)
            },
        }
    }
}

} // verus!
