//! A whole module: its header, then its sections up to the end of the input.
use vstd::prelude::*;
use crate::ast::{Module, Section};
use crate::binary::{
    EncodeError, WasmBinary, all_canonical, all_encodable, encode_all, lemma_encode_all_append,
    lemma_encode_all_single, models,
};
use crate::sections::SectionModel;

verus! {

broadcast use vstd::seq_lib::group_seq_properties;

/// The first eight bytes of a module: the magic number `\0asm`, then version 1.
pub open spec fn module_header() -> Seq<u8> {
    seq![0x00u8, 0x61u8, 0x73u8, 0x6du8, 0x01u8, 0x00u8, 0x00u8, 0x00u8]
}

/// The sections that fill `s` up to its end.
pub open spec fn decode_sections(s: Seq<u8>) -> Option<Seq<SectionModel>>
    decreases s.len(),
{
    if s.len() == 0 {
        Some(Seq::empty())
    } else {
        match Section::spec_decode(s) {
            Some((x, n)) => if 1 <= n <= s.len() {
                match decode_sections(s.skip(n as int)) {
                    Some(xs) => Some(seq![x] + xs),
                    None => None,
                }
            } else {
                None
            },
            None => None,
        }
    }
}

/// The module that the bytes `s` hold, if they hold one.
pub open spec fn spec_decode_module(s: Seq<u8>) -> Option<Seq<SectionModel>> {
    if s.len() >= 8 && s.take(8) == module_header() {
        decode_sections(s.skip(8))
    } else {
        None
    }
}

/// The bytes of the module with the sections `xs`.
pub open spec fn spec_encode_module(xs: Seq<SectionModel>) -> Seq<u8> {
    module_header() + encode_all::<Section>(xs)
}

proof fn lemma_sections_roundtrip(xs: Seq<SectionModel>)
    requires
        all_encodable::<Section>(xs),
        all_canonical::<Section>(xs),
    ensures
        decode_sections(encode_all::<Section>(xs)) == Some(xs),
    decreases xs.len(),
{
    if xs.len() > 0 {
        let tail = xs.drop_first();
        let e0 = Section::spec_encode(xs[0]);
        let et = encode_all::<Section>(tail);
        Section::lemma_decode_encoded(xs[0], et);
        assert((e0 + et).skip(e0.len() as int) =~= et);
        assert forall|i: int| 0 <= i < tail.len() implies Section::encodable(#[trigger] tail[i])
            && Section::canonical(tail[i]) by {
            assert(tail[i] == xs[i + 1]);
        }
        lemma_sections_roundtrip(tail);
        assert(seq![xs[0]] + tail =~= xs);
    }
}

proof fn lemma_sections_reencode(s: Seq<u8>)
    requires
        decode_sections(s) is Some,
    ensures
        ({
            let xs = decode_sections(s)->0;
            &&& all_encodable::<Section>(xs)
            &&& all_canonical::<Section>(xs)
            &&& encode_all::<Section>(xs) == s
        }),
    decreases s.len(),
{
    if s.len() > 0 {
        let (x, n) = Section::spec_decode(s)->0;
        Section::lemma_encode_decoded(s);
        let t = s.skip(n as int);
        lemma_sections_reencode(t);
        let ys = decode_sections(t)->0;
        let xs = seq![x] + ys;
        assert(xs.drop_first() =~= ys);
        assert(s.take(n as int) + t =~= s);
        assert forall|i: int| 0 <= i < xs.len() implies Section::encodable(#[trigger] xs[i])
            && Section::canonical(xs[i]) by {
            if i > 0 {
                assert(xs[i] == ys[i - 1]);
            }
        }
    } else {
        assert(decode_sections(s)->0 =~= Seq::<SectionModel>::empty());
    }
}

/// Decoding the encoding of a module whose counts and sizes fit and whose byte
/// counts and instruction sequences are canonical gives the module back.
pub proof fn lemma_module_roundtrip(xs: Seq<SectionModel>)
    requires
        all_encodable::<Section>(xs),
        all_canonical::<Section>(xs),
    ensures
        spec_decode_module(spec_encode_module(xs)) == Some(xs),
{
    let s = spec_encode_module(xs);
    assert(s.take(8) =~= module_header());
    assert(s.skip(8) =~= encode_all::<Section>(xs));
    lemma_sections_roundtrip(xs);
}

/// Encoding a decoded module gives back the bytes it was decoded from.
pub proof fn lemma_module_reencode(s: Seq<u8>)
    requires
        spec_decode_module(s) is Some,
    ensures
        ({
            let xs = spec_decode_module(s)->0;
            &&& all_encodable::<Section>(xs)
            &&& all_canonical::<Section>(xs)
            &&& spec_encode_module(xs) == s
        }),
{
    lemma_sections_reencode(s.skip(8));
    assert(s.take(8) + s.skip(8) =~= s);
}

impl Module {
    /// The models of the module's sections.
    pub open spec fn model(&self) -> Seq<SectionModel> {
        models(self.sections@)
    }

    /// Decodes a module from `bytes`, which it must fill exactly.
    pub fn decode(bytes: &[u8]) -> (r: Option<Module>)
        ensures
            match r {
                Some(m) => spec_decode_module(bytes@) == Some(m.model()),
                None => spec_decode_module(bytes@) is None,
            },
    {
        let len = bytes.len();
        if len < 8 || bytes[0] != 0x00 || bytes[1] != 0x61 || bytes[2] != 0x73 || bytes[3] != 0x6d
            || bytes[4] != 0x01 || bytes[5] != 0x00 || bytes[6] != 0x00 || bytes[7] != 0x00 {
            proof {
                if len >= 8 {
                    let h = module_header();
                    if bytes@.take(8) == h {
                        assert(bytes@[0] == bytes@.take(8)[0]);
                        assert(bytes@[1] == bytes@.take(8)[1]);
                        assert(bytes@[2] == bytes@.take(8)[2]);
                        assert(bytes@[3] == bytes@.take(8)[3]);
                        assert(bytes@[4] == bytes@.take(8)[4]);
                        assert(bytes@[5] == bytes@.take(8)[5]);
                        assert(bytes@[6] == bytes@.take(8)[6]);
                        assert(bytes@[7] == bytes@.take(8)[7]);
                    }
                }
            }
            return None;
        }
        assert(bytes@.take(8) =~= module_header());
        let mut sections: Vec<Section> = Vec::new();
        let mut pos: usize = 8;
        assert(models(sections@) + Seq::<SectionModel>::empty() =~= Seq::<SectionModel>::empty());
        while pos < len
            invariant
                8 <= pos <= len,
                len == bytes.len(),
                spec_decode_module(bytes@) == match decode_sections(bytes@.skip(pos as int)) {
                    Some(r) => Some(models(sections@) + r),
                    None => None,
                },
            decreases len - pos,
        {
            let rest = &bytes[pos..len];
            assert(rest@ =~= bytes@.skip(pos as int));
            match Section::decode(rest) {
                Some((x, n)) => {
                    proof {
                        Section::lemma_encode_decoded(rest@);
                        assert(rest@.skip(n as int) =~= bytes@.skip((pos + n) as int));
                    }
                    let ghost before = models(sections@);
                    sections.push(x);
                    proof {
                        assert(models(sections@) =~= before.push(x.model()));
                        assert forall|r: Seq<SectionModel>|
                            #![trigger before + (seq![x.model()] + r)]
                            before + (seq![x.model()] + r) =~= models(sections@) + r by {}
                    }
                    pos = pos + n;
                },
                None => return None,
            }
        }
        assert(bytes@.skip(pos as int) =~= Seq::<u8>::empty());
        assert(models(sections@) + Seq::<SectionModel>::empty() =~= models(sections@));
        Some(Module { sections })
    }

    /// Encodes the module.
    pub fn encode(&self) -> (r: Result<Vec<u8>, EncodeError>)
        ensures
            r is Ok <==> all_encodable::<Section>(self.model()),
            r matches Ok(bytes) ==> bytes@ == spec_encode_module(self.model()),
    {
        let mut out: Vec<u8> = Vec::new();
        out.push(0x00);
        out.push(0x61);
        out.push(0x73);
        out.push(0x6d);
        out.push(0x01);
        out.push(0x00);
        out.push(0x00);
        out.push(0x00);
        assert(out@ =~= module_header());
        let ghost xs = self.model();
        let len = self.sections.len();
        let mut i: usize = 0;
        assert(xs.take(0) =~= Seq::<SectionModel>::empty());
        assert(module_header() + encode_all::<Section>(xs.take(0)) =~= module_header());
        while i < len
            invariant
                i <= len,
                len == self.sections.len(),
                xs == self.model(),
                out@ == module_header() + encode_all::<Section>(xs.take(i as int)),
                all_encodable::<Section>(xs.take(i as int)),
            decreases len - i,
        {
            match self.sections[i].encode(&mut out) {
                Ok(()) => {},
                Err(e) => {
                    assert(!Section::encodable(xs[i as int]));
                    return Err(e);
                },
            }
            proof {
                assert(xs.take(i + 1) =~= xs.take(i as int) + seq![xs[i as int]]);
                lemma_encode_all_append::<Section>(xs.take(i as int), seq![xs[i as int]]);
                lemma_encode_all_single::<Section>(xs[i as int]);
                assert forall|j: int| 0 <= j < i + 1 implies Section::encodable(
                    #[trigger] xs.take(i + 1)[j],
                ) by {
                    if j < i {
                        assert(xs.take(i + 1)[j] == xs.take(i as int)[j]);
                    }
                }
            }
            i = i + 1;
        }
        assert(xs.take(len as int) =~= xs);
        Ok(out)
    }
}

} // verus!
