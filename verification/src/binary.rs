//! The binary encoding: one trait for every encodable type, and its instances for
//! bytes, LEB128 integers, length-prefixed vectors and strings, and sized content.
use vstd::prelude::*;
use vstd::utf8::*;
use crate::ast::WithSize;
use crate::leb128::{
    Leb128, MAX_LEN_32, MAX_LEN_64, min_len_unsigned, min_len_signed, encode_unsigned, encode_signed,
    decode_unsigned, decode_signed, width, lemma_unsigned_roundtrip, lemma_unsigned_rewrite,
    lemma_signed_roundtrip, lemma_signed_rewrite, lemma_pow128_10, read_unsigned, read_signed,
    write_unsigned, write_signed,
};

verus! {

broadcast use vstd::seq_lib::group_seq_properties;

/// Why a value could not be encoded: a count, a length or a size does not fit in
/// the 32-bit LEB128 field that holds it.
#[derive(Debug, Clone, Copy, PartialEq, Eq)]
pub enum EncodeError {
    TooLarge,
}

/// A type with a binary encoding.
///
/// `spec_decode` and `spec_encode` state the format over the model of a value.
/// The two proof functions are the laws of every instance: a canonical, encodable
/// value reads back from its encoding, whatever bytes follow it; and whatever a
/// decoder accepts is canonical and encodes to exactly the bytes it consumed.
pub trait WasmBinary: Sized {
    /// What a value holds, as a mathematical value.
    type Model;

    spec fn model(&self) -> Self::Model;

    /// Every count, length and size in the value fits in 32 bits.
    spec fn encodable(m: Self::Model) -> bool;

    /// Every stored byte count is one that an encoding can have, and every
    /// instruction sequence ends where a decoder ends it.
    spec fn canonical(m: Self::Model) -> bool;

    spec fn spec_encode(m: Self::Model) -> Seq<u8>;

    /// The value at the front of `s`, with the number of bytes it takes.
    spec fn spec_decode(s: Seq<u8>) -> Option<(Self::Model, nat)>;

    /// Decoding the encoding of a canonical, encodable value gives the value back,
    /// with the length of its encoding, whatever bytes follow it.
    proof fn lemma_decode_encoded(m: Self::Model, rest: Seq<u8>)
        requires
            Self::encodable(m),
            Self::canonical(m),
        ensures
            Self::spec_decode(Self::spec_encode(m) + rest) == Some((m, Self::spec_encode(m).len())),
    ;

    /// What is decoded from bytes is canonical and encodable, and encodes back to
    /// exactly the bytes it was decoded from.
    proof fn lemma_encode_decoded(s: Seq<u8>)
        requires
            Self::spec_decode(s) is Some,
        ensures
            ({
                let (m, n) = Self::spec_decode(s)->0;
                &&& n <= s.len()
                &&& Self::encodable(m)
                &&& Self::canonical(m)
                &&& Self::spec_encode(m) == s.take(n as int)
            }),
    ;

    /// Decodes a value from the front of `bytes`; returns it with the number of
    /// bytes it took.
    fn decode(bytes: &[u8]) -> (r: Option<(Self, usize)>)
        ensures
            match r {
                Some((v, n)) => Self::spec_decode(bytes@) == Some((v.model(), n as nat)),
                None => Self::spec_decode(bytes@) is None,
            },
    ;

    /// Appends the encoding of the value to `out`.
    fn encode(&self, out: &mut Vec<u8>) -> (r: Result<(), EncodeError>)
        ensures
            r is Ok <==> Self::encodable(self.model()),
            r is Ok ==> final(out)@ == old(out)@ + Self::spec_encode(self.model()),
    ;
}

/// The bound of a 32-bit unsigned number.
pub open spec fn u32_bound() -> nat {
    0x1_0000_0000
}

/// A byte stands for itself.
impl WasmBinary for u8 {
    type Model = u8;

    open spec fn model(&self) -> u8 {
        *self
    }

    open spec fn encodable(m: u8) -> bool {
        true
    }

    open spec fn canonical(m: u8) -> bool {
        true
    }

    open spec fn spec_encode(m: u8) -> Seq<u8> {
        seq![m]
    }

    open spec fn spec_decode(s: Seq<u8>) -> Option<(u8, nat)> {
        if s.len() >= 1 {
            Some((s[0], 1))
        } else {
            None
        }
    }

    proof fn lemma_decode_encoded(m: u8, rest: Seq<u8>) {
    }

    proof fn lemma_encode_decoded(s: Seq<u8>) {
        assert(s.take(1) =~= seq![s[0]]);
    }

    fn decode(bytes: &[u8]) -> (r: Option<(u8, usize)>) {
        if bytes.len() >= 1 {
            Some((bytes[0], 1))
        } else {
            None
        }
    }

    fn encode(&self, out: &mut Vec<u8>) -> (r: Result<(), EncodeError>) {
        out.push(*self);
        Ok(())
    }
}

/// An unsigned 32-bit LEB128 integer of at most five bytes.
impl WasmBinary for Leb128<u32> {
    type Model = Leb128<u32>;

    open spec fn model(&self) -> Leb128<u32> {
        *self
    }

    open spec fn encodable(m: Leb128<u32>) -> bool {
        true
    }

    open spec fn canonical(m: Leb128<u32>) -> bool {
        min_len_unsigned(m.value as nat) <= m.byte_count <= MAX_LEN_32
    }

    open spec fn spec_encode(m: Leb128<u32>) -> Seq<u8> {
        encode_unsigned(m.value as nat, m.byte_count as nat, MAX_LEN_32 as nat)
    }

    open spec fn spec_decode(s: Seq<u8>) -> Option<(Leb128<u32>, nat)> {
        match decode_unsigned(s, MAX_LEN_32 as nat, u32_bound()) {
            Some((v, n)) => Some((Leb128 { value: v as u32, byte_count: n as usize }, n)),
            None => None,
        }
    }

    proof fn lemma_decode_encoded(m: Leb128<u32>, rest: Seq<u8>) {
        lemma_pow128_10();
        lemma_unsigned_roundtrip(
            m.value as nat,
            m.byte_count as nat,
            MAX_LEN_32 as nat,
            u32_bound(),
            rest,
        );
    }

    proof fn lemma_encode_decoded(s: Seq<u8>) {
        lemma_unsigned_rewrite(s, MAX_LEN_32 as nat, u32_bound());
    }

    fn decode(bytes: &[u8]) -> (r: Option<(Leb128<u32>, usize)>) {
        match read_unsigned(bytes, MAX_LEN_32, 0x1_0000_0000) {
            Some((v, n)) => Some((Leb128 { value: v as u32, byte_count: n }, n)),
            None => None,
        }
    }

    fn encode(&self, out: &mut Vec<u8>) -> (r: Result<(), EncodeError>) {
        write_unsigned(out, self.value as u128, self.byte_count, MAX_LEN_32);
        Ok(())
    }
}

/// A signed 32-bit LEB128 integer of at most five bytes.
impl WasmBinary for Leb128<i32> {
    type Model = Leb128<i32>;

    open spec fn model(&self) -> Leb128<i32> {
        *self
    }

    open spec fn encodable(m: Leb128<i32>) -> bool {
        true
    }

    open spec fn canonical(m: Leb128<i32>) -> bool {
        min_len_signed(m.value as int) <= m.byte_count <= MAX_LEN_32
    }

    open spec fn spec_encode(m: Leb128<i32>) -> Seq<u8> {
        encode_signed(m.value as int, m.byte_count as nat, MAX_LEN_32 as nat)
    }

    open spec fn spec_decode(s: Seq<u8>) -> Option<(Leb128<i32>, nat)> {
        match decode_signed(s, MAX_LEN_32 as nat, 0x8000_0000) {
            Some((v, n)) => Some((Leb128 { value: v as i32, byte_count: n as usize }, n)),
            None => None,
        }
    }

    proof fn lemma_decode_encoded(m: Leb128<i32>, rest: Seq<u8>) {
        lemma_pow128_10();
        lemma_signed_roundtrip(
            m.value as int,
            m.byte_count as nat,
            MAX_LEN_32 as nat,
            0x8000_0000,
            rest,
        );
    }

    proof fn lemma_encode_decoded(s: Seq<u8>) {
        lemma_signed_rewrite(s, MAX_LEN_32 as nat, 0x8000_0000);
    }

    fn decode(bytes: &[u8]) -> (r: Option<(Leb128<i32>, usize)>) {
        match read_signed(bytes, MAX_LEN_32, 0x8000_0000) {
            Some((v, n)) => Some((Leb128 { value: v as i32, byte_count: n }, n)),
            None => None,
        }
    }

    fn encode(&self, out: &mut Vec<u8>) -> (r: Result<(), EncodeError>) {
        write_signed(out, self.value as i128, self.byte_count, MAX_LEN_32);
        Ok(())
    }
}

/// A signed 64-bit LEB128 integer of at most ten bytes.
impl WasmBinary for Leb128<i64> {
    type Model = Leb128<i64>;

    open spec fn model(&self) -> Leb128<i64> {
        *self
    }

    open spec fn encodable(m: Leb128<i64>) -> bool {
        true
    }

    open spec fn canonical(m: Leb128<i64>) -> bool {
        min_len_signed(m.value as int) <= m.byte_count <= MAX_LEN_64
    }

    open spec fn spec_encode(m: Leb128<i64>) -> Seq<u8> {
        encode_signed(m.value as int, m.byte_count as nat, MAX_LEN_64 as nat)
    }

    open spec fn spec_decode(s: Seq<u8>) -> Option<(Leb128<i64>, nat)> {
        match decode_signed(s, MAX_LEN_64 as nat, 0x8000_0000_0000_0000) {
            Some((v, n)) => Some((Leb128 { value: v as i64, byte_count: n as usize }, n)),
            None => None,
        }
    }

    proof fn lemma_decode_encoded(m: Leb128<i64>, rest: Seq<u8>) {
        lemma_pow128_10();
        lemma_signed_roundtrip(
            m.value as int,
            m.byte_count as nat,
            MAX_LEN_64 as nat,
            0x8000_0000_0000_0000,
            rest,
        );
    }

    proof fn lemma_encode_decoded(s: Seq<u8>) {
        lemma_signed_rewrite(s, MAX_LEN_64 as nat, 0x8000_0000_0000_0000);
    }

    fn decode(bytes: &[u8]) -> (r: Option<(Leb128<i64>, usize)>) {
        match read_signed(bytes, MAX_LEN_64, 0x8000_0000_0000_0000) {
            Some((v, n)) => Some((Leb128 { value: v as i64, byte_count: n }, n)),
            None => None,
        }
    }

    fn encode(&self, out: &mut Vec<u8>) -> (r: Result<(), EncodeError>) {
        write_signed(out, self.value as i128, self.byte_count, MAX_LEN_64);
        Ok(())
    }
}

/// The models of a sequence of values.
pub open spec fn models<T: WasmBinary>(v: Seq<T>) -> Seq<T::Model> {
    v.map_values(|x: T| x.model())
}

pub open spec fn all_encodable<T: WasmBinary>(xs: Seq<T::Model>) -> bool {
    forall|i: int| 0 <= i < xs.len() ==> T::encodable(#[trigger] xs[i])
}

pub open spec fn all_canonical<T: WasmBinary>(xs: Seq<T::Model>) -> bool {
    forall|i: int| 0 <= i < xs.len() ==> T::canonical(#[trigger] xs[i])
}

/// The encodings of `xs`, one after the other.
pub open spec fn encode_all<T: WasmBinary>(xs: Seq<T::Model>) -> Seq<u8>
    decreases xs.len(),
{
    if xs.len() == 0 {
        Seq::empty()
    } else {
        T::spec_encode(xs[0]) + encode_all::<T>(xs.drop_first())
    }
}

/// `count` values, one after the other, at the front of `s`.
pub open spec fn decode_all<T: WasmBinary>(s: Seq<u8>, count: nat) -> Option<(Seq<T::Model>, nat)>
    decreases count,
{
    if count == 0 {
        Some((Seq::empty(), 0))
    } else {
        match T::spec_decode(s) {
            Some((x, n)) => match decode_all::<T>(s.skip(n as int), (count - 1) as nat) {
                Some((xs, m)) => Some((seq![x] + xs, n + m)),
                None => None,
            },
            None => None,
        }
    }
}

pub proof fn lemma_encode_all_append<T: WasmBinary>(xs: Seq<T::Model>, ys: Seq<T::Model>)
    ensures
        encode_all::<T>(xs + ys) == encode_all::<T>(xs) + encode_all::<T>(ys),
    decreases xs.len(),
{
    if xs.len() == 0 {
        assert(xs + ys =~= ys);
    } else {
        assert((xs + ys).drop_first() =~= xs.drop_first() + ys);
        lemma_encode_all_append::<T>(xs.drop_first(), ys);
        assert((xs + ys)[0] == xs[0]);
    }
}

pub proof fn lemma_encode_all_single<T: WasmBinary>(x: T::Model)
    ensures
        encode_all::<T>(seq![x]) == T::spec_encode(x),
{
    let e = Seq::<T::Model>::empty();
    assert(seq![x].drop_first() =~= e);
    assert(encode_all::<T>(e) == Seq::<u8>::empty());
    assert(T::spec_encode(x) + Seq::<u8>::empty() =~= T::spec_encode(x));
}

pub proof fn lemma_decode_all_encoded<T: WasmBinary>(xs: Seq<T::Model>, rest: Seq<u8>)
    requires
        all_encodable::<T>(xs),
        all_canonical::<T>(xs),
    ensures
        decode_all::<T>(encode_all::<T>(xs) + rest, xs.len()) == Some(
            (xs, encode_all::<T>(xs).len()),
        ),
    decreases xs.len(),
{
    if xs.len() == 0 {
        assert(encode_all::<T>(xs) + rest =~= rest);
    } else {
        let tail = xs.drop_first();
        let e0 = T::spec_encode(xs[0]);
        let et = encode_all::<T>(tail);
        assert(encode_all::<T>(xs) + rest =~= e0 + (et + rest));
        T::lemma_decode_encoded(xs[0], et + rest);
        assert((e0 + (et + rest)).skip(e0.len() as int) =~= et + rest);
        assert forall|i: int| 0 <= i < tail.len() implies T::encodable(#[trigger] tail[i])
            && T::canonical(tail[i]) by {
            assert(tail[i] == xs[i + 1]);
        }
        lemma_decode_all_encoded::<T>(tail, rest);
        assert(seq![xs[0]] + tail =~= xs);
    }
}

pub proof fn lemma_encode_all_decoded<T: WasmBinary>(s: Seq<u8>, count: nat)
    requires
        decode_all::<T>(s, count) is Some,
    ensures
        ({
            let (xs, n) = decode_all::<T>(s, count)->0;
            &&& n <= s.len()
            &&& xs.len() == count
            &&& all_encodable::<T>(xs)
            &&& all_canonical::<T>(xs)
            &&& encode_all::<T>(xs) == s.take(n as int)
        }),
    decreases count,
{
    if count == 0 {
        assert(s.take(0) =~= Seq::<u8>::empty());
    } else {
        let (x, n) = T::spec_decode(s)->0;
        T::lemma_encode_decoded(s);
        let t = s.skip(n as int);
        lemma_encode_all_decoded::<T>(t, (count - 1) as nat);
        let (ys, m) = decode_all::<T>(t, (count - 1) as nat)->0;
        let xs = seq![x] + ys;
        assert(xs.drop_first() =~= ys);
        assert(s.take(n as int) + t.take(m as int) =~= s.take((n + m) as int));
        assert forall|i: int| 0 <= i < xs.len() implies T::encodable(#[trigger] xs[i])
            && T::canonical(xs[i]) by {
            if i > 0 {
                assert(xs[i] == ys[i - 1]);
            }
        }
    }
}

/// A vector: its element count, then its elements.
impl<T: WasmBinary> WasmBinary for Leb128<Vec<T>> {
    type Model = Leb128<Seq<T::Model>>;

    open spec fn model(&self) -> Leb128<Seq<T::Model>> {
        Leb128 { value: models(self.value@), byte_count: self.byte_count }
    }

    open spec fn encodable(m: Leb128<Seq<T::Model>>) -> bool {
        m.value.len() < u32_bound() && all_encodable::<T>(m.value)
    }

    open spec fn canonical(m: Leb128<Seq<T::Model>>) -> bool {
        min_len_unsigned(m.value.len()) <= m.byte_count <= MAX_LEN_32 && all_canonical::<T>(m.value)
    }

    open spec fn spec_encode(m: Leb128<Seq<T::Model>>) -> Seq<u8> {
        encode_unsigned(m.value.len(), m.byte_count as nat, MAX_LEN_32 as nat) + encode_all::<T>(
            m.value,
        )
    }

    closed spec fn spec_decode(s: Seq<u8>) -> Option<(Leb128<Seq<T::Model>>, nat)> {
        match decode_unsigned(s, MAX_LEN_32 as nat, u32_bound()) {
            Some((c, k)) => match decode_all::<T>(s.skip(k as int), c) {
                Some((xs, m)) => Some((Leb128 { value: xs, byte_count: k as usize }, k + m)),
                None => None,
            },
            None => None,
        }
    }

    proof fn lemma_decode_encoded(m: Leb128<Seq<T::Model>>, rest: Seq<u8>) {
        lemma_pow128_10();
        let ec = encode_unsigned(m.value.len(), m.byte_count as nat, MAX_LEN_32 as nat);
        let ee = encode_all::<T>(m.value);
        lemma_unsigned_roundtrip(
            m.value.len(),
            m.byte_count as nat,
            MAX_LEN_32 as nat,
            u32_bound(),
            ee + rest,
        );
        assert(ec + ee + rest =~= ec + (ee + rest));
        assert((ec + (ee + rest)).skip(ec.len() as int) =~= ee + rest);
        lemma_decode_all_encoded::<T>(m.value, rest);
    }

    proof fn lemma_encode_decoded(s: Seq<u8>) {
        let (c, k) = decode_unsigned(s, MAX_LEN_32 as nat, u32_bound())->0;
        lemma_unsigned_rewrite(s, MAX_LEN_32 as nat, u32_bound());
        let t = s.skip(k as int);
        lemma_encode_all_decoded::<T>(t, c);
        let (xs, m) = decode_all::<T>(t, c)->0;
        assert(s.take(k as int) + t.take(m as int) =~= s.take((k + m) as int));
    }

    fn decode(bytes: &[u8]) -> (r: Option<(Leb128<Vec<T>>, usize)>) {
        let (count, k) = match read_unsigned(bytes, MAX_LEN_32, 0x1_0000_0000) {
            Some(p) => p,
            None => return None,
        };
        proof {
            lemma_unsigned_rewrite(bytes@, MAX_LEN_32 as nat, u32_bound());
        }
        let count = count as u64;
        let mut items: Vec<T> = Vec::new();
        let mut pos: usize = k;
        let mut i: u64 = 0;
        while i < count
            invariant
                k <= pos <= bytes.len(),
                i <= count,
                items.len() == i,
                decode_unsigned(bytes@, MAX_LEN_32 as nat, u32_bound()) == Some(
                    (count as nat, k as nat),
                ),
                decode_all::<T>(bytes@.skip(k as int), count as nat) == match decode_all::<T>(
                    bytes@.skip(pos as int),
                    (count - i) as nat,
                ) {
                    Some((ys, m)) => Some((models(items@) + ys, ((pos - k) + m) as nat)),
                    None => None,
                },
            decreases count - i,
        {
            let tail = &bytes[pos..bytes.len()];
            assert(tail@ =~= bytes@.skip(pos as int));
            match T::decode(tail) {
                Some((x, n)) => {
                    proof {
                        T::lemma_encode_decoded(tail@);
                        assert(bytes@.skip(pos as int).skip(n as int) =~= bytes@.skip(
                            (pos + n) as int,
                        ));
                    }
                    let ghost before = models(items@);
                    items.push(x);
                    proof {
                        assert(models(items@) =~= before.push(x.model()));
                        assert forall|ys: Seq<T::Model>|
                            #![trigger before + (seq![x.model()] + ys)]
                            before + (seq![x.model()] + ys) =~= models(items@) + ys by {}
                    }
                    pos = pos + n;
                    i = i + 1;
                },
                None => {
                    return None;
                },
            }
        }
        assert(models(items@) + Seq::<T::Model>::empty() =~= models(items@));
        Some((Leb128 { value: items, byte_count: k }, pos))
    }

    fn encode(&self, out: &mut Vec<u8>) -> (r: Result<(), EncodeError>) {
        let len = self.value.len();
        if len > 0xffff_ffff {
            return Err(EncodeError::TooLarge);
        }
        write_unsigned(out, len as u128, self.byte_count, MAX_LEN_32);
        let ghost xs = models(self.value@);
        let ghost start = out@;
        let mut i: usize = 0;
        while i < len
            invariant
                i <= len,
                len == self.value.len(),
                xs == models(self.value@),
                out@ == start + encode_all::<T>(xs.take(i as int)),
                all_encodable::<T>(xs.take(i as int)),
            decreases len - i,
        {
            let ghost before = out@;
            match self.value[i].encode(out) {
                Ok(()) => {},
                Err(e) => {
                    assert(!T::encodable(xs[i as int]));
                    return Err(e);
                },
            }
            proof {
                assert(xs.take(i + 1) =~= xs.take(i as int) + seq![xs[i as int]]);
                lemma_encode_all_append::<T>(xs.take(i as int), seq![xs[i as int]]);
                lemma_encode_all_single::<T>(xs[i as int]);
                assert forall|j: int| 0 <= j < i + 1 implies T::encodable(
                    #[trigger] xs.take(i + 1)[j],
                ) by {
                    if j < i {
                        assert(xs.take(i + 1)[j] == xs.take(i as int)[j]);
                    }
                }
            }
            i = i + 1;
        }
        assert(xs.take(len as int) =~= xs);
        Ok(())
    }
}

/// Calls `std::str::from_utf8`: the bytes read as a string slice where they are
/// valid UTF-8 (the standard library refuses exactly the others), and `None` where
/// they are not. Claimed: the result is `Some` exactly for valid UTF-8, and its
/// characters are the UTF-8 decoding of the bytes.
#[verifier::external_body]
fn str_from_utf8(bytes: &[u8]) -> (r: Option<&str>)
    ensures
        r is Some <==> valid_utf8(bytes@),
        r matches Some(s) ==> s@ == decode_utf8(bytes@),
{
    std::str::from_utf8(bytes).ok()
}

/// Appends `bytes` to `out`.
fn push_all(out: &mut Vec<u8>, bytes: &[u8])
    ensures
        final(out)@ == old(out)@ + bytes@,
{
    let mut i: usize = 0;
    while i < bytes.len()
        invariant
            i <= bytes.len(),
            out@ == old(out)@ + bytes@.take(i as int),
        decreases bytes.len() - i,
    {
        out.push(bytes[i]);
        assert(bytes@.take(i + 1) =~= bytes@.take(i as int).push(bytes@[i as int]));
        i = i + 1;
    }
    assert(bytes@.take(bytes.len() as int) =~= bytes@);
}

/// A name: its length in bytes, then its UTF-8 bytes.
impl WasmBinary for Leb128<String> {
    type Model = Leb128<Seq<char>>;

    open spec fn model(&self) -> Leb128<Seq<char>> {
        Leb128 { value: self.value@, byte_count: self.byte_count }
    }

    open spec fn encodable(m: Leb128<Seq<char>>) -> bool {
        encode_utf8(m.value).len() < u32_bound()
    }

    open spec fn canonical(m: Leb128<Seq<char>>) -> bool {
        min_len_unsigned(encode_utf8(m.value).len()) <= m.byte_count <= MAX_LEN_32
    }

    open spec fn spec_encode(m: Leb128<Seq<char>>) -> Seq<u8> {
        encode_unsigned(encode_utf8(m.value).len(), m.byte_count as nat, MAX_LEN_32 as nat)
            + encode_utf8(m.value)
    }

    closed spec fn spec_decode(s: Seq<u8>) -> Option<(Leb128<Seq<char>>, nat)> {
        match decode_unsigned(s, MAX_LEN_32 as nat, u32_bound()) {
            Some((n, k)) => if k + n <= s.len() && valid_utf8(s.subrange(k as int, (k + n) as int)) {
                Some(
                    (
                        Leb128 {
                            value: decode_utf8(s.subrange(k as int, (k + n) as int)),
                            byte_count: k as usize,
                        },
                        k + n,
                    ),
                )
            } else {
                None
            },
            None => None,
        }
    }

    proof fn lemma_decode_encoded(m: Leb128<Seq<char>>, rest: Seq<u8>) {
        lemma_pow128_10();
        let b = encode_utf8(m.value);
        let ec = encode_unsigned(b.len(), m.byte_count as nat, MAX_LEN_32 as nat);
        lemma_unsigned_roundtrip(b.len(), m.byte_count as nat, MAX_LEN_32 as nat, u32_bound(), b + rest);
        assert(ec + b + rest =~= ec + (b + rest));
        assert((ec + (b + rest)).subrange(ec.len() as int, (ec.len() + b.len()) as int) =~= b);
        encode_utf8_valid_utf8(m.value);
        encode_utf8_decode_utf8(m.value);
    }

    proof fn lemma_encode_decoded(s: Seq<u8>) {
        let (n, k) = decode_unsigned(s, MAX_LEN_32 as nat, u32_bound())->0;
        lemma_unsigned_rewrite(s, MAX_LEN_32 as nat, u32_bound());
        let b = s.subrange(k as int, (k + n) as int);
        decode_utf8_encode_utf8(b);
        assert(s.take(k as int) + b =~= s.take((k + n) as int));
    }

    fn decode(bytes: &[u8]) -> (r: Option<(Leb128<String>, usize)>) {
        let (n, k) = match read_unsigned(bytes, MAX_LEN_32, 0x1_0000_0000) {
            Some(p) => p,
            None => return None,
        };
        proof {
            lemma_unsigned_rewrite(bytes@, MAX_LEN_32 as nat, u32_bound());
        }
        if n > (bytes.len() - k) as u128 {
            return None;
        }
        let end = k + n as usize;
        match str_from_utf8(&bytes[k..end]) {
            Some(text) => Some((Leb128 { value: text.to_owned(), byte_count: k }, end)),
            None => None,
        }
    }

    fn encode(&self, out: &mut Vec<u8>) -> (r: Result<(), EncodeError>) {
        let text = self.value.as_str().as_bytes();
        if text.len() > 0xffff_ffff {
            return Err(EncodeError::TooLarge);
        }
        write_unsigned(out, text.len() as u128, self.byte_count, MAX_LEN_32);
        push_all(out, text);
        Ok(())
    }
}

/// Content preceded by its size: the decoded content must take exactly that many
/// bytes.
impl<T: WasmBinary> WasmBinary for WithSize<T> {
    type Model = WithSize<T::Model>;

    open spec fn model(&self) -> WithSize<T::Model> {
        WithSize { size: self.size, content: self.content.model() }
    }

    open spec fn encodable(m: WithSize<T::Model>) -> bool {
        T::encodable(m.content) && T::spec_encode(m.content).len() < u32_bound()
    }

    open spec fn canonical(m: WithSize<T::Model>) -> bool {
        &&& T::canonical(m.content)
        &&& min_len_unsigned(T::spec_encode(m.content).len()) <= m.size.byte_count <= MAX_LEN_32
    }

    open spec fn spec_encode(m: WithSize<T::Model>) -> Seq<u8> {
        encode_unsigned(T::spec_encode(m.content).len(), m.size.byte_count as nat, MAX_LEN_32 as nat)
            + T::spec_encode(m.content)
    }

    closed spec fn spec_decode(s: Seq<u8>) -> Option<(WithSize<T::Model>, nat)> {
        match decode_unsigned(s, MAX_LEN_32 as nat, u32_bound()) {
            Some((n, k)) => if k + n <= s.len() {
                match T::spec_decode(s.subrange(k as int, (k + n) as int)) {
                    Some((c, used)) => if used == n {
                        Some(
                            (
                                WithSize {
                                    size: Leb128 { value: (), byte_count: k as usize },
                                    content: c,
                                },
                                k + n,
                            ),
                        )
                    } else {
                        None
                    },
                    None => None,
                }
            } else {
                None
            },
            None => None,
        }
    }

    proof fn lemma_decode_encoded(m: WithSize<T::Model>, rest: Seq<u8>) {
        lemma_pow128_10();
        let b = T::spec_encode(m.content);
        let ec = encode_unsigned(b.len(), m.size.byte_count as nat, MAX_LEN_32 as nat);
        lemma_unsigned_roundtrip(
            b.len(),
            m.size.byte_count as nat,
            MAX_LEN_32 as nat,
            u32_bound(),
            b + rest,
        );
        assert(ec + b + rest =~= ec + (b + rest));
        assert((ec + (b + rest)).subrange(ec.len() as int, (ec.len() + b.len()) as int) =~= b);
        T::lemma_decode_encoded(m.content, Seq::empty());
        assert(b + Seq::<u8>::empty() =~= b);
        assert(m.size.byte_count == ec.len());
        assert(m.size.value == ());
    }

    proof fn lemma_encode_decoded(s: Seq<u8>) {
        let (n, k) = decode_unsigned(s, MAX_LEN_32 as nat, u32_bound())->0;
        lemma_unsigned_rewrite(s, MAX_LEN_32 as nat, u32_bound());
        let b = s.subrange(k as int, (k + n) as int);
        T::lemma_encode_decoded(b);
        assert(b.take(n as int) =~= b);
        assert(s.take(k as int) + b =~= s.take((k + n) as int));
    }

    fn decode(bytes: &[u8]) -> (r: Option<(WithSize<T>, usize)>) {
        let (n, k) = match read_unsigned(bytes, MAX_LEN_32, 0x1_0000_0000) {
            Some(p) => p,
            None => return None,
        };
        proof {
            lemma_unsigned_rewrite(bytes@, MAX_LEN_32 as nat, u32_bound());
        }
        if n > (bytes.len() - k) as u128 {
            return None;
        }
        let end = k + n as usize;
        match T::decode(&bytes[k..end]) {
            Some((content, used)) => if used == n as usize {
                Some((WithSize { size: Leb128 { value: (), byte_count: k }, content }, end))
            } else {
                None
            },
            None => None,
        }
    }

    fn encode(&self, out: &mut Vec<u8>) -> (r: Result<(), EncodeError>) {
        let mut buf: Vec<u8> = Vec::new();
        match self.content.encode(&mut buf) {
            Ok(()) => {},
            Err(e) => return Err(e),
        }
        assert(buf@ =~= T::spec_encode(self.content.model()));
        if buf.len() > 0xffff_ffff {
            return Err(EncodeError::TooLarge);
        }
        write_unsigned(out, buf.len() as u128, self.size.byte_count, MAX_LEN_32);
        out.append(&mut buf);
        Ok(())
    }
}

/// The size written in front of sized content is the length of the content's
/// encoding as it is now, whatever size it was read with; only the stored byte count
/// is kept, where it can hold that length.
pub proof fn lemma_size_follows_content<T: WasmBinary>(m: WithSize<T::Model>)
    requires
        T::spec_encode(m.content).len() < u32_bound(),
    ensures
        ({
            let e = <WithSize<T> as WasmBinary>::spec_encode(m);
            let n = T::spec_encode(m.content).len();
            let k = width(min_len_unsigned(n), m.size.byte_count as nat, MAX_LEN_32 as nat);
            &&& decode_unsigned(e, MAX_LEN_32 as nat, u32_bound()) == Some((n, k))
            &&& e.skip(k as int) == T::spec_encode(m.content)
        }),
{
    lemma_pow128_10();
    let b = T::spec_encode(m.content);
    let ec = encode_unsigned(b.len(), m.size.byte_count as nat, MAX_LEN_32 as nat);
    lemma_unsigned_roundtrip(b.len(), m.size.byte_count as nat, MAX_LEN_32 as nat, u32_bound(), b);
    assert((ec + b).skip(ec.len() as int) =~= b);
}

/// Two values, one after the other.
impl<A: WasmBinary, B: WasmBinary> WasmBinary for (A, B) {
    type Model = (A::Model, B::Model);

    open spec fn model(&self) -> (A::Model, B::Model) {
        (self.0.model(), self.1.model())
    }

    open spec fn encodable(m: (A::Model, B::Model)) -> bool {
        A::encodable(m.0) && B::encodable(m.1)
    }

    open spec fn canonical(m: (A::Model, B::Model)) -> bool {
        A::canonical(m.0) && B::canonical(m.1)
    }

    open spec fn spec_encode(m: (A::Model, B::Model)) -> Seq<u8> {
        A::spec_encode(m.0) + B::spec_encode(m.1)
    }

    closed spec fn spec_decode(s: Seq<u8>) -> Option<((A::Model, B::Model), nat)> {
        match A::spec_decode(s) {
            Some((a, n)) => match B::spec_decode(s.skip(n as int)) {
                Some((b, m)) => Some(((a, b), n + m)),
                None => None,
            },
            None => None,
        }
    }

    proof fn lemma_decode_encoded(m: (A::Model, B::Model), rest: Seq<u8>) {
        let ea = A::spec_encode(m.0);
        let eb = B::spec_encode(m.1);
        assert(ea + eb + rest =~= ea + (eb + rest));
        A::lemma_decode_encoded(m.0, eb + rest);
        assert((ea + (eb + rest)).skip(ea.len() as int) =~= eb + rest);
        B::lemma_decode_encoded(m.1, rest);
    }

    proof fn lemma_encode_decoded(s: Seq<u8>) {
        let (a, n) = A::spec_decode(s)->0;
        A::lemma_encode_decoded(s);
        let t = s.skip(n as int);
        B::lemma_encode_decoded(t);
        let (b, m) = B::spec_decode(t)->0;
        assert(s.take(n as int) + t.take(m as int) =~= s.take((n + m) as int));
    }

    fn decode(bytes: &[u8]) -> (r: Option<((A, B), usize)>) {
        let (a, n) = match A::decode(bytes) {
            Some(p) => p,
            None => return None,
        };
        proof {
            A::lemma_encode_decoded(bytes@);
        }
        let rest = &bytes[n..bytes.len()];
        assert(rest@ =~= bytes@.skip(n as int));
        let (b, m) = match B::decode(rest) {
            Some(p) => p,
            None => return None,
        };
        proof {
            B::lemma_encode_decoded(rest@);
        }
        Some(((a, b), n + m))
    }

    fn encode(&self, out: &mut Vec<u8>) -> (r: Result<(), EncodeError>) {
        let ghost start = out@;
        match self.0.encode(out) {
            Ok(()) => {},
            Err(e) => return Err(e),
        }
        match self.1.encode(out) {
            Ok(()) => {},
            Err(e) => return Err(e),
        }
        assert(out@ =~= start + Self::spec_encode(self.model()));
        Ok(())
    }
}

/// A tag byte, then a value: the value reads back after the tag.
pub proof fn lemma_tagged_encoded<T: WasmBinary>(tag: u8, m: T::Model, rest: Seq<u8>)
    requires
        T::encodable(m),
        T::canonical(m),
    ensures
        (seq![tag] + T::spec_encode(m) + rest)[0] == tag,
        (seq![tag] + T::spec_encode(m) + rest).len() >= 1,
        T::spec_decode((seq![tag] + T::spec_encode(m) + rest).skip(1)) == Some(
            (m, T::spec_encode(m).len()),
        ),
{
    let e = T::spec_encode(m);
    assert((seq![tag] + e + rest).skip(1) =~= e + rest);
    T::lemma_decode_encoded(m, rest);
}

/// A value read after a tag byte rewrites, with the tag, as the bytes it was read from.
pub proof fn lemma_tagged_decoded<T: WasmBinary>(s: Seq<u8>)
    requires
        s.len() >= 1,
        T::spec_decode(s.skip(1)) is Some,
    ensures
        ({
            let (m, n) = T::spec_decode(s.skip(1))->0;
            &&& 1 + n <= s.len()
            &&& T::encodable(m)
            &&& T::canonical(m)
            &&& seq![s[0]] + T::spec_encode(m) == s.take((1 + n) as int)
        }),
{
    T::lemma_encode_decoded(s.skip(1));
    let (m, n) = T::spec_decode(s.skip(1))->0;
    assert(seq![s[0]] + s.skip(1).take(n as int) =~= s.take((1 + n) as int));
}

/// Decodes a value that follows the tag byte at the front of `bytes`; returns it with
/// the number of bytes that the tag and the value take.
pub(crate) fn decode_tagged<T: WasmBinary>(bytes: &[u8]) -> (r: Option<(T, usize)>)
    requires
        bytes.len() >= 1,
    ensures
        match r {
            Some((v, n)) => n >= 1 && T::spec_decode(bytes@.skip(1)) == Some(
                (v.model(), (n - 1) as nat),
            ),
            None => T::spec_decode(bytes@.skip(1)) is None,
        },
{
    let rest = &bytes[1..bytes.len()];
    assert(rest@ =~= bytes@.skip(1));
    match T::decode(rest) {
        Some((v, n)) => {
            proof {
                T::lemma_encode_decoded(rest@);
            }
            Some((v, n + 1))
        },
        None => None,
    }
}

} // verus!
