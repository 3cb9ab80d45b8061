//! LEB128 integers: their byte form, and the number of bytes that one occupies.
//!
//! A group is a run of bytes whose high bit is set, closed by one byte whose high
//! bit is clear; the low seven bits of each byte, least significant group first,
//! spell the number. A number may be written with more bytes than it needs, up to
//! a limit for its type (five for 32 bits, ten for 64 bits); `Leb128` records how
//! many were used, so that writing it again gives the same bytes.
use vstd::prelude::*;

verus! {

/// A value stored in LEB128 form, with the number of bytes that its encoding takes.
///
/// For `Leb128<u32>`, `Leb128<i32>` and `Leb128<i64>` the encoded number is `value`;
/// for a vector or a string it is the element count or the byte length, and for
/// `Leb128<()>` (the size in front of a section or a function body) it is the size
/// of what follows. A `byte_count` that cannot hold the number, or that exceeds the
/// limit of its type, stands for the shortest encoding.
#[derive(Debug, Clone, Copy, PartialEq, PartialOrd)]
pub struct Leb128<T> {
    pub value: T,
    pub byte_count: usize,
}

/// The largest number of bytes of a 32-bit LEB128 integer.
pub const MAX_LEN_32: usize = 5;

/// The largest number of bytes of a 64-bit LEB128 integer.
pub const MAX_LEN_64: usize = 10;

/// `128` to the power `n`.
pub open spec fn pow128(n: nat) -> nat
    decreases n,
{
    if n == 0 {
        1
    } else {
        128 * pow128((n - 1) as nat)
    }
}

/// The `len` bytes of the group that holds the low `7 * len` bits of `v`
/// (one byte where `len` is zero).
pub open spec fn leb_bytes(v: nat, len: nat) -> Seq<u8>
    decreases len,
{
    if len <= 1 {
        seq![(v % 128) as u8]
    } else {
        seq![(v % 128 + 128) as u8] + leb_bytes(v / 128, (len - 1) as nat)
    }
}

/// The length of the group that starts at index `i` of `s`: up to and including the
/// first byte below `0x80`, where that byte is among the first `max` bytes.
pub open spec fn group_len(s: Seq<u8>, i: int, max: nat) -> Option<nat>
    decreases max,
{
    if max == 0 || i < 0 || i >= s.len() {
        None
    } else if s[i] < 128 {
        Some(1)
    } else {
        match group_len(s, i + 1, (max - 1) as nat) {
            Some(n) => Some(n + 1),
            None => None,
        }
    }
}

/// The number spelled by the low seven bits of the `n` bytes from index `i` of `s`.
pub open spec fn raw_value(s: Seq<u8>, i: int, n: nat) -> nat
    decreases n,
{
    if n == 0 {
        0
    } else {
        (s[i] % 128) as nat + 128 * raw_value(s, i + 1, (n - 1) as nat)
    }
}

/// Reads a two's complement number from the raw value of an `n`-byte group.
pub open spec fn signed_of(raw: nat, n: nat) -> int {
    if raw >= 64 * pow128((n - 1) as nat) {
        raw - pow128(n)
    } else {
        raw as int
    }
}

/// The raw value that an `n`-byte group holds for the signed number `v`.
pub open spec fn unsigned_of(v: int, n: nat) -> nat {
    if v >= 0 {
        v as nat
    } else {
        (v + pow128(n)) as nat
    }
}

/// The unsigned number at the front of `s`, written in at most `max_len` bytes and
/// below `bound`, with the number of bytes it takes.
pub open spec fn decode_unsigned(s: Seq<u8>, max_len: nat, bound: nat) -> Option<(nat, nat)> {
    match group_len(s, 0, max_len) {
        Some(n) => if raw_value(s, 0, n) < bound {
            Some((raw_value(s, 0, n), n))
        } else {
            None
        },
        None => None,
    }
}

/// The signed number at the front of `s`, written in at most `max_len` bytes and
/// within `[-half, half)`, with the number of bytes it takes.
pub open spec fn decode_signed(s: Seq<u8>, max_len: nat, half: nat) -> Option<(int, nat)> {
    match group_len(s, 0, max_len) {
        Some(n) => if -half <= signed_of(raw_value(s, 0, n), n) < half {
            Some((signed_of(raw_value(s, 0, n), n), n))
        } else {
            None
        },
        None => None,
    }
}

/// The fewest bytes that hold the unsigned number `v`.
pub open spec fn min_len_unsigned(v: nat) -> nat
    decreases v,
{
    if v < 128 {
        1
    } else {
        1 + min_len_unsigned(v / 128)
    }
}

/// The fewest bytes that hold the signed number `v`.
pub open spec fn min_len_signed(v: int) -> nat {
    if v >= 0 {
        min_len_unsigned((2 * v) as nat)
    } else {
        min_len_unsigned((-2 * v - 2) as nat)
    }
}

/// The number of bytes written for a number that needs `min` bytes, where
/// `byte_count` is asked for and `max_len` is the limit of its type.
pub open spec fn width(min: nat, byte_count: nat, max_len: nat) -> nat {
    if min <= byte_count && byte_count <= max_len {
        byte_count
    } else {
        min
    }
}

/// The bytes of an unsigned number with a requested byte count.
pub open spec fn encode_unsigned(v: nat, byte_count: nat, max_len: nat) -> Seq<u8> {
    leb_bytes(v, width(min_len_unsigned(v), byte_count, max_len))
}

/// The bytes of a signed number with a requested byte count.
pub open spec fn encode_signed(v: int, byte_count: nat, max_len: nat) -> Seq<u8> {
    let n = width(min_len_signed(v), byte_count, max_len);
    leb_bytes(unsigned_of(v, n), n)
}

pub proof fn lemma_pow128_pos(n: nat)
    ensures
        pow128(n) >= 1,
    decreases n,
{
    if n > 0 {
        lemma_pow128_pos((n - 1) as nat);
    }
}

pub proof fn lemma_pow128_mono(a: nat, b: nat)
    requires
        a <= b,
    ensures
        pow128(a) <= pow128(b),
    decreases b,
{
    if a < b {
        lemma_pow128_mono(a, (b - 1) as nat);
        lemma_pow128_pos((b - 1) as nat);
    }
}

pub proof fn lemma_leb_bytes_len(v: nat, len: nat)
    ensures
        leb_bytes(v, len).len() == if len == 0 { 1 } else { len },
    decreases len,
{
    if len > 1 {
        lemma_leb_bytes_len(v / 128, (len - 1) as nat);
    }
}

/// The first `len - 1` bytes of a group have their high bit set, the last does not.
pub proof fn lemma_leb_bytes_shape(v: nat, len: nat)
    requires
        len >= 1,
    ensures
        forall|k: int| 0 <= k < len - 1 ==> #[trigger] leb_bytes(v, len)[k] >= 128,
        leb_bytes(v, len)[len - 1] < 128,
    decreases len,
{
    lemma_leb_bytes_len(v, len);
    if len > 1 {
        lemma_leb_bytes_shape(v / 128, (len - 1) as nat);
        lemma_leb_bytes_len(v / 128, (len - 1) as nat);
        let t = leb_bytes(v / 128, (len - 1) as nat);
        assert forall|k: int| 0 <= k < len - 1 implies #[trigger] leb_bytes(v, len)[k] >= 128 by {
            if k > 0 {
                assert(leb_bytes(v, len)[k] == t[k - 1]);
            }
        }
        assert(leb_bytes(v, len)[len - 1] == t[len - 2]);
    }
}

pub proof fn lemma_raw_value_bound(s: Seq<u8>, i: int, n: nat)
    ensures
        raw_value(s, i, n) < pow128(n),
    decreases n,
{
    if n > 0 {
        lemma_raw_value_bound(s, i + 1, (n - 1) as nat);
    }
}

/// A group written at index `i` reads back as its length and its number.
pub proof fn lemma_read_written_group(s: Seq<u8>, i: int, v: nat, n: nat, max: nat)
    requires
        1 <= n <= max,
        0 <= i,
        i + n <= s.len(),
        s.subrange(i, i + n) == leb_bytes(v, n),
        v < pow128(n),
    ensures
        group_len(s, i, max) == Some(n),
        raw_value(s, i, n) == v,
    decreases n,
{
    lemma_leb_bytes_len(v, n);
    assert(s[i] == s.subrange(i, i + n)[0]);
    if n == 1 {
        assert(raw_value(s, i + 1, 0) == 0);
        assert(pow128(1) == 128) by {
            reveal_with_fuel(pow128, 2);
        }
    } else {
        let t = leb_bytes(v / 128, (n - 1) as nat);
        assert(s.subrange(i + 1, i + n) =~= t) by {
            lemma_leb_bytes_len(v / 128, (n - 1) as nat);
            assert forall|k: int| 0 <= k < n - 1 implies s.subrange(i + 1, i + n)[k] == t[k] by {
                assert(s.subrange(i + 1, i + n)[k] == s.subrange(i, i + n)[k + 1]);
            }
        }
        assert(v / 128 < pow128((n - 1) as nat));
        lemma_read_written_group(s, i + 1, v / 128, (n - 1) as nat, (max - 1) as nat);
        assert(s[i] % 128 == v % 128);
    }
}

/// A group read at index `i` is the group of its number.
pub proof fn lemma_group_is_written(s: Seq<u8>, i: int, max: nat)
    requires
        group_len(s, i, max) is Some,
    ensures
        ({
            let n = group_len(s, i, max)->0;
            &&& 1 <= n <= max
            &&& 0 <= i
            &&& i + n <= s.len()
            &&& s.subrange(i, i + n) == leb_bytes(raw_value(s, i, n), n)
        }),
    decreases max,
{
    let n = group_len(s, i, max)->0;
    if s[i] < 128 {
        assert(s.subrange(i, i + 1) =~= leb_bytes(raw_value(s, i, 1), 1));
    } else {
        lemma_group_is_written(s, i + 1, (max - 1) as nat);
        let r = raw_value(s, i + 1, (n - 1) as nat);
        let raw = raw_value(s, i, n);
        assert(raw / 128 == r);
        assert(raw % 128 == s[i] % 128);
        assert(s.subrange(i, i + n) =~= seq![s[i]] + s.subrange(i + 1, i + n));
    }
}

/// `min_len_unsigned` is the fewest bytes whose groups reach above `v`.
pub proof fn lemma_min_len_unsigned(v: nat, n: nat)
    requires
        n >= 1,
    ensures
        min_len_unsigned(v) >= 1,
        min_len_unsigned(v) <= n <==> v < pow128(n),
    decreases v,
{
    assert(pow128(1) == 128) by {
        reveal_with_fuel(pow128, 2);
    }
    lemma_pow128_mono(1, n);
    if v >= 128 {
        if n >= 2 {
            assert(pow128(n) == 128 * pow128((n - 1) as nat));
            lemma_min_len_unsigned(v / 128, (n - 1) as nat);
        } else {
            lemma_min_len_unsigned(v / 128, 1);
        }
    }
}

/// `min_len_signed` is the fewest bytes whose groups hold `v` in two's complement.
pub proof fn lemma_min_len_signed(v: int, n: nat)
    requires
        n >= 1,
    ensures
        min_len_signed(v) >= 1,
        min_len_signed(v) <= n <==> -64 * pow128((n - 1) as nat) <= v < 64 * pow128(
            (n - 1) as nat,
        ),
{
    if v >= 0 {
        lemma_min_len_unsigned((2 * v) as nat, n);
    } else {
        lemma_min_len_unsigned((-2 * v - 2) as nat, n);
    }
}

/// A group of `n` bytes writes `v` seven bits at a time, least significant first:
/// the low seven bits of byte `k` are `(v / 128^k) % 128`, and its high bit is set
/// exactly when it is not the last byte.
pub proof fn lemma_leb_bytes_digits(v: nat, n: nat, k: nat)
    requires
        n >= 1,
        k < n,
    ensures
        leb_bytes(v, n).len() == n,
        pow128(k) == vstd::arithmetic::power::pow(128, k),
        leb_bytes(v, n)[k as int] % 128 == (v / pow128(k)) % 128,
        leb_bytes(v, n)[k as int] >= 128 <==> k < n - 1,
    decreases k,
{
    lemma_leb_bytes_len(v, n);
    reveal(vstd::arithmetic::power::pow);
    if k == 0 {
        assert(pow128(0) == 1);
        assert(vstd::arithmetic::power::pow(128, 0) == 1);
        assert(v / 1 == v);
    } else {
        lemma_leb_bytes_digits(v / 128, (n - 1) as nat, (k - 1) as nat);
        assert(pow128(k) == 128 * pow128((k - 1) as nat));
        assert(vstd::arithmetic::power::pow(128, k) == 128 * vstd::arithmetic::power::pow(128, (k - 1) as nat));
        lemma_pow128_pos((k - 1) as nat);
        assert(leb_bytes(v, n)[k as int] == leb_bytes(v / 128, (n - 1) as nat)[k - 1]);
        vstd::arithmetic::div_mod::lemma_div_denominator(v as int, 128, pow128((k - 1) as nat) as int);
    }
}

/// Reading an unsigned number back from its bytes, whatever follows them, gives it
/// back with the number of bytes that were written.
pub proof fn lemma_unsigned_roundtrip(v: nat, byte_count: nat, max_len: nat, bound: nat, rest: Seq<u8>)
    requires
        max_len >= 1,
        v < bound,
        bound <= pow128(max_len),
    ensures
        ({
            let n = width(min_len_unsigned(v), byte_count, max_len);
            &&& encode_unsigned(v, byte_count, max_len).len() == n
            &&& decode_unsigned(encode_unsigned(v, byte_count, max_len) + rest, max_len, bound)
                == Some((v, n))
        }),
{
    let n = width(min_len_unsigned(v), byte_count, max_len);
    lemma_min_len_unsigned(v, max_len);
    lemma_min_len_unsigned(v, n);
    let e = encode_unsigned(v, byte_count, max_len);
    lemma_leb_bytes_len(v, n);
    let s = e + rest;
    assert(s.subrange(0, n as int) =~= e);
    lemma_read_written_group(s, 0, v, n, max_len);
}

/// An unsigned number read from bytes writes back as those bytes.
pub proof fn lemma_unsigned_rewrite(s: Seq<u8>, max_len: nat, bound: nat)
    requires
        decode_unsigned(s, max_len, bound) is Some,
    ensures
        ({
            let (v, n) = decode_unsigned(s, max_len, bound)->0;
            &&& 1 <= n <= max_len
            &&& n <= s.len()
            &&& v < bound
            &&& width(min_len_unsigned(v), n, max_len) == n
            &&& encode_unsigned(v, n, max_len) == s.take(n as int)
        }),
{
    lemma_group_is_written(s, 0, max_len);
    let n = group_len(s, 0, max_len)->0;
    let v = raw_value(s, 0, n);
    lemma_raw_value_bound(s, 0, n);
    lemma_min_len_unsigned(v, n);
    assert(s.take(n as int) =~= s.subrange(0, n as int));
}

/// Reading a signed number back from its bytes, whatever follows them, gives it
/// back with the number of bytes that were written.
pub proof fn lemma_signed_roundtrip(v: int, byte_count: nat, max_len: nat, half: nat, rest: Seq<u8>)
    requires
        max_len >= 1,
        -half <= v < half,
        half <= 64 * pow128((max_len - 1) as nat),
    ensures
        ({
            let n = width(min_len_signed(v), byte_count, max_len);
            &&& encode_signed(v, byte_count, max_len).len() == n
            &&& decode_signed(encode_signed(v, byte_count, max_len) + rest, max_len, half) == Some(
                (v, n),
            )
        }),
{
    let n = width(min_len_signed(v), byte_count, max_len);
    lemma_min_len_signed(v, max_len);
    lemma_min_len_signed(v, n);
    let p = pow128((n - 1) as nat);
    assert(pow128(n) == 128 * p);
    let u = unsigned_of(v, n);
    assert(u < pow128(n));
    let e = encode_signed(v, byte_count, max_len);
    lemma_leb_bytes_len(u, n);
    let s = e + rest;
    assert(s.subrange(0, n as int) =~= e);
    lemma_read_written_group(s, 0, u, n, max_len);
    assert(signed_of(u, n) == v);
}

/// A signed number read from bytes writes back as those bytes.
pub proof fn lemma_signed_rewrite(s: Seq<u8>, max_len: nat, half: nat)
    requires
        decode_signed(s, max_len, half) is Some,
    ensures
        ({
            let (v, n) = decode_signed(s, max_len, half)->0;
            &&& 1 <= n <= max_len
            &&& n <= s.len()
            &&& -half <= v < half
            &&& width(min_len_signed(v), n, max_len) == n
            &&& encode_signed(v, n, max_len) == s.take(n as int)
        }),
{
    lemma_group_is_written(s, 0, max_len);
    let n = group_len(s, 0, max_len)->0;
    let r = raw_value(s, 0, n);
    let v = signed_of(r, n);
    lemma_raw_value_bound(s, 0, n);
    let p = pow128((n - 1) as nat);
    assert(pow128(n) == 128 * p);
    lemma_min_len_signed(v, n);
    assert(unsigned_of(v, n) == r);
    assert(s.take(n as int) =~= s.subrange(0, n as int));
}

/// Scanning past bytes whose high bit is set.
proof fn lemma_group_len_scan(s: Seq<u8>, i: int, max: nat, m: nat)
    requires
        m <= max,
        0 <= i,
        i + m <= s.len(),
        forall|k: int| i <= k < i + m ==> s[k] >= 128,
    ensures
        group_len(s, i, max) == match group_len(s, i + m, (max - m) as nat) {
            Some(n) => Some(n + m),
            None => None::<nat>,
        },
    decreases m,
{
    if m > 0 {
        lemma_group_len_scan(s, i + 1, (max - 1) as nat, (m - 1) as nat);
    }
}

/// The powers of 128 that bound 32-bit and 64-bit groups.
pub proof fn lemma_pow128_10()
    ensures
        pow128(10) == 0x40_0000_0000_0000_0000,
        pow128(9) == 0x8000_0000_0000_0000,
        pow128(4) == 0x1000_0000,
        pow128(5) == 0x8_0000_0000,
{
    reveal_with_fuel(pow128, 11);
}

/// Reads the group at the front of `bytes`: its raw number and its length.
fn read_group(bytes: &[u8], max_len: usize) -> (r: Option<(u128, usize)>)
    requires
        1 <= max_len <= MAX_LEN_64,
    ensures
        match r {
            Some((raw, n)) => group_len(bytes@, 0, max_len as nat) == Some(n as nat) && raw
                == raw_value(bytes@, 0, n as nat),
            None => group_len(bytes@, 0, max_len as nat) is None,
        },
{
    let mut n: usize = 0;
    while n < max_len && n < bytes.len() && bytes[n] >= 128
        invariant
            n <= max_len,
            n <= bytes.len(),
            forall|k: int| 0 <= k < n ==> bytes@[k] >= 128,
        decreases max_len - n,
    {
        n = n + 1;
    }
    proof {
        lemma_group_len_scan(bytes@, 0, max_len as nat, n as nat);
    }
    if n == max_len || n == bytes.len() {
        return None;
    }
    let len = n + 1;
    let mut acc: u128 = 0;
    let mut j: usize = len;
    proof {
        lemma_pow128_10();
        lemma_pow128_mono(len as nat, 10);
    }
    while j > 0
        invariant
            j <= len,
            len <= MAX_LEN_64,
            len <= bytes.len(),
            pow128(len as nat) <= 0x40_0000_0000_0000_0000,
            acc == raw_value(bytes@, j as int, (len - j) as nat),
            acc < pow128((len - j) as nat),
        decreases j,
    {
        proof {
            lemma_pow128_mono((len - j + 1) as nat, len as nat);
        }
        j = j - 1;
        acc = (bytes[j] % 128) as u128 + 128 * acc;
    }
    Some((acc, len))
}

/// Writes the `len`-byte group of `v`.
fn write_group(out: &mut Vec<u8>, v: u128, len: usize)
    requires
        1 <= len,
    ensures
        final(out)@ == old(out)@ + leb_bytes(v as nat, len as nat),
{
    let mut cur = v;
    let mut i = len;
    while i > 1
        invariant
            1 <= i <= len,
            out@ + leb_bytes(cur as nat, i as nat) == old(out)@ + leb_bytes(v as nat, len as nat),
        decreases i,
    {
        let ghost before = out@;
        out.push((cur % 128 + 128) as u8);
        assert(before + leb_bytes(cur as nat, i as nat) =~= out@ + leb_bytes(
            (cur / 128) as nat,
            (i - 1) as nat,
        ));
        cur = cur / 128;
        i = i - 1;
    }
    let ghost before = out@;
    out.push((cur % 128) as u8);
    assert(out@ =~= before + leb_bytes(cur as nat, 1));
}

/// The fewest bytes that hold `v`.
fn min_len_of(v: u128) -> (n: usize)
    ensures
        n == min_len_unsigned(v as nat),
{
    let mut x = v;
    let mut n: usize = 1;
    proof {
        reveal_with_fuel(pow128, 20);
        lemma_min_len_unsigned(v as nat, 19);
    }
    while x >= 128
        invariant
            min_len_unsigned(v as nat) == n - 1 + min_len_unsigned(x as nat),
            min_len_unsigned(v as nat) <= 19,
            n >= 1,
        decreases x,
    {
        proof {
            lemma_min_len_unsigned((x / 128) as nat, 1);
        }
        x = x / 128;
        n = n + 1;
    }
    n
}

/// `128` to the power `n`.
fn pow128_of(n: usize) -> (p: u128)
    requires
        n <= MAX_LEN_64,
    ensures
        p == pow128(n as nat),
{
    let mut p: u128 = 1;
    let mut i: usize = 0;
    proof {
        lemma_pow128_10();
    }
    while i < n
        invariant
            i <= n <= MAX_LEN_64,
            p == pow128(i as nat),
            pow128(10) == 0x40_0000_0000_0000_0000,
        decreases n - i,
    {
        proof {
            lemma_pow128_mono((i + 1) as nat, 10);
        }
        p = p * 128;
        i = i + 1;
    }
    p
}

/// Reads an unsigned number of at most `max_len` bytes below `bound`.
pub(crate) fn read_unsigned(bytes: &[u8], max_len: usize, bound: u128) -> (r: Option<(u128, usize)>)
    requires
        1 <= max_len <= MAX_LEN_64,
    ensures
        match r {
            Some((v, n)) => decode_unsigned(bytes@, max_len as nat, bound as nat) == Some(
                (v as nat, n as nat),
            ),
            None => decode_unsigned(bytes@, max_len as nat, bound as nat) is None,
        },
{
    match read_group(bytes, max_len) {
        Some((raw, n)) => if raw < bound {
            Some((raw, n))
        } else {
            None
        },
        None => None,
    }
}

/// Reads a signed number of at most `max_len` bytes within `[-half, half)`.
pub(crate) fn read_signed(bytes: &[u8], max_len: usize, half: u128) -> (r: Option<(i128, usize)>)
    requires
        1 <= max_len <= MAX_LEN_64,
        half <= 0x8000_0000_0000_0000,
    ensures
        match r {
            Some((v, n)) => decode_signed(bytes@, max_len as nat, half as nat) == Some(
                (v as int, n as nat),
            ),
            None => decode_signed(bytes@, max_len as nat, half as nat) is None,
        },
{
    match read_group(bytes, max_len) {
        Some((raw, n)) => {
            proof {
                lemma_group_is_written(bytes@, 0, max_len as nat);
                lemma_raw_value_bound(bytes@, 0, n as nat);
                lemma_pow128_10();
                lemma_pow128_mono(n as nat, 10);
                assert(pow128(n as nat) == 128 * pow128((n - 1) as nat));
            }
            let p = pow128_of(n);
            let v: i128 = if raw >= p / 2 {
                raw as i128 - p as i128
            } else {
                raw as i128
            };
            if -(half as i128) <= v && v < half as i128 {
                Some((v, n))
            } else {
                None
            }
        },
        None => None,
    }
}

/// Writes the unsigned number `v` with the bytes that `byte_count` asks for.
pub(crate) fn write_unsigned(out: &mut Vec<u8>, v: u128, byte_count: usize, max_len: usize)
    requires
        1 <= max_len,
    ensures
        final(out)@ == old(out)@ + encode_unsigned(v as nat, byte_count as nat, max_len as nat),
{
    let min = min_len_of(v);
    let n = if min <= byte_count && byte_count <= max_len {
        byte_count
    } else {
        min
    };
    proof {
        lemma_min_len_unsigned(v as nat, 1);
    }
    write_group(out, v, n);
}

/// Writes the signed number `v` with the bytes that `byte_count` asks for.
pub(crate) fn write_signed(out: &mut Vec<u8>, v: i128, byte_count: usize, max_len: usize)
    requires
        1 <= max_len <= MAX_LEN_64,
        -0x8000_0000_0000_0000 <= v < 0x8000_0000_0000_0000,
    ensures
        final(out)@ == old(out)@ + encode_signed(v as int, byte_count as nat, max_len as nat),
{
    let m: u128 = if v >= 0 {
        2 * (v as u128)
    } else {
        let w: i128 = -(v + 1);
        2 * (w as u128)
    };
    let min = min_len_of(m);
    proof {
        lemma_pow128_10();
        lemma_min_len_signed(v as int, 10);
        lemma_min_len_signed(v as int, 1);
    }
    let n = if min <= byte_count && byte_count <= max_len {
        byte_count
    } else {
        min
    };
    proof {
        lemma_min_len_signed(v as int, n as nat);
        lemma_pow128_mono(n as nat, 10);
        assert(pow128(n as nat) == 128 * pow128((n - 1) as nat));
    }
    let p = pow128_of(n);
    let u: u128 = if v >= 0 {
        v as u128
    } else {
        (v + p as i128) as u128
    };
    write_group(out, u, n);
}

} // verus!
