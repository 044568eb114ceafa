//! Byte buffers and the big-endian integers of the wire protocol.

use vstd::prelude::*;

verus! {

/// Appends a slice to a buffer.
pub fn extend(dst: &mut Vec<u8>, src: &[u8])
    ensures
        final(dst)@ == old(dst)@ + src@,
{
    let ghost before = dst@;
    dst.extend_from_slice(src);
    assert(dst@ =~= before + src@);
}

/// Copies a slice.
pub fn to_vec(src: &[u8]) -> (r: Vec<u8>)
    ensures
        r@ == src@,
{
    let mut out: Vec<u8> = Vec::new();
    extend(&mut out, src);
    assert(out@ =~= src@);
    out
}

/// Copies a buffer.
pub fn copy_of(src: &Vec<u8>) -> (r: Vec<u8>)
    ensures
        r@ == src@,
{
    to_vec(src.as_slice())
}

/// The bytes of each buffer in a list.
pub open spec fn buffers_view(v: Seq<Vec<u8>>) -> Seq<Seq<u8>> {
    v.map_values(|b: Vec<u8>| b@)
}

/// The `n` bytes of `x` with the most significant byte first; higher bytes are cut off.
pub open spec fn be(x: nat, n: nat) -> Seq<u8>
    decreases n,
{
    if n == 0 {
        Seq::empty()
    } else {
        be(x / 256, (n - 1) as nat).push((x % 256) as u8)
    }
}

/// The number that bytes stand for, the most significant byte first.
pub open spec fn be_value(s: Seq<u8>) -> nat
    decreases s.len(),
{
    if s.len() == 0 {
        0
    } else {
        256 * be_value(s.drop_last()) + s.last() as nat
    }
}

/// The number of values that `n` bytes can hold.
pub open spec fn byte_range(n: nat) -> nat
    decreases n,
{
    if n == 0 {
        1
    } else {
        256 * byte_range((n - 1) as nat)
    }
}

/// `be` gives as many bytes as asked for.
pub proof fn lemma_be_len(x: nat, n: nat)
    ensures
        be(x, n).len() == n,
    decreases n,
{
    if n > 0 {
        lemma_be_len(x / 256, (n - 1) as nat);
    }
}

/// A number that fits in `n` bytes is what its `n` big-endian bytes stand for.
pub proof fn law_be_round_trip(x: nat, n: nat)
    requires
        x < byte_range(n),
    ensures
        be_value(be(x, n)) == x,
    decreases n,
{
    lemma_be_len(x, n);
    if n > 0 {
        let m = (n - 1) as nat;
        assert(x / 256 < byte_range(m)) by (nonlinear_arith)
            requires
                x < 256 * byte_range(m),
        ;
        law_be_round_trip(x / 256, m);
        lemma_be_len(x / 256, m);
        assert(be(x, n).drop_last() =~= be(x / 256, m));
    } else {
        assert(byte_range(0) == 1);
    }
}

/// Bytes are the big-endian form of the number that they stand for.
pub proof fn law_be_value_round_trip(s: Seq<u8>)
    ensures
        be(be_value(s), s.len()) == s,
        be_value(s) < byte_range(s.len()),
    decreases s.len(),
{
    if s.len() > 0 {
        let t = s.drop_last();
        law_be_value_round_trip(t);
        let v = be_value(s);
        assert(v / 256 == be_value(t));
        assert(v % 256 == s.last() as nat);
        assert(be(v, s.len()) =~= s);
    } else {
        assert(be(0, 0) =~= s);
    }
}

/// The 64-bit two's complement form of a signed number, as an unsigned one.
pub open spec fn twos_64(x: int) -> nat {
    if x >= 0 {
        x as nat
    } else {
        (x + 0x1_0000_0000_0000_0000) as nat
    }
}

/// The 32-bit two's complement form of a signed number, as an unsigned one.
pub open spec fn twos_32(x: int) -> nat {
    if x >= 0 {
        x as nat
    } else {
        (x + 0x1_0000_0000) as nat
    }
}

/// The 16-bit two's complement form of a signed number, as an unsigned one.
pub open spec fn twos_16(x: int) -> nat {
    if x >= 0 {
        x as nat
    } else {
        (x + 0x1_0000) as nat
    }
}

/// The ranges of one, two, four and eight bytes.
pub proof fn lemma_byte_range()
    ensures
        byte_range(1) == 0x100,
        byte_range(2) == 0x1_0000,
        byte_range(4) == 0x1_0000_0000,
        byte_range(8) == 0x1_0000_0000_0000_0000,
        forall|k: nat| k <= 8 ==> #[trigger] byte_range(k) <= 0x1_0000_0000_0000_0000,
{
    reveal_with_fuel(byte_range, 10);
    assert forall|k: nat| k <= 8 implies #[trigger] byte_range(k) <= 0x1_0000_0000_0000_0000 by {
        assert(k == 0 || k == 1 || k == 2 || k == 3 || k == 4 || k == 5 || k == 6 || k == 7 || k
            == 8);
    }
}

/// Appends the two big-endian bytes of `x`.
pub fn put_u16(dst: &mut Vec<u8>, x: u16)
    ensures
        final(dst)@ == old(dst)@ + be(x as nat, 2),
{
    let ghost before = dst@;
    dst.push((x / 256) as u8);
    dst.push((x % 256) as u8);
    proof {
        reveal_with_fuel(be, 3);
        assert(dst@ =~= before + be(x as nat, 2));
    }
}

/// Appends the four big-endian bytes of `x`.
pub fn put_u32(dst: &mut Vec<u8>, x: u32)
    ensures
        final(dst)@ == old(dst)@ + be(x as nat, 4),
{
    let ghost before = dst@;
    put_u16(dst, (x / 65536) as u16);
    put_u16(dst, (x % 65536) as u16);
    proof {
        lemma_be_split_32(x as nat);
        assert(dst@ =~= before + be(x as nat, 4));
    }
}

proof fn lemma_be_split_32(x: nat)
    requires
        x < 0x1_0000_0000,
    ensures
        be(x, 4) == be(x / 65536, 2) + be(x % 65536, 2),
{
    reveal_with_fuel(be, 5);
    assert(x / 256 / 256 == x / 65536);
    assert((x % 65536) / 256 == (x / 256) % 256);
    assert((x % 65536) % 256 == x % 256);
    assert(x / 256 / 256 / 256 == x / 65536 / 256);
    assert(be(x, 4) =~= be(x / 65536, 2) + be(x % 65536, 2));
}

proof fn lemma_be_split_64(x: nat)
    requires
        x < 0x1_0000_0000_0000_0000,
    ensures
        be(x, 8) == be(x / 0x1_0000_0000, 4) + be(x % 0x1_0000_0000, 4),
{
    let hi = x / 0x1_0000_0000;
    let lo = x % 0x1_0000_0000;
    let x1 = x / 256;
    let x2 = x1 / 256;
    let x3 = x2 / 256;
    let x4 = x3 / 256;
    assert(x4 == hi);
    assert(be(x, 8) == be(x1, 7).push((x % 256) as u8));
    assert(be(x1, 7) == be(x2, 6).push((x1 % 256) as u8));
    assert(be(x2, 6) == be(x3, 5).push((x2 % 256) as u8));
    assert(be(x3, 5) == be(x4, 4).push((x3 % 256) as u8));
    reveal_with_fuel(be, 5);
    assert(lo % 256 == x % 256);
    assert(lo / 256 % 256 == x1 % 256);
    assert(lo / 256 / 256 % 256 == x2 % 256);
    assert(lo / 256 / 256 / 256 % 256 == x3 % 256);
    assert(be(lo, 4) =~= seq![
        (x3 % 256) as u8,
        (x2 % 256) as u8,
        (x1 % 256) as u8,
        (x % 256) as u8,
    ]);
    assert(be(x, 8) =~= be(hi, 4) + be(lo, 4));
}

/// Two bytes hold a number up to its remainder modulo their range.
pub proof fn lemma_be_truncates_16(x: nat)
    ensures
        be(x % 0x1_0000, 2) == be(x, 2),
{
    reveal_with_fuel(be, 3);
    assert((x % 0x1_0000) / 256 % 256 == x / 256 % 256);
    assert((x % 0x1_0000) % 256 == x % 256);
    assert(be(x % 0x1_0000, 2) =~= be(x, 2));
}

/// Four bytes hold a number up to its remainder modulo their range.
pub proof fn lemma_be_truncates_32(x: nat)
    ensures
        be(x % 0x1_0000_0000, 4) == be(x, 4),
{
    let y = x % 0x1_0000_0000;
    reveal_with_fuel(be, 5);
    assert(y % 256 == x % 256);
    assert(y / 256 % 256 == x / 256 % 256);
    assert(y / 256 / 256 % 256 == x / 256 / 256 % 256);
    assert(y / 256 / 256 / 256 % 256 == x / 256 / 256 / 256 % 256);
    assert(be(y, 4) =~= be(x, 4));
}

/// Appends the eight big-endian bytes of `x`.
pub fn put_u64(dst: &mut Vec<u8>, x: u64)
    ensures
        final(dst)@ == old(dst)@ + be(x as nat, 8),
{
    let ghost before = dst@;
    put_u32(dst, (x / 0x1_0000_0000) as u32);
    put_u32(dst, (x % 0x1_0000_0000) as u32);
    proof {
        lemma_be_split_64(x as nat);
        assert(dst@ =~= before + be(x as nat, 8));
    }
}

/// Appends the eight big-endian bytes of the two's complement form of `x`.
pub fn put_i64(dst: &mut Vec<u8>, x: i64)
    ensures
        final(dst)@ == old(dst)@ + be(twos_64(x as int), 8),
{
    let u: u64 = if x >= 0 {
        x as u64
    } else {
        (x - i64::MIN) as u64 + 0x8000_0000_0000_0000
    };
    put_u64(dst, u)
}

/// Appends the four big-endian bytes of the two's complement form of `x`.
pub fn put_i32(dst: &mut Vec<u8>, x: i32)
    ensures
        final(dst)@ == old(dst)@ + be(twos_32(x as int), 4),
{
    let u: u32 = if x >= 0 {
        x as u32
    } else {
        (x - i32::MIN) as u32 + 0x8000_0000
    };
    put_u32(dst, u)
}

/// Appends the two big-endian bytes of the two's complement form of `x`.
pub fn put_i16(dst: &mut Vec<u8>, x: i16)
    ensures
        final(dst)@ == old(dst)@ + be(twos_16(x as int), 2),
{
    let u: u16 = if x >= 0 {
        x as u16
    } else {
        (x - i16::MIN) as u16 + 0x8000
    };
    put_u16(dst, u)
}

/// Reads the number that `n` bytes from position `at` stand for.
pub fn read_be(s: &[u8], at: usize, n: usize) -> (r: u64)
    requires
        n <= 8,
        at + n <= s@.len(),
    ensures
        r == be_value(s@.subrange(at as int, at + n)),
        r < byte_range(n as nat),
{
    let len: usize = s.len();
    let mut v: u64 = 0;
    let mut k: usize = 0;
    proof {
        assert(s@.subrange(at as int, at as int) =~= Seq::empty());
        lemma_byte_range();
        assert(byte_range(0) == 1);
    }
    while k < n
        invariant
            k <= n <= 8,
            at + n <= len,
            len == s@.len(),
            v == be_value(s@.subrange(at as int, at + k)),
            v < byte_range(k as nat),
            forall|j: nat| j <= 8 ==> #[trigger] byte_range(j) <= 0x1_0000_0000_0000_0000,
        decreases n - k,
    {
        proof {
            let t = s@.subrange(at as int, at + k + 1);
            assert(t.drop_last() =~= s@.subrange(at as int, at + k));
            assert(t.last() == s@[at + k]);
            assert(byte_range((k + 1) as nat) == 256 * byte_range(k as nat));
        }
        v = v * 256 + s[at + k] as u64;
        k = k + 1;
    }
    v
}

/// Reads a big-endian 64-bit number.
pub fn get_u64(s: &[u8], at: usize) -> (r: u64)
    requires
        at + 8 <= s@.len(),
    ensures
        r == be_value(s@.subrange(at as int, at + 8)),
{
    read_be(s, at, 8)
}

/// Reads a big-endian 32-bit number.
pub fn get_u32(s: &[u8], at: usize) -> (r: u32)
    requires
        at + 4 <= s@.len(),
    ensures
        r == be_value(s@.subrange(at as int, at + 4)),
{
    let v: u64 = read_be(s, at, 4);
    proof {
        lemma_byte_range();
    }
    v as u32
}

/// Reads a big-endian 16-bit number.
pub fn get_u16(s: &[u8], at: usize) -> (r: u16)
    requires
        at + 2 <= s@.len(),
    ensures
        r == be_value(s@.subrange(at as int, at + 2)),
{
    let v: u64 = read_be(s, at, 2);
    proof {
        lemma_byte_range();
    }
    v as u16
}

/// The bytes of a number run from the most significant one down: the last byte is the remainder by
/// 256, and those in front of it are the bytes of the quotient. One byte is its own value, and in
/// front of others it counts for their whole range.
pub proof fn law_most_significant_first(x: nat, n: nat, s: Seq<u8>, t: Seq<u8>)
    ensures
        be(x, n).len() == n,
        n > 0 ==> be(x, n).last() == x % 256 && be(x, n).drop_last() == be(x / 256, (n - 1) as nat),
        s.len() == 1 ==> be_value(s) == s[0],
        s.len() == 2 ==> be_value(s) == 0x100 * s[0] + s[1],
        s.len() == 4 ==> be_value(s) == 0x100_0000 * s[0] + 0x1_0000 * s[1] + 0x100 * s[2] + s[3],
        be_value(s + t) == be_value(s) * byte_range(t.len()) + be_value(t),
{
    lemma_be_len(x, n);
    if n > 0 {
        lemma_be_len(x / 256, (n - 1) as nat);
        assert(be(x, n).drop_last() =~= be(x / 256, (n - 1) as nat));
    }
    reveal_with_fuel(be_value, 5);
    if s.len() == 4 {
        assert(s.drop_last()[2] == s[2] && s.drop_last().drop_last()[1] == s[1]);
    }
    lemma_be_value_concat(s, t);
}

proof fn lemma_be_value_concat(s: Seq<u8>, t: Seq<u8>)
    ensures
        be_value(s + t) == be_value(s) * byte_range(t.len()) + be_value(t),
    decreases t.len(),
{
    if t.len() == 0 {
        assert(s + t =~= s);
        assert(byte_range(0) == 1);
    } else {
        let u = t.drop_last();
        lemma_be_value_concat(s, u);
        assert((s + t).drop_last() =~= s + u);
        assert((s + t).last() == t.last());
        let v = be_value(s) as int;
        let r = byte_range(u.len()) as int;
        assert(byte_range(t.len()) == 256 * byte_range(u.len()));
        assert(v * (256 * r) == 256 * (v * r)) by (nonlinear_arith);
    }
}

/// The two's complement form of a number is the number itself, or the number plus the whole range
/// where it is below zero: the upper half of the range stands for the numbers below zero.
pub proof fn law_twos_complement(x: int)
    ensures
        -0x8000 <= x < 0x8000 ==> twos_16(x) < 0x1_0000 && x == (if twos_16(x) >= 0x8000 {
            twos_16(x) - 0x1_0000
        } else {
            twos_16(x) as int
        }),
        -0x8000_0000 <= x < 0x8000_0000 ==> twos_32(x) < 0x1_0000_0000 && x == (if twos_32(x)
            >= 0x8000_0000 {
            twos_32(x) - 0x1_0000_0000
        } else {
            twos_32(x) as int
        }),
        -0x8000_0000_0000_0000 <= x < 0x8000_0000_0000_0000 ==> twos_64(x)
            < 0x1_0000_0000_0000_0000 && x == (if twos_64(x) >= 0x8000_0000_0000_0000 {
            twos_64(x) - 0x1_0000_0000_0000_0000
        } else {
            twos_64(x) as int
        }),
{
}

/// Two bytes give back a number up to its remainder by 65536, four up to that by 4294967296.
pub proof fn law_be_cuts_off(x: nat)
    ensures
        be_value(be(x, 2)) == x % 0x1_0000,
        be_value(be(x, 4)) == x % 0x1_0000_0000,
{
    lemma_byte_range();
    lemma_be_truncates_16(x);
    lemma_be_truncates_32(x);
    law_be_round_trip(x % 0x1_0000, 2);
    law_be_round_trip(x % 0x1_0000_0000, 4);
}

} // verus!
