use vstd::prelude::*;

use vstd::arithmetic::div_mod::{
    lemma_fundamental_div_mod, lemma_fundamental_div_mod_converse, lemma_multiply_divide_lt,
};

use crate::order::ByteOrder;

verus! {

/// 256 raised to the power `w`: the number of distinct `w`-byte values.
pub open spec fn pow256(w: nat) -> nat
    decreases w,
{
    if w == 0 {
        1
    } else {
        256 * pow256((w - 1) as nat)
    }
}

/// `pow256` at the widths the codec supports.
pub proof fn lemma_pow256_values()
    ensures
        pow256(0) == 1,
        pow256(1) == 0x100,
        pow256(2) == 0x1_0000,
        pow256(4) == 0x1_0000_0000,
        pow256(8) == 0x1_0000_0000_0000_0000,
{
    reveal_with_fuel(pow256, 9);
}

pub proof fn lemma_pow256_pos(w: nat)
    ensures
        pow256(w) >= 1,
    decreases w,
{
    if w > 0 {
        lemma_pow256_pos((w - 1) as nat);
    }
}

pub proof fn lemma_pow256_increases(a: nat, b: nat)
    requires
        a <= b,
    ensures
        pow256(a) <= pow256(b),
    decreases b,
{
    if a < b {
        lemma_pow256_increases(a, (b - 1) as nat);
        lemma_pow256_pos((b - 1) as nat);
    }
}

/// The unsigned value of a little-endian byte sequence: the first byte is the
/// least significant.
pub open spec fn le_value(b: Seq<u8>) -> nat
    decreases b.len(),
{
    if b.len() == 0 {
        0
    } else {
        (b[0] + 256 * le_value(b.drop_first())) as nat
    }
}

/// The `w` little-endian bytes of `v % pow256(w)`.
pub open spec fn le_bytes(v: nat, w: nat) -> Seq<u8>
    decreases w,
{
    if w == 0 {
        Seq::empty()
    } else {
        seq![(v % 256) as u8] + le_bytes(v / 256, (w - 1) as nat)
    }
}

/// The byte sequence in the position it is read or written: little-endian
/// values use the bytes as they stand, big-endian values reverse them.
pub open spec fn ordered(b: Seq<u8>, order: ByteOrder) -> Seq<u8> {
    match order {
        ByteOrder::Little => b,
        ByteOrder::Big => b.reverse(),
    }
}

/// The unsigned value of `b` read in `order`.
pub open spec fn unsigned_value(b: Seq<u8>, order: ByteOrder) -> nat {
    le_value(ordered(b, order))
}

/// The `w`-byte encoding of `v % pow256(w)` in `order`.
pub open spec fn unsigned_bytes(v: nat, w: nat, order: ByteOrder) -> Seq<u8> {
    ordered(le_bytes(v, w), order)
}

/// The signed reading of an unsigned `w`-byte value: two's complement.
pub open spec fn as_signed(u: nat, w: nat) -> int {
    if u < pow256(w) / 2 {
        u as int
    } else {
        u as int - pow256(w) as int
    }
}

/// The unsigned `w`-byte representative of a signed value: two's complement.
pub open spec fn from_signed(i: int, w: nat) -> nat {
    if i >= 0 {
        i as nat
    } else {
        (i + pow256(w)) as nat
    }
}

/// The signed value of `b` read in `order`.
pub open spec fn signed_value(b: Seq<u8>, order: ByteOrder) -> int {
    as_signed(unsigned_value(b, order), b.len())
}

/// The unsigned value of `w` bytes fits in `w` bytes, whatever the order.
pub proof fn lemma_unsigned_value_bound(b: Seq<u8>, order: ByteOrder)
    ensures
        unsigned_value(b, order) < pow256(b.len()),
{
    lemma_le_value_bound(ordered(b, order));
}

pub proof fn lemma_le_value_bound(b: Seq<u8>)
    ensures
        le_value(b) < pow256(b.len()),
    decreases b.len(),
{
    if b.len() > 0 {
        lemma_le_value_bound(b.drop_first());
    }
}

/// Decoding the `w`-byte little-endian encoding of `v` returns `v`.
pub proof fn lemma_le_round_trip(v: nat, w: nat)
    requires
        v < pow256(w),
    ensures
        le_bytes(v, w).len() == w,
        le_value(le_bytes(v, w)) == v,
    decreases w,
{
    if w > 0 {
        lemma_fundamental_div_mod(v as int, 256);
        lemma_multiply_divide_lt(v as int, 256, pow256((w - 1) as nat) as int);
        lemma_le_round_trip(v / 256, (w - 1) as nat);
        assert(le_bytes(v, w).drop_first() =~= le_bytes(v / 256, (w - 1) as nat));
    }
}

/// Encoding the little-endian value of `b` over `b.len()` bytes returns `b`.
pub proof fn lemma_le_bytes_round_trip(b: Seq<u8>)
    ensures
        le_bytes(le_value(b), b.len()) == b,
    decreases b.len(),
{
    if b.len() == 0 {
        assert(le_bytes(le_value(b), 0) =~= b);
    } else {
        let rest = b.drop_first();
        lemma_le_bytes_round_trip(rest);
        lemma_le_value_bound(rest);
        let v = le_value(b);
        lemma_fundamental_div_mod_converse(v as int, 256, le_value(rest) as int, b[0] as int);
        assert(le_bytes(v, b.len()) =~= b) by {
            assert(le_bytes(v, b.len()) == seq![(v % 256) as u8] + le_bytes(v / 256, rest.len()));
        };
    }
}

/// Round trip from value to bytes and back, in either order: decoding the
/// `w`-byte encoding of any `v < pow256(w)` returns `v`.
pub proof fn lemma_unsigned_round_trip(v: nat, w: nat, order: ByteOrder)
    requires
        v < pow256(w),
    ensures
        unsigned_bytes(v, w, order).len() == w,
        unsigned_value(unsigned_bytes(v, w, order), order) == v,
{
    lemma_le_round_trip(v, w);
    if order is Big {
        assert(le_bytes(v, w).reverse().reverse() =~= le_bytes(v, w));
    }
}

/// Round trip from bytes to value and back, in either order: encoding the
/// value of any byte sequence over its own length returns the same bytes.
pub proof fn lemma_unsigned_bytes_round_trip(b: Seq<u8>, order: ByteOrder)
    ensures
        unsigned_value(b, order) < pow256(b.len()),
        unsigned_bytes(unsigned_value(b, order), b.len(), order) == b,
{
    match order {
        ByteOrder::Little => {
            lemma_le_value_bound(b);
            lemma_le_bytes_round_trip(b);
        },
        ByteOrder::Big => {
            lemma_le_value_bound(b.reverse());
            lemma_le_bytes_round_trip(b.reverse());
            assert(b.reverse().reverse() =~= b);
        },
    }
}

pub proof fn lemma_pow256_even(w: nat)
    requires
        w >= 1,
    ensures
        pow256(w) == 2 * (pow256(w) / 2),
        pow256(w) / 2 >= 128,
{
    lemma_pow256_pos((w - 1) as nat);
    assert(pow256(w) == 256 * pow256((w - 1) as nat));
    lemma_fundamental_div_mod_converse(
        pow256(w) as int,
        2,
        128 * pow256((w - 1) as nat) as int,
        0,
    );
}

/// The two's-complement representative of a `w`-byte signed value decodes to
/// the same value.
pub proof fn lemma_signed_round_trip(i: int, w: nat)
    requires
        w >= 1,
        -((pow256(w) / 2) as int) <= i < pow256(w) / 2,
    ensures
        from_signed(i, w) < pow256(w),
        as_signed(from_signed(i, w), w) == i,
{
    lemma_pow256_even(w);
}

/// The signed reading of a `w`-byte unsigned value maps back to the same
/// unsigned value.
pub proof fn lemma_as_signed_round_trip(u: nat, w: nat)
    requires
        w >= 1,
        u < pow256(w),
    ensures
        -((pow256(w) / 2) as int) <= as_signed(u, w) < pow256(w) / 2,
        from_signed(as_signed(u, w), w) == u,
{
    lemma_pow256_even(w);
}

/// Round trip for signed values, in either order: the signed decode of the
/// `w`-byte two's-complement encoding of any representable `i` returns `i`.
pub proof fn lemma_signed_value_round_trip(i: int, w: nat, order: ByteOrder)
    requires
        w >= 1,
        -((pow256(w) / 2) as int) <= i < pow256(w) / 2,
    ensures
        signed_value(unsigned_bytes(from_signed(i, w), w, order), order) == i,
{
    lemma_signed_round_trip(i, w);
    lemma_unsigned_round_trip(from_signed(i, w), w, order);
}

/// Casting `u8` to `i8` reinterprets the byte as two's complement.
pub proof fn lemma_u8_as_i8(u: u8)
    by (bit_vector)
    ensures
        (u as i8) as int == if u < 0x80 {
            u as int
        } else {
            u as int - 0x100
        },
{
}

/// Casting `u16` to `i16` reinterprets the bytes as two's complement.
pub proof fn lemma_u16_as_i16(u: u16)
    by (bit_vector)
    ensures
        (u as i16) as int == if u < 0x8000 {
            u as int
        } else {
            u as int - 0x1_0000
        },
{
}

/// Casting `u32` to `i32` reinterprets the bytes as two's complement.
pub proof fn lemma_u32_as_i32(u: u32)
    by (bit_vector)
    ensures
        (u as i32) as int == if u < 0x8000_0000 {
            u as int
        } else {
            u as int - 0x1_0000_0000
        },
{
}

/// Casting `u64` to `i64` reinterprets the bytes as two's complement.
pub proof fn lemma_u64_as_i64(u: u64)
    by (bit_vector)
    ensures
        (u as i64) as int == if u < 0x8000_0000_0000_0000 {
            u as int
        } else {
            u as int - 0x1_0000_0000_0000_0000
        },
{
}

/// Casting `i8` to `u8` yields the two's-complement representative.
pub proof fn lemma_i8_as_u8(v: i8)
    by (bit_vector)
    ensures
        (v as u8) as int == if v >= 0 {
            v as int
        } else {
            v as int + 0x100
        },
{
}

/// Casting `i16` to `u16` yields the two's-complement representative.
pub proof fn lemma_i16_as_u16(v: i16)
    by (bit_vector)
    ensures
        (v as u16) as int == if v >= 0 {
            v as int
        } else {
            v as int + 0x1_0000
        },
{
}

/// Casting `i32` to `u32` yields the two's-complement representative.
pub proof fn lemma_i32_as_u32(v: i32)
    by (bit_vector)
    ensures
        (v as u32) as int == if v >= 0 {
            v as int
        } else {
            v as int + 0x1_0000_0000
        },
{
}

/// Casting `i64` to `u64` yields the two's-complement representative.
pub proof fn lemma_i64_as_u64(v: i64)
    by (bit_vector)
    ensures
        (v as u64) as int == if v >= 0 {
            v as int
        } else {
            v as int + 0x1_0000_0000_0000_0000
        },
{
}

/// Builds the reversed copy of a byte slice.
fn reversed(bytes: &[u8]) -> (r: Vec<u8>)
    ensures
        r@ == bytes@.reverse(),
{
    let n = bytes.len();
    let mut out: Vec<u8> = Vec::new();
    for i in 0..n
        invariant
            n == bytes@.len(),
            out@.len() == i,
            forall|j: int| 0 <= j < i ==> out@[j] == bytes@[n - 1 - j],
    {
        out.push(bytes[n - 1 - i]);
    }
    proof {
        assert(out@ =~= bytes@.reverse());
    }
    out
}

/// Reads a little-endian unsigned value of at most eight bytes.
fn decode_le(bytes: &[u8]) -> (r: u64)
    requires
        bytes@.len() <= 8,
    ensures
        r as nat == le_value(bytes@),
{
    let n = bytes.len();
    let mut value: u64 = 0;
    let mut i: usize = n;
    while i > 0
        invariant
            i <= n,
            n == bytes@.len(),
            n <= 8,
            value as nat == le_value(bytes@.skip(i as int)),
        decreases i,
    {
        i = i - 1;
        proof {
            let tail = bytes@.skip(i as int);
            assert(tail.drop_first() =~= bytes@.skip(i as int + 1));
            lemma_le_value_bound(tail);
            lemma_pow256_increases(tail.len() as nat, 8);
            lemma_pow256_values();
        }
        value = value * 256 + (bytes[i] as u64);
    }
    proof {
        assert(bytes@.skip(0) =~= bytes@);
    }
    value
}

/// Decodes at most eight bytes as an unsigned integer in the given order.
pub fn decode_unsigned(bytes: &[u8], order: ByteOrder) -> (r: u64)
    requires
        bytes@.len() <= 8,
    ensures
        r as nat == unsigned_value(bytes@, order),
{
    match order {
        ByteOrder::Little => decode_le(bytes),
        ByteOrder::Big => {
            let rev = reversed(bytes);
            decode_le(rev.as_slice())
        },
    }
}

/// Writes the `width` little-endian bytes of `value % pow256(width)`.
fn encode_le(value: u64, width: usize) -> (r: Vec<u8>)
    ensures
        r@ == le_bytes(value as nat, width as nat),
{
    let mut out: Vec<u8> = Vec::new();
    let mut v: u64 = value;
    let mut i: usize = 0;
    while i < width
        invariant
            i <= width,
            out@.len() == i,
            le_bytes(value as nat, width as nat) == out@ + le_bytes(
                v as nat,
                (width - i) as nat,
            ),
        decreases width - i,
    {
        let ghost pre_out = out@;
        let ghost pre_v = v as nat;
        let ghost rem = (width - i) as nat;
        let b = (v % 256) as u8;
        out.push(b);
        v = v / 256;
        i = i + 1;
        proof {
            assert(le_bytes(pre_v, rem) == seq![b] + le_bytes(
                pre_v / 256,
                (rem - 1) as nat,
            ));
            assert(pre_out + le_bytes(pre_v, rem) =~= out@ + le_bytes(v as nat, (rem - 1) as nat));
        }
    }
    proof {
        assert(le_bytes(value as nat, width as nat) =~= out@);
    }
    out
}

/// Encodes `value % pow256(width)` into exactly `width` bytes in the given
/// order.
pub fn encode_unsigned(value: u64, width: usize, order: ByteOrder) -> (r: Vec<u8>)
    ensures
        r@ == unsigned_bytes(value as nat, width as nat, order),
{
    let le = encode_le(value, width);
    match order {
        ByteOrder::Little => le,
        ByteOrder::Big => reversed(le.as_slice()),
    }
}

} // verus!
