//! Numbers as bytes, in either order.

use vstd::prelude::*;

verus! {

/// The order in which the bytes of a number are laid out.
#[derive(Debug, Clone, Copy, PartialEq, Eq, Structural)]
pub enum ByteOrder {
    Little,
    Big,
}

/// The byte of a number that weighs `weight`.
pub open spec fn byte_at(n: int, weight: int) -> u8 {
    ((n / weight) % 256) as u8
}

/// The four bytes of a number, least significant first.
pub open spec fn u32_little(n: u32) -> Seq<u8> {
    seq![
        byte_at(n as int, 1),
        byte_at(n as int, 0x100),
        byte_at(n as int, 0x1_0000),
        byte_at(n as int, 0x100_0000),
    ]
}

/// The four bytes of a number.
pub open spec fn u32_bytes(order: ByteOrder, n: u32) -> Seq<u8> {
    match order {
        ByteOrder::Little => u32_little(n),
        ByteOrder::Big => u32_little(n).reverse(),
    }
}

/// The eight bytes of a number, least significant first.
pub open spec fn u64_little(n: u64) -> Seq<u8> {
    seq![
        byte_at(n as int, 1),
        byte_at(n as int, 0x100),
        byte_at(n as int, 0x1_0000),
        byte_at(n as int, 0x100_0000),
        byte_at(n as int, 0x1_0000_0000),
        byte_at(n as int, 0x100_0000_0000),
        byte_at(n as int, 0x1_0000_0000_0000),
        byte_at(n as int, 0x100_0000_0000_0000),
    ]
}

/// The eight bytes of a number.
pub open spec fn u64_bytes(order: ByteOrder, n: u64) -> Seq<u8> {
    match order {
        ByteOrder::Little => u64_little(n),
        ByteOrder::Big => u64_little(n).reverse(),
    }
}

/// Dividing by 256 once more is dividing by 256 times as much.
proof fn lemma_next_weight(n: int, weight: int)
    requires
        n >= 0,
        weight > 0,
    ensures
        n / (weight * 0x100) == (n / weight) / 0x100,
{
    vstd::arithmetic::div_mod::lemma_div_denominator(n, weight, 0x100);
}

/// Numbers that agree in what is above a weight and in the byte of that weight
/// agree in what is left from that weight on.
proof fn lemma_same_from_weight(a: int, b: int, weight: int)
    requires
        a >= 0,
        b >= 0,
        weight > 0,
        byte_at(a, weight) == byte_at(b, weight),
        a / (weight * 0x100) == b / (weight * 0x100),
    ensures
        a / weight == b / weight,
{
    lemma_next_weight(a, weight);
    lemma_next_weight(b, weight);
    let x = a / weight;
    let y = b / weight;
    assert(x / 0x100 == y / 0x100);
    assert(x % 0x100 == y % 0x100);
    assert(x == (x / 0x100) * 0x100 + x % 0x100);
}

/// Eight bytes are those of one number only.
pub proof fn law_u64_bytes_are_distinct(order: ByteOrder, a: u64, b: u64)
    requires
        u64_bytes(order, a) == u64_bytes(order, b),
    ensures
        a == b,
{
    let x = u64_little(a);
    let y = u64_little(b);
    assert forall|i: int| 0 <= i < 8 implies x[i] == y[i] by {
        if order is Big {
            assert(x.reverse()[7 - i] == y.reverse()[7 - i]);
        }
    }
    assert(x[0] == y[0] && x[1] == y[1] && x[2] == y[2] && x[3] == y[3]);
    assert(x[4] == y[4] && x[5] == y[5] && x[6] == y[6] && x[7] == y[7]);
    let (m, n) = (a as int, b as int);
    assert(m / 0x1_0000_0000_0000_0000 == 0 && n / 0x1_0000_0000_0000_0000 == 0);
    lemma_same_from_weight(m, n, 0x100_0000_0000_0000);
    lemma_same_from_weight(m, n, 0x1_0000_0000_0000);
    lemma_same_from_weight(m, n, 0x100_0000_0000);
    lemma_same_from_weight(m, n, 0x1_0000_0000);
    lemma_same_from_weight(m, n, 0x100_0000);
    lemma_same_from_weight(m, n, 0x1_0000);
    lemma_same_from_weight(m, n, 0x100);
    lemma_same_from_weight(m, n, 1);
}

/// The number that four bytes hold.
pub open spec fn u32_value(order: ByteOrder, bytes: Seq<u8>) -> int {
    match order {
        ByteOrder::Little => bytes[0] + bytes[1] * 0x100 + bytes[2] * 0x1_0000 + bytes[3]
            * 0x100_0000,
        ByteOrder::Big => bytes[3] + bytes[2] * 0x100 + bytes[1] * 0x1_0000 + bytes[0]
            * 0x100_0000,
    }
}

/// The number that eight bytes hold.
pub open spec fn u64_value(order: ByteOrder, bytes: Seq<u8>) -> int {
    match order {
        ByteOrder::Little => u32_value(order, bytes.subrange(0, 4)) + u32_value(
            order,
            bytes.subrange(4, 8),
        ) * 0x1_0000_0000,
        ByteOrder::Big => u32_value(order, bytes.subrange(4, 8)) + u32_value(
            order,
            bytes.subrange(0, 4),
        ) * 0x1_0000_0000,
    }
}

/// What was laid out in four bytes is read from them again.
pub proof fn law_u32_read_back(order: ByteOrder, n: u32)
    ensures
        u32_value(order, u32_bytes(order, n)) == n,
{
    let m = n as int;
    lemma_next_weight(m, 1);
    lemma_next_weight(m, 0x100);
    lemma_next_weight(m, 0x1_0000);
    let q1 = m / 0x100;
    let q2 = q1 / 0x100;
    assert(m == q1 * 0x100 + m % 0x100);
    assert(q1 == q2 * 0x100 + q1 % 0x100);
    assert(q2 == (q2 / 0x100) * 0x100 + q2 % 0x100);
    assert(q2 / 0x100 < 0x100);
}

/// Lays a number out in four bytes.
pub fn write_u32(order: ByteOrder, n: u32) -> (bytes: [u8; 4])
    ensures
        bytes@ == u32_bytes(order, n),
{
    let b0: u8 = (n % 0x100) as u8;
    let b1: u8 = (n / 0x100 % 0x100) as u8;
    let b2: u8 = (n / 0x1_0000 % 0x100) as u8;
    let b3: u8 = (n / 0x100_0000 % 0x100) as u8;
    let bytes: [u8; 4] = match order {
        ByteOrder::Little => [b0, b1, b2, b3],
        ByteOrder::Big => [b3, b2, b1, b0],
    };
    assert(bytes@ =~= u32_bytes(order, n));
    bytes
}

/// Reads the number that four bytes hold.
pub fn read_u32(order: ByteOrder, bytes: &[u8; 4]) -> (n: u32)
    ensures
        n == u32_value(order, bytes@),
{
    match order {
        ByteOrder::Little => bytes[0] as u32 + bytes[1] as u32 * 0x100 + bytes[2] as u32
            * 0x1_0000 + bytes[3] as u32 * 0x100_0000,
        ByteOrder::Big => bytes[3] as u32 + bytes[2] as u32 * 0x100 + bytes[1] as u32 * 0x1_0000
            + bytes[0] as u32 * 0x100_0000,
    }
}

/// Lays a number out in eight bytes.
pub fn write_u64(order: ByteOrder, n: u64) -> (bytes: [u8; 8])
    ensures
        bytes@ == u64_bytes(order, n),
{
    let b0: u8 = (n % 0x100) as u8;
    let b1: u8 = (n / 0x100 % 0x100) as u8;
    let b2: u8 = (n / 0x1_0000 % 0x100) as u8;
    let b3: u8 = (n / 0x100_0000 % 0x100) as u8;
    let b4: u8 = (n / 0x1_0000_0000 % 0x100) as u8;
    let b5: u8 = (n / 0x100_0000_0000 % 0x100) as u8;
    let b6: u8 = (n / 0x1_0000_0000_0000 % 0x100) as u8;
    let b7: u8 = (n / 0x100_0000_0000_0000 % 0x100) as u8;
    let bytes: [u8; 8] = match order {
        ByteOrder::Little => [b0, b1, b2, b3, b4, b5, b6, b7],
        ByteOrder::Big => [b7, b6, b5, b4, b3, b2, b1, b0],
    };
    assert(bytes@ =~= u64_bytes(order, n));
    bytes
}

/// Reads the number that eight bytes hold.
pub fn read_u64(order: ByteOrder, bytes: &[u8; 8]) -> (n: u64)
    ensures
        n == u64_value(order, bytes@),
{
    let first: [u8; 4] = [bytes[0], bytes[1], bytes[2], bytes[3]];
    let last: [u8; 4] = [bytes[4], bytes[5], bytes[6], bytes[7]];
    assert(first@ =~= bytes@.subrange(0, 4));
    assert(last@ =~= bytes@.subrange(4, 8));
    let a: u64 = read_u32(order, &first) as u64;
    let b: u64 = read_u32(order, &last) as u64;
    match order {
        ByteOrder::Little => a + b * 0x1_0000_0000,
        ByteOrder::Big => b + a * 0x1_0000_0000,
    }
}

} // verus!
