//! Little-endian integers.

use vstd::prelude::*;

verus! {

/// The number that four bytes stand for, the lowest byte first.
pub open spec fn le_u32(b: Seq<u8>, at: int) -> u32 {
    (b[at] + b[at + 1] * 0x100 + b[at + 2] * 0x1_0000 + b[at + 3] * 0x100_0000) as u32
}

/// The four bytes of a number, the lowest byte first.
pub open spec fn le_bytes(n: u32) -> Seq<u8> {
    seq![
        (n % 0x100) as u8,
        (n / 0x100 % 0x100) as u8,
        (n / 0x1_0000 % 0x100) as u8,
        (n / 0x100_0000) as u8,
    ]
}

/// The signed number with the same bits.
pub open spec fn signed(n: u32) -> i32 {
    if n < 0x8000_0000 {
        n as i32
    } else {
        (n - 0x1_0000_0000) as i32
    }
}

/// The unsigned number with the same bits.
pub open spec fn unsigned(n: i32) -> u32 {
    if n >= 0 {
        n as u32
    } else {
        (n + 0x1_0000_0000) as u32
    }
}

/// A number reads back from its bytes.
pub proof fn le_reads_back(n: u32)
    ensures
        le_u32(le_bytes(n), 0) == n,
        le_bytes(n).len() == 4,
{
}

/// Four bytes are the bytes of the number that they stand for.
pub proof fn le_writes_back(b: Seq<u8>)
    requires
        b.len() == 4,
    ensures
        le_bytes(le_u32(b, 0)) == b,
{
    le_digits(b[0] as int, b[1] as int, b[2] as int, b[3] as int);
    assert(le_bytes(le_u32(b, 0)) =~= b);
}

proof fn le_digits(a: int, b: int, c: int, d: int)
    requires
        0 <= a < 0x100,
        0 <= b < 0x100,
        0 <= c < 0x100,
        0 <= d < 0x100,
    ensures
        ({
            let n = a + b * 0x100 + c * 0x1_0000 + d * 0x100_0000;
            &&& 0 <= n <= 0xffff_ffff
            &&& n % 0x100 == a
            &&& n / 0x100 % 0x100 == b
            &&& n / 0x1_0000 % 0x100 == c
            &&& n / 0x100_0000 == d
        }),
{
    let n = a + b * 0x100 + c * 0x1_0000 + d * 0x100_0000;
    assert(n / 0x100_0000 == d);
    assert(n / 0x1_0000 == c + d * 0x100);
    assert(n / 0x100 == b + c * 0x100 + d * 0x1_0000);
}

/// The two readings of 32 bits undo each other.
pub proof fn sign_reads_back(n: i32, m: u32)
    ensures
        signed(unsigned(n)) == n,
        unsigned(signed(m)) == m,
{
}

/// The bytes at a position stand for the same number wherever they stand.
pub proof fn le_at(b: Seq<u8>, at: int, part: Seq<u8>)
    requires
        0 <= at,
        at + 4 <= b.len(),
        part.len() == 4,
        b.subrange(at, at + 4) == part,
    ensures
        le_u32(b, at) == le_u32(part, 0),
{
    assert(part[0] == b[at]);
    assert(part[1] == b[at + 1]);
    assert(part[2] == b[at + 2]);
    assert(part[3] == b[at + 3]);
}

/// Reads the number at a position.
pub fn read_u32(b: &[u8], at: usize) -> (r: u32)
    requires
        at + 4 <= b@.len(),
    ensures
        r == le_u32(b@, at as int),
{
    b[at] as u32 + b[at + 1] as u32 * 0x100 + b[at + 2] as u32 * 0x1_0000 + b[at + 3] as u32
        * 0x100_0000
}

/// The signed number with the same bits.
pub fn to_signed(n: u32) -> (r: i32)
    ensures
        r == signed(n),
{
    if n < 0x8000_0000 {
        n as i32
    } else {
        (n as i64 - 0x1_0000_0000) as i32
    }
}

/// The unsigned number with the same bits.
pub fn to_unsigned(n: i32) -> (r: u32)
    ensures
        r == unsigned(n),
{
    if n >= 0 {
        n as u32
    } else {
        (n as i64 + 0x1_0000_0000) as u32
    }
}

/// Appends the bytes of a number.
pub fn push_u32(out: &mut Vec<u8>, n: u32)
    ensures
        final(out)@ == old(out)@ + le_bytes(n),
{
    let ghost before = out@;
    out.push((n % 0x100) as u8);
    out.push((n / 0x100 % 0x100) as u8);
    out.push((n / 0x1_0000 % 0x100) as u8);
    out.push((n / 0x100_0000) as u8);
    assert(out@ =~= before + le_bytes(n));
}

/// Appends bytes.
pub fn push_bytes(out: &mut Vec<u8>, bytes: &[u8])
    ensures
        final(out)@ == old(out)@ + bytes@,
{
    let ghost before = out@;
    let mut i: usize = 0;
    while i < bytes.len()
        invariant
            i <= bytes@.len(),
            out@ == before + bytes@.take(i as int),
        decreases bytes@.len() - i,
    {
        out.push(bytes[i]);
        assert(bytes@.take(i + 1) =~= bytes@.take(i as int).push(bytes@[i as int]));
        assert(out@ =~= before + bytes@.take(i + 1));
        i += 1;
    }
    assert(bytes@.take(i as int) =~= bytes@);
}

/// The bytes `from..to`.
pub fn byte_range(bytes: &[u8], from: usize, to: usize) -> (r: Vec<u8>)
    requires
        from <= to <= bytes@.len(),
    ensures
        r@ == bytes@.subrange(from as int, to as int),
{
    let mut out: Vec<u8> = Vec::new();
    let mut i: usize = from;
    while i < to
        invariant
            from <= i <= to <= bytes@.len(),
            out@ == bytes@.subrange(from as int, i as int),
        decreases to - i,
    {
        out.push(bytes[i]);
        assert(bytes@.subrange(from as int, i + 1) =~= bytes@.subrange(
            from as int,
            i as int,
        ).push(bytes@[i as int]));
        i += 1;
    }
    out
}

} // verus!
