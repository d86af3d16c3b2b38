use vstd::prelude::*;

verus! {

/// Splits two bytes into their four nibbles, most significant first.
pub fn from_bytes(bytes: [u8; 2]) -> (r: [u8; 4])
    ensures
        r[0] == bytes[0] / 16,
        r[1] == bytes[0] % 16,
        r[2] == bytes[1] / 16,
        r[3] == bytes[1] % 16,
{
    let (hi, lo) = (bytes[0], bytes[1]);
    assert((hi & 0xF0) >> 4 == hi / 16 && hi & 0x0F == hi % 16) by (bit_vector);
    assert((lo & 0xF0) >> 4 == lo / 16 && lo & 0x0F == lo % 16) by (bit_vector);
    [(hi & 0xF0) >> 4, hi & 0x0F, (lo & 0xF0) >> 4, lo & 0x0F]
}

/// A register index or a 4-bit immediate, taken from one nibble.
pub fn to_n(n: u8) -> (r: u8)
    ensures
        r == n,
{
    n
}

/// The byte made of nibbles `n3` and `n4`.
pub fn to_nn(n3: u8, n4: u8) -> (r: u8)
    requires
        n3 < 16,
        n4 < 16,
    ensures
        r == n3 * 16 + n4,
{
    assert(n3 << 4 == n3 * 16) by (bit_vector)
        requires
            n3 < 16,
    ;
    (n3 << 4) + n4
}

/// The 12-bit address made of nibbles `n2`, `n3` and `n4`.
pub fn to_nnn(n2: u8, n3: u8, n4: u8) -> (r: u16)
    requires
        n2 < 16,
        n3 < 16,
        n4 < 16,
    ensures
        r == n2 * 256 + n3 * 16 + n4,
{
    let (a, b, c) = (n2 as u16, n3 as u16, n4 as u16);
    assert(a << 8 == a * 256 && b << 4 == b * 16) by (bit_vector)
        requires
            a < 16,
            b < 16,
    ;
    (a << 8) + (b << 4) + c
}

} // verus!
