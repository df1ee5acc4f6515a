//! The checksum of a downloaded file: Adler-32 over its bytes, written as
//! eight hexadecimal digits.

use vstd::prelude::*;

verus! {

/// The modulus of both sums: the largest prime below 65536.
pub const MODULUS: u32 = 65521;

/// The first sum: one plus all bytes, modulo 65521.
pub open spec fn low_sum(bytes: Seq<u8>) -> nat
    decreases bytes.len(),
{
    if bytes.len() == 0 {
        1
    } else {
        ((low_sum(bytes.drop_last()) + bytes.last()) % 65521) as nat
    }
}

/// The second sum: the first sums of all prefixes but the empty one, modulo 65521.
pub open spec fn high_sum(bytes: Seq<u8>) -> nat
    decreases bytes.len(),
{
    if bytes.len() == 0 {
        0
    } else {
        ((high_sum(bytes.drop_last()) + low_sum(bytes)) % 65521) as nat
    }
}

/// The Adler-32 checksum: the second sum in the upper half, the first in the lower.
pub open spec fn adler32_of(bytes: Seq<u8>) -> nat {
    high_sum(bytes) * 65536 + low_sum(bytes)
}

/// Computes the Adler-32 checksum of `bytes`.
pub fn adler32(bytes: &[u8]) -> (r: u32)
    ensures
        r == adler32_of(bytes@),
{
    let mut low: u32 = 1;
    let mut high: u32 = 0;
    let mut i: usize = 0;
    assert(bytes@.take(0) =~= Seq::<u8>::empty());
    while i < bytes.len()
        invariant
            i <= bytes.len(),
            low == low_sum(bytes@.take(i as int)),
            high == high_sum(bytes@.take(i as int)),
            low < 65521,
            high < 65521,
        decreases bytes.len() - i,
    {
        proof {
            assert(bytes@.take(i + 1).drop_last() =~= bytes@.take(i as int));
            assert(bytes@.take(i + 1).last() == bytes@[i as int]);
        }
        low = (low + bytes[i] as u32) % MODULUS;
        high = (high + low) % MODULUS;
        i += 1;
    }
    assert(bytes@.take(i as int) =~= bytes@);
    high * 65536 + low
}

/// The character of a hexadecimal digit, in lower case.
pub open spec fn hex_char(d: nat) -> char {
    if d == 0 {
        '0'
    } else if d == 1 {
        '1'
    } else if d == 2 {
        '2'
    } else if d == 3 {
        '3'
    } else if d == 4 {
        '4'
    } else if d == 5 {
        '5'
    } else if d == 6 {
        '6'
    } else if d == 7 {
        '7'
    } else if d == 8 {
        '8'
    } else if d == 9 {
        '9'
    } else if d == 10 {
        'a'
    } else if d == 11 {
        'b'
    } else if d == 12 {
        'c'
    } else if d == 13 {
        'd'
    } else if d == 14 {
        'e'
    } else {
        'f'
    }
}

/// The lowest `digits` hexadecimal digits of `n`, the highest of them first.
pub open spec fn hex(n: nat, digits: nat) -> Seq<char>
    decreases digits,
{
    if digits == 0 {
        Seq::empty()
    } else {
        hex(n / 16, (digits - 1) as nat).push(hex_char(n % 16))
    }
}

/// The text of one hexadecimal digit.
fn hex_digit_text(d: u32) -> (r: &'static str)
    requires
        d < 16,
    ensures
        r@ == seq![hex_char(d as nat)],
{
    proof {
        reveal_strlit("0");
        reveal_strlit("1");
        reveal_strlit("2");
        reveal_strlit("3");
        reveal_strlit("4");
        reveal_strlit("5");
        reveal_strlit("6");
        reveal_strlit("7");
        reveal_strlit("8");
        reveal_strlit("9");
        reveal_strlit("a");
        reveal_strlit("b");
        reveal_strlit("c");
        reveal_strlit("d");
        reveal_strlit("e");
        reveal_strlit("f");
    }
    let r = if d == 0 {
        "0"
    } else if d == 1 {
        "1"
    } else if d == 2 {
        "2"
    } else if d == 3 {
        "3"
    } else if d == 4 {
        "4"
    } else if d == 5 {
        "5"
    } else if d == 6 {
        "6"
    } else if d == 7 {
        "7"
    } else if d == 8 {
        "8"
    } else if d == 9 {
        "9"
    } else if d == 10 {
        "a"
    } else if d == 11 {
        "b"
    } else if d == 12 {
        "c"
    } else if d == 13 {
        "d"
    } else if d == 14 {
        "e"
    } else {
        "f"
    };
    assert(r@ =~= seq![hex_char(d as nat)]);
    r
}

/// Writes the lowest `digits` hexadecimal digits of `n`, the highest of them first.
pub fn hex_text(n: u32, digits: u8) -> (r: String)
    ensures
        r@ == hex(n as nat, digits as nat),
    decreases digits,
{
    if digits == 0 {
        let r = String::new();
        assert(r@ =~= hex(n as nat, 0));
        r
    } else {
        let mut r = hex_text(n / 16, digits - 1);
        r.append(hex_digit_text(n % 16));
        assert(r@ =~= hex(n as nat, digits as nat));
        r
    }
}

/// The checksum of the content of a file, as it is kept in the index.
pub fn content_checksum(bytes: &[u8]) -> (r: String)
    ensures
        r@ == hex(adler32_of(bytes@), 8),
{
    hex_text(adler32(bytes), 8)
}

} // verus!
