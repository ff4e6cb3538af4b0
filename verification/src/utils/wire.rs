//! Little-endian integers on the wire.

use vstd::prelude::*;
use vstd::string::*;

verus! {

/// The four bytes that stand for `x`, least significant first.
#[verifier::opaque]
pub open spec fn le32(x: u32) -> Seq<u8> {
    seq![
        (x & 0xff) as u8,
        ((x >> 8) & 0xff) as u8,
        ((x >> 16) & 0xff) as u8,
        ((x >> 24) & 0xff) as u8,
    ]
}

/// The integer that the four bytes `w` stand for, least significant first.
#[verifier::opaque]
pub open spec fn from_le32(w: Seq<u8>) -> u32 {
    (w[0] as u32) | (w[1] as u32) << 8 | (w[2] as u32) << 16 | (w[3] as u32) << 24
}

/// The integer that four bytes at position `at` of `bytes` stand for.
pub open spec fn read_le32(bytes: Seq<u8>, at: int) -> u32 {
    from_le32(bytes.subrange(at, at + 4))
}

/// Reading back what `le32` wrote gives the integer that was written.
pub proof fn lemma_le32_round_trip(x: u32)
    ensures
        le32(x).len() == 4,
        from_le32(le32(x)) == x,
{
    reveal(le32);
    reveal(from_le32);
    let a = x & 0xff;
    let b = (x >> 8) & 0xff;
    let c = (x >> 16) & 0xff;
    let d = (x >> 24) & 0xff;
    assert(a < 256 && b < 256 && c < 256 && d < 256 && x == (a | b << 8 | c << 16 | d << 24))
        by (bit_vector)
        requires
            a == x & 0xff,
            b == (x >> 8) & 0xff,
            c == (x >> 16) & 0xff,
            d == (x >> 24) & 0xff,
    ;
    assert((a as u8) as u32 == a);
    assert((b as u8) as u32 == b);
    assert((c as u8) as u32 == c);
    assert((d as u8) as u32 == d);
}

/// Four bytes of a sequence that are the wire form of `x` read back as `x`.
pub proof fn lemma_read_le32_at(bytes: Seq<u8>, at: int, x: u32)
    requires
        0 <= at,
        at + 4 <= bytes.len(),
        bytes.subrange(at, at + 4) == le32(x),
    ensures
        read_le32(bytes, at) == x,
{
    lemma_le32_round_trip(x);
}

/// `n` zero bytes.
pub open spec fn zeros(n: int) -> Seq<u8> {
    Seq::new(n as nat, |i: int| 0u8)
}

/// Appends `n` zero bytes to `out`.
pub fn put_zeros(out: &mut Vec<u8>, n: usize)
    ensures
        final(out)@ == old(out)@ + zeros(n as int),
{
    let mut i: usize = 0;
    proof {
        assert(out@ =~= old(out)@ + zeros(0));
    }
    while i < n
        invariant
            i <= n,
            out@ == old(out)@ + zeros(i as int),
        decreases n - i,
    {
        out.push(0u8);
        i = i + 1;
        proof {
            assert(out@ =~= old(out)@ + zeros(i as int));
        }
    }
}

/// Appends the four little-endian bytes of `x` to `out`.
pub fn put_le32(out: &mut Vec<u8>, x: u32)
    ensures
        final(out)@ == old(out)@ + le32(x),
{
    out.push((x & 0xff) as u8);
    out.push(((x >> 8) & 0xff) as u8);
    out.push(((x >> 16) & 0xff) as u8);
    out.push(((x >> 24) & 0xff) as u8);
    proof {
        reveal(le32);
        assert(out@ =~= old(out)@ + le32(x));
    }
}

/// Reads the little-endian integer at position `at`.
pub fn get_le32(bytes: &[u8], at: usize) -> (x: u32)
    requires
        at + 4 <= bytes@.len(),
    ensures
        x == read_le32(bytes@, at as int),
{
    let n: usize = bytes.len();
    proof {
        reveal(from_le32);
        let w = bytes@.subrange(at as int, at + 4);
        assert(w[0] == bytes@[at as int] && w[1] == bytes@[at + 1] && w[2] == bytes@[at + 2]
            && w[3] == bytes@[at + 3]);
    }
    (bytes[at] as u32) | (bytes[at + 1] as u32) << 8 | (bytes[at + 2] as u32) << 16 | (bytes[at
        + 3] as u32) << 24
}

/// The character of a decimal digit.
pub open spec fn digit_char(d: int) -> char {
    if d == 0 {
        '0'
    } else if d == 1 {
        '1'
    } else if d == 2 {
        '2'
    } else if d == 3 {
        '3'
    } else if d == 4 {
        '4'
    } else if d == 5 {
        '5'
    } else if d == 6 {
        '6'
    } else if d == 7 {
        '7'
    } else if d == 8 {
        '8'
    } else {
        '9'
    }
}

/// The decimal form of a number, without leading zeros.
pub open spec fn decimal_of(n: nat) -> Seq<char>
    decreases n,
{
    if n < 10 {
        seq![digit_char(n as int)]
    } else {
        decimal_of(n / 10) + seq![digit_char((n % 10) as int)]
    }
}

/// The one-character string of a decimal digit.
fn digit_str(d: u64) -> (r: &'static str)
    requires
        d < 10,
    ensures
        r@ == seq![digit_char(d as int)],
{
    proof {
        reveal_strlit("0");
        reveal_strlit("1");
        reveal_strlit("2");
        reveal_strlit("3");
        reveal_strlit("4");
        reveal_strlit("5");
        reveal_strlit("6");
        reveal_strlit("7");
        reveal_strlit("8");
        reveal_strlit("9");
    }
    let r = match d {
        0 => "0",
        1 => "1",
        2 => "2",
        3 => "3",
        4 => "4",
        5 => "5",
        6 => "6",
        7 => "7",
        8 => "8",
        _ => "9",
    };
    proof {
        assert(r@ =~= seq![digit_char(d as int)]);
    }
    r
}

/// The decimal form of a number, without leading zeros.
pub fn decimal(n: u64) -> (r: String)
    ensures
        r@ == decimal_of(n as nat),
    decreases n,
{
    if n < 10 {
        String::from_str(digit_str(n))
    } else {
        let mut s = decimal(n / 10);
        s.append(digit_str(n % 10));
        s
    }
}

} // verus!
