//! Byte-level helpers shared by the columnar codec and the request signer:
//! two's-complement wire form of signed cells, decimal and hexadecimal
//! rendering, and appending byte strings to a growing buffer.
use vstd::prelude::*;
use vstd::string::StringSliceAdditionalSpecFns;

verus! {

/// Wire form of a signed 64-bit cell: its two's-complement value.
pub open spec fn cell_wire(v: i64) -> u64 {
    if v >= 0 {
        v as u64
    } else {
        (v as int + 0x1_0000_0000_0000_0000) as u64
    }
}

/// Inverse of [`cell_wire`].
pub open spec fn wire_cell(w: u64) -> i64 {
    if w < 0x8000_0000_0000_0000 {
        w as i64
    } else {
        (w as int - 0x1_0000_0000_0000_0000) as i64
    }
}

pub proof fn lemma_wire_roundtrip(v: i64)
    ensures
        wire_cell(cell_wire(v)) == v,
{
}

/// Two's-complement wire form of a signed cell, as executable code.
pub fn i64_to_wire(v: i64) -> (w: u64)
    ensures
        w == cell_wire(v),
{
    if v >= 0 {
        v as u64
    } else {
        let t: i64 = (v + 1) + 0x7fff_ffff_ffff_ffff;
        (t as u64) + 0x8000_0000_0000_0000u64
    }
}

/// Executable inverse of [`i64_to_wire`].
pub fn wire_to_i64(w: u64) -> (v: i64)
    ensures
        v == wire_cell(w),
{
    if w < 0x8000_0000_0000_0000 {
        w as i64
    } else {
        let t: u64 = w - 0x8000_0000_0000_0000;
        ((t as i64) - 0x7fff_ffff_ffff_ffff) - 1
    }
}

/// The ASCII digit for `n` (meaningful for `0 <= n <= 9`).
pub open spec fn dec_digit(n: int) -> u8 {
    (48 + n) as u8
}

/// Decimal rendering of a non-negative number, most significant digit first.
pub open spec fn dec_of(n: int) -> Seq<u8>
    recommends
        n >= 0,
    decreases n,
{
    if n < 10 {
        seq![dec_digit(n)]
    } else {
        dec_of(n / 10) + seq![dec_digit(n % 10)]
    }
}

/// Decimal rendering of `n` padded with leading zeros to exactly `w` digits;
/// only the `w` least significant digits are kept.
pub open spec fn dec_pad(n: int, w: nat) -> Seq<u8>
    decreases w,
{
    if w == 0 {
        Seq::empty()
    } else {
        dec_pad(n / 10, (w - 1) as nat) + seq![dec_digit(n % 10)]
    }
}

/// Appends the decimal rendering of `n` to `buf`.
pub fn append_u64_dec(buf: &mut Vec<u8>, n: u64)
    ensures
        final(buf)@ == old(buf)@ + dec_of(n as int),
    decreases n,
{
    if n >= 10 {
        append_u64_dec(buf, n / 10);
        buf.push(48 + (n % 10) as u8);
    } else {
        buf.push(48 + n as u8);
    }
    proof {
        assert(final(buf)@ =~= old(buf)@ + dec_of(n as int));
    }
}

/// Appends the zero-padded `w`-digit decimal rendering of `n` to `buf`.
pub fn append_dec_pad(buf: &mut Vec<u8>, n: u64, w: usize)
    ensures
        final(buf)@ == old(buf)@ + dec_pad(n as int, w as nat),
    decreases w,
{
    if w > 0 {
        append_dec_pad(buf, n / 10, w - 1);
        buf.push(48 + (n % 10) as u8);
    }
    proof {
        assert(final(buf)@ =~= old(buf)@ + dec_pad(n as int, w as nat));
    }
}

/// The lower-case ASCII hex digit for `n` (meaningful for `0 <= n <= 15`).
pub open spec fn hex_digit(n: int) -> u8 {
    if n < 10 {
        (48 + n) as u8
    } else {
        (87 + n) as u8
    }
}

/// Lower-case hexadecimal rendering of a byte string, two digits per byte.
pub open spec fn hex_of(bs: Seq<u8>) -> Seq<u8>
    decreases bs.len(),
{
    if bs.len() == 0 {
        Seq::empty()
    } else {
        hex_of(bs.drop_last()) + seq![
            hex_digit(bs.last() as int / 16),
            hex_digit(bs.last() as int % 16),
        ]
    }
}

/// Appends the lower-case hex rendering of `bs` to `buf`.
pub fn append_hex(buf: &mut Vec<u8>, bs: &Vec<u8>)
    ensures
        final(buf)@ == old(buf)@ + hex_of(bs@),
{
    let mut i: usize = 0;
    while i < bs.len()
        invariant
            i <= bs.len(),
            buf@ == old(buf)@ + hex_of(bs@.subrange(0, i as int)),
        decreases bs.len() - i,
    {
        let b = bs[i];
        let hi: u8 = b / 16;
        let lo: u8 = b % 16;
        buf.push(if hi < 10 { 48 + hi } else { 87 + hi });
        buf.push(if lo < 10 { 48 + lo } else { 87 + lo });
        proof {
            let pre = bs@.subrange(0, i as int);
            let cur = bs@.subrange(0, i + 1 as int);
            assert(cur.drop_last() =~= pre);
            assert(cur.last() == bs@[i as int]);
            assert(buf@ =~= old(buf)@ + hex_of(cur));
        }
        i = i + 1;
    }
    proof {
        assert(bs@.subrange(0, bs@.len() as int) =~= bs@);
    }
}

/// Appends the UTF-8 bytes of `s` to `buf`.
pub fn append_str(buf: &mut Vec<u8>, s: &str)
    ensures
        final(buf)@ == old(buf)@ + s.spec_bytes(),
{
    let bytes: &[u8] = s.as_bytes();
    let mut i: usize = 0;
    while i < bytes.len()
        invariant
            i <= bytes@.len(),
            bytes@ == s.spec_bytes(),
            buf@ == old(buf)@ + bytes@.subrange(0, i as int),
        decreases bytes@.len() - i,
    {
        buf.push(bytes[i]);
        proof {
            assert(buf@ =~= old(buf)@ + bytes@.subrange(0, i + 1 as int));
        }
        i = i + 1;
    }
    proof {
        assert(bytes@.subrange(0, bytes@.len() as int) =~= bytes@);
    }
}

/// Appends all of `src` to `buf`.
pub fn append_bytes(buf: &mut Vec<u8>, src: &Vec<u8>)
    ensures
        final(buf)@ == old(buf)@ + src@,
{
    let mut i: usize = 0;
    while i < src.len()
        invariant
            i <= src@.len(),
            buf@ == old(buf)@ + src@.subrange(0, i as int),
        decreases src@.len() - i,
    {
        buf.push(src[i]);
        proof {
            assert(buf@ =~= old(buf)@ + src@.subrange(0, i + 1 as int));
        }
        i = i + 1;
    }
    proof {
        assert(src@.subrange(0, src@.len() as int) =~= src@);
    }
}

/// Compares two byte strings for equality.
pub fn bytes_eq(a: &Vec<u8>, b: &Vec<u8>) -> (r: bool)
    ensures
        r <==> a@ == b@,
{
    if a.len() != b.len() {
        proof {
            assert(a@.len() != b@.len());
        }
        return false;
    }
    let mut i: usize = 0;
    while i < a.len()
        invariant
            i <= a@.len(),
            a@.len() == b@.len(),
            forall|j: int| 0 <= j < i ==> a@[j] == b@[j],
        decreases a@.len() - i,
    {
        if a[i] != b[i] {
            return false;
        }
        i = i + 1;
    }
    proof {
        assert(a@ =~= b@);
    }
    true
}

} // verus!
