//! Byte strings: big-endian values, comparison, copying and hexadecimal text.

use vstd::prelude::*;

verus! {

/// Value of a byte string read as a big-endian natural number.
pub open spec fn be_nat(s: Seq<u8>) -> nat
    decreases s.len(),
{
    if s.len() == 0 {
        0
    } else {
        be_nat(s.drop_last()) * 256 + s.last() as nat
    }
}

/// A prefix of a byte string never has a larger big-endian value than the whole.
pub proof fn lemma_be_nat_prefix(s: Seq<u8>, k: int)
    requires
        0 <= k <= s.len(),
    ensures
        be_nat(s.subrange(0, k)) <= be_nat(s),
    decreases s.len(),
{
    if k == s.len() {
        assert(s.subrange(0, k) =~= s);
    } else {
        lemma_be_nat_prefix(s.drop_last(), k);
        assert(s.drop_last().subrange(0, k) =~= s.subrange(0, k));
    }
}

/// The big-endian value of four bytes, written out.
pub proof fn lemma_be_nat_four(s: Seq<u8>)
    requires
        s.len() == 4,
    ensures
        be_nat(s) == s[0] as nat * 16777216 + s[1] as nat * 65536 + s[2] as nat * 256
            + s[3] as nat,
        be_nat(s) <= 0xffff_ffff,
{
    let s3 = s.drop_last();
    let s2 = s3.drop_last();
    let s1 = s2.drop_last();
    let s0 = s1.drop_last();
    assert(s0.len() == 0);
    assert(be_nat(s0) == 0);
    assert(be_nat(s1) == s[0] as nat);
    assert(be_nat(s2) == be_nat(s1) * 256 + s[1] as nat);
    assert(be_nat(s3) == be_nat(s2) * 256 + s[2] as nat);
    assert(be_nat(s) == be_nat(s3) * 256 + s[3] as nat);
}

/// Reads `width` bytes from `start` as a big-endian number, as long as the
/// value does not exceed `cap`.
pub fn read_be_capped(bytes: &Vec<u8>, start: usize, width: usize, cap: u64) -> (r: Option<u64>)
    requires
        start + width <= bytes.len(),
    ensures
        match r {
            Some(v) => v as nat == be_nat(bytes@.subrange(start as int, start + width)) && v
                <= cap,
            None => be_nat(bytes@.subrange(start as int, start + width)) > cap,
        },
{
    let ghost whole = bytes@.subrange(start as int, start + width);
    let mut acc: u64 = 0;
    let mut i: usize = 0;
    assert(bytes@.subrange(start as int, start as int).len() == 0);
    while i < width
        invariant
            i <= width,
            start + width <= bytes.len(),
            whole == bytes@.subrange(start as int, start + width),
            acc as nat == be_nat(bytes@.subrange(start as int, start + i)),
            acc <= cap,
        decreases width - i,
    {
        let b: u8 = bytes[start + i];
        let next: u128 = acc as u128 * 256 + b as u128;
        proof {
            let w = bytes@.subrange(start as int, start + i + 1);
            assert(w.drop_last() =~= bytes@.subrange(start as int, start + i));
            assert(w.last() == b);
            assert(be_nat(w) == next);
            assert(whole.subrange(0, i + 1) =~= w);
            lemma_be_nat_prefix(whole, i + 1);
        }
        if next > cap as u128 {
            return None;
        }
        acc = next as u64;
        i += 1;
    }
    Some(acc)
}

/// Whether two byte strings hold the same bytes.
pub fn bytes_equal(a: &Vec<u8>, b: &Vec<u8>) -> (r: bool)
    ensures
        r == (a@ == b@),
{
    if a.len() != b.len() {
        return false;
    }
    let mut i: usize = 0;
    while i < a.len()
        invariant
            i <= a.len(),
            a.len() == b.len(),
            a@.subrange(0, i as int) == b@.subrange(0, i as int),
        decreases a.len() - i,
    {
        if a[i] != b[i] {
            return false;
        }
        assert(a@.subrange(0, i + 1) =~= a@.subrange(0, i as int).push(a@[i as int]));
        assert(b@.subrange(0, i + 1) =~= b@.subrange(0, i as int).push(b@[i as int]));
        i += 1;
    }
    assert(a@ =~= a@.subrange(0, i as int));
    assert(b@ =~= b@.subrange(0, i as int));
    true
}

/// Whether `bytes` begins with `prefix`.
pub open spec fn has_prefix(bytes: Seq<u8>, prefix: Seq<u8>) -> bool {
    prefix.len() <= bytes.len() && bytes.subrange(0, prefix.len() as int) == prefix
}

/// Tests `has_prefix`; input shorter than the prefix does not match.
pub fn starts_with(bytes: &Vec<u8>, prefix: &Vec<u8>) -> (r: bool)
    ensures
        r == has_prefix(bytes@, prefix@),
{
    if bytes.len() < prefix.len() {
        return false;
    }
    let mut i: usize = 0;
    while i < prefix.len()
        invariant
            i <= prefix.len(),
            prefix.len() <= bytes.len(),
            bytes@.subrange(0, i as int) == prefix@.subrange(0, i as int),
        decreases prefix.len() - i,
    {
        if bytes[i] != prefix[i] {
            assert(bytes@.subrange(0, prefix.len() as int)[i as int] != prefix@[i as int]);
            return false;
        }
        assert(bytes@.subrange(0, i + 1) =~= bytes@.subrange(0, i as int).push(bytes@[i as int]));
        assert(prefix@.subrange(0, i + 1) =~= prefix@.subrange(0, i as int).push(
            prefix@[i as int],
        ));
        i += 1;
    }
    assert(prefix@ =~= prefix@.subrange(0, i as int));
    true
}

/// Copies the bytes at positions `start..end`.
pub fn copy_range(bytes: &Vec<u8>, start: usize, end: usize) -> (r: Vec<u8>)
    requires
        start <= end <= bytes.len(),
    ensures
        r@ == bytes@.subrange(start as int, end as int),
{
    let mut out: Vec<u8> = Vec::new();
    let mut i: usize = start;
    while i < end
        invariant
            start <= i <= end,
            end <= bytes.len(),
            out@ =~= bytes@.subrange(start as int, i as int),
        decreases end - i,
    {
        out.push(bytes[i]);
        i += 1;
    }
    out
}

/// Copies a whole byte string.
pub fn copy_bytes(bytes: &Vec<u8>) -> (r: Vec<u8>)
    ensures
        r@ == bytes@,
{
    let r = copy_range(bytes, 0, bytes.len());
    assert(bytes@.subrange(0, bytes.len() as int) =~= bytes@);
    r
}

/// The lower-case hexadecimal digit of a value below sixteen.
pub open spec fn hex_digit(n: int) -> char {
    if n == 0 {
        '0'
    } else if n == 1 {
        '1'
    } else if n == 2 {
        '2'
    } else if n == 3 {
        '3'
    } else if n == 4 {
        '4'
    } else if n == 5 {
        '5'
    } else if n == 6 {
        '6'
    } else if n == 7 {
        '7'
    } else if n == 8 {
        '8'
    } else if n == 9 {
        '9'
    } else if n == 10 {
        'a'
    } else if n == 11 {
        'b'
    } else if n == 12 {
        'c'
    } else if n == 13 {
        'd'
    } else if n == 14 {
        'e'
    } else {
        'f'
    }
}

/// Lower-case hexadecimal text of a byte string: two digits per byte, the
/// high half first, with no prefix and no separator.
pub open spec fn hex_text(bytes: Seq<u8>) -> Seq<char> {
    Seq::new(
        2 * bytes.len(),
        |i: int|
            if i % 2 == 0 {
                hex_digit(bytes[i / 2] as int / 16)
            } else {
                hex_digit(bytes[i / 2] as int % 16)
            },
    )
}

/// Calls `substreams::Hex::encode`. The contract claims what the function's
/// table of digit pairs shows: the text is `hex_text` of the bytes, two
/// lower-case digits for each byte in order.
#[verifier::external_body]
pub(crate) fn hex_encode(bytes: &Vec<u8>) -> (r: String)
    ensures
        r@ == hex_text(bytes@),
{
    substreams::Hex::encode(bytes)
}

/// Hexadecimal text of a byte string.
pub fn to_hex(bytes: &Vec<u8>) -> (r: String)
    ensures
        r@ == hex_text(bytes@),
        r@.len() == 2 * bytes@.len(),
{
    hex_encode(bytes)
}

} // verus!
