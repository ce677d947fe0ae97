//! Byte and text encodings shared by the chain: little-endian integers,
//! lowercase hexadecimal and decimal numerals.
use vstd::prelude::*;

verus! {

/// The lowercase hexadecimal digit for a value below 16.
pub open spec fn hex_digit(v: int) -> char {
    if v < 10 {
        (('0' as int) + v) as char
    } else {
        (('a' as int) + (v - 10)) as char
    }
}

/// Lowercase hexadecimal text of a byte string, two digits per byte.
pub open spec fn spec_hex_lower(data: Seq<u8>) -> Seq<char>
    decreases data.len(),
{
    if data.len() == 0 {
        Seq::empty()
    } else {
        seq![hex_digit((data[0] / 16) as int), hex_digit((data[0] % 16) as int)] + spec_hex_lower(data.drop_first())
    }
}

/// Lowercase hexadecimal encoding of `data` (calls `hex::encode`).
/// Claimed: the text is two lowercase hex digits per byte, most significant first.
#[verifier::external_body]
pub(crate) fn hex_encode(data: &[u8]) -> (res: String)
    ensures
        res@ == spec_hex_lower(data@),
{
    hex::encode(data)
}

} // verus!

verus! {

/// The `n` lowest base-256 digits of `x`, least significant first.
pub open spec fn le_bytes(x: nat, n: nat) -> Seq<u8>
    decreases n,
{
    if n == 0 {
        Seq::empty()
    } else {
        seq![(x % 256) as u8] + le_bytes(x / 256, (n - 1) as nat)
    }
}

/// `u64::to_le_bytes` as a sequence.
pub open spec fn spec_u64_le(x: u64) -> Seq<u8> {
    le_bytes(x as nat, 8)
}

/// `i64::to_le_bytes` as a sequence: the two's complement bytes.
pub open spec fn spec_i64_le(x: i64) -> Seq<u8> {
    le_bytes((x as u64) as nat, 8)
}

/// The number whose little-endian base-256 digits are `s`.
pub open spec fn le_value(s: Seq<u8>) -> nat
    decreases s.len(),
{
    if s.len() == 0 {
        0
    } else {
        (s[0] as nat) + 256 * le_value(s.drop_first())
    }
}

/// 256 to the power `n`.
pub open spec fn pow256(n: nat) -> nat
    decreases n,
{
    if n == 0 {
        1
    } else {
        256 * pow256((n - 1) as nat)
    }
}

/// The little-endian bytes of a `u64`.
pub fn u64_le_bytes(x: u64) -> (r: Vec<u8>)
    ensures
        r@ == spec_u64_le(x),
{
    let mut r: Vec<u8> = Vec::new();
    let mut v: u64 = x;
    let mut i: usize = 0;
    while i < 8
        invariant
            i <= 8,
            r@ + le_bytes(v as nat, (8 - i) as nat) == le_bytes(x as nat, 8),
        decreases 8 - i,
    {
        let ghost rest = le_bytes((v / 256) as nat, (8 - i - 1) as nat);
        assert(le_bytes(v as nat, (8 - i) as nat) == seq![(v % 256) as u8] + rest);
        r.push((v % 256) as u8);
        assert(r@ + rest == (r@.drop_last() + seq![(v % 256) as u8]) + rest);
        v = v / 256;
        i = i + 1;
    }
    assert(le_bytes(v as nat, 0) == Seq::<u8>::empty());
    assert(r@ + Seq::<u8>::empty() == r@);
    r
}

/// The little-endian bytes of an `i64` (its two's complement form).
pub fn i64_le_bytes(x: i64) -> (r: Vec<u8>)
    ensures
        r@ == spec_i64_le(x),
{
    u64_le_bytes(x as u64)
}

proof fn lemma_le_value_bound(s: Seq<u8>)
    ensures
        le_value(s) < pow256(s.len()),
    decreases s.len(),
{
    if s.len() > 0 {
        lemma_le_value_bound(s.drop_first());
    }
}

/// Reads `n <= 8` bytes of `data` from `start` as a little-endian number.
pub fn le_read(data: &[u8], start: usize, n: usize) -> (r: u64)
    requires
        n <= 8,
        start + n <= data@.len(),
    ensures
        r as nat == le_value(data@.subrange(start as int, start + n)),
{
    let len = data.len();
    let mut acc: u64 = 0;
    let mut j: usize = n;
    proof {
        reveal_with_fuel(pow256, 9);
        assert(data@.subrange(start + j, start + n) =~= Seq::<u8>::empty());
    }
    while j > 0
        invariant
            j <= n <= 8,
            start + n <= data@.len(),
            len == data@.len(),
            acc as nat == le_value(data@.subrange(start + j, start + n)),
            pow256(8) == 0x1_0000_0000_0000_0000,
        decreases j,
    {
        let ghost tail = data@.subrange(start + j, start + n);
        let ghost cur = data@.subrange(start + j - 1, start + n);
        assert(cur.drop_first() =~= tail);
        proof {
            lemma_le_value_bound(tail);
            lemma_pow256_mono((n - j) as nat, 7);
        }
        let b = data[start + j - 1];
        acc = (b as u64) + 256 * acc;
        j = j - 1;
    }
    acc
}

proof fn lemma_pow256_mono(a: nat, b: nat)
    requires
        a <= b,
    ensures
        pow256(a) <= pow256(b),
    decreases b,
{
    if a < b {
        lemma_pow256_mono(a, (b - 1) as nat);
    }
}

/// Decimal numeral of `n`, as `u64`'s `Display` writes it.
pub open spec fn spec_decimal(n: nat) -> Seq<char>
    decreases n,
{
    if n < 10 {
        seq![(('0' as int) + n) as char]
    } else {
        spec_decimal(n / 10) + seq![(('0' as int) + (n % 10)) as char]
    }
}

/// The decimal text of `n` (calls `u64::to_string`).
/// Claimed: the usual decimal numeral, without sign or leading zeros.
#[verifier::external_body]
pub(crate) fn u64_to_decimal(n: u64) -> (res: String)
    ensures
        res@ == spec_decimal(n as nat),
{
    n.to_string()
}

/// Sixty-four `'0'` characters: the hash of nothing in the chain's texts.
pub open spec fn spec_zero_hash() -> Seq<char> {
    Seq::new(64, |i: int| '0')
}

/// The text of sixty-four zeros used where no hash exists yet.
pub fn zero_hash() -> (r: String)
    ensures
        r@ == spec_zero_hash(),
{
    let mut r = String::new();
    let zero = "0";
    proof {
        reveal_strlit("0");
    }
    let mut i: usize = 0;
    while i < 64
        invariant
            i <= 64,
            r@ == Seq::new(i as nat, |k: int| '0'),
            zero@ == seq!['0'],
        decreases 64 - i,
    {
        r.append(zero);
        i = i + 1;
        assert(r@ =~= Seq::new(i as nat, |k: int| '0'));
    }
    assert(r@ =~= spec_zero_hash());
    r
}

} // verus!

verus! {

/// The UTF-8 bytes of a text.
pub open spec fn utf8_bytes(s: Seq<char>) -> Seq<u8> {
    vstd::utf8::encode_utf8(s)
}

/// Appends the UTF-8 bytes of `s` to `out`.
pub fn push_str_bytes(out: &mut Vec<u8>, s: &str)
    ensures
        final(out)@ == old(out)@ + utf8_bytes(s@),
{
    let b = s.as_bytes();
    out.extend_from_slice(b);
    assert(final(out)@ =~= old(out)@ + utf8_bytes(s@));
}

/// Appends `bytes` to `out`.
pub fn push_bytes(out: &mut Vec<u8>, bytes: &[u8])
    ensures
        final(out)@ == old(out)@ + bytes@,
{
    out.extend_from_slice(bytes);
    assert(final(out)@ =~= old(out)@ + bytes@);
}

} // verus!
