//! Little-endian integer encoding and lowercase hexadecimal rendering of bytes.

use vstd::prelude::*;

verus! {

/// `256^n`.
pub open spec fn pow256(n: nat) -> nat
    decreases n,
{
    if n == 0 {
        1
    } else {
        256 * pow256((n - 1) as nat)
    }
}

/// The `n` least significant bytes of `x`, least significant first.
pub open spec fn le_encode(x: nat, n: nat) -> Seq<u8>
    decreases n,
{
    if n == 0 {
        seq![]
    } else {
        seq![(x % 256) as u8] + le_encode(x / 256, (n - 1) as nat)
    }
}

/// The number whose little-endian bytes are `b`.
pub open spec fn le_decode(b: Seq<u8>) -> nat
    decreases b.len(),
{
    if b.len() == 0 {
        0
    } else {
        b[0] as nat + 256 * le_decode(b.drop_first())
    }
}

pub proof fn lemma_pow256_positive(n: nat)
    ensures
        pow256(n) >= 1,
    decreases n,
{
    if n > 0 {
        lemma_pow256_positive((n - 1) as nat);
    }
}

pub proof fn lemma_le_encode_len(x: nat, n: nat)
    ensures
        le_encode(x, n).len() == n,
    decreases n,
{
    if n > 0 {
        lemma_le_encode_len(x / 256, (n - 1) as nat);
    }
}

/// A decoded little-endian number is below `256^len`.
pub proof fn lemma_le_decode_bound(b: Seq<u8>)
    ensures
        le_decode(b) < pow256(b.len()),
    decreases b.len(),
{
    if b.len() > 0 {
        lemma_le_decode_bound(b.drop_first());
        assert(pow256(b.len()) == 256 * pow256(b.drop_first().len()));
    }
}

/// Decoding the encoding of a number that fits gives the number back.
pub proof fn lemma_le_decode_encode(x: nat, n: nat)
    requires
        x < pow256(n),
    ensures
        le_decode(le_encode(x, n)) == x,
    decreases n,
{
    if n > 0 {
        let rest = le_encode(x / 256, (n - 1) as nat);
        assert(x / 256 < pow256((n - 1) as nat));
        lemma_le_decode_encode(x / 256, (n - 1) as nat);
        let e = le_encode(x, n);
        assert(e.drop_first() =~= rest);
        assert(e[0] == (x % 256) as u8);
    }
}

/// Encoding a decoded byte sequence gives the bytes back.
pub proof fn lemma_le_encode_decode(b: Seq<u8>)
    ensures
        le_encode(le_decode(b), b.len()) == b,
    decreases b.len(),
{
    if b.len() > 0 {
        let x = le_decode(b);
        lemma_le_encode_decode(b.drop_first());
        assert(x % 256 == b[0] as nat);
        assert(x / 256 == le_decode(b.drop_first()));
        assert(le_encode(x, b.len()) =~= seq![b[0]] + b.drop_first());
        assert(seq![b[0]] + b.drop_first() =~= b);
    }
}

/// The `n` least significant bytes of `x`, least significant first.
pub fn encode_le(x: u128, n: usize) -> (out: Vec<u8>)
    ensures
        out@ == le_encode(x as nat, n as nat),
{
    let mut out: Vec<u8> = Vec::new();
    let mut v: u128 = x;
    let mut i: usize = 0;
    while i < n
        invariant
            i <= n,
            out@ + le_encode(v as nat, (n - i) as nat) == le_encode(x as nat, n as nat),
        decreases n - i,
    {
        let ghost old_out = out@;
        let ghost k = (n - i) as nat;
        assert(le_encode(v as nat, k) == seq![(v % 256) as u8] + le_encode((v / 256) as nat, (k
            - 1) as nat));
        out.push((v % 256) as u8);
        assert(out@ + le_encode((v / 256) as nat, (k - 1) as nat) =~= old_out + le_encode(
            v as nat,
            k,
        ));
        v = v / 256;
        i = i + 1;
    }
    assert(le_encode(v as nat, 0) =~= seq![]);
    assert(out@ =~= out@ + le_encode(v as nat, 0));
    out
}

/// A copy of `v`.
pub fn copy_bytes(v: &[u8]) -> (out: Vec<u8>)
    ensures
        out@ == v@,
{
    let mut out: Vec<u8> = Vec::new();
    let mut i: usize = 0;
    while i < v.len()
        invariant
            i <= v@.len(),
            out@ == v@.subrange(0, i as int),
        decreases v@.len() - i,
    {
        out.push(v[i]);
        assert(out@ =~= v@.subrange(0, i + 1));
        i = i + 1;
    }
    assert(v@.subrange(0, v@.len() as int) =~= v@);
    out
}

/// Appends `src` to `buf`.
pub fn push_all(buf: &mut Vec<u8>, src: &[u8])
    ensures
        final(buf)@ == old(buf)@ + src@,
{
    let mut i: usize = 0;
    while i < src.len()
        invariant
            i <= src@.len(),
            buf@ == old(buf)@ + src@.subrange(0, i as int),
        decreases src@.len() - i,
    {
        buf.push(src[i]);
        assert(src@.subrange(0, i + 1) =~= src@.subrange(0, i as int).push(src@[i as int]));
        i = i + 1;
    }
    assert(src@.subrange(0, src@.len() as int) =~= src@);
}

/// Appends the `n` least significant bytes of `x` to `buf`, least significant first.
pub fn push_le(buf: &mut Vec<u8>, x: u128, n: usize)
    ensures
        final(buf)@ == old(buf)@ + le_encode(x as nat, n as nat),
{
    let bytes = encode_le(x, n);
    let mut i: usize = 0;
    while i < bytes.len()
        invariant
            i <= bytes@.len(),
            buf@ == old(buf)@ + bytes@.subrange(0, i as int),
        decreases bytes@.len() - i,
    {
        buf.push(bytes[i]);
        assert(bytes@.subrange(0, i + 1) =~= bytes@.subrange(0, i as int).push(bytes@[i as int]));
        i = i + 1;
    }
    assert(bytes@.subrange(0, bytes@.len() as int) =~= bytes@);
}


pub proof fn lemma_pow256_monotone(a: nat, b: nat)
    requires
        a <= b,
    ensures
        pow256(a) <= pow256(b),
    decreases b,
{
    if a < b {
        lemma_pow256_monotone(a, (b - 1) as nat);
        lemma_pow256_positive((b - 1) as nat);
    }
}

pub proof fn lemma_pow256_16()
    ensures
        pow256(16) == 0x1_0000_0000_0000_0000_0000_0000_0000_0000,
{
    reveal_with_fuel(pow256, 17);
}

/// The number whose little-endian bytes are `b[start..start + n]`.
pub fn decode_le(b: &[u8], start: usize, n: usize) -> (r: u128)
    requires
        n <= 16,
        start + n <= b@.len(),
    ensures
        r == le_decode(b@.subrange(start as int, start + n)),
{
    let len = b.len();
    let mut acc: u128 = 0;
    let mut i: usize = n;
    proof {
        assert(b@.subrange(start + n, start + n) =~= Seq::<u8>::empty());
        lemma_pow256_16();
    }
    while i > 0
        invariant
            i <= n <= 16,
            start + n <= b@.len(),
            len == b@.len(),
            acc == le_decode(b@.subrange(start + i, start + n)),
            acc < pow256((n - i) as nat),
            pow256(16) == 0x1_0000_0000_0000_0000_0000_0000_0000_0000,
        decreases i,
    {
        let ghost k = (n - i) as nat;
        proof {
            lemma_pow256_monotone(k + 1, 16);
            assert(pow256(k + 1) == 256 * pow256(k));
        }
        let byte = b[start + (i - 1)];
        let ghost sub = b@.subrange(start + i - 1, start + n);
        assert(sub.drop_first() =~= b@.subrange(start + i, start + n));
        acc = byte as u128 + 256 * acc;
        i = i - 1;
    }
    acc
}

/// Lowercase hexadecimal digit for a value below 16.
pub open spec fn hex_digit(v: int) -> char {
    if v < 10 {
        (('0' as int) + v) as char
    } else {
        (('a' as int) + (v - 10)) as char
    }
}

/// Lowercase hexadecimal rendering of `b`, two digits per byte, high nibble first.
pub open spec fn to_hex_lower(b: Seq<u8>) -> Seq<char>
    decreases b.len(),
{
    if b.len() == 0 {
        seq![]
    } else {
        seq![hex_digit(b[0] as int / 16), hex_digit(b[0] as int % 16)] + to_hex_lower(b.drop_first())
    }
}

pub proof fn lemma_to_hex_lower_len(b: Seq<u8>)
    ensures
        to_hex_lower(b).len() == 2 * b.len(),
    decreases b.len(),
{
    if b.len() > 0 {
        lemma_to_hex_lower_len(b.drop_first());
    }
}

fn hex_digit_exec(v: u8) -> (c: char)
    requires
        v < 16,
    ensures
        c == hex_digit(v as int),
{
    if v < 10 {
        ((48 + v) as char)
    } else {
        ((97 + v - 10) as char)
    }
}

/// Lowercase hexadecimal rendering of `b`, as characters.
pub fn hex_lower_chars(b: &[u8]) -> (out: Vec<char>)
    ensures
        out@ == to_hex_lower(b@),
{
    let mut out: Vec<char> = Vec::new();
    let mut i: usize = 0;
    assert(b@.subrange(0, b@.len() as int) =~= b@);
    while i < b.len()
        invariant
            i <= b@.len(),
            out@ + to_hex_lower(b@.subrange(i as int, b@.len() as int)) == to_hex_lower(b@),
        decreases b@.len() - i,
    {
        let x = b[i];
        let ghost rest = b@.subrange(i as int, b@.len() as int);
        assert(rest.drop_first() =~= b@.subrange(i + 1, b@.len() as int));
        let hi = hex_digit_exec(x / 16);
        let lo = hex_digit_exec(x % 16);
        let ghost old_out = out@;
        out.push(hi);
        out.push(lo);
        assert(out@ + to_hex_lower(rest.drop_first()) =~= old_out + to_hex_lower(rest));
        i = i + 1;
    }
    assert(b@.subrange(b@.len() as int, b@.len() as int) =~= Seq::<u8>::empty());
    assert(out@ + to_hex_lower(Seq::<u8>::empty()) =~= out@);
    out
}

/// The value of a lowercase hexadecimal digit.
pub open spec fn lower_hex_value(c: char) -> int {
    if '0' <= c && c <= '9' {
        c as int - '0' as int
    } else {
        c as int - 'a' as int + 10
    }
}

/// The hexadecimal rendering has two lowercase digits per byte, high nibble
/// first, which spell that byte.
pub proof fn lemma_to_hex_lower_digits(b: Seq<u8>)
    ensures
        to_hex_lower(b).len() == 2 * b.len(),
        forall|i: int|
            0 <= i < b.len() ==> {
                &&& crate::keys::is_lower_hex_digit(#[trigger] to_hex_lower(b)[2 * i])
                &&& crate::keys::is_lower_hex_digit(to_hex_lower(b)[2 * i + 1])
                &&& lower_hex_value(to_hex_lower(b)[2 * i]) * 16 + lower_hex_value(
                    to_hex_lower(b)[2 * i + 1],
                ) == b[i]
            },
    decreases b.len(),
{
    lemma_to_hex_lower_len(b);
    if b.len() > 0 {
        let rest = b.drop_first();
        lemma_to_hex_lower_digits(rest);
        let h = to_hex_lower(b);
        let hr = to_hex_lower(rest);
        assert(h == seq![hex_digit(b[0] as int / 16), hex_digit(b[0] as int % 16)] + hr);
        assert forall|v: int| 0 <= v < 16 implies crate::keys::is_lower_hex_digit(
            #[trigger] hex_digit(v),
        ) && lower_hex_value(hex_digit(v)) == v by {
            if v < 10 {
                assert((('0' as int) + v) as char as int == '0' as int + v);
            } else {
                assert((('a' as int) + (v - 10)) as char as int == 'a' as int + v - 10);
            }
        }
        assert forall|i: int| 0 <= i < b.len() implies {
            &&& crate::keys::is_lower_hex_digit(#[trigger] h[2 * i])
            &&& crate::keys::is_lower_hex_digit(h[2 * i + 1])
            &&& lower_hex_value(h[2 * i]) * 16 + lower_hex_value(h[2 * i + 1]) == b[i]
        } by {
            if i == 0 {
                assert(h[0] == hex_digit(b[0] as int / 16));
                assert(h[1] == hex_digit(b[0] as int % 16));
                assert(hex_digit(b[0] as int / 16) == hex_digit(b[0] as int / 16));
                assert(hex_digit(b[0] as int % 16) == hex_digit(b[0] as int % 16));
            } else {
                assert(h[2 * i] == hr[2 * (i - 1)]);
                assert(h[2 * i + 1] == hr[2 * (i - 1) + 1]);
                assert(rest[i - 1] == b[i]);
            }
        }
    }
}

/// Byte `i` of the little-endian encoding is byte `i` of the number counted
/// from the least significant end: `(x / 256^i) % 256`.
pub proof fn lemma_le_encode_bytes(x: nat, n: nat)
    ensures
        forall|i: int| 0 <= i < n ==> #[trigger] le_encode(x, n)[i] as nat == (x / pow256(
            i as nat,
        )) % 256,
    decreases n,
{
    lemma_le_encode_len(x, n);
    if n > 0 {
        lemma_le_encode_bytes(x / 256, (n - 1) as nat);
        let e = le_encode(x, n);
        let r = le_encode(x / 256, (n - 1) as nat);
        assert forall|i: int| 0 <= i < n implies #[trigger] e[i] as nat == (x / pow256(i as nat))
            % 256 by {
            assert(e == seq![(x % 256) as u8] + r);
            if i == 0 {
                assert(pow256(0) == 1);
                assert(e[0] == (x % 256) as u8);
                assert(x / 1 == x);
            } else {
                assert(e[i] == r[i - 1]);
                assert(r[i - 1] as nat == ((x / 256) / pow256((i - 1) as nat)) % 256);
                lemma_pow256_positive((i - 1) as nat);
                vstd::arithmetic::div_mod::lemma_div_denominator(
                    x as int,
                    256,
                    pow256((i - 1) as nat) as int,
                );
                assert(pow256(i as nat) == 256 * pow256((i - 1) as nat));
            }
        }
    }
}

} // verus!
