//! Lowercase, unpadded RFC 4648 base32.
use vstd::arithmetic::power2::{lemma2_to64, lemma2_to64_rest, pow2};
use vstd::bits::lemma_u64_shr_is_div;
use vstd::prelude::*;
use vstd::string::is_ascii;

verus! {

/// The 32 symbols, indexed by 5-bit value.
pub const ALPHABET: &'static str = "abcdefghijklmnopqrstuvwxyz234567";

/// The symbol for a 5-bit value.
pub open spec fn symbol_char(v: int) -> char {
    ALPHABET@[v]
}

/// Byte `i` of `d`, or zero past its end.
pub open spec fn byte_or_zero(d: Seq<u8>, i: int) -> int {
    if 0 <= i < d.len() {
        d[i] as int
    } else {
        0
    }
}

/// The 40-bit big-endian value of the 5-byte group `g`; a short final group is
/// filled with zero bits.
pub open spec fn group_value(d: Seq<u8>, g: int) -> int {
    byte_or_zero(d, 5 * g) * 0x1_0000_0000 + byte_or_zero(d, 5 * g + 1) * 0x100_0000
        + byte_or_zero(d, 5 * g + 2) * 0x1_0000 + byte_or_zero(d, 5 * g + 3) * 0x100
        + byte_or_zero(d, 5 * g + 4)
}

/// The 5-bit value of output symbol `k`: bits `5k .. 5k + 5` of the input.
pub open spec fn symbol_value(d: Seq<u8>, k: int) -> int {
    (group_value(d, k / 8) / (pow2((35 - 5 * (k % 8)) as nat) as int)) % 32
}

/// Number of symbols for `n` bytes: ceil(8n / 5), no padding.
pub open spec fn encoded_len(n: nat) -> nat {
    (8 * n + 4) / 5
}

/// The unpadded base32 text of `d`.
pub open spec fn base32(d: Seq<u8>) -> Seq<char> {
    Seq::new(encoded_len(d.len()), |k: int| symbol_char(symbol_value(d, k)))
}

/// Whether `c` is one of the 32 symbols (`a`-`z`, `2`-`7`).
pub open spec fn is_symbol(c: char) -> bool {
    ('a' <= c && c <= 'z') || ('2' <= c && c <= '7')
}

/// Every character of the alphabet is a lowercase letter or a digit 2 to 7,
/// and each is a single ASCII character.
pub proof fn lemma_alphabet()
    ensures
        ALPHABET@.len() == 32,
        forall|i: int| 0 <= i < 32 ==> #[trigger] is_symbol(ALPHABET@[i]),
        forall|i: int| 0 <= i < 32 ==> ((#[trigger] ALPHABET@[i]) as u32) < 128,
        is_ascii(ALPHABET),
{
    reveal_strlit("abcdefghijklmnopqrstuvwxyz234567");
}

/// Encoding is a function of the bytes alone: equal inputs give equal text.
pub proof fn lemma_base32_deterministic(a: Seq<u8>, b: Seq<u8>)
    requires
        a == b,
    ensures
        base32(a) == base32(b),
{
}

/// Every symbol of the output is one of `a`-`z`, `2`-`7`, and there are
/// ceil(8n / 5) of them; 35 bytes give exactly 56 symbols.
pub proof fn lemma_base32_shape(d: Seq<u8>)
    ensures
        base32(d).len() == encoded_len(d.len()),
        forall|i: int| 0 <= i < base32(d).len() ==> #[trigger] is_symbol(base32(d)[i]),
        forall|i: int| 0 <= i < base32(d).len() ==> ((#[trigger] base32(d)[i]) as u32) < 128,
        d.len() == 35 ==> base32(d).len() == 56,
{
    lemma_alphabet();
    assert forall|i: int| 0 <= i < base32(d).len() implies is_symbol(base32(d)[i]) && (
    base32(d)[i] as u32) < 128 by {
        let v = symbol_value(d, i);
        assert(0 <= v < 32);
        assert(base32(d)[i] == ALPHABET@[v]);
    }
}

fn group_value_of(data: &[u8], g: usize) -> (r: u64)
    requires
        5 * g + 4 <= usize::MAX,
    ensures
        r as int == group_value(data@, g as int),
        r < 0x100_0000_0000,
{
    let mut r: u64 = 0;
    let mut j: usize = 0;
    while j < 5
        invariant
            j <= 5,
            5 * g + 4 <= usize::MAX,
            r as int == {
                let d = data@;
                let b = 5 * g as int;
                if j == 0 {
                    0
                } else if j == 1 {
                    byte_or_zero(d, b)
                } else if j == 2 {
                    byte_or_zero(d, b) * 0x100 + byte_or_zero(d, b + 1)
                } else if j == 3 {
                    byte_or_zero(d, b) * 0x1_0000 + byte_or_zero(d, b + 1) * 0x100
                        + byte_or_zero(d, b + 2)
                } else if j == 4 {
                    byte_or_zero(d, b) * 0x100_0000 + byte_or_zero(d, b + 1) * 0x1_0000
                        + byte_or_zero(d, b + 2) * 0x100 + byte_or_zero(d, b + 3)
                } else {
                    group_value(d, g as int)
                }
            },
        decreases 5 - j,
    {
        let i = 5 * g + j;
        let b: u64 = if i < data.len() {
            data[i] as u64
        } else {
            0
        };
        r = r * 0x100 + b;
        j = j + 1;
    }
    r
}

/// Encodes `data` in lowercase base32 without padding: each 5-bit group of the
/// input, the last one filled with zero bits, becomes one symbol.
pub fn base32encode(data: &[u8]) -> (r: String)
    requires
        data@.len() <= usize::MAX / 8,
    ensures
        r@ == base32(data@),
{
    let n = data.len();
    let out_len: usize = (8 * n + 4) / 5;
    let mut res = String::new();
    proof {
        lemma_alphabet();
        lemma2_to64();
        lemma2_to64_rest();
    }
    let mut k: usize = 0;
    while k < out_len
        invariant
            n == data@.len(),
            n <= usize::MAX / 8,
            out_len == encoded_len(n as nat),
            k <= out_len,
            res@ == base32(data@).subrange(0, k as int),
            ALPHABET@.len() == 32,
            is_ascii(ALPHABET),
            pow2(0) == 1 && pow2(5) == 32 && pow2(10) == 1024 && pow2(15) == 32768
                && pow2(20) == 1048576 && pow2(25) == 33554432 && pow2(30) == 1073741824
                && pow2(35) == 34359738368,
        decreases out_len - k,
    {
        let v = group_value_of(data, k / 8);
        let shift: u64 = 35 - 5 * ((k % 8) as u64);
        let sym = (v >> shift) % 32;
        proof {
            lemma_u64_shr_is_div(v, shift);
            assert(sym as int == symbol_value(data@, k as int));
        }
        let c = ALPHABET.substring_ascii(sym as usize, sym as usize + 1);
        res.append(c);
        proof {
            assert(c@ =~= seq![symbol_char(sym as int)]);
            assert(res@ =~= base32(data@).subrange(0, k + 1));
        }
        k = k + 1;
    }
    assert(res@ =~= base32(data@));
    res
}

} // verus!
