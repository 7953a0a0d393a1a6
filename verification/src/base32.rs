use vstd::prelude::*;
use vstd::arithmetic::power2::lemma2_to64;
use vstd::arithmetic::power2::lemma2_to64_rest;
use vstd::arithmetic::power2::pow2;
use vstd::bits::lemma_u64_shr_is_div;
use crate::alphabet::lemma_lookup;
use crate::alphabet::lemma_symbol_of_value;
use crate::alphabet::lemma_value_of_symbol;
use crate::alphabet::is_symbol;
use crate::alphabet::symbol_value;
use crate::alphabet::CHARS;
use crate::alphabet::INVALID;
use crate::alphabet::VALUES;
use crate::enid::EnidParseError;

verus! {

/// The number that a quantum of five bytes stands for: its 40 bits, the first byte on top.
pub open spec fn quantum_value(bytes: Seq<u8>) -> nat {
    (bytes[0] as nat) * 0x1_0000_0000 + (bytes[1] as nat) * 0x100_0000 + (bytes[2] as nat)
        * 0x1_0000 + (bytes[3] as nat) * 0x100 + (bytes[4] as nat)
}

/// The quantum that stands for `n`: its five lowest bytes, the highest of them first.
pub open spec fn quantum_of(n: nat) -> Seq<u8> {
    seq![
        (n / 0x1_0000_0000 % 256) as u8,
        (n / 0x100_0000 % 256) as u8,
        (n / 0x1_0000 % 256) as u8,
        (n / 0x100 % 256) as u8,
        (n % 256) as u8,
    ]
}

/// The eight lowest digits of `n` written to the base 32, the highest of them first.
pub open spec fn quintets(n: nat) -> Seq<nat> {
    seq![
        n / 0x8_0000_0000 % 32,
        n / 0x4000_0000 % 32,
        n / 0x200_0000 % 32,
        n / 0x10_0000 % 32,
        n / 0x8000 % 32,
        n / 0x400 % 32,
        n / 0x20 % 32,
        n % 32,
    ]
}

/// The text of a quantum: the eight base-32 digits of its number, the highest first,
/// each written as its symbol.
pub open spec fn encode_spec(bytes: Seq<u8>) -> Seq<u8> {
    Seq::new(8, |i: int| CHARS@[quintets(quantum_value(bytes))[i] as int])
}

/// Whether every byte of `text` is a symbol of the alphabet.
pub open spec fn valid_text(text: Seq<u8>) -> bool {
    forall|i: int| 0 <= i < text.len() ==> is_symbol(#[trigger] text[i])
}

/// The number that a text of eight symbols stands for, read to the base 32 with the
/// first symbol as the highest digit.
pub open spec fn text_value(text: Seq<u8>) -> nat {
    symbol_value(text[0]) * 0x8_0000_0000 + symbol_value(text[1]) * 0x4000_0000 + symbol_value(
        text[2],
    ) * 0x200_0000 + symbol_value(text[3]) * 0x10_0000 + symbol_value(text[4]) * 0x8000
        + symbol_value(text[5]) * 0x400 + symbol_value(text[6]) * 0x20 + symbol_value(text[7])
}

/// What a text decodes to: the quantum of its number where it is eight symbols long,
/// nothing where it has another length or holds a byte that is no symbol.
pub open spec fn decode_spec(text: Seq<u8>) -> Option<Seq<u8>> {
    if text.len() == 8 && valid_text(text) {
        Some(quantum_of(text_value(text)))
    } else {
        None
    }
}

/// Digit `k` of `n` written to the base 32, where digit 0 is the lowest.
spec fn quintet(n: nat, k: nat) -> nat {
    (n / pow2(5 * k)) % 32
}

/// The number that the symbols of `text` stand for, whatever its length.
spec fn prefix_value(text: Seq<u8>) -> nat
    decreases text.len(),
{
    if text.len() == 0 {
        0
    } else {
        32 * prefix_value(text.drop_last()) + symbol_value(text.last())
    }
}

/// `quintets` lists the digits that `quintet` counts from the lowest.
proof fn lemma_quintets(n: nat)
    ensures
        forall|i: int| 0 <= i < 8 ==> #[trigger] quintets(n)[i] == quintet(n, (7 - i) as nat),
{
    lemma2_to64();
    lemma2_to64_rest();
    let one = pow2(0);
    assert(n / one == n) by (nonlinear_arith)
        requires
            one == 1,
    ;
}

/// For a text of eight bytes `prefix_value` is `text_value`.
proof fn lemma_prefix_value_of_eight(text: Seq<u8>)
    requires
        text.len() == 8,
    ensures
        prefix_value(text) == text_value(text),
{
    reveal_with_fuel(prefix_value, 9);
    assert(text.take(8) =~= text);
    assert(text.take(8).drop_last() =~= text.take(7));
    assert(text.take(7).drop_last() =~= text.take(6));
    assert(text.take(6).drop_last() =~= text.take(5));
    assert(text.take(5).drop_last() =~= text.take(4));
    assert(text.take(4).drop_last() =~= text.take(3));
    assert(text.take(3).drop_last() =~= text.take(2));
    assert(text.take(2).drop_last() =~= text.take(1));
    assert(text.take(1).drop_last() =~= text.take(0));
}

/// Five bytes shifted into the top of a word are their number shifted by 24 bits, and the
/// number gives the bytes back.
proof fn lemma_pack(b0: u8, b1: u8, b2: u8, b3: u8, b4: u8, n: u64)
    by (bit_vector)
    requires
        n == b0 * 0x1_0000_0000 + b1 * 0x100_0000 + b2 * 0x1_0000 + b3 * 0x100 + b4,
    ensures
        n < 0x100_0000_0000,
        (b0 as u64) << 56 | (b1 as u64) << 48 | (b2 as u64) << 40 | (b3 as u64) << 32 | (b4 as u64)
            << 24 == n << 24,
        n / 0x1_0000_0000 % 256 == b0,
        n / 0x100_0000 % 256 == b1,
        n / 0x1_0000 % 256 == b2,
        n / 0x100 % 256 == b3,
        n % 256 == b4,
{
}

/// After `i` shifts by five bits the top five bits of the word are digit `7 - i` of `n`.
proof fn lemma_top_quintet(n: u64, i: u64)
    by (bit_vector)
    requires
        n < 0x100_0000_0000,
        i < 8,
    ensures
        (n << ((24 + 5 * i) as u64)) >> 59 == (n >> ((35 - 5 * i) as u64)) % 32,
        (n << ((24 + 5 * i) as u64)) >> 59 < 32,
        i < 7 ==> (n << ((24 + 5 * i) as u64)) << 5 == n << ((24 + 5 * (i + 1)) as u64),
{
}

/// Shifting `i` digits by five bits and putting one more below them loses nothing.
proof fn lemma_append_quintet(bits: u64, b: u8, i: u64)
    by (bit_vector)
    requires
        i < 8,
        bits < (1u64 << ((5 * i) as u64)),
        b < 32,
    ensures
        (bits << 5) | (b as u64) == 32 * bits + b,
        (bits << 5) | (b as u64) < (1u64 << ((5 * (i + 1)) as u64)),
{
}

/// The five lowest bytes of a word below 2^40, by shifts and by division.
proof fn lemma_unpack(n: u64)
    by (bit_vector)
    requires
        n < (1u64 << 40),
    ensures
        (n >> 32) & 0xff == n / 0x1_0000_0000 % 256,
        (n >> 24) & 0xff == n / 0x100_0000 % 256,
        (n >> 16) & 0xff == n / 0x1_0000 % 256,
        (n >> 8) & 0xff == n / 0x100 % 256,
        n & 0xff == n % 256,
{
}

/// A number below 2^40 is the sum of its eight digits to the base 32, and of its five
/// bytes, each at its place.
proof fn lemma_split(n: u64)
    by (bit_vector)
    requires
        n < 0x100_0000_0000,
    ensures
        n == (n / 0x8_0000_0000 % 32) * 0x8_0000_0000 + (n / 0x4000_0000 % 32) * 0x4000_0000 + (n
            / 0x200_0000 % 32) * 0x200_0000 + (n / 0x10_0000 % 32) * 0x10_0000 + (n / 0x8000 % 32)
            * 0x8000 + (n / 0x400 % 32) * 0x400 + (n / 0x20 % 32) * 0x20 + n % 32,
        n == (n / 0x1_0000_0000 % 256) * 0x1_0000_0000 + (n / 0x100_0000 % 256) * 0x100_0000 + (n
            / 0x1_0000 % 256) * 0x1_0000 + (n / 0x100 % 256) * 0x100 + n % 256,
{
}

/// The digits of a sum of eight digits to the base 32, each at its place, are those
/// digits.
proof fn lemma_join(d0: u8, d1: u8, d2: u8, d3: u8, d4: u8, d5: u8, d6: u8, d7: u8, n: u64)
    by (bit_vector)
    requires
        d0 < 32 && d1 < 32 && d2 < 32 && d3 < 32 && d4 < 32 && d5 < 32 && d6 < 32 && d7 < 32,
        n == d0 * 0x8_0000_0000 + d1 * 0x4000_0000 + d2 * 0x200_0000 + d3 * 0x10_0000 + d4
            * 0x8000 + d5 * 0x400 + d6 * 0x20 + d7,
    ensures
        n < 0x100_0000_0000,
        n / 0x8_0000_0000 % 32 == d0,
        n / 0x4000_0000 % 32 == d1,
        n / 0x200_0000 % 32 == d2,
        n / 0x10_0000 % 32 == d3,
        n / 0x8000 % 32 == d4,
        n / 0x400 % 32 == d5,
        n / 0x20 % 32 == d6,
        n % 32 == d7,
{
}

/// Writes the five bytes of a quantum as eight symbols.
pub fn encode(bytes: [u8; 5]) -> (chars: [u8; 8])
    ensures
        chars@ == encode_spec(bytes@),
{
    let mut bits: u64 = (bytes[0] as u64) << 56 | (bytes[1] as u64) << 48 | (bytes[2] as u64) << 40
        | (bytes[3] as u64) << 32 | (bytes[4] as u64) << 24;
    let ghost n: u64 = quantum_value(bytes@) as u64;
    proof {
        lemma_pack(bytes[0], bytes[1], bytes[2], bytes[3], bytes[4], n);
        lemma_quintets(n as nat);
    }
    let mut chars: [u8; 8] = [0; 8];
    let mut i: usize = 0;
    while i < 8
        invariant
            i <= 8,
            n == quantum_value(bytes@),
            n < 0x100_0000_0000,
            i < 8 ==> bits == n << ((24 + 5 * i) as u64),
            forall|j: int|
                0 <= j < i ==> chars[j] == CHARS@[quintet(n as nat, (7 - j) as nat) as int],
        decreases 8 - i,
    {
        proof {
            lemma_top_quintet(n, i as u64);
            lemma_u64_shr_is_div(n, (35 - 5 * i) as u64);
        }
        chars[i] = CHARS[(bits >> 59) as usize];
        bits = bits << 5;
        i += 1;
    }
    assert(chars@ =~= encode_spec(bytes@));
    chars
}

/// Reads eight symbols as the five bytes of a quantum.
///
/// Fails on the first byte that is no symbol of the alphabet.
pub fn decode(chars: [u8; 8]) -> (r: Result<[u8; 5], EnidParseError>)
    ensures
        match r {
            Ok(bytes) => decode_spec(chars@) == Some(bytes@),
            Err(_) => decode_spec(chars@) is None,
        },
{
    let mut bits: u64 = 0;
    let mut i: usize = 0;
    assert(1u64 << 0 == 1) by (bit_vector);
    while i < 8
        invariant
            i <= 8,
            valid_text(chars@.take(i as int)),
            bits == prefix_value(chars@.take(i as int)),
            bits < (1u64 << ((5 * i) as u64)),
        decreases 8 - i,
    {
        let b = VALUES[chars[i] as usize];
        proof {
            lemma_lookup(chars[i as int]);
        }
        if b == INVALID {
            return Err(EnidParseError);
        }
        proof {
            lemma_append_quintet(bits, b, i as u64);
            assert(chars@.take(i + 1).drop_last() =~= chars@.take(i as int));
        }
        bits = (bits << 5) | (b as u64);
        i += 1;
    }
    proof {
        assert(chars@.take(8) =~= chars@);
        lemma_prefix_value_of_eight(chars@);
        lemma_unpack(bits);
    }
    let bytes = [
        ((bits >> 32) & 0xff) as u8,
        ((bits >> 24) & 0xff) as u8,
        ((bits >> 16) & 0xff) as u8,
        ((bits >> 8) & 0xff) as u8,
        (bits & 0xff) as u8,
    ];
    assert(bytes@ =~= quantum_of(text_value(chars@)));
    Ok(bytes)
}

/// The number of a quantum is below 2^40, and its bytes are the quantum's.
pub proof fn lemma_quantum_of_value(bytes: Seq<u8>)
    requires
        bytes.len() == 5,
    ensures
        quantum_value(bytes) < 0x100_0000_0000,
        quantum_of(quantum_value(bytes)) == bytes,
{
    let n = quantum_value(bytes);
    lemma_pack(bytes[0], bytes[1], bytes[2], bytes[3], bytes[4], n as u64);
    assert(quantum_of(n) =~= bytes);
}

/// The bytes of a number below 2^40 stand for that number.
pub proof fn lemma_value_of_quantum(n: nat)
    requires
        n < 0x100_0000_0000,
    ensures
        quantum_value(quantum_of(n)) == n,
{
    lemma_split(n as u64);
}

/// The text of a quantum is eight symbols of the alphabet, each the symbol of a digit of
/// the quantum's number.
pub proof fn lemma_encode_valid(bytes: Seq<u8>)
    ensures
        encode_spec(bytes).len() == 8,
        valid_text(encode_spec(bytes)),
        forall|i: int|
            0 <= i < 8 ==> symbol_value(#[trigger] encode_spec(bytes)[i]) == quintets(
                quantum_value(bytes),
            )[i],
{
    let digits = quintets(quantum_value(bytes));
    assert forall|i: int| 0 <= i < 8 implies is_symbol(#[trigger] encode_spec(bytes)[i])
        && symbol_value(encode_spec(bytes)[i]) == digits[i] by {
        lemma_symbol_of_value(digits[i] as int);
    }
}

/// Decoding the text of a quantum gives the quantum back.
pub proof fn lemma_decode_encode(bytes: Seq<u8>)
    requires
        bytes.len() == 5,
    ensures
        decode_spec(encode_spec(bytes)) == Some(bytes),
{
    let n = quantum_value(bytes);
    let text = encode_spec(bytes);
    lemma_encode_valid(bytes);
    lemma_quantum_of_value(bytes);
    assert(text_value(text) == n) by {
        lemma_split(n as u64);
        assert(symbol_value(text[0]) == quintets(n)[0]);
        assert(symbol_value(text[1]) == quintets(n)[1]);
        assert(symbol_value(text[2]) == quintets(n)[2]);
        assert(symbol_value(text[3]) == quintets(n)[3]);
        assert(symbol_value(text[4]) == quintets(n)[4]);
        assert(symbol_value(text[5]) == quintets(n)[5]);
        assert(symbol_value(text[6]) == quintets(n)[6]);
        assert(symbol_value(text[7]) == quintets(n)[7]);
    }
}

/// The digits of a sum of eight digits, each at its place, are those digits.
proof fn lemma_quintets_of_sum(
    d0: nat,
    d1: nat,
    d2: nat,
    d3: nat,
    d4: nat,
    d5: nat,
    d6: nat,
    d7: nat,
    n: nat,
)
    requires
        d0 < 32 && d1 < 32 && d2 < 32 && d3 < 32 && d4 < 32 && d5 < 32 && d6 < 32 && d7 < 32,
        n == d0 * 0x8_0000_0000 + d1 * 0x4000_0000 + d2 * 0x200_0000 + d3 * 0x10_0000 + d4
            * 0x8000 + d5 * 0x400 + d6 * 0x20 + d7,
    ensures
        n < 0x100_0000_0000,
        quintets(n) == seq![d0, d1, d2, d3, d4, d5, d6, d7],
{
    lemma_join(
        d0 as u8,
        d1 as u8,
        d2 as u8,
        d3 as u8,
        d4 as u8,
        d5 as u8,
        d6 as u8,
        d7 as u8,
        n as u64,
    );
    assert(quintets(n) =~= seq![d0, d1, d2, d3, d4, d5, d6, d7]);
}

/// Encoding what a text decodes to gives the text back: every text of eight symbols is
/// the text of a quantum.
pub proof fn lemma_encode_decode(text: Seq<u8>)
    requires
        text.len() == 8,
        valid_text(text),
    ensures
        decode_spec(text) is Some,
        decode_spec(text)->0.len() == 5,
        encode_spec(decode_spec(text)->0) == text,
{
    let n = text_value(text);
    let bytes = quantum_of(n);
    let digits = Seq::new(8, |i: int| symbol_value(text[i]));
    assert forall|i: int| 0 <= i < 8 implies #[trigger] digits[i] < 32 && CHARS@[digits[i] as int]
        == text[i] by {
        lemma_value_of_symbol(text[i]);
    }
    lemma_quintets_of_sum(
        digits[0],
        digits[1],
        digits[2],
        digits[3],
        digits[4],
        digits[5],
        digits[6],
        digits[7],
        n,
    );
    assert(quintets(n) =~= digits);
    lemma_value_of_quantum(n);
    assert forall|i: int| 0 <= i < 8 implies encode_spec(bytes)[i] == text[i] by {
        assert(quintets(n)[i] == digits[i]);
    }
    assert(encode_spec(bytes) =~= text);
}

} // verus!
