use vstd::prelude::*;
use crate::alphabet::is_symbol;
use crate::alphabet::lemma_no_symbol;
use crate::base32::decode_spec;
use crate::base32::encode_spec;
use crate::base32::lemma_decode_encode;
use crate::base32::lemma_encode_decode;
use crate::base32::valid_text;
use crate::enid::parse40;
use crate::enid::parse80;
use crate::enid::parse_any;
use crate::enid::text40;
use crate::enid::text80;
use crate::enid::text_of;
use crate::enid::Enid;
use crate::enid::Enid40;
use crate::enid::Enid80;
use crate::enid::SEPARATOR;

verus! {

/// Two identifiers that hold the same bytes are the same identifier.
pub proof fn lemma_same_bytes_same_enid(a: Enid, b: Enid)
    requires
        a@ == b@,
    ensures
        a == b,
{
    if a is Enid40 {
        assert(b@.len() == 5);
        Enid40::lemma_same_bytes(a->Enid40_0, b->Enid40_0);
    } else {
        assert(b@.len() == 10);
        Enid80::lemma_same_bytes(a->Enid80_0, b->Enid80_0);
    }
}

/// Reading the text of a 40-bit identifier gives its five bytes back.
pub proof fn lemma_parse40_of_text40(bytes: Seq<u8>)
    requires
        bytes.len() == 5,
    ensures
        text40(bytes).len() == 8,
        parse40(text40(bytes)) == Some(bytes),
{
    lemma_decode_encode(bytes);
}

/// Reading the text of an 80-bit identifier gives its ten bytes back, five from each half.
pub proof fn lemma_parse80_of_text80(bytes: Seq<u8>)
    requires
        bytes.len() == 10,
    ensures
        text80(bytes).len() == 17,
        parse80(text80(bytes)) == Some(bytes),
{
    let high = bytes.subrange(0, 5);
    let low = bytes.subrange(5, 10);
    let text = text80(bytes);
    lemma_decode_encode(high);
    lemma_decode_encode(low);
    assert(text.subrange(0, 8) =~= encode_spec(high));
    assert(text.subrange(9, 17) =~= encode_spec(low));
    assert(text[8] == SEPARATOR);
    assert(high + low =~= bytes);
}

/// Reading the text of an identifier of either width gives its bytes back.
pub proof fn lemma_parse_of_text(bytes: Seq<u8>)
    requires
        bytes.len() == 5 || bytes.len() == 10,
    ensures
        parse_any(text_of(bytes)) == Some(bytes),
{
    if bytes.len() == 5 {
        lemma_parse40_of_text40(bytes);
    } else {
        lemma_parse80_of_text80(bytes);
    }
}

/// A text that reads as a 40-bit identifier is the text of the five bytes read.
pub proof fn lemma_text40_of_parse40(text: Seq<u8>)
    requires
        parse40(text) is Some,
    ensures
        parse40(text)->0.len() == 5,
        text40(parse40(text)->0) == text,
{
    lemma_encode_decode(text);
}

/// The text of ten bytes, put together from the texts of the two halves.
proof fn lemma_text80_of_halves(text: Seq<u8>, high: Seq<u8>, low: Seq<u8>)
    requires
        text.len() == 17,
        text[8] == SEPARATOR,
        high.len() == 5,
        low.len() == 5,
        encode_spec(high) == text.subrange(0, 8),
        encode_spec(low) == text.subrange(9, 17),
    ensures
        text80(high + low) == text,
{
    let bytes = high + low;
    assert(bytes.subrange(0, 5) =~= high);
    assert(bytes.subrange(5, 10) =~= low);
    assert(text.subrange(0, 8) + seq![SEPARATOR] + text.subrange(9, 17) =~= text);
}

/// What it takes for a text to read as an 80-bit identifier, piece by piece.
proof fn lemma_parse80_parts(text: Seq<u8>)
    requires
        parse80(text) is Some,
    ensures
        text.len() == 17,
        text[8] == SEPARATOR,
        text.subrange(0, 8).len() == 8,
        text.subrange(9, 17).len() == 8,
        valid_text(text.subrange(0, 8)),
        valid_text(text.subrange(9, 17)),
        parse80(text)->0 == decode_spec(text.subrange(0, 8))->0 + decode_spec(
            text.subrange(9, 17),
        )->0,
{
}

/// A text that reads as an 80-bit identifier is the text of the ten bytes read.
pub proof fn lemma_text80_of_parse80(text: Seq<u8>)
    requires
        parse80(text) is Some,
    ensures
        parse80(text)->0.len() == 10,
        text80(parse80(text)->0) == text,
{
    let front = text.subrange(0, 8);
    let back = text.subrange(9, 17);
    let high = decode_spec(front)->0;
    let low = decode_spec(back)->0;
    lemma_parse80_parts(text);
    lemma_encode_decode(front);
    lemma_encode_decode(back);
    lemma_text80_of_halves(text, high, low);
}

/// A text that reads as an identifier is the text of the bytes read.
pub proof fn lemma_text_of_parse(text: Seq<u8>)
    requires
        parse_any(text) is Some,
    ensures
        text_of(parse_any(text)->0) == text,
{
    if text.len() == 8 {
        lemma_text40_of_parse40(text);
    } else {
        lemma_text80_of_parse80(text);
    }
}

/// Writing an identifier, reading the text and writing what was read gives the first
/// text again.
pub proof fn lemma_text_is_stable(bytes: Seq<u8>)
    requires
        bytes.len() == 5 || bytes.len() == 10,
    ensures
        parse_any(text_of(bytes)) is Some,
        text_of(parse_any(text_of(bytes))->0) == text_of(bytes),
{
    lemma_parse_of_text(bytes);
}

/// A text of seventeen bytes with a hyphen anywhere but at index 8 does not read as an
/// identifier.
pub proof fn lemma_separator_misplaced(text: Seq<u8>, k: int)
    requires
        text.len() == 17,
        0 <= k < 17,
        k != 8,
        text[k] == SEPARATOR,
    ensures
        parse80(text) is None,
        parse_any(text) is None,
{
    lemma_no_symbol();
    lemma_foreign_byte_rejected(text, k);
}

/// A text of seventeen bytes without a hyphen at index 8 does not read as an identifier.
pub proof fn lemma_separator_missing(text: Seq<u8>)
    requires
        text.len() == 17,
        text[8] != SEPARATOR,
    ensures
        parse80(text) is None,
        parse_any(text) is None,
{
}

/// A text with a byte that is no symbol of the alphabet, the hyphen at index 8 of the
/// long form apart, does not read as an identifier of either width.
pub proof fn lemma_foreign_byte_rejected(text: Seq<u8>, k: int)
    requires
        0 <= k < text.len(),
        !is_symbol(text[k]),
    ensures
        parse40(text) is None,
        k != 8 ==> parse80(text) is None,
        k != 8 ==> parse_any(text) is None,
{
    if text.len() == 17 && k != 8 {
        if k < 8 {
            assert(text.subrange(0, 8)[k] == text[k]);
        } else {
            assert(text.subrange(9, 17)[k - 9] == text[k]);
        }
    }
}

/// Only texts of eight bytes read as 40-bit identifiers, only texts of seventeen bytes as
/// 80-bit ones, and no text of another length reads at all.
pub proof fn lemma_length_of_text(text: Seq<u8>)
    ensures
        parse40(text) is Some ==> text.len() == 8,
        parse80(text) is Some ==> text.len() == 17,
        parse_any(text) is Some ==> text.len() == 8 || text.len() == 17,
{
}

} // verus!
