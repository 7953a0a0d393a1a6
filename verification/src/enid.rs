use std::str::FromStr;
use vstd::prelude::*;
use vstd::std_specs::cmp::PartialEqSpecImpl;
use vstd::std_specs::convert::FromSpecImpl;
use vstd::string::StringSliceAdditionalSpecFns;
use vstd::utf8::encode_utf8;
use crate::alphabet::CHARS;
use crate::base32::decode;
use crate::base32::decode_spec;
use crate::base32::encode;
use crate::base32::encode_spec;
use crate::base32::quantum_value;
use crate::base32::quintets;
use crate::text::ascii;
use crate::text::is_ascii;
use crate::text::lemma_ascii_bytes;
use crate::text::push_ascii;

verus! {

/// The hyphen that stands between the two halves of the text of an 80-bit identifier.
pub const SEPARATOR: u8 = 45;

/// The one error of parsing: the text is no well-formed identifier.
///
/// Wrong length, a byte outside the alphabet and a missing separator are not told apart.
#[derive(Debug, Copy, Clone, Default, PartialEq, Eq, Structural, Hash, PartialOrd, Ord)]
pub struct EnidParseError;

impl EnidParseError {
    /// The message of the error.
    pub fn to_string(&self) -> (r: String)
        ensures
            r@ == "invalid ENID syntax"@,
    {
        "invalid ENID syntax".to_owned()
    }
}

/// The text of the five bytes of a 40-bit identifier: eight symbols.
pub open spec fn text40(bytes: Seq<u8>) -> Seq<u8> {
    encode_spec(bytes)
}

/// The text of the ten bytes of an 80-bit identifier: the text of the first five, a
/// hyphen, the text of the last five.
pub open spec fn text80(bytes: Seq<u8>) -> Seq<u8> {
    encode_spec(bytes.subrange(0, 5)) + seq![SEPARATOR] + encode_spec(bytes.subrange(5, 10))
}

/// The text of the bytes of an identifier of either width.
pub open spec fn text_of(bytes: Seq<u8>) -> Seq<u8> {
    if bytes.len() == 5 {
        text40(bytes)
    } else {
        text80(bytes)
    }
}

/// The five bytes that a text stands for as a 40-bit identifier, if it is well formed:
/// eight symbols of the alphabet.
pub open spec fn parse40(text: Seq<u8>) -> Option<Seq<u8>> {
    decode_spec(text)
}

/// The ten bytes that a text stands for as an 80-bit identifier, if it is well formed:
/// seventeen bytes, a hyphen at index 8, eight symbols of the alphabet before it and
/// eight after it.
pub open spec fn parse80(text: Seq<u8>) -> Option<Seq<u8>> {
    if text.len() == 17 && text[8] == SEPARATOR && decode_spec(text.subrange(0, 8)) is Some
        && decode_spec(text.subrange(9, 17)) is Some {
        Some(decode_spec(text.subrange(0, 8))->0 + decode_spec(text.subrange(9, 17))->0)
    } else {
        None
    }
}

/// The bytes that a text stands for as an identifier of either width: a text of eight
/// bytes is read as a 40-bit identifier, any other as an 80-bit one.
pub open spec fn parse_any(text: Seq<u8>) -> Option<Seq<u8>> {
    if text.len() == 8 {
        parse40(text)
    } else {
        parse80(text)
    }
}

/// The eight bytes of `s` from index `at` on.
fn chunk(s: &[u8], at: usize) -> (r: [u8; 8])
    requires
        at + 8 <= s.len(),
    ensures
        r@ == s@.subrange(at as int, at + 8),
{
    let r = [s[at], s[at + 1], s[at + 2], s[at + 3], s[at + 4], s[at + 5], s[at + 6], s[at + 7]];
    assert(r@ =~= s@.subrange(at as int, at + 8));
    r
}

/// A 40-bit identifier: five bytes, any five.
#[derive(Debug, Copy, Clone, Eq, Hash, PartialOrd, Ord)]
pub struct Enid40([u8; 5]);

impl Enid40 {
    /// The five bytes that the identifier holds.
    pub closed spec fn bytes(self) -> [u8; 5] {
        self.0
    }

    /// Two identifiers that hold the same bytes are the same identifier.
    pub proof fn lemma_same_bytes(a: Self, b: Self)
        requires
            a@ == b@,
        ensures
            a == b,
    {
        assert(a.0 =~= b.0);
    }

    /// Makes the identifier that holds the given bytes.
    #[must_use]
    pub fn from_bytes(bytes: [u8; 5]) -> (r: Self)
        ensures
            r@ == bytes@,
    {
        Enid40(bytes)
    }

    /// Reads an identifier from its text.
    pub fn parse_str(s: &str) -> (r: Result<Self, EnidParseError>)
        ensures
            match r {
                Ok(enid) => parse40(s.spec_bytes()) == Some(enid@),
                Err(_) => parse40(s.spec_bytes()) is None,
            },
    {
        Self::parse_str_ascii(s.as_bytes())
    }

    /// Reads an identifier from the bytes of its text.
    pub fn parse_str_ascii(s: &[u8]) -> (r: Result<Self, EnidParseError>)
        ensures
            match r {
                Ok(enid) => parse40(s@) == Some(enid@),
                Err(_) => parse40(s@) is None,
            },
    {
        if s.len() != 8 {
            return Err(EnidParseError);
        }
        assert(s@.subrange(0, 8) =~= s@);
        match decode(chunk(s, 0)) {
            Ok(bytes) => Ok(Enid40(bytes)),
            Err(e) => Err(e),
        }
    }

    /// The bytes of the identifier, borrowed.
    #[must_use]
    pub fn as_bytes(&self) -> (r: &[u8; 5])
        ensures
            r@ == self@,
    {
        &self.0
    }

    /// The bytes of the identifier.
    #[must_use]
    pub fn into_bytes(self) -> (r: [u8; 5])
        ensures
            r@ == self@,
    {
        self.0
    }

    /// Writes the text of the identifier into `buf`.
    pub fn write_to_buffer(&self, buf: &mut [u8; 8])
        ensures
            final(buf)@ == text40(self@),
    {
        *buf = encode(self.0);
    }

    /// The text of the identifier as a string.
    pub fn to_string(&self) -> (r: String)
        ensures
            r@ == ascii(text40(self@)),
            encode_utf8(r@) == text40(self@),
    {
        let symbols = encode(self.0);
        proof {
            lemma_text_is_ascii(self@);
            lemma_ascii_bytes(symbols@);
        }
        let mut r = String::new();
        push_ascii(&mut r, symbols.as_slice());
        assert(r@ =~= ascii(symbols@));
        r
    }
}

impl View for Enid40 {
    type V = Seq<u8>;

    open spec fn view(&self) -> Seq<u8> {
        self.bytes()@
    }
}

impl PartialEq for Enid40 {
    fn eq(&self, other: &Self) -> (r: bool) {
        let mut i: usize = 0;
        while i < 5
            invariant
                i <= 5,
                forall|k: int| 0 <= k < i ==> self.0[k] == other.0[k],
            decreases 5 - i,
        {
            if self.0[i] != other.0[i] {
                return false;
            }
            i += 1;
        }
        assert(self.0 =~= other.0);
        true
    }
}

impl PartialEqSpecImpl for Enid40 {
    open spec fn obeys_eq_spec() -> bool {
        true
    }

    open spec fn eq_spec(&self, other: &Self) -> bool {
        self@ == other@
    }
}

/// The text of a quantum holds ASCII bytes only.
proof fn lemma_text_is_ascii(bytes: Seq<u8>)
    ensures
        is_ascii(encode_spec(bytes)),
{
    assert forall|i: int| 0 <= i < 8 implies #[trigger] encode_spec(bytes)[i] < 128 by {
        let v = quintets(quantum_value(bytes))[i] as int;
        assert(CHARS@[v] < 128);
    }
}

impl Default for Enid40 {
    /// The identifier of five zero bytes.
    fn default() -> (r: Self)
        ensures
            r@ == Seq::new(5, |i: int| 0u8),
    {
        let r = Enid40([0; 5]);
        assert(r@ =~= Seq::new(5, |i: int| 0u8));
        r
    }
}

impl FromStr for Enid40 {
    type Err = EnidParseError;

    fn from_str(s: &str) -> (r: Result<Self, Self::Err>)
        ensures
            match r {
                Ok(enid) => parse40(s.spec_bytes()) == Some(enid@),
                Err(_) => parse40(s.spec_bytes()) is None,
            },
    {
        Self::parse_str(s)
    }
}

impl From<[u8; 5]> for Enid40 {
    fn from(bytes: [u8; 5]) -> (r: Self)
        ensures
            r@ == bytes@,
    {
        Enid40(bytes)
    }
}

impl FromSpecImpl<[u8; 5]> for Enid40 {
    open spec fn obeys_from_spec() -> bool {
        true
    }

    closed spec fn from_spec(bytes: [u8; 5]) -> Self {
        Enid40(bytes)
    }
}

impl From<Enid40> for [u8; 5] {
    fn from(enid: Enid40) -> (r: Self)
        ensures
            r@ == enid@,
    {
        enid.0
    }
}

impl FromSpecImpl<Enid40> for [u8; 5] {
    open spec fn obeys_from_spec() -> bool {
        true
    }

    open spec fn from_spec(enid: Enid40) -> Self {
        enid.bytes()
    }
}

/// An 80-bit identifier: ten bytes, any ten.
#[derive(Debug, Copy, Clone, Eq, Hash, PartialOrd, Ord)]
pub struct Enid80([u8; 10]);

impl Enid80 {
    /// The ten bytes that the identifier holds.
    pub closed spec fn bytes(self) -> [u8; 10] {
        self.0
    }

    /// Two identifiers that hold the same bytes are the same identifier.
    pub proof fn lemma_same_bytes(a: Self, b: Self)
        requires
            a@ == b@,
        ensures
            a == b,
    {
        assert(a.0 =~= b.0);
    }

    /// Makes the identifier that holds the given bytes.
    #[must_use]
    pub fn from_bytes(bytes: [u8; 10]) -> (r: Self)
        ensures
            r@ == bytes@,
    {
        Enid80(bytes)
    }

    /// Reads an identifier from its text.
    pub fn parse_str(s: &str) -> (r: Result<Self, EnidParseError>)
        ensures
            match r {
                Ok(enid) => parse80(s.spec_bytes()) == Some(enid@),
                Err(_) => parse80(s.spec_bytes()) is None,
            },
    {
        Self::parse_str_ascii(s.as_bytes())
    }

    /// Reads an identifier from the bytes of its text.
    pub fn parse_str_ascii(s: &[u8]) -> (r: Result<Self, EnidParseError>)
        ensures
            match r {
                Ok(enid) => parse80(s@) == Some(enid@),
                Err(_) => parse80(s@) is None,
            },
    {
        if s.len() != 17 {
            return Err(EnidParseError);
        }
        let high = match decode(chunk(s, 0)) {
            Ok(quantum) => quantum,
            Err(e) => {
                return Err(e);
            },
        };
        if s[8] != SEPARATOR {
            return Err(EnidParseError);
        }
        let low = match decode(chunk(s, 9)) {
            Ok(quantum) => quantum,
            Err(e) => {
                return Err(e);
            },
        };
        let bytes = [
            high[0],
            high[1],
            high[2],
            high[3],
            high[4],
            low[0],
            low[1],
            low[2],
            low[3],
            low[4],
        ];
        assert(bytes@ =~= high@ + low@);
        Ok(Enid80(bytes))
    }

    /// The bytes of the identifier, borrowed.
    #[must_use]
    pub fn as_bytes(&self) -> (r: &[u8; 10])
        ensures
            r@ == self@,
    {
        &self.0
    }

    /// The bytes of the identifier.
    #[must_use]
    pub fn into_bytes(self) -> (r: [u8; 10])
        ensures
            r@ == self@,
    {
        self.0
    }

    /// The first five bytes of the identifier.
    fn high(&self) -> (r: [u8; 5])
        ensures
            r@ == self@.subrange(0, 5),
    {
        let r = [self.0[0], self.0[1], self.0[2], self.0[3], self.0[4]];
        assert(r@ =~= self@.subrange(0, 5));
        r
    }

    /// The last five bytes of the identifier.
    fn low(&self) -> (r: [u8; 5])
        ensures
            r@ == self@.subrange(5, 10),
    {
        let r = [self.0[5], self.0[6], self.0[7], self.0[8], self.0[9]];
        assert(r@ =~= self@.subrange(5, 10));
        r
    }

    /// Writes the text of the identifier into `buf`.
    pub fn write_to_buffer(&self, buf: &mut [u8; 17])
        ensures
            final(buf)@ == text80(self@),
    {
        let high = encode(self.high());
        let low = encode(self.low());
        *buf = [
            high[0],
            high[1],
            high[2],
            high[3],
            high[4],
            high[5],
            high[6],
            high[7],
            SEPARATOR,
            low[0],
            low[1],
            low[2],
            low[3],
            low[4],
            low[5],
            low[6],
            low[7],
        ];
        assert(buf@ =~= text80(self@));
    }

    /// The text of the identifier as a string.
    pub fn to_string(&self) -> (r: String)
        ensures
            r@ == ascii(text80(self@)),
            encode_utf8(r@) == text80(self@),
    {
        let mut buf: [u8; 17] = [0; 17];
        self.write_to_buffer(&mut buf);
        proof {
            lemma_text_is_ascii(self@.subrange(0, 5));
            lemma_text_is_ascii(self@.subrange(5, 10));
            lemma_ascii_bytes(buf@);
        }
        let mut r = String::new();
        push_ascii(&mut r, buf.as_slice());
        assert(r@ =~= ascii(buf@));
        r
    }
}

impl View for Enid80 {
    type V = Seq<u8>;

    open spec fn view(&self) -> Seq<u8> {
        self.bytes()@
    }
}

impl PartialEq for Enid80 {
    fn eq(&self, other: &Self) -> (r: bool) {
        let mut i: usize = 0;
        while i < 10
            invariant
                i <= 10,
                forall|k: int| 0 <= k < i ==> self.0[k] == other.0[k],
            decreases 10 - i,
        {
            if self.0[i] != other.0[i] {
                return false;
            }
            i += 1;
        }
        assert(self.0 =~= other.0);
        true
    }
}

impl PartialEqSpecImpl for Enid80 {
    open spec fn obeys_eq_spec() -> bool {
        true
    }

    open spec fn eq_spec(&self, other: &Self) -> bool {
        self@ == other@
    }
}

impl Default for Enid80 {
    /// The identifier of ten zero bytes.
    fn default() -> (r: Self)
        ensures
            r@ == Seq::new(10, |i: int| 0u8),
    {
        let r = Enid80([0; 10]);
        assert(r@ =~= Seq::new(10, |i: int| 0u8));
        r
    }
}

impl FromStr for Enid80 {
    type Err = EnidParseError;

    fn from_str(s: &str) -> (r: Result<Self, Self::Err>)
        ensures
            match r {
                Ok(enid) => parse80(s.spec_bytes()) == Some(enid@),
                Err(_) => parse80(s.spec_bytes()) is None,
            },
    {
        Self::parse_str(s)
    }
}

impl From<[u8; 10]> for Enid80 {
    fn from(bytes: [u8; 10]) -> (r: Self)
        ensures
            r@ == bytes@,
    {
        Enid80(bytes)
    }
}

impl FromSpecImpl<[u8; 10]> for Enid80 {
    open spec fn obeys_from_spec() -> bool {
        true
    }

    closed spec fn from_spec(bytes: [u8; 10]) -> Self {
        Enid80(bytes)
    }
}

impl From<Enid80> for [u8; 10] {
    fn from(enid: Enid80) -> (r: Self)
        ensures
            r@ == enid@,
    {
        enid.0
    }
}

impl FromSpecImpl<Enid80> for [u8; 10] {
    open spec fn obeys_from_spec() -> bool {
        true
    }

    open spec fn from_spec(enid: Enid80) -> Self {
        enid.bytes()
    }
}

/// An identifier of either width.
#[derive(Debug, Copy, Clone, Eq, Hash, PartialOrd, Ord)]
pub enum Enid {
    /// A 40-bit identifier.
    Enid40(Enid40),
    /// An 80-bit identifier.
    Enid80(Enid80),
}

impl Enid {
    /// Reads an identifier from its text: a text of eight bytes as a 40-bit identifier,
    /// any other as an 80-bit one.
    pub fn parse_str(s: &str) -> (r: Result<Self, EnidParseError>)
        ensures
            match r {
                Ok(enid) => parse_any(s.spec_bytes()) == Some(enid@) && (enid is Enid40
                    <==> s.spec_bytes().len() == 8),
                Err(_) => parse_any(s.spec_bytes()) is None,
            },
    {
        Self::parse_str_ascii(s.as_bytes())
    }

    /// Reads an identifier from the bytes of its text: a text of eight bytes as a 40-bit
    /// identifier, any other as an 80-bit one.
    pub fn parse_str_ascii(s: &[u8]) -> (r: Result<Self, EnidParseError>)
        ensures
            match r {
                Ok(enid) => parse_any(s@) == Some(enid@) && (enid is Enid40 <==> s@.len() == 8),
                Err(_) => parse_any(s@) is None,
            },
    {
        if s.len() == 8 {
            match Enid40::parse_str_ascii(s) {
                Ok(enid) => Ok(Enid::Enid40(enid)),
                Err(e) => Err(e),
            }
        } else {
            match Enid80::parse_str_ascii(s) {
                Ok(enid) => Ok(Enid::Enid80(enid)),
                Err(e) => Err(e),
            }
        }
    }

    /// The bytes of the identifier: five or ten.
    #[must_use]
    pub fn as_bytes(&self) -> (r: &[u8])
        ensures
            r@ == self@,
    {
        match self {
            Enid::Enid40(enid) => enid.as_bytes().as_slice(),
            Enid::Enid80(enid) => enid.as_bytes().as_slice(),
        }
    }

    /// Whether this is a 40-bit identifier.
    #[must_use]
    pub fn is_enid40(&self) -> (r: bool)
        ensures
            r == (self is Enid40),
            r == (self@.len() == 5),
    {
        matches!(self, Enid::Enid40(_))
    }

    /// Whether this is an 80-bit identifier.
    #[must_use]
    pub fn is_enid80(&self) -> (r: bool)
        ensures
            r == (self is Enid80),
            r == (self@.len() == 10),
    {
        matches!(self, Enid::Enid80(_))
    }

    /// The text of the identifier as a string.
    pub fn to_string(&self) -> (r: String)
        ensures
            r@ == ascii(text_of(self@)),
            encode_utf8(r@) == text_of(self@),
    {
        match self {
            Enid::Enid40(enid) => enid.to_string(),
            Enid::Enid80(enid) => enid.to_string(),
        }
    }
}

impl View for Enid {
    type V = Seq<u8>;

    open spec fn view(&self) -> Seq<u8> {
        match self {
            Enid::Enid40(enid) => enid@,
            Enid::Enid80(enid) => enid@,
        }
    }
}

impl PartialEq for Enid {
    fn eq(&self, other: &Self) -> (r: bool) {
        match (self, other) {
            (Enid::Enid40(a), Enid::Enid40(b)) => a == b,
            (Enid::Enid80(a), Enid::Enid80(b)) => a == b,
            _ => {
                assert(self@.len() != other@.len());
                false
            },
        }
    }
}

impl PartialEqSpecImpl for Enid {
    open spec fn obeys_eq_spec() -> bool {
        true
    }

    open spec fn eq_spec(&self, other: &Self) -> bool {
        self@ == other@
    }
}

impl FromStr for Enid {
    type Err = EnidParseError;

    fn from_str(s: &str) -> (r: Result<Self, Self::Err>)
        ensures
            match r {
                Ok(enid) => parse_any(s.spec_bytes()) == Some(enid@) && (enid is Enid40
                    <==> s.spec_bytes().len() == 8),
                Err(_) => parse_any(s.spec_bytes()) is None,
            },
    {
        Self::parse_str(s)
    }
}

impl From<Enid40> for Enid {
    fn from(enid: Enid40) -> (r: Self)
        ensures
            r == Enid::Enid40(enid),
    {
        Enid::Enid40(enid)
    }
}

impl FromSpecImpl<Enid40> for Enid {
    open spec fn obeys_from_spec() -> bool {
        true
    }

    open spec fn from_spec(enid: Enid40) -> Self {
        Enid::Enid40(enid)
    }
}

impl From<Enid80> for Enid {
    fn from(enid: Enid80) -> (r: Self)
        ensures
            r == Enid::Enid80(enid),
    {
        Enid::Enid80(enid)
    }
}

impl FromSpecImpl<Enid80> for Enid {
    open spec fn obeys_from_spec() -> bool {
        true
    }

    open spec fn from_spec(enid: Enid80) -> Self {
        Enid::Enid80(enid)
    }
}

impl From<[u8; 5]> for Enid {
    fn from(bytes: [u8; 5]) -> (r: Self)
        ensures
            r is Enid40,
            r@ == bytes@,
    {
        Enid::Enid40(Enid40(bytes))
    }
}

impl FromSpecImpl<[u8; 5]> for Enid {
    open spec fn obeys_from_spec() -> bool {
        true
    }

    closed spec fn from_spec(bytes: [u8; 5]) -> Self {
        Enid::Enid40(Enid40(bytes))
    }
}

impl From<[u8; 10]> for Enid {
    fn from(bytes: [u8; 10]) -> (r: Self)
        ensures
            r is Enid80,
            r@ == bytes@,
    {
        Enid::Enid80(Enid80(bytes))
    }
}

impl FromSpecImpl<[u8; 10]> for Enid {
    open spec fn obeys_from_spec() -> bool {
        true
    }

    closed spec fn from_spec(bytes: [u8; 10]) -> Self {
        Enid::Enid80(Enid80(bytes))
    }
}

} // verus!
