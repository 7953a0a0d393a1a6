use vstd::prelude::*;
use crate::enid::Enid;
use crate::enid::Enid40;
use crate::enid::Enid80;

verus! {

/// The byte that stands before the bytes of a 40-bit identifier in the tagged binary form.
pub const TAG_ENID40: u8 = 0;

/// The byte that stands before the bytes of an 80-bit identifier in the tagged binary form.
pub const TAG_ENID80: u8 = 1;

/// The tag of an identifier with the given bytes.
pub open spec fn tag_of(bytes: Seq<u8>) -> u8 {
    if bytes.len() == 5 {
        TAG_ENID40
    } else {
        TAG_ENID80
    }
}

/// How many bytes follow a tag: five or ten, and nothing for a byte that is no tag.
pub open spec fn payload_len_of(tag: u8) -> Option<nat> {
    if tag == TAG_ENID40 {
        Some(5)
    } else if tag == TAG_ENID80 {
        Some(10)
    } else {
        None
    }
}

/// The bytes of the identifier that a tag and the bytes after it stand for, if the tag
/// is one and as many bytes follow as it asks for.
pub open spec fn untag(tag: u8, payload: Seq<u8>) -> Option<Seq<u8>> {
    if payload_len_of(tag) == Some(payload.len()) {
        Some(payload)
    } else {
        None
    }
}

/// The bytes of the identifier that an untagged run of bytes stands for, if it is five
/// or ten bytes long.
pub open spec fn unframe(bytes: Seq<u8>) -> Option<Seq<u8>> {
    if bytes.len() == 5 || bytes.len() == 10 {
        Some(bytes)
    } else {
        None
    }
}

impl Enid40 {
    /// Makes the identifier that holds the given bytes, if there are five of them.
    pub fn from_slice(bytes: &[u8]) -> (r: Option<Self>)
        ensures
            match r {
                Some(enid) => bytes@.len() == 5 && enid@ == bytes@,
                None => bytes@.len() != 5,
            },
    {
        if bytes.len() != 5 {
            return None;
        }
        let array = [bytes[0], bytes[1], bytes[2], bytes[3], bytes[4]];
        assert(array@ =~= bytes@);
        Some(Enid40::from_bytes(array))
    }
}

impl Enid80 {
    /// Makes the identifier that holds the given bytes, if there are ten of them.
    pub fn from_slice(bytes: &[u8]) -> (r: Option<Self>)
        ensures
            match r {
                Some(enid) => bytes@.len() == 10 && enid@ == bytes@,
                None => bytes@.len() != 10,
            },
    {
        if bytes.len() != 10 {
            return None;
        }
        let array = [
            bytes[0],
            bytes[1],
            bytes[2],
            bytes[3],
            bytes[4],
            bytes[5],
            bytes[6],
            bytes[7],
            bytes[8],
            bytes[9],
        ];
        assert(array@ =~= bytes@);
        Some(Enid80::from_bytes(array))
    }
}

impl Enid {
    /// Makes the identifier that holds the given bytes: a 40-bit one of five bytes, an
    /// 80-bit one of ten, none of any other number.
    pub fn from_slice(bytes: &[u8]) -> (r: Option<Self>)
        ensures
            match r {
                Some(enid) => unframe(bytes@) == Some(enid@),
                None => unframe(bytes@) is None,
            },
    {
        if bytes.len() == 5 {
            match Enid40::from_slice(bytes) {
                Some(enid) => Some(Enid::Enid40(enid)),
                None => None,
            }
        } else {
            match Enid80::from_slice(bytes) {
                Some(enid) => Some(Enid::Enid80(enid)),
                None => None,
            }
        }
    }

    /// The byte that stands before the identifier's bytes in the tagged binary form.
    #[must_use]
    pub fn tag(&self) -> (r: u8)
        ensures
            r == tag_of(self@),
    {
        match self {
            Enid::Enid40(_) => TAG_ENID40,
            Enid::Enid80(_) => TAG_ENID80,
        }
    }

    /// How many bytes of an identifier follow the given tag, if it is a tag.
    pub fn payload_len(tag: u8) -> (r: Option<usize>)
        ensures
            match r {
                Some(len) => payload_len_of(tag) == Some(len as nat),
                None => payload_len_of(tag) is None,
            },
    {
        if tag == TAG_ENID40 {
            Some(5)
        } else if tag == TAG_ENID80 {
            Some(10)
        } else {
            None
        }
    }

    /// Makes the identifier that a tag and the bytes after it stand for.
    pub fn from_tagged(tag: u8, payload: &[u8]) -> (r: Option<Self>)
        ensures
            match r {
                Some(enid) => untag(tag, payload@) == Some(enid@),
                None => untag(tag, payload@) is None,
            },
    {
        if tag == TAG_ENID40 {
            match Enid40::from_slice(payload) {
                Some(enid) => Some(Enid::Enid40(enid)),
                None => None,
            }
        } else if tag == TAG_ENID80 {
            match Enid80::from_slice(payload) {
                Some(enid) => Some(Enid::Enid80(enid)),
                None => None,
            }
        } else {
            None
        }
    }
}

/// An identifier comes back from its tag and its bytes, and from its bytes alone.
pub proof fn lemma_binary_round_trip(enid: Enid)
    ensures
        payload_len_of(tag_of(enid@)) == Some(enid@.len()),
        untag(tag_of(enid@), enid@) == Some(enid@),
        unframe(enid@) == Some(enid@),
{
}

} // verus!
