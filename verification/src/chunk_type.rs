//! The four-byte chunk type code of a PNG-style chunk, with the
//! property bits each of its bytes carries in its fifth bit.

use vstd::prelude::*;

use crate::scan::utf8_to_string;
use vstd::string::StringSliceAdditionalSpecFns;
use vstd::utf8::{decode_utf8, valid_utf8};

verus! {

/// A four-byte chunk type code.  Its view is the sequence of its bytes.
#[derive(Debug, PartialEq, Eq, Structural, Clone, Copy)]
pub struct ChunkType {
    b1: u8,
    b2: u8,
    b3: u8,
    b4: u8,
}

impl View for ChunkType {
    type V = Seq<u8>;

    closed spec fn view(&self) -> Seq<u8> {
        seq![self.b1, self.b2, self.b3, self.b4]
    }
}

impl ChunkType {
    /// The four bytes of the code, in order.
    pub fn bytes(&self) -> (r: [u8; 4])
        ensures
            r@ == self@,
    {
        let r = [self.b1, self.b2, self.b3, self.b4];
        proof {
            assert(r@ =~= self@);
        }
        r
    }

    /// The code as text, or the empty string when its bytes are not
    /// valid UTF-8.
    pub fn to_string(&self) -> (r: String)
        ensures
            valid_utf8(self@) ==> r@ == decode_utf8(self@),
            !valid_utf8(self@) ==> r@ == Seq::<char>::empty(),
    {
        let bytes = vec![self.b1, self.b2, self.b3, self.b4];
        proof {
            assert(bytes@ =~= self@);
        }
        match utf8_to_string(bytes.as_slice()) {
            Some(s) => s,
            None => String::new(),
        }
    }

    /// True when the critical bit — bit five of the first byte — is
    /// clear.
    pub fn is_critical(&self) -> (r: bool)
        ensures
            r == ((self@[0] & 0x20u8) == 0u8),
    {
        (self.b1 & 0x20) == 0
    }

    /// True when the public bit — bit five of the second byte — is
    /// clear.
    pub fn is_public(&self) -> (r: bool)
        ensures
            r == ((self@[1] & 0x20u8) == 0u8),
    {
        (self.b2 & 0x20) == 0
    }

    /// True when the reserved bit — bit five of the third byte — is
    /// clear.
    pub fn is_reserved_bit_valid(&self) -> (r: bool)
        ensures
            r == ((self@[2] & 0x20u8) == 0u8),
    {
        (self.b3 & 0x20) == 0
    }

    /// True when the safe-to-copy bit — bit five of the fourth byte —
    /// is set.
    pub fn is_safe_to_copy(&self) -> (r: bool)
        ensures
            r == ((self@[3] & 0x20u8) != 0u8),
    {
        (self.b4 & 0x20) != 0
    }

    /// True when all four property bits take their expected values.
    pub fn is_valid(&self) -> (r: bool)
        ensures
            r == ((self@[0] & 0x20u8) == 0u8 && (self@[1] & 0x20u8) == 0u8 && (self@[2] & 0x20u8)
                == 0u8 && (self@[3] & 0x20u8) != 0u8),
    {
        self.is_critical() && self.is_public() && self.is_reserved_bit_valid()
            && self.is_safe_to_copy()
    }

    /// A code from four raw bytes.
    pub fn try_from(data: [u8; 4]) -> (r: Result<ChunkType, &'static str>)
        ensures
            match r {
                Ok(t) => t@ == data@,
                Err(_) => false,
            },
    {
        let t = ChunkType { b1: data[0], b2: data[1], b3: data[2], b4: data[3] };
        proof {
            assert(t@ =~= data@);
        }
        Ok(t)
    }

    /// A code from the first four bytes of a string; an error when the
    /// string is shorter than four bytes.
    pub fn from_str(s: &str) -> (r: Result<ChunkType, &'static str>)
        ensures
            match r {
                Ok(t) => s.spec_bytes().len() >= 4 && t@ == s.spec_bytes().take(4),
                Err(_) => s.spec_bytes().len() < 4,
            },
    {
        let bytes = s.as_bytes();
        if bytes.len() < 4 {
            return Err("chunk type needs four bytes");
        }
        let t = ChunkType { b1: bytes[0], b2: bytes[1], b3: bytes[2], b4: bytes[3] };
        proof {
            assert(t@ =~= s.spec_bytes().take(4));
        }
        Ok(t)
    }
}

} // verus!
