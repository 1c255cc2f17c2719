//! The four-byte type of a PNG chunk.

use vstd::prelude::*;
use vstd::utf8::{decode_utf8, valid_utf8};

verus! {

/// Why a chunk type was refused.
#[derive(Debug)]
pub enum Error {
    InvalidChunk { message: String },
}

/// Bit five of a byte, the one that tells upper case from lower case in an
/// ASCII letter, is clear.
pub open spec fn bit5_clear(byte: u8) -> bool {
    byte & 32 == 0
}

/// Four bytes make a valid chunk type when bit five of the third is clear.
pub open spec fn valid_type(bytes: Seq<u8>) -> bool {
    bytes.len() == 4 && bit5_clear(bytes[2])
}

/// The type of a PNG chunk.
#[derive(Copy, Clone, Debug)]
pub struct ChunkType {
    bytes: [u8; 4],
}

impl View for ChunkType {
    type V = Seq<u8>;

    closed spec fn view(&self) -> Seq<u8> {
        self.bytes@
    }
}

/// `String::from_utf8`: succeeds exactly on well-formed UTF-8, and then
/// yields the characters that the bytes encode.
#[verifier::external_body]
fn string_from_utf8(bytes: Vec<u8>) -> (text: Option<String>)
    ensures
        text is Some <==> valid_utf8(bytes@),
        text matches Some(s) ==> s@ == decode_utf8(bytes@),
{
    String::from_utf8(bytes).ok()
}

impl ChunkType {
    /// Every chunk type has four bytes.
    pub proof fn lemma_len(&self)
        ensures
            self@.len() == 4,
    {
    }

    /// Makes a chunk type of four bytes, if they are valid.
    pub fn from_bytes(bytes: [u8; 4]) -> (r: Result<Self, Error>)
        ensures
            r is Ok <==> valid_type(bytes@),
            r matches Ok(c) ==> c@ == bytes@,
            r matches Err(e) ==> e matches Error::InvalidChunk { message } && message@
                == "The chunk is invalid!"@,
    {
        let c = Self { bytes };
        if c.is_valid() {
            Ok(c)
        } else {
            Err(Error::InvalidChunk { message: "The chunk is invalid!".to_owned() })
        }
    }

    /// Returns the four bytes.
    pub fn bytes(&self) -> (b: [u8; 4])
        ensures
            b@ == self@,
    {
        self.bytes
    }

    /// Tells whether the chunk is critical: bit five of the first byte is
    /// clear.
    pub fn is_critical(&self) -> (b: bool)
        ensures
            b == bit5_clear(self@[0]),
    {
        self.bytes[0] & 32u8 == 0
    }

    /// Tells whether the chunk is public: bit five of the second byte is
    /// clear.
    pub fn is_public(&self) -> (b: bool)
        ensures
            b == bit5_clear(self@[1]),
    {
        self.bytes[1] & 32u8 == 0
    }

    /// Tells whether the reserved bit, bit five of the third byte, is clear.
    pub fn is_reserved_bit_valid(&self) -> (b: bool)
        ensures
            b == bit5_clear(self@[2]),
    {
        self.bytes[2] & 32u8 == 0
    }

    /// Tells whether the chunk is safe to copy: bit five of the fourth byte
    /// is set.
    pub fn is_safe_to_copy(&self) -> (b: bool)
        ensures
            b == !bit5_clear(self@[3]),
    {
        self.bytes[3] & 32u8 != 0
    }

    /// Tells whether the type is valid: its reserved bit is.
    pub fn is_valid(&self) -> (b: bool)
        ensures
            b == valid_type(self@),
    {
        self.is_reserved_bit_valid()
    }

    /// Returns the type as text.
    pub fn as_string(&self) -> (text: String)
        requires
            valid_utf8(self@),
        ensures
            text@ == decode_utf8(self@),
    {
        let mut raw: Vec<u8> = Vec::new();
        raw.push(self.bytes[0]);
        raw.push(self.bytes[1]);
        raw.push(self.bytes[2]);
        raw.push(self.bytes[3]);
        assert(raw@ =~= self@);
        match string_from_utf8(raw) {
            Some(text) => text,
            None => vstd::pervasive::unreached(),
        }
    }

    /// Returns the type as text if its bytes are well-formed UTF-8.
    pub fn try_as_string(&self) -> (text: Option<String>)
        ensures
            text is Some <==> valid_utf8(self@),
            text matches Some(s) ==> s@ == decode_utf8(self@),
    {
        let mut raw: Vec<u8> = Vec::new();
        raw.push(self.bytes[0]);
        raw.push(self.bytes[1]);
        raw.push(self.bytes[2]);
        raw.push(self.bytes[3]);
        assert(raw@ =~= self@);
        string_from_utf8(raw)
    }
}

/// In an ASCII letter bit five is clear exactly when the letter is upper
/// case.
pub proof fn lemma_letter_case(byte: u8)
    requires
        65 <= byte <= 90 || 97 <= byte <= 122,
    ensures
        bit5_clear(byte) <==> byte <= 90,
{
    assert(byte & 32 == 0 <==> byte <= 90) by (bit_vector)
        requires
            65 <= byte <= 90 || 97 <= byte <= 122,
    ;
}

} // verus!
