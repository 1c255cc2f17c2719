//! One chunk of a PNG stream.

use crate::ressources::png::chunktype;
use crate::ressources::png::chunktype::ChunkType;
use vstd::prelude::*;

verus! {

/// Why a chunk was refused.
#[derive(Debug)]
pub enum Error {
    InvalidChunk(chunktype::Error),
}

/// The polynomial of the cyclic redundancy check, lowest power at the
/// highest bit.
pub const CRC_POL: u32 = 0xedb88320;

/// The check register after one bit has been shifted out.
pub open spec fn crc_shift(c: u32) -> u32 {
    if c & 1 == 1 {
        CRC_POL ^ (c >> 1)
    } else {
        c >> 1
    }
}

/// The check register after eight bits have been shifted out.
pub open spec fn crc_shift8(c: u32) -> u32 {
    crc_shift(crc_shift(crc_shift(crc_shift(crc_shift(crc_shift(crc_shift(crc_shift(c))))))))
}

/// The check register after the bytes have gone through it one by one:
/// each byte is added into the low bits and shifted out.
pub open spec fn crc_update(c: u32, bytes: Seq<u8>) -> u32
    decreases bytes.len(),
{
    if bytes.len() == 0 {
        c
    } else {
        crc_shift8(crc_update(c, bytes.drop_last()) ^ (bytes.last() as u32))
    }
}

/// The cyclic redundancy check of the bytes: the register starts with all
/// bits set and is inverted at the end.
pub open spec fn crc32(bytes: Seq<u8>) -> u32 {
    crc_update(0xffffffff, bytes) ^ 0xffffffff
}

/// The number that four bytes spell, most significant first.
pub open spec fn be_value(bytes: Seq<u8>) -> int {
    bytes[0] * 0x100_0000 + bytes[1] * 0x1_0000 + bytes[2] * 0x100 + bytes[3]
}

/// Shifting eight bits out of a register is shifting them out of its low
/// byte alone, with the rest of the register moved down beside it.
pub proof fn lemma_shift8_by_low_byte(c: u32)
    ensures
        crc_shift8(c) == crc_shift8(c & 0xff) ^ (c >> 8),
{
    assert(crc_shift8(c) == crc_shift8(c & 0xff) ^ (c >> 8)) by (bit_vector);
}

/// Computes one bit shifted out of the register.
fn shift(c: u32) -> (r: u32)
    ensures
        r == crc_shift(c),
{
    if c & 1u32 == 1 {
        CRC_POL ^ (c >> 1)
    } else {
        c >> 1
    }
}

/// Computes the table of the check: entry `n` is `n` with eight bits
/// shifted out.
fn crc_table() -> (table: [u32; 256])
    ensures
        forall|n: int| 0 <= n < 256 ==> #[trigger] table[n] == crc_shift8(n as u32),
{
    let mut crc_table: [u32; 256] = [0; 256];
    let mut n: u32 = 0;
    while n < 256
        invariant
            n <= 256,
            forall|m: int| 0 <= m < n ==> #[trigger] crc_table[m] == crc_shift8(m as u32),
        decreases 256 - n,
    {
        let mut c: u32 = n;
        c = shift(shift(shift(shift(shift(shift(shift(shift(c))))))));
        crc_table[n as usize] = c;
        n = n + 1;
    }
    crc_table
}

/// Runs more bytes through the check register.
fn update(table: &[u32; 256], start: u32, bytes: &[u8], Ghost(before): Ghost<Seq<u8>>) -> (c: u32)
    requires
        forall|n: int| 0 <= n < 256 ==> #[trigger] table[n] == crc_shift8(n as u32),
        start == crc_update(0xffffffff, before),
    ensures
        c == crc_update(0xffffffff, before + bytes@),
{
    let mut c: u32 = start;
    let mut n: usize = 0;
    assert(before + bytes@.take(0) =~= before);
    while n < bytes.len()
        invariant
            n <= bytes@.len(),
            forall|m: int| 0 <= m < 256 ==> #[trigger] table[m] == crc_shift8(m as u32),
            c == crc_update(0xffffffff, before + bytes@.take(n as int)),
        decreases bytes@.len() - n,
    {
        let byte: u32 = bytes[n] as u32;
        let mixed: u32 = c ^ byte;
        let low: u32 = mixed & 0xff;
        proof {
            lemma_shift8_by_low_byte(mixed);
            assert(low < 256) by (bit_vector)
                requires
                    low == mixed & 0xff,
            ;
            assert((c ^ byte) >> 8 == c >> 8) by (bit_vector)
                requires
                    byte < 256,
            ;
            let sofar = before + bytes@.take(n as int);
            let next = before + bytes@.take(n as int + 1);
            assert(next.drop_last() =~= sofar);
            assert(next.last() == bytes@[n as int]);
        }
        c = table[low as usize] ^ (c >> 8);
        n = n + 1;
    }
    assert(bytes@.take(bytes@.len() as int) =~= bytes@);
    c
}

/// What a chunk holds.
pub struct ChunkView {
    pub chunk_type: Seq<u8>,
    pub data: Seq<u8>,
    pub crc: Seq<u8>,
}

/// A chunk: its type, its data with their length, and its checksum bytes.
pub struct Chunk {
    length: u32,
    chunk_type: ChunkType,
    data: Vec<u8>,
    crc: [u8; 4],
}

impl View for Chunk {
    type V = ChunkView;

    closed spec fn view(&self) -> ChunkView {
        ChunkView { chunk_type: self.chunk_type@, data: self.data@, crc: self.crc@ }
    }
}

impl Chunk {
    /// The length that the chunk records.
    pub closed spec fn spec_length(&self) -> u32 {
        self.length
    }

    /// The recorded length is that of the data.
    pub closed spec fn wf(&self) -> bool {
        self.length == self.data@.len()
    }

    #[verifier::type_invariant]
    spec fn inv(&self) -> bool {
        self.wf()
    }

    /// Makes a chunk of its parts.
    pub fn new(chunk_type: ChunkType, data: Vec<u8>, crc: [u8; 4]) -> (chunk: Self)
        requires
            data@.len() <= u32::MAX,
        ensures
            chunk.wf(),
            chunk@ == (ChunkView { chunk_type: chunk_type@, data: data@, crc: crc@ }),
            chunk.spec_length() == data@.len(),
    {
        Self { length: data.len() as u32, chunk_type, data, crc }
    }

    /// Returns the length of the data.
    pub fn length(&self) -> (n: u32)
        ensures
            n == self.spec_length(),
            n == self@.data.len(),
    {
        proof {
            use_type_invariant(self);
        }
        self.length
    }

    /// Returns the type.
    pub fn chunk_type(&self) -> (t: &ChunkType)
        ensures
            t@ == self@.chunk_type,
    {
        &self.chunk_type
    }

    /// Returns the data.
    pub fn data(&self) -> (d: &[u8])
        ensures
            d@ == self@.data,
    {
        self.data.as_slice()
    }

    /// The bytes that the checksum covers: the type, then the data.
    pub open spec fn checked_bytes(&self) -> Seq<u8> {
        self@.chunk_type + self@.data
    }

    /// Computes the cyclic redundancy check of the type and the data.
    pub fn crc(&self) -> (c: u32)
        ensures
            c == crc32(self.checked_bytes()),
    {
        let table = crc_table();
        let kind = self.chunk_type.bytes();
        assert(Seq::<u8>::empty() + kind@ =~= kind@);
        let c = update(&table, 0xffffffff, kind.as_slice(), Ghost(Seq::empty()));
        let c = update(&table, c, self.data.as_slice(), Ghost(kind@));
        c ^ 0xffffffff
    }

    /// Tells whether the stored checksum, read most significant byte first,
    /// is the cyclic redundancy check of the type and the data.
    pub fn crc_check(&self) -> (ok: bool)
        ensures
            ok == (crc32(self.checked_bytes()) == be_value(self@.crc)),
    {
        let stored: u32 = (self.crc[0] as u32) * 0x100_0000 + (self.crc[1] as u32) * 0x1_0000 + (
        self.crc[2] as u32) * 0x100 + (self.crc[3] as u32);
        self.crc() == stored
    }

    /// Returns the checksum bytes as they were stored.
    pub fn crc_bytes(&self) -> (c: [u8; 4])
        ensures
            c@ == self@.crc,
    {
        self.crc
    }
}

} // verus!
