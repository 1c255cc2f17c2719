//! PNG streams, cut into their chunks.

pub mod chunk;
pub mod chunktype;

use crate::ressources;
use crate::ressources::png::chunk::{Chunk, ChunkView};
use crate::ressources::png::chunktype::{valid_type, ChunkType};
use vstd::prelude::*;
use vstd::slice::{slice_subrange, slice_to_vec};
use vstd::string::StringExecFns;
use vstd::utf8::{decode_utf8, valid_utf8};

verus! {

/// Why a stream was refused.
#[derive(Debug)]
#[allow(inconsistent_fields)]
pub enum Error {
    /// The stream does not start with the signature, or it ends inside a
    /// chunk or before the closing chunk.
    PngFileCorrupted { name: String },
    /// The resource could not be loaded.
    ResourceLoad { name: String, inner: ressources::Error },
    InvalidChunkOrder { name: String, message: String },
    InvalidValue { name: String, message: String },
    /// A chunk has a type that is not valid.
    InvalidChunk { name: String, inner: chunk::Error },
}

/// The first eight bytes of every PNG stream.
pub const PNG_SIGNATURE: [u8; 8] = [137, 80, 78, 71, 13, 10, 26, 10];

/// The signature as a sequence.
pub open spec fn signature() -> Seq<u8> {
    seq![137u8, 80u8, 78u8, 71u8, 13u8, 10u8, 26u8, 10u8]
}

/// The type of the header chunk, `IHDR`.
pub open spec fn ihdr() -> Seq<u8> {
    seq![73u8, 72u8, 68u8, 82u8]
}

/// The type of the closing chunk, `IEND`.
pub open spec fn iend() -> Seq<u8> {
    seq![73u8, 69u8, 78u8, 68u8]
}

/// The stream starts with the signature.
pub open spec fn has_signature(data: Seq<u8>) -> bool {
    data.len() >= 8 && data.subrange(0, 8) == signature()
}

/// The number that the four bytes at `pos` spell, most significant first.
pub open spec fn be_u32(data: Seq<u8>, pos: int) -> int {
    data[pos] * 0x100_0000 + data[pos + 1] * 0x1_0000 + data[pos + 2] * 0x100 + data[pos + 3]
}

/// A whole chunk lies at `pos`: four bytes of length, four of type, as many
/// of data as the length says, four of checksum.
pub open spec fn framed_at(data: Seq<u8>, pos: int) -> bool {
    0 <= pos && pos + 12 <= data.len() && pos + 12 + be_u32(data, pos) <= data.len()
}

/// The chunk that lies at `pos`.
pub open spec fn chunk_at(data: Seq<u8>, pos: int) -> ChunkView {
    let length = be_u32(data, pos);
    ChunkView {
        chunk_type: data.subrange(pos + 4, pos + 8),
        data: data.subrange(pos + 8, pos + 8 + length),
        crc: data.subrange(pos + 8 + length, pos + 12 + length),
    }
}

/// Where the chunk after the one at `pos` starts.
pub open spec fn next_pos(data: Seq<u8>, pos: int) -> int {
    pos + 12 + be_u32(data, pos)
}

/// What cutting a stream into chunks comes to.
pub enum Cut {
    /// The chunks up to and including the closing one.
    Chunks(Seq<ChunkView>),
    /// The stream ends inside a chunk or before the closing one.
    Truncated,
    /// A chunk has a type that is not valid.
    BadType,
}

/// The outcome `rest` with the chunk `first` put in front.
pub open spec fn after(first: ChunkView, rest: Cut) -> Cut {
    match rest {
        Cut::Chunks(cs) => Cut::Chunks(seq![first] + cs),
        other => other,
    }
}

/// Cuts the stream from `pos` on into chunks, up to the closing chunk.
/// Whatever follows the closing chunk is left alone.
pub open spec fn cut(data: Seq<u8>, pos: int) -> Cut
    decreases data.len() - pos,
{
    if !framed_at(data, pos) {
        Cut::Truncated
    } else if !valid_type(chunk_at(data, pos).chunk_type) {
        Cut::BadType
    } else if chunk_at(data, pos).chunk_type == iend() {
        Cut::Chunks(seq![chunk_at(data, pos)])
    } else {
        after(chunk_at(data, pos), cut(data, next_pos(data, pos)))
    }
}

/// The outcome of cutting from `pos` on, with the chunks `done` in front.
pub open spec fn resumed(done: Seq<ChunkView>, rest: Cut) -> Cut {
    match rest {
        Cut::Chunks(cs) => Cut::Chunks(done + cs),
        other => other,
    }
}

/// The chunks that a stream is cut into end with the closing chunk, hold no
/// other of its type, and all have valid types.
pub proof fn lemma_cut_chunks(data: Seq<u8>, pos: int)
    requires
        cut(data, pos) is Chunks,
    ensures
        ({
            let cs = cut(data, pos)->Chunks_0;
            &&& cs.len() >= 1
            &&& cs.last().chunk_type == iend()
            &&& forall|i: int| 0 <= i < cs.len() - 1 ==> (#[trigger] cs[i]).chunk_type != iend()
            &&& forall|i: int| 0 <= i < cs.len() ==> valid_type((#[trigger] cs[i]).chunk_type)
        }),
    decreases data.len() - pos,
{
    let first = chunk_at(data, pos);
    if first.chunk_type != iend() {
        lemma_cut_chunks(data, next_pos(data, pos));
        let rest = cut(data, next_pos(data, pos))->Chunks_0;
        let cs = cut(data, pos)->Chunks_0;
        assert(cs =~= seq![first] + rest);
        assert forall|i: int| 0 <= i < cs.len() - 1 implies (#[trigger] cs[i]).chunk_type
            != iend() by {
            if i > 0 {
                assert(cs[i] == rest[i - 1]);
            }
        }
        assert forall|i: int| 0 <= i < cs.len() implies valid_type(
            (#[trigger] cs[i]).chunk_type,
        ) by {
            if i > 0 {
                assert(cs[i] == rest[i - 1]);
            }
        }
    }
}

/// What the header chunk tells of the image, with the transparent colour
/// key and the palette that later chunks may fill in.
pub struct Info {
    pub width: u32,
    pub height: u32,
    pub color_type: u8,
    pub bit_depth: u8,
    pub compression_method: u8,
    pub filter_method: u8,
    pub interlace_method: u8,
    pub key_r: u32,
    pub key_g: u32,
    pub key_b: u32,
    /// Whether a transparent colour key is given.
    pub key_defined: bool,
    pub palette: Vec<u8>,
}

/// A PNG stream as its chunks, under the name it was loaded by.
pub struct Png {
    chunks: Vec<Chunk>,
    name: String,
}

/// Reads the four bytes at `pos` as a number, most significant first.
fn read_be_u32(data: &[u8], pos: usize) -> (n: u32)
    requires
        pos + 4 <= data@.len(),
    ensures
        n == be_u32(data@, pos as int),
{
    let b0: u32 = data[pos] as u32;
    let b1: u32 = data[pos + 1] as u32;
    let b2: u32 = data[pos + 2] as u32;
    let b3: u32 = data[pos + 3] as u32;
    b0 * 0x100_0000 + b1 * 0x1_0000 + b2 * 0x100 + b3
}

/// Copies the four bytes at `pos`.
fn read_four(data: &[u8], pos: usize) -> (four: [u8; 4])
    requires
        pos + 4 <= data@.len(),
    ensures
        four@ == data@.subrange(pos as int, pos + 4),
{
    let four = [data[pos], data[pos + 1], data[pos + 2], data[pos + 3]];
    assert(four@ =~= data@.subrange(pos as int, pos + 4));
    four
}

/// Tells whether the stream starts with the signature.
fn starts_with_signature(data: &[u8]) -> (ok: bool)
    ensures
        ok == has_signature(data@),
{
    if data.len() < 8 {
        return false;
    }
    let mut i: usize = 0;
    while i < 8
        invariant
            i <= 8,
            data@.len() >= 8,
            forall|k: int| 0 <= k < i ==> data@[k] == signature()[k],
        decreases 8 - i,
    {
        if data[i] != PNG_SIGNATURE[i] {
            assert(data@.subrange(0, 8)[i as int] != signature()[i as int]);
            return false;
        }
        i = i + 1;
    }
    assert(data@.subrange(0, 8) =~= signature());
    true
}

impl Png {
    /// What the chunks hold, in order.
    pub closed spec fn chunks_view(&self) -> Seq<ChunkView> {
        self.chunks@.map_values(|c: Chunk| c@)
    }

    /// The name the stream was loaded by.
    pub closed spec fn name_view(&self) -> Seq<char> {
        self.name@
    }

    /// The stream has a first chunk.
    pub open spec fn wf(&self) -> bool {
        self.chunks_view().len() >= 1
    }

    /// Cuts the bytes of the resource `name` into chunks.
    ///
    /// The stream must start with the signature. Chunks are taken one after
    /// another up to the first of type `IEND`. A stream without the
    /// signature, or one that ends before that chunk is complete, is
    /// corrupted; a chunk type whose reserved bit is set is an invalid
    /// chunk.
    pub fn from_res(data: &[u8], name: &str) -> (r: Result<Png, Error>)
        ensures
            match r {
                Ok(png) => has_signature(data@) && cut(data@, 8) == Cut::Chunks(png.chunks_view())
                    && png.name_view() == name@ && png.wf(),
                Err(Error::PngFileCorrupted { name: n }) => n@ == name@ && (!has_signature(data@)
                    || cut(data@, 8) == Cut::Truncated),
                Err(Error::InvalidChunk { name: n, inner }) => n@ == name@ && has_signature(data@)
                    && cut(data@, 8) == Cut::BadType,
                Err(_) => false,
            },
    {
        if !starts_with_signature(data) {
            return Err(Error::PngFileCorrupted { name: name.to_owned() });
        }
        let mut chunks: Vec<Chunk> = Vec::new();
        let mut chunk_indice: usize = 8;
        let mut is_parse_complete = false;
        while !is_parse_complete
            invariant
                8 <= chunk_indice <= data@.len(),
                has_signature(data@),
                !is_parse_complete ==> cut(data@, 8) == resumed(
                    chunks@.map_values(|c: Chunk| c@),
                    cut(data@, chunk_indice as int),
                ),
                is_parse_complete ==> cut(data@, 8) == Cut::Chunks(
                    chunks@.map_values(|c: Chunk| c@),
                ),
            decreases data@.len() - chunk_indice,
        {
            let ghost done = chunks@.map_values(|c: Chunk| c@);
            let ghost start = chunk_indice as int;
            if data.len() - chunk_indice < 12 {
                return Err(Error::PngFileCorrupted { name: name.to_owned() });
            }
            let length: u32 = read_be_u32(data, chunk_indice);
            if length as usize > data.len() - chunk_indice - 12 {
                return Err(Error::PngFileCorrupted { name: name.to_owned() });
            }
            chunk_indice = chunk_indice + 4;
            let chunk_type_bytes: [u8; 4] = read_four(data, chunk_indice);
            let chunk_type = match ChunkType::from_bytes(chunk_type_bytes) {
                Ok(t) => t,
                Err(e) => {
                    proof {
                        assert(framed_at(data@, start));
                        assert(chunk_at(data@, start).chunk_type == chunk_type_bytes@);
                        assert(cut(data@, start) == Cut::BadType);
                    }
                    return Err(
                        Error::InvalidChunk {
                            name: name.to_owned(),
                            inner: chunk::Error::InvalidChunk(e),
                        },
                    );
                },
            };
            chunk_indice = chunk_indice + 4;
            let chunk_data: Vec<u8> = slice_to_vec(
                slice_subrange(data, chunk_indice, chunk_indice + length as usize),
            );
            chunk_indice = chunk_indice + length as usize;
            let crc: [u8; 4] = read_four(data, chunk_indice);
            chunk_indice = chunk_indice + 4;
            let is_end = chunk_type_bytes[0] == 73 && chunk_type_bytes[1] == 69
                && chunk_type_bytes[2] == 78 && chunk_type_bytes[3] == 68;
            let chunk = Chunk::new(chunk_type, chunk_data, crc);
            proof {
                assert(chunk@ == chunk_at(data@, start));
                assert(is_end == (chunk@.chunk_type == iend())) by {
                    if is_end {
                        assert(chunk@.chunk_type =~= iend());
                    } else {
                        assert(chunk@.chunk_type[0] != iend()[0] || chunk@.chunk_type[1]
                            != iend()[1] || chunk@.chunk_type[2] != iend()[2]
                            || chunk@.chunk_type[3] != iend()[3]);
                    }
                }
            }
            chunks.push(chunk);
            proof {
                let now = chunks@.map_values(|c: Chunk| c@);
                assert(now =~= done + seq![chunk_at(data@, start)]);
                match cut(data@, chunk_indice as int) {
                    Cut::Chunks(cs) => {
                        assert(done + (seq![chunk_at(data@, start)] + cs) =~= now + cs);
                    },
                    _ => {},
                }
                if is_end {
                    assert(done + seq![chunk_at(data@, start)] =~= now);
                }
            }
            if is_end {
                is_parse_complete = true;
            }
        }
        proof {
            lemma_cut_chunks(data@, 8);
        }
        Ok(Self { chunks, name: name.to_owned() })
    }

    /// What `read_ihdr` asks of the first chunk: thirteen bytes of data at
    /// least if it is of type `IHDR`, and a type that is well-formed UTF-8
    /// if it is not.
    pub open spec fn spec_header_readable(&self) -> bool {
        let first = self.chunks_view()[0];
        &&& first.chunk_type == ihdr() ==> first.data.len() >= 13
        &&& first.chunk_type != ihdr() ==> valid_utf8(first.chunk_type)
    }

    /// Tells whether `read_ihdr` can be called.
    pub fn header_readable(&self) -> (ok: bool)
        requires
            self.wf(),
        ensures
            ok == self.spec_header_readable(),
    {
        let first: &Chunk = &self.chunks[0];
        assert(first@ == self.chunks_view()[0]);
        let kind = first.chunk_type();
        let bytes = kind.bytes();
        let is_header = bytes[0] == 73 && bytes[1] == 72 && bytes[2] == 68 && bytes[3] == 82;
        proof {
            kind.lemma_len();
            if is_header {
                assert(kind@ =~= ihdr());
            } else {
                assert(kind@[0] != ihdr()[0] || kind@[1] != ihdr()[1] || kind@[2] != ihdr()[2]
                    || kind@[3] != ihdr()[3]);
            }
        }
        if is_header {
            first.length() >= 13
        } else {
            kind.try_as_string().is_some()
        }
    }

    /// Reads the header of the image from the first chunk, which must be of
    /// type `IHDR`: the width and the height, four bytes each with the most
    /// significant first, then one byte each for bit depth, colour type,
    /// compression, filter and interlace method. The colour key is zero and
    /// counts as given, and the palette is empty.
    pub fn read_ihdr(&self) -> (r: Result<Info, Error>)
        requires
            self.wf(),
            self.spec_header_readable(),
        ensures
            r is Ok <==> self.chunks_view()[0].chunk_type == ihdr(),
            r matches Ok(info) ==> {
                let data = self.chunks_view()[0].data;
                &&& info.width == be_u32(data, 0)
                &&& info.height == be_u32(data, 4)
                &&& info.bit_depth == data[8]
                &&& info.color_type == data[9]
                &&& info.compression_method == data[10]
                &&& info.filter_method == data[11]
                &&& info.interlace_method == data[12]
                &&& info.key_r == 0
                &&& info.key_g == 0
                &&& info.key_b == 0
                &&& info.key_defined
                &&& info.palette@ == Seq::<u8>::empty()
            },
            r matches Err(e) ==> e matches Error::InvalidChunkOrder { name, message } && name@
                == self.name_view() && message@
                == "The first chunk must be an IHDR chunk. Found "@ + decode_utf8(
                self.chunks_view()[0].chunk_type,
            ),
    {
        let first: &Chunk = &self.chunks[0];
        assert(first@ == self.chunks_view()[0]);
        let kind = first.chunk_type();
        let bytes = kind.bytes();
        let is_header = bytes[0] == 73 && bytes[1] == 72 && bytes[2] == 68 && bytes[3] == 82;
        proof {
            kind.lemma_len();
            if is_header {
                assert(kind@ =~= ihdr());
            } else {
                assert(kind@[0] != ihdr()[0] || kind@[1] != ihdr()[1] || kind@[2] != ihdr()[2]
                    || kind@[3] != ihdr()[3]);
            }
        }
        if !is_header {
            let mut message = String::from_str("The first chunk must be an IHDR chunk. Found ");
            let found = kind.as_string();
            message.append(found.as_str());
            return Err(Error::InvalidChunkOrder { name: self.name.clone(), message });
        }
        let data = first.data();
        Ok(
            Info {
                width: read_be_u32(data, 0),
                height: read_be_u32(data, 4),
                color_type: data[9],
                bit_depth: data[8],
                compression_method: data[10],
                filter_method: data[11],
                interlace_method: data[12],
                key_r: 0,
                key_g: 0,
                key_b: 0,
                key_defined: true,
                palette: Vec::new(),
            },
        )
    }

    /// Returns the chunks, in order.
    pub fn chunks(&self) -> (cs: &Vec<Chunk>)
        ensures
            cs@.map_values(|c: Chunk| c@) == self.chunks_view(),
    {
        &self.chunks
    }

    /// Returns the name the stream was loaded by.
    pub fn name(&self) -> (n: &str)
        ensures
            n@ == self.name_view(),
    {
        self.name.as_str()
    }
}

} // verus!
