//! What is known of a shader before the graphics driver compiles it: its
//! kind, told by the extension of its resource, and its source.

use crate::ressources;
use crate::ressources::{check_cstring, has_null_byte};
use vstd::prelude::*;
use vstd::string::{StringExecFns, StringSliceAdditionalSpecFns};

verus! {

/// Code of vertex shaders.
pub const VERTEX_SHADER: u32 = 0x8B31;

/// Code of tessellation control shaders.
pub const TESS_CONTROL_SHADER: u32 = 0x8E88;

/// Code of tessellation evaluation shaders.
pub const TESS_EVALUATION_SHADER: u32 = 0x8E87;

/// Code of geometry shaders.
pub const GEOMETRY_SHADER: u32 = 0x8DD9;

/// Code of fragment shaders.
pub const FRAGMENT_SHADER: u32 = 0x8B30;

/// Code of compute shaders.
pub const COMPUTE_SHADER: u32 = 0x91B9;

/// Number of shader kinds.
pub const KINDS: usize = 6;

/// Why a shader or a program could not be made.
#[derive(Debug)]
pub enum Error {
    ResourceLoad { name: String, inner: ressources::Error },
    CanNotDetermineShaderTypeForResource { name: String },
    CompileError { name: String, message: String },
    LinkError { name: String, message: String },
}

/// The extension of kind `k` as bytes: `.vert`, `.tesc`, `.tese`, `.geom`,
/// `.frag`, `.comp`.
pub open spec fn ext_bytes(k: int) -> Seq<u8> {
    if k == 0 {
        seq![46u8, 118u8, 101u8, 114u8, 116u8]
    } else if k == 1 {
        seq![46u8, 116u8, 101u8, 115u8, 99u8]
    } else if k == 2 {
        seq![46u8, 116u8, 101u8, 115u8, 101u8]
    } else if k == 3 {
        seq![46u8, 103u8, 101u8, 111u8, 109u8]
    } else if k == 4 {
        seq![46u8, 102u8, 114u8, 97u8, 103u8]
    } else {
        seq![46u8, 99u8, 111u8, 109u8, 112u8]
    }
}

/// The extension of kind `k` as text.
pub open spec fn ext_text(k: int) -> Seq<char> {
    if k == 0 {
        ".vert"@
    } else if k == 1 {
        ".tesc"@
    } else if k == 2 {
        ".tese"@
    } else if k == 3 {
        ".geom"@
    } else if k == 4 {
        ".frag"@
    } else {
        ".comp"@
    }
}

/// The driver's code of kind `k`.
pub open spec fn ext_type(k: int) -> u32 {
    if k == 0 {
        VERTEX_SHADER
    } else if k == 1 {
        TESS_CONTROL_SHADER
    } else if k == 2 {
        TESS_EVALUATION_SHADER
    } else if k == 3 {
        GEOMETRY_SHADER
    } else if k == 4 {
        FRAGMENT_SHADER
    } else {
        COMPUTE_SHADER
    }
}

/// `text` ends with `tail`.
pub open spec fn ends_with(text: Seq<u8>, tail: Seq<u8>) -> bool {
    tail.len() <= text.len() && text.subrange(text.len() - tail.len(), text.len() as int) == tail
}

/// The kind whose extension the name ends with, the first such in the order
/// of the kinds.
pub open spec fn spec_shader_type(name: Seq<u8>) -> Option<u32> {
    if ends_with(name, ext_bytes(0)) {
        Some(ext_type(0))
    } else if ends_with(name, ext_bytes(1)) {
        Some(ext_type(1))
    } else if ends_with(name, ext_bytes(2)) {
        Some(ext_type(2))
    } else if ends_with(name, ext_bytes(3)) {
        Some(ext_type(3))
    } else if ends_with(name, ext_bytes(4)) {
        Some(ext_type(4))
    } else if ends_with(name, ext_bytes(5)) {
        Some(ext_type(5))
    } else {
        None
    }
}

/// Returns the extension of kind `k` as bytes.
fn extension(k: usize) -> (ext: [u8; 5])
    requires
        k < KINDS,
    ensures
        ext@ == ext_bytes(k as int),
{
    let ext: [u8; 5] = if k == 0 {
        [46, 118, 101, 114, 116]
    } else if k == 1 {
        [46, 116, 101, 115, 99]
    } else if k == 2 {
        [46, 116, 101, 115, 101]
    } else if k == 3 {
        [46, 103, 101, 111, 109]
    } else if k == 4 {
        [46, 102, 114, 97, 103]
    } else {
        [46, 99, 111, 109, 112]
    };
    assert(ext@ =~= ext_bytes(k as int));
    ext
}

/// Returns the extension of kind `k` as text.
fn extension_text(k: usize) -> (ext: &'static str)
    requires
        k < KINDS,
    ensures
        ext@ == ext_text(k as int),
{
    if k == 0 {
        ".vert"
    } else if k == 1 {
        ".tesc"
    } else if k == 2 {
        ".tese"
    } else if k == 3 {
        ".geom"
    } else if k == 4 {
        ".frag"
    } else {
        ".comp"
    }
}

/// Returns the driver's code of kind `k`.
fn extension_type(k: usize) -> (code: u32)
    requires
        k < KINDS,
    ensures
        code == ext_type(k as int),
{
    if k == 0 {
        VERTEX_SHADER
    } else if k == 1 {
        TESS_CONTROL_SHADER
    } else if k == 2 {
        TESS_EVALUATION_SHADER
    } else if k == 3 {
        GEOMETRY_SHADER
    } else if k == 4 {
        FRAGMENT_SHADER
    } else {
        COMPUTE_SHADER
    }
}

/// Tells whether `text` ends with the five bytes of `tail`.
fn bytes_end_with(text: &[u8], tail: &[u8; 5]) -> (yes: bool)
    ensures
        yes == ends_with(text@, tail@),
{
    if text.len() < 5 {
        return false;
    }
    let len: usize = text.len();
    let start: usize = len - 5;
    let mut i: usize = 0;
    while i < 5
        invariant
            i <= 5,
            start + 5 == len,
            len == text@.len(),
            forall|m: int| 0 <= m < i ==> text@[start + m] == tail@[m],
        decreases 5 - i,
    {
        if text[start + i] != tail[i] {
            assert(text@.subrange(start as int, text@.len() as int)[i as int] != tail@[i as int]);
            return false;
        }
        i = i + 1;
    }
    assert(text@.subrange(start as int, text@.len() as int) =~= tail@);
    true
}

/// Tells the kind of the shader in the resource `name` by its extension.
pub fn shader_type(name: &str) -> (r: Result<u32, Error>)
    ensures
        match r {
            Ok(code) => spec_shader_type(name.spec_bytes()) == Some(code),
            Err(Error::CanNotDetermineShaderTypeForResource { name: n }) => n@ == name@
                && spec_shader_type(name.spec_bytes()) is None,
            Err(_) => false,
        },
{
    let bytes = name.as_bytes();
    let mut k: usize = 0;
    while k < KINDS
        invariant
            k <= KINDS,
            bytes@ == name.spec_bytes(),
            forall|m: int| 0 <= m < k ==> !ends_with(bytes@, ext_bytes(m)),
        decreases KINDS - k,
    {
        let ext = extension(k);
        if bytes_end_with(bytes, &ext) {
            return Ok(extension_type(k));
        }
        k = k + 1;
    }
    Err(Error::CanNotDetermineShaderTypeForResource { name: name.to_owned() })
}

/// Lists the resources that may hold the shaders of the program `name`: the
/// name with the extension of each kind, paired with the code of the kind.
pub fn ressources_names(name: &str) -> (names: Vec<(String, u32)>)
    ensures
        names@.len() == KINDS,
        forall|k: int|
            0 <= k < KINDS ==> (#[trigger] names@[k]).0@ == name@ + ext_text(k) && names@[k].1
                == ext_type(k),
{
    let mut names: Vec<(String, u32)> = Vec::new();
    let mut k: usize = 0;
    while k < KINDS
        invariant
            k <= KINDS,
            names@.len() == k,
            forall|m: int|
                0 <= m < k ==> (#[trigger] names@[m]).0@ == name@ + ext_text(m) && names@[m].1
                    == ext_type(m),
        decreases KINDS - k,
    {
        let mut full = String::from_str(name);
        full.append(extension_text(k));
        names.push((full, extension_type(k)));
        k = k + 1;
    }
    names
}

/// What a shader holds.
pub struct ShaderView {
    pub source: Seq<u8>,
    pub shader_type: u32,
}

/// A shader ready to be compiled: its source, free of zero bytes, and the
/// code of its kind.
pub struct Shader {
    source: Vec<u8>,
    shader_type: u32,
}

impl View for Shader {
    type V = ShaderView;

    closed spec fn view(&self) -> ShaderView {
        ShaderView { source: self.source@, shader_type: self.shader_type }
    }
}

impl Shader {
    /// Makes the shader of kind `stype` from the content of the resource
    /// `name`. Content with a zero byte cannot be handed to the driver and
    /// fails to load.
    pub fn from_res(name: &str, content: Vec<u8>, stype: u32) -> (r: Result<Shader, Error>)
        ensures
            match r {
                Ok(shader) => !has_null_byte(content@) && shader@ == (ShaderView {
                    source: content@,
                    shader_type: stype,
                }),
                Err(Error::ResourceLoad { name: n, inner }) => n@ == name@ && has_null_byte(
                    content@,
                ) && inner is FileContainsNullByte,
                Err(_) => false,
            },
    {
        match check_cstring(content.as_slice()) {
            Ok(()) => Ok(Shader { source: content, shader_type: stype }),
            Err(e) => Err(Error::ResourceLoad { name: name.to_owned(), inner: e }),
        }
    }

    /// Returns the source.
    pub fn source(&self) -> (s: &[u8])
        ensures
            s@ == self@.source,
    {
        self.source.as_slice()
    }

    /// Returns the code of the kind.
    pub fn shader_type(&self) -> (t: u32)
        ensures
            t == self@.shader_type,
    {
        self.shader_type
    }
}

/// Makes the buffer that the driver writes a log of `len` bytes into: `len`
/// spaces.
pub fn empty_log(len: usize) -> (buffer: Vec<u8>)
    ensures
        buffer@.len() == len,
        forall|i: int| 0 <= i < len ==> #[trigger] buffer@[i] == 32,
        !has_null_byte(buffer@),
{
    let mut buffer: Vec<u8> = Vec::new();
    let mut i: usize = 0;
    while i < len
        invariant
            i <= len,
            buffer@.len() == i,
            forall|k: int| 0 <= k < i ==> #[trigger] buffer@[k] == 32,
        decreases len - i,
    {
        buffer.push(32);
        i = i + 1;
    }
    buffer
}

/// What the driver's answer to compiling the shader of the resource `name`
/// comes to: with a status of zero, a compile error whose message holds
/// the driver's log.
pub fn compiled(name: &str, status: i32, log: &str) -> (r: Result<(), Error>)
    ensures
        r is Ok <==> status != 0,
        r matches Err(e) ==> e matches Error::CompileError { name: n, message } && n@ == name@
            && message@ == "There was an error in the shader compilation: "@ + log@ + "\n"@,
{
    if status == 0 {
        let mut message = String::from_str("There was an error in the shader compilation: ");
        message.append(log);
        message.append("\n");
        Err(Error::CompileError { name: name.to_owned(), message })
    } else {
        Ok(())
    }
}

/// What the driver's answer to linking the program `name` comes to: with a
/// status of zero, a link error whose message is the driver's log.
pub fn linked(name: &str, status: i32, log: &str) -> (r: Result<(), Error>)
    ensures
        r is Ok <==> status != 0,
        r matches Err(e) ==> e matches Error::LinkError { name: n, message } && n@ == name@
            && message@ == log@,
{
    if status == 0 {
        Err(Error::LinkError { name: name.to_owned(), message: log.to_owned() })
    } else {
        Ok(())
    }
}

/// The extensions differ in their last two bytes at least, so a name ends
/// with one of them at most: the order of the kinds decides nothing.
pub proof fn lemma_one_extension(name: Seq<u8>, k: int, m: int)
    requires
        0 <= k < KINDS,
        0 <= m < KINDS,
        ends_with(name, ext_bytes(k)),
        ends_with(name, ext_bytes(m)),
    ensures
        k == m,
{
    let tail = name.subrange(name.len() - 5, name.len() as int);
    assert(tail == ext_bytes(k));
    assert(tail == ext_bytes(m));
    assert(ext_bytes(k)[1] == ext_bytes(m)[1]);
    assert(ext_bytes(k)[4] == ext_bytes(m)[4]);
}

/// A name that ends with the extension of a kind is of that kind.
pub proof fn lemma_shader_type_of(name: Seq<u8>, k: int)
    requires
        0 <= k < KINDS,
        ends_with(name, ext_bytes(k)),
    ensures
        spec_shader_type(name) == Some(ext_type(k)),
{
    if ends_with(name, ext_bytes(0)) {
        lemma_one_extension(name, k, 0);
    } else if ends_with(name, ext_bytes(1)) {
        lemma_one_extension(name, k, 1);
    } else if ends_with(name, ext_bytes(2)) {
        lemma_one_extension(name, k, 2);
    } else if ends_with(name, ext_bytes(3)) {
        lemma_one_extension(name, k, 3);
    } else if ends_with(name, ext_bytes(4)) {
        lemma_one_extension(name, k, 4);
    } else if ends_with(name, ext_bytes(5)) {
        lemma_one_extension(name, k, 5);
    }
}

} // verus!
