//! Resources of the engine, read from bytes already loaded.

pub mod png;

use vstd::prelude::*;

verus! {

/// An error of the operating system's input and output.
#[verifier::external_type_specification]
#[verifier::external_body]
pub struct ExIoError(std::io::Error);

/// Why a resource could not be had.
#[derive(Debug)]
pub enum Error {
    FailedToGetPath,
    FileContainsNullByte,
    IO(std::io::Error),
}

/// Some byte of the content is zero.
pub open spec fn has_null_byte(content: Seq<u8>) -> bool {
    exists|i: int| 0 <= i < content.len() && content[i] == 0
}

/// Accepts the content of a resource as the bytes of a C string: refuses it
/// if a byte of it is zero.
pub fn check_cstring(content: &[u8]) -> (r: Result<(), Error>)
    ensures
        r is Ok <==> !has_null_byte(content@),
        r matches Err(e) ==> e is FileContainsNullByte,
{
    let mut i: usize = 0;
    while i < content.len()
        invariant
            i <= content@.len(),
            forall|k: int| 0 <= k < i ==> content@[k] != 0,
        decreases content@.len() - i,
    {
        if content[i] == 0 {
            return Err(Error::FileContainsNullByte);
        }
        i = i + 1;
    }
    Ok(())
}

} // verus!
