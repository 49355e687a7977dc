//! The text of a source file.

use vstd::prelude::*;
use vstd::string::StringSliceAdditionalSpecFns;
use vstd::utf8::valid_utf8;
use core::str::Utf8Error;

verus! {

/// Why the text of a file could not be had.
#[derive(Debug, Clone, Copy, PartialEq, Eq, Hash, Structural)]
pub enum FileReadError {
    /// The file is not valid UTF-8.
    InvalidTextFormat,
    /// There is no such file.
    NotFound,
}

/// `core::str::Utf8Error`.  Opaque.
#[verifier::external_type_specification]
#[verifier::external_body]
pub struct ExUtf8Error(Utf8Error);

/// `core::str::from_utf8`: the bytes seen as a string where they are valid
/// UTF-8, and an error where they are not.
#[verifier::external_body]
fn from_utf8(bytes: &[u8]) -> (res: Result<&str, Utf8Error>)
    ensures
        res is Ok <==> valid_utf8(bytes@),
        res matches Ok(text) ==> text.spec_bytes() == bytes@,
{
    core::str::from_utf8(bytes)
}

/// The text of a file with the contents `contents`, or of no file where
/// there are none: the contents themselves, where they are valid UTF-8.
pub fn file_text<'a>(contents: Option<&'a [u8]>) -> (res: Result<&'a str, FileReadError>)
    ensures
        match contents {
            None => res == Err::<&str, FileReadError>(FileReadError::NotFound),
            Some(bytes) => if valid_utf8(bytes@) {
                res matches Ok(text) && text.spec_bytes() == bytes@
            } else {
                res == Err::<&str, FileReadError>(FileReadError::InvalidTextFormat)
            },
        },
{
    let contents = match contents {
        Some(contents) => contents,
        None => return Err(FileReadError::NotFound),
    };
    match from_utf8(contents) {
        Ok(text) => Ok(text),
        Err(_) => Err(FileReadError::InvalidTextFormat),
    }
}

} // verus!
