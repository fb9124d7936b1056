//! Errors of the conversion.
use vstd::prelude::*;

verus! {

/// An error of the conversion; `ZipError` carries a message.
#[derive(Debug)]
pub enum FigError {
    ZipError(String),
}

/// The message an error carries.
pub open spec fn error_message(e: FigError) -> Seq<char> {
    match e {
        FigError::ZipError(m) => m@,
    }
}

} // verus!
