use vstd::prelude::*;

verus! {

/// Errors reported by the library. `IO` covers failures of the output sink or
/// the terminal session, `Image` covers undecodable image data and invalid
/// conversion parameters, and `Other` covers everything else.
#[derive(Debug)]
pub enum Error {
    IO(String),
    Image(String),
    Other(String),
}

} // verus!
