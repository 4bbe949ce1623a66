use vstd::prelude::*;

verus! {

/// The kinds of failure that the library reports.
#[derive(Clone, Copy, Debug, PartialEq, Eq, Structural)]
pub enum Error {
    /// A path could not be made canonical, or the working directory is unknown.
    PathResolution,
    /// A read of the file did not deliver the bytes that were asked for.
    Io,
    /// A subtitle's download address is not a valid URL.
    UrlParse,
    /// A video path without a parent directory or without a file stem.
    InvariantViolation,
}

/// The view of a string result.
pub open spec fn result_view(r: Result<String, Error>) -> Result<Seq<char>, Error> {
    match r {
        Ok(s) => Ok(s@),
        Err(e) => Err(e),
    }
}

} // verus!
