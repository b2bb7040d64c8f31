use vstd::prelude::*;

verus! {

/// What the library itself finds wrong: a bad address, a failure status, or a
/// count that is no integer. Transport and JSON decoding faults arise where
/// requests are sent and bodies decoded, outside this crate.
#[derive(Debug, Clone, Copy, PartialEq, Eq, Structural)]
pub enum ClientError {
    /// Host and port do not form a valid URL.
    Url,
    /// The server answered with a status outside 200..=299.
    HttpStatus(u16),
    /// The event-count body is not a base-10 integer.
    MalformedCount,
}

} // verus!
