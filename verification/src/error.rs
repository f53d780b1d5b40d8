use vstd::prelude::*;

verus! {

/// How an operation of this library can fail.
///
/// `Transport` marks an I/O failure on the byte stream, `ProtocolMismatch` a
/// response line that did not carry the expected success token, `Config` a
/// configuration command the radio rejected, `Framing` a byte record too short
/// for its declared layout, and `PayloadParse` malformed payload bytes of a
/// message variant.  `Other` covers errors built from a bare message.
#[derive(Clone, Copy, PartialEq, Eq, Structural, Debug)]
pub enum ErrorKind {
    Transport,
    ProtocolMismatch,
    Config,
    Framing,
    PayloadParse,
    Other,
}

/// An error surfaced by the radio link: a kind together with a short
/// human-readable message.
#[derive(Debug)]
pub struct RadioError {
    pub kind: ErrorKind,
    pub message: String,
}

impl RadioError {
    /// Build an error of the given kind.
    pub fn new(kind: ErrorKind, msg: &str) -> (e: RadioError)
        ensures
            e.kind == kind,
            e.message@ == msg@,
    {
        RadioError { kind, message: msg.to_owned() }
    }

    /// The kind of this error.
    pub fn kind(&self) -> (k: ErrorKind)
        ensures
            k == self.kind,
    {
        self.kind
    }
}

/// Build an error from a bare message, as the command helpers do when a
/// response line defeats their expectation.
pub fn mkerror(msg: &str) -> (e: RadioError)
    ensures
        e.kind == ErrorKind::Other,
        e.message@ == msg@,
{
    RadioError::new(ErrorKind::Other, msg)
}

} // verus!
