use vstd::prelude::*;

verus! {

/// Classification of an operating-system I/O failure. The caller that
/// performs the filesystem access translates the error it observed into
/// one of these kinds; the response mapping only distinguishes this far.
#[derive(Debug, Clone, Copy, PartialEq, Eq, Structural)]
pub enum IoErrorKind {
    NotFound,
    PermissionDenied,
    IsADirectory,
    Other,
}

/// Everything that can go wrong between receiving a raw request and
/// resolving the resource it names.
#[derive(Debug)]
#[non_exhaustive]
pub enum Error {
    Io(IoErrorKind),
    EmptyStream,
    Syntax(String),
    UnknownMethod,
    InvalidHttpVersion,
}

/// Mathematical image of `Error`: the syntax description becomes a
/// character sequence.
pub enum ErrorV {
    Io(IoErrorKind),
    EmptyStream,
    Syntax(Seq<char>),
    UnknownMethod,
    InvalidHttpVersion,
}

impl View for Error {
    type V = ErrorV;

    open spec fn view(&self) -> ErrorV {
        match self {
            Error::Io(kind) => ErrorV::Io(*kind),
            Error::EmptyStream => ErrorV::EmptyStream,
            Error::Syntax(description) => ErrorV::Syntax(description@),
            Error::UnknownMethod => ErrorV::UnknownMethod,
            Error::InvalidHttpVersion => ErrorV::InvalidHttpVersion,
        }
    }
}

/// The fixed wording each failure is reported with.
pub open spec fn describe_spec(e: ErrorV) -> Seq<char> {
    match e {
        ErrorV::Io(_) => "I/O Error"@,
        ErrorV::EmptyStream => "Client sent no data"@,
        ErrorV::Syntax(d) => "Malformed request: "@ + d,
        ErrorV::UnknownMethod => "Unknown/unsupported/malformed HTTP method"@,
        ErrorV::InvalidHttpVersion => "Invalid HTTP protocol version"@,
    }
}

impl Error {
    /// A syntax error carrying the given description.
    pub fn syntax(description: &str) -> (r: Self)
        ensures
            r@ == ErrorV::Syntax(description@),
    {
        Error::Syntax(description.to_owned())
    }

    /// The failure in words, for a log line.
    pub fn describe(&self) -> (r: String)
        ensures
            r@ == describe_spec(self@),
    {
        match self {
            Error::Io(_) => "I/O Error".to_owned(),
            Error::EmptyStream => "Client sent no data".to_owned(),
            Error::Syntax(d) => {
                let mut out = "Malformed request: ".to_owned();
                out.append(d.as_str());
                out
            },
            Error::UnknownMethod => "Unknown/unsupported/malformed HTTP method".to_owned(),
            Error::InvalidHttpVersion => "Invalid HTTP protocol version".to_owned(),
        }
    }
}

} // verus!
