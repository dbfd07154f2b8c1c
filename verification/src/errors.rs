use vstd::prelude::*;
use vstd::string::StringExecFns;

verus! {

/// Why a conversion failed. Every failure is terminal for the current
/// document: no partial metadata or partial output ever escapes.
#[derive(Debug)]
pub enum ParseError {
    /// Fewer characters remained than the expected literal needs.
    UnexpectedEndOfInput { expected: String },
    /// The characters at the cursor did not equal the expected literal.
    DelimiterMismatch { expected: String, actual: String },
    /// A forward search for the delimiter reached the end of the buffer.
    DelimiterNotFound { delimiter: String },
    /// The metadata block did not decode to a well-formed record.
    MetadataDecodeError { message: String },
}

/// The mathematical model of a `ParseError`: its variant together with its
/// diagnostic payloads, as character sequences. The conversion contracts
/// describe failures at this level, so a failure bubbles up unchanged.
pub ghost enum ErrKind {
    UnexpectedEndOfInput { expected: Seq<char> },
    DelimiterMismatch { expected: Seq<char>, actual: Seq<char> },
    DelimiterNotFound { delimiter: Seq<char> },
    MetadataDecodeError { message: Seq<char> },
}

/// The model a `ParseError` denotes.
pub open spec fn kind_of(e: ParseError) -> ErrKind {
    match e {
        ParseError::UnexpectedEndOfInput { expected } => ErrKind::UnexpectedEndOfInput {
            expected: expected@,
        },
        ParseError::DelimiterMismatch { expected, actual } => ErrKind::DelimiterMismatch {
            expected: expected@,
            actual: actual@,
        },
        ParseError::DelimiterNotFound { delimiter } => ErrKind::DelimiterNotFound {
            delimiter: delimiter@,
        },
        ParseError::MetadataDecodeError { message } => ErrKind::MetadataDecodeError {
            message: message@,
        },
    }
}

pub type ParseResult<T> = Result<T, ParseError>;

impl ParseError {
    /// A human-readable rendering of the error, for reporting at the
    /// outermost caller.
    pub fn describe(&self) -> (r: String)
        ensures
            r@ == (match self {
                ParseError::UnexpectedEndOfInput { expected } => "unexpected end of input to read "@
                    + expected@,
                ParseError::DelimiterMismatch { expected, actual } => "expected "@ + expected@
                    + " but got "@ + actual@,
                ParseError::DelimiterNotFound { delimiter } => "expected "@ + delimiter@
                    + " but not found"@,
                ParseError::MetadataDecodeError { message } => "malformed metadata: "@ + message@,
            }),
    {
        let mut buf = String::new();
        match self {
            ParseError::UnexpectedEndOfInput { expected } => {
                buf.append("unexpected end of input to read ");
                buf.append(expected.as_str());
            },
            ParseError::DelimiterMismatch { expected, actual } => {
                buf.append("expected ");
                buf.append(expected.as_str());
                buf.append(" but got ");
                buf.append(actual.as_str());
            },
            ParseError::DelimiterNotFound { delimiter } => {
                buf.append("expected ");
                buf.append(delimiter.as_str());
                buf.append(" but not found");
            },
            ParseError::MetadataDecodeError { message } => {
                buf.append("malformed metadata: ");
                buf.append(message.as_str());
            },
        }
        buf
    }
}

} // verus!
