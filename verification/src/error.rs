//! The error type shared by every operation of the library.

use vstd::prelude::*;

verus! {

/// Failure of the operating system or of a stream, `std::io::Error`.
#[verifier::external_type_specification]
#[verifier::external_body]
pub struct ExIoError(std::io::Error);

/// Failure to decode bytes as UTF-8, `std::str::Utf8Error`.
#[verifier::external_type_specification]
#[verifier::external_body]
pub struct ExUtf8Error(std::str::Utf8Error);

/// Failure of the JSON codec, `serde_json::Error`.
#[verifier::external_type_specification]
#[verifier::external_body]
pub struct ExJsonError(serde_json::Error);

/// Failure of the archive reader, `zip::result::ZipError`.
#[verifier::external_type_specification]
#[verifier::external_body]
pub struct ExZipError(zip::result::ZipError);

/// Failure of the protobuf codec, `prost::DecodeError`.
#[verifier::external_type_specification]
#[verifier::external_body]
pub struct ExDecodeError(prost::DecodeError);

/// Failure to parse the text of a UUID, `uuid::Error`.
#[verifier::external_type_specification]
#[verifier::external_body]
pub struct ExUuidError(uuid::Error);

/// Everything that can go wrong while a container is read.
#[derive(Debug)]
pub enum NoteError {
    /// The archive is empty, or its first entry lies in no directory.
    InvalidContainerFormat,
    /// A read ended early or failed.
    Io(std::io::Error),
    /// An embedded JSON document was rejected; `json_string` is the text that
    /// was handed to the JSON codec.
    Json { error: serde_json::Error, json_string: String },
    /// The archive reader failed.
    Zip(zip::result::ZipError),
    /// A protobuf record was rejected.
    ProtobufDecode(prost::DecodeError),
    /// A text is not a UUID.
    UuidParse(uuid::Error),
    /// The bytes of a UUID are not UTF-8.
    UuidInvalidUtf8(std::str::Utf8Error),
    /// A number of milliseconds that is no UTC date and time.
    InvalidTimestamp(u64),
    /// A text that should have been a number of milliseconds.
    InvalidTimestampFormat(String),
    /// A points file holds no stroke of the requested id.
    StrokeNotFound,
}

/// What a [`NoteError`] says, as far as it can be said in plain values: the
/// variant, the rejected timestamp and the rejected text.
pub enum Failure {
    InvalidContainerFormat,
    Io,
    /// The text that was handed to the JSON codec.
    Json(Seq<char>),
    Zip,
    ProtobufDecode,
    UuidParse,
    UuidInvalidUtf8,
    /// The number that is no date and time.
    InvalidTimestamp(u64),
    /// The message of the error.
    InvalidTimestampFormat(Seq<char>),
    StrokeNotFound,
}

impl NoteError {
    /// What the error says.
    pub open spec fn failure(self) -> Failure {
        match self {
            NoteError::InvalidContainerFormat => Failure::InvalidContainerFormat,
            NoteError::Io(_) => Failure::Io,
            NoteError::Json { error, json_string } => Failure::Json(json_string@),
            NoteError::Zip(_) => Failure::Zip,
            NoteError::ProtobufDecode(_) => Failure::ProtobufDecode,
            NoteError::UuidParse(_) => Failure::UuidParse,
            NoteError::UuidInvalidUtf8(_) => Failure::UuidInvalidUtf8,
            NoteError::InvalidTimestamp(millis) => Failure::InvalidTimestamp(millis),
            NoteError::InvalidTimestampFormat(text) => Failure::InvalidTimestampFormat(text@),
            NoteError::StrokeNotFound => Failure::StrokeNotFound,
        }
    }
}

/// Whether a result of the library is the expected value, or an error that
/// says what is expected.
pub open spec fn agrees<T>(r: Result<T, NoteError>, expected: Result<T, Failure>) -> bool {
    match expected {
        Ok(v) => r == Ok::<T, NoteError>(v),
        Err(k) => r is Err && r->Err_0.failure() == k,
    }
}

/// Makes the `std::io::Error` of a read that met the end of its input early,
/// by `std::io::Error::from` on `ErrorKind::UnexpectedEof`.
#[verifier::external_body]
pub(crate) fn unexpected_end() -> std::io::Error {
    std::io::Error::from(std::io::ErrorKind::UnexpectedEof)
}

} // verus!
