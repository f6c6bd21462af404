//! Identifiers: one nominal type for each kind of UUID, the mixed pen id and
//! the layer id.

use vstd::prelude::*;
use vstd::arithmetic::power::pow;
use vstd::string::StringSliceAdditionalSpecFns;
use vstd::utf8::{decode_utf8, valid_utf8};
use crate::error::{agrees, Failure, NoteError};
use crate::text::{decimal_u64, parse_u64};

verus! {

/// The 128-bit value that `uuid::Uuid::parse_str` reads from a text, where it
/// accepts the text.
pub uninterp spec fn uuid_text_value(text: Seq<char>) -> Option<u128>;

/// The lower-case hexadecimal digit of a value below sixteen.
pub open spec fn hex_digit(n: int) -> char
    recommends
        0 <= n < 16,
{
    if n < 10 {
        (48 + n) as u8 as char
    } else {
        (87 + n) as u8 as char
    }
}

/// The `i`-th of the 32 hexadecimal places of a 128-bit value, the most
/// significant place first.
pub open spec fn hex_place(value: u128, i: int) -> int
    recommends
        0 <= i < 32,
{
    (value as int / pow(16, (31 - i) as nat)) % 16
}

/// The simple form of a UUID: 32 lower-case hexadecimal digits.
pub open spec fn simple_text(value: u128) -> Seq<char> {
    Seq::new(32, |i: int| hex_digit(hex_place(value, i)))
}

/// The hyphenated form of a UUID: the digits of the simple form in groups of
/// 8, 4, 4, 4 and 12, with a `-` between the groups.
pub open spec fn hyphenated_text(value: u128) -> Seq<char> {
    let digits = simple_text(value);
    digits.subrange(0, 8) + seq!['-'] + digits.subrange(8, 12) + seq!['-'] + digits.subrange(
        12,
        16,
    ) + seq!['-'] + digits.subrange(16, 20) + seq!['-'] + digits.subrange(20, 32)
}

/// Calls `uuid::Uuid::parse_str` and hands back the parsed value as a number.
/// The contract gives the outcome the name [`uuid_text_value`]: the call
/// succeeds exactly where that name holds a value, and returns that value.
#[verifier::external_body]
pub(crate) fn parse_uuid_text(s: &str) -> (r: Result<u128, uuid::Error>)
    ensures
        r is Ok <==> uuid_text_value(s@) is Some,
        r matches Ok(v) ==> uuid_text_value(s@) == Some(v),
{
    uuid::Uuid::parse_str(s).map(|id| id.as_u128())
}

/// Formats a value with `uuid::Uuid::simple`. The contract claims that the
/// text is the 32 lower-case hexadecimal digits of the value, and that
/// `uuid::Uuid::parse_str` reads the value back from it.
#[verifier::external_body]
pub(crate) fn format_uuid_simple(value: u128) -> (r: String)
    ensures
        r@ == simple_text(value),
        uuid_text_value(r@) == Some(value),
{
    uuid::Uuid::from_u128(value).simple().to_string()
}

/// Formats a value with `uuid::Uuid::hyphenated`. The contract claims that the
/// text is the hyphenated form of the value, and that `uuid::Uuid::parse_str`
/// reads the value back from it.
#[verifier::external_body]
pub(crate) fn format_uuid_hyphenated(value: u128) -> (r: String)
    ensures
        r@ == hyphenated_text(value),
        uuid_text_value(r@) == Some(value),
{
    uuid::Uuid::from_u128(value).hyphenated().to_string()
}

/// Calls `std::str::from_utf8`. The contract claims that the call succeeds
/// exactly on well-formed UTF-8 and then returns the decoded characters.
#[verifier::external_body]
pub(crate) fn text_from_utf8(bytes: &[u8]) -> (r: Result<&str, std::str::Utf8Error>)
    ensures
        r is Ok <==> valid_utf8(bytes@),
        r matches Ok(s) ==> s@ == decode_utf8(bytes@),
{
    std::str::from_utf8(bytes)
}

/// What the text of a UUID stands for.
pub open spec fn uuid_of_text(text: Seq<char>) -> Result<u128, Failure> {
    match uuid_text_value(text) {
        Some(v) => Ok(v),
        None => Err(Failure::UuidParse),
    }
}

/// What parsing a text as a UUID gives: the value, or the reason why the text
/// is no UUID.
pub fn parse_uuid(s: &str) -> (r: Result<u128, NoteError>)
    ensures
        agrees(r, uuid_of_text(s@)),
        uuid_text_value(s@) is None ==> r matches Err(NoteError::UuidParse(_)),
{
    match parse_uuid_text(s) {
        Ok(value) => Ok(value),
        Err(e) => Err(NoteError::UuidParse(e)),
    }
}

/// What parsing bytes as a UUID gives: bytes that are not UTF-8 are rejected
/// first, then the text is parsed as by [`parse_uuid`].
pub fn parse_uuid_bytes(s: &[u8]) -> (r: Result<u128, NoteError>)
    ensures
        !valid_utf8(s@) ==> r matches Err(NoteError::UuidInvalidUtf8(_)),
        valid_utf8(s@) && uuid_text_value(decode_utf8(s@)) is Some ==> r == Ok::<u128, NoteError>(
            uuid_text_value(decode_utf8(s@)).unwrap(),
        ),
        valid_utf8(s@) && uuid_text_value(decode_utf8(s@)) is None ==> r matches Err(
            NoteError::UuidParse(_),
        ),
{
    match text_from_utf8(s) {
        Ok(text) => parse_uuid(text),
        Err(e) => Err(NoteError::UuidInvalidUtf8(e)),
    }
}

/// An identifier that is a UUID: it stands for a 128-bit value.
pub trait UuidKey: Copy {
    /// The 128-bit value of the identifier.
    spec fn value(&self) -> u128;

    /// The 128-bit value of the identifier.
    fn as_u128(&self) -> (v: u128)
        ensures
            v == self.value(),
    ;

    /// The identifier with the given 128-bit value.
    fn from_value(value: u128) -> (r: Self)
        ensures
            r.value() == value,
    ;
}

/// Identifier of a note.
#[derive(Clone, Copy, Debug, PartialEq, Eq, Hash, Structural)]
pub struct NoteUuid(pub u128);

impl NoteUuid {
    /// The identifier with the given 128-bit value.
    pub fn new(id: u128) -> (r: Self)
        ensures
            r.0 == id,
    {
        Self(id)
    }

    /// Parses any of the textual forms of a UUID.
    pub fn from_str(s: &str) -> (r: Result<Self, NoteError>)
        ensures
            uuid_text_value(s@) is Some ==> r == Ok::<Self, NoteError>(
                Self(uuid_text_value(s@).unwrap()),
            ),
            uuid_text_value(s@) is None ==> r matches Err(NoteError::UuidParse(_)),
    {
        match parse_uuid(s) {
            Ok(value) => Ok(Self(value)),
            Err(e) => Err(e),
        }
    }

    /// Parses the bytes of a text; bytes that are not UTF-8 are rejected
    /// before the text is looked at.
    pub fn from_byte_str(s: &[u8]) -> (r: Result<Self, NoteError>)
        ensures
            !valid_utf8(s@) ==> r matches Err(NoteError::UuidInvalidUtf8(_)),
            valid_utf8(s@) && uuid_text_value(decode_utf8(s@)) is Some ==> r == Ok::<
                Self,
                NoteError,
            >(Self(uuid_text_value(decode_utf8(s@)).unwrap())),
            valid_utf8(s@) && uuid_text_value(decode_utf8(s@)) is None ==> r matches Err(
                NoteError::UuidParse(_),
            ),
    {
        match parse_uuid_bytes(s) {
            Ok(value) => Ok(Self(value)),
            Err(e) => Err(e),
        }
    }

    /// The 32 hexadecimal digits of the identifier, as used in entry names.
    pub fn to_simple_string(&self) -> (r: String)
        ensures
            r@ == simple_text(self.0),
            uuid_text_value(r@) == Some(self.0),
    {
        format_uuid_simple(self.0)
    }

    /// The hyphenated form of the identifier.
    pub fn to_hyphenated_string(&self) -> (r: String)
        ensures
            r@ == hyphenated_text(self.0),
            uuid_text_value(r@) == Some(self.0),
    {
        format_uuid_hyphenated(self.0)
    }
}

impl UuidKey for NoteUuid {
    open spec fn value(&self) -> u128 {
        self.0
    }

    fn as_u128(&self) -> (v: u128) {
        self.0
    }

    fn from_value(value: u128) -> (r: Self) {
        Self(value)
    }
}

/// Identifier of a virtual page record.
#[derive(Clone, Copy, Debug, PartialEq, Eq, Hash, Structural)]
pub struct VirtualPageUuid(pub u128);

impl VirtualPageUuid {
    /// The identifier with the given 128-bit value.
    pub fn new(id: u128) -> (r: Self)
        ensures
            r.0 == id,
    {
        Self(id)
    }

    /// Parses any of the textual forms of a UUID.
    pub fn from_str(s: &str) -> (r: Result<Self, NoteError>)
        ensures
            uuid_text_value(s@) is Some ==> r == Ok::<Self, NoteError>(
                Self(uuid_text_value(s@).unwrap()),
            ),
            uuid_text_value(s@) is None ==> r matches Err(NoteError::UuidParse(_)),
    {
        match parse_uuid(s) {
            Ok(value) => Ok(Self(value)),
            Err(e) => Err(e),
        }
    }

    /// Parses the bytes of a text; bytes that are not UTF-8 are rejected
    /// before the text is looked at.
    pub fn from_byte_str(s: &[u8]) -> (r: Result<Self, NoteError>)
        ensures
            !valid_utf8(s@) ==> r matches Err(NoteError::UuidInvalidUtf8(_)),
            valid_utf8(s@) && uuid_text_value(decode_utf8(s@)) is Some ==> r == Ok::<
                Self,
                NoteError,
            >(Self(uuid_text_value(decode_utf8(s@)).unwrap())),
            valid_utf8(s@) && uuid_text_value(decode_utf8(s@)) is None ==> r matches Err(
                NoteError::UuidParse(_),
            ),
    {
        match parse_uuid_bytes(s) {
            Ok(value) => Ok(Self(value)),
            Err(e) => Err(e),
        }
    }

    /// The 32 hexadecimal digits of the identifier, as used in entry names.
    pub fn to_simple_string(&self) -> (r: String)
        ensures
            r@ == simple_text(self.0),
            uuid_text_value(r@) == Some(self.0),
    {
        format_uuid_simple(self.0)
    }

    /// The hyphenated form of the identifier.
    pub fn to_hyphenated_string(&self) -> (r: String)
        ensures
            r@ == hyphenated_text(self.0),
            uuid_text_value(r@) == Some(self.0),
    {
        format_uuid_hyphenated(self.0)
    }
}

impl UuidKey for VirtualPageUuid {
    open spec fn value(&self) -> u128 {
        self.0
    }

    fn as_u128(&self) -> (v: u128) {
        self.0
    }

    fn from_value(value: u128) -> (r: Self) {
        Self(value)
    }
}

/// Identifier of a virtual document.
#[derive(Clone, Copy, Debug, PartialEq, Eq, Hash, Structural)]
pub struct VirtualDocUuid(pub u128);

impl VirtualDocUuid {
    /// The identifier with the given 128-bit value.
    pub fn new(id: u128) -> (r: Self)
        ensures
            r.0 == id,
    {
        Self(id)
    }

    /// Parses any of the textual forms of a UUID.
    pub fn from_str(s: &str) -> (r: Result<Self, NoteError>)
        ensures
            uuid_text_value(s@) is Some ==> r == Ok::<Self, NoteError>(
                Self(uuid_text_value(s@).unwrap()),
            ),
            uuid_text_value(s@) is None ==> r matches Err(NoteError::UuidParse(_)),
    {
        match parse_uuid(s) {
            Ok(value) => Ok(Self(value)),
            Err(e) => Err(e),
        }
    }

    /// Parses the bytes of a text; bytes that are not UTF-8 are rejected
    /// before the text is looked at.
    pub fn from_byte_str(s: &[u8]) -> (r: Result<Self, NoteError>)
        ensures
            !valid_utf8(s@) ==> r matches Err(NoteError::UuidInvalidUtf8(_)),
            valid_utf8(s@) && uuid_text_value(decode_utf8(s@)) is Some ==> r == Ok::<
                Self,
                NoteError,
            >(Self(uuid_text_value(decode_utf8(s@)).unwrap())),
            valid_utf8(s@) && uuid_text_value(decode_utf8(s@)) is None ==> r matches Err(
                NoteError::UuidParse(_),
            ),
    {
        match parse_uuid_bytes(s) {
            Ok(value) => Ok(Self(value)),
            Err(e) => Err(e),
        }
    }

    /// The 32 hexadecimal digits of the identifier, as used in entry names.
    pub fn to_simple_string(&self) -> (r: String)
        ensures
            r@ == simple_text(self.0),
            uuid_text_value(r@) == Some(self.0),
    {
        format_uuid_simple(self.0)
    }

    /// The hyphenated form of the identifier.
    pub fn to_hyphenated_string(&self) -> (r: String)
        ensures
            r@ == hyphenated_text(self.0),
            uuid_text_value(r@) == Some(self.0),
    {
        format_uuid_hyphenated(self.0)
    }
}

impl UuidKey for VirtualDocUuid {
    open spec fn value(&self) -> u128 {
        self.0
    }

    fn as_u128(&self) -> (v: u128) {
        self.0
    }

    fn from_value(value: u128) -> (r: Self) {
        Self(value)
    }
}

/// Identifier of a stroke.
#[derive(Clone, Copy, Debug, PartialEq, Eq, Hash, Structural)]
pub struct StrokeUuid(pub u128);

impl StrokeUuid {
    /// The identifier with the given 128-bit value.
    pub fn new(id: u128) -> (r: Self)
        ensures
            r.0 == id,
    {
        Self(id)
    }

    /// Parses any of the textual forms of a UUID.
    pub fn from_str(s: &str) -> (r: Result<Self, NoteError>)
        ensures
            uuid_text_value(s@) is Some ==> r == Ok::<Self, NoteError>(
                Self(uuid_text_value(s@).unwrap()),
            ),
            uuid_text_value(s@) is None ==> r matches Err(NoteError::UuidParse(_)),
    {
        match parse_uuid(s) {
            Ok(value) => Ok(Self(value)),
            Err(e) => Err(e),
        }
    }

    /// Parses the bytes of a text; bytes that are not UTF-8 are rejected
    /// before the text is looked at.
    pub fn from_byte_str(s: &[u8]) -> (r: Result<Self, NoteError>)
        ensures
            !valid_utf8(s@) ==> r matches Err(NoteError::UuidInvalidUtf8(_)),
            valid_utf8(s@) && uuid_text_value(decode_utf8(s@)) is Some ==> r == Ok::<
                Self,
                NoteError,
            >(Self(uuid_text_value(decode_utf8(s@)).unwrap())),
            valid_utf8(s@) && uuid_text_value(decode_utf8(s@)) is None ==> r matches Err(
                NoteError::UuidParse(_),
            ),
    {
        match parse_uuid_bytes(s) {
            Ok(value) => Ok(Self(value)),
            Err(e) => Err(e),
        }
    }

    /// The 32 hexadecimal digits of the identifier, as used in entry names.
    pub fn to_simple_string(&self) -> (r: String)
        ensures
            r@ == simple_text(self.0),
            uuid_text_value(r@) == Some(self.0),
    {
        format_uuid_simple(self.0)
    }

    /// The hyphenated form of the identifier.
    pub fn to_hyphenated_string(&self) -> (r: String)
        ensures
            r@ == hyphenated_text(self.0),
            uuid_text_value(r@) == Some(self.0),
    {
        format_uuid_hyphenated(self.0)
    }
}

impl UuidKey for StrokeUuid {
    open spec fn value(&self) -> u128 {
        self.0
    }

    fn as_u128(&self) -> (v: u128) {
        self.0
    }

    fn from_value(value: u128) -> (r: Self) {
        Self(value)
    }
}

/// Identifier of a page.
#[derive(Clone, Copy, Debug, PartialEq, Eq, Hash, Structural)]
pub struct PageUuid(pub u128);

impl PageUuid {
    /// The identifier with the given 128-bit value.
    pub fn new(id: u128) -> (r: Self)
        ensures
            r.0 == id,
    {
        Self(id)
    }

    /// Parses any of the textual forms of a UUID.
    pub fn from_str(s: &str) -> (r: Result<Self, NoteError>)
        ensures
            uuid_text_value(s@) is Some ==> r == Ok::<Self, NoteError>(
                Self(uuid_text_value(s@).unwrap()),
            ),
            uuid_text_value(s@) is None ==> r matches Err(NoteError::UuidParse(_)),
    {
        match parse_uuid(s) {
            Ok(value) => Ok(Self(value)),
            Err(e) => Err(e),
        }
    }

    /// Parses the bytes of a text; bytes that are not UTF-8 are rejected
    /// before the text is looked at.
    pub fn from_byte_str(s: &[u8]) -> (r: Result<Self, NoteError>)
        ensures
            !valid_utf8(s@) ==> r matches Err(NoteError::UuidInvalidUtf8(_)),
            valid_utf8(s@) && uuid_text_value(decode_utf8(s@)) is Some ==> r == Ok::<
                Self,
                NoteError,
            >(Self(uuid_text_value(decode_utf8(s@)).unwrap())),
            valid_utf8(s@) && uuid_text_value(decode_utf8(s@)) is None ==> r matches Err(
                NoteError::UuidParse(_),
            ),
    {
        match parse_uuid_bytes(s) {
            Ok(value) => Ok(Self(value)),
            Err(e) => Err(e),
        }
    }

    /// The 32 hexadecimal digits of the identifier, as used in entry names.
    pub fn to_simple_string(&self) -> (r: String)
        ensures
            r@ == simple_text(self.0),
            uuid_text_value(r@) == Some(self.0),
    {
        format_uuid_simple(self.0)
    }

    /// The hyphenated form of the identifier.
    pub fn to_hyphenated_string(&self) -> (r: String)
        ensures
            r@ == hyphenated_text(self.0),
            uuid_text_value(r@) == Some(self.0),
    {
        format_uuid_hyphenated(self.0)
    }
}

impl UuidKey for PageUuid {
    open spec fn value(&self) -> u128 {
        self.0
    }

    fn as_u128(&self) -> (v: u128) {
        self.0
    }

    fn from_value(value: u128) -> (r: Self) {
        Self(value)
    }
}

/// Identifier of a page-model record.
#[derive(Clone, Copy, Debug, PartialEq, Eq, Hash, Structural)]
pub struct PageModelUuid(pub u128);

impl PageModelUuid {
    /// The identifier with the given 128-bit value.
    pub fn new(id: u128) -> (r: Self)
        ensures
            r.0 == id,
    {
        Self(id)
    }

    /// Parses any of the textual forms of a UUID.
    pub fn from_str(s: &str) -> (r: Result<Self, NoteError>)
        ensures
            uuid_text_value(s@) is Some ==> r == Ok::<Self, NoteError>(
                Self(uuid_text_value(s@).unwrap()),
            ),
            uuid_text_value(s@) is None ==> r matches Err(NoteError::UuidParse(_)),
    {
        match parse_uuid(s) {
            Ok(value) => Ok(Self(value)),
            Err(e) => Err(e),
        }
    }

    /// Parses the bytes of a text; bytes that are not UTF-8 are rejected
    /// before the text is looked at.
    pub fn from_byte_str(s: &[u8]) -> (r: Result<Self, NoteError>)
        ensures
            !valid_utf8(s@) ==> r matches Err(NoteError::UuidInvalidUtf8(_)),
            valid_utf8(s@) && uuid_text_value(decode_utf8(s@)) is Some ==> r == Ok::<
                Self,
                NoteError,
            >(Self(uuid_text_value(decode_utf8(s@)).unwrap())),
            valid_utf8(s@) && uuid_text_value(decode_utf8(s@)) is None ==> r matches Err(
                NoteError::UuidParse(_),
            ),
    {
        match parse_uuid_bytes(s) {
            Ok(value) => Ok(Self(value)),
            Err(e) => Err(e),
        }
    }

    /// The 32 hexadecimal digits of the identifier, as used in entry names.
    pub fn to_simple_string(&self) -> (r: String)
        ensures
            r@ == simple_text(self.0),
            uuid_text_value(r@) == Some(self.0),
    {
        format_uuid_simple(self.0)
    }

    /// The hyphenated form of the identifier.
    pub fn to_hyphenated_string(&self) -> (r: String)
        ensures
            r@ == hyphenated_text(self.0),
            uuid_text_value(r@) == Some(self.0),
    {
        format_uuid_hyphenated(self.0)
    }
}

impl UuidKey for PageModelUuid {
    open spec fn value(&self) -> u128 {
        self.0
    }

    fn as_u128(&self) -> (v: u128) {
        self.0
    }

    fn from_value(value: u128) -> (r: Self) {
        Self(value)
    }
}

/// Identifier of a pen.
#[derive(Clone, Copy, Debug, PartialEq, Eq, Hash, Structural)]
pub struct PenUuid(pub u128);

impl PenUuid {
    /// The identifier with the given 128-bit value.
    pub fn new(id: u128) -> (r: Self)
        ensures
            r.0 == id,
    {
        Self(id)
    }

    /// Parses any of the textual forms of a UUID.
    pub fn from_str(s: &str) -> (r: Result<Self, NoteError>)
        ensures
            uuid_text_value(s@) is Some ==> r == Ok::<Self, NoteError>(
                Self(uuid_text_value(s@).unwrap()),
            ),
            uuid_text_value(s@) is None ==> r matches Err(NoteError::UuidParse(_)),
    {
        match parse_uuid(s) {
            Ok(value) => Ok(Self(value)),
            Err(e) => Err(e),
        }
    }

    /// Parses the bytes of a text; bytes that are not UTF-8 are rejected
    /// before the text is looked at.
    pub fn from_byte_str(s: &[u8]) -> (r: Result<Self, NoteError>)
        ensures
            !valid_utf8(s@) ==> r matches Err(NoteError::UuidInvalidUtf8(_)),
            valid_utf8(s@) && uuid_text_value(decode_utf8(s@)) is Some ==> r == Ok::<
                Self,
                NoteError,
            >(Self(uuid_text_value(decode_utf8(s@)).unwrap())),
            valid_utf8(s@) && uuid_text_value(decode_utf8(s@)) is None ==> r matches Err(
                NoteError::UuidParse(_),
            ),
    {
        match parse_uuid_bytes(s) {
            Ok(value) => Ok(Self(value)),
            Err(e) => Err(e),
        }
    }

    /// The 32 hexadecimal digits of the identifier, as used in entry names.
    pub fn to_simple_string(&self) -> (r: String)
        ensures
            r@ == simple_text(self.0),
            uuid_text_value(r@) == Some(self.0),
    {
        format_uuid_simple(self.0)
    }

    /// The hyphenated form of the identifier.
    pub fn to_hyphenated_string(&self) -> (r: String)
        ensures
            r@ == hyphenated_text(self.0),
            uuid_text_value(r@) == Some(self.0),
    {
        format_uuid_hyphenated(self.0)
    }
}

impl UuidKey for PenUuid {
    open spec fn value(&self) -> u128 {
        self.0
    }

    fn as_u128(&self) -> (v: u128) {
        self.0
    }

    fn from_value(value: u128) -> (r: Self) {
        Self(value)
    }
}

/// Identifier of a group of shapes.
#[derive(Clone, Copy, Debug, PartialEq, Eq, Hash, Structural)]
pub struct ShapeGroupUuid(pub u128);

impl ShapeGroupUuid {
    /// The identifier with the given 128-bit value.
    pub fn new(id: u128) -> (r: Self)
        ensures
            r.0 == id,
    {
        Self(id)
    }

    /// Parses any of the textual forms of a UUID.
    pub fn from_str(s: &str) -> (r: Result<Self, NoteError>)
        ensures
            uuid_text_value(s@) is Some ==> r == Ok::<Self, NoteError>(
                Self(uuid_text_value(s@).unwrap()),
            ),
            uuid_text_value(s@) is None ==> r matches Err(NoteError::UuidParse(_)),
    {
        match parse_uuid(s) {
            Ok(value) => Ok(Self(value)),
            Err(e) => Err(e),
        }
    }

    /// Parses the bytes of a text; bytes that are not UTF-8 are rejected
    /// before the text is looked at.
    pub fn from_byte_str(s: &[u8]) -> (r: Result<Self, NoteError>)
        ensures
            !valid_utf8(s@) ==> r matches Err(NoteError::UuidInvalidUtf8(_)),
            valid_utf8(s@) && uuid_text_value(decode_utf8(s@)) is Some ==> r == Ok::<
                Self,
                NoteError,
            >(Self(uuid_text_value(decode_utf8(s@)).unwrap())),
            valid_utf8(s@) && uuid_text_value(decode_utf8(s@)) is None ==> r matches Err(
                NoteError::UuidParse(_),
            ),
    {
        match parse_uuid_bytes(s) {
            Ok(value) => Ok(Self(value)),
            Err(e) => Err(e),
        }
    }

    /// The 32 hexadecimal digits of the identifier, as used in entry names.
    pub fn to_simple_string(&self) -> (r: String)
        ensures
            r@ == simple_text(self.0),
            uuid_text_value(r@) == Some(self.0),
    {
        format_uuid_simple(self.0)
    }

    /// The hyphenated form of the identifier.
    pub fn to_hyphenated_string(&self) -> (r: String)
        ensures
            r@ == hyphenated_text(self.0),
            uuid_text_value(r@) == Some(self.0),
    {
        format_uuid_hyphenated(self.0)
    }
}

impl UuidKey for ShapeGroupUuid {
    open spec fn value(&self) -> u128 {
        self.0
    }

    fn as_u128(&self) -> (v: u128) {
        self.0
    }

    fn from_value(value: u128) -> (r: Self) {
        Self(value)
    }
}

/// Identifier of a points file.
#[derive(Clone, Copy, Debug, PartialEq, Eq, Hash, Structural)]
pub struct PointsUuid(pub u128);

impl PointsUuid {
    /// The identifier with the given 128-bit value.
    pub fn new(id: u128) -> (r: Self)
        ensures
            r.0 == id,
    {
        Self(id)
    }

    /// Parses any of the textual forms of a UUID.
    pub fn from_str(s: &str) -> (r: Result<Self, NoteError>)
        ensures
            uuid_text_value(s@) is Some ==> r == Ok::<Self, NoteError>(
                Self(uuid_text_value(s@).unwrap()),
            ),
            uuid_text_value(s@) is None ==> r matches Err(NoteError::UuidParse(_)),
    {
        match parse_uuid(s) {
            Ok(value) => Ok(Self(value)),
            Err(e) => Err(e),
        }
    }

    /// Parses the bytes of a text; bytes that are not UTF-8 are rejected
    /// before the text is looked at.
    pub fn from_byte_str(s: &[u8]) -> (r: Result<Self, NoteError>)
        ensures
            !valid_utf8(s@) ==> r matches Err(NoteError::UuidInvalidUtf8(_)),
            valid_utf8(s@) && uuid_text_value(decode_utf8(s@)) is Some ==> r == Ok::<
                Self,
                NoteError,
            >(Self(uuid_text_value(decode_utf8(s@)).unwrap())),
            valid_utf8(s@) && uuid_text_value(decode_utf8(s@)) is None ==> r matches Err(
                NoteError::UuidParse(_),
            ),
    {
        match parse_uuid_bytes(s) {
            Ok(value) => Ok(Self(value)),
            Err(e) => Err(e),
        }
    }

    /// The 32 hexadecimal digits of the identifier, as used in entry names.
    pub fn to_simple_string(&self) -> (r: String)
        ensures
            r@ == simple_text(self.0),
            uuid_text_value(r@) == Some(self.0),
    {
        format_uuid_simple(self.0)
    }

    /// The hyphenated form of the identifier.
    pub fn to_hyphenated_string(&self) -> (r: String)
        ensures
            r@ == hyphenated_text(self.0),
            uuid_text_value(r@) == Some(self.0),
    {
        format_uuid_hyphenated(self.0)
    }
}

impl UuidKey for PointsUuid {
    open spec fn value(&self) -> u128 {
        self.0
    }

    fn as_u128(&self) -> (v: u128) {
        self.0
    }

    fn from_value(value: u128) -> (r: Self) {
        Self(value)
    }
}

/// Identifier of a pen: a UUID, or a small number for the built-in pens.
#[derive(Clone, Copy, Debug, PartialEq, Eq, Structural)]
pub enum PenId {
    Uuid(PenUuid),
    Id(u32),
}

impl PenId {
    /// The pen named by a UUID.
    pub fn from_uuid(uuid: PenUuid) -> (r: Self)
        ensures
            r == PenId::Uuid(uuid),
    {
        Self::Uuid(uuid)
    }

    /// The pen named by a small number.
    pub fn from_id(id: u32) -> (r: Self)
        ensures
            r == PenId::Id(id),
    {
        Self::Id(id)
    }

    /// The pen that a text names: a text of 32 bytes is read as a UUID, any
    /// other as a decimal number of 32 bits.
    pub fn from_text(text: &str) -> (r: Option<Self>)
        ensures
            r == pen_of_text(text@, text.spec_bytes().len()),
    {
        if text.as_bytes().len() == 32 {
            match PenUuid::from_str(text) {
                Ok(uuid) => Some(Self::Uuid(uuid)),
                Err(_) => None,
            }
        } else {
            match parse_u64(text) {
                Ok(v) => if v <= 0xffff_ffff {
                    Some(Self::Id(v as u32))
                } else {
                    None
                },
                Err(_) => None,
            }
        }
    }
}

/// The pen that a text of the given length in bytes names, if it names one.
pub open spec fn pen_of_text(text: Seq<char>, bytes: nat) -> Option<PenId> {
    if bytes == 32 {
        match uuid_text_value(text) {
            Some(v) => Some(PenId::Uuid(PenUuid(v))),
            None => None,
        }
    } else {
        match decimal_u64(text) {
            Some(v) => if v <= 0xffff_ffff {
                Some(PenId::Id(v as u32))
            } else {
                None
            },
            None => None,
        }
    }
}

/// Identifier of a layer of a page.
#[derive(Clone, Copy, Debug, PartialEq, Eq, Structural)]
pub struct LayerId(pub u32);

impl LayerId {
    /// The layer with the given number.
    pub fn new(id: u32) -> (r: Self)
        ensures
            r.0 == id,
    {
        Self(id)
    }
}

} // verus!
