//! Universally unique identifiers and their canonical text.

use vstd::prelude::*;
use vstd::string::StringExecFns;
use crate::errors::TolstoyError;

verus! {

/// A 128-bit universally unique identifier. Transactions, chunks and log
/// namespaces are all named by one.
#[derive(Clone, Copy, Debug, PartialEq, Eq, Structural, Hash)]
pub struct Uuid {
    pub value: u128,
}

/// The error of the `uuid` crate, carried as it is.
#[verifier::external_type_specification]
#[verifier::external_body]
pub struct ExUuidError(uuid::Error);

/// What `uuid::Uuid::parse_str` makes of a text: the identifier's value, or
/// nothing where it rejects the text.
pub uninterp spec fn uuid_parsed(text: Seq<char>) -> Option<u128>;

/// The sixteen lower-case hexadecimal digits, in order.
pub open spec fn hex_digits() -> Seq<char> {
    seq!['0', '1', '2', '3', '4', '5', '6', '7', '8', '9', 'a', 'b', 'c', 'd', 'e', 'f']
}

/// Sixteen to the power `n`.
pub open spec fn pow16(n: nat) -> nat
    decreases n,
{
    if n == 0 {
        1
    } else {
        16 * pow16((n - 1) as nat)
    }
}

/// The hexadecimal digit of `value` at position `k`, counted from the most
/// significant of its thirty-two digits.
pub open spec fn hex_digit_at(value: u128, k: int) -> char {
    hex_digits()[((value as nat) / pow16((31 - k) as nat)) as int % 16]
}

/// How many hyphens stand before position `i` of a canonical text.
pub open spec fn hyphens_before(i: int) -> int {
    if i < 8 {
        0
    } else if i < 13 {
        1
    } else if i < 18 {
        2
    } else if i < 23 {
        3
    } else {
        4
    }
}

/// The canonical text of an identifier: thirty-two lower-case hexadecimal
/// digits in groups of 8, 4, 4, 4 and 12, separated by hyphens.
pub open spec fn canonical_text(value: u128) -> Seq<char> {
    Seq::new(
        36,
        |i: int|
            if i == 8 || i == 13 || i == 18 || i == 23 {
                '-'
            } else {
                hex_digit_at(value, i - hyphens_before(i))
            },
    )
}

/// Calls `uuid::Uuid::parse_str` and hands back the value of the identifier
/// it read. The result is the one that `uuid_parsed` names for this text.
#[verifier::external_body]
fn parse_uuid_text(text: &str) -> (r: Result<u128, uuid::Error>)
    ensures
        r matches Ok(v) ==> uuid_parsed(text@) == Some(v),
        r is Err ==> uuid_parsed(text@) is None,
{
    match uuid::Uuid::parse_str(text) {
        Ok(id) => Ok(id.as_u128()),
        Err(e) => Err(e),
    }
}

/// Formats an identifier with `uuid::Uuid`'s `Display`, which writes the
/// hyphenated lower-case form of the value, most significant digit first.
#[verifier::external_body]
fn format_uuid_value(value: u128) -> (s: String)
    ensures
        s@ == canonical_text(value),
{
    uuid::Uuid::from_u128(value).to_string()
}

/// The message of a `uuid::Error`, as its `Display` writes it.
#[verifier::external_body]
fn uuid_error_text(e: &uuid::Error) -> (s: String)
{
    e.to_string()
}

/// The bits of an identifier that hold its version and its variant.
pub const VERSION_AND_VARIANT: u128 = 0x0000_0000_0000_f000_c000_0000_0000_0000;

/// What the version and variant bits of a random identifier hold: version
/// four, and the variant of RFC 4122.
pub const RANDOM_MARK: u128 = 0x0000_0000_0000_4000_8000_0000_0000_0000;

/// Draws a random version-4 identifier with `uuid::Uuid::new_v4`, which
/// sets the version and variant bits of whatever it draws.
#[verifier::external_body]
fn random_uuid_value() -> (v: u128)
    ensures
        v & VERSION_AND_VARIANT == RANDOM_MARK,
{
    uuid::Uuid::new_v4().as_u128()
}

impl Uuid {
    /// The identifier whose bits are all zero: the head of a log that holds
    /// no transaction yet.
    pub fn nil() -> (id: Uuid)
        ensures
            id.value == 0,
    {
        Uuid { value: 0 }
    }

    /// The identifier with this value.
    pub fn from_u128(value: u128) -> (id: Uuid)
        ensures
            id.value == value,
    {
        Uuid { value }
    }

    /// The value of the identifier.
    pub fn as_u128(&self) -> (value: u128)
        ensures
            value == self.value,
    {
        self.value
    }

    /// The identifier is the nil identifier.
    pub open spec fn spec_is_nil(&self) -> bool {
        self.value == 0
    }

    /// Whether the identifier is the nil identifier.
    #[verifier::when_used_as_spec(spec_is_nil)]
    pub fn is_nil(&self) -> (b: bool)
        ensures
            b == (self.value == 0),
    {
        self.value == 0
    }

    /// The canonical text of this identifier.
    pub open spec fn text(&self) -> Seq<char> {
        canonical_text(self.value)
    }

    /// Writes the identifier in its canonical form.
    pub fn to_text(&self) -> (s: String)
        ensures
            s@ == self.text(),
    {
        format_uuid_value(self.value)
    }

    /// Reads an identifier from a text that has already been judged: `parsed`
    /// is the outcome of reading it, and a rejection becomes a `UuidError`.
    pub fn from_parsed(parsed: Result<u128, String>) -> (r: Result<Uuid, TolstoyError>)
        ensures
            match parsed {
                Ok(v) => r == Ok::<Uuid, TolstoyError>(Uuid { value: v }),
                Err(text) => r == Err::<Uuid, TolstoyError>(TolstoyError::UuidError(text)),
            },
    {
        match parsed {
            Ok(v) => Ok(Uuid { value: v }),
            Err(text) => Err(TolstoyError::UuidError(text)),
        }
    }

    /// Reads an identifier from any of the textual forms that the `uuid`
    /// crate accepts. A text that it rejects gives a `UuidError`.
    pub fn parse_str(text: &str) -> (r: Result<Uuid, TolstoyError>)
        ensures
            match uuid_parsed(text@) {
                Some(v) => r == Ok::<Uuid, TolstoyError>(Uuid { value: v }),
                None => r matches Err(TolstoyError::UuidError(_)),
            },
    {
        match parse_uuid_text(text) {
            Ok(v) => Self::from_parsed(Ok(v)),
            Err(e) => Self::from_parsed(Err(uuid_error_text(&e))),
        }
    }

    /// A fresh random identifier: it has version four and the variant of
    /// RFC 4122, so it is never nil. Nothing else is promised of its value.
    pub fn new_v4() -> (id: Uuid)
        ensures
            id.value & VERSION_AND_VARIANT == RANDOM_MARK,
            !id.spec_is_nil(),
    {
        let value = random_uuid_value();
        assert(value & 0x0000_0000_0000_f000_c000_0000_0000_0000u128
            == 0x0000_0000_0000_4000_8000_0000_0000_0000u128 ==> value != 0) by (bit_vector);
        Uuid { value }
    }
}

} // verus!
