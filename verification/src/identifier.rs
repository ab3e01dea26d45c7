//! Schema names: the one piece of user input that is spliced into SQL text.

use crate::error::{ErrorKind, ErrorModel, ExportError};
use vstd::prelude::*;
use vstd::string::*;

verus! {

/// An ASCII letter or an ASCII digit.
pub open spec fn is_ascii_alphanumeric(c: char) -> bool {
    ||| 'a' <= c <= 'z'
    ||| 'A' <= c <= 'Z'
    ||| '0' <= c <= '9'
}

/// Every character of `name` is an ASCII letter or digit.
pub open spec fn all_ascii_alphanumeric(name: Seq<char>) -> bool {
    forall|i: int| 0 <= i < name.len() ==> is_ascii_alphanumeric(#[trigger] name[i])
}

/// `name` is made of one or more ASCII letters or digits: the language of
/// the pattern `^[A-Za-z0-9]+$`. The empty name is not valid.
pub open spec fn is_valid_schema_name(name: Seq<char>) -> bool {
    name.len() > 0 && all_ascii_alphanumeric(name)
}

/// The text of the message that a rejected schema name is answered with.
pub open spec fn invalid_schema_message() -> Seq<char> {
    "Schema name must be alphanumeric"@
}

/// The byte `b` encodes an ASCII letter or digit.
fn is_alphanumeric_byte(b: u8) -> (r: bool)
    ensures
        r == is_ascii_alphanumeric(b as char),
{
    (0x61 <= b && b <= 0x7a) || (0x41 <= b && b <= 0x5a) || (0x30 <= b && b <= 0x39)
}

/// Whether every character of `val` is an ASCII letter or digit.
fn is_alphanumeric(val: &str) -> (r: bool)
    ensures
        r == all_ascii_alphanumeric(val@),
{
    if !val.is_ascii() {
        // Some character lies outside ASCII, so it is no ASCII letter or digit.
        assert(!all_ascii_alphanumeric(val@)) by {
            if all_ascii_alphanumeric(val@) {
                assert forall|i: int| 0 <= i < val@.len() implies '\0' <= #[trigger] val@[i]
                    <= '\u{7f}' by {
                    assert(is_ascii_alphanumeric(val@[i]));
                }
            }
        }
        return false;
    }
    let bytes = val.as_bytes();
    proof {
        is_ascii_spec_bytes(val);
    }
    let mut i: usize = 0;
    while i < bytes.len()
        invariant
            i <= bytes.len(),
            bytes@.len() == val@.len(),
            forall|j: int| 0 <= j < val@.len() ==> bytes@[j] == (#[trigger] val@[j]) as u8,
            forall|j: int| 0 <= j < val@.len() ==> '\0' <= #[trigger] val@[j] <= '\u{7f}',
            forall|j: int| 0 <= j < i ==> is_ascii_alphanumeric(#[trigger] val@[j]),
        decreases bytes.len() - i,
    {
        let b = bytes[i];
        assert(b == val@[i as int] as u8);
        assert(b as char == val@[i as int]);
        if !is_alphanumeric_byte(b) {
            return false;
        }
        i += 1;
    }
    true
}

/// Accepts `val` as a schema name exactly when it is made of one or more
/// ASCII letters or digits; anything else, the empty name too, is answered
/// with a fixed message.
pub fn validate_schema(val: &str) -> (r: Result<(), String>)
    ensures
        r is Ok <==> is_valid_schema_name(val@),
        r matches Err(message) ==> message@ == invalid_schema_message(),
{
    if !val.is_empty() && is_alphanumeric(val) {
        Ok(())
    } else {
        Err(String::from_str("Schema name must be alphanumeric"))
    }
}

/// A schema name that has passed validation. No value of this type is empty
/// or holds a character other than an ASCII letter or digit.
#[derive(Debug, PartialEq, Eq)]
pub struct Schema {
    name: String,
}

impl View for Schema {
    type V = Seq<char>;

    closed spec fn view(&self) -> Seq<char> {
        self.name@
    }
}

impl Schema {
    /// What holds of every schema name that exists.
    #[verifier::type_invariant]
    pub closed spec fn well_formed(self) -> bool {
        is_valid_schema_name(self.name@)
    }

    /// A well-formed schema name is valid.
    pub proof fn lemma_well_formed_is_valid(self)
        requires
            self.well_formed(),
        ensures
            is_valid_schema_name(self@),
    {
    }

    /// Validates `candidate` and keeps it, or reports an invalid identifier.
    pub fn parse(candidate: &str) -> (r: Result<Schema, ExportError>)
        ensures
            match r {
                Ok(schema) => is_valid_schema_name(candidate@) && schema@ == candidate@,
                Err(error) => !is_valid_schema_name(candidate@) && error@ == (ErrorModel {
                    kind: ErrorKind::InvalidIdentifier,
                    message: invalid_schema_message(),
                }),
            },
    {
        match validate_schema(candidate) {
            Ok(()) => Ok(Schema { name: String::from_str(candidate) }),
            Err(message) => Err(ExportError::new(ErrorKind::InvalidIdentifier, message)),
        }
    }

    /// The validated name.
    pub fn as_str(&self) -> (name: &str)
        ensures
            name@ == self@,
            is_valid_schema_name(name@),
    {
        proof {
            use_type_invariant(self);
        }
        self.name.as_str()
    }
}

impl Clone for Schema {
    fn clone(&self) -> (schema: Schema)
        ensures
            schema@ == self@,
    {
        proof {
            use_type_invariant(self);
        }
        Schema { name: self.name.clone() }
    }
}

/// The empty name holds no character that breaks the rule, and is invalid
/// all the same: a valid name has one character at least.
pub proof fn lemma_empty_name_is_invalid()
    ensures
        all_ascii_alphanumeric(Seq::<char>::empty()),
        !is_valid_schema_name(Seq::<char>::empty()),
        forall|name: Seq<char>| is_valid_schema_name(name) ==> name.len() >= 1,
{
}

} // verus!
