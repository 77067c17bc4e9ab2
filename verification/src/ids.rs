//! Identifiers made by the `uuid` crate.

use uuid::Uuid;
use vstd::prelude::*;

verus! {

/// The text of the identifier that a namespace gives a name.
pub uninterp spec fn name_uuid(namespace: Seq<u8>, name: Seq<u8>) -> Seq<char>;

/// The identifier that a namespace gives a name.
///
/// Calls `Uuid::new_v5`. Believed of it: the same namespace and name always give the same
/// identifier.
#[verifier::external_body]
pub(crate) fn uuid_for_name(namespace: &[u8; 16], name: &[u8]) -> (text: String)
    ensures
        text@ == name_uuid(namespace@, name@),
{
    Uuid::new_v5(&Uuid::from_bytes(*namespace), name).to_string()
}

/// The character is a lower-case hexadecimal digit.
pub open spec fn is_hex_digit(c: char) -> bool {
    ('0' <= c && c <= '9') || ('a' <= c && c <= 'f')
}

/// A fresh identifier without hyphens.
///
/// Calls `Uuid::new_v4` and `Uuid::simple`. Believed of them: 32 lower-case hexadecimal digits
/// come out. Which they are is left to chance.
#[verifier::external_body]
pub(crate) fn fresh_simple_uuid() -> (text: String)
    ensures
        text@.len() == 32,
        forall|i: int| 0 <= i < text@.len() ==> is_hex_digit(#[trigger] text@[i]),
{
    Uuid::new_v4().simple().to_string()
}

/// The text is an identifier with hyphens: groups of 8, 4, 4, 4 and 12 digits.
pub open spec fn is_uuid_text(text: Seq<char>) -> bool {
    &&& text.len() == 36
    &&& forall|i: int|
        0 <= i < text.len() ==> if i == 8 || i == 13 || i == 18 || i == 23 {
            #[trigger] text[i] == '-'
        } else {
            is_hex_digit(text[i])
        }
}

/// A fresh identifier with hyphens.
///
/// Calls `Uuid::new_v4` and its `to_string`. Believed of them: the text is 36 characters long, with
/// hyphens between groups of lower-case hexadecimal digits. Which they are is left to chance.
#[verifier::external_body]
pub(crate) fn fresh_uuid() -> (text: String)
    ensures
        is_uuid_text(text@),
{
    Uuid::new_v4().to_string()
}

} // verus!
