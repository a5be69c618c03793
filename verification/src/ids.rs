//! Fresh random identifiers, from the `uuid` crate.
use vstd::prelude::*;

verus! {

pub open spec fn is_hex_lower(c: char) -> bool {
    ('0' <= c && c <= '9') || ('a' <= c && c <= 'f')
}

/// The simple form of a UUID: 32 lower-case hexadecimal digits.
pub open spec fn is_simple_id(s: Seq<char>) -> bool {
    s.len() == 32 && forall|i: int| 0 <= i < 32 ==> is_hex_lower(#[trigger] s[i])
}

/// The hyphenated form of a UUID: 36 characters, lower-case hexadecimal
/// digits with `-` at indices 8, 13, 18 and 23.
pub open spec fn is_hyphenated_id(s: Seq<char>) -> bool {
    s.len() == 36 && forall|i: int|
        0 <= i < 36 ==> if i == 8 || i == 13 || i == 18 || i == 23 {
            #[trigger] s[i] == '-'
        } else {
            is_hex_lower(s[i])
        }
}

/// `uuid::Uuid::new_v4().simple().to_string()`. The value is random; what
/// holds of every outcome is its form, which `Simple`'s `Display` writes as
/// 32 lower-case hexadecimal digits.
#[verifier::external_body]
pub(crate) fn new_simple_id() -> (id: String)
    ensures
        is_simple_id(id@),
{
    uuid::Uuid::new_v4().simple().to_string()
}

/// `uuid::Uuid::new_v4().to_string()`. The value is random; what holds of
/// every outcome is its form, which `Uuid`'s `Display` writes as the
/// hyphenated lower-case form.
#[verifier::external_body]
pub(crate) fn new_hyphenated_id() -> (id: String)
    ensures
        is_hyphenated_id(id@),
{
    uuid::Uuid::new_v4().to_string()
}

} // verus!
