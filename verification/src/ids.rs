//! Identifiers of phonemes and of families.

use vstd::prelude::*;

verus! {

/// Whether `id` bears the marks of a random identifier: version 4, and the
/// variant of RFC 9562.
pub open spec fn is_random_id(id: u128) -> bool {
    (id >> 76) & 0xf == 4 && (id >> 62) & 0x3 == 2
}

/// Calls `uuid::Uuid::new_v4`, which draws 128 random bits and sets the
/// version to 4 and the variant to that of RFC 9562, and `Uuid::as_u128`,
/// which packs the sixteen bytes into one number. The contract claims only
/// the version and the variant: the other bits are chance. Where the system
/// hands out no random bytes, `new_v4` panics.
#[verifier::external_body]
pub(crate) fn random_id() -> (id: u128)
    ensures
        is_random_id(id),
{
    uuid::Uuid::new_v4().as_u128()
}

/// An identifier as `uuid::Uuid` writes it: 32 hexadecimal digits in five
/// groups with hyphens between them.
pub uninterp spec fn uuid_text(id: u128) -> Seq<char>;

/// Calls `uuid::Uuid::from_u128`, which unpacks the number into the sixteen
/// bytes of an identifier, and its `Display`, which writes these in lower
/// case hexadecimal digits, hyphenated. The text depends on the number alone;
/// the contract gives it a name.
#[verifier::external_body]
pub(crate) fn id_text(id: u128) -> (text: String)
    ensures
        text@ == uuid_text(id),
{
    uuid::Uuid::from_u128(id).to_string()
}

/// The identifier as it is shown to the user.
pub fn show_id(id: u128) -> (text: String)
    ensures
        text@ == uuid_text(id),
{
    id_text(id)
}

} // verus!
