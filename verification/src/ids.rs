use vstd::prelude::*;

verus! {

/// The bits that mark an identifier as randomly drawn: the version field
/// holds 4 and the variant field holds binary 10.
pub open spec fn is_random_id(id: u128) -> bool {
    id & 0x0000_0000_0000_f000_c000_0000_0000_0000u128
        == 0x0000_0000_0000_4000_8000_0000_0000_0000u128
}

/// What `uuid::Uuid::parse_str` makes of a text: the identifier's 128 bits,
/// or `None` where the text is not an identifier in any form it reads.
pub uninterp spec fn parsed_id(text: Seq<char>) -> Option<u128>;

/// The identifier written as text by `uuid::Uuid`'s hyphenated form.
pub uninterp spec fn id_text(id: u128) -> Seq<char>;

/// Draws a new identifier with `uuid::Uuid::new_v4` and hands out its 128 bits.
/// Each call may give another value; all that is claimed is that the version
/// and variant bits are those that `new_v4` sets on every identifier.
#[verifier::external_body]
pub(crate) fn draw_id() -> (id: u128)
    ensures
        is_random_id(id),
{
    uuid::Uuid::new_v4().as_u128()
}

/// Reads an identifier with `uuid::Uuid::parse_str`. The claim is only that
/// the result depends on the text alone.
#[verifier::external_body]
pub(crate) fn read_id(text: &str) -> (id: Option<u128>)
    ensures
        id == parsed_id(text@),
{
    uuid::Uuid::parse_str(text).ok().map(|id| id.as_u128())
}

/// Writes an identifier with `uuid::Uuid::hyphenated`. The claim is only that
/// the text depends on the identifier alone.
#[verifier::external_body]
pub(crate) fn write_id(id: u128) -> (text: String)
    ensures
        text@ == id_text(id),
{
    uuid::Uuid::from_u128(id).hyphenated().to_string()
}

} // verus!
