use std::collections::BTreeMap;
use vstd::prelude::*;

verus! {

/// The error of `serde_json`, carried through unopened.
#[verifier::external_type_specification]
#[verifier::external_body]
pub struct ExJsonError(serde_json::Error);

/// The phrase that `tiny_http::StatusCode::default_reason_phrase` gives for
/// a status code.
pub uninterp spec fn reason_phrase(code: u16) -> Seq<char>;

/// The phrases of the status codes that the library's answers use, as
/// `tiny_http`'s table gives them.
pub open spec fn known_phrase(code: u16) -> Option<Seq<char>> {
    if code == 201 {
        Some("Created"@)
    } else if code == 204 {
        Some("No Content"@)
    } else if code == 404 {
        Some("Not Found"@)
    } else if code == 415 {
        Some("Unsupported Media Type"@)
    } else if code == 500 {
        Some("Internal Server Error"@)
    } else {
        None
    }
}

/// The path and the query pairs that the `url` crate finds in a request
/// target joined onto a base address: `Url::join`, then `Url::path` and
/// `Url::query_pairs`. `None` where the base or the joined address does not
/// parse.
pub uninterp spec fn target_parts(base: Seq<char>, target: Seq<char>) -> Option<
    (Seq<char>, Seq<(Seq<char>, Seq<char>)>),
>;

/// The text that `serde_json::to_string` writes for an array of objects, each
/// row being one object given as its pairs of key and text value; `None`
/// where it reports an error.
pub uninterp spec fn json_text(rows: Seq<Seq<(Seq<char>, Seq<char>)>>) -> Option<Seq<char>>;

/// The text that std's `Debug` formatting gives for a text: quoted, with
/// escapes for the characters that need them.
pub uninterp spec fn debug_text(text: Seq<char>) -> Seq<char>;

/// Rows of key and text value as plain values.
pub open spec fn rows_view(rows: Seq<Vec<(String, String)>>) -> Seq<Seq<(Seq<char>, Seq<char>)>> {
    rows.map_values(
        |row: Vec<(String, String)>| row@.map_values(|pair: (String, String)| (pair.0@, pair.1@)),
    )
}

/// Query pairs as plain values.
pub open spec fn parts_view(parts: (String, Vec<(String, String)>)) -> (
    Seq<char>,
    Seq<(Seq<char>, Seq<char>)>,
) {
    (parts.0@, parts.1@.map_values(|pair: (String, String)| (pair.0@, pair.1@)))
}

/// Looks up a status code's phrase with
/// `tiny_http::StatusCode::default_reason_phrase`. The claim is that the
/// phrase depends on the code alone, and that for the five codes of
/// [`known_phrase`] it is the one that the table of that function holds.
#[verifier::external_body]
pub(crate) fn reason(code: u16) -> (phrase: String)
    ensures
        phrase@ == reason_phrase(code),
        known_phrase(code) matches Some(text) ==> phrase@ == text,
{
    tiny_http::StatusCode(code).default_reason_phrase().to_owned()
}

/// Takes a request target apart with the `url` crate: the base is parsed
/// with `Url::parse`, the target joined with `Url::join`, and the result's
/// `path` and `query_pairs` are handed out. The claim is only that the result
/// depends on the two texts alone.
#[verifier::external_body]
pub(crate) fn split_target(base: &str, target: &str) -> (parts: Option<
    (String, Vec<(String, String)>),
>)
    ensures
        match parts {
            Some(found) => target_parts(base@, target@) == Some(parts_view(found)),
            None => target_parts(base@, target@) is None,
        },
{
    let joined = url::Url::parse(base).ok()?.join(target).ok()?;
    Some((joined.path().to_owned(), joined.query_pairs().into_owned().collect()))
}

/// Writes rows as a JSON array of objects with `serde_json::to_string`. The
/// claim is only that success and the text depend on the rows alone.
#[verifier::external_body]
pub(crate) fn write_json(rows: &Vec<Vec<(String, String)>>) -> (written: Result<
    String,
    serde_json::Error,
>)
    ensures
        match written {
            Ok(text) => json_text(rows_view(rows@)) == Some(text@),
            Err(_) => json_text(rows_view(rows@)) is None,
        },
{
    let objects: Vec<BTreeMap<&str, &str>> = rows.iter().map(
        |row| row.iter().map(|pair| (pair.0.as_str(), pair.1.as_str())).collect(),
    ).collect();
    serde_json::to_string(&objects)
}

/// Quotes a text with std's `Debug` formatting of `str`. The claim is only
/// that the result depends on the text alone.
#[verifier::external_body]
pub(crate) fn quoted(text: &str) -> (shown: String)
    ensures
        shown@ == debug_text(text@),
{
    format!("{:?}", text)
}

} // verus!
