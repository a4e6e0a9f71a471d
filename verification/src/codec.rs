use std::collections::BTreeMap;
use std::collections::HashMap;
use vstd::prelude::*;

use crate::models::{Database, Login, LoginView};

verus! {

/// The error of `rmp_serde`'s decoder, carried through unopened.
#[verifier::external_type_specification]
#[verifier::external_body]
pub struct ExDecodeError(rmp_serde::decode::Error);

/// The error of `rmp_serde`'s encoder, carried through unopened.
#[verifier::external_type_specification]
#[verifier::external_body]
pub struct ExEncodeError(rmp_serde::encode::Error);

/// The records that `rmp_serde::from_slice` reads from `bytes` as a
/// one-element array holding a map from identifier to a record's three
/// texts; `None` where it reports an error.
pub uninterp spec fn decoded(bytes: Seq<u8>) -> Option<Map<u128, LoginView>>;

/// The bytes that `rmp_serde::to_vec` writes for `records`, laid out as a
/// one-element array holding a map from identifier to a record's three texts,
/// the identifiers in rising order; `None` where it reports an error.
pub uninterp spec fn encoded(records: Map<u128, LoginView>) -> Option<Seq<u8>>;

/// The records by identifier, as plain values.
pub open spec fn records_view(logins: Map<u128, Login>) -> Map<u128, LoginView> {
    logins.map_values(|login: Login| login@)
}

/// Decodes a collection with `rmp_serde::from_slice`. The claim is only that
/// success and the records read depend on the bytes alone.
#[verifier::external_body]
pub(crate) fn unpack(bytes: &[u8]) -> (read: Result<HashMap<u128, Login>, rmp_serde::decode::Error>)
    ensures
        match read {
            Ok(logins) => decoded(bytes@) == Some(records_view(logins@)),
            Err(_) => decoded(bytes@) is None,
        },
{
    let raw: (HashMap<uuid::Uuid, (String, String, String)>,) = rmp_serde::from_slice(bytes)?;
    Ok(
        raw.0.into_iter().map(
            |(id, (name, username, password))| (id.as_u128(), Login { name, username, password }),
        ).collect(),
    )
}

/// Encodes a collection with `rmp_serde::to_vec`, the records taken in the
/// order of their identifiers. The claim is only that success and the bytes
/// written depend on the records alone.
#[verifier::external_body]
pub(crate) fn pack(store: &Database) -> (written: Result<Vec<u8>, rmp_serde::encode::Error>)
    ensures
        match written {
            Ok(bytes) => encoded(store@) == Some(bytes@),
            Err(_) => encoded(store@) is None,
        },
{
    let ordered: BTreeMap<uuid::Uuid, (&str, &str, &str)> = store.logins.iter().map(
        |(id, login)| (
            uuid::Uuid::from_u128(*id),
            (login.name.as_str(), login.username.as_str(), login.password.as_str()),
        ),
    ).collect();
    rmp_serde::to_vec(&(ordered,))
}

} // verus!
