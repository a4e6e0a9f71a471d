use vstd::prelude::*;

use crate::ids::{id_text, parsed_id, read_id, write_id};
use crate::models::{added_under, holds_random_id, views_of, Database, Login, LoginView};
use crate::persist::sync_content;
use crate::query::{query_text, selects};
use crate::outcome::WriteOutcome;
use crate::text::same_text;
use crate::wire::{
    json_text, known_phrase, reason, reason_phrase, rows_view, split_target, target_parts,
    write_json,
};

verus! {

/// The method of a request, as far as the routes tell methods apart.
#[derive(Debug, Clone, Copy, PartialEq, Eq, Structural)]
pub enum Method {
    Get,
    Post,
    Delete,
    /// Any other method.
    Other,
}

/// A file that is served as it is.
#[derive(Debug, Clone, Copy, PartialEq, Eq, Structural)]
pub enum Asset {
    Index,
    Form,
    Stylesheet,
    QueryScript,
    QueryScriptMap,
    FormScript,
    FormScriptMap,
}

/// Where a request goes.
#[derive(Debug, Clone, Copy, PartialEq, Eq, Structural)]
pub enum Route {
    /// One of the fixed files of the web pages.
    Static(Asset),
    /// The page that shows the records a query selects.
    QueryPage,
    /// `GET /api/v1/query`: the records a query selects, as JSON.
    Query,
    /// `GET /api/v1/sync`: write the store to its file now.
    Sync,
    /// `POST /api/v1/new`: add the records of the body.
    New,
    /// `DELETE /api/v1/remove`: remove one record.
    Remove,
    /// Everything else.
    NotFound,
}

/// The fixed file that a path names, if it names one.
pub open spec fn asset_at(path: Seq<char>) -> Option<Asset> {
    if path == "/"@ {
        Some(Asset::Index)
    } else if path == "/new"@ {
        Some(Asset::Form)
    } else if path == "/index.css"@ {
        Some(Asset::Stylesheet)
    } else if path == "/query.js"@ {
        Some(Asset::QueryScript)
    } else if path == "/query.js.map"@ {
        Some(Asset::QueryScriptMap)
    } else if path == "/form.js"@ {
        Some(Asset::FormScript)
    } else if path == "/form.js.map"@ {
        Some(Asset::FormScriptMap)
    } else {
        None
    }
}

/// The routing table: where a request with this method and path goes.
pub open spec fn route_of(method: Method, path: Seq<char>) -> Route {
    match method {
        Method::Get => if asset_at(path) is Some {
            Route::Static(asset_at(path).unwrap())
        } else if path == "/query"@ {
            Route::QueryPage
        } else if path == "/api/v1/query"@ {
            Route::Query
        } else if path == "/api/v1/sync"@ {
            Route::Sync
        } else {
            Route::NotFound
        },
        Method::Post => if path == "/api/v1/new"@ {
            Route::New
        } else {
            Route::NotFound
        },
        Method::Delete => if path == "/api/v1/remove"@ {
            Route::Remove
        } else {
            Route::NotFound
        },
        Method::Other => Route::NotFound,
    }
}

/// The fixed file that `path` names, if it names one.
pub fn static_asset(path: &str) -> (asset: Option<Asset>)
    ensures
        asset == asset_at(path@),
{
    if same_text(path, "/") {
        Some(Asset::Index)
    } else if same_text(path, "/new") {
        Some(Asset::Form)
    } else if same_text(path, "/index.css") {
        Some(Asset::Stylesheet)
    } else if same_text(path, "/query.js") {
        Some(Asset::QueryScript)
    } else if same_text(path, "/query.js.map") {
        Some(Asset::QueryScriptMap)
    } else if same_text(path, "/form.js") {
        Some(Asset::FormScript)
    } else if same_text(path, "/form.js.map") {
        Some(Asset::FormScriptMap)
    } else {
        None
    }
}

/// Where a request with this method and path goes.
pub fn route(method: Method, path: &str) -> (to: Route)
    ensures
        to == route_of(method, path@),
{
    match method {
        Method::Get => {
            match static_asset(path) {
                Some(asset) => Route::Static(asset),
                None => {
                    if same_text(path, "/query") {
                        Route::QueryPage
                    } else if same_text(path, "/api/v1/query") {
                        Route::Query
                    } else if same_text(path, "/api/v1/sync") {
                        Route::Sync
                    } else {
                        Route::NotFound
                    }
                },
            }
        },
        Method::Post => {
            if same_text(path, "/api/v1/new") {
                Route::New
            } else {
                Route::NotFound
            }
        },
        Method::Delete => {
            if same_text(path, "/api/v1/remove") {
                Route::Remove
            } else {
                Route::NotFound
            }
        },
        Method::Other => Route::NotFound,
    }
}

/// The content type under which a fixed file is served.
pub open spec fn content_type_of(asset: Asset) -> Seq<char> {
    match asset {
        Asset::Index | Asset::Form => "text/html; charset=utf8"@,
        Asset::Stylesheet => "text/css; charset=utf8"@,
        _ => "application/javascript; charset=utf8"@,
    }
}

/// The content type under which a fixed file is served.
pub fn asset_content_type(asset: Asset) -> (kind: &'static str)
    ensures
        kind@ == content_type_of(asset),
{
    match asset {
        Asset::Index | Asset::Form => "text/html; charset=utf8",
        Asset::Stylesheet => "text/css; charset=utf8",
        _ => "application/javascript; charset=utf8",
    }
}

/// Where a fixed file lies, seen from the directory in which the server runs.
pub open spec fn file_of(asset: Asset) -> Seq<char> {
    match asset {
        Asset::Index => "src/web/index.html"@,
        Asset::Form => "src/web/form.html"@,
        Asset::Stylesheet => "dist/index.css"@,
        Asset::QueryScript => "dist/query.js"@,
        Asset::QueryScriptMap => "dist/query.js.map"@,
        Asset::FormScript => "dist/form.js"@,
        Asset::FormScriptMap => "dist/form.js.map"@,
    }
}

/// Where a fixed file lies.
pub fn asset_file(asset: Asset) -> (file: &'static str)
    ensures
        file@ == file_of(asset),
{
    match asset {
        Asset::Index => "src/web/index.html",
        Asset::Form => "src/web/form.html",
        Asset::Stylesheet => "dist/index.css",
        Asset::QueryScript => "dist/query.js",
        Asset::QueryScriptMap => "dist/query.js.map",
        Asset::FormScript => "dist/form.js",
        Asset::FormScriptMap => "dist/form.js.map",
    }
}

/// The value of the first pair whose key is `key`, if there is such a pair.
pub open spec fn first_value(pairs: Seq<(Seq<char>, Seq<char>)>, key: Seq<char>) -> Option<
    Seq<char>,
>
    decreases pairs.len(),
{
    if pairs.len() == 0 {
        None
    } else if pairs.first().0 == key {
        Some(pairs.first().1)
    } else {
        first_value(pairs.drop_first(), key)
    }
}

/// The pairs of a query string as plain values.
pub open spec fn pairs_view(pairs: Seq<(String, String)>) -> Seq<(Seq<char>, Seq<char>)> {
    pairs.map_values(|pair: (String, String)| (pair.0@, pair.1@))
}

/// The value of the first pair whose key is `key`.
pub fn find_value<'a>(pairs: &'a Vec<(String, String)>, key: &str) -> (value: Option<&'a str>)
    ensures
        match value {
            Some(text) => first_value(pairs_view(pairs@), key@) == Some(text@),
            None => first_value(pairs_view(pairs@), key@) is None,
        },
{
    let mut i: usize = 0;
    let ghost all = pairs_view(pairs@);
    proof {
        assert(all.skip(0) =~= all);
    }
    while i < pairs.len()
        invariant
            0 <= i <= pairs.len(),
            all == pairs_view(pairs@),
            first_value(all, key@) == first_value(all.skip(i as int), key@),
        decreases pairs.len() - i,
    {
        proof {
            assert(all.skip(i as int).first() == (pairs@[i as int].0@, pairs@[i as int].1@));
            assert(all.skip(i as int).drop_first() =~= all.skip(i + 1));
        }
        if same_text(pairs[i].0.as_str(), key) {
            return Some(pairs[i].1.as_str());
        }
        i = i + 1;
    }
    None
}

/// What is sent back for a request.
#[derive(Debug)]
pub struct Response {
    /// The status code.
    pub status: u16,
    /// The `Content-Type` header, where one is set.
    pub content_type: Option<String>,
    /// The body.
    pub body: String,
}

/// Whether `reply` is the bare answer for a status code: no content type,
/// and the code's standard phrase as body, which for the codes that the
/// library answers with is the phrase that [`known_phrase`] gives.
pub open spec fn is_plain(reply: Response, code: u16) -> bool {
    &&& reply.status == code
    &&& reply.content_type is None
    &&& reply.body@ == reason_phrase(code)
    &&& known_phrase(code) matches Some(text) ==> reply.body@ == text
}

/// The bare answer for a status code.
pub fn plain(code: u16) -> (reply: Response)
    ensures
        is_plain(reply, code),
{
    Response { status: code, content_type: None, body: reason(code) }
}

/// The answer to a request that no route takes.
pub fn serve_404() -> (reply: Response)
    ensures
        reply.status == 404,
        reply.content_type is None,
        reply.body@ == "404"@,
{
    Response { status: 404, content_type: None, body: "404".to_owned() }
}

/// The JSON object of one record, as its pairs of key and value.
pub open spec fn row_of(id: u128, login: LoginView) -> Seq<(Seq<char>, Seq<char>)> {
    seq![
        ("id"@, id_text(id)),
        ("name"@, login.name),
        ("username"@, login.username),
        ("password"@, login.password),
    ]
}

/// The JSON objects of the records of a listing, in its order.
pub open spec fn rows_of(found: Seq<(u128, &Login)>) -> Seq<Seq<(Seq<char>, Seq<char>)>> {
    found.map_values(|entry: (u128, &Login)| row_of(entry.0, entry.1@))
}

/// Whether `reply` answers a query that selected `found`: the records as a
/// JSON array with status 200, or a bare 500 where they cannot be written.
pub open spec fn is_query_reply(found: Seq<(u128, &Login)>, reply: Response) -> bool {
    match json_text(rows_of(found)) {
        Some(text) => {
            &&& reply.status == 200
            &&& reply.content_type matches Some(kind) && kind@ == "application/json"@
            &&& reply.body@ == text
        },
        None => is_plain(reply, 500),
    }
}

/// The answer to a query that selected `found`.
pub fn query_reply(found: &Vec<(u128, &Login)>) -> (reply: Response)
    ensures
        is_query_reply(found@, reply),
{
    let mut rows: Vec<Vec<(String, String)>> = Vec::new();
    let mut i: usize = 0;
    while i < found.len()
        invariant
            0 <= i <= found.len(),
            rows_view(rows@) == rows_of(found@.take(i as int)),
        decreases found.len() - i,
    {
        let id = found[i].0;
        let login = found[i].1;
        let mut row: Vec<(String, String)> = Vec::new();
        row.push(("id".to_owned(), write_id(id)));
        row.push(("name".to_owned(), login.name.clone()));
        row.push(("username".to_owned(), login.username.clone()));
        row.push(("password".to_owned(), login.password.clone()));
        proof {
            let pairs = row@.map_values(|pair: (String, String)| (pair.0@, pair.1@));
            assert(pairs =~= row_of(id, login@));
            assert(found@.take(i + 1) =~= found@.take(i as int).push(found@[i as int]));
            assert(rows_view(rows@.push(row)) =~= rows_view(rows@).push(pairs));
            assert(rows_of(found@.take(i + 1)) =~= rows_of(found@.take(i as int)).push(
                row_of(id, login@),
            ));
        }
        rows.push(row);
        i = i + 1;
    }
    proof {
        assert(found@.take(found.len() as int) =~= found@);
    }
    match write_json(&rows) {
        Ok(text) => Response {
            status: 200,
            content_type: Some("application/json".to_owned()),
            body: text,
        },
        Err(_) => plain(500),
    }
}

/// Answers `GET /api/v1/query`: the records that the query selects, as a JSON
/// array of objects with the keys `id`, `name`, `username` and `password`.
pub fn serve_query(query: Option<&str>, db: &Database) -> (reply: Response)
    ensures
        exists|found: Seq<(u128, &Login)>| #[trigger]
            selects(db@, query_text(query), found) && is_query_reply(found, reply),
{
    let found = db.query(query);
    let reply = query_reply(&found);
    assert(selects(db@, query_text(query), found@) && is_query_reply(found@, reply));
    reply
}

/// The records that a request to add records carries: its `Content-Type`
/// must be exactly `application/json`, and its body must have been read and
/// hold a JSON array of records. Anything else carries nothing.
pub open spec fn payload(content_type: Option<Seq<char>>, records: Option<Seq<LoginView>>) -> Option<
    Seq<LoginView>,
> {
    if content_type == Some("application/json"@) {
        records
    } else {
        None
    }
}

/// A text that may be absent, as a plain value.
pub open spec fn text_view(text: Option<&str>) -> Option<Seq<char>> {
    match text {
        Some(found) => Some(found@),
        None => None,
    }
}

/// Records that may be absent, as plain values.
pub open spec fn records_view(records: Option<Vec<Login>>) -> Option<Seq<LoginView>> {
    match records {
        Some(found) => Some(views_of(found@)),
        None => None,
    }
}

/// The records that a request to add records carries.
pub fn read_payload(content_type: Option<&str>, records: Option<Vec<Login>>) -> (logins: Option<
    Vec<Login>,
>)
    ensures
        records_view(logins) == payload(text_view(content_type), records_view(records)),
{
    match content_type {
        Some(kind) => {
            if same_text(kind, "application/json") {
                records
            } else {
                None
            }
        },
        None => None,
    }
}

/// Whether `reply` and the store `after` are what adding `logins` to the
/// store `before` comes to: all of them added under new identifiers and the
/// answer 201, or nothing added and the answer 500. The second can happen
/// only where the drawn identifiers can collide: with two records or more,
/// or with one record and a store that holds an identifier of the random
/// form.
pub open spec fn answers_addition(
    before: Map<u128, LoginView>,
    after: Map<u128, LoginView>,
    logins: Seq<LoginView>,
    reply: Response,
) -> bool {
    ||| is_plain(reply, 201) && exists|ids: Seq<u128>| #[trigger]
        added_under(before, after, ids, logins)
    ||| is_plain(reply, 500) && after == before && (logins.len() >= 2 || (logins.len() == 1
        && holds_random_id(before)))
}

/// Whether `reply` and the store `after` are what a request to add records
/// comes to on the store `before`: 415 and no change where the request
/// carries no records, else what [`answers_addition`] says.
pub open spec fn answers_new(
    before: Map<u128, LoginView>,
    after: Map<u128, LoginView>,
    content_type: Option<Seq<char>>,
    records: Option<Seq<LoginView>>,
    reply: Response,
) -> bool {
    match payload(content_type, records) {
        None => is_plain(reply, 415) && after == before,
        Some(logins) => answers_addition(before, after, logins, reply),
    }
}

/// Answers `POST /api/v1/new`.
///
/// `records` is what the body holds: `None` where it could not be read, is
/// not well-formed UTF-8 or is not a JSON array of records. A request that
/// carries no records (see [`payload`]) is answered with 415 and changes
/// nothing. Otherwise every record is added under a new identifier and the
/// answer is 201; should the drawn identifiers collide, nothing is added and
/// the answer is 500.
pub fn add_new(content_type: Option<&str>, records: Option<Vec<Login>>, db: &mut Database) -> (reply:
    Response)
    ensures
        final(db).path == old(db).path,
        answers_new(
            old(db)@,
            final(db)@,
            text_view(content_type),
            records_view(records),
            reply,
        ),
{
    match read_payload(content_type, records) {
        None => plain(415),
        Some(logins) => {
            let ghost views = views_of(logins@);
            assert(payload(text_view(content_type), records_view(records)) == Some(views));
            match db.append_logins(logins) {
                Ok(ids) => {
                    let reply = plain(201);
                    assert(added_under(old(db)@, db@, ids@, views));
                    assert(answers_addition(old(db)@, db@, views, reply));
                    reply
                },
                Err(_) => {
                    let reply = plain(500);
                    assert(views.len() >= 1);
                    assert(answers_addition(old(db)@, db@, views, reply));
                    reply
                },
            }
        },
    }
}

/// Whether `reply` and the store `after` are what a request to remove the
/// record named by `id` comes to on the store `before`.
pub open spec fn answers_removal(
    before: Map<u128, LoginView>,
    after: Map<u128, LoginView>,
    id: Option<Seq<char>>,
    reply: Response,
) -> bool {
    match id {
        None => is_plain(reply, 404) && after == before,
        Some(text) => match parsed_id(text) {
            None => is_plain(reply, 404) && after == before,
            Some(key) => if before.contains_key(key) {
                is_plain(reply, 204) && after == before.remove(key)
            } else {
                is_plain(reply, 404) && after == before
            },
        },
    }
}

/// Answers `DELETE /api/v1/remove`.
///
/// The record that the `id` parameter names is removed and the answer is
/// 204. Without the parameter, with one that is no identifier, or with an
/// identifier that names no record, the answer is 404 and nothing changes.
pub fn remove_login(id: Option<&str>, db: &mut Database) -> (reply: Response)
    ensures
        final(db).path == old(db).path,
        answers_removal(old(db)@, final(db)@, text_view(id), reply),
{
    let text = match id {
        Some(text) => text,
        None => {
            return plain(404);
        },
    };
    let key = match read_id(text) {
        Some(key) => key,
        None => {
            return plain(404);
        },
    };
    match db.remove(key) {
        Some(_) => plain(204),
        None => {
            assert(db@ =~= old(db)@);
            plain(404)
        },
    }
}

/// The answer to `GET /api/v1/sync` once the write has been tried: 204 if
/// the file was written, 500 if not.
pub fn sync_reply(written: &WriteOutcome) -> (reply: Response)
    ensures
        written is Written ==> is_plain(reply, 204),
        written is Failed ==> is_plain(reply, 500),
{
    match written {
        WriteOutcome::Written => plain(204),
        WriteOutcome::Failed(_) => plain(500),
    }
}

/// A request, as far as the routes look at it.
#[derive(Debug)]
pub struct Request {
    /// The method.
    pub method: Method,
    /// The request target: the path, with the query string if there is one.
    pub target: String,
    /// The header fields in the order in which they came, name and value.
    pub headers: Vec<(String, String)>,
    /// The records that the body holds, or `None` where the body could not
    /// be read, is not well-formed UTF-8 or is not a JSON array of records.
    pub records: Option<Vec<Login>>,
}

/// What is to be done for a request.
#[derive(Debug)]
pub enum Step {
    /// Send this answer.
    Reply(Response),
    /// Send this fixed file.
    SendAsset(Asset),
    /// Send the page that shows these records.
    SendPage(Vec<(u128, Login)>),
    /// Replace the store's file by these bytes and answer as [`sync_reply`]
    /// says.
    Persist(Vec<u8>),
    /// The request target is no address; there is nothing to answer.
    Abort,
}

/// The address onto which a request target is joined to take it apart.
pub open spec fn base_address() -> Seq<char> {
    "https://127.0.0.1"@
}

/// The text under `key` among the pairs, or the empty text.
pub open spec fn wanted(pairs: Seq<(Seq<char>, Seq<char>)>, key: Seq<char>) -> Seq<char> {
    match first_value(pairs, key) {
        Some(text) => text,
        None => Seq::empty(),
    }
}

/// Records with their identifiers, as plain values.
pub open spec fn listing_view(found: Seq<(u128, &Login)>) -> Seq<(u128, LoginView)> {
    found.map_values(|entry: (u128, &Login)| (entry.0, entry.1@))
}

/// Records with their identifiers, as plain values.
pub open spec fn page_view(records: Seq<(u128, Login)>) -> Seq<(u128, LoginView)> {
    records.map_values(|entry: (u128, Login)| (entry.0, entry.1@))
}

/// Whether `step` and the store `after` are what `request` comes to on the
/// store `before`, once its target has been taken apart into `path` and
/// `pairs`.
pub open spec fn answers_route(
    before: Map<u128, LoginView>,
    after: Map<u128, LoginView>,
    request: Request,
    path: Seq<char>,
    pairs: Seq<(Seq<char>, Seq<char>)>,
    step: Step,
) -> bool {
    match route_of(request.method, path) {
        Route::Static(asset) => step matches Step::SendAsset(sent) && sent == asset && after
            == before,
        Route::QueryPage => step matches Step::SendPage(records) && after == before && exists|
            found: Seq<(u128, &Login)>,
        | #[trigger]
            selects(before, wanted(pairs, "query"@), found) && page_view(records@) == listing_view(
                found,
            ),
        Route::Query => step matches Step::Reply(reply) && after == before && exists|
            found: Seq<(u128, &Login)>,
        | #[trigger]
            selects(before, wanted(pairs, "query"@), found) && is_query_reply(found, reply),
        Route::Sync => after == before && match step {
            Step::Persist(bytes) => sync_content(before) == Some(bytes@),
            Step::Reply(reply) => is_plain(reply, 500) && sync_content(before) is None,
            _ => false,
        },
        Route::New => step matches Step::Reply(reply) && answers_new(
            before,
            after,
            first_value(pairs_view(request.headers@), "Content-Type"@),
            records_view(request.records),
            reply,
        ),
        Route::Remove => step matches Step::Reply(reply) && answers_removal(
            before,
            after,
            first_value(pairs, "id"@),
            reply,
        ),
        Route::NotFound => step matches Step::Reply(reply) && after == before && reply.status
            == 404 && reply.content_type is None && reply.body@ == "404"@,
    }
}

/// Copies of the given records, in their order.
pub fn copies(logins: &Vec<Login>) -> (copied: Vec<Login>)
    ensures
        views_of(copied@) == views_of(logins@),
{
    let mut copied: Vec<Login> = Vec::new();
    let mut i: usize = 0;
    while i < logins.len()
        invariant
            0 <= i <= logins.len(),
            views_of(copied@) == views_of(logins@.take(i as int)),
        decreases logins.len() - i,
    {
        let copy = logins[i].duplicate();
        proof {
            assert(logins@.take(i + 1) =~= logins@.take(i as int).push(logins@[i as int]));
            assert(views_of(copied@.push(copy)) =~= views_of(copied@).push(copy@));
            assert(views_of(logins@.take(i + 1)) =~= views_of(logins@.take(i as int)).push(
                logins@[i as int]@,
            ));
        }
        copied.push(copy);
        i = i + 1;
    }
    proof {
        assert(logins@.take(logins.len() as int) =~= logins@);
    }
    copied
}

/// Copies of the selected records, for the page that shows them.
pub fn page_records(found: &Vec<(u128, &Login)>) -> (records: Vec<(u128, Login)>)
    ensures
        page_view(records@) == listing_view(found@),
{
    let mut records: Vec<(u128, Login)> = Vec::new();
    let mut i: usize = 0;
    while i < found.len()
        invariant
            0 <= i <= found.len(),
            page_view(records@) == listing_view(found@.take(i as int)),
        decreases found.len() - i,
    {
        let copy = found[i].1.duplicate();
        proof {
            assert(found@.take(i + 1) =~= found@.take(i as int).push(found@[i as int]));
            assert(page_view(records@.push((found@[i as int].0, copy))) =~= page_view(
                records@,
            ).push((found@[i as int].0, copy@)));
            assert(listing_view(found@.take(i + 1)) =~= listing_view(found@.take(i as int)).push(
                (found@[i as int].0, found@[i as int].1@),
            ));
        }
        records.push((found[i].0, copy));
        i = i + 1;
    }
    proof {
        assert(found@.take(found.len() as int) =~= found@);
    }
    records
}

/// Decides what is to be done for a request, and does to the store what the
/// request asks.
///
/// The target is taken apart into path and query pairs; method and path pick
/// the route; the route's handler gives the step. Only the routes that add
/// and remove records change the store.
pub fn handle(request: &Request, db: &mut Database) -> (step: Step)
    ensures
        final(db).path == old(db).path,
        match target_parts(base_address(), request.target@) {
            None => step is Abort && final(db)@ == old(db)@,
            Some(parts) => answers_route(old(db)@, final(db)@, *request, parts.0, parts.1, step),
        },
{
    let (path, pairs) = match split_target("https://127.0.0.1", request.target.as_str()) {
        Some(parts) => parts,
        None => {
            return Step::Abort;
        },
    };
    let ghost shown = pairs_view(pairs@);
    let step = match route(request.method, path.as_str()) {
        Route::Static(asset) => Step::SendAsset(asset),
        Route::QueryPage => {
            let query = find_value(&pairs, "query");
            let found = db.query(query);
            let records = page_records(&found);
            assert(selects(db@, wanted(shown, "query"@), found@) && page_view(records@)
                == listing_view(found@));
            Step::SendPage(records)
        },
        Route::Query => {
            let query = find_value(&pairs, "query");
            let found = db.query(query);
            let reply = query_reply(&found);
            assert(selects(db@, wanted(shown, "query"@), found@) && is_query_reply(found@, reply));
            Step::Reply(reply)
        },
        Route::Sync => match db.sync() {
            Ok(bytes) => Step::Persist(bytes),
            Err(_) => Step::Reply(plain(500)),
        },
        Route::New => {
            let kind = find_value(&request.headers, "Content-Type");
            let records = match &request.records {
                Some(found) => Some(copies(found)),
                None => None,
            };
            Step::Reply(add_new(kind, records, db))
        },
        Route::Remove => {
            let id = find_value(&pairs, "id");
            Step::Reply(remove_login(id, db))
        },
        Route::NotFound => Step::Reply(serve_404()),
    };
    assert(answers_route(old(db)@, db@, *request, path@, shown, step));
    step
}

} // verus!
