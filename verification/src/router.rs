//! The router: from the method and the path of a request to the handler that
//! answers it. Methods and paths are matched character by character; a path
//! with a query string matches nothing.

use crate::endpoints::{
    delete_entry, entry_of, get_entries, patch_entry_name, patch_of, patched, post_entry, posted,
    put, put_entry, removed, reports_success, took_place, NamePatch, NamePatchModel, Outcome,
};
use crate::store::{
    distinct_ids, find_id, has_id, law_delete_twice, law_patch_name_idempotent, lemma_find_id,
    lemma_find_id_by_ids, lemma_max_id, listing, max_id, models, renumbered, Entry, EntryModel,
    EntryStore,
};
use crate::text::str_eq;
use vstd::prelude::*;
use vstd::string::*;

verus! {

/// The body of a reply before it is written out.
#[derive(Debug)]
pub enum Body {
    /// A text that is sent as it stands.
    Text(String),
    /// Records that are sent as a JSON array.
    Entries(Vec<Entry>),
}

/// What a `Body` stands for in contracts.
pub enum BodyModel {
    Text(Seq<char>),
    Entries(Seq<EntryModel>),
}

impl View for Body {
    type V = BodyModel;

    open spec fn view(&self) -> BodyModel {
        match self {
            Body::Text(text) => BodyModel::Text(text@),
            Body::Entries(entries) => BodyModel::Entries(models(entries@)),
        }
    }
}

/// What a handler answers.
#[derive(Debug)]
pub struct Reply {
    /// The status line, without its line end.
    pub status_line: &'static str,
    /// The body.
    pub body: Body,
    /// Whether the handler changed the store, so that it is to be written
    /// back.
    pub persist: bool,
}

/// What a `Reply` stands for in contracts.
pub struct ReplyModel {
    pub status_line: Seq<char>,
    pub body: BodyModel,
    pub persist: bool,
}

impl View for Reply {
    type V = ReplyModel;

    open spec fn view(&self) -> ReplyModel {
        ReplyModel { status_line: self.status_line@, body: self.body@, persist: self.persist }
    }
}

/// What was decoded from the body of a request.
#[derive(Debug)]
pub enum Payload {
    /// Nothing: the handler takes no body, or the body could not be decoded.
    Absent,
    /// A whole record.
    Record(Entry),
    /// An id and a new name.
    NamePatch(NamePatch),
    /// An id.
    Id(usize),
}

/// What a `Payload` stands for in contracts.
pub enum PayloadModel {
    Absent,
    Record(EntryModel),
    NamePatch(NamePatchModel),
    Id(usize),
}

impl View for Payload {
    type V = PayloadModel;

    open spec fn view(&self) -> PayloadModel {
        match self {
            Payload::Absent => PayloadModel::Absent,
            Payload::Record(entry) => PayloadModel::Record(entry@),
            Payload::NamePatch(patch) => PayloadModel::NamePatch(patch@),
            Payload::Id(id) => PayloadModel::Id(*id),
        }
    }
}

/// What the handler of a route needs besides the request itself.
#[derive(Clone, Copy, Debug, PartialEq, Eq, Structural)]
pub enum Wanted {
    /// Neither the store nor a decoded body.
    Nothing,
    /// The store.
    Store,
    /// The store, and the body decoded as a record.
    Record,
    /// The store, and the body decoded as an id and a name.
    NamePatch,
    /// The store, and the body decoded as an id.
    Id,
}

/// What a handler comes to: its reply and the records afterwards.
pub struct Handled {
    pub reply: ReplyModel,
    pub records: Seq<EntryModel>,
}

/// The status line of a request that was handled.
pub open spec fn ok_status() -> Seq<char> {
    "HTTP/1.1 200 OK"@
}

/// The status line for a path that no handler has.
pub open spec fn not_found_status() -> Seq<char> {
    "HTTP/1.1 404 NOT FOUND"@
}

/// The status line for a method that no handler has.
pub open spec fn not_allowed_status() -> Seq<char> {
    "HTTP/1.1 405 METHOD NOT ALLOWED"@
}

/// The reply that sends a fixed text.
pub open spec fn text_reply(text: Seq<char>) -> ReplyModel {
    ReplyModel { status_line: ok_status(), body: BodyModel::Text(text), persist: false }
}

/// The reply for a path that no handler has.
pub open spec fn not_found_reply() -> ReplyModel {
    ReplyModel {
        status_line: not_found_status(),
        body: BodyModel::Text("404 - Not Found"@),
        persist: false,
    }
}

/// The reply for a method that no handler has.
pub open spec fn not_allowed_reply() -> ReplyModel {
    ReplyModel {
        status_line: not_allowed_status(),
        body: BodyModel::Text("405 - Method Not Allowed"@),
        persist: false,
    }
}

/// The reply after an operation on the store: its answer text, under the
/// status of a handled request whether the operation took place or not.
pub open spec fn outcome_reply(outcome: Outcome) -> ReplyModel {
    ReplyModel {
        status_line: ok_status(),
        body: BodyModel::Text(outcome.text),
        persist: outcome.done,
    }
}

/// What follows from an operation on the store.
pub open spec fn outcome_handled(outcome: Outcome) -> Handled {
    Handled { reply: outcome_reply(outcome), records: outcome.records }
}

/// What follows where no handler has the path.
pub open spec fn not_found_handled(records: Seq<EntryModel>) -> Handled {
    Handled { reply: not_found_reply(), records: records }
}

/// The reply to a `GET`.
pub open spec fn get_reply(uri: Seq<char>, records: Seq<EntryModel>) -> ReplyModel {
    if uri == "/"@ {
        text_reply("Welcome to the homepage!"@)
    } else if uri == "/hello"@ {
        text_reply("Hello, world!"@)
    } else if uri == "/entries"@ {
        ReplyModel {
            status_line: ok_status(),
            body: BodyModel::Entries(listing(records, 0)),
            persist: false,
        }
    } else {
        not_found_reply()
    }
}

/// What a `POST` comes to.
pub open spec fn post_handled(
    uri: Seq<char>,
    record: Option<EntryModel>,
    records: Seq<EntryModel>,
) -> Handled {
    if uri == "/submit"@ {
        outcome_handled(posted(records, record))
    } else {
        not_found_handled(records)
    }
}

/// What a `PUT` comes to.
pub open spec fn put_handled(
    uri: Seq<char>,
    record: Option<EntryModel>,
    records: Seq<EntryModel>,
) -> Handled {
    if uri == "/put_entry"@ {
        outcome_handled(put(records, record))
    } else {
        not_found_handled(records)
    }
}

/// What a `PATCH` comes to.
pub open spec fn patch_handled(
    uri: Seq<char>,
    patch: Option<NamePatchModel>,
    records: Seq<EntryModel>,
) -> Handled {
    if uri == "/patch_entry_name"@ {
        outcome_handled(patched(records, patch))
    } else {
        not_found_handled(records)
    }
}

/// What a `DELETE` comes to.
pub open spec fn delete_handled(uri: Seq<char>, id: Option<usize>, records: Seq<EntryModel>) -> Handled {
    if uri == "/delete_entry"@ {
        outcome_handled(removed(records, id))
    } else {
        not_found_handled(records)
    }
}

/// The record that a payload holds.
pub open spec fn record_in(payload: PayloadModel) -> Option<EntryModel> {
    match payload {
        PayloadModel::Record(entry) => Some(entry),
        _ => None,
    }
}

/// The change of name that a payload holds.
pub open spec fn patch_in(payload: PayloadModel) -> Option<NamePatchModel> {
    match payload {
        PayloadModel::NamePatch(patch) => Some(patch),
        _ => None,
    }
}

/// The id that a payload holds.
pub open spec fn id_in(payload: PayloadModel) -> Option<usize> {
    match payload {
        PayloadModel::Id(id) => Some(id),
        _ => None,
    }
}

/// What a request comes to: the reply of the handler that has its method
/// and path, and the records afterwards.
pub open spec fn handled(
    method: Seq<char>,
    uri: Seq<char>,
    payload: PayloadModel,
    records: Seq<EntryModel>,
) -> Handled {
    if method == "GET"@ {
        Handled { reply: get_reply(uri, records), records: records }
    } else if method == "POST"@ {
        post_handled(uri, record_in(payload), records)
    } else if method == "PUT"@ {
        put_handled(uri, record_in(payload), records)
    } else if method == "DELETE"@ {
        delete_handled(uri, id_in(payload), records)
    } else if method == "PATCH"@ {
        patch_handled(uri, patch_in(payload), records)
    } else {
        Handled { reply: not_allowed_reply(), records: records }
    }
}

/// What the handler of a route needs besides the request.
pub open spec fn wanted_by(method: Seq<char>, uri: Seq<char>) -> Wanted {
    if method == "GET"@ && uri == "/entries"@ {
        Wanted::Store
    } else if method == "POST"@ && uri == "/submit"@ {
        Wanted::Record
    } else if method == "PUT"@ && uri == "/put_entry"@ {
        Wanted::Record
    } else if method == "DELETE"@ && uri == "/delete_entry"@ {
        Wanted::Id
    } else if method == "PATCH"@ && uri == "/patch_entry_name"@ {
        Wanted::NamePatch
    } else {
        Wanted::Nothing
    }
}

/// Whether `method` is one of the five methods that have handlers.
pub open spec fn known_method(method: Seq<char>) -> bool {
    method == "GET"@ || method == "POST"@ || method == "PUT"@ || method == "DELETE"@ || method
        == "PATCH"@
}

/// Whether `GET` has a handler for the path `uri`.
pub open spec fn known_get_path(uri: Seq<char>) -> bool {
    uri == "/"@ || uri == "/hello"@ || uri == "/entries"@
}

/// A `GET` on a path without a handler is answered with the status 404 and
/// the body `404 - Not Found`; a method other than the five that have
/// handlers is answered with the status 405. Neither touches the store.
pub proof fn law_unknown_routes(
    method: Seq<char>,
    uri: Seq<char>,
    payload: PayloadModel,
    records: Seq<EntryModel>,
)
    ensures
        method == "GET"@ && !known_get_path(uri) ==> handled(method, uri, payload, records).reply
            == not_found_reply(),
        !known_method(method) ==> handled(method, uri, payload, records).reply
            == not_allowed_reply(),
        method == "GET"@ || !known_method(method) ==> handled(
            method,
            uri,
            payload,
            records,
        ).records == records,
        not_found_reply().status_line == "HTTP/1.1 404 NOT FOUND"@,
        not_found_reply().body == BodyModel::Text("404 - Not Found"@),
        not_allowed_reply().status_line == "HTTP/1.1 405 METHOD NOT ALLOWED"@,
{
}

/// Where the handler of a route needs nothing, the reply is the same
/// whatever the store and the payload hold, and the store stays as it is.
pub proof fn law_nothing_wanted(
    method: Seq<char>,
    uri: Seq<char>,
    payload: PayloadModel,
    records: Seq<EntryModel>,
)
    requires
        wanted_by(method, uri) == Wanted::Nothing,
    ensures
        handled(method, uri, payload, records).reply == handled(
            method,
            uri,
            PayloadModel::Absent,
            Seq::empty(),
        ).reply,
        handled(method, uri, payload, records).records == records,
        !handled(method, uri, payload, records).reply.persist,
{
}

/// A request that is handled by an operation on the store has the status of
/// a handled request, whether the operation took place or not.
pub proof fn law_store_replies_are_ok(
    method: Seq<char>,
    uri: Seq<char>,
    payload: PayloadModel,
    records: Seq<EntryModel>,
)
    requires
        wanted_by(method, uri) != Wanted::Nothing,
    ensures
        handled(method, uri, payload, records).reply.status_line == ok_status(),
{
    lemma_methods_differ();
}

/// Whether the handler that needs `need` looks at the store when it is
/// given `payload`: it does not where it needs nothing, nor where the body
/// was not decoded as what it needs.
pub open spec fn store_used(need: Wanted, payload: PayloadModel) -> bool {
    match need {
        Wanted::Nothing => false,
        Wanted::Store => true,
        Wanted::Record => payload is Record,
        Wanted::NamePatch => payload is NamePatch,
        Wanted::Id => payload is Id,
    }
}

/// The five methods that have handlers are five different texts.
pub proof fn lemma_methods_differ()
    ensures
        "GET"@ != "POST"@,
        "GET"@ != "PUT"@,
        "GET"@ != "DELETE"@,
        "GET"@ != "PATCH"@,
        "POST"@ != "PUT"@,
        "POST"@ != "DELETE"@,
        "POST"@ != "PATCH"@,
        "PUT"@ != "DELETE"@,
        "PUT"@ != "PATCH"@,
        "DELETE"@ != "PATCH"@,
{
    reveal_strlit("GET");
    reveal_strlit("POST");
    reveal_strlit("PUT");
    reveal_strlit("DELETE");
    reveal_strlit("PATCH");
    assert("GET"@.len() == 3);
    assert("POST"@.len() == 4);
    assert("PUT"@[1] == 'U');
    assert("GET"@[1] == 'E');
    assert("DELETE"@.len() == 6);
    assert("PATCH"@.len() == 5);
}

/// Where the handler of a request does not look at the store, its reply is
/// the same whatever the store holds, and the store stays as it is and is
/// not to be written back.
pub proof fn law_store_unused(
    method: Seq<char>,
    uri: Seq<char>,
    payload: PayloadModel,
    records: Seq<EntryModel>,
)
    requires
        !store_used(wanted_by(method, uri), payload),
    ensures
        handled(method, uri, payload, records).reply == handled(
            method,
            uri,
            payload,
            Seq::empty(),
        ).reply,
        handled(method, uri, payload, records).records == records,
        !handled(method, uri, payload, records).reply.persist,
{
    lemma_methods_differ();
}

/// What a `PATCH` of `/patch_entry_name` with the decoded change `patch`
/// comes to.
pub open spec fn patch_request(patch: NamePatchModel, records: Seq<EntryModel>) -> Handled {
    handled("PATCH"@, "/patch_entry_name"@, PayloadModel::NamePatch(patch), records)
}

/// What a `POST` of `/submit` with the decoded record `record` comes to.
pub open spec fn submit_request(record: EntryModel, records: Seq<EntryModel>) -> Handled {
    handled("POST"@, "/submit"@, PayloadModel::Record(record), records)
}

/// What a `DELETE` of `/delete_entry` with the decoded id `id` comes to.
pub open spec fn delete_request(id: usize, records: Seq<EntryModel>) -> Handled {
    handled("DELETE"@, "/delete_entry"@, PayloadModel::Id(id), records)
}

/// What a `GET` of `/entries` comes to.
pub open spec fn entries_request(records: Seq<EntryModel>) -> Handled {
    handled("GET"@, "/entries"@, PayloadModel::Absent, records)
}

/// The same change of name requested twice leaves the store as the first
/// request left it and is answered as the first was. No request of this
/// kind adds or drops a record or changes an id; where a record has the
/// id, the first of them has the new name afterwards.
pub proof fn law_patch_request_idempotent(patch: NamePatchModel, records: Seq<EntryModel>)
    ensures
        patch_request(patch, patch_request(patch, records).records) == patch_request(
            patch,
            records,
        ),
        patch_request(patch, records).records.len() == records.len(),
        forall|i: int|
            0 <= i < records.len() ==> (#[trigger] patch_request(patch, records).records[i]).id
                == records[i].id,
        has_id(records, patch.id) ==> patch_request(patch, records).records[find_id(
            records,
            patch.id,
            0,
        )].name == patch.name,
        distinct_ids(records) ==> distinct_ids(patch_request(patch, records).records),
{
    lemma_methods_differ();
    let once = patch_request(patch, records).records;
    if has_id(records, patch.id) {
        law_patch_name_idempotent(records, patch.id, patch.name);
        lemma_find_id(records, patch.id, 0);
        assert(has_id(once, patch.id)) by {
            lemma_find_id_by_ids(once, records, patch.id, 0);
        }
    }
}

/// A record that was submitted is the last one that a listing shows
/// afterwards, under an id one above the largest id that the store held
/// before, and behind the records that the store held before.
pub proof fn law_submit_then_list(record: EntryModel, records: Seq<EntryModel>)
    requires
        max_id(records) < usize::MAX,
    ensures
        submit_request(record, records).reply == outcome_reply(posted(records, Some(record))),
        submit_request(record, records).reply.body == BodyModel::Text("Success!"@),
        entries_request(submit_request(record, records).records).reply.body
            == BodyModel::Entries(records.push(renumbered(records, record))),
        renumbered(records, record).id == max_id(records) + 1,
{
    lemma_methods_differ();
    lemma_max_id(records);
    reveal_strlit("/");
    reveal_strlit("/hello");
    reveal_strlit("/entries");
    assert("/"@.len() == 1);
    assert("/hello"@.len() == 6);
    assert("/entries"@.len() == 8);
}

/// In a store with distinct ids, the deletion of a record that is there is
/// answered with success and takes out just that record; the same request
/// again is answered with `Error`, under the status of a handled request,
/// and leaves the store as it is.
pub proof fn law_delete_request_twice(id: usize, records: Seq<EntryModel>)
    requires
        distinct_ids(records),
        has_id(records, id),
    ensures
        delete_request(id, records).reply.body == BodyModel::Text("Success!"@),
        delete_request(id, records).records == records.remove(find_id(records, id, 0)),
        delete_request(id, delete_request(id, records).records).reply.body == BodyModel::Text(
            "Error"@,
        ),
        delete_request(id, delete_request(id, records).records).reply.status_line == ok_status(),
        delete_request(id, delete_request(id, records).records).records == delete_request(
            id,
            records,
        ).records,
{
    lemma_methods_differ();
    law_delete_twice(records, id);
}

/// A reply that sends a fixed text under the status of a handled request.
fn fixed_reply(text: &'static str) -> (reply: Reply)
    ensures
        reply@ == text_reply(text@),
{
    Reply { status_line: "HTTP/1.1 200 OK", body: Body::Text(text.to_owned()), persist: false }
}

/// The reply for a path that no handler has.
fn not_found() -> (reply: Reply)
    ensures
        reply@ == not_found_reply(),
{
    Reply {
        status_line: "HTTP/1.1 404 NOT FOUND",
        body: Body::Text("404 - Not Found".to_owned()),
        persist: false,
    }
}

/// The reply after an operation on the store.
fn answer(text: &'static str) -> (reply: Reply)
    ensures
        reply@ == (ReplyModel {
            status_line: ok_status(),
            body: BodyModel::Text(text@),
            persist: reports_success(text@),
        }),
{
    Reply {
        status_line: "HTTP/1.1 200 OK",
        body: Body::Text(text.to_owned()),
        persist: took_place(text),
    }
}

/// Answers a `GET`: the welcome text for `/`, a fixed text for `/hello`, all
/// records of the store for `/entries`, and for every other path the status
/// 404, without a look at the store.
pub fn handle_get(uri: &str, store: &EntryStore) -> (reply: Reply)
    ensures
        reply@ == get_reply(uri@, store@),
{
    if str_eq(uri, "/") {
        fixed_reply("Welcome to the homepage!")
    } else if str_eq(uri, "/hello") {
        fixed_reply("Hello, world!")
    } else if str_eq(uri, "/entries") {
        Reply {
            status_line: "HTTP/1.1 200 OK",
            body: Body::Entries(get_entries(store, 0)),
            persist: false,
        }
    } else {
        not_found()
    }
}

/// Answers a `POST`: appends the decoded record.
pub fn handle_post(uri: &str, record: Option<Entry>, store: &mut EntryStore) -> (reply: Reply)
    ensures
        reply@ == post_handled(uri@, entry_of(record), old(store)@).reply,
        final(store)@ == post_handled(uri@, entry_of(record), old(store)@).records,
{
    if str_eq(uri, "/submit") {
        answer(post_entry(store, record))
    } else {
        not_found()
    }
}

/// Answers a `PUT`: replaces the record that has the id of the decoded one.
pub fn handle_put(uri: &str, record: Option<Entry>, store: &mut EntryStore) -> (reply: Reply)
    ensures
        reply@ == put_handled(uri@, entry_of(record), old(store)@).reply,
        final(store)@ == put_handled(uri@, entry_of(record), old(store)@).records,
{
    if str_eq(uri, "/put_entry") {
        answer(put_entry(store, record))
    } else {
        not_found()
    }
}

/// Answers a `PATCH`: renames the record that the decoded patch names.
pub fn handle_patch(uri: &str, patch: Option<NamePatch>, store: &mut EntryStore) -> (reply: Reply)
    ensures
        reply@ == patch_handled(uri@, patch_of(patch), old(store)@).reply,
        final(store)@ == patch_handled(uri@, patch_of(patch), old(store)@).records,
{
    if str_eq(uri, "/patch_entry_name") {
        answer(patch_entry_name(store, patch))
    } else {
        not_found()
    }
}

/// Answers a `DELETE`: takes out the record that has the decoded id.
pub fn handle_delete(uri: &str, id: Option<usize>, store: &mut EntryStore) -> (reply: Reply)
    ensures
        reply@ == delete_handled(uri@, id, old(store)@).reply,
        final(store)@ == delete_handled(uri@, id, old(store)@).records,
{
    if str_eq(uri, "/delete_entry") {
        answer(delete_entry(store, id))
    } else {
        not_found()
    }
}

/// The record that a payload holds.
fn record_of(payload: Payload) -> (record: Option<Entry>)
    ensures
        entry_of(record) == record_in(payload@),
{
    match payload {
        Payload::Record(entry) => Some(entry),
        _ => None,
    }
}

/// The change of name that a payload holds.
fn name_patch_of(payload: Payload) -> (patch: Option<NamePatch>)
    ensures
        patch_of(patch) == patch_in(payload@),
{
    match payload {
        Payload::NamePatch(patch) => Some(patch),
        _ => None,
    }
}

/// The id that a payload holds.
fn id_of(payload: Payload) -> (id: Option<usize>)
    ensures
        id == id_in(payload@),
{
    match payload {
        Payload::Id(id) => Some(id),
        _ => None,
    }
}

/// Hands a request to the handler of its method. A method without a
/// handler is answered with the status 405.
pub fn dispatch(method: &str, uri: &str, payload: Payload, store: &mut EntryStore) -> (reply: Reply)
    ensures
        reply@ == handled(method@, uri@, payload@, old(store)@).reply,
        final(store)@ == handled(method@, uri@, payload@, old(store)@).records,
{
    if str_eq(method, "GET") {
        handle_get(uri, store)
    } else if str_eq(method, "POST") {
        handle_post(uri, record_of(payload), store)
    } else if str_eq(method, "PUT") {
        handle_put(uri, record_of(payload), store)
    } else if str_eq(method, "DELETE") {
        handle_delete(uri, id_of(payload), store)
    } else if str_eq(method, "PATCH") {
        handle_patch(uri, name_patch_of(payload), store)
    } else {
        Reply {
            status_line: "HTTP/1.1 405 METHOD NOT ALLOWED",
            body: Body::Text("405 - Method Not Allowed".to_owned()),
            persist: false,
        }
    }
}

/// Whether the handler that needs `need` looks at the store when it is
/// given `payload`, so that the store is to be loaded for it.
pub fn uses_store(need: Wanted, payload: &Payload) -> (used: bool)
    ensures
        used == store_used(need, payload@),
{
    match need {
        Wanted::Nothing => false,
        Wanted::Store => true,
        Wanted::Record => match payload {
            Payload::Record(_) => true,
            _ => false,
        },
        Wanted::NamePatch => match payload {
            Payload::NamePatch(_) => true,
            _ => false,
        },
        Wanted::Id => match payload {
            Payload::Id(_) => true,
            _ => false,
        },
    }
}

/// What the handler of a request needs besides the request: whether the
/// store is to be loaded, and as what the body is to be decoded.
pub fn wanted(method: &str, uri: &str) -> (need: Wanted)
    ensures
        need == wanted_by(method@, uri@),
{
    if str_eq(method, "GET") && str_eq(uri, "/entries") {
        Wanted::Store
    } else if str_eq(method, "POST") && str_eq(uri, "/submit") {
        Wanted::Record
    } else if str_eq(method, "PUT") && str_eq(uri, "/put_entry") {
        Wanted::Record
    } else if str_eq(method, "DELETE") && str_eq(uri, "/delete_entry") {
        Wanted::Id
    } else if str_eq(method, "PATCH") && str_eq(uri, "/patch_entry_name") {
        Wanted::NamePatch
    } else {
        Wanted::Nothing
    }
}

} // verus!
