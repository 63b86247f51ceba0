use rust_http_server::endpoints::NamePatch;
use rust_http_server::router::{
    dispatch, handle_delete, handle_get, handle_patch, handle_post, handle_put, uses_store, wanted, Body,
    Payload, Reply, Wanted,
};
use rust_http_server::store::{Entry, EntryStore};

fn entry(id: usize, name: &str) -> Entry {
    Entry {
        id,
        rank: "28,818".to_string(),
        trend: "8".to_string(),
        season: 1,
        episode: 4,
        name: name.to_string(),
        start: 1999,
        total_votes: "449".to_string(),
        average_rating_bits: 0x4101_999a,
    }
}

fn seeded() -> EntryStore {
    EntryStore { entries: vec![entry(1, "one"), entry(2, "two"), entry(3, "three")] }
}

fn text(reply: &Reply) -> &str {
    match &reply.body {
        Body::Text(text) => text,
        Body::Entries(_) => panic!("the reply holds records"),
    }
}

#[test]
fn get_answers_the_fixed_pages() {
    let store = EntryStore::new();
    let home = handle_get("/", &store);
    assert_eq!(home.status_line, "HTTP/1.1 200 OK");
    assert_eq!(text(&home), "Welcome to the homepage!");
    assert!(!home.persist);
    let hello = handle_get("/hello", &store);
    assert_eq!(hello.status_line, "HTTP/1.1 200 OK");
    assert_eq!(text(&hello), "Hello, world!");
}

#[test]
fn get_entries_answers_all_records() {
    let store = seeded();
    let reply = handle_get("/entries", &store);
    assert_eq!(reply.status_line, "HTTP/1.1 200 OK");
    match reply.body {
        Body::Entries(entries) => {
            assert_eq!(entries.len(), 3);
            assert_eq!(entries[2].id, 3);
            assert_eq!(entries[2].name, "three");
        }
        Body::Text(_) => panic!("the reply holds a text"),
    }
}

#[test]
fn get_on_unknown_path_is_not_found() {
    let store = seeded();
    for uri in ["/nothing", "/data", "", "/hello/", "/entries?limit=1", "/Hello", "//"] {
        let reply = handle_get(uri, &store);
        assert_eq!(reply.status_line, "HTTP/1.1 404 NOT FOUND");
        assert_eq!(text(&reply), "404 - Not Found");
        assert!(!reply.persist);
    }
}

#[test]
fn unknown_method_is_not_allowed() {
    let mut store = seeded();
    for method in ["OPTIONS", "HEAD", "get", "", "GETS", "TRACE"] {
        let reply = dispatch(method, "/", Payload::Absent, &mut store);
        assert_eq!(reply.status_line, "HTTP/1.1 405 METHOD NOT ALLOWED");
        assert_eq!(text(&reply), "405 - Method Not Allowed");
        assert!(!reply.persist);
    }
    assert_eq!(store.len(), 3);
}

#[test]
fn known_method_on_unknown_path_is_not_found() {
    let mut store = seeded();
    for method in ["GET", "POST", "PUT", "PATCH", "DELETE"] {
        let reply = dispatch(method, "/unknown", Payload::Record(entry(1, "x")), &mut store);
        assert_eq!(reply.status_line, "HTTP/1.1 404 NOT FOUND");
        assert_eq!(text(&reply), "404 - Not Found");
    }
    assert_eq!(store.entries[0].name, "one");
}

#[test]
fn post_appends_and_asks_to_persist() {
    let mut store = seeded();
    let reply = handle_post("/submit", Some(entry(0, "four")), &mut store);
    assert_eq!(reply.status_line, "HTTP/1.1 200 OK");
    assert_eq!(text(&reply), "Success!");
    assert!(reply.persist);
    assert_eq!(store.len(), 4);
    assert_eq!(store.entries[3].id, 4);
}

#[test]
fn failed_operations_are_still_answered_with_ok() {
    let mut store = seeded();
    let reply = handle_post("/submit", None, &mut store);
    assert_eq!(reply.status_line, "HTTP/1.1 200 OK");
    assert_eq!(text(&reply), "Error");
    assert!(!reply.persist);
    let reply = handle_put("/put_entry", Some(entry(9, "x")), &mut store);
    assert_eq!(reply.status_line, "HTTP/1.1 200 OK");
    assert_eq!(text(&reply), "Error");
    assert!(!reply.persist);
    let reply = handle_patch("/patch_entry_name", None, &mut store);
    assert_eq!(reply.status_line, "HTTP/1.1 200 OK");
    assert_eq!(text(&reply), "Format not valid");
    let patch = NamePatch { id: 9, name: "x".to_string() };
    let reply = handle_patch("/patch_entry_name", Some(patch), &mut store);
    assert_eq!(text(&reply), "Character not found");
    assert!(!reply.persist);
    let reply = handle_delete("/delete_entry", Some(9), &mut store);
    assert_eq!(reply.status_line, "HTTP/1.1 200 OK");
    assert_eq!(text(&reply), "Error");
    assert_eq!(store.len(), 3);
}

#[test]
fn put_patch_and_delete_change_the_store() {
    let mut store = seeded();
    let reply = handle_put("/put_entry", Some(entry(1, "uno")), &mut store);
    assert_eq!(text(&reply), "Success!");
    assert!(reply.persist);
    assert_eq!(store.entries[0].name, "uno");
    let patch = NamePatch { id: 1, name: "Pirate King Luffy".to_string() };
    let reply = handle_patch("/patch_entry_name", Some(patch), &mut store);
    assert_eq!(text(&reply), "Success");
    assert!(reply.persist);
    assert_eq!(store.entries[0].name, "Pirate King Luffy");
    let reply = handle_delete("/delete_entry", Some(2), &mut store);
    assert_eq!(text(&reply), "Success!");
    assert!(reply.persist);
    assert_eq!(store.len(), 2);
    assert_eq!(store.entries[1].id, 3);
}

#[test]
fn handlers_answer_not_found_off_their_path() {
    let mut store = seeded();
    assert_eq!(handle_post("/put_entry", Some(entry(0, "x")), &mut store).status_line,
        "HTTP/1.1 404 NOT FOUND");
    assert_eq!(handle_put("/submit", Some(entry(1, "x")), &mut store).status_line,
        "HTTP/1.1 404 NOT FOUND");
    assert_eq!(handle_patch("/delete_entry", None, &mut store).status_line,
        "HTTP/1.1 404 NOT FOUND");
    assert_eq!(handle_delete("/patch_entry_name", Some(1), &mut store).status_line,
        "HTTP/1.1 404 NOT FOUND");
    assert_eq!(store.len(), 3);
    assert_eq!(store.entries[0].name, "one");
}

#[test]
fn dispatch_treats_a_payload_of_another_kind_as_absent() {
    let mut store = seeded();
    let reply = dispatch("DELETE", "/delete_entry", Payload::Record(entry(1, "x")), &mut store);
    assert_eq!(text(&reply), "Error");
    let reply = dispatch("POST", "/submit", Payload::Id(1), &mut store);
    assert_eq!(text(&reply), "Error");
    let reply = dispatch("PATCH", "/patch_entry_name", Payload::Id(1), &mut store);
    assert_eq!(text(&reply), "Format not valid");
    assert_eq!(store.len(), 3);
}

#[test]
fn dispatch_reaches_each_handler() {
    let mut store = seeded();
    assert_eq!(text(&dispatch("GET", "/hello", Payload::Absent, &mut store)), "Hello, world!");
    let reply = dispatch("POST", "/submit", Payload::Record(entry(0, "four")), &mut store);
    assert_eq!(text(&reply), "Success!");
    let reply = dispatch("PUT", "/put_entry", Payload::Record(entry(4, "vier")), &mut store);
    assert_eq!(text(&reply), "Success!");
    let patch = NamePatch { id: 4, name: "quatre".to_string() };
    let reply = dispatch("PATCH", "/patch_entry_name", Payload::NamePatch(patch), &mut store);
    assert_eq!(text(&reply), "Success");
    assert_eq!(store.entries[3].name, "quatre");
    let reply = dispatch("DELETE", "/delete_entry", Payload::Id(4), &mut store);
    assert_eq!(text(&reply), "Success!");
    assert_eq!(store.len(), 3);
}

#[test]
fn wanted_names_what_each_route_needs() {
    assert_eq!(wanted("GET", "/entries"), Wanted::Store);
    assert_eq!(wanted("POST", "/submit"), Wanted::Record);
    assert_eq!(wanted("PUT", "/put_entry"), Wanted::Record);
    assert_eq!(wanted("PATCH", "/patch_entry_name"), Wanted::NamePatch);
    assert_eq!(wanted("DELETE", "/delete_entry"), Wanted::Id);
    assert_eq!(wanted("GET", "/"), Wanted::Nothing);
    assert_eq!(wanted("GET", "/submit"), Wanted::Nothing);
    assert_eq!(wanted("POST", "/entries"), Wanted::Nothing);
    assert_eq!(wanted("OPTIONS", "/entries"), Wanted::Nothing);
}

#[test]
fn store_is_used_only_with_what_the_handler_needs() {
    assert!(uses_store(Wanted::Store, &Payload::Absent));
    assert!(uses_store(Wanted::Record, &Payload::Record(entry(1, "x"))));
    let patch = NamePatch { id: 1, name: "x".to_string() };
    assert!(uses_store(Wanted::NamePatch, &Payload::NamePatch(patch)));
    assert!(uses_store(Wanted::Id, &Payload::Id(1)));
    assert!(!uses_store(Wanted::Nothing, &Payload::Id(1)));
    assert!(!uses_store(Wanted::Record, &Payload::Absent));
    assert!(!uses_store(Wanted::Record, &Payload::Id(1)));
    assert!(!uses_store(Wanted::NamePatch, &Payload::Absent));
    assert!(!uses_store(Wanted::Id, &Payload::Absent));
}
