use rust_http_server::endpoints::{
    delete_entry, get_entries, patch_entry_name, post_entry, put_entry, took_place, NamePatch,
};
use rust_http_server::store::{Entry, EntryStore, StoreError};

fn entry(id: usize, name: &str) -> Entry {
    Entry {
        id,
        rank: "32,043".to_string(),
        trend: "7".to_string(),
        season: 1,
        episode: 3,
        name: name.to_string(),
        start: 1999,
        total_votes: "428".to_string(),
        average_rating_bits: 0x40f6_6666,
    }
}

fn seeded(ids: &[usize]) -> EntryStore {
    let mut entries = Vec::new();
    for id in ids {
        entries.push(entry(*id, &format!("name {}", id)));
    }
    EntryStore { entries }
}

fn ids(store: &EntryStore) -> Vec<usize> {
    store.entries.iter().map(|entry| entry.id).collect()
}

#[test]
fn append_gives_the_next_id() {
    let mut store = seeded(&[1, 2, 3]);
    assert_eq!(store.append(entry(0, "new")), Ok(()));
    assert_eq!(ids(&store), vec![1, 2, 3, 4]);
    assert_eq!(store.entries[3].name, "new");
    assert_eq!(store.entries[3].rank, "32,043");
    assert_eq!(store.entries[3].average_rating_bits, 0x40f6_6666);
}

#[test]
fn append_counts_from_the_largest_id_not_the_last() {
    let mut store = seeded(&[7, 2, 3]);
    assert_eq!(store.append(entry(99, "new")), Ok(()));
    assert_eq!(ids(&store), vec![7, 2, 3, 8]);
}

#[test]
fn append_to_an_empty_store_gives_id_one() {
    let mut store = EntryStore::new();
    assert_eq!(store.len(), 0);
    assert_eq!(store.largest_id(), 0);
    assert_eq!(store.append(entry(5, "first")), Ok(()));
    assert_eq!(ids(&store), vec![1]);
}

#[test]
fn append_fails_when_ids_are_exhausted() {
    let mut store = seeded(&[1, usize::MAX]);
    assert_eq!(store.append(entry(0, "new")), Err(StoreError::IdsExhausted));
    assert_eq!(ids(&store), vec![1, usize::MAX]);
}

#[test]
fn post_then_list_shows_the_record() {
    let mut store = seeded(&[1, 2, 5]);
    let previous_max_id = store.largest_id();
    assert_eq!(post_entry(&mut store, Some(entry(0, "Morgan vs. Luffy!"))), "Success!");
    let listed = get_entries(&store, 0);
    assert_eq!(listed.len(), 4);
    assert_eq!(listed[3].id, previous_max_id + 1);
    assert_eq!(listed[3].id, 6);
    assert_eq!(listed[3].name, "Morgan vs. Luffy!");
}

#[test]
fn post_without_a_record_is_an_error() {
    let mut store = seeded(&[1]);
    assert_eq!(post_entry(&mut store, None), "Error");
    assert_eq!(ids(&store), vec![1]);
}

#[test]
fn list_is_capped_by_a_limit_above_zero() {
    let store = seeded(&[1, 2, 3]);
    assert_eq!(store.list(0).len(), 3);
    assert_eq!(store.list(2).len(), 2);
    assert_eq!(store.list(2)[1].id, 2);
    assert_eq!(store.list(3).len(), 3);
    assert_eq!(store.list(10).len(), 3);
    assert_eq!(get_entries(&store, 1)[0].id, 1);
}

#[test]
fn replace_puts_the_record_in_place() {
    let mut store = seeded(&[1, 2, 3]);
    assert_eq!(store.replace(entry(2, "other")), Ok(()));
    assert_eq!(ids(&store), vec![1, 2, 3]);
    assert_eq!(store.entries[1].name, "other");
    assert_eq!(store.entries[0].name, "name 1");
    assert_eq!(store.replace(entry(4, "none")), Err(StoreError::NotFound));
    assert_eq!(store.len(), 3);
}

#[test]
fn put_answers_success_or_error() {
    let mut store = seeded(&[1, 2, 3]);
    assert_eq!(put_entry(&mut store, Some(entry(1, "updated"))), "Success!");
    assert_eq!(store.entries[0].name, "updated");
    assert_eq!(put_entry(&mut store, Some(entry(9, "updated"))), "Error");
    assert_eq!(put_entry(&mut store, None), "Error");
    assert_eq!(ids(&store), vec![1, 2, 3]);
}

#[test]
fn patch_changes_the_name_only() {
    let mut store = seeded(&[1, 2, 3]);
    assert_eq!(store.patch_name(2, "Pirate King Luffy".to_string()), Ok(()));
    assert_eq!(store.entries[1].name, "Pirate King Luffy");
    assert_eq!(store.entries[1].id, 2);
    assert_eq!(store.entries[1].total_votes, "428");
    assert_eq!(store.entries[0].name, "name 1");
    assert_eq!(store.patch_name(8, "x".to_string()), Err(StoreError::NotFound));
}

#[test]
fn patch_twice_is_patch_once() {
    let mut store = seeded(&[1, 2, 3]);
    let patch = || Some(NamePatch { id: 1, name: "X".to_string() });
    assert_eq!(patch_entry_name(&mut store, patch()), "Success");
    assert_eq!(patch_entry_name(&mut store, patch()), "Success");
    assert_eq!(ids(&store), vec![1, 2, 3]);
    let with_id_one: Vec<&Entry> = store.entries.iter().filter(|e| e.id == 1).collect();
    assert_eq!(with_id_one.len(), 1);
    assert_eq!(with_id_one[0].name, "X");
}

#[test]
fn patch_answers_for_each_failure() {
    let mut store = seeded(&[1]);
    assert_eq!(
        patch_entry_name(&mut store, Some(NamePatch { id: 2, name: "X".to_string() })),
        "Character not found"
    );
    assert_eq!(patch_entry_name(&mut store, None), "Format not valid");
    assert_eq!(store.entries[0].name, "name 1");
}

#[test]
fn delete_then_delete_again() {
    let mut store = seeded(&[1, 2, 3]);
    assert_eq!(delete_entry(&mut store, Some(2)), "Success!");
    assert_eq!(ids(&store), vec![1, 3]);
    assert_eq!(delete_entry(&mut store, Some(2)), "Error");
    assert_eq!(ids(&store), vec![1, 3]);
    assert_eq!(delete_entry(&mut store, None), "Error");
}

#[test]
fn delete_takes_the_first_of_equal_ids() {
    let mut store = EntryStore { entries: vec![entry(5, "a"), entry(5, "b")] };
    assert_eq!(store.position(5), 0);
    assert_eq!(store.delete(5), Ok(()));
    assert_eq!(store.entries[0].name, "b");
    assert_eq!(store.delete(6), Err(StoreError::NotFound));
    assert_eq!(store.position(6), 1);
}

#[test]
fn success_texts_report_that_the_store_changed() {
    assert!(took_place("Success!"));
    assert!(took_place("Success"));
    assert!(!took_place("Error"));
    assert!(!took_place("Character not found"));
    assert!(!took_place("Format not valid"));
}

#[test]
fn clone_keeps_every_field() {
    let record = entry(3, "Luffy's Past!");
    let copy = record.clone();
    assert_eq!(copy.id, 3);
    assert_eq!(copy.rank, record.rank);
    assert_eq!(copy.trend, record.trend);
    assert_eq!(copy.season, record.season);
    assert_eq!(copy.episode, record.episode);
    assert_eq!(copy.name, "Luffy's Past!");
    assert_eq!(copy.start, record.start);
    assert_eq!(copy.total_votes, record.total_votes);
    assert_eq!(copy.average_rating_bits, record.average_rating_bits);
}
