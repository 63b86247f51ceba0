//! The five operations on the entry store as the request handlers see them:
//! each takes what was decoded from a request body, `None` where the body
//! could not be decoded, and answers with a short text.

use crate::store::{
    appended, deleted, listing, models, renamed, replaced, Entry, EntryModel, EntryStore,
};
use crate::text::str_eq;
use vstd::prelude::*;
use vstd::string::*;

verus! {

/// A request to rename one record.
#[derive(Debug)]
pub struct NamePatch {
    pub id: usize,
    pub name: String,
}

/// What a `NamePatch` stands for in contracts.
pub struct NamePatchModel {
    pub id: usize,
    pub name: Seq<char>,
}

impl View for NamePatch {
    type V = NamePatchModel;

    open spec fn view(&self) -> NamePatchModel {
        NamePatchModel { id: self.id, name: self.name@ }
    }
}

/// What an operation on the store comes to: the records afterwards and the
/// text that answers the request.
pub struct Outcome {
    pub records: Seq<EntryModel>,
    pub text: Seq<char>,
    /// Whether the operation took place.
    pub done: bool,
}

/// What a decoded record stands for in contracts.
pub open spec fn entry_of(record: Option<Entry>) -> Option<EntryModel> {
    match record {
        Some(entry) => Some(entry@),
        None => None,
    }
}

/// What a decoded patch stands for in contracts.
pub open spec fn patch_of(patch: Option<NamePatch>) -> Option<NamePatchModel> {
    match patch {
        Some(change) => Some(change@),
        None => None,
    }
}

/// Whether an answer text reports that the operation took place.
pub open spec fn reports_success(text: Seq<char>) -> bool {
    text == "Success!"@ || text == "Success"@
}

/// Appending a decoded record.
pub open spec fn posted(records: Seq<EntryModel>, record: Option<EntryModel>) -> Outcome {
    match record {
        Some(entry) => match appended(records, entry) {
            Ok(after) => Outcome { records: after, text: "Success!"@, done: true },
            Err(_) => Outcome { records: records, text: "Error"@, done: false },
        },
        None => Outcome { records: records, text: "Error"@, done: false },
    }
}

/// Replacing the record that has the id of a decoded record.
pub open spec fn put(records: Seq<EntryModel>, record: Option<EntryModel>) -> Outcome {
    match record {
        Some(entry) => match replaced(records, entry) {
            Ok(after) => Outcome { records: after, text: "Success!"@, done: true },
            Err(_) => Outcome { records: records, text: "Error"@, done: false },
        },
        None => Outcome { records: records, text: "Error"@, done: false },
    }
}

/// Renaming the record that a decoded patch names.
pub open spec fn patched(records: Seq<EntryModel>, patch: Option<NamePatchModel>) -> Outcome {
    match patch {
        Some(change) => match renamed(records, change.id, change.name) {
            Ok(after) => Outcome { records: after, text: "Success"@, done: true },
            Err(_) => Outcome { records: records, text: "Character not found"@, done: false },
        },
        None => Outcome { records: records, text: "Format not valid"@, done: false },
    }
}

/// Deleting the record that has a decoded id.
pub open spec fn removed(records: Seq<EntryModel>, id: Option<usize>) -> Outcome {
    match id {
        Some(wanted) => match deleted(records, wanted) {
            Ok(after) => Outcome { records: after, text: "Success!"@, done: true },
            Err(_) => Outcome { records: records, text: "Error"@, done: false },
        },
        None => Outcome { records: records, text: "Error"@, done: false },
    }
}

/// The answer texts of a failure are none of the texts of a success.
pub proof fn lemma_answer_texts()
    ensures
        !reports_success("Error"@),
        !reports_success("Character not found"@),
        !reports_success("Format not valid"@),
{
    reveal_strlit("Success!");
    reveal_strlit("Success");
    reveal_strlit("Error");
    reveal_strlit("Character not found");
    reveal_strlit("Format not valid");
    assert("Success!"@.len() == 8);
    assert("Success"@.len() == 7);
    assert("Error"@.len() == 5);
    assert("Character not found"@.len() == 19);
    assert("Format not valid"@.len() == 16);
}

/// Whether an answer text reports that the operation took place.
pub fn took_place(text: &str) -> (done: bool)
    ensures
        done == reports_success(text@),
{
    str_eq(text, "Success!") || str_eq(text, "Success")
}

/// The records to show: all of them when `limit` is zero, else the first
/// `limit` at most.
pub fn get_entries(store: &EntryStore, limit: usize) -> (listed: Vec<Entry>)
    ensures
        models(listed@) == listing(store@, limit as nat),
{
    store.list(limit)
}

/// Appends a decoded record under the next id.
pub fn post_entry(store: &mut EntryStore, record: Option<Entry>) -> (text: &'static str)
    ensures
        posted(old(store)@, entry_of(record)).records == final(store)@,
        posted(old(store)@, entry_of(record)).text == text@,
        posted(old(store)@, entry_of(record)).done == reports_success(text@),
{
    proof {
        lemma_answer_texts();
    }
    match record {
        Some(entry) => match store.append(entry) {
            Ok(()) => "Success!",
            Err(_) => "Error",
        },
        None => "Error",
    }
}

/// Puts a decoded record in the place of the record that has its id.
pub fn put_entry(store: &mut EntryStore, record: Option<Entry>) -> (text: &'static str)
    ensures
        put(old(store)@, entry_of(record)).records == final(store)@,
        put(old(store)@, entry_of(record)).text == text@,
        put(old(store)@, entry_of(record)).done == reports_success(text@),
{
    proof {
        lemma_answer_texts();
    }
    match record {
        Some(entry) => match store.replace(entry) {
            Ok(()) => "Success!",
            Err(_) => "Error",
        },
        None => "Error",
    }
}

/// Renames the record that a decoded patch names.
pub fn patch_entry_name(store: &mut EntryStore, patch: Option<NamePatch>) -> (text: &'static str)
    ensures
        patched(old(store)@, patch_of(patch)).records == final(store)@,
        patched(old(store)@, patch_of(patch)).text == text@,
        patched(old(store)@, patch_of(patch)).done == reports_success(text@),
{
    proof {
        lemma_answer_texts();
    }
    match patch {
        Some(change) => match store.patch_name(change.id, change.name) {
            Ok(()) => "Success",
            Err(_) => "Character not found",
        },
        None => "Format not valid",
    }
}

/// Deletes the record that has a decoded id.
pub fn delete_entry(store: &mut EntryStore, id: Option<usize>) -> (text: &'static str)
    ensures
        removed(old(store)@, id).records == final(store)@,
        removed(old(store)@, id).text == text@,
        removed(old(store)@, id).done == reports_success(text@),
{
    proof {
        lemma_answer_texts();
    }
    match id {
        Some(wanted) => match store.delete(wanted) {
            Ok(()) => "Success!",
            Err(_) => "Error",
        },
        None => "Error",
    }
}

} // verus!
