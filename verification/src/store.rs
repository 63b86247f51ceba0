//! The entry store: an ordered list of records with the five operations that
//! the request handlers need. The store is held in memory; reading it from
//! and writing it to its file is left to the caller.

use vstd::prelude::*;
use vstd::string::*;

verus! {

/// One record of the store.
#[derive(Debug)]
pub struct Entry {
    pub id: usize,
    pub rank: String,
    pub trend: String,
    pub season: u32,
    pub episode: u32,
    pub name: String,
    pub start: u32,
    pub total_votes: String,
    /// The bit pattern of the single-precision average rating.
    pub average_rating_bits: u32,
}

/// What an `Entry` stands for in contracts.
pub struct EntryModel {
    pub id: usize,
    pub rank: Seq<char>,
    pub trend: Seq<char>,
    pub season: u32,
    pub episode: u32,
    pub name: Seq<char>,
    pub start: u32,
    pub total_votes: Seq<char>,
    pub average_rating_bits: u32,
}

impl View for Entry {
    type V = EntryModel;

    open spec fn view(&self) -> EntryModel {
        EntryModel {
            id: self.id,
            rank: self.rank@,
            trend: self.trend@,
            season: self.season,
            episode: self.episode,
            name: self.name@,
            start: self.start,
            total_votes: self.total_votes@,
            average_rating_bits: self.average_rating_bits,
        }
    }
}

impl Clone for Entry {
    fn clone(&self) -> (copy: Entry)
        ensures
            copy@ == self@,
    {
        Entry {
            id: self.id,
            rank: self.rank.clone(),
            trend: self.trend.clone(),
            season: self.season,
            episode: self.episode,
            name: self.name.clone(),
            start: self.start,
            total_votes: self.total_votes.clone(),
            average_rating_bits: self.average_rating_bits,
        }
    }
}

/// Why the store refused an operation.
#[derive(Clone, Copy, Debug, PartialEq, Eq, Structural)]
pub enum StoreError {
    /// No record has the id that was asked for.
    NotFound,
    /// The largest id is the largest number, so no next id exists.
    IdsExhausted,
}

/// What a list of entries stands for in contracts.
pub open spec fn models(entries: Seq<Entry>) -> Seq<EntryModel> {
    entries.map_values(|entry: Entry| entry@)
}

/// The largest id among the records, and zero where there is none.
pub open spec fn max_id(records: Seq<EntryModel>) -> int
    decreases records.len(),
{
    if records.len() == 0 {
        0
    } else if records.last().id > max_id(records.drop_last()) {
        records.last().id as int
    } else {
        max_id(records.drop_last())
    }
}

/// The first index at or after `from` whose record has the id `id`, or the
/// number of records when none has it.
pub open spec fn find_id(records: Seq<EntryModel>, id: usize, from: int) -> int
    decreases records.len() - from,
{
    if 0 <= from < records.len() && records[from].id != id {
        find_id(records, id, from + 1)
    } else {
        from
    }
}

/// Whether some record has the id `id`.
pub open spec fn has_id(records: Seq<EntryModel>, id: usize) -> bool {
    find_id(records, id, 0) < records.len()
}

/// Whether no id is held by two records.
pub open spec fn distinct_ids(records: Seq<EntryModel>) -> bool {
    forall|i: int, j: int|
        0 <= i < j < records.len() ==> (#[trigger] records[i]).id != (#[trigger] records[j]).id
}

/// The records that a listing with the cap `limit` shows: all of them for
/// zero, else the first `limit` at most.
pub open spec fn listing(records: Seq<EntryModel>, limit: nat) -> Seq<EntryModel> {
    if limit == 0 || limit >= records.len() {
        records
    } else {
        records.take(limit as int)
    }
}

/// The record as it is stored when appended: under the next id.
pub open spec fn renumbered(records: Seq<EntryModel>, record: EntryModel) -> EntryModel {
    EntryModel { id: (max_id(records) + 1) as usize, ..record }
}

/// The records after `record` was appended under the next id.
pub open spec fn appended(records: Seq<EntryModel>, record: EntryModel) -> Result<
    Seq<EntryModel>,
    StoreError,
> {
    if max_id(records) < usize::MAX {
        Ok(records.push(renumbered(records, record)))
    } else {
        Err(StoreError::IdsExhausted)
    }
}

/// The records after the first one with the id of `record` gave way to it.
pub open spec fn replaced(records: Seq<EntryModel>, record: EntryModel) -> Result<
    Seq<EntryModel>,
    StoreError,
> {
    if has_id(records, record.id) {
        Ok(records.update(find_id(records, record.id, 0), record))
    } else {
        Err(StoreError::NotFound)
    }
}

/// The records after the first one with the id `id` took the name `name`.
pub open spec fn renamed(records: Seq<EntryModel>, id: usize, name: Seq<char>) -> Result<
    Seq<EntryModel>,
    StoreError,
> {
    if has_id(records, id) {
        let at = find_id(records, id, 0);
        Ok(records.update(at, EntryModel { name: name, ..records[at] }))
    } else {
        Err(StoreError::NotFound)
    }
}

/// The records after the first one with the id `id` was taken out.
pub open spec fn deleted(records: Seq<EntryModel>, id: usize) -> Result<
    Seq<EntryModel>,
    StoreError,
> {
    if has_id(records, id) {
        Ok(records.remove(find_id(records, id, 0)))
    } else {
        Err(StoreError::NotFound)
    }
}

/// The search for an id stays inside the records and stops at the first
/// record that has the id.
pub proof fn lemma_find_id(records: Seq<EntryModel>, id: usize, from: int)
    requires
        0 <= from <= records.len(),
    ensures
        from <= find_id(records, id, from) <= records.len(),
        find_id(records, id, from) < records.len() ==> records[find_id(records, id, from)].id
            == id,
        forall|i: int| from <= i < find_id(records, id, from) ==> (#[trigger] records[i]).id != id,
    decreases records.len() - from,
{
    if from < records.len() && records[from].id != id {
        lemma_find_id(records, id, from + 1);
    }
}

/// No record has an id above the largest id.
pub proof fn lemma_max_id(records: Seq<EntryModel>)
    ensures
        0 <= max_id(records) <= usize::MAX,
        forall|i: int| 0 <= i < records.len() ==> (#[trigger] records[i]).id <= max_id(records),
    decreases records.len(),
{
    if records.len() > 0 {
        lemma_max_id(records.drop_last());
        assert forall|i: int| 0 <= i < records.len() implies (#[trigger] records[i]).id <= max_id(
            records,
        ) by {
            if i < records.len() - 1 {
                assert(records.drop_last()[i].id <= max_id(records.drop_last()));
            }
        }
    }
}

/// The search for an id looks at ids alone: two lists with the same ids in
/// the same places give the same place.
pub proof fn lemma_find_id_by_ids(
    left: Seq<EntryModel>,
    right: Seq<EntryModel>,
    id: usize,
    from: int,
)
    requires
        0 <= from <= left.len(),
        left.len() == right.len(),
        forall|i: int| 0 <= i < left.len() ==> (#[trigger] left[i]).id == right[i].id,
    ensures
        find_id(left, id, from) == find_id(right, id, from),
    decreases left.len() - from,
{
    if from < left.len() {
        assert(left[from].id == right[from].id);
        if left[from].id != id {
            lemma_find_id_by_ids(left, right, id, from + 1);
        }
    }
}

/// Where no record has the id, the search ends at the number of records.
pub proof fn lemma_find_id_absent(records: Seq<EntryModel>, id: usize, from: int)
    requires
        0 <= from <= records.len(),
        forall|i: int| from <= i < records.len() ==> (#[trigger] records[i]).id != id,
    ensures
        find_id(records, id, from) == records.len(),
    decreases records.len() - from,
{
    if from < records.len() {
        assert(records[from].id != id);
        lemma_find_id_absent(records, id, from + 1);
    }
}

/// Renaming is idempotent: the same patch applied a second time succeeds
/// and changes nothing. It never adds or drops a record, nor changes an id,
/// so a store with one record of that id still has exactly one, under the
/// new name.
pub proof fn law_patch_name_idempotent(records: Seq<EntryModel>, id: usize, name: Seq<char>)
    requires
        has_id(records, id),
    ensures
        renamed(records, id, name) is Ok,
        renamed(renamed(records, id, name)->Ok_0, id, name) == renamed(records, id, name),
        renamed(records, id, name)->Ok_0.len() == records.len(),
        forall|i: int|
            0 <= i < records.len() ==> (#[trigger] renamed(records, id, name)->Ok_0[i]).id
                == records[i].id,
        renamed(records, id, name)->Ok_0[find_id(records, id, 0)].name == name,
        distinct_ids(records) ==> distinct_ids(renamed(records, id, name)->Ok_0),
{
    let at = find_id(records, id, 0);
    let once = renamed(records, id, name)->Ok_0;
    lemma_find_id(records, id, 0);
    lemma_find_id_by_ids(once, records, id, 0);
    assert(once.update(at, EntryModel { name: name, ..once[at] }) =~= once);
    if distinct_ids(records) {
        assert forall|i: int, j: int| 0 <= i < j < once.len() implies (#[trigger] once[i]).id != (
        #[trigger] once[j]).id by {
            assert(records[i].id != records[j].id);
        }
    }
}

/// A record that was appended is the last one that an uncapped listing
/// shows, under an id one above the largest id that the store held before;
/// the records before it are unchanged, and ids stay distinct.
pub proof fn law_append_then_list(records: Seq<EntryModel>, record: EntryModel)
    requires
        max_id(records) < usize::MAX,
    ensures
        appended(records, record) is Ok,
        listing(appended(records, record)->Ok_0, 0).len() == records.len() + 1,
        listing(appended(records, record)->Ok_0, 0).last() == renumbered(records, record),
        listing(appended(records, record)->Ok_0, 0).last().id == max_id(records) + 1,
        listing(appended(records, record)->Ok_0, 0).drop_last() == records,
        distinct_ids(records) ==> distinct_ids(appended(records, record)->Ok_0),
{
    let after = appended(records, record)->Ok_0;
    lemma_max_id(records);
    assert(after.drop_last() =~= records);
    if distinct_ids(records) {
        assert forall|i: int, j: int| 0 <= i < j < after.len() implies (#[trigger] after[i]).id != (
        #[trigger] after[j]).id by {
            if j < records.len() {
                assert(records[i].id != records[j].id);
            } else {
                assert(records[i].id <= max_id(records));
            }
        }
    }
}

/// In a store with distinct ids, a record that was deleted is gone: the
/// other records stay in their order, and deleting the same id again finds
/// nothing.
pub proof fn law_delete_twice(records: Seq<EntryModel>, id: usize)
    requires
        distinct_ids(records),
        has_id(records, id),
    ensures
        deleted(records, id) is Ok,
        deleted(records, id)->Ok_0 == records.remove(find_id(records, id, 0)),
        !has_id(deleted(records, id)->Ok_0, id),
        deleted(deleted(records, id)->Ok_0, id) == Err::<Seq<EntryModel>, StoreError>(
            StoreError::NotFound,
        ),
        distinct_ids(deleted(records, id)->Ok_0),
{
    let at = find_id(records, id, 0);
    let after = records.remove(at);
    lemma_find_id(records, id, 0);
    assert forall|i: int| 0 <= i < after.len() implies (#[trigger] after[i]).id != id by {
        if i < at {
            assert(records[i].id != records[at].id);
        } else {
            assert(after[i] == records[i + 1]);
            assert(records[at].id != records[i + 1].id);
        }
    }
    lemma_find_id_absent(after, id, 0);
    assert forall|i: int, j: int| 0 <= i < j < after.len() implies (#[trigger] after[i]).id != (
    #[trigger] after[j]).id by {
        let i0 = if i < at { i } else { i + 1 };
        let j0 = if j < at { j } else { j + 1 };
        assert(after[i] == records[i0]);
        assert(after[j] == records[j0]);
        assert(records[i0].id != records[j0].id);
    }
}

/// The store: its records in the order in which they are kept.
pub struct EntryStore {
    pub entries: Vec<Entry>,
}

impl View for EntryStore {
    type V = Seq<EntryModel>;

    open spec fn view(&self) -> Seq<EntryModel> {
        models(self.entries@)
    }
}

impl EntryStore {
    /// A store without records.
    pub fn new() -> (store: EntryStore)
        ensures
            store@ == Seq::<EntryModel>::empty(),
    {
        let store = EntryStore { entries: Vec::new() };
        assert(store@ =~= Seq::<EntryModel>::empty());
        store
    }

    /// The number of records.
    pub fn len(&self) -> (count: usize)
        ensures
            count == self@.len(),
    {
        self.entries.len()
    }

    /// The largest id among the records, and zero where there is none.
    pub fn largest_id(&self) -> (id: usize)
        ensures
            id == max_id(self@),
    {
        let mut id: usize = 0;
        let mut at: usize = 0;
        while at < self.entries.len()
            invariant
                at <= self.entries.len(),
                id == max_id(self@.take(at as int)),
            decreases self.entries.len() - at,
        {
            assert(self@.take(at + 1).drop_last() =~= self@.take(at as int));
            if self.entries[at].id > id {
                id = self.entries[at].id;
            }
            at += 1;
        }
        assert(self@.take(at as int) =~= self@);
        id
    }

    /// The place of the first record with the id `id`, or the number of
    /// records when none has it.
    pub fn position(&self, id: usize) -> (at: usize)
        ensures
            at == find_id(self@, id, 0),
            at <= self@.len(),
    {
        let mut at: usize = 0;
        while at < self.entries.len() && self.entries[at].id != id
            invariant
                at <= self.entries.len(),
                find_id(self@, id, 0) == find_id(self@, id, at as int),
            decreases self.entries.len() - at,
        {
            at += 1;
        }
        at
    }

    /// The records to show: all of them when `limit` is zero, else the
    /// first `limit` at most.
    pub fn list(&self, limit: usize) -> (listed: Vec<Entry>)
        ensures
            models(listed@) == listing(self@, limit as nat),
    {
        let count = if limit == 0 || limit >= self.entries.len() {
            self.entries.len()
        } else {
            limit
        };
        let mut listed: Vec<Entry> = Vec::new();
        let mut at: usize = 0;
        while at < count
            invariant
                at <= count <= self.entries.len(),
                listed@.len() == at,
                models(listed@) == self@.take(at as int),
            decreases count - at,
        {
            let entry = self.entries[at].clone();
            let ghost before = listed@;
            listed.push(entry);
            assert forall|i: int| 0 <= i < at + 1 implies models(listed@)[i] == self@.take(
                at + 1,
            )[i] by {
                if i < at {
                    assert(models(before)[i] == self@.take(at as int)[i]);
                }
            }
            assert(models(listed@) =~= self@.take(at + 1));
            at += 1;
        }
        assert(self@.take(self@.len() as int) =~= self@);
        listed
    }

    /// Appends `record` under the next id, which is one more than the
    /// largest id in the store; the id that `record` came with is dropped.
    pub fn append(&mut self, record: Entry) -> (done: Result<(), StoreError>)
        ensures
            match done {
                Ok(()) => appended(old(self)@, record@) == Ok::<Seq<EntryModel>, StoreError>(
                    final(self)@,
                ),
                Err(error) => appended(old(self)@, record@) == Err::<Seq<EntryModel>, StoreError>(
                    error,
                ) && final(self)@ == old(self)@,
            },
    {
        let largest = self.largest_id();
        if largest == usize::MAX {
            return Err(StoreError::IdsExhausted);
        }
        let mut record = record;
        record.id = largest + 1;
        self.entries.push(record);
        assert(self@ =~= old(self)@.push(record@));
        Ok(())
    }

    /// Puts `record` in the place of the first record that has its id.
    pub fn replace(&mut self, record: Entry) -> (done: Result<(), StoreError>)
        ensures
            match done {
                Ok(()) => replaced(old(self)@, record@) == Ok::<Seq<EntryModel>, StoreError>(
                    final(self)@,
                ),
                Err(error) => replaced(old(self)@, record@) == Err::<Seq<EntryModel>, StoreError>(
                    error,
                ) && final(self)@ == old(self)@,
            },
    {
        let at = self.position(record.id);
        if at == self.entries.len() {
            return Err(StoreError::NotFound);
        }
        let ghost model = record@;
        self.entries.set(at, record);
        assert(self@ =~= old(self)@.update(at as int, model));
        Ok(())
    }

    /// Gives the first record with the id `id` the name `name`.
    pub fn patch_name(&mut self, id: usize, name: String) -> (done: Result<(), StoreError>)
        ensures
            match done {
                Ok(()) => renamed(old(self)@, id, name@) == Ok::<Seq<EntryModel>, StoreError>(
                    final(self)@,
                ),
                Err(error) => renamed(old(self)@, id, name@) == Err::<Seq<EntryModel>, StoreError>(
                    error,
                ) && final(self)@ == old(self)@,
            },
    {
        let at = self.position(id);
        if at == self.entries.len() {
            return Err(StoreError::NotFound);
        }
        let mut record = self.entries[at].clone();
        record.name = name;
        let ghost model = record@;
        self.entries.set(at, record);
        assert(self@ =~= old(self)@.update(at as int, model));
        Ok(())
    }

    /// Takes out the first record with the id `id`.
    pub fn delete(&mut self, id: usize) -> (done: Result<(), StoreError>)
        ensures
            match done {
                Ok(()) => deleted(old(self)@, id) == Ok::<Seq<EntryModel>, StoreError>(
                    final(self)@,
                ),
                Err(error) => deleted(old(self)@, id) == Err::<Seq<EntryModel>, StoreError>(error)
                    && final(self)@ == old(self)@,
            },
    {
        let at = self.position(id);
        if at == self.entries.len() {
            return Err(StoreError::NotFound);
        }
        self.entries.remove(at);
        assert(self@ =~= old(self)@.remove(at as int));
        Ok(())
    }
}

} // verus!
