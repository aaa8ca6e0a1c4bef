//! The registry of live connections: at most one execution unit under each
//! identifier.
//!
//! The registry is a plain value. Whoever shares it between concurrent
//! callers puts it behind one lock, holds the lock for a single operation
//! and clones the unit out before any database work.

use crate::error::{DaoError, DaoErrorView};
use vstd::pervasive::cloned;
use vstd::prelude::*;

verus! {

struct Entry<T> {
    id: String,
    unit: T,
}

/// The mapping from connection identifiers to the units registered under
/// them.
pub struct Registry<T> {
    entries: Vec<Entry<T>>,
}

/// The identifiers of `entries`, in the order stored.
spec fn ids<T>(entries: Seq<Entry<T>>) -> Seq<Seq<char>> {
    entries.map_values(|entry: Entry<T>| entry.id@)
}

/// The mapping that `entries` stand for.
spec fn mapping<T>(entries: Seq<Entry<T>>) -> Map<Seq<char>, T> {
    Map::new(
        |id: Seq<char>| ids(entries).contains(id),
        |id: Seq<char>| entries[ids(entries).index_of(id)].unit,
    )
}

/// With distinct identifiers, each entry is what the mapping holds under its
/// identifier.
proof fn lemma_entry_is_mapped<T>(entries: Seq<Entry<T>>, at: int)
    requires
        ids(entries).no_duplicates(),
        0 <= at < entries.len(),
    ensures
        mapping(entries).contains_key(entries[at].id@),
        mapping(entries)[entries[at].id@] == entries[at].unit,
{
    let keys = ids(entries);
    assert(keys[at] == entries[at].id@);
    assert(keys.index_of(keys[at]) == at);
}

/// Replacing the unit of an entry replaces it in the mapping.
proof fn lemma_replace<T>(entries: Seq<Entry<T>>, at: int, entry: Entry<T>)
    requires
        ids(entries).no_duplicates(),
        0 <= at < entries.len(),
        entry.id@ == entries[at].id@,
    ensures
        ids(entries.update(at, entry)) == ids(entries),
        mapping(entries.update(at, entry)) == mapping(entries).insert(entry.id@, entry.unit),
{
    let after = entries.update(at, entry);
    assert(ids(after) =~= ids(entries));
    lemma_entry_is_mapped(entries, at);
    assert forall|id: Seq<char>| #[trigger] mapping(after).contains_key(id) implies mapping(after)[id]
        == mapping(entries).insert(entry.id@, entry.unit)[id] by {
        let found = ids(after).index_of(id);
        lemma_entry_is_mapped(after, found);
        if id != entry.id@ {
            lemma_entry_is_mapped(entries, found);
        } else {
            lemma_entry_is_mapped(after, at);
        }
    }
}

/// Appending an entry under a new identifier adds it to the mapping.
proof fn lemma_append<T>(entries: Seq<Entry<T>>, entry: Entry<T>)
    requires
        ids(entries).no_duplicates(),
        !ids(entries).contains(entry.id@),
    ensures
        ids(entries.push(entry)).no_duplicates(),
        mapping(entries.push(entry)) == mapping(entries).insert(entry.id@, entry.unit),
{
    let after = entries.push(entry);
    assert(ids(after) =~= ids(entries).push(entry.id@));
    assert forall|id: Seq<char>| #[trigger] mapping(after).contains_key(id) implies mapping(after)[id]
        == mapping(entries).insert(entry.id@, entry.unit)[id] by {
        let found = ids(after).index_of(id);
        lemma_entry_is_mapped(after, found);
        if found < entries.len() {
            lemma_entry_is_mapped(entries, found);
        }
    }
    assert forall|id: Seq<char>|
        mapping(entries).insert(entry.id@, entry.unit).contains_key(id) implies #[trigger] mapping(
        after,
    ).contains_key(id) by {
        if id == entry.id@ {
            assert(ids(after)[entries.len() as int] == id);
        } else {
            let found = ids(entries).index_of(id);
            assert(ids(after)[found] == id);
        }
    }
}

/// Taking an entry out takes its identifier out of the mapping.
proof fn lemma_take_out<T>(entries: Seq<Entry<T>>, at: int)
    requires
        ids(entries).no_duplicates(),
        0 <= at < entries.len(),
    ensures
        ids(entries.remove(at)).no_duplicates(),
        mapping(entries.remove(at)) == mapping(entries).remove(entries[at].id@),
{
    let after = entries.remove(at);
    let gone = entries[at].id@;
    assert forall|i: int, j: int| 0 <= i < after.len() && 0 <= j < after.len() && i != j implies ids(
        after,
    )[i] != ids(after)[j] by {
        let before_i = if i < at { i } else { i + 1 };
        let before_j = if j < at { j } else { j + 1 };
        assert(ids(after)[i] == ids(entries)[before_i]);
        assert(ids(after)[j] == ids(entries)[before_j]);
    }
    assert forall|id: Seq<char>| #[trigger] mapping(after).contains_key(id) implies mapping(
        entries,
    ).remove(gone).contains_key(id) && mapping(after)[id] == mapping(entries).remove(gone)[id] by {
        let found = ids(after).index_of(id);
        lemma_entry_is_mapped(after, found);
        let before = if found < at { found } else { found + 1 };
        assert(ids(entries)[before] == id);
        assert(ids(entries)[at] == gone);
        lemma_entry_is_mapped(entries, before);
    }
    assert forall|id: Seq<char>| mapping(entries).remove(gone).contains_key(id) implies #[trigger] mapping(
        after,
    ).contains_key(id) by {
        let found = ids(entries).index_of(id);
        let later = if found < at { found } else { found - 1 };
        assert(ids(after)[later] == id);
    }
}

impl<T> View for Registry<T> {
    type V = Map<Seq<char>, T>;

    /// The unit registered under each identifier.
    closed spec fn view(&self) -> Map<Seq<char>, T> {
        mapping(self.entries@)
    }
}

impl<T> Registry<T> {
    #[verifier::type_invariant]
    spec fn distinct_ids(&self) -> bool {
        ids(self.entries@).no_duplicates()
    }

    /// A registry without connections.
    pub fn new() -> (registry: Registry<T>)
        ensures
            registry@ == Map::<Seq<char>, T>::empty(),
    {
        Registry { entries: Vec::new() }
    }

    /// Where the entry under `id` is stored, if there is one.
    fn position(&self, id: &String) -> (found: Option<usize>)
        ensures
            match found {
                Some(at) => at < self.entries.len() && self.entries[at as int].id@ == id@,
                None => !ids(self.entries@).contains(id@),
            },
    {
        let mut at: usize = 0;
        while at < self.entries.len()
            invariant
                at <= self.entries.len(),
                forall|j: int| 0 <= j < at ==> self.entries[j].id@ != id@,
            decreases self.entries.len() - at,
        {
            if self.entries[at].id == *id {
                return Some(at);
            }
            at += 1;
        }
        None
    }

    /// The unit registered under `id`, or `None` where there is none. A
    /// missing identifier is an expected condition, not a failure of the
    /// registry.
    pub fn get(&self, id: &str) -> (found: Option<&T>)
        ensures
            match found {
                Some(unit) => self@.contains_key(id@) && self@[id@] == *unit,
                None => !self@.contains_key(id@),
            },
    {
        proof {
            use_type_invariant(self);
        }
        let key = id.to_owned();
        match self.position(&key) {
            Some(at) => {
                proof {
                    lemma_entry_is_mapped(self.entries@, at as int);
                }
                Some(&self.entries[at].unit)
            },
            None => None,
        }
    }

    /// The unit registered under `id`, or the error that names the
    /// identifier a caller asked for in vain.
    pub fn resolve(&self, id: &str) -> (found: Result<&T, DaoError>)
        ensures
            match found {
                Ok(unit) => self@.contains_key(id@) && self@[id@] == *unit,
                Err(error) => !self@.contains_key(id@) && error@ == (DaoErrorView::IdentifierNotFound {
                    id: id@,
                }),
            },
    {
        match self.get(id) {
            Some(unit) => Ok(unit),
            None => Err(DaoError::IdentifierNotFound { id: id.to_owned() }),
        }
    }

    /// A handle of the caller's own on the unit registered under `id`: a
    /// clone of it, to work with once the registry has been let go.
    pub fn checkout(&self, id: &str) -> (found: Result<T, DaoError>) where T: Clone
        ensures
            match found {
                Ok(unit) => self@.contains_key(id@) && cloned(self@[id@], unit),
                Err(error) => !self@.contains_key(id@) && error@ == (DaoErrorView::IdentifierNotFound {
                    id: id@,
                }),
            },
    {
        match self.resolve(id) {
            Ok(unit) => Ok(unit.clone()),
            Err(error) => Err(error),
        }
    }

    /// Registers `unit` under `id`. A unit registered there before is
    /// replaced and dropped: the registry no longer holds it anywhere.
    pub fn insert(&mut self, id: &str, unit: T)
        ensures
            final(self)@ == old(self)@.insert(id@, unit),
    {
        proof {
            use_type_invariant(&*self);
        }
        let key = id.to_owned();
        let found = self.position(&key);
        let entry = Entry { id: key, unit };
        let mut entries = Vec::new();
        std::mem::swap(&mut entries, &mut self.entries);
        match found {
            Some(at) => {
                proof {
                    lemma_replace(entries@, at as int, entry);
                }
                entries[at] = entry;
            },
            None => {
                proof {
                    lemma_append(entries@, entry);
                }
                entries.push(entry);
            },
        }
        self.entries = entries;
    }

    /// Deregisters `id` and drops the unit registered under it, if any.
    pub fn remove(&mut self, id: &str)
        ensures
            final(self)@ == old(self)@.remove(id@),
    {
        proof {
            use_type_invariant(&*self);
        }
        let key = id.to_owned();
        if let Some(at) = self.position(&key) {
            let mut entries = Vec::new();
            std::mem::swap(&mut entries, &mut self.entries);
            proof {
                lemma_take_out(entries@, at as int);
            }
            entries.remove(at);
            self.entries = entries;
        }
    }

    /// The number of live units, which is the number of registered
    /// identifiers.
    pub fn len(&self) -> (count: usize)
        ensures
            self@.dom().finite(),
            count == self@.dom().len(),
    {
        proof {
            use_type_invariant(self);
            ids(self.entries@).unique_seq_to_set();
        }
        self.entries.len()
    }
}

/// An operation that changes the registry, as a mathematical value.
pub enum RegistryOp<T> {
    Insert { id: Seq<char>, unit: T },
    Remove { id: Seq<char> },
}

impl<T> RegistryOp<T> {
    /// The identifier that the operation is about.
    pub open spec fn id(self) -> Seq<char> {
        match self {
            RegistryOp::Insert { id, .. } => id,
            RegistryOp::Remove { id } => id,
        }
    }

    /// The registry's mapping after the operation, as `insert` and `remove`
    /// leave it.
    pub open spec fn apply(self, state: Map<Seq<char>, T>) -> Map<Seq<char>, T> {
        match self {
            RegistryOp::Insert { id, unit } => state.insert(id, unit),
            RegistryOp::Remove { id } => state.remove(id),
        }
    }
}

/// The registry's mapping after the operations `ops`, applied in order to
/// `state`.
pub open spec fn after_all<T>(state: Map<Seq<char>, T>, ops: Seq<RegistryOp<T>>) -> Map<Seq<char>, T>
    decreases ops.len(),
{
    if ops.len() == 0 {
        state
    } else {
        ops.last().apply(after_all(state, ops.drop_last()))
    }
}

/// An identifier that was never inserted is absent, whatever else was done
/// to the registry since it was created.
pub proof fn never_inserted_is_absent<T>(ops: Seq<RegistryOp<T>>, id: Seq<char>)
    requires
        forall|i: int| 0 <= i < ops.len() ==> !(#[trigger] ops[i] is Insert && ops[i].id() == id),
    ensures
        !after_all(Map::<Seq<char>, T>::empty(), ops).contains_key(id),
    decreases ops.len(),
{
    if ops.len() > 0 {
        never_inserted_is_absent(ops.drop_last(), id);
    }
}

/// The last operation on an identifier decides what a lookup finds under
/// it: the unit of that insertion and no earlier one, or nothing after a
/// removal.
pub proof fn last_operation_decides<T>(state: Map<Seq<char>, T>, ops: Seq<RegistryOp<T>>, at: int)
    requires
        0 <= at < ops.len(),
        forall|j: int| at < j < ops.len() ==> (#[trigger] ops[j]).id() != ops[at].id(),
    ensures
        match ops[at] {
            RegistryOp::Insert { id, unit } => after_all(state, ops).contains_key(id) && after_all(
                state,
                ops,
            )[id] == unit,
            RegistryOp::Remove { id } => !after_all(state, ops).contains_key(id),
        },
    decreases ops.len(),
{
    if at < ops.len() - 1 {
        last_operation_decides(state, ops.drop_last(), at);
    }
}

/// Replacing the unit under an identifier leaves exactly one unit there,
/// the newer one, and does not add to the units that the registry holds.
pub proof fn replacement_keeps_one<T>(state: Map<Seq<char>, T>, id: Seq<char>, first: T, second: T)
    requires
        state.dom().finite(),
    ensures
        state.insert(id, first).insert(id, second) == state.insert(id, second),
        state.insert(id, first).insert(id, second)[id] == second,
        state.insert(id, first).insert(id, second).dom().len() == state.insert(id, first).dom().len(),
        state.insert(id, first).insert(id, second).dom().len() == if state.contains_key(id) {
            state.dom().len()
        } else {
            state.dom().len() + 1
        },
{
}

} // verus!
