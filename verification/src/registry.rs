//! The connection registry: a mapping from connection identifier to
//! presence record, mutated only through atomic-looking operations.
//!
//! Its abstract value is a finite map from identifier to record. Adding a
//! record whose identifier is already present is rejected with
//! [`RegistryError::DuplicateIdentifier`]; removing an absent identifier is
//! a no-op, never an error, and is idempotent (see
//! [`lemma_remove_idempotent`]).

use vstd::prelude::*;

verus! {

/// The registry's record that one connection is currently live.
#[derive(Debug, Clone, PartialEq, Eq)]
pub struct PresenceRecord {
    pub conn_id: u64,
    pub display_name: Vec<u8>,
    pub joined_at: u64,
}

/// The mathematical value of a [`PresenceRecord`].
pub ghost struct RecView {
    pub conn_id: u64,
    pub display_name: Seq<u8>,
    pub joined_at: u64,
}

impl View for PresenceRecord {
    type V = RecView;

    open spec fn view(&self) -> RecView {
        RecView {
            conn_id: self.conn_id,
            display_name: self.display_name@,
            joined_at: self.joined_at,
        }
    }
}

/// Why a registry operation was refused.
#[derive(Debug, Clone, Copy, PartialEq, Eq)]
pub enum RegistryError {
    /// An `add` named a connection identifier that is already present.
    DuplicateIdentifier,
}

/// The map a sequence of records stands for, later entries winning.
pub closed spec fn rec_map(s: Seq<PresenceRecord>) -> Map<u64, RecView>
    decreases s.len(),
{
    if s.len() == 0 {
        Map::empty()
    } else {
        rec_map(s.drop_last()).insert(s.last().conn_id, s.last()@)
    }
}

/// No two records of the sequence share a connection identifier.
pub open spec fn distinct_ids(s: Seq<PresenceRecord>) -> bool {
    forall|i: int, j: int| 0 <= i < j < s.len() ==> s[i].conn_id != s[j].conn_id
}

proof fn lemma_rec_map_contains(s: Seq<PresenceRecord>, id: u64)
    ensures
        rec_map(s).contains_key(id) <==> exists|i: int| 0 <= i < s.len() && s[i].conn_id == id,
    decreases s.len(),
{
    if s.len() > 0 {
        lemma_rec_map_contains(s.drop_last(), id);
        if s.last().conn_id == id {
            assert(s[s.len() - 1].conn_id == id);
        } else if rec_map(s).contains_key(id) {
            let i = choose|i: int| 0 <= i < s.drop_last().len() && s.drop_last()[i].conn_id == id;
            assert(s[i].conn_id == id);
        } else if exists|i: int| 0 <= i < s.len() && s[i].conn_id == id {
            let i = choose|i: int| 0 <= i < s.len() && s[i].conn_id == id;
            assert(i < s.len() - 1);
            assert(s.drop_last()[i].conn_id == id);
        }
    }
}

proof fn lemma_rec_map_get(s: Seq<PresenceRecord>, i: int)
    requires
        distinct_ids(s),
        0 <= i < s.len(),
    ensures
        rec_map(s).contains_key(s[i].conn_id),
        rec_map(s)[s[i].conn_id] == s[i]@,
    decreases s.len(),
{
    if i == s.len() - 1 {
    } else {
        assert(s.drop_last()[i] == s[i]);
        lemma_rec_map_get(s.drop_last(), i);
        assert(s[i].conn_id != s.last().conn_id);
    }
}

proof fn lemma_rec_map_len(s: Seq<PresenceRecord>)
    requires
        distinct_ids(s),
    ensures
        rec_map(s).dom().finite(),
        rec_map(s).dom().len() == s.len(),
    decreases s.len(),
{
    if s.len() > 0 {
        lemma_rec_map_len(s.drop_last());
        lemma_rec_map_contains(s.drop_last(), s.last().conn_id);
        assert(forall|i: int|
            0 <= i < s.drop_last().len() ==> s.drop_last()[i].conn_id != s.last().conn_id);
        assert(!rec_map(s.drop_last()).contains_key(s.last().conn_id));
    }
}

proof fn lemma_rec_map_remove_at(s: Seq<PresenceRecord>, i: int)
    requires
        distinct_ids(s),
        0 <= i < s.len(),
    ensures
        rec_map(s.remove(i)) == rec_map(s).remove(s[i].conn_id),
    decreases s.len(),
{
    let id = s[i].conn_id;
    if i == s.len() - 1 {
        lemma_rec_map_contains(s.drop_last(), id);
        assert(forall|j: int| 0 <= j < s.drop_last().len() ==> s.drop_last()[j].conn_id != id);
        assert(!rec_map(s.drop_last()).contains_key(id));
        assert(s.remove(i) =~= s.drop_last());
        assert(rec_map(s.remove(i)) =~= rec_map(s).remove(id));
    } else {
        let dl = s.drop_last();
        assert(s.remove(i).drop_last() =~= dl.remove(i));
        assert(s.remove(i).last() == s.last());
        assert(s.remove(i).len() == s.len() - 1);
        lemma_rec_map_remove_at(dl, i);
        assert(rec_map(s.remove(i)) == rec_map(dl.remove(i)).insert(s.last().conn_id, s.last()@));
        assert(s.last().conn_id != id);
        assert(rec_map(dl).remove(id).insert(s.last().conn_id, s.last()@) =~= rec_map(dl).insert(
            s.last().conn_id,
            s.last()@,
        ).remove(id));
    }
}

/// Removing the same identifier twice produces the same map as removing it
/// once: registry removal is idempotent.
pub proof fn lemma_remove_idempotent(m: Map<u64, RecView>, id: u64)
    ensures
        m.remove(id).remove(id) == m.remove(id),
{
    assert(m.remove(id).remove(id) =~= m.remove(id));
}

/// Removing a present identifier shrinks the registry by exactly one
/// record; removing an absent one changes nothing.
pub proof fn lemma_remove_count(m: Map<u64, RecView>, id: u64)
    requires
        m.dom().finite(),
    ensures
        m.contains_key(id) ==> m.remove(id).dom().len() == m.dom().len() - 1,
        !m.contains_key(id) ==> m.remove(id) == m,
{
    assert(m.remove(id).dom() =~= m.dom().remove(id));
    vstd::set::axiom_set_remove_len(m.dom(), id);
    if !m.contains_key(id) {
        assert(m.remove(id) =~= m);
    }
}

/// The connection registry. Only `add` and `remove` mutate it, and each
/// states the new abstract map exactly, so no caller can observe a record
/// mid-insert or mid-remove.
pub struct Registry {
    records: Vec<PresenceRecord>,
}

impl View for Registry {
    type V = Map<u64, RecView>;

    closed spec fn view(&self) -> Map<u64, RecView> {
        rec_map(self.records@)
    }
}

impl Registry {
    /// The registry's internal invariant: record identifiers are distinct.
    pub closed spec fn wf(&self) -> bool {
        distinct_ids(self.records@)
    }

    /// A registry's abstract map is finite.
    pub proof fn lemma_dom_finite(&self)
        requires
            self.wf(),
        ensures
            self@.dom().finite(),
    {
        lemma_rec_map_len(self.records@);
    }

    /// An empty registry.
    pub fn new() -> (r: Registry)
        ensures
            r.wf(),
            r@ == Map::<u64, RecView>::empty(),
    {
        Registry { records: Vec::new() }
    }

    /// Whether `id` is currently present.
    pub fn contains(&self, id: u64) -> (r: bool)
        ensures
            r == self@.contains_key(id),
    {
        proof {
            lemma_rec_map_contains(self.records@, id);
        }
        let n = self.records.len();
        let mut i: usize = 0;
        while i < n
            invariant
                n == self.records@.len(),
                i <= n,
                forall|j: int| 0 <= j < i ==> self.records@[j].conn_id != id,
            decreases n - i,
        {
            if self.records[i].conn_id == id {
                proof {
                    lemma_rec_map_contains(self.records@, id);
                    assert(self.records@[i as int].conn_id == id);
                }
                return true;
            }
            i = i + 1;
        }
        false
    }

    /// Inserts a new presence record. Succeeds exactly when the identifier
    /// is not yet present; a duplicate is rejected and the registry is left
    /// unchanged.
    pub fn add(&mut self, rec: PresenceRecord) -> (r: Result<(), RegistryError>)
        requires
            old(self).wf(),
        ensures
            final(self).wf(),
            match r {
                Ok(()) => {
                    &&& !old(self)@.contains_key(rec.conn_id)
                    &&& final(self)@ == old(self)@.insert(rec.conn_id, rec@)
                },
                Err(RegistryError::DuplicateIdentifier) => {
                    &&& old(self)@.contains_key(rec.conn_id)
                    &&& final(self)@ == old(self)@
                },
            },
    {
        if self.contains(rec.conn_id) {
            return Err(RegistryError::DuplicateIdentifier);
        }
        proof {
            lemma_rec_map_contains(self.records@, rec.conn_id);
        }
        self.records.push(rec);
        proof {
            assert(self.records@.drop_last() =~= old(self).records@);
        }
        Ok(())
    }

    /// Removes `id` if present; removing an absent identifier is a no-op.
    pub fn remove(&mut self, id: u64)
        requires
            old(self).wf(),
        ensures
            final(self).wf(),
            final(self)@ == old(self)@.remove(id),
    {
        proof {
            lemma_rec_map_contains(self.records@, id);
        }
        let n = self.records.len();
        let mut i: usize = 0;
        while i < n
            invariant
                old(self) == self,
                old(self).wf(),
                n == self.records@.len(),
                i <= n,
                forall|j: int| 0 <= j < i ==> self.records@[j].conn_id != id,
            decreases n - i,
        {
            if self.records[i].conn_id == id {
                proof {
                    lemma_rec_map_remove_at(self.records@, i as int);
                    self.records@.remove_ensures(i as int);
                }
                let ghost before = self.records@;
                self.records.remove(i);
                proof {
                    assert forall|a: int, b: int|
                        0 <= a < b < self.records@.len() implies self.records@[a].conn_id
                        != self.records@[b].conn_id by {
                        before.remove_ensures(i as int);
                    }
                }
                return;
            }
            i = i + 1;
        }
        proof {
            assert(!self@.contains_key(id));
            assert(self@.remove(id) =~= self@);
        }
    }

    /// The number of live connections.
    pub fn count(&self) -> (r: usize)
        requires
            self.wf(),
        ensures
            r == self@.dom().len(),
    {
        proof {
            lemma_rec_map_len(self.records@);
        }
        self.records.len()
    }

    /// An immutable copy of all records, for diagnostics. Every returned
    /// record is present in the registry under its identifier, and there is
    /// one per live connection.
    pub fn snapshot(&self) -> (r: Vec<PresenceRecord>)
        requires
            self.wf(),
        ensures
            r@.len() == self@.dom().len(),
            forall|i: int| 0 <= i < r@.len() ==> self@.contains_key((#[trigger] r@[i]).conn_id),
            forall|i: int| 0 <= i < r@.len() ==> self@[(#[trigger] r@[i]).conn_id] == r@[i]@,
            forall|id: u64| #[trigger] self@.contains_key(id) ==> exists|i: int|
                0 <= i < r@.len() && r@[i].conn_id == id,
    {
        proof {
            lemma_rec_map_len(self.records@);
        }
        let n = self.records.len();
        let mut r: Vec<PresenceRecord> = Vec::new();
        let mut i: usize = 0;
        while i < n
            invariant
                self.wf(),
                n == self.records@.len(),
                i <= n,
                r@.len() == i,
                forall|j: int| 0 <= j < i ==> r@[j]@ == self.records@[j]@,
            decreases n - i,
        {
            let rec = &self.records[i];
            r.push(
                PresenceRecord {
                    conn_id: rec.conn_id,
                    display_name: crate::msg::copy_bytes(&rec.display_name),
                    joined_at: rec.joined_at,
                },
            );
            i = i + 1;
        }
        proof {
            assert forall|i: int|
                0 <= i < r@.len() implies self@.contains_key((#[trigger] r@[i]).conn_id)
                && self@[r@[i].conn_id] == r@[i]@ by {
                assert(r@[i]@ == self.records@[i]@);
                assert(r@[i].conn_id == self.records@[i].conn_id);
                lemma_rec_map_get(self.records@, i);
            }
            assert forall|id: u64| #[trigger] self@.contains_key(id) implies exists|i: int|
                0 <= i < r@.len() && r@[i].conn_id == id by {
                lemma_rec_map_contains(self.records@, id);
                let i = choose|i: int| 0 <= i < self.records@.len() && self.records@[i].conn_id
                    == id;
                assert(r@[i].conn_id == id);
            }
        }
        r
    }
}

} // verus!
