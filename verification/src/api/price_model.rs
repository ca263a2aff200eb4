//! Snapshots of a tenant's price model: when a catalog load may be cached,
//! and when concurrent catalog writes make the lookup give up.
use vstd::prelude::*;

use crate::domain::error::{DomainError, DomainErrorView};
use crate::text::{owned, str_eq};

verus! {

/// Bound on load attempts while the catalog is being written concurrently.
pub const MAX_LOAD_ATTEMPTS: usize = 5;

/// What to do after loading the catalog in attempt `attempt` (from zero).
#[derive(Debug, Clone, Copy, PartialEq, Eq, Structural)]
pub enum SnapshotStep {
    /// The load is a consistent snapshot of this version: build and cache it.
    Cache(i64),
    /// The load raced a write: read the version and load again.
    Retry,
    /// Every attempt raced a write.
    GiveUp,
}

/// A load tagged with the version that is read again after it is a
/// consistent snapshot; otherwise it raced a write and is retried until the
/// attempts are used up.
pub fn after_load(attempt: usize, loaded_version: i64, version_after: i64) -> (r: SnapshotStep)
    requires
        attempt < MAX_LOAD_ATTEMPTS,
    ensures
        loaded_version == version_after ==> r == SnapshotStep::Cache(loaded_version),
        loaded_version != version_after ==> r == if attempt + 1 < MAX_LOAD_ATTEMPTS {
            SnapshotStep::Retry
        } else {
            SnapshotStep::GiveUp
        },
{
    if loaded_version == version_after {
        SnapshotStep::Cache(loaded_version)
    } else if attempt + 1 < MAX_LOAD_ATTEMPTS {
        SnapshotStep::Retry
    } else {
        SnapshotStep::GiveUp
    }
}

/// The error of a lookup that gave up.
pub fn catalog_churn_error() -> (r: DomainError)
    ensures
        r@ == DomainErrorView::Store("pricing catalog changed faster than the snapshot could be built"@),
{
    DomainError::Store(owned("pricing catalog changed faster than the snapshot could be built"))
}

/// How many snapshots the cache holds at most.
pub const SNAPSHOT_CAPACITY: usize = 256;

/// Snapshots kept per tenant database and pricelist version, at most
/// `SNAPSHOT_CAPACITY` of them.
pub struct SnapshotCache<T> {
    entries: Vec<(String, i64, T)>,
}

impl<T> SnapshotCache<T> {
    /// The snapshots by `(tenant database, version)`.
    pub closed spec fn view(&self) -> Map<(Seq<char>, i64), T> {
        Map::new(
            |k: (Seq<char>, i64)| exists|i: int| 0 <= i < self.entries@.len() && self.key_at(i) == k,
            |k: (Seq<char>, i64)| {
                let i = choose|i: int| 0 <= i < self.entries@.len() && self.key_at(i) == k;
                self.entries@[i].2
            },
        )
    }

    closed spec fn key_at(&self, i: int) -> (Seq<char>, i64) {
        (self.entries@[i].0@, self.entries@[i].1)
    }

    /// How many snapshots are held.
    pub closed spec fn size(&self) -> nat {
        self.entries@.len()
    }

    /// No key is stored twice, and the capacity is kept.
    pub closed spec fn wf(&self) -> bool {
        &&& self.entries@.len() <= SNAPSHOT_CAPACITY
        &&& forall|i: int, j: int|
            0 <= i < j < self.entries@.len() ==> #[trigger] self.key_at(i) != #[trigger] self.key_at(j)
    }

    pub fn new() -> (r: SnapshotCache<T>)
        ensures
            r.wf(),
            r.size() == 0,
            r@ == Map::<(Seq<char>, i64), T>::empty(),
    {
        let r = SnapshotCache { entries: Vec::new() };
        assert(r@ =~= Map::<(Seq<char>, i64), T>::empty());
        r
    }

    fn position(&self, tenant_db: &str, version: i64) -> (r: Option<usize>)
        ensures
            match r {
                Some(i) => i < self.entries@.len() && self.key_at(i as int) == (tenant_db@, version),
                None => forall|i: int| 0 <= i < self.entries@.len() ==> self.key_at(i) != (tenant_db@, version),
            },
    {
        let mut i: usize = 0;
        while i < self.entries.len()
            invariant
                i <= self.entries@.len(),
                forall|j: int| 0 <= j < i ==> self.key_at(j) != (tenant_db@, version),
            decreases self.entries.len() - i,
        {
            if self.entries[i].1 == version && str_eq(self.entries[i].0.as_str(), tenant_db) {
                return Some(i);
            }
            i += 1;
        }
        None
    }

    /// The snapshot cached for the tenant at this version, if any: a hit
    /// is served, a miss sends the caller to load the catalog.
    pub fn get(&self, tenant_db: &str, version: i64) -> (r: Option<&T>)
        requires
            self.wf(),
        ensures
            match r {
                Some(t) => self@.contains_key((tenant_db@, version)) && *t == self@[(tenant_db@, version)],
                None => !self@.contains_key((tenant_db@, version)),
            },
    {
        match self.position(tenant_db, version) {
            Some(i) => {
                proof {
                    let k = (tenant_db@, version);
                    assert(self@.dom().contains(k));
                    let j = choose|j: int| 0 <= j < self.entries@.len() && self.key_at(j) == k;
                    if j != i {
                        if j < i {
                            assert(self.key_at(j) != self.key_at(i as int));
                        } else {
                            assert(self.key_at(i as int) != self.key_at(j));
                        }
                    }
                }
                Some(&self.entries[i].2)
            },
            None => None,
        }
    }

    /// Entry `i` is what the view holds under its key.
    proof fn lemma_entry_in_view(&self, i: int)
        requires
            self.wf(),
            0 <= i < self.entries@.len(),
        ensures
            self@.contains_key(self.key_at(i)),
            self@[self.key_at(i)] == self.entries@[i].2,
    {
        let k = self.key_at(i);
        assert(self@.dom().contains(k));
        let j = choose|j: int| 0 <= j < self.entries@.len() && self.key_at(j) == k;
        if j < i {
            assert(self.key_at(j) != self.key_at(i));
        } else if j > i {
            assert(self.key_at(i) != self.key_at(j));
        }
    }

    /// `snapshot` stored under the key, replacing what was stored there.
    fn put(&mut self, tenant_db: String, version: i64, snapshot: T)
        requires
            old(self).wf(),
            old(self)@.contains_key((tenant_db@, version)) || old(self).size() < SNAPSHOT_CAPACITY,
        ensures
            final(self).wf(),
            final(self)@ == old(self)@.insert((tenant_db@, version), snapshot),
            final(self).size() == if old(self)@.contains_key((tenant_db@, version)) {
                old(self).size()
            } else {
                old(self).size() + 1
            },
    {
        let ghost k = (tenant_db@, version);
        let ghost before = *self;
        let ghost e = (tenant_db, version, snapshot);
        let found = self.position(tenant_db.as_str(), version);
        proof {
            match found {
                Some(i) => before.lemma_entry_in_view(i as int),
                None => {
                    if before@.contains_key(k) {
                        let j = choose|j: int| 0 <= j < before.entries@.len() && before.key_at(j) == k;
                        assert(before.key_at(j) != k);
                    }
                },
            }
        }
        let ghost at: int = match found {
            Some(i) => i as int,
            None => self.entries@.len() as int,
        };
        match found {
            Some(i) => {
                self.entries.remove(i);
                self.entries.insert(i, (tenant_db, version, snapshot));
                assert(self.entries@ =~= before.entries@.update(i as int, e));
            },
            None => {
                self.entries.push((tenant_db, version, snapshot));
                assert(self.entries@ =~= before.entries@.push(e));
            },
        }
        assert(self.key_at(at) == k);
        assert forall|j: int| 0 <= j < self.entries@.len() && j != at implies #[trigger] self.key_at(j)
            == before.key_at(j) && self.entries@[j].2 == before.entries@[j].2 by {}
        assert forall|a: int, b: int| 0 <= a < b < self.entries@.len() implies #[trigger] self.key_at(a)
            != #[trigger] self.key_at(b) by {
            if a != at && b != at {
                assert(before.key_at(a) != before.key_at(b));
            }
        }
        let ghost want = before@.insert(k, snapshot);
        assert forall|kk: (Seq<char>, i64)| #[trigger] self@.contains_key(kk) <==> want.contains_key(kk) by {
            if self@.contains_key(kk) {
                let j = choose|j: int| 0 <= j < self.entries@.len() && self.key_at(j) == kk;
                if j != at {
                    before.lemma_entry_in_view(j);
                }
            }
            if want.contains_key(kk) && kk != k {
                let j = choose|j: int| 0 <= j < before.entries@.len() && before.key_at(j) == kk;
                assert(j != at);
                assert(self.key_at(j) == kk);
            }
            if kk == k {
                self.lemma_entry_in_view(at);
            }
        }
        assert forall|kk: (Seq<char>, i64)| #[trigger] self@.contains_key(kk) implies self@[kk] == want[kk] by {
            let j = choose|j: int| 0 <= j < self.entries@.len() && self.key_at(j) == kk;
            self.lemma_entry_in_view(j);
            if j != at {
                before.lemma_entry_in_view(j);
            }
        }
        assert(self@ =~= want);
    }

    /// Drops the oldest snapshot.
    fn evict_oldest(&mut self)
        requires
            old(self).wf(),
            old(self).size() > 0,
        ensures
            final(self).wf(),
            final(self).size() == old(self).size() - 1,
            forall|kk: (Seq<char>, i64)|
                #[trigger] final(self)@.contains_key(kk) ==> old(self)@.contains_key(kk) && final(self)@[kk]
                    == old(self)@[kk],
    {
        let ghost before = *self;
        self.entries.remove(0);
        assert(self.entries@ =~= before.entries@.skip(1));
        assert forall|j: int| 0 <= j < self.entries@.len() implies #[trigger] self.key_at(j) == before.key_at(j + 1)
            && self.entries@[j].2 == before.entries@[j + 1].2 by {}
        assert forall|a: int, b: int| 0 <= a < b < self.entries@.len() implies #[trigger] self.key_at(a)
            != #[trigger] self.key_at(b) by {
            assert(before.key_at(a + 1) != before.key_at(b + 1));
        }
        assert forall|kk: (Seq<char>, i64)| #[trigger] self@.contains_key(kk) implies before@.contains_key(kk)
            && self@[kk] == before@[kk] by {
            let j = choose|j: int| 0 <= j < self.entries@.len() && self.key_at(j) == kk;
            self.lemma_entry_in_view(j);
            before.lemma_entry_in_view(j + 1);
        }
    }

    /// Caches `snapshot` for the tenant at this version, replacing what was
    /// cached under that key. When the cache is full and the key is new, the
    /// oldest snapshot makes room; nothing else is dropped.
    pub fn insert(&mut self, tenant_db: String, version: i64, snapshot: T)
        requires
            old(self).wf(),
        ensures
            final(self).wf(),
            final(self).size() <= SNAPSHOT_CAPACITY,
            final(self)@.contains_key((tenant_db@, version)),
            final(self)@[(tenant_db@, version)] == snapshot,
            forall|kk: (Seq<char>, i64)|
                #[trigger] final(self)@.contains_key(kk) && kk != (tenant_db@, version)
                    ==> old(self)@.contains_key(kk) && final(self)@[kk] == old(self)@[kk],
            old(self)@.contains_key((tenant_db@, version)) || old(self).size() < SNAPSHOT_CAPACITY
                ==> final(self)@ == old(self)@.insert((tenant_db@, version), snapshot),
    {
        let ghost before = *self;
        let found = self.position(tenant_db.as_str(), version);
        proof {
            if found is Some {
                before.lemma_entry_in_view(found->0 as int);
            }
        }
        if found.is_none() && self.entries.len() >= SNAPSHOT_CAPACITY {
            self.evict_oldest();
        }
        let ghost mid = *self;
        self.put(tenant_db, version, snapshot);
        assert(self@ == mid@.insert((tenant_db@, version), snapshot));
    }
}

} // verus!
