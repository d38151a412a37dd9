//! The table of stored secrets, keyed by id.
//!
//! It offers what the lifecycle needs of a backing store: point lookup,
//! insert with uniqueness, point update, point delete, and a sweep that
//! deletes by expiry. Absence of a row is the only sign that a secret is
//! gone; there is no soft delete.

use vstd::prelude::*;

use crate::error::StorageError;
use crate::models::{NewSecret, Secret, SecretView};

verus! {

/// Whether a row is past its expiry at `now`.
pub open spec fn expired(row: SecretView, now: i64) -> bool {
    now > row.expires_at
}

/// Whether some row carries `id`.
pub open spec fn has_id(rows: Seq<SecretView>, id: Seq<char>) -> bool {
    exists|i: int| 0 <= i < rows.len() && (#[trigger] rows[i]).id == id
}

/// No two rows carry the same id.
pub open spec fn unique_ids(rows: Seq<SecretView>) -> bool {
    forall|i: int, j: int|
        0 <= i < j < rows.len() ==> (#[trigger] rows[i]).id != (#[trigger] rows[j]).id
}

/// The row that carries `id`, if there is one.
pub open spec fn lookup(rows: Seq<SecretView>, id: Seq<char>) -> Option<SecretView> {
    if has_id(rows, id) {
        Some(rows[choose|i: int| 0 <= i < rows.len() && (#[trigger] rows[i]).id == id])
    } else {
        None
    }
}

/// The test that a row does not carry `id`.
pub open spec fn other_than(id: Seq<char>) -> spec_fn(SecretView) -> bool {
    |row: SecretView| row.id != id
}

/// The test that a row is not past its expiry at `now`.
pub open spec fn alive_at(now: i64) -> spec_fn(SecretView) -> bool {
    |row: SecretView| !expired(row, now)
}

/// The rows, in order, without those that carry `id`.
pub open spec fn without_id(rows: Seq<SecretView>, id: Seq<char>) -> Seq<SecretView> {
    rows.filter(other_than(id))
}

/// The rows, in order, without those past their expiry at `now`.
pub open spec fn purged(rows: Seq<SecretView>, now: i64) -> Seq<SecretView> {
    rows.filter(alive_at(now))
}

/// The rows with the view count of those that carry `id` set to
/// `view_count`.
pub open spec fn with_view_count(rows: Seq<SecretView>, id: Seq<char>, view_count: i32) -> Seq<
    SecretView,
> {
    rows.map_values(
        |row: SecretView|
            if row.id == id {
                SecretView { view_count, ..row }
            } else {
                row
            },
    )
}

/// What a read asks the table to do with the row it read.
#[derive(Clone, Copy, Debug, PartialEq, Eq, Structural)]
pub enum StoreAction {
    /// Leave the table as it is.
    Nothing,
    /// Delete the row.
    Delete,
    /// Set the view count of the row.
    SetViewCount(i32),
}

/// The rows after `action` was carried out on the row under `id`.
pub open spec fn applied(rows: Seq<SecretView>, id: Seq<char>, action: StoreAction) -> Seq<
    SecretView,
> {
    match action {
        StoreAction::Nothing => rows,
        StoreAction::Delete => without_id(rows, id),
        StoreAction::SetViewCount(view_count) => with_view_count(rows, id, view_count),
    }
}

/// The views of a sequence of records.
pub open spec fn views(rows: Seq<Secret>) -> Seq<SecretView> {
    rows.map_values(|row: Secret| row@)
}

/// A filter keeps a sequence whole when every element passes.
pub proof fn lemma_filter_keeps_all<A>(s: Seq<A>, p: spec_fn(A) -> bool)
    requires
        forall|i: int| 0 <= i < s.len() ==> p(#[trigger] s[i]),
    ensures
        s.filter(p) == s,
    decreases s.len(),
{
    reveal(Seq::filter);
    if s.len() > 0 {
        lemma_filter_keeps_all(s.drop_last(), p);
        assert(s.drop_last().push(s.last()) =~= s);
    }
}

/// A filter that only the element at `k` fails removes just that element.
proof fn lemma_filter_drops_one<A>(s: Seq<A>, p: spec_fn(A) -> bool, k: int)
    requires
        0 <= k < s.len(),
        !p(s[k]),
        forall|i: int| 0 <= i < s.len() && i != k ==> p(#[trigger] s[i]),
    ensures
        s.filter(p) == s.remove(k),
    decreases s.len(),
{
    reveal(Seq::filter);
    if k == s.len() - 1 {
        lemma_filter_keeps_all(s.drop_last(), p);
        assert(s.remove(k) =~= s.drop_last());
    } else {
        lemma_filter_drops_one(s.drop_last(), p, k);
        assert(s.drop_last().remove(k).push(s.last()) =~= s.remove(k));
    }
}

/// Among unique ids, the row found under the id of row `i` is row `i`.
pub proof fn lemma_lookup_unique(rows: Seq<SecretView>, i: int)
    requires
        unique_ids(rows),
        0 <= i < rows.len(),
    ensures
        lookup(rows, rows[i].id) == Some(rows[i]),
{
    let id = rows[i].id;
    assert(has_id(rows, id));
    let j = choose|j: int| 0 <= j < rows.len() && (#[trigger] rows[j]).id == id;
    assert(j == i) by {
        if j < i {
            assert(rows[j].id != rows[i].id);
        } else if i < j {
            assert(rows[i].id != rows[j].id);
        }
    }
}

/// A filter of rows with unique ids has unique ids.
pub proof fn lemma_filter_keeps_unique(rows: Seq<SecretView>, p: spec_fn(SecretView) -> bool)
    requires
        unique_ids(rows),
    ensures
        unique_ids(rows.filter(p)),
    decreases rows.len(),
{
    reveal(Seq::filter);
    if rows.len() > 0 {
        let init = rows.drop_last();
        let last = rows.last();
        assert(unique_ids(init)) by {
            assert forall|i: int, j: int| 0 <= i < j < init.len() implies (#[trigger] init[i]).id
                != (#[trigger] init[j]).id by {
                assert(rows[i].id != rows[j].id);
            }
        }
        lemma_filter_keeps_unique(init, p);
        let kept = init.filter(p);
        if p(last) {
            let all = kept.push(last);
            assert forall|i: int, j: int| 0 <= i < j < all.len() implies (#[trigger] all[i]).id != (
            #[trigger] all[j]).id by {
                if j < kept.len() {
                    assert(kept[i].id != kept[j].id);
                } else {
                    assert(kept.contains(kept[i]));
                    init.lemma_filter_contains_rev(p, kept[i]);
                    let at = choose|at: int| 0 <= at < init.len() && init[at] == kept[i];
                    assert(rows[at].id != rows[rows.len() - 1].id);
                }
            }
        }
    }
}

/// Among unique ids, a filter keeps under each id the row that was there,
/// if that row passes, and nothing otherwise.
pub proof fn lemma_filter_lookup(
    rows: Seq<SecretView>,
    p: spec_fn(SecretView) -> bool,
    id: Seq<char>,
)
    requires
        unique_ids(rows),
    ensures
        unique_ids(rows.filter(p)),
        lookup(rows.filter(p), id) == match lookup(rows, id) {
            Some(row) => if p(row) {
                Some(row)
            } else {
                None
            },
            None => None,
        },
{
    lemma_filter_keeps_unique(rows, p);
    let kept = rows.filter(p);
    if has_id(kept, id) {
        let j = choose|j: int| 0 <= j < kept.len() && (#[trigger] kept[j]).id == id;
        lemma_lookup_unique(kept, j);
        rows.lemma_filter_pred(p, j);
        assert(kept.contains(kept[j]));
        rows.lemma_filter_contains_rev(p, kept[j]);
        let i = choose|i: int| 0 <= i < rows.len() && rows[i] == kept[j];
        lemma_lookup_unique(rows, i);
    } else if has_id(rows, id) {
        let i = choose|i: int| 0 <= i < rows.len() && (#[trigger] rows[i]).id == id;
        lemma_lookup_unique(rows, i);
        if p(rows[i]) {
            rows.lemma_filter_contains(p, i);
            let j = choose|j: int| 0 <= j < kept.len() && kept[j] == rows[i];
            assert(kept[j].id == id);
        }
    }
}

/// The rows that pass a test and the rows that fail it make up the whole.
pub proof fn lemma_filter_partition(rows: Seq<SecretView>, p: spec_fn(SecretView) -> bool)
    ensures
        rows.filter(p).len() + rows.filter(|row: SecretView| !p(row)).len() == rows.len(),
    decreases rows.len(),
{
    reveal(Seq::filter);
    if rows.len() > 0 {
        lemma_filter_partition(rows.drop_last(), p);
    }
}

/// Whether a record with this expiry is past it at `now`. Lazy expiry on
/// read and the periodic sweep both decide by this test.
pub fn is_expired(expires_at: i64, now: i64) -> (gone: bool)
    ensures
        gone == (now > expires_at),
{
    now > expires_at
}

/// The table. Its rows are private, so that no two of them ever share an id.
pub struct SecretStore {
    rows: Vec<Secret>,
}

impl View for SecretStore {
    type V = Seq<SecretView>;

    closed spec fn view(&self) -> Seq<SecretView> {
        views(self.rows@)
    }
}

impl SecretStore {
    #[verifier::type_invariant]
    spec fn ids_are_unique(self) -> bool {
        unique_ids(views(self.rows@))
    }

    /// An empty table.
    pub fn new() -> (store: Self)
        ensures
            store@ == Seq::<SecretView>::empty(),
    {
        let store = SecretStore { rows: Vec::new() };
        assert(store@ =~= Seq::<SecretView>::empty());
        store
    }

    /// Hands the invariant of the table to the caller's proof: no two rows
    /// share an id. It does nothing at run time.
    pub fn ids_stay_unique(&self)
        ensures
            unique_ids(self@),
    {
        proof {
            use_type_invariant(self);
        }
    }

    /// The number of rows.
    pub fn len(&self) -> (n: usize)
        ensures
            n == self@.len(),
    {
        self.rows.len()
    }

    /// Where the row with `id` stands.
    fn position(&self, id: &String) -> (res: Option<usize>)
        ensures
            unique_ids(self@),
            match res {
                Some(i) => i < self@.len() && self@[i as int].id == id@,
                None => !has_id(self@, id@),
            },
    {
        proof {
            use_type_invariant(self);
        }
        let mut i: usize = 0;
        while i < self.rows.len()
            invariant
                i <= self.rows.len(),
                unique_ids(self@),
                forall|j: int| 0 <= j < i ==> (#[trigger] self@[j]).id != id@,
            decreases self.rows.len() - i,
        {
            if self.rows[i].id == *id {
                return Some(i);
            }
            i += 1;
        }
        None
    }

    /// Point lookup: the row stored under `id`.
    pub fn get(&self, id: &str) -> (res: Option<&Secret>)
        ensures
            unique_ids(self@),
            match res {
                Some(row) => lookup(self@, id@) == Some(row@),
                None => lookup(self@, id@) is None,
            },
    {
        let key = id.to_owned();
        match self.position(&key) {
            Some(i) => {
                proof {
                    lemma_lookup_unique(self@, i as int);
                }
                Some(&self.rows[i])
            },
            None => None,
        }
    }

    /// Insert with uniqueness: stores `secret` as a row that has not been
    /// viewed, unless its id is taken, in which case nothing changes.
    pub fn insert(&mut self, secret: NewSecret, created_at: i64) -> (res: Result<
        (),
        StorageError,
    >)
        ensures
            unique_ids(final(self)@),
            has_id(old(self)@, secret.id@) ==> res == Err::<(), StorageError>(
                StorageError::DuplicateId,
            ) && final(self)@ == old(self)@,
            !has_id(old(self)@, secret.id@) ==> res is Ok && final(self)@ == old(self)@.push(
                secret.row(created_at),
            ),
    {
        if self.position(&secret.id).is_some() {
            return Err(StorageError::DuplicateId);
        }
        let ghost before = self@;
        let ghost added = secret.row(created_at);
        let row = Secret {
            id: secret.id,
            ciphertext: secret.ciphertext,
            nonce: secret.nonce,
            expires_at: secret.expires_at,
            max_views: secret.max_views,
            view_count: 0,
            created_at,
        };
        let mut rows: Vec<Secret> = Vec::new();
        core::mem::swap(&mut self.rows, &mut rows);
        rows.push(row);
        proof {
            assert(views(rows@) =~= before.push(added));
            assert(unique_ids(before.push(added))) by {
                assert forall|i: int, j: int| 0 <= i < j < before.len() + 1 implies (
                #[trigger] before.push(added)[i]).id != (#[trigger] before.push(added)[j]).id by {
                    if j < before.len() {
                        assert(before[i].id != before[j].id);
                    } else {
                        assert(before[i].id != added.id);
                    }
                }
            }
        }
        self.rows = rows;
        Ok(())
    }

    /// Point delete: removes the row stored under `id`, if there is one, and
    /// returns how many rows went. Deleting nothing is no error.
    pub fn delete(&mut self, id: &str) -> (count: usize)
        ensures
            unique_ids(final(self)@),
            final(self)@ == without_id(old(self)@, id@),
            count == old(self)@.len() - final(self)@.len(),
            count == if has_id(old(self)@, id@) { 1int } else { 0int },
    {
        let key = id.to_owned();
        let ghost before = self@;
        match self.position(&key) {
            Some(i) => {
                let mut rows: Vec<Secret> = Vec::new();
                core::mem::swap(&mut self.rows, &mut rows);
                rows.remove(i);
                proof {
                    assert(views(rows@) =~= before.remove(i as int));
                    lemma_remove_keeps_unique(before, i as int);
                    lemma_filter_drops_one(before, other_than(id@), i as int);
                }
                self.rows = rows;
                1
            },
            None => {
                proof {
                    lemma_filter_keeps_all(before, other_than(id@));
                }
                0
            },
        }
    }

    /// Point update: sets the view count of the row stored under `id`, if
    /// there is one, and returns how many rows changed.
    pub fn set_view_count(&mut self, id: &str, view_count: i32) -> (count: usize)
        ensures
            unique_ids(final(self)@),
            final(self)@ == with_view_count(old(self)@, id@, view_count),
            count == if has_id(old(self)@, id@) { 1int } else { 0int },
    {
        let key = id.to_owned();
        let ghost before = self@;
        match self.position(&key) {
            Some(i) => {
                let mut rows: Vec<Secret> = Vec::new();
                core::mem::swap(&mut self.rows, &mut rows);
                let mut row = rows.remove(i);
                row.view_count = view_count;
                rows.insert(i, row);
                proof {
                    let after = with_view_count(before, id@, view_count);
                    assert(views(rows@) =~= after) by {
                        assert forall|j: int| 0 <= j < before.len() implies views(rows@)[j]
                            == #[trigger] after[j] by {
                            if j != i {
                                if j < i {
                                    assert(before[j].id != before[i as int].id);
                                } else {
                                    assert(before[i as int].id != before[j].id);
                                }
                            }
                        }
                    }
                    lemma_view_count_keeps_unique(before, id@, view_count);
                }
                self.rows = rows;
                1
            },
            None => {
                proof {
                    assert(with_view_count(before, id@, view_count) =~= before);
                }
                0
            },
        }
    }

    /// Carries out `action` on the row stored under `id` and returns how many
    /// rows it touched.
    pub fn apply(&mut self, id: &str, action: StoreAction) -> (count: usize)
        ensures
            unique_ids(final(self)@),
            final(self)@ == applied(old(self)@, id@, action),
            count == if action != StoreAction::Nothing && has_id(old(self)@, id@) {
                1int
            } else {
                0int
            },
    {
        match action {
            StoreAction::Nothing => {
                self.ids_stay_unique();
                0
            },
            StoreAction::Delete => self.delete(id),
            StoreAction::SetViewCount(view_count) => self.set_view_count(id, view_count),
        }
    }

    /// The sweep: removes every row that is past its expiry at `now` and
    /// returns how many rows went. Rows that are not expired keep their
    /// content and their order.
    pub fn purge_expired(&mut self, now: i64) -> (count: usize)
        ensures
            unique_ids(final(self)@),
            final(self)@ == purged(old(self)@, now),
            count == old(self)@.len() - final(self)@.len(),
    {
        proof {
            use_type_invariant(&*self);
        }
        let ghost before = self@;
        let mut rows: Vec<Secret> = Vec::new();
        core::mem::swap(&mut self.rows, &mut rows);
        assert(views(self.rows@) =~= Seq::<SecretView>::empty());
        let mut i: usize = 0;
        let mut count: usize = 0;
        proof {
            reveal(Seq::filter);
            assert(views(rows@) == before);
            assert(before.len() == rows.len());
            assert(before.take(0) =~= Seq::<SecretView>::empty());
            assert(views(rows@) =~= purged(before.take(0), now) + before.skip(0));
        }
        while i < rows.len()
            invariant
                i <= rows.len(),
                before.len() <= usize::MAX,
                count + rows.len() == before.len(),
                views(rows@) == purged(before.take(i + count), now) + before.skip(i + count),
                purged(before.take(i + count), now).len() == i,
                unique_ids(views(rows@)),
            decreases rows.len() - i,
        {
            let ghost k = i + count;
            let ghost current = views(rows@);
            proof {
                assert(current[i as int] == before[k]);
                assert(before.take(k + 1) =~= before.take(k).push(before[k]));
                before.take(k).lemma_filter_push(before[k], alive_at(now));
            }
            if is_expired(rows[i].expires_at, now) {
                rows.remove(i);
                count += 1;
                proof {
                    assert(views(rows@) =~= current.remove(i as int));
                    lemma_remove_keeps_unique(current, i as int);
                    assert(current.remove(i as int) =~= purged(before.take(k + 1), now)
                        + before.skip(k + 1));
                }
            } else {
                i += 1;
                proof {
                    assert(current =~= purged(before.take(k + 1), now) + before.skip(k + 1));
                }
            }
        }
        proof {
            assert(before.take(before.len() as int) =~= before);
            assert(views(rows@) =~= purged(before, now));
        }
        self.rows = rows;
        count
    }
}

/// Removing a row keeps ids unique.
proof fn lemma_remove_keeps_unique(rows: Seq<SecretView>, k: int)
    requires
        unique_ids(rows),
        0 <= k < rows.len(),
    ensures
        unique_ids(rows.remove(k)),
{
    let less = rows.remove(k);
    assert forall|i: int, j: int| 0 <= i < j < less.len() implies (#[trigger] less[i]).id != (
    #[trigger] less[j]).id by {
        let a = if i < k { i } else { i + 1 };
        let b = if j < k { j } else { j + 1 };
        assert(less[i] == rows[a]);
        assert(less[j] == rows[b]);
        assert(rows[a].id != rows[b].id);
    }
}

/// Setting a view count keeps ids unique.
pub proof fn lemma_view_count_keeps_unique(rows: Seq<SecretView>, id: Seq<char>, view_count: i32)
    requires
        unique_ids(rows),
    ensures
        unique_ids(with_view_count(rows, id, view_count)),
{
    let after = with_view_count(rows, id, view_count);
    assert forall|i: int, j: int| 0 <= i < j < after.len() implies (#[trigger] after[i]).id != (
    #[trigger] after[j]).id by {
        assert(after[i].id == rows[i].id);
        assert(after[j].id == rows[j].id);
    }
}

} // verus!
