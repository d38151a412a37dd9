//! What holds of the lifecycle, for every table, key, secret and instant.

use vstd::prelude::*;

use crate::error::AppError;
use crate::lifecycle::{after_retrieve, after_share, freshly_shared};
use crate::models::SecretView;
use crate::store::{
    alive_at, expired, has_id, lemma_filter_keeps_all, lemma_filter_lookup,
    lemma_filter_partition, lemma_lookup_unique, lemma_view_count_keeps_unique, lookup,
    other_than, purged, unique_ids, with_view_count, without_id,
};

verus! {

/// The table after reads of `id` at each instant of `nows`, in turn.
pub open spec fn after_views(key: Seq<u8>, rows: Seq<SecretView>, id: Seq<char>, nows: Seq<i64>) -> Seq<
    SecretView,
>
    decreases nows.len(),
{
    if nows.len() == 0 {
        rows
    } else {
        after_retrieve(key, after_views(key, rows, id, nows.drop_last()), id, nows.last()).0
    }
}

/// The answer to read number `k`, counted from zero, in a series of reads
/// of `id` at the instants `nows`.
pub open spec fn answer_of_view(
    key: Seq<u8>,
    rows: Seq<SecretView>,
    id: Seq<char>,
    nows: Seq<i64>,
    k: int,
) -> Result<(Seq<char>, i32), AppError> {
    after_retrieve(key, after_views(key, rows, id, nows.take(k)), id, nows[k]).1
}

/// Once the row under `id` is deleted, nothing is found under `id`.
pub proof fn lemma_deleted_is_absent(rows: Seq<SecretView>, id: Seq<char>)
    ensures
        lookup(without_id(rows, id), id) is None,
{
    let rest = without_id(rows, id);
    assert forall|j: int| 0 <= j < rest.len() implies (#[trigger] rest[j]).id != id by {
        rows.lemma_filter_pred(other_than(id), j);
    }
}

/// A point update changes the view count of the row under `id` and nothing
/// else of it.
pub proof fn lemma_counted_row(rows: Seq<SecretView>, id: Seq<char>, view_count: i32)
    requires
        unique_ids(rows),
        lookup(rows, id) is Some,
    ensures
        unique_ids(with_view_count(rows, id, view_count)),
        lookup(with_view_count(rows, id, view_count), id) == Some(
            SecretView { view_count, ..lookup(rows, id)->0 },
        ),
{
    let i = choose|i: int| 0 <= i < rows.len() && (#[trigger] rows[i]).id == id;
    lemma_lookup_unique(rows, i);
    let after = with_view_count(rows, id, view_count);
    lemma_view_count_keeps_unique(rows, id, view_count);
    assert(after[i].id == id);
    lemma_lookup_unique(after, i);
}

/// A read of one id leaves the rows under every other id as they were, and
/// keeps ids unique.
pub proof fn lemma_read_leaves_others(
    key: Seq<u8>,
    rows: Seq<SecretView>,
    id: Seq<char>,
    now: i64,
    other: Seq<char>,
)
    requires
        unique_ids(rows),
        other != id,
    ensures
        unique_ids(after_retrieve(key, rows, id, now).0),
        lookup(after_retrieve(key, rows, id, now).0, other) == lookup(rows, other),
{
    let after = after_retrieve(key, rows, id, now).0;
    lemma_filter_lookup(rows, other_than(id), other);
    if has_id(rows, other) {
        let i = choose|i: int| 0 <= i < rows.len() && (#[trigger] rows[i]).id == other;
        lemma_lookup_unique(rows, i);
    }
    if after == with_view_count(rows, id, ((lookup(rows, id)->0).view_count + 1) as i32) {
        let n = ((lookup(rows, id)->0).view_count + 1) as i32;
        lemma_view_count_keeps_unique(rows, id, n);
        if has_id(rows, other) {
            let i = choose|i: int| 0 <= i < rows.len() && (#[trigger] rows[i]).id == other;
            assert(after[i] == rows[i]);
            lemma_lookup_unique(after, i);
        } else {
            assert forall|j: int| 0 <= j < after.len() implies (#[trigger] after[j]).id
                != other by {
                assert(after[j].id == rows[j].id);
            }
        }
    }
}

/// The table after the first `k` reads of a series on a freshly shared
/// secret: while views remain, the record stands with `k` views counted;
/// from then on it is gone.
proof fn lemma_state_after_views(
    key: Seq<u8>,
    rows: Seq<SecretView>,
    id: Seq<char>,
    secret: Seq<char>,
    expires_at: i64,
    max_views: i32,
    nows: Seq<i64>,
    k: int,
)
    requires
        unique_ids(rows),
        freshly_shared(key, rows, id, secret, expires_at, max_views),
        forall|j: int| 0 <= j < nows.len() ==> #[trigger] nows[j] <= expires_at,
        0 <= k <= nows.len(),
    ensures
        k < max_views ==> unique_ids(after_views(key, rows, id, nows.take(k))) && lookup(
            after_views(key, rows, id, nows.take(k)),
            id,
        ) == Some(SecretView { view_count: k as i32, ..lookup(rows, id)->0 }),
        k >= max_views ==> lookup(after_views(key, rows, id, nows.take(k)), id) is None,
    decreases k,
{
    if k == 0 {
        assert(nows.take(0) =~= Seq::<i64>::empty());
    } else {
        lemma_state_after_views(key, rows, id, secret, expires_at, max_views, nows, k - 1);
        assert(nows.take(k).drop_last() =~= nows.take(k - 1));
        assert(nows.take(k).last() == nows[k - 1]);
        let before = after_views(key, rows, id, nows.take(k - 1));
        let after = after_views(key, rows, id, nows.take(k));
        assert(after == after_retrieve(key, before, id, nows[k - 1]).0);
        if k - 1 < max_views {
            if k < max_views {
                lemma_counted_row(before, id, k as i32);
            } else {
                lemma_deleted_is_absent(before, id);
            }
        }
    }
}

/// A secret shared with a budget of `max_views` views can be read exactly
/// that many times before it expires: each of these reads returns the
/// secret, with the views that remain counting down to zero, and every
/// read after them finds nothing.
pub proof fn lemma_views_until_exhausted(
    key: Seq<u8>,
    rows: Seq<SecretView>,
    id: Seq<char>,
    secret: Seq<char>,
    expires_at: i64,
    max_views: i32,
    nows: Seq<i64>,
    k: int,
)
    requires
        unique_ids(rows),
        freshly_shared(key, rows, id, secret, expires_at, max_views),
        forall|j: int| 0 <= j < nows.len() ==> #[trigger] nows[j] <= expires_at,
        0 <= k < nows.len(),
    ensures
        k < max_views ==> answer_of_view(key, rows, id, nows, k) == Ok::<
            (Seq<char>, i32),
            AppError,
        >((secret, (max_views - 1 - k) as i32)),
        k >= max_views ==> answer_of_view(key, rows, id, nows, k) == Err::<
            (Seq<char>, i32),
            AppError,
        >(AppError::NotFound),
{
    lemma_state_after_views(key, rows, id, secret, expires_at, max_views, nows, k);
}

/// A read of an id that is not in the table finds nothing and changes
/// nothing.
pub proof fn lemma_unknown_id_not_found(
    key: Seq<u8>,
    rows: Seq<SecretView>,
    id: Seq<char>,
    now: i64,
)
    requires
        !has_id(rows, id),
    ensures
        after_retrieve(key, rows, id, now) == (
            rows,
            Err::<(Seq<char>, i32), AppError>(AppError::NotFound),
        ),
{
}

/// A share puts no id into the table but its own, and a read puts none:
/// an id that was never shared is never there.
pub proof fn lemma_ids_come_from_shares(
    key: Seq<u8>,
    rows: Seq<SecretView>,
    secret: Seq<char>,
    expire_minutes: Option<i32>,
    max_views: Option<i32>,
    id: Seq<char>,
    now: i64,
    nonce: Seq<u8>,
    other: Seq<char>,
)
    requires
        !has_id(rows, other),
        other != id,
    ensures
        !has_id(
            after_share(key, rows, secret, expire_minutes, max_views, id, now, nonce).0,
            other,
        ),
        !has_id(after_retrieve(key, rows, id, now).0, other),
{
    let shared = after_share(key, rows, secret, expire_minutes, max_views, id, now, nonce).0;
    assert forall|j: int| 0 <= j < shared.len() implies (#[trigger] shared[j]).id != other by {
        if j < rows.len() {
            assert(rows[j].id != other);
        }
    }
    let read = after_retrieve(key, rows, id, now).0;
    assert forall|j: int| 0 <= j < read.len() implies (#[trigger] read[j]).id != other by {
        if read == rows {
            assert(rows[j].id != other);
        } else if read == without_id(rows, id) {
            assert(read.contains(read[j]));
            rows.lemma_filter_contains_rev(other_than(id), read[j]);
            let i = choose|i: int| 0 <= i < rows.len() && rows[i] == read[j];
            assert(rows[i].id != other);
        } else {
            assert(read[j].id == rows[j].id);
            assert(rows[j].id != other);
        }
    }
}

/// A read after the expiry finds nothing, however many views were left,
/// and the record is gone afterwards.
pub proof fn lemma_expired_is_gone(key: Seq<u8>, rows: Seq<SecretView>, id: Seq<char>, now: i64)
    requires
        lookup(rows, id) is Some,
        now > (lookup(rows, id)->0).expires_at,
    ensures
        after_retrieve(key, rows, id, now).1 == Err::<(Seq<char>, i32), AppError>(
            AppError::NotFound,
        ),
        lookup(after_retrieve(key, rows, id, now).0, id) is None,
{
    lemma_deleted_is_absent(rows, id);
}

/// The read that uses up the last view deletes the record: whatever is
/// read under that id afterwards, at any instant, finds nothing.
pub proof fn lemma_last_view_deletes(
    key: Seq<u8>,
    rows: Seq<SecretView>,
    id: Seq<char>,
    now: i64,
    later: i64,
)
    requires
        after_retrieve(key, rows, id, now).1 matches Ok(answer) && answer.1 == 0,
    ensures
        after_retrieve(key, after_retrieve(key, rows, id, now).0, id, later).1 == Err::<
            (Seq<char>, i32),
            AppError,
        >(AppError::NotFound),
{
    lemma_deleted_is_absent(rows, id);
}

/// The test that a row is past its expiry at `now`.
pub open spec fn expired_at(now: i64) -> spec_fn(SecretView) -> bool {
    |row: SecretView| !alive_at(now)(row)
}

/// The sweep removes exactly the expired rows: their number is the number
/// of rows that go, under the id of an expired row nothing is found
/// afterwards, and every other row is found as it was. A second sweep at
/// the same instant removes nothing.
pub proof fn lemma_purge_removes_exactly_expired(rows: Seq<SecretView>, now: i64, id: Seq<char>)
    requires
        unique_ids(rows),
    ensures
        unique_ids(purged(rows, now)),
        rows.len() - purged(rows, now).len() == rows.filter(expired_at(now)).len(),
        lookup(purged(rows, now), id) == match lookup(rows, id) {
            Some(row) => if expired(row, now) {
                None
            } else {
                Some(row)
            },
            None => None,
        },
        purged(purged(rows, now), now) == purged(rows, now),
{
    lemma_filter_lookup(rows, alive_at(now), id);
    lemma_filter_partition(rows, alive_at(now));
    assert(expired_at(now) == (|row: SecretView| !alive_at(now)(row)));
    let kept = purged(rows, now);
    assert forall|j: int| 0 <= j < kept.len() implies alive_at(now)(#[trigger] kept[j]) by {
        rows.lemma_filter_pred(alive_at(now), j);
    }
    lemma_filter_keeps_all(kept, alive_at(now));
}

} // verus!
