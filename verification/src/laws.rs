//! What holds of the registry across several requests.

use crate::ids::{is_lowest_free, lemma_lowest_free_exists, lemma_lowest_free_is};
use crate::notification::Notification;
use crate::registry::{close_map, close_result, has_room, notify_id, notify_map, RegistryError};
use vstd::prelude::*;

verus! {

/// The active notifications after every request of `batch` has been filed, in
/// order.
pub open spec fn notify_all(active: Map<u32, Notification>, batch: Seq<Notification>) -> Map<
    u32,
    Notification,
>
    decreases batch.len(),
{
    if batch.len() == 0 {
        active
    } else {
        notify_map(notify_all(active, batch.drop_last()), batch.last())
    }
}

/// The identifiers answered while filing `batch`, in order.
pub open spec fn notify_all_ids(active: Map<u32, Notification>, batch: Seq<Notification>) -> Seq<
    u32,
>
    decreases batch.len(),
{
    if batch.len() == 0 {
        Seq::empty()
    } else {
        notify_all_ids(active, batch.drop_last()).push(
            notify_id(notify_all(active, batch.drop_last()), batch.last().replaces_id),
        )
    }
}

/// Every request of `batch` asks for a fresh identifier.
pub open spec fn all_fresh(batch: Seq<Notification>) -> bool {
    forall|i: int| 0 <= i < batch.len() ==> (#[trigger] batch[i]).replaces_id == 0
}

/// A request for a fresh identifier is answered with a positive identifier
/// that no active notification has, and the registry grows by that one entry.
pub proof fn lemma_fresh_id_is_unused(active: Map<u32, Notification>, notification: Notification)
    requires
        active.dom().finite(),
        has_room(active),
        notification.replaces_id == 0,
    ensures
        notify_id(active, 0) >= 1,
        !active.contains_key(notify_id(active, 0)),
        is_lowest_free(active.dom(), notify_id(active, 0)),
        notify_map(active, notification).dom() == active.dom().insert(notify_id(active, 0)),
        notify_map(active, notification).dom().len() == active.dom().len() + 1,
{
    lemma_lowest_free_exists(active.dom());
}

/// A fresh identifier never coincides with one that is still open: whatever
/// happened since `open` was handed out, as long as it is still active, the
/// next fresh identifier differs from it.
pub proof fn lemma_fresh_id_differs_from_open(active: Map<u32, Notification>, open: u32)
    requires
        active.dom().finite(),
        has_room(active),
        active.contains_key(open),
    ensures
        notify_id(active, 0) != open,
{
    lemma_lowest_free_exists(active.dom());
}

/// Filing under a named identifier keeps that identifier, stores the new
/// notification there and leaves every other entry alone. The registry grows
/// by one entry where the identifier was free and keeps its size where it was
/// taken.
pub proof fn lemma_replace(active: Map<u32, Notification>, notification: Notification)
    requires
        active.dom().finite(),
        notification.replaces_id != 0,
    ensures
        notify_id(active, notification.replaces_id) == notification.replaces_id,
        notify_map(active, notification)[notification.replaces_id] == notification,
        notify_map(active, notification).dom() == active.dom().insert(notification.replaces_id),
        forall|k: u32|
            k != notification.replaces_id && active.contains_key(k) ==> notify_map(
                active,
                notification,
            )[k] == active[k],
        active.contains_key(notification.replaces_id) ==> notify_map(active, notification).dom().len()
            == active.dom().len(),
        !active.contains_key(notification.replaces_id) ==> notify_map(
            active,
            notification,
        ).dom().len() == active.dom().len() + 1,
{
}

/// Closing an active identifier succeeds and removes exactly that entry;
/// closing it once more answers `NotFound` and changes nothing.
pub proof fn lemma_close_twice(active: Map<u32, Notification>, id: u32)
    requires
        active.dom().finite(),
        active.contains_key(id),
    ensures
        close_result(active, id) == Ok::<(), RegistryError>(()),
        !close_map(active, id).contains_key(id),
        close_map(active, id).dom() == active.dom().remove(id),
        close_map(active, id).dom().len() == active.dom().len() - 1,
        forall|k: u32| k != id && active.contains_key(k) ==> close_map(active, id)[k] == active[k],
        close_result(close_map(active, id), id) == Err::<(), RegistryError>(
            RegistryError::NotFound,
        ),
        close_map(close_map(active, id), id) == close_map(active, id),
{
    assert(close_map(close_map(active, id), id) =~= close_map(active, id));
}

/// Closing an identifier makes it the answer to the next fresh request when
/// nothing lower is free.
pub proof fn lemma_closed_id_is_reused(active: Map<u32, Notification>, id: u32)
    requires
        active.dom().finite(),
        active.contains_key(id),
        id >= 1,
        forall|k: u32| 1 <= k < id ==> active.contains_key(k),
    ensures
        notify_id(close_map(active, id), 0) == id,
{
    lemma_lowest_free_is(close_map(active, id).dom(), id);
}

/// A batch of requests for fresh identifiers receives pairwise distinct
/// identifiers, none of which was active before; afterwards the registry holds
/// what it held before, unchanged, and each request of the batch under the
/// identifier it was answered with.
pub proof fn lemma_batch_ids_distinct(active: Map<u32, Notification>, batch: Seq<Notification>)
    requires
        active.dom().finite(),
        all_fresh(batch),
        active.dom().len() + batch.len() <= u32::MAX,
    ensures
        notify_all_ids(active, batch).len() == batch.len(),
        notify_all(active, batch).dom().finite(),
        notify_all(active, batch).dom().len() == active.dom().len() + batch.len(),
        forall|i: int|
            0 <= i < batch.len() ==> {
                &&& (#[trigger] notify_all_ids(active, batch)[i]) >= 1
                &&& !active.contains_key(notify_all_ids(active, batch)[i])
                &&& notify_all(active, batch).contains_key(notify_all_ids(active, batch)[i])
                &&& notify_all(active, batch)[notify_all_ids(active, batch)[i]] == batch[i]
            },
        forall|i: int, j: int|
            0 <= i < j < batch.len() ==> notify_all_ids(active, batch)[i] != notify_all_ids(
                active,
                batch,
            )[j],
        forall|k: u32| #[trigger]
            active.contains_key(k) ==> notify_all(active, batch).contains_key(k) && notify_all(
                active,
                batch,
            )[k] == active[k],
        forall|k: u32| #[trigger]
            notify_all(active, batch).contains_key(k) ==> active.contains_key(k)
                || notify_all_ids(active, batch).contains(k),
    decreases batch.len(),
{
    if batch.len() > 0 {
        let head = batch.drop_last();
        let before = notify_all(active, head);
        let head_ids = notify_all_ids(active, head);
        let ids = notify_all_ids(active, batch);
        let last = batch.last();
        let after = notify_all(active, batch);
        assert(all_fresh(head)) by {
            assert forall|i: int| 0 <= i < head.len() implies (#[trigger] head[i]).replaces_id
                == 0 by {
                assert(head[i] == batch[i]);
            }
        }
        lemma_batch_ids_distinct(active, head);
        lemma_fresh_id_is_unused(before, last);
        let id = notify_id(before, 0);
        assert(ids == head_ids.push(id));
        assert(after == before.insert(id, last));
        assert forall|i: int| 0 <= i < batch.len() implies {
            &&& (#[trigger] ids[i]) >= 1
            &&& !active.contains_key(ids[i])
            &&& after.contains_key(ids[i])
            &&& after[ids[i]] == batch[i]
        } by {
            if i < head.len() {
                assert(ids[i] == head_ids[i]);
                assert(head[i] == batch[i]);
                assert(before.contains_key(head_ids[i]));
            } else {
                assert(ids[i] == id);
                assert(active.contains_key(id) ==> before.contains_key(id));
            }
        }
        assert forall|k: u32| active.contains_key(k) implies after.contains_key(k) && after[k]
            == active[k] by {
            assert(before.contains_key(k));
        }
        assert forall|i: int, j: int| 0 <= i < j < batch.len() implies ids[i] != ids[j] by {
            assert(ids[i] == head_ids[i]);
            assert(before.contains_key(head_ids[i]));
            if j < head.len() {
                assert(ids[j] == head_ids[j]);
            }
        }
        assert forall|k: u32| after.contains_key(k) implies active.contains_key(k) || ids.contains(
            k,
        ) by {
            if k == id {
                assert(ids[batch.len() - 1] == k);
            } else if !active.contains_key(k) {
                assert(head_ids.contains(k));
                let w = choose|w: int| 0 <= w < head_ids.len() && head_ids[w] == k;
                assert(ids[w] == k);
            }
        }
    }
}

/// Filed into an empty registry, a batch of `n` requests for fresh
/// identifiers is answered with 1, 2, ..., `n` in that order, and the
/// registry then holds exactly those `n` entries.
pub proof fn lemma_batch_from_empty(batch: Seq<Notification>)
    requires
        all_fresh(batch),
        batch.len() <= u32::MAX,
    ensures
        notify_all_ids(Map::empty(), batch).len() == batch.len(),
        forall|i: int|
            0 <= i < batch.len() ==> (#[trigger] notify_all_ids(Map::empty(), batch)[i]) == i + 1,
        notify_all(Map::empty(), batch).dom().finite(),
        notify_all(Map::empty(), batch).dom().len() == batch.len(),
        forall|k: u32|
            notify_all(Map::empty(), batch).contains_key(k) <==> 1 <= k <= batch.len(),
        forall|i: int|
            0 <= i < batch.len() ==> notify_all(Map::empty(), batch)[(i + 1) as u32] == batch[i],
    decreases batch.len(),
{
    let empty = Map::<u32, Notification>::empty();
    if batch.len() > 0 {
        let head = batch.drop_last();
        let before = notify_all(empty, head);
        let head_ids = notify_all_ids(empty, head);
        let ids = notify_all_ids(empty, batch);
        let after = notify_all(empty, batch);
        assert(all_fresh(head)) by {
            assert forall|i: int| 0 <= i < head.len() implies (#[trigger] head[i]).replaces_id
                == 0 by {
                assert(head[i] == batch[i]);
            }
        }
        lemma_batch_from_empty(head);
        let id = (head.len() + 1) as u32;
        assert(is_lowest_free(before.dom(), id));
        lemma_lowest_free_is(before.dom(), id);
        assert(ids == head_ids.push(id));
        assert(after == before.insert(id, batch.last()));
        assert forall|i: int| 0 <= i < batch.len() implies (#[trigger] ids[i]) == i + 1 by {
            if i < head.len() {
                assert(ids[i] == head_ids[i]);
            }
        }
        assert forall|i: int| 0 <= i < batch.len() implies after[(i + 1) as u32] == batch[i] by {
            if i < head.len() {
                assert(head[i] == batch[i]);
                assert(before.contains_key((i + 1) as u32));
            }
        }
    }
}

} // verus!
