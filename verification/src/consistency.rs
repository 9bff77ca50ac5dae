//! What the cycle, the store and the queries come to together, stated over
//! a model of the store and of the feed's conditional answers.

use crate::api_actions::{status_answer, ApiResponseView, QueryError};
use crate::fetch_data::{
    get_alerts_spec, header_chars, is_header_text, is_success, AlertsResponseResult, FeedBody,
    FeedReply, FetchOutcome, NOT_MODIFIED,
};
use crate::processing::{
    cursor_after, is_reconciliation, status_text, stored_status, write_ids, StatusWriteView,
    StoreReply,
};
use vstd::prelude::*;

verus! {

/// The store after the first `done` of `writes`, where `delivered` says of
/// each write whether the store took it. A write that failed leaves the
/// store as it was; one that was taken replaces what the region had.
pub open spec fn store_after(
    store: Map<i32, Seq<char>>,
    writes: Seq<StatusWriteView>,
    delivered: Seq<bool>,
    done: nat,
) -> Map<i32, Seq<char>>
    decreases done,
{
    if done == 0 {
        store
    } else {
        let before = store_after(store, writes, delivered, (done - 1) as nat);
        if delivered[done - 1] {
            before.insert(writes[done - 1].location_id, writes[done - 1].value)
        } else {
            before
        }
    }
}

/// Whether `reply` is what a read of region `id` gives that reached `store`.
pub open spec fn is_read_of(reply: StoreReply, store: Map<i32, Seq<char>>, id: i32) -> bool {
    if store.dom().contains(id) {
        reply matches StoreReply::Value(text) && text@ == store[id]
    } else {
        reply is Missing
    }
}

/// Whether two stores hold the same for region `id`: nothing both, or the
/// same text.
pub open spec fn same_at(one: Map<i32, Seq<char>>, other: Map<i32, Seq<char>>, id: i32) -> bool {
    &&& one.dom().contains(id) <==> other.dom().contains(id)
    &&& one.dom().contains(id) ==> one[id] == other[id]
}

/// The two texts of a status differ, so that a status reads back as it was
/// written.
pub proof fn lemma_status_texts_differ()
    ensures
        status_text(true) != status_text(false),
{
    reveal_strlit("true");
    reveal_strlit("false");
    assert(status_text(true).len() == 4);
    assert(status_text(false).len() == 5);
}

/// A status that was written reads back as itself: a read that finds the
/// text of `active` gives `active`.
pub proof fn lemma_written_status_reads_back(active: bool, reply: StoreReply)
    requires
        reply matches StoreReply::Value(text) && text@ == status_text(active),
    ensures
        stored_status(reply) == Some(active),
{
    lemma_status_texts_differ();
}

/// Writes to different regions do not touch each other: after any part of
/// a list of writes to distinct regions, a region whose write was taken
/// holds what was written, and every other region holds what it held.
pub proof fn lemma_store_after_distinct_writes(
    store: Map<i32, Seq<char>>,
    writes: Seq<StatusWriteView>,
    delivered: Seq<bool>,
    done: nat,
)
    requires
        write_ids(writes).no_duplicates(),
        done <= writes.len(),
    ensures
        forall|i: int|
            #![trigger writes[i]]
            0 <= i < done && delivered[i] ==> {
                let after = store_after(store, writes, delivered, done);
                after.dom().contains(writes[i].location_id) && after[writes[i].location_id]
                    == writes[i].value
            },
        forall|id: i32|
            (forall|i: int| 0 <= i < done && delivered[i] ==> (#[trigger] writes[i]).location_id != id)
                ==> #[trigger] same_at(store, store_after(store, writes, delivered, done), id),
    decreases done,
{
    if done > 0 {
        let prev = (done - 1) as nat;
        lemma_store_after_distinct_writes(store, writes, delivered, prev);
        let before = store_after(store, writes, delivered, prev);
        let after = store_after(store, writes, delivered, done);
        assert forall|i: int| #![trigger writes[i]] 0 <= i < done && delivered[i] implies after.dom().contains(
            writes[i].location_id,
        ) && after[writes[i].location_id] == writes[i].value by {
            if i < prev {
                assert(write_ids(writes)[i] != write_ids(writes)[prev as int]);
            }
        }
        assert forall|id: i32|
            (forall|i: int|
                0 <= i < done && delivered[i] ==> (#[trigger] writes[i]).location_id
                    != id) implies #[trigger] same_at(store, after, id) by {
            assert(forall|i: int|
                0 <= i < prev && delivered[i] ==> (#[trigger] writes[i]).location_id != id);
            assert(same_at(store, before, id));
            if delivered[prev as int] {
                assert(writes[prev as int].location_id != id);
            }
        }
    }
}

/// A write that fails holds back no other: after the writes of a cycle,
/// whichever of them the store took, every region whose write was taken
/// holds its status of this cycle, every region whose write failed holds
/// what it held before, and no region outside the registry was touched.
pub proof fn lemma_failed_write_spares_others(
    store: Map<i32, Seq<char>>,
    writes: Seq<StatusWriteView>,
    delivered: Seq<bool>,
    regions: Set<i32>,
    active: Seq<i32>,
)
    requires
        is_reconciliation(writes, regions, active),
        delivered.len() == writes.len(),
    ensures
        forall|i: int|
            #![trigger writes[i]]
            0 <= i < writes.len() ==> {
                let after = store_after(store, writes, delivered, writes.len());
                let id = writes[i].location_id;
                if delivered[i] {
                    after.dom().contains(id) && after[id] == status_text(active.contains(id))
                } else {
                    same_at(store, after, id)
                }
            },
        forall|id: i32|
            !regions.contains(id) ==> #[trigger] same_at(
                store,
                store_after(store, writes, delivered, writes.len()),
                id,
            ),
{
    let after = store_after(store, writes, delivered, writes.len());
    lemma_store_after_distinct_writes(store, writes, delivered, writes.len());
    assert forall|i: int| #![trigger writes[i]] 0 <= i < writes.len() implies {
        let id = writes[i].location_id;
        if delivered[i] {
            after.dom().contains(id) && after[id] == status_text(active.contains(id))
        } else {
            same_at(store, after, id)
        }
    } by {
        let id = writes[i].location_id;
        if !delivered[i] {
            assert forall|k: int| 0 <= k < writes.len() && delivered[k] implies (
            #[trigger] writes[k]).location_id != id by {
                assert(write_ids(writes)[k] != write_ids(writes)[i]);
            }
            assert(same_at(store, after, id));
        }
    }
    assert forall|id: i32| !regions.contains(id) implies #[trigger] same_at(store, after, id) by {
        assert forall|k: int| 0 <= k < writes.len() && delivered[k] implies (
        #[trigger] writes[k]).location_id != id by {
            assert(write_ids(writes)[k] == writes[k].location_id);
            assert(write_ids(writes).contains(writes[k].location_id));
        }
    }
}

/// The store holds statuses of regions of the registry only: a store that
/// held none for any other region holds none after the writes of a cycle.
pub proof fn lemma_store_stays_within_registry(
    store: Map<i32, Seq<char>>,
    writes: Seq<StatusWriteView>,
    delivered: Seq<bool>,
    regions: Set<i32>,
    active: Seq<i32>,
)
    requires
        is_reconciliation(writes, regions, active),
        delivered.len() == writes.len(),
        store.dom().subset_of(regions),
    ensures
        store_after(store, writes, delivered, writes.len()).dom().subset_of(regions),
{
    let after = store_after(store, writes, delivered, writes.len());
    lemma_failed_write_spares_others(store, writes, delivered, regions, active);
    assert forall|id: i32| after.dom().contains(id) implies regions.contains(id) by {
        if !regions.contains(id) {
            assert(same_at(store, after, id));
        }
    }
}

/// A region whose write failed is written again by the next cycle that
/// synchronises, and is right once that write is taken: whatever state
/// `left` earlier cycles left the store in, the writes of a cycle name
/// every region of the registry, and a region whose write is taken then
/// holds the status that the feed gives it.
pub proof fn lemma_failed_write_is_retried(
    left: Map<i32, Seq<char>>,
    writes: Seq<StatusWriteView>,
    delivered: Seq<bool>,
    regions: Set<i32>,
    active: Seq<i32>,
    id: i32,
)
    requires
        is_reconciliation(writes, regions, active),
        delivered.len() == writes.len(),
        regions.contains(id),
    ensures
        exists|i: int| 0 <= i < writes.len() && (#[trigger] writes[i]).location_id == id,
        forall|i: int|
            0 <= i < writes.len() && (#[trigger] writes[i]).location_id == id && delivered[i] ==> {
                let after = store_after(left, writes, delivered, writes.len());
                after.dom().contains(id) && after[id] == status_text(active.contains(id))
            },
{
    lemma_failed_write_spares_others(left, writes, delivered, regions, active);
    assert(write_ids(writes).contains(id));
    let k = choose|k: int| 0 <= k < write_ids(writes).len() && write_ids(writes)[k] == id;
    assert(writes[k].location_id == id);
}

/// A question about a region that the registry does not know is refused
/// as `UnknownRegion` whatever the store would say, so the store need not
/// be read for it.
pub proof fn lemma_unknown_region_is_refused(
    registry: Map<i32, String>,
    id: i32,
    reply: Option<StoreReply>,
)
    requires
        !registry.dom().contains(id),
    ensures
        status_answer(registry, id, reply) == Err::<ApiResponseView, QueryError>(
            QueryError::UnknownRegion,
        ),
{
}

/// After a cycle, a question about a region whose write the store took is
/// answered with the status that the feed gave it: active exactly when the
/// region is under alarm, under the registry's name. A question about any
/// other identifier than the registry's is `UnknownRegion`.
pub proof fn lemma_query_after_cycle(
    registry: Map<i32, String>,
    store: Map<i32, Seq<char>>,
    writes: Seq<StatusWriteView>,
    delivered: Seq<bool>,
    active: Seq<i32>,
    id: i32,
    reply: StoreReply,
)
    requires
        is_reconciliation(writes, registry.dom(), active),
        delivered.len() == writes.len(),
        forall|i: int|
            0 <= i < writes.len() && (#[trigger] writes[i]).location_id == id ==> delivered[i],
        is_read_of(reply, store_after(store, writes, delivered, writes.len()), id),
    ensures
        status_answer(registry, id, Some(reply)) == if registry.dom().contains(id) {
            Ok::<ApiResponseView, QueryError>(
                ApiResponseView {
                    location_uid: id,
                    location_name: registry[id]@,
                    is_active_air_alarm: active.contains(id),
                },
            )
        } else {
            Err::<ApiResponseView, QueryError>(QueryError::UnknownRegion)
        },
{
    if registry.dom().contains(id) {
        lemma_failed_write_is_retried(store, writes, delivered, registry.dom(), active, id);
        let i = choose|i: int| 0 <= i < writes.len() && (#[trigger] writes[i]).location_id == id;
        assert(delivered[i]);
        lemma_written_status_reads_back(active.contains(id), reply);
    }
}

/// Whether `reply` is what a feed that holds `document` under the
/// freshness token `token` answers to a request that carries `cursor`:
/// "not modified" where the cursor is the token, else the document with
/// the token in its freshness header.
pub open spec fn answers_conditionally(
    reply: FeedReply,
    cursor: Seq<char>,
    token: Seq<char>,
    document: AlertsResponseResult,
) -> bool {
    if cursor == token {
        reply matches FeedReply::Answered { status, .. } && status == NOT_MODIFIED
    } else {
        &&& reply matches FeedReply::Answered { status, last_modified, body }
        &&& is_success(status)
        &&& last_modified matches Some(header)
        &&& is_header_text(header@)
        &&& header_chars(header@) == token
        &&& body == FeedBody::Decoded(document)
    }
}

/// A cycle that is run again on an unchanged feed does nothing: where the
/// feed answers both requests conditionally, the second request carries
/// the cursor that the first cycle left, and the second cycle ends as
/// `NoChange`, which writes nothing and keeps the cursor.
pub proof fn lemma_second_cycle_is_no_op(
    cursor: Seq<char>,
    token: Seq<char>,
    document: AlertsResponseResult,
    first: FeedReply,
    second: FeedReply,
)
    requires
        answers_conditionally(first, cursor, token, document),
        answers_conditionally(second, cursor_after(cursor, first), token, document),
    ensures
        cursor_after(cursor, first) == token,
        get_alerts_spec(second) == Err::<(AlertsResponseResult, Seq<char>), FetchOutcome>(
            FetchOutcome::NoChange,
        ),
        cursor_after(cursor_after(cursor, first), second) == cursor_after(cursor, first),
{
}

} // verus!
