//! The store of region statuses and the synchronisation cycle: which status
//! each region gets from a reply of the feed, and how a status is written
//! and read back.

use crate::data_actions::{
    alarm_views, current_alarm_of, deserialize_current_alarms_data, is_current_alarm,
    normalize_spec, CurrentAlarm, CurrentAlarmView,
};
use crate::fetch_data::{get_alerts_spec, FeedReply, FetchOutcome, Location};
use crate::other_data::region_ids;
use std::collections::HashMap;
use vstd::prelude::*;
use vstd::string::StringExecFns;

verus! {

broadcast use vstd::std_specs::hash::group_hash_axioms;

/// The address of the store for a user, a password and a host.
pub open spec fn store_url(usr: Seq<char>, passwd: Seq<char>, host: Seq<char>) -> Seq<char> {
    "redis://"@ + usr + ":"@ + passwd + "@"@ + host + ":6380/0"@
}

/// The address under which the store is reached.
pub fn redis_connection_url(usr: &str, passwd: &str, host: &str) -> (url: String)
    ensures
        url@ == store_url(usr@, passwd@, host@),
{
    let mut url = String::from_str("redis://");
    url.append(usr);
    url.append(":");
    url.append(passwd);
    url.append("@");
    url.append(host);
    url.append(":6380/0");
    url
}

/// How the store holds a status.
pub open spec fn status_text(active: bool) -> Seq<char> {
    if active {
        "true"@
    } else {
        "false"@
    }
}

/// One write to the store: the status of one region.
#[derive(Debug, Clone, PartialEq, Eq)]
pub struct StatusWrite {
    pub location_id: i32,
    pub value: String,
}

/// What a `StatusWrite` stands for.
pub struct StatusWriteView {
    pub location_id: i32,
    pub value: Seq<char>,
}

impl View for StatusWrite {
    type V = StatusWriteView;

    open spec fn view(&self) -> StatusWriteView {
        StatusWriteView { location_id: self.location_id, value: self.value@ }
    }
}

/// The write that gives region `location_id` the status `active`.
pub open spec fn status_write(location_id: i32, active: bool) -> StatusWriteView {
    StatusWriteView { location_id, value: status_text(active) }
}

/// The write that sets the alarm status of a region.
pub fn set_alarm_status(location_id: i32, new_status: bool) -> (write: StatusWrite)
    ensures
        write@ == status_write(location_id, new_status),
{
    let value = if new_status {
        String::from_str("true")
    } else {
        String::from_str("false")
    };
    StatusWrite { location_id, value }
}

/// What a read of one region's status came to.
#[derive(Debug, Clone, PartialEq, Eq)]
pub enum StoreReply {
    /// The store could not be reached.
    Unreachable,
    /// The store holds nothing for the region.
    Missing,
    /// The store holds this text for the region.
    Value(String),
}

/// The status that a read gives, if it gives one: a stored text means an
/// active alarm exactly when it is the text of `true`.
pub open spec fn stored_status(reply: StoreReply) -> Option<bool> {
    match reply {
        StoreReply::Value(text) => Some(text@ == status_text(true)),
        _ => None,
    }
}

/// Whether the alarm of a region is active, from a read of its status.
/// `None` where the read gave no status.
pub fn check_alarm(reply: &StoreReply) -> (status: Option<bool>)
    ensures
        status == stored_status(*reply),
{
    match reply {
        StoreReply::Value(text) => {
            let active = String::from_str("true");
            Some(*text == active)
        },
        _ => None,
    }
}

/// The identifiers of `ids`, each once, in the order of first occurrence.
pub open spec fn distinct(ids: Seq<i32>) -> Seq<i32>
    decreases ids.len(),
{
    if ids.len() == 0 {
        Seq::empty()
    } else {
        let rest = distinct(ids.drop_last());
        if rest.contains(ids.last()) {
            rest
        } else {
            rest.push(ids.last())
        }
    }
}

/// A sequence with one more element holds what it held before, and that element.
proof fn lemma_push_contains(ids: Seq<i32>, last: i32, id: i32)
    ensures
        ids.push(last).contains(id) <==> ids.contains(id) || id == last,
{
    let longer = ids.push(last);
    if ids.contains(id) {
        let k = choose|k: int| 0 <= k < ids.len() && ids[k] == id;
        assert(longer[k] == id);
    }
    if id == last {
        assert(longer[ids.len() as int] == id);
    }
}

/// `distinct` keeps every identifier and repeats none.
pub proof fn lemma_distinct(ids: Seq<i32>)
    ensures
        distinct(ids).no_duplicates(),
        forall|id: i32|
            #![trigger distinct(ids).contains(id)]
            #![trigger ids.contains(id)]
            distinct(ids).contains(id) <==> ids.contains(id),
    decreases ids.len(),
{
    if ids.len() > 0 {
        let front = ids.drop_last();
        let last = ids.last();
        lemma_distinct(front);
        assert(ids =~= front.push(last));
        assert forall|id: i32| #[trigger] distinct(ids).contains(id) <==> ids.contains(id) by {
            lemma_push_contains(front, last, id);
            lemma_push_contains(distinct(front), last, id);
            lemma_push_contains(front, last, last);
            assert(distinct(front).contains(id) <==> front.contains(id));
            assert(distinct(front).contains(last) <==> front.contains(last));
        }
    }
}

/// The region of each alarm, in the order of the alarms.
pub open spec fn alarm_regions(alarms: Seq<CurrentAlarmView>) -> Seq<i32> {
    alarms.map_values(|alarm: CurrentAlarmView| alarm.location_oblast_uid as i32)
}

/// The regions under alarm: the region of each alarm, once.
pub open spec fn active_regions(alarms: Seq<CurrentAlarmView>) -> Seq<i32> {
    distinct(alarm_regions(alarms))
}

fn holds(ids: &Vec<i32>, id: i32) -> (found: bool)
    ensures
        found == ids@.contains(id),
{
    let mut i: usize = 0;
    while i < ids.len()
        invariant
            i <= ids.len(),
            forall|k: int| 0 <= k < i ==> ids@[k] != id,
        decreases ids.len() - i,
    {
        if ids[i] == id {
            return true;
        }
        i += 1;
    }
    false
}

/// The regions under alarm. Several alarms of one region count once: what
/// matters is that the region has an alarm, not how many.
pub fn active_region_ids(alarms: &Vec<CurrentAlarm>) -> (ids: Vec<i32>)
    ensures
        ids@ == active_regions(alarm_views(alarms@)),
{
    let mut ids: Vec<i32> = Vec::new();
    let ghost regions = alarm_regions(alarm_views(alarms@));
    let mut i: usize = 0;
    proof {
        assert(regions.take(0) =~= Seq::<i32>::empty());
    }
    while i < alarms.len()
        invariant
            i <= alarms.len(),
            regions == alarm_regions(alarm_views(alarms@)),
            regions.len() == alarms.len(),
            ids@ == distinct(regions.take(i as int)),
        decreases alarms.len() - i,
    {
        let region = alarms[i]._location_oblast_uid as i32;
        proof {
            assert(regions.take(i + 1).drop_last() =~= regions.take(i as int));
            assert(regions.take(i + 1).last() == region);
        }
        if !holds(&ids, region) {
            ids.push(region);
        }
        i += 1;
    }
    proof {
        assert(regions.take(i as int) =~= regions);
    }
    ids
}

/// The regions of the registry that are not under alarm, each once. They
/// come in the order in which the registry hands out its regions.
pub fn inactive_region_ids(registry: &HashMap<i32, String>, active: &Vec<i32>) -> (ids: Vec<i32>)
    ensures
        ids@.no_duplicates(),
        forall|id: i32|
            #![trigger ids@.contains(id)]
            #![trigger registry@.dom().contains(id)]
            ids@.contains(id) <==> registry@.dom().contains(id) && !active@.contains(id),
{
    let all = region_ids(registry);
    let mut ids: Vec<i32> = Vec::new();
    let mut i: usize = 0;
    while i < all.len()
        invariant
            i <= all.len(),
            all@.no_duplicates(),
            ids@.no_duplicates(),
            forall|id: i32|
                ids@.contains(id) <==> all@.take(i as int).contains(id) && !active@.contains(id),
        decreases all.len() - i,
    {
        let region = all[i];
        let ghost seen = all@.take(i as int);
        let ghost before = ids@;
        proof {
            assert(all@.take(i + 1) =~= seen.push(region));
            if seen.contains(region) {
                let k = choose|k: int| 0 <= k < i && seen[k] == region;
                assert(all@[k] == all@[i as int]);
            }
            assert(before.contains(region) <==> seen.contains(region) && !active@.contains(region));
        }
        let is_active = holds(active, region);
        if !is_active {
            ids.push(region);
        }
        proof {
            assert forall|id: i32|
                ids@.contains(id) <==> all@.take(i + 1).contains(id) && !active@.contains(
                    id,
                ) by {
                lemma_push_contains(seen, region, id);
                lemma_push_contains(before, region, id);
                assert(before.contains(id) <==> seen.contains(id) && !active@.contains(id));
            }
        }
        i += 1;
    }
    proof {
        assert(all@.take(i as int) =~= all@);
    }
    ids
}

/// How a cycle ended when it synchronised nothing.
/// `NoChange` is the common case and no fault: the feed had nothing new.
#[derive(Debug, Clone, Copy, PartialEq, Eq, Structural)]
pub enum CycleOutcome {
    NoChange,
    TransportError,
    DecodeError,
    MissingFreshnessHeader,
}

/// The end of a cycle whose fetch ended with `outcome`.
pub open spec fn cycle_outcome(outcome: FetchOutcome) -> CycleOutcome {
    match outcome {
        FetchOutcome::NoChange => CycleOutcome::NoChange,
        FetchOutcome::TransportError => CycleOutcome::TransportError,
        FetchOutcome::DecodeError => CycleOutcome::DecodeError,
        FetchOutcome::MissingFreshnessHeader => CycleOutcome::MissingFreshnessHeader,
    }
}

fn ended_with(outcome: FetchOutcome) -> (ended: CycleOutcome)
    ensures
        ended == cycle_outcome(outcome),
{
    match outcome {
        FetchOutcome::NoChange => CycleOutcome::NoChange,
        FetchOutcome::TransportError => CycleOutcome::TransportError,
        FetchOutcome::DecodeError => CycleOutcome::DecodeError,
        FetchOutcome::MissingFreshnessHeader => CycleOutcome::MissingFreshnessHeader,
    }
}

/// What a cycle that synchronises decided: the cursor to keep, and for
/// every region of the registry whether its alarm is active.
#[derive(Debug, Clone, PartialEq, Eq)]
pub struct CyclePlan {
    /// The cursor for the next request.
    pub cursor: String,
    /// The regions under alarm.
    pub active_ids: Vec<i32>,
    /// The other regions of the registry.
    pub inactive_ids: Vec<i32>,
}

/// The writes that mark each of `ids` as `active`, in the order of `ids`.
pub open spec fn status_writes(ids: Seq<i32>, active: bool) -> Seq<StatusWriteView> {
    ids.map_values(|id: i32| status_write(id, active))
}

/// What a list of writes stands for.
pub open spec fn write_views(writes: Seq<StatusWrite>) -> Seq<StatusWriteView> {
    writes.map_values(|write: StatusWrite| write@)
}

/// The region of each write, in the order of the writes.
pub open spec fn write_ids(writes: Seq<StatusWriteView>) -> Seq<i32> {
    writes.map_values(|write: StatusWriteView| write.location_id)
}

/// Whether `writes` bring the store in line with the feed: each region of
/// `regions` is written once, no other region is written, and a region is
/// written as active exactly when it is among `active`.
pub open spec fn is_reconciliation(
    writes: Seq<StatusWriteView>,
    regions: Set<i32>,
    active: Seq<i32>,
) -> bool {
    &&& write_ids(writes).no_duplicates()
    &&& forall|id: i32|
        #![trigger write_ids(writes).contains(id)]
        #![trigger regions.contains(id)]
        write_ids(writes).contains(id) <==> regions.contains(id)
    &&& forall|i: int|
        0 <= i < writes.len() ==> #[trigger] writes[i] == status_write(
            writes[i].location_id,
            active.contains(writes[i].location_id),
        )
}

impl CyclePlan {
    /// Whether the plan is the one for these alarms and this registry: the
    /// active regions are those of the alarms, the inactive ones are the
    /// rest of the registry, each once.
    pub open spec fn reconciles(&self, registry: Map<i32, String>, alarms: Seq<CurrentAlarmView>) -> bool {
        &&& self.active_ids@ == active_regions(alarms)
        &&& self.inactive_ids@.no_duplicates()
        &&& forall|id: i32|
            #![trigger self.inactive_ids@.contains(id)]
            #![trigger registry.dom().contains(id)]
            self.inactive_ids@.contains(id) <==> registry.dom().contains(id)
                && !self.active_ids@.contains(id)
    }

    /// The writes of the plan: the active regions first, then the others.
    pub open spec fn write_views(&self) -> Seq<StatusWriteView> {
        status_writes(self.active_ids@, true) + status_writes(self.inactive_ids@, false)
    }

    /// The writes that carry the plan out. They need no order among them,
    /// and one that fails holds back none of the others.
    pub fn writes(&self) -> (writes: Vec<StatusWrite>)
        ensures
            write_views(writes@) == self.write_views(),
    {
        let mut writes: Vec<StatusWrite> = Vec::new();
        let mut i: usize = 0;
        while i < self.active_ids.len()
            invariant
                i <= self.active_ids.len(),
                write_views(writes@) == status_writes(self.active_ids@.take(i as int), true),
            decreases self.active_ids.len() - i,
        {
            let write = set_alarm_status(self.active_ids[i], true);
            proof {
                let seen = self.active_ids@.take(i as int);
                assert(self.active_ids@.take(i + 1) =~= seen.push(self.active_ids@[i as int]));
                seen.lemma_push_map_commute(
                    |id: i32| status_write(id, true),
                    self.active_ids@[i as int],
                );
                writes@.lemma_push_map_commute(|write: StatusWrite| write@, write);
            }
            writes.push(write);
            i += 1;
        }
        proof {
            assert(self.active_ids@.take(i as int) =~= self.active_ids@);
        }
        let mut j: usize = 0;
        while j < self.inactive_ids.len()
            invariant
                j <= self.inactive_ids.len(),
                write_views(writes@) == status_writes(self.active_ids@, true) + status_writes(
                    self.inactive_ids@.take(j as int),
                    false,
                ),
            decreases self.inactive_ids.len() - j,
        {
            let write = set_alarm_status(self.inactive_ids[j], false);
            proof {
                let seen = self.inactive_ids@.take(j as int);
                assert(self.inactive_ids@.take(j + 1) =~= seen.push(self.inactive_ids@[j as int]));
                seen.lemma_push_map_commute(
                    |id: i32| status_write(id, false),
                    self.inactive_ids@[j as int],
                );
                writes@.lemma_push_map_commute(|write: StatusWrite| write@, write);
                assert((status_writes(self.active_ids@, true) + status_writes(seen, false)).push(
                    write@,
                ) =~= status_writes(self.active_ids@, true) + status_writes(seen, false).push(
                    write@,
                ));
            }
            writes.push(write);
            j += 1;
        }
        proof {
            assert(self.inactive_ids@.take(j as int) =~= self.inactive_ids@);
        }
        writes
    }
}

/// Every region under alarm is a region of the registry: alerts of other
/// regions do not count.
pub proof fn lemma_active_regions_known(alerts: Seq<Location>, registry: Map<i32, String>)
    ensures
        forall|id: i32| #[trigger]
            active_regions(normalize_spec(alerts, registry)).contains(id)
                ==> registry.dom().contains(id),
{
    let keep = |alert: Location| is_current_alarm(alert, registry);
    let kept = alerts.filter(keep);
    let regions = alarm_regions(normalize_spec(alerts, registry));
    lemma_distinct(regions);
    assert forall|id: i32| #[trigger]
        active_regions(normalize_spec(alerts, registry)).contains(id) implies registry.dom().contains(
        id,
    ) by {
        assert(regions.contains(id));
        let k = choose|k: int| 0 <= k < regions.len() && regions[k] == id;
        alerts.lemma_filter_pred(keep, k);
        assert(keep(kept[k]));
        assert(regions[k] == current_alarm_of(kept[k], registry).location_oblast_uid as i32);
    }
}

/// The writes of a plan that reconciles bring the store in line with the
/// feed: every region of the registry is written once, and as active
/// exactly when it is under alarm.
pub proof fn lemma_plan_writes_reconcile(
    plan: CyclePlan,
    registry: Map<i32, String>,
    alerts: Seq<Location>,
)
    requires
        plan.reconciles(registry, normalize_spec(alerts, registry)),
    ensures
        is_reconciliation(plan.write_views(), registry.dom(), plan.active_ids@),
{
    let active = plan.active_ids@;
    let inactive = plan.inactive_ids@;
    let writes = plan.write_views();
    let ids = write_ids(writes);
    lemma_distinct(alarm_regions(normalize_spec(alerts, registry)));
    lemma_active_regions_known(alerts, registry);
    assert(ids =~= active + inactive);
    assert forall|i: int, j: int| 0 <= i < j < ids.len() implies ids[i] != ids[j] by {
        if j < active.len() {
        } else if i >= active.len() {
            assert(inactive[i - active.len()] != inactive[j - active.len()]);
        } else {
            assert(active.contains(active[i]));
            assert(inactive.contains(inactive[j - active.len()]));
        }
    }
    assert forall|id: i32| ids.contains(id) <==> registry.dom().contains(id) by {
        if ids.contains(id) {
            let k = choose|k: int| 0 <= k < ids.len() && ids[k] == id;
            if k < active.len() {
                assert(active.contains(active[k]));
            } else {
                assert(inactive.contains(inactive[k - active.len()]));
            }
        }
        if registry.dom().contains(id) {
            if active.contains(id) {
                let k = choose|k: int| 0 <= k < active.len() && active[k] == id;
                assert(ids[k] == id);
            } else {
                assert(inactive.contains(id));
                let k = choose|k: int| 0 <= k < inactive.len() && inactive[k] == id;
                assert(ids[active.len() + k] == id);
            }
        }
    }
    assert forall|i: int| 0 <= i < writes.len() implies #[trigger] writes[i] == status_write(
        writes[i].location_id,
        active.contains(writes[i].location_id),
    ) by {
        if i < active.len() {
            assert(active.contains(active[i]));
        } else {
            assert(inactive.contains(inactive[i - active.len()]));
        }
    }
}

/// One cycle, from the reply to its request: what to write, and the
/// cursor to keep.
///
/// Where the fetch brought no document, the cycle ends with the outcome of
/// the fetch and decides nothing: there is nothing to write, and the cursor
/// stays. Else every region of the registry is either active or inactive,
/// none is both, and the cursor is the one that came with the document.
pub fn run_cycle(registry: &HashMap<i32, String>, reply: FeedReply) -> (cycle: Result<
    CyclePlan,
    CycleOutcome,
>)
    ensures
        match get_alerts_spec(reply) {
            Ok((payload, cursor)) => {
                &&& cycle matches Ok(plan)
                &&& plan.cursor@ == cursor
                &&& plan.reconciles(registry@, normalize_spec(payload.alerts@, registry@))
                &&& plan.active_ids@.no_duplicates()
                &&& plan.active_ids@.to_set().disjoint(plan.inactive_ids@.to_set())
                &&& plan.active_ids@.to_set().union(plan.inactive_ids@.to_set()) == registry@.dom()
            },
            Err(outcome) => cycle == Err::<CyclePlan, CycleOutcome>(cycle_outcome(outcome)),
        },
{
    let ghost fetched = get_alerts_spec(reply);
    match deserialize_current_alarms_data(reply, registry) {
        Ok((alarms, cursor)) => {
            let active_ids = active_region_ids(&alarms);
            let inactive_ids = inactive_region_ids(registry, &active_ids);
            proof {
                lemma_distinct(alarm_regions(alarm_views(alarms@)));
                lemma_active_regions_known(fetched->Ok_0.0.alerts@, registry@);
                assert(active_ids@.to_set().union(inactive_ids@.to_set()) =~= registry@.dom());
            }
            Ok(CyclePlan { cursor, active_ids, inactive_ids })
        },
        Err(outcome) => Err(ended_with(outcome)),
    }
}

/// The cursor after a cycle: the one that came with the document, or the
/// old one where the fetch brought none. A cycle never takes it back.
pub open spec fn cursor_after(cursor: Seq<char>, reply: FeedReply) -> Seq<char> {
    match get_alerts_spec(reply) {
        Ok((_, next)) => next,
        Err(_) => cursor,
    }
}

/// What one turn of the synchronisation loop leaves: the cursor for the
/// next request, the writes to make before the loop sleeps, and how the
/// cycle ended if it synchronised nothing.
#[derive(Debug, Clone, PartialEq, Eq)]
pub struct CycleStep {
    pub cursor: String,
    pub writes: Vec<StatusWrite>,
    pub ended: Option<CycleOutcome>,
}

/// One turn of the synchronisation loop: from the cursor that the request
/// carried and the reply that came, the cursor to go on with and the writes
/// to make.
///
/// A cycle that brought no document changes nothing: the cursor stays, and
/// nothing is written. The loop goes on either way.
pub fn update_data(registry: &HashMap<i32, String>, cursor: String, reply: FeedReply) -> (step:
    CycleStep)
    ensures
        step.cursor@ == cursor_after(cursor@, reply),
        match get_alerts_spec(reply) {
            Ok((payload, next)) => {
                &&& step.ended is None
                &&& is_reconciliation(
                    write_views(step.writes@),
                    registry@.dom(),
                    active_regions(normalize_spec(payload.alerts@, registry@)),
                )
            },
            Err(outcome) => {
                &&& step.writes@.len() == 0
                &&& step.ended == Some(cycle_outcome(outcome))
            },
        },
{
    let ghost fetched = get_alerts_spec(reply);
    match run_cycle(registry, reply) {
        Ok(plan) => {
            let writes = plan.writes();
            proof {
                lemma_plan_writes_reconcile(plan, registry@, fetched->Ok_0.0.alerts@);
            }
            CycleStep { cursor: plan.cursor, writes, ended: None }
        },
        Err(ended) => CycleStep { cursor, writes: Vec::new(), ended: Some(ended) },
    }
}

/// How often the feed is polled in a minute.
pub const POLLS_PER_MINUTE: u64 = 9;

/// The pause between two polls, in milliseconds: a minute shared out
/// evenly among the polls, to the millisecond.
pub fn poll_interval_millis() -> (millis: u64)
    ensures
        millis == 60_000int / POLLS_PER_MINUTE as int,
        millis == 6666,
{
    60_000 / POLLS_PER_MINUTE
}

} // verus!
