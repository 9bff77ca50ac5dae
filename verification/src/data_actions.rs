//! From the feed document to the alarms that count: air-raid alerts of
//! regions that the registry knows.

use crate::fetch_data::{get_alerts, get_alerts_spec, AlertsResponseResult, FeedReply, FetchOutcome, Location};
use std::collections::HashMap;
use vstd::prelude::*;
use vstd::string::StringExecFns;

verus! {

broadcast use vstd::std_specs::hash::group_hash_axioms;

/// An air-raid alert in a region of the registry.
#[derive(Debug, Clone, PartialEq, Eq)]
pub struct CurrentAlarm {
    /// The feed's identifier of the place, where the alert carried one.
    pub _location_uid: Option<String>,
    /// The region under alarm.
    pub _location_oblast_uid: i16,
    /// The feed's title of the place.
    pub _location_title: String,
    /// The region's name, as the registry has it.
    pub _location_oblast: String,
    /// When the alert began, as the feed wrote it.
    pub _started_at: String,
}

/// What a `CurrentAlarm` stands for.
pub struct CurrentAlarmView {
    pub location_uid: Option<Seq<char>>,
    pub location_oblast_uid: i16,
    pub location_title: Seq<char>,
    pub location_oblast: Seq<char>,
    pub started_at: Seq<char>,
}

impl View for CurrentAlarm {
    type V = CurrentAlarmView;

    open spec fn view(&self) -> CurrentAlarmView {
        CurrentAlarmView {
            location_uid: text_of(self._location_uid),
            location_oblast_uid: self._location_oblast_uid,
            location_title: self._location_title@,
            location_oblast: self._location_oblast@,
            started_at: self._started_at@,
        }
    }
}

/// The characters of an optional text.
pub open spec fn text_of(text: Option<String>) -> Option<Seq<char>> {
    match text {
        Some(t) => Some(t@),
        None => None,
    }
}

/// The alert type that this library tracks.
pub open spec fn air_raid_tag() -> Seq<char> {
    "air_raid"@
}

/// Whether an alert counts: it is an air-raid alert, it names its region,
/// and the registry knows that region.
pub open spec fn is_current_alarm(alert: Location, registry: Map<i32, String>) -> bool {
    &&& alert.alert_type@ == air_raid_tag()
    &&& alert.location_oblast_uid is Some
    &&& registry.dom().contains(alert.location_oblast_uid->0 as i32)
}

/// The alarm that an alert which counts gives: the region with the
/// registry's name for it, and what the feed said of place and time.
pub open spec fn current_alarm_of(alert: Location, registry: Map<i32, String>) -> CurrentAlarmView {
    CurrentAlarmView {
        location_uid: text_of(alert.location_uid),
        location_oblast_uid: alert.location_oblast_uid->0,
        location_title: alert.location_title@,
        location_oblast: registry[alert.location_oblast_uid->0 as i32]@,
        started_at: alert.started_at@,
    }
}

/// The alarms of a list of alerts: one for each alert that counts, in the
/// order of the alerts.
pub open spec fn normalize_spec(alerts: Seq<Location>, registry: Map<i32, String>) -> Seq<
    CurrentAlarmView,
> {
    alerts.filter(|alert: Location| is_current_alarm(alert, registry)).map_values(
        |alert: Location| current_alarm_of(alert, registry),
    )
}

/// The alarms that a list holds.
pub open spec fn alarm_views(alarms: Seq<CurrentAlarm>) -> Seq<CurrentAlarmView> {
    alarms.map_values(|alarm: CurrentAlarm| alarm@)
}

fn clone_text(text: &Option<String>) -> (copy: Option<String>)
    ensures
        text_of(copy) == text_of(*text),
{
    match text {
        Some(t) => Some(t.clone()),
        None => None,
    }
}

/// Keeps of a feed document the alerts that count, each as an alarm.
/// Alerts of another type, without a region, or of a region that the
/// registry does not know are left out; none is an error.
pub fn normalize(payload: &AlertsResponseResult, registry: &HashMap<i32, String>) -> (alarms: Vec<
    CurrentAlarm,
>)
    ensures
        alarm_views(alarms@) == normalize_spec(payload.alerts@, registry@),
{
    let tag = String::from_str("air_raid");
    let mut alarms: Vec<CurrentAlarm> = Vec::new();
    let ghost keep = |alert: Location| is_current_alarm(alert, registry@);
    let ghost make = |alert: Location| current_alarm_of(alert, registry@);
    let ghost view = |alarm: CurrentAlarm| alarm@;
    let mut i: usize = 0;
    proof {
        reveal(Seq::filter);
        assert(payload.alerts@.take(0) =~= Seq::<Location>::empty());
    }
    while i < payload.alerts.len()
        invariant
            i <= payload.alerts.len(),
            tag@ == air_raid_tag(),
            keep == |alert: Location| is_current_alarm(alert, registry@),
            make == |alert: Location| current_alarm_of(alert, registry@),
            view == |alarm: CurrentAlarm| alarm@,
            alarms@.map_values(view) == payload.alerts@.take(i as int).filter(keep).map_values(make),
        decreases payload.alerts.len() - i,
    {
        let alert = &payload.alerts[i];
        let ghost seen = payload.alerts@.take(i as int);
        proof {
            assert(payload.alerts@.take(i + 1) =~= seen.push(*alert));
            seen.lemma_filter_push(*alert, keep);
        }
        if alert.alert_type == tag {
            if let Some(region) = alert.location_oblast_uid {
                if let Some(name) = registry.get(&(region as i32)) {
                    let alarm = CurrentAlarm {
                        _location_uid: clone_text(&alert.location_uid),
                        _location_oblast_uid: region,
                        _location_title: alert.location_title.clone(),
                        _location_oblast: name.clone(),
                        _started_at: alert.started_at.clone(),
                    };
                    proof {
                        assert(keep(*alert));
                        assert(view(alarm) == make(*alert));
                        alarms@.lemma_push_map_commute(view, alarm);
                        seen.filter(keep).lemma_push_map_commute(make, *alert);
                    }
                    alarms.push(alarm);
                }
            }
        }
        i += 1;
    }
    proof {
        assert(payload.alerts@.take(i as int) =~= payload.alerts@);
    }
    alarms
}

/// What a reply of the feed gives: the alarms that count with the cursor
/// for the next request, or the outcome that ends the fetch.
pub fn deserialize_current_alarms_data(reply: FeedReply, registry: &HashMap<i32, String>) -> (data:
    Result<(Vec<CurrentAlarm>, String), FetchOutcome>)
    ensures
        match get_alerts_spec(reply) {
            Ok((payload, cursor)) => data matches Ok((alarms, next)) && next@ == cursor
                && alarm_views(alarms@) == normalize_spec(payload.alerts@, registry@),
            Err(outcome) => data == Err::<(Vec<CurrentAlarm>, String), FetchOutcome>(outcome),
        },
{
    match get_alerts(reply) {
        Ok((payload, cursor)) => Ok((normalize(&payload, registry), cursor)),
        Err(outcome) => Err(outcome),
    }
}

} // verus!
