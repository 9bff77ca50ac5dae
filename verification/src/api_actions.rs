//! The query side: what a stored status answers to a question about a region.

use crate::other_data::{RegionInfo, RegionInfoView};
use crate::processing::{check_alarm, stored_status, StoreReply};
use std::collections::HashMap;
use vstd::prelude::*;

verus! {

broadcast use vstd::std_specs::hash::group_hash_axioms;

/// The status of one region, as answered to a caller.
#[derive(Debug, Clone, PartialEq, Eq)]
pub struct ApiResponse {
    pub location_uid: i32,
    pub location_name: String,
    pub is_active_air_alarm: bool,
}

/// What an `ApiResponse` stands for.
pub struct ApiResponseView {
    pub location_uid: i32,
    pub location_name: Seq<char>,
    pub is_active_air_alarm: bool,
}

impl View for ApiResponse {
    type V = ApiResponseView;

    open spec fn view(&self) -> ApiResponseView {
        ApiResponseView {
            location_uid: self.location_uid,
            location_name: self.location_name@,
            is_active_air_alarm: self.is_active_air_alarm,
        }
    }
}

/// Why a question about a region has no status for an answer.
#[derive(Debug, Clone, Copy, PartialEq, Eq, Structural)]
pub enum QueryError {
    /// The registry does not know the region: the question is wrong.
    UnknownRegion,
    /// The registry knows the region, and its status cannot be had now:
    /// the store holds none yet, or could not be reached.
    StatusUnavailable,
}

/// The region that `location_uid` names in the registry.
pub open spec fn find_region_spec(registry: Map<i32, String>, location_uid: i32) -> Result<
    RegionInfoView,
    QueryError,
> {
    if registry.dom().contains(location_uid) {
        Ok(RegionInfoView { id: location_uid, name: registry[location_uid]@ })
    } else {
        Err(QueryError::UnknownRegion)
    }
}

/// What a region lookup stands for.
pub open spec fn lookup_view(found: Result<RegionInfo, QueryError>) -> Result<
    RegionInfoView,
    QueryError,
> {
    match found {
        Ok(region) => Ok(region@),
        Err(error) => Err(error),
    }
}

/// The first step of a query: the region that `location_uid` names. The
/// store is read only for a region that this step found, so a question
/// about an unknown region never reaches the store.
pub fn find_region(registry: &HashMap<i32, String>, location_uid: i32) -> (found: Result<
    RegionInfo,
    QueryError,
>)
    ensures
        lookup_view(found) == find_region_spec(registry@, location_uid),
{
    match registry.get(&location_uid) {
        Some(name) => Ok(RegionInfo { id: location_uid, name: name.clone() }),
        None => Err(QueryError::UnknownRegion),
    }
}

/// The answer to a question about region `location_uid`, where the read of
/// its status came to `reply` (`None`: the store was not read).
///
/// An unknown region is `UnknownRegion` whatever the store says. A known
/// region is answered with the registry's name for it and the stored
/// status; where the read gave no status it is `StatusUnavailable`, never
/// a made-up "inactive".
pub open spec fn status_answer(
    registry: Map<i32, String>,
    location_uid: i32,
    reply: Option<StoreReply>,
) -> Result<ApiResponseView, QueryError> {
    if !registry.dom().contains(location_uid) {
        Err(QueryError::UnknownRegion)
    } else if reply is Some && stored_status(reply->0) is Some {
        Ok(
            ApiResponseView {
                location_uid,
                location_name: registry[location_uid]@,
                is_active_air_alarm: stored_status(reply->0)->0,
            },
        )
    } else {
        Err(QueryError::StatusUnavailable)
    }
}

/// What an answer stands for.
pub open spec fn answer_view(answer: Result<ApiResponse, QueryError>) -> Result<
    ApiResponseView,
    QueryError,
> {
    match answer {
        Ok(response) => Ok(response@),
        Err(error) => Err(error),
    }
}

/// Answers a question about one region from the read of its status.
pub fn response_builder_for_one_location(
    registry: &HashMap<i32, String>,
    location_uid: i32,
    reply: &Option<StoreReply>,
) -> (answer: Result<ApiResponse, QueryError>)
    ensures
        answer_view(answer) == status_answer(registry@, location_uid, *reply),
{
    let name = match registry.get(&location_uid) {
        Some(name) => name,
        None => { return Err(QueryError::UnknownRegion); },
    };
    let status = match reply {
        Some(read) => check_alarm(read),
        None => None,
    };
    match status {
        Some(active) => Ok(
            ApiResponse {
                location_uid,
                location_name: name.clone(),
                is_active_air_alarm: active,
            },
        ),
        None => Err(QueryError::StatusUnavailable),
    }
}

/// The read that belongs to the question at `index`, where one was made.
pub open spec fn reply_at(replies: Seq<Option<StoreReply>>, index: int) -> Option<StoreReply> {
    if 0 <= index < replies.len() {
        replies[index]
    } else {
        None
    }
}

/// Answers a question about each of `location_uids`, in their order, from
/// the reads of their statuses: `replies` holds at each place the read for
/// the region at that place. Each region is answered by itself: what goes
/// wrong for one changes no other answer.
pub fn response_builder_for_some_locations(
    registry: &HashMap<i32, String>,
    location_uids: &Vec<i32>,
    replies: &Vec<Option<StoreReply>>,
) -> (answers: Vec<Result<ApiResponse, QueryError>>)
    ensures
        answers@.len() == location_uids@.len(),
        forall|i: int|
            0 <= i < location_uids@.len() ==> answer_view(#[trigger] answers@[i]) == status_answer(
                registry@,
                location_uids@[i],
                reply_at(replies@, i),
            ),
{
    let mut answers: Vec<Result<ApiResponse, QueryError>> = Vec::new();
    let unread: Option<StoreReply> = None;
    let mut i: usize = 0;
    while i < location_uids.len()
        invariant
            i <= location_uids.len(),
            unread is None,
            answers@.len() == i,
            forall|k: int|
                0 <= k < i ==> answer_view(#[trigger] answers@[k]) == status_answer(
                    registry@,
                    location_uids@[k],
                    reply_at(replies@, k),
                ),
        decreases location_uids.len() - i,
    {
        let reply = if i < replies.len() {
            &replies[i]
        } else {
            &unread
        };
        let answer = response_builder_for_one_location(registry, location_uids[i], reply);
        answers.push(answer);
        i += 1;
    }
    answers
}

} // verus!
