use alarm_sync::api_actions::{
    find_region, response_builder_for_one_location, response_builder_for_some_locations,
    ApiResponse, QueryError,
};
use alarm_sync::other_data::{get_all_cities, list_regions, RegionInfo};
use alarm_sync::processing::StoreReply;
use std::collections::HashMap;

fn registry() -> HashMap<i32, String> {
    let mut registry = HashMap::new();
    registry.insert(3, "A".to_string());
    registry.insert(4, "B".to_string());
    registry
}

fn value(text: &str) -> Option<StoreReply> {
    Some(StoreReply::Value(text.to_string()))
}

#[test]
fn a_known_region_is_found_under_its_name() {
    assert_eq!(find_region(&registry(), 4), Ok(RegionInfo { id: 4, name: "B".to_string() }));
    assert_eq!(
        find_region(&get_all_cities(), 18),
        Ok(RegionInfo { id: 18, name: "Одеська область".to_string() })
    );
}

#[test]
fn an_unknown_region_is_refused_before_any_read() {
    assert_eq!(find_region(&registry(), 99), Err(QueryError::UnknownRegion));
    assert_eq!(find_region(&registry(), 0), Err(QueryError::UnknownRegion));
    assert_eq!(find_region(&registry(), -3), Err(QueryError::UnknownRegion));
    assert_eq!(find_region(&get_all_cities(), 6), Err(QueryError::UnknownRegion));
    assert_eq!(find_region(&HashMap::new(), 3), Err(QueryError::UnknownRegion));
}

#[test]
fn an_unknown_region_is_refused_whatever_the_store_says() {
    let registry = registry();
    for reply in [None, value("true"), value("false"), Some(StoreReply::Missing), Some(StoreReply::Unreachable)] {
        assert_eq!(
            response_builder_for_one_location(&registry, 99, &reply),
            Err(QueryError::UnknownRegion)
        );
    }
}

#[test]
fn a_written_true_is_an_active_alarm_under_the_registry_name() {
    assert_eq!(
        response_builder_for_one_location(&registry(), 3, &value("true")),
        Ok(ApiResponse { location_uid: 3, location_name: "A".to_string(), is_active_air_alarm: true })
    );
    assert_eq!(
        response_builder_for_one_location(&registry(), 4, &value("false")),
        Ok(ApiResponse { location_uid: 4, location_name: "B".to_string(), is_active_air_alarm: false })
    );
}

#[test]
fn a_known_region_without_status_is_unavailable() {
    let registry = registry();
    for reply in [None, Some(StoreReply::Missing), Some(StoreReply::Unreachable)] {
        assert_eq!(
            response_builder_for_one_location(&registry, 3, &reply),
            Err(QueryError::StatusUnavailable)
        );
    }
}

#[test]
fn each_region_of_a_batch_is_answered_by_itself() {
    let registry = registry();
    let ids = vec![3, 99, 4, 3, 4];
    let replies = vec![value("true"), None, Some(StoreReply::Unreachable), Some(StoreReply::Missing), value("false")];
    assert_eq!(
        response_builder_for_some_locations(&registry, &ids, &replies),
        vec![
            Ok(ApiResponse { location_uid: 3, location_name: "A".to_string(), is_active_air_alarm: true }),
            Err(QueryError::UnknownRegion),
            Err(QueryError::StatusUnavailable),
            Err(QueryError::StatusUnavailable),
            Ok(ApiResponse { location_uid: 4, location_name: "B".to_string(), is_active_air_alarm: false }),
        ]
    );
}

#[test]
fn a_batch_with_fewer_reads_than_regions_answers_the_rest_as_unread() {
    let registry = registry();
    let answers = response_builder_for_some_locations(&registry, &vec![4, 3, 99], &vec![value("true")]);
    assert_eq!(
        answers,
        vec![
            Ok(ApiResponse { location_uid: 4, location_name: "B".to_string(), is_active_air_alarm: true }),
            Err(QueryError::StatusUnavailable),
            Err(QueryError::UnknownRegion),
        ]
    );
    assert!(response_builder_for_some_locations(&registry, &vec![], &vec![value("true")]).is_empty());
}

#[test]
fn a_listing_names_every_region_once() {
    let mut list = list_regions(&registry());
    list.sort_by_key(|region| region.id);
    assert_eq!(
        list,
        vec![RegionInfo { id: 3, name: "A".to_string() }, RegionInfo { id: 4, name: "B".to_string() }]
    );
    assert!(list_regions(&HashMap::new()).is_empty());
}
