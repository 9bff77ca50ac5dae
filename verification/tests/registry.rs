use alarm_sync::other_data::{get_all_cities, get_all_cities_as_json, region_ids};

#[test]
fn builtin_registry_has_twenty_seven_regions() {
    let cities = get_all_cities();
    assert_eq!(cities.len(), 27);
    assert_eq!(cities.get(&3).unwrap(), "Хмельницька область");
    assert_eq!(cities.get(&31).unwrap(), "м. Київ");
    assert!(cities.get(&6).is_none());
    assert!(cities.get(&7).is_none());
    assert!(cities.get(&32).is_none());
}

#[test]
fn region_ids_lists_each_region_once() {
    let cities = get_all_cities();
    let mut ids = region_ids(&cities);
    ids.sort();
    let mut expected: Vec<i32> = vec![3, 4, 5];
    expected.extend(8..=31);
    assert_eq!(ids, expected);
}

#[test]
fn listing_carries_the_registry_names() {
    let cities = get_all_cities();
    let list = get_all_cities_as_json();
    assert_eq!(list.len(), 27);
    for region in &list {
        assert_eq!(cities.get(&region.id).unwrap(), &region.name);
    }
}
