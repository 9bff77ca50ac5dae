//! The region registry: which regions are tracked, and under which name.

use std::collections::HashMap;
use vstd::prelude::*;

verus! {

broadcast use vstd::std_specs::hash::group_hash_axioms;

/// One tracked region, as listed to callers.
#[derive(Debug, Clone, PartialEq, Eq)]
pub struct RegionInfo {
    pub id: i32,
    pub name: String,
}

/// What a `RegionInfo` stands for: an identifier and the characters of a name.
pub struct RegionInfoView {
    pub id: i32,
    pub name: Seq<char>,
}

impl View for RegionInfo {
    type V = RegionInfoView;

    open spec fn view(&self) -> RegionInfoView {
        RegionInfoView { id: self.id, name: self.name@ }
    }
}

/// A registry as the contracts read it: identifier to the characters of the name.
pub open spec fn registry_names(registry: Map<i32, String>) -> Map<i32, Seq<char>> {
    Map::new(|id: i32| registry.dom().contains(id), |id: i32| registry[id]@)
}

/// Whether `id` identifies a region of the built-in registry.
pub open spec fn is_builtin_region(id: i32) -> bool {
    3 <= id <= 5 || 8 <= id <= 31
}

/// The name under which the built-in registry lists `id`.
pub open spec fn builtin_region_name(id: i32) -> Seq<char> {
    match id {
        3 => "Хмельницька область"@,
        4 => "Вінницька область"@,
        5 => "Рівненська область"@,
        8 => "Волинська область"@,
        9 => "Дніпропетровська область"@,
        10 => "Житомирська область"@,
        11 => "Закарпатська область"@,
        12 => "Запорізька область"@,
        13 => "Івано-Франківська область"@,
        14 => "Київська область"@,
        15 => "Кіровоградська область"@,
        16 => "Луганська область"@,
        17 => "Миколаївська область"@,
        18 => "Одеська область"@,
        19 => "Полтавська область"@,
        20 => "Сумська область"@,
        21 => "Тернопільська область"@,
        22 => "Харківська область"@,
        23 => "Херсонська область"@,
        24 => "Черкаська область"@,
        25 => "Чернігівська область"@,
        26 => "Чернівецька область"@,
        27 => "Львівська область"@,
        28 => "Донецька область"@,
        29 => "Автономна Республіка Крим"@,
        30 => "м. Севастополь"@,
        31 => "м. Київ"@,
        _ => Seq::empty(),
    }
}

/// The built-in registry as a map from identifier to name.
pub open spec fn builtin_registry() -> Map<i32, Seq<char>> {
    Map::new(|id: i32| is_builtin_region(id), |id: i32| builtin_region_name(id))
}

/// The built-in registry of regions, by identifier.
pub fn get_all_cities() -> (cities: HashMap<i32, String>)
    ensures
        forall|id: i32|
            #![trigger cities@.dom().contains(id)]
            #![trigger is_builtin_region(id)]
            cities@.dom().contains(id) <==> is_builtin_region(id),
        forall|id: i32|
            #![trigger cities@[id]]
            #![trigger builtin_region_name(id)]
            is_builtin_region(id) ==> cities@[id]@ == builtin_region_name(id),
        registry_names(cities@) == builtin_registry(),
{
    let mut cities: HashMap<i32, String> = HashMap::new();
    cities.insert(3, "Хмельницька область".to_string());
    cities.insert(4, "Вінницька область".to_string());
    cities.insert(5, "Рівненська область".to_string());
    cities.insert(8, "Волинська область".to_string());
    cities.insert(9, "Дніпропетровська область".to_string());
    cities.insert(10, "Житомирська область".to_string());
    cities.insert(11, "Закарпатська область".to_string());
    cities.insert(12, "Запорізька область".to_string());
    cities.insert(13, "Івано-Франківська область".to_string());
    cities.insert(14, "Київська область".to_string());
    cities.insert(15, "Кіровоградська область".to_string());
    cities.insert(16, "Луганська область".to_string());
    cities.insert(17, "Миколаївська область".to_string());
    cities.insert(18, "Одеська область".to_string());
    cities.insert(19, "Полтавська область".to_string());
    cities.insert(20, "Сумська область".to_string());
    cities.insert(21, "Тернопільська область".to_string());
    cities.insert(22, "Харківська область".to_string());
    cities.insert(23, "Херсонська область".to_string());
    cities.insert(24, "Черкаська область".to_string());
    cities.insert(25, "Чернігівська область".to_string());
    cities.insert(26, "Чернівецька область".to_string());
    cities.insert(27, "Львівська область".to_string());
    cities.insert(28, "Донецька область".to_string());
    cities.insert(29, "Автономна Республіка Крим".to_string());
    cities.insert(30, "м. Севастополь".to_string());
    cities.insert(31, "м. Київ".to_string());
    assert(registry_names(cities@) =~= builtin_registry());
    cities
}

/// The identifiers of a registry, each once. Their order is the one in
/// which the registry hands them out, which no caller may rely on.
pub fn region_ids(registry: &HashMap<i32, String>) -> (ids: Vec<i32>)
    ensures
        ids@.no_duplicates(),
        forall|id: i32|
            #![trigger ids@.contains(id)]
            #![trigger registry@.dom().contains(id)]
            ids@.contains(id) <==> registry@.dom().contains(id),
{
    let mut ids: Vec<i32> = Vec::new();
    for region in regions: registry.keys()
        invariant
            regions.seq().unref().no_duplicates(),
            regions.seq().unref().to_set() == registry@.dom(),
            ids@ == regions.seq().unref().take(regions.index()),
            regions.index() == regions.seq().len() ==> ids@ == regions.seq().unref(),
    {
        ids.push(*region);
        assert(regions.seq().unref().take(regions.index() + 1) =~= regions.seq().unref().take(
            regions.index(),
        ).push(*region));
        assert(regions.index() + 1 == regions.seq().len() ==> regions.seq().unref().take(
            regions.index() + 1,
        ) =~= regions.seq().unref());
    }
    proof {
        assert forall|id: i32| ids@.contains(id) <==> registry@.dom().contains(id) by {
            assert(ids@.contains(id) <==> ids@.to_set().contains(id));
        }
    }
    ids
}

/// What a list of regions stands for.
pub open spec fn region_views(list: Seq<RegionInfo>) -> Seq<RegionInfoView> {
    list.map_values(|region: RegionInfo| region@)
}

/// The identifier of each region of a list, in the order of the list.
pub open spec fn listed_ids(list: Seq<RegionInfoView>) -> Seq<i32> {
    list.map_values(|region: RegionInfoView| region.id)
}

/// Whether `list` lists a registry: every region of it once, none besides,
/// each under its name.
pub open spec fn lists_registry(list: Seq<RegionInfoView>, registry: Map<i32, Seq<char>>) -> bool {
    &&& listed_ids(list).no_duplicates()
    &&& forall|id: i32|
        #![trigger listed_ids(list).contains(id)]
        #![trigger registry.dom().contains(id)]
        listed_ids(list).contains(id) <==> registry.dom().contains(id)
    &&& forall|i: int| 0 <= i < list.len() ==> (#[trigger] list[i]).name == registry[list[i].id]
}

/// The regions of a registry as a list, in no order that a caller may rely on.
pub fn list_regions(registry: &HashMap<i32, String>) -> (list: Vec<RegionInfo>)
    ensures
        lists_registry(region_views(list@), registry_names(registry@)),
{
    let ids = region_ids(registry);
    let mut list: Vec<RegionInfo> = Vec::new();
    let mut i: usize = 0;
    while i < ids.len()
        invariant
            i <= ids.len(),
            forall|id: i32| ids@.contains(id) <==> registry@.dom().contains(id),
            list@.len() == i,
            forall|k: int|
                0 <= k < i ==> (#[trigger] list@[k]).id == ids@[k] && list@[k].name@
                    == registry@[ids@[k]]@,
        decreases ids.len() - i,
    {
        let id = ids[i];
        assert(ids@.contains(id));
        match registry.get(&id) {
            Some(name) => {
                list.push(RegionInfo { id, name: name.clone() });
            },
            None => {
                assert(false);
            },
        }
        i += 1;
    }
    proof {
        let views = region_views(list@);
        assert(listed_ids(views) =~= ids@);
        assert forall|k: int| 0 <= k < views.len() implies (#[trigger] views[k]).name
            == registry_names(registry@)[views[k].id] by {
            assert(views[k] == list@[k]@);
            assert(ids@.contains(ids@[k]));
        }
    }
    list
}

/// The regions of the built-in registry as a list.
pub fn get_all_cities_as_json() -> (list: Vec<RegionInfo>)
    ensures
        lists_registry(region_views(list@), builtin_registry()),
{
    let cities = get_all_cities();
    list_regions(&cities)
}

} // verus!
