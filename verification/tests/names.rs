use shader_runtime::name_map::{copy_names, find_name, NameMap};
use shader_runtime::text::{ends_with, name_precedes};

fn s(text: &str) -> String {
    text.to_string()
}

#[test]
fn order_is_by_code_point() {
    assert!(name_precedes("a", "b"));
    assert!(!name_precedes("b", "a"));
    assert!(name_precedes("Zebra", "apple"));
    assert!(name_precedes("z", "\u{e9}"));
    assert!(name_precedes("\u{e9}", "\u{4e2d}"));
    assert!(name_precedes("\u{ffff}", "\u{10000}"));
}

#[test]
fn a_prefix_comes_first() {
    assert!(name_precedes("", "a"));
    assert!(name_precedes("ab", "abc"));
    assert!(!name_precedes("abc", "ab"));
    assert!(name_precedes("ab", "b"));
}

#[test]
fn no_name_precedes_itself() {
    assert!(!name_precedes("", ""));
    assert!(!name_precedes("camera", "camera"));
}

#[test]
fn order_agrees_with_the_order_of_strings() {
    let names = ["", "a", "ab", "b", "basic", "Basic", "\u{e9}t\u{e9}", "zz", "a\u{10000}", "a\u{ffff}"];
    for a in names.iter() {
        for b in names.iter() {
            assert_eq!(name_precedes(a, b), a < b);
        }
    }
}

#[test]
fn suffix_is_found_at_the_end_only() {
    assert!(ends_with("config.json", ".json"));
    assert!(ends_with(".json", ".json"));
    assert!(!ends_with("json", ".json"));
    assert!(!ends_with("config.json.bak", ".json"));
    assert!(!ends_with("shader.frag", ".json"));
    assert!(ends_with("anything", ""));
    assert!(ends_with("\u{e9}.json", ".json"));
    assert!(!ends_with("", ".json"));
}

#[test]
fn first_place_of_a_name_is_found() {
    let names = vec![s("b"), s("a"), s("b")];
    assert_eq!(find_name(&names, &s("b")), Some(0));
    assert_eq!(find_name(&names, &s("a")), Some(1));
    assert_eq!(find_name(&names, &s("c")), None);
    assert_eq!(find_name(&Vec::new(), &s("a")), None);
}

#[test]
fn names_are_copied() {
    let names = vec![s("x"), s("y")];
    assert_eq!(copy_names(&names), names);
}

#[test]
fn empty_map_holds_nothing() {
    let map: NameMap<u32> = NameMap::new();
    assert_eq!(map.len(), 0);
    assert_eq!(map.get(&s("a")), None);
    assert_eq!(map.index_of(&s("a")), None);
    assert_eq!(map.get_names(), Vec::<String>::new());
}

#[test]
fn names_come_out_in_order_however_they_went_in() {
    let mut first: NameMap<u32> = NameMap::new();
    first.insert(s("raymarch"), 1);
    first.insert(s("basic"), 2);
    first.insert(s("tutorial"), 3);
    let mut second: NameMap<u32> = NameMap::new();
    second.insert(s("tutorial"), 3);
    second.insert(s("raymarch"), 1);
    second.insert(s("basic"), 2);
    let expected = vec![s("basic"), s("raymarch"), s("tutorial")];
    assert_eq!(first.get_names(), expected);
    assert_eq!(second.get_names(), expected);
    assert_eq!(first.index_of(&s("basic")), Some(0));
    assert_eq!(first.index_of(&s("raymarch")), Some(1));
    assert_eq!(first.index_of(&s("tutorial")), Some(2));
    assert_eq!(first.name_at(1), "raymarch");
    assert_eq!(*first.value_at(1), 1);
    assert_eq!(*second.value_at(0), 2);
}

#[test]
fn insert_replaces_and_hands_back_the_old_value() {
    let mut map: NameMap<u32> = NameMap::new();
    assert_eq!(map.insert(s("a"), 1), None);
    assert_eq!(map.insert(s("b"), 2), None);
    assert_eq!(map.insert(s("a"), 3), Some(1));
    assert_eq!(map.len(), 2);
    assert_eq!(map.get(&s("a")), Some(&3));
    assert_eq!(map.get(&s("b")), Some(&2));
    assert_eq!(map.get(&s("c")), None);
    assert_eq!(map.get_names(), vec![s("a"), s("b")]);
}

#[test]
fn insert_at_front_middle_and_end() {
    let mut map: NameMap<u32> = NameMap::new();
    map.insert(s("m"), 0);
    map.insert(s("a"), 1);
    map.insert(s("z"), 2);
    map.insert(s("f"), 3);
    map.insert(s("q"), 4);
    assert_eq!(map.get_names(), vec![s("a"), s("f"), s("m"), s("q"), s("z")]);
    assert_eq!(map.get(&s("f")), Some(&3));
    assert_eq!(map.get(&s("q")), Some(&4));
    assert_eq!(map.get(&s("z")), Some(&2));
}
