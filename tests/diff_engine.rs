use indexmap::IndexMap;
use moodle_watch::comparable::{compare, diff_module_entries, merge, ModuleEntry};
use moodle_watch::gen_module::GenModuleBuilder;
use moodle_watch::modules::label::Label;

fn item(id: i64, tag: &str) -> Label {
    Label { coursemodule: id, name: tag.to_string(), intro: String::new(), timemodified: 0 }
}

fn text_map(pairs: &[(&str, &str)]) -> IndexMap<String, String> {
    let mut m = IndexMap::new();
    for (k, v) in pairs {
        m.insert(k.to_string(), v.to_string());
    }
    m
}

#[test]
fn compare_partitions_both_lists() {
    let a = vec![item(1, "a1"), item(2, "a2"), item(3, "a3")];
    let b = vec![item(3, "b3"), item(4, "b4"), item(1, "b1")];
    let c = compare(a, b);
    let only_a: Vec<&str> = c.a.iter().map(|i| i.name.as_str()).collect();
    let only_b: Vec<&str> = c.b.iter().map(|i| i.name.as_str()).collect();
    let common: Vec<(&str, &str)> = c.common.iter().map(|(x, y)| (x.name.as_str(), y.name.as_str())).collect();
    assert_eq!(only_a, vec!["a2"]);
    assert_eq!(only_b, vec!["b4"]);
    assert_eq!(common, vec![("a1", "b1"), ("a3", "b3")]);
}

#[test]
fn compare_pairs_duplicates_in_first_seen_order() {
    let a = vec![item(7, "x"), item(7, "y")];
    let b = vec![item(7, "p"), item(7, "q"), item(7, "r")];
    let c = compare(a, b);
    let common: Vec<(&str, &str)> = c.common.iter().map(|(x, y)| (x.name.as_str(), y.name.as_str())).collect();
    assert_eq!(common, vec![("x", "p"), ("y", "q")]);
    assert!(c.a.is_empty());
    assert_eq!(c.b.iter().map(|i| i.name.as_str()).collect::<Vec<_>>(), vec!["r"]);
}

#[test]
fn compare_empty_lists() {
    let c = compare(Vec::<Label>::new(), vec![item(1, "n")]);
    assert!(c.a.is_empty());
    assert_eq!(c.b.len(), 1);
    assert!(c.common.is_empty());
    let c = compare(vec![item(1, "o")], Vec::<Label>::new());
    assert_eq!(c.a.len(), 1);
    assert!(c.b.is_empty());
}

#[test]
fn merge_keeps_only_pairs() {
    let pairs = merge(vec![item(5, "a"), item(6, "b")], vec![item(6, "c"), item(9, "d")]);
    assert_eq!(pairs.len(), 1);
    assert_eq!((pairs[0].0.name.as_str(), pairs[0].1.name.as_str()), ("b", "c"));
}

#[test]
fn diff_of_equal_maps_is_empty() {
    let m = text_map(&[("a", "1"), ("b", "2")]);
    let d = diff_module_entries(m.clone(), m);
    assert!(d.is_empty());
}

#[test]
fn diff_added_entry() {
    let d = diff_module_entries(text_map(&[]), text_map(&[("a", "1")]));
    assert_eq!(d.len(), 1);
    assert!(matches!(d.get("a"), Some(ModuleEntry::Added(v)) if v == "1"));
}

#[test]
fn diff_removed_entry() {
    let d = diff_module_entries(text_map(&[("a", "1")]), text_map(&[]));
    assert_eq!(d.len(), 1);
    assert!(matches!(d.get("a"), Some(ModuleEntry::Removed(v)) if v == "1"));
}

#[test]
fn diff_changed_entry() {
    let d = diff_module_entries(text_map(&[("a", "1")]), text_map(&[("a", "2")]));
    assert_eq!(d.len(), 1);
    assert!(matches!(d.get("a"), Some(ModuleEntry::Changed(o, n)) if o == "1" && n == "2"));
}

#[test]
fn diff_orders_new_keys_then_removals() {
    let old = text_map(&[("gone", "x"), ("same", "s"), ("moved", "1")]);
    let new = text_map(&[("moved", "2"), ("fresh", "f"), ("same", "s")]);
    let d = diff_module_entries(old, new);
    let keys: Vec<&str> = d.keys().map(|k| k.as_str()).collect();
    assert_eq!(keys, vec!["moved", "fresh", "gone"]);
}

#[test]
fn diff_is_exact_on_whitespace() {
    let d = diff_module_entries(text_map(&[("a", "1")]), text_map(&[("a", "1 ")]));
    assert!(matches!(d.get("a"), Some(ModuleEntry::Changed(_, _))));
}

#[test]
fn units_match_by_id() {
    let old = vec![
        GenModuleBuilder::new(1, "i".to_string(), "one".to_string(), None).build(),
        GenModuleBuilder::new(2, "i".to_string(), "two".to_string(), None).build(),
    ];
    let new = vec![GenModuleBuilder::new(2, "i".to_string(), "two".to_string(), None).build()];
    let c = compare(old, new);
    assert_eq!(c.a.len(), 1);
    assert_eq!(c.a[0].name, "one");
    assert_eq!(c.common.len(), 1);
    assert!(c.b.is_empty());
}
