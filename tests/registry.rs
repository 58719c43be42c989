use moodle_watch::accounts::AccountList;
use moodle_watch::moodle::Moodle;

fn account(base: &str) -> Moodle {
    Moodle::new_with_token(base.to_string(), "t".repeat(32))
}

fn fresh(rows: &[(&str, i64, &str)]) -> Vec<(String, i64, String)> {
    rows.iter().map(|(n, id, a)| (n.to_string(), *id, a.to_string())).collect()
}

fn registry() -> AccountList {
    let mut list = AccountList::new(99);
    list.add_account(account("https://one"), "one");
    list.add_account(account("https://two"), "two");
    list.sync_courses(fresh(&[("Math", 1, "one"), ("Art", 2, "one"), ("Bio", 3, "two")]));
    list
}

fn select(list: &mut AccountList, channel: u64, selection: &[&str], options: &[&str]) {
    let sel: Vec<String> = selection.iter().map(|s| s.to_string()).collect();
    let opt: Vec<String> = options.iter().map(|s| s.to_string()).collect();
    list.set_course_map_for_channel(channel, &sel, &opt);
}

#[test]
fn sync_adds_courses_without_subscribers() {
    let list = registry();
    let names: Vec<&str> = list.mapping.keys().map(|k| k.as_str()).collect();
    assert_eq!(names, vec!["Math", "Art", "Bio"]);
    assert!(list.mapping.values().all(|row| row.channels.is_empty()));
}

#[test]
fn sync_keeps_subscribers_and_drops_missing_courses() {
    let mut list = registry();
    select(&mut list, 10, &["Math", "Bio"], &["Math", "Art", "Bio"]);
    list.sync_courses(fresh(&[("Bio", 3, "two"), ("Math", 1, "one"), ("Chem", 4, "two")]));
    let names: Vec<&str> = list.mapping.keys().map(|k| k.as_str()).collect();
    assert_eq!(names, vec!["Math", "Bio", "Chem"]);
    assert!(list.mapping["Math"].channels.contains(&10));
    assert!(list.mapping["Bio"].channels.contains(&10));
    assert!(list.mapping["Chem"].channels.is_empty());
}

#[test]
fn sync_with_empty_list_changes_nothing() {
    let mut list = registry();
    select(&mut list, 10, &["Art"], &["Math", "Art", "Bio"]);
    list.sync_courses(Vec::new());
    let names: Vec<&str> = list.mapping.keys().map(|k| k.as_str()).collect();
    assert_eq!(names, vec!["Math", "Art", "Bio"]);
    assert!(list.mapping["Art"].channels.contains(&10));
}

#[test]
fn course_map_lists_subscriptions_of_channel() {
    let mut list = registry();
    select(&mut list, 10, &["Art"], &["Math", "Art", "Bio"]);
    let map = list.get_course_map_for_channel(10, Vec::new());
    assert_eq!(
        map,
        vec![("Math".to_string(), false), ("Art".to_string(), true), ("Bio".to_string(), false)]
    );
}

#[test]
fn selection_leaves_courses_outside_options_alone() {
    let mut list = registry();
    select(&mut list, 10, &["Math", "Art", "Bio"], &["Math", "Art", "Bio"]);
    select(&mut list, 10, &[], &["Math"]);
    assert!(!list.mapping["Math"].channels.contains(&10));
    assert!(list.mapping["Art"].channels.contains(&10));
    assert!(list.mapping["Bio"].channels.contains(&10));
    let active = list.get_active_courses_for_channel(10);
    assert_eq!(active, vec!["Art".to_string(), "Bio".to_string()]);
}

#[test]
fn remove_account_drops_its_courses_only() {
    let mut list = registry();
    select(&mut list, 10, &["Math", "Bio"], &["Math", "Art", "Bio"]);
    list.remove_account("one");
    let names: Vec<&str> = list.mapping.keys().map(|k| k.as_str()).collect();
    assert_eq!(names, vec!["Bio"]);
    assert!(list.mapping["Bio"].channels.contains(&10));
    assert_eq!(list.get_accounts(), vec!["two".to_string()]);
}

#[test]
fn add_account_replaces_same_name() {
    let mut list = registry();
    list.add_account(account("https://other"), "one");
    assert_eq!(list.get_accounts(), vec!["one".to_string(), "two".to_string()]);
    assert_eq!(list.find_account("one").unwrap().base, "https://other");
    assert!(list.find_account("three").is_none());
}

#[test]
fn scheduler_round_robin_over_subscribed_courses() {
    let mut list = registry();
    select(&mut list, 10, &["Math", "Bio"], &["Math", "Art", "Bio"]);
    let mut cursor: usize = 0;
    let mut picked = Vec::new();
    for _ in 0..4 {
        let (name, _, _, _) = list.next_valid_course(&mut cursor).unwrap();
        picked.push(name.clone());
    }
    assert_eq!(picked, vec!["Math", "Bio", "Math", "Bio"]);
}

#[test]
fn scheduler_fair_when_all_subscribed() {
    let mut list = registry();
    select(&mut list, 10, &["Math", "Art", "Bio"], &["Math", "Art", "Bio"]);
    let mut cursor: usize = 7;
    let mut counts = std::collections::HashMap::new();
    for _ in 0..7 {
        let (name, _, _, _) = list.next_valid_course(&mut cursor).unwrap();
        *counts.entry(name.clone()).or_insert(0) += 1;
    }
    for name in ["Math", "Art", "Bio"] {
        assert!(counts[name] >= 7 / 3);
    }
}

#[test]
fn scheduler_selects_nothing_without_subscribers() {
    let list = registry();
    for start in [0usize, 1, 2, 5] {
        let mut cursor = start;
        assert!(list.next_valid_course(&mut cursor).is_none());
        assert_eq!(cursor, start % 3);
    }
    let empty = AccountList::new(1);
    let mut cursor = 4;
    assert!(empty.next_valid_course(&mut cursor).is_none());
    assert_eq!(cursor, 4);
}

#[test]
fn scheduler_returns_course_details() {
    let mut list = registry();
    select(&mut list, 42, &["Bio"], &["Bio"]);
    let mut cursor: usize = 0;
    let (name, id, acc, channels) = list.next_valid_course(&mut cursor).unwrap();
    assert_eq!(name, "Bio");
    assert_eq!(id, 3);
    assert_eq!(acc.base, "https://two");
    assert!(channels.contains(&42));
    assert_eq!(cursor, 3);
}

#[test]
fn course_info_and_update_info() {
    let mut list = registry();
    select(&mut list, 5, &["Art"], &["Art"]);
    let (name, id, acc, _) = list.get_course_info("Art").unwrap();
    assert_eq!((name, id, acc.base.as_str()), ("Art", 2, "https://one"));
    assert!(list.get_course_info("Nope").is_none());
    let info = list.get_manuel_update_info(5);
    assert_eq!(info.len(), 1);
    assert_eq!(info[0].0, "Art");
}

#[test]
fn scheduler_fair_with_unsubscribed_courses() {
    let mut list = registry();
    list.sync_courses(fresh(&[("Math", 1, "one"), ("Art", 2, "one"), ("Bio", 3, "two"), ("Chem", 4, "two")]));
    select(&mut list, 10, &["Art", "Chem"], &["Math", "Art", "Bio", "Chem"]);
    let mut cursor: usize = 3;
    let mut art = 0;
    let mut chem = 0;
    for _ in 0..5 {
        let (name, _, _, _) = list.next_valid_course(&mut cursor).unwrap();
        if name == "Art" {
            art += 1;
        } else if name == "Chem" {
            chem += 1;
        } else {
            panic!("selected a course without subscribers");
        }
    }
    assert!(art >= 5 / 2 && chem >= 5 / 2);
}
