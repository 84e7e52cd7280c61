use follow_audit::account_set::AccountSet;
use follow_audit::reconcile::{reconcile, summarize};
use follow_audit::records::{FollowerEntry, StringListData};

fn entry(names: &[&str]) -> FollowerEntry {
    FollowerEntry {
        title: String::new(),
        string_list_data: names
            .iter()
            .map(|name| StringListData {
                href: format!("https://www.instagram.com/{}", name),
                value: name.to_string(),
                timestamp: 1234567890,
            })
            .collect(),
    }
}

fn side(names: &[&str]) -> Vec<FollowerEntry> {
    names.iter().map(|name| entry(&[name])).collect()
}

#[test]
fn mutual_user_is_left_out() {
    let followers = side(&["mutual_user"]);
    let following = side(&["mutual_user", "non_mutual_user"]);
    assert_eq!(reconcile(&followers, &following), vec!["non_mutual_user"]);
}

#[test]
fn result_is_sorted_and_holds_no_name_twice() {
    let followers = side(&["kim"]);
    let following = side(&["zoe", "abe", "kim", "zoe", "moe", "abe", "lea", "abe"]);
    assert_eq!(reconcile(&followers, &following), vec!["abe", "lea", "moe", "zoe"]);
}

#[test]
fn sorting_the_result_again_changes_nothing() {
    let following = side(&["q", "b", "x", "a", "m", "b"]);
    let result = reconcile(&Vec::new(), &following);
    let mut again = result.clone();
    again.sort();
    again.dedup();
    assert_eq!(again, result);
}

#[test]
fn order_is_by_code_point_and_tells_case_apart() {
    let following = side(&["b", "a", "B", "_x", "A", "0", "ab", "a.b", "\u{e9}", "z", "\u{1f41d}", "\u{4e2d}"]);
    let result = reconcile(&Vec::new(), &following);
    assert_eq!(
        result,
        vec!["0", "A", "B", "_x", "a", "a.b", "ab", "b", "z", "\u{e9}", "\u{4e2d}", "\u{1f41d}"]
    );
    let followers = side(&["A"]);
    assert_eq!(reconcile(&followers, &side(&["a", "A"])), vec!["a"]);
}

#[test]
fn identical_sides_give_an_empty_list() {
    let both = side(&["ann", "bob", "cid"]);
    assert_eq!(reconcile(&both, &both), Vec::<String>::new());
    assert_eq!(reconcile(&Vec::new(), &Vec::new()), Vec::<String>::new());
}

#[test]
fn nobody_followed_gives_an_empty_list() {
    let followers = side(&["ann", "bob"]);
    assert_eq!(reconcile(&followers, &Vec::new()), Vec::<String>::new());
}

#[test]
fn no_followers_gives_every_followed_name() {
    let following = vec![entry(&["dee", "ann"]), entry(&[]), entry(&["cid", "ann"])];
    assert_eq!(reconcile(&Vec::new(), &following), vec!["ann", "cid", "dee"]);
}

#[test]
fn every_identifier_of_an_entry_counts() {
    let followers = vec![entry(&["old_name", "new_name"])];
    let following = vec![entry(&["new_name"]), entry(&["other", "old_name"])];
    assert_eq!(reconcile(&followers, &following), vec!["other"]);
}

#[test]
fn entry_without_identifiers_adds_nothing() {
    let with = vec![entry(&["ann"]), entry(&[]), entry(&["bob"])];
    let without = vec![entry(&["ann"]), entry(&["bob"])];
    assert_eq!(AccountSet::from_entries(&with).len(), 2);
    assert_eq!(AccountSet::from_entries(&without).len(), 2);
    assert_eq!(reconcile(&Vec::new(), &with), reconcile(&Vec::new(), &without));
    assert_eq!(reconcile(&with, &side(&["ann", "cid"])), vec!["cid"]);
    assert_eq!(AccountSet::from_entries(&vec![entry(&[])]).len(), 0);
}

#[test]
fn only_the_name_is_matched() {
    let followers = vec![FollowerEntry {
        title: "one".to_string(),
        string_list_data: vec![StringListData {
            href: "https://elsewhere.example/ann".to_string(),
            value: "ann".to_string(),
            timestamp: 1,
        }],
    }];
    let following = vec![FollowerEntry {
        title: "two".to_string(),
        string_list_data: vec![StringListData {
            href: "not a url".to_string(),
            value: "ann".to_string(),
            timestamp: 2,
        }],
    }];
    assert_eq!(reconcile(&followers, &following), Vec::<String>::new());
}

#[test]
fn summary_counts_distinct_names() {
    let followers = side(&["ann", "ann", "bob"]);
    let following = side(&["ann", "cid", "cid", "dee"]);
    let analysis = summarize(&followers, &following);
    assert_eq!(analysis.non_mutual_follows, vec!["cid", "dee"]);
    assert_eq!(analysis.follower_count, 2);
    assert_eq!(analysis.following_count, 3);
}

#[test]
fn account_set_holds_each_name_once() {
    let mut set = AccountSet::new();
    assert_eq!(set.len(), 0);
    assert!(!set.contains("ann"));
    for name in ["moe", "ann", "zoe", "ann", "bob", "zoe"] {
        set = set.insert(name.to_string());
    }
    assert_eq!(set.len(), 4);
    for name in ["ann", "bob", "moe", "zoe"] {
        assert!(set.contains(name));
    }
    for name in ["", "a", "an", "anna", "boc", "zz", "Ann"] {
        assert!(!set.contains(name));
    }
}

#[test]
fn account_set_difference_is_ascending() {
    let mut left = AccountSet::new();
    for name in ["e", "c", "a", "d", "b"] {
        left = left.insert(name.to_string());
    }
    let mut right = AccountSet::new();
    for name in ["d", "x", "a"] {
        right = right.insert(name.to_string());
    }
    assert_eq!(left.difference(&right), vec!["b", "c", "e"]);
    assert_eq!(right.difference(&left), vec!["x"]);
    assert_eq!(left.difference(&left), Vec::<String>::new());
    assert_eq!(left.difference(&AccountSet::new()), vec!["a", "b", "c", "d", "e"]);
    assert_eq!(AccountSet::new().difference(&left), Vec::<String>::new());
}

#[test]
fn many_names_come_out_in_order() {
    let names: Vec<String> = (0..500).map(|i| format!("user{}", (i * 7919) % 1000)).collect();
    let following: Vec<FollowerEntry> = names
        .iter()
        .map(|name| FollowerEntry {
            title: String::new(),
            string_list_data: vec![StringListData {
                href: String::new(),
                value: name.clone(),
                timestamp: 0,
            }],
        })
        .collect();
    let followers: Vec<FollowerEntry> = following.iter().step_by(3).cloned().collect();
    let result = reconcile(&followers, &following);
    let mut expected: Vec<String> = names
        .iter()
        .enumerate()
        .filter(|(i, _)| i % 3 != 0)
        .map(|(_, name)| name.clone())
        .filter(|name| !names.iter().step_by(3).any(|other| other == name))
        .collect();
    expected.sort();
    expected.dedup();
    assert_eq!(result, expected);
}
