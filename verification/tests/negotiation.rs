use eths::capability::{
    announces, name_precedes, negotiate, same_name, Capability, SharedCapability,
};

fn cap(name: &str, version: usize) -> Capability {
    Capability { name: name.to_string(), version }
}

fn pairs(local: &Vec<Capability>, remote: &Vec<Capability>) -> Vec<(String, usize)> {
    negotiate(local, remote).entries().iter().map(|e| (e.name.clone(), e.version)).collect()
}

#[test]
fn highest_common_version_is_shared() {
    let local = vec![cap("eth", 66), cap("eth", 67), cap("eth", 68)];
    let remote = vec![cap("eth", 65), cap("eth", 66)];
    let shared = negotiate(&local, &remote);
    assert_eq!(
        shared.entries(),
        &vec![SharedCapability { name: "eth".to_string(), version: 66, offset: 0 }]
    );
    assert_eq!(shared.len(), 1);
    assert!(!shared.is_empty());
    assert_eq!(shared.version_of("eth"), Some(66));
    assert_eq!(shared.version_of("les"), None);
}

#[test]
fn nothing_in_common_is_empty() {
    let shared = negotiate(&vec![cap("eth", 66)], &vec![cap("les", 1)]);
    assert!(shared.is_empty());
    assert_eq!(shared.len(), 0);
    assert_eq!(shared.version_of("eth"), None);
}

#[test]
fn same_name_without_common_version_is_empty() {
    assert!(negotiate(&vec![cap("eth", 67), cap("eth", 68)], &vec![cap("eth", 66)]).is_empty());
}

#[test]
fn empty_lists_share_nothing() {
    assert!(negotiate(&Vec::new(), &vec![cap("eth", 66)]).is_empty());
    assert!(negotiate(&vec![cap("eth", 66)], &Vec::new()).is_empty());
    assert!(negotiate(&Vec::new(), &Vec::new()).is_empty());
}

#[test]
fn negotiation_yields_the_same_pairs_both_ways() {
    let a = vec![cap("snap", 1), cap("eth", 66), cap("eth", 68), cap("les", 4), cap("eth", 67)];
    let b = vec![cap("eth", 67), cap("les", 3), cap("snap", 1), cap("eth", 66), cap("les", 4)];
    let ab = pairs(&a, &b);
    let ba = pairs(&b, &a);
    assert_eq!(ab, ba);
    assert_eq!(
        ab,
        vec![("eth".to_string(), 67), ("les".to_string(), 4), ("snap".to_string(), 1)]
    );
}

#[test]
fn entries_are_ordered_by_name_with_offsets_from_zero() {
    let local = vec![cap("snap", 1), cap("les", 2), cap("eth", 68), cap("eth", 66)];
    let remote = vec![cap("les", 2), cap("eth", 66), cap("snap", 1), cap("eth", 68)];
    let shared = negotiate(&local, &remote);
    assert_eq!(
        shared.entries(),
        &vec![
            SharedCapability { name: "eth".to_string(), version: 68, offset: 0 },
            SharedCapability { name: "les".to_string(), version: 2, offset: 1 },
            SharedCapability { name: "snap".to_string(), version: 1, offset: 2 },
        ]
    );
}

#[test]
fn repeated_announcements_count_once() {
    let local = vec![cap("eth", 66), cap("eth", 66), cap("eth", 66)];
    let remote = vec![cap("eth", 66), cap("eth", 66)];
    let shared = negotiate(&local, &remote);
    assert_eq!(
        shared.entries(),
        &vec![SharedCapability { name: "eth".to_string(), version: 66, offset: 0 }]
    );
}

#[test]
fn a_higher_version_on_one_side_only_does_not_count() {
    let local = vec![cap("eth", 66), cap("eth", 70)];
    let remote = vec![cap("eth", 66), cap("eth", 69)];
    assert_eq!(pairs(&local, &remote), vec![("eth".to_string(), 66)]);
}

#[test]
fn names_are_ordered_by_their_bytes() {
    assert!(name_precedes("eth", "les"));
    assert!(!name_precedes("les", "eth"));
    assert!(!name_precedes("eth", "eth"));
    assert!(name_precedes("et", "eth"));
    assert!(!name_precedes("eth", "et"));
    assert!(name_precedes("", "a"));
    assert!(!name_precedes("", ""));
    assert!(name_precedes("Z", "a"));
    assert!(name_precedes("z", "\u{e9}"));
}

#[test]
fn names_are_compared_exactly() {
    assert!(same_name("eth", "eth"));
    assert!(!same_name("eth", "Eth"));
    assert!(!same_name("eth", "et"));
    assert!(same_name("", ""));
}

#[test]
fn announces_needs_name_and_version() {
    let list = vec![cap("eth", 66), cap("les", 2)];
    assert!(announces(&list, &"eth".to_string(), 66));
    assert!(announces(&list, &"les".to_string(), 2));
    assert!(!announces(&list, &"eth".to_string(), 2));
    assert!(!announces(&list, &"snap".to_string(), 66));
    assert!(!announces(&Vec::new(), &"eth".to_string(), 66));
}

#[test]
fn capability_clone_is_equal() {
    let c = cap("eth", 68);
    assert_eq!(c.clone(), c);
}
