use zerospider::ranking::rank;
use zerospider::strmap::StrMap;

#[test]
fn rank_sorts_descending_and_keeps_equals_in_order() {
    assert_eq!(rank(&vec![]), Vec::<usize>::new());
    assert_eq!(rank(&vec![5]), vec![0]);
    assert_eq!(rank(&vec![1, 3, 2]), vec![1, 2, 0]);
    assert_eq!(rank(&vec![7, 7, 7]), vec![0, 1, 2]);
    assert_eq!(rank(&vec![2, 9, 2, 9, 1, 9]), vec![1, 3, 5, 0, 2, 4]);
    assert_eq!(rank(&vec![0, u64::MAX]), vec![1, 0]);
}

#[test]
fn rank_prefixes_agree() {
    let order = rank(&vec![4, 8, 4, 1, 8, 0]);
    assert_eq!(order, vec![1, 4, 0, 2, 3, 5]);
    for n in 0..order.len() {
        assert_eq!(order[..n], order[..n + 1][..n]);
    }
}

#[test]
fn strmap_replaces_in_place_and_keeps_order() {
    let mut map: StrMap<u32> = StrMap::new();
    assert!(map.is_empty());
    assert_eq!(map.get("a"), None);
    map.insert("b".to_string(), 1);
    map.insert("a".to_string(), 2);
    map.insert("b".to_string(), 3);
    assert_eq!(map.len(), 2);
    assert_eq!(map.get("b"), Some(&3));
    assert_eq!(map.get("a"), Some(&2));
    assert_eq!(map.get("c"), None);
    assert!(map.contains_key("a"));
    assert!(!map.contains_key(""));
    assert_eq!(map.position("b"), Some(0));
    assert_eq!(map.position("a"), Some(1));
    assert_eq!(map.position("c"), None);
    assert_eq!(map.key_at(0), "b");
    assert_eq!(*map.value_at(1), 2);
    map.set_at(1, 9);
    assert_eq!(map.get("a"), Some(&9));
    assert_eq!(map.replace_at(0, 4), 3);
    assert_eq!(map.get("b"), Some(&4));
    let copy = map.clone();
    assert_eq!(copy.len(), 2);
    assert_eq!(copy.get("a"), Some(&9));
    assert_eq!(copy.key_at(1), "a");
}
