use rathole::maps::{AssocMap, MultiMap};

#[test]
fn assoc_map_keeps_one_value_per_key() {
    let mut m = AssocMap::new();
    assert_eq!(m.insert([1u8; 32], "a"), None);
    assert_eq!(m.insert([2u8; 32], "b"), None);
    assert_eq!(m.insert([1u8; 32], "c"), Some("a"));
    assert_eq!(m.len(), 2);
    assert_eq!(m.get(&[1u8; 32]), Some(&"c"));
    assert_eq!(m.remove(&[1u8; 32]), Some("c"));
    assert_eq!(m.remove(&[1u8; 32]), None);
    assert_eq!(m.get(&[2u8; 32]), Some(&"b"));
    assert_eq!(m.len(), 1);
}

#[test]
fn keys_that_differ_at_the_end_differ() {
    let mut last = [0u8; 32];
    last[31] = 1;
    let mut m = AssocMap::new();
    m.insert([0u8; 32], 0);
    assert!(m.get(&last).is_none());
}

#[test]
fn multi_map_finds_by_either_key() {
    let mut m = MultiMap::new();
    assert!(m.insert([1; 32], [11; 32], "a").is_ok());
    assert!(m.insert([2; 32], [12; 32], "b").is_ok());
    assert_eq!(m.get1(&[1; 32]), Some(&"a"));
    assert_eq!(m.get2(&[12; 32]), Some(&"b"));
    assert_eq!(m.get1(&[11; 32]), None);
    assert_eq!(m.get2(&[1; 32]), None);
}

#[test]
fn multi_map_refuses_a_taken_key() {
    let mut m = MultiMap::new();
    assert!(m.insert([1; 32], [11; 32], "a").is_ok());
    assert_eq!(
        m.insert([1; 32], [12; 32], "b"),
        Err(([1; 32], [12; 32], "b"))
    );
    assert_eq!(
        m.insert([2; 32], [11; 32], "b"),
        Err(([2; 32], [11; 32], "b"))
    );
    assert_eq!(m.get1(&[1; 32]), Some(&"a"));
    assert_eq!(m.get1(&[2; 32]), None);
}

#[test]
fn multi_map_forgets_both_keys() {
    let mut m = MultiMap::new();
    assert!(m.insert([1; 32], [11; 32], "a").is_ok());
    assert!(m.insert([2; 32], [12; 32], "b").is_ok());
    assert_eq!(m.remove1(&[1; 32]), Some("a"));
    assert_eq!(m.get2(&[11; 32]), None);
    assert_eq!(m.remove2(&[12; 32]), Some("b"));
    assert_eq!(m.get1(&[2; 32]), None);
    assert_eq!(m.remove2(&[12; 32]), None);
    assert_eq!(m.remove1(&[2; 32]), None);
}
