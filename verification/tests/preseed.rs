use arams::preseed::parse_register_preseed;

#[test]
fn preseed_reads_bracketed_pairs() {
    let map = parse_register_preseed("[(1,2),(2,4)]").unwrap();
    assert_eq!(map.len(), 2);
    assert_eq!(map.get(&1), Some(&2));
    assert_eq!(map.get(&2), Some(&4));
}

#[test]
fn preseed_accepts_empty_and_single_pair() {
    assert!(parse_register_preseed("").unwrap().is_empty());
    assert!(parse_register_preseed("   ").unwrap().is_empty());

    let map = parse_register_preseed("(7,9)").unwrap();
    assert_eq!(map.len(), 1);
    assert_eq!(map.get(&7), Some(&9));

    let spaced = parse_register_preseed("[( 1 , 2 )]").unwrap();
    assert_eq!(spaced.get(&1), Some(&2));
}

#[test]
fn preseed_rejects_malformed_pairs() {
    assert!(parse_register_preseed("[(1,2),(x,4)]").is_none());
    assert!(parse_register_preseed("[(1)]").is_none());
    assert!(parse_register_preseed("[(1,2,3)]").is_none());
    assert!(parse_register_preseed("nonsense").is_none());
}
