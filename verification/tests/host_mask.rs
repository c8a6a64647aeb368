use titanirc::host_mask::{HostMask, HostMaskMap};

#[test]
fn wildcard_middle_of_string_unsupported() {
    assert!(HostMask::try_from("aa*a!bbbb@cccc").is_err());
}

#[test]
fn multiple_wildcards_unsupported() {
    assert!(HostMask::try_from("a**!bbb@cccc").is_err());
}

#[test]
fn empty_key_unsupported() {
    assert!(HostMask::try_from("a!@cccc").is_err());
}

#[test]
fn test_insert_and_get_no_wildcard() {
    let mut map = HostMaskMap::new();
    map.insert(&"aaaa!bbbb@cccc".try_into().unwrap(), 10);

    let retrieved = map.get(&"aaaa!bbbb@cccc".try_into().unwrap());
    assert_eq!(retrieved.len(), 1);
    assert_eq!(*retrieved[0], 10);
}

#[test]
fn test_insert_with_wildcard_and_get_exact() {
    let mut map = HostMaskMap::new();
    map.insert(&"aaaa!*@*".try_into().unwrap(), 20);

    let retrieved = map.get(&"aaaa!bbbb@cccc".try_into().unwrap());
    assert_eq!(retrieved.len(), 1);
    assert_eq!(*retrieved[0], 20);
}

#[test]
fn test_insert_with_wildcard_and_get_wildcard() {
    let mut map = HostMaskMap::new();
    map.insert(&"aaaa!*@*".try_into().unwrap(), 30);

    let retrieved = map.get(&"aaaa!*@*".try_into().unwrap());
    assert_eq!(retrieved.len(), 1);
    assert_eq!(*retrieved[0], 30);
}

#[test]
fn test_insert_multiple_and_get_one() {
    let mut map = HostMaskMap::new();
    map.insert(&"aaaa!bbbb@cccc".try_into().unwrap(), 40);
    map.insert(&"xxxx!yyyy@zzzz".try_into().unwrap(), 50);

    let retrieved = map.get(&"aaaa!bbbb@cccc".try_into().unwrap());
    assert_eq!(retrieved.len(), 1);
    assert_eq!(*retrieved[0], 40);
}

#[test]
fn test_insert_and_get_multiple_matches() {
    let mut map = HostMaskMap::new();
    map.insert(&"aaaa!*@*".try_into().unwrap(), 60);
    map.insert(&"*!bbbb@cccc".try_into().unwrap(), 70);

    let retrieved = map.get(&"aaaa!bbbb@cccc".try_into().unwrap());
    assert_eq!(retrieved.len(), 2);
    assert!(retrieved.contains(&&60));
    assert!(retrieved.contains(&&70));
}

#[test]
fn test_get_no_match() {
    let mut map = HostMaskMap::new();
    map.insert(&"aaaa!bbbb@cccc".try_into().unwrap(), 80);

    let retrieved = map.get(&"xxxx!yyyy@zzzz".try_into().unwrap());
    assert_eq!(retrieved.len(), 0);
}

#[test]
fn test_insert_with_partial_wildcard_and_get_exact() {
    let mut map = HostMaskMap::new();
    map.insert(&"aaaa*!bbbb@cccc".try_into().unwrap(), 100);

    let retrieved = map.get(&"aaaa1234!bbbb@cccc".try_into().unwrap());
    assert_eq!(retrieved.len(), 1);
    assert_eq!(*retrieved[0], 100);
}

#[test]
fn test_insert_with_partial_wildcard_and_no_match() {
    let mut map = HostMaskMap::new();
    map.insert(&"aaaa*!bbbb@cccc".try_into().unwrap(), 110);

    let retrieved = map.get(&"aaab!bbbb@cccc".try_into().unwrap());
    assert_eq!(retrieved.len(), 0);
}

#[test]
fn test_insert_multiple_partial_wildcards_and_get_one() {
    let mut map = HostMaskMap::new();
    map.insert(&"aaaa*!bbbb@cccc".try_into().unwrap(), 120);
    map.insert(&"xxxx*!yyyy@zzzz".try_into().unwrap(), 130);

    let retrieved = map.get(&"aaaa123!bbbb@cccc".try_into().unwrap());
    assert_eq!(retrieved.len(), 1);
    assert_eq!(*retrieved[0], 120);
}

#[test]
fn test_insert_with_multiple_wildcard_styles_and_get_match() {
    let mut map = HostMaskMap::new();
    map.insert(&"aaaa*!bbbb@cccc".try_into().unwrap(), 140);
    map.insert(&"xxxx!*@*".try_into().unwrap(), 150);

    let retrieved = map.get(&"aaaa123!bbbb@cccc".try_into().unwrap());
    assert_eq!(retrieved.len(), 1);
    assert_eq!(*retrieved[0], 140);

    let retrieved2 = map.get(&"xxxx!testyyyy@zzzz".try_into().unwrap());
    assert_eq!(retrieved2.len(), 1);
    assert_eq!(*retrieved2[0], 150);
}

#[test]
fn test_insert_with_partial_wildcard_and_get_multiple_matches() {
    let mut map = HostMaskMap::new();
    map.insert(&"aaaa*!bbbb@cccc".try_into().unwrap(), 160);
    map.insert(&"aaaa*!bbbb@ccc*".try_into().unwrap(), 170);

    let retrieved = map.get(&"aaaa1234!bbbb@cccc".try_into().unwrap());
    assert_eq!(retrieved.len(), 2);
    assert!(retrieved.contains(&&160));
    assert!(retrieved.contains(&&170));
}

#[test]
fn borrowed_and_owned_masks_keep_their_sections() {
    let mask = HostMask::new("a*", "b", "c");
    let borrowed = mask.as_borrowed();
    assert_eq!(borrowed.nick(), "a*");
    assert_eq!(borrowed.username(), "b");
    assert_eq!(borrowed.host(), "c");
    assert_eq!(mask.into_owned().to_string(), "a*!b@c");
}

#[test]
fn map_from_entries_holds_each_entry() {
    let map = HostMaskMap::from_entries(vec![
        (HostMask::new("a", "b", "c"), 1),
        (HostMask::new("*", "b", "c"), 2),
    ]);
    let found = map.get(&HostMask::new("a", "b", "c"));
    assert_eq!(found.len(), 2);
    assert!(found.contains(&&1));
    assert!(found.contains(&&2));
    assert_eq!(map.get(&HostMask::new("x", "b", "c")), vec![&2]);
    assert!(HostMaskMap::<u8>::from_entries(vec![]).is_empty());
}
