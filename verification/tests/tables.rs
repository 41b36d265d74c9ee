use pet_ledger::accounts::Accounts;
use pet_ledger::interface::{AllowanceResponse, Cw20Coin};
use pet_ledger::order::{compare_keys, Key, PairKey, Place};
use pet_ledger::sorted_map::{Entry, SortedMap};

fn pair(first: &str, second: &str) -> PairKey {
    PairKey { first: first.to_string(), second: second.to_string() }
}

#[test]
fn keys_compare_byte_by_byte() {
    assert_eq!(compare_keys("", ""), Place::Same);
    assert_eq!(compare_keys("", "a"), Place::Before);
    assert_eq!(compare_keys("a", ""), Place::After);
    assert_eq!(compare_keys("abc", "abc"), Place::Same);
    assert_eq!(compare_keys("abc", "abd"), Place::Before);
    assert_eq!(compare_keys("abc", "ab"), Place::After);
    assert_eq!(compare_keys("Z", "a"), Place::Before);
    assert_eq!(compare_keys("z", "é"), Place::Before);
    assert_eq!(compare_keys("é", "e"), Place::After);
    for (a, b) in [("addr0001", "addr0002"), ("b", "ab"), ("", "x"), ("same", "same"), ("€", "é")] {
        let expected = match a.cmp(b) {
            std::cmp::Ordering::Less => Place::Before,
            std::cmp::Ordering::Equal => Place::Same,
            std::cmp::Ordering::Greater => Place::After,
        };
        assert_eq!(compare_keys(a, b), expected);
        assert_eq!(a.to_string().place(&b.to_string()), expected);
    }
}

#[test]
fn pairs_compare_by_first_then_second() {
    assert_eq!(pair("a", "z").place(&pair("b", "a")), Place::Before);
    assert_eq!(pair("b", "a").place(&pair("a", "z")), Place::After);
    assert_eq!(pair("a", "b").place(&pair("a", "c")), Place::Before);
    assert_eq!(pair("a", "c").place(&pair("a", "b")), Place::After);
    assert_eq!(pair("a", "b").place(&pair("a", "b")), Place::Same);
    assert_eq!(pair("ab", "").place(&pair("a", "b")), Place::After);
    assert_eq!(pair("a", "b").duplicate(), pair("a", "b"));
}

#[test]
fn sorted_map_keeps_its_keys_in_order() {
    let mut map: SortedMap<String, u32> = SortedMap::new();
    assert_eq!(map.len(), 0);
    assert_eq!(map.get(&"a".to_string()), None);
    for (key, value) in [("m", 1u32), ("c", 2), ("x", 3), ("a", 4), ("c", 5)] {
        map.insert(key.to_string(), value);
    }
    assert_eq!(map.len(), 4);
    assert_eq!(map.get(&"c".to_string()), Some(5));
    assert_eq!(map.get(&"b".to_string()), None);
    let listed: Vec<(String, u32)> =
        (0..map.len()).map(|i| (map.key(i).clone(), map.value(i))).collect();
    let expected: Vec<(String, u32)> =
        [("a", 4u32), ("c", 5), ("m", 1), ("x", 3)].iter().map(|(k, v)| (k.to_string(), *v)).collect();
    assert_eq!(listed, expected);
    assert_eq!(map.rank(&"a".to_string()), 0);
    assert_eq!(map.rank(&"b".to_string()), 1);
    assert_eq!(map.rank(&"c".to_string()), 1);
    assert_eq!(map.rank(&"zz".to_string()), 4);
    assert_eq!(map.first_after(&"c".to_string()), 2);
    assert_eq!(map.first_after(&"b".to_string()), 1);
    assert_eq!(map.first_after(&"".to_string()), 0);
    assert_eq!(map.first_after(&"x".to_string()), 4);

    map.remove(&"m".to_string());
    map.remove(&"nothing".to_string());
    assert_eq!(
        map.to_vec(),
        vec![
            Entry { key: "a".to_string(), value: 4 },
            Entry { key: "c".to_string(), value: 5 },
            Entry { key: "x".to_string(), value: 3 },
        ]
    );
}

#[test]
fn sorted_map_of_pairs_groups_by_the_first() {
    let mut map: SortedMap<PairKey, AllowanceResponse> = SortedMap::new();
    let none = AllowanceResponse::none();
    assert!(none.is_none());
    for key in [pair("b", "x"), pair("a", "z"), pair("b", "a"), pair("a", "a")] {
        map.insert(key, none);
    }
    let keys: Vec<PairKey> = map.to_vec().into_iter().map(|e| e.key).collect();
    assert_eq!(keys, vec![pair("a", "a"), pair("a", "z"), pair("b", "a"), pair("b", "x")]);
    assert_eq!(map.rank(&pair("b", "")), 2);
    assert_eq!(map.first_after(&pair("a", "a")), 1);
}

#[test]
fn accounts_hold_no_zero() {
    let mut accounts = Accounts::new();
    let ann = "ann".to_string();
    let bob = "bob".to_string();
    assert_eq!(accounts.balance(&ann), 0);
    accounts.set(&bob, 0);
    assert_eq!(accounts.to_vec().len(), 0);
    accounts.set(&bob, 7);
    accounts.set(&ann, 3);
    accounts.set(&bob, 8);
    assert_eq!(accounts.balance(&bob), 8);
    assert_eq!(
        accounts.to_vec(),
        vec![
            Cw20Coin { address: ann.clone(), amount: 3 },
            Cw20Coin { address: bob.clone(), amount: 8 }
        ]
    );
    assert_eq!(accounts.page(&None, 1), vec![ann.clone()]);
    assert_eq!(accounts.page(&Some(ann.clone()), 5), vec![bob.clone()]);
    assert_eq!(accounts.page(&Some("a".to_string()), 5), vec![ann.clone(), bob.clone()]);
    accounts.set(&ann, 0);
    assert_eq!(accounts.balance(&ann), 0);
    assert_eq!(accounts.to_vec(), vec![Cw20Coin { address: bob, amount: 8 }]);
}
