use dataflowgrid::ordered_multi_dict::OrderedMultiDict;
use dataflowgrid::orderedbag::OrderedBag;
use dataflowgrid::doss_multi_dict;

#[derive(PartialEq, Debug)]
enum DictEntry<'a> {
    String { str: &'a str },
    Decimal { int: usize },
    Null,
    List { list: Vec<DictEntry<'a>> },
    Dict { dict: OrderedMultiDict<&'a str, DictEntry<'a>> },
    True,
    False,
    Absent,
}

#[derive(PartialEq, Debug)]
enum BagEntry<'a> {
    String { str: &'a str },
    Decimal { int: usize },
    Null,
    List { list: Vec<BagEntry<'a>> },
    Dict { dict: OrderedBag<&'a str, BagEntry<'a>> },
    True,
    False,
    Absent,
}

#[test]
fn mod_empty() {
    let result = OrderedMultiDict::<&str, DictEntry>::new();
    assert_eq!(result.length(), 0);
}

#[test]
fn mod_insert_remove() {
    let mut result = OrderedMultiDict::new();
    result.push("key", DictEntry::String { str: "value" });
    assert_eq!(result.length(), 1);
    assert_eq!(result.get("key").unwrap(), &DictEntry::String { str: "value" });

    result.remove("key");
    assert_eq!(result.length(), 0);
    assert!(result.get("key").is_none());
}

#[test]
fn mod_insert_empty_list() {
    let mut result = OrderedMultiDict::new();
    result.push("key", DictEntry::List { list: Vec::new() });
    assert_eq!(result.length(), 1);
    assert_eq!(result.get("key").unwrap(), &DictEntry::List { list: Vec::new() });
}

#[test]
fn empty() {
    let result = OrderedBag::<&str, BagEntry>::new();
    assert_eq!(result.length(), 0);
}

#[test]
fn insert_remove() {
    let mut result = OrderedBag::new();
    result.push("key", BagEntry::String { str: "value" });
    assert_eq!(result.length(), 1);
    assert_eq!(result.get("key").unwrap(), &BagEntry::String { str: "value" });

    result.remove("key");
    assert_eq!(result.length(), 0);
    assert!(result.get("key").is_none());
}

#[test]
fn insert_empty_list() {
    let mut result = OrderedBag::new();
    result.push("key", BagEntry::List { list: Vec::new() });
    assert_eq!(result.length(), 1);
    assert_eq!(result.get("key").unwrap(), &BagEntry::List { list: Vec::new() });
}

#[test]
fn ordered_multi_dict_empty() {
    let result = doss_multi_dict::OrderedMultiDict::new();
    assert_eq!(result.length(), 0);
}

#[test]
fn ordered_multi_dict_insert_remove() {
    let mut result = doss_multi_dict::OrderedMultiDict::new();
    result.insert(
        "key".to_string(),
        doss_multi_dict::OrderedMultiDictEntry::String { str: "value".to_string() },
    );
    assert_eq!(result.length(), 1);
    assert_eq!(
        result.get(&"key".to_string()).unwrap(),
        &doss_multi_dict::OrderedMultiDictEntry::String { str: "value".to_string() }
    );

    result.remove(&"key".to_string());
    assert_eq!(result.length(), 0);
    assert!(result.get(&"key".to_string()).is_none());
}

#[test]
fn ordered_multi_dict_insert_empty_list() {
    let mut result = doss_multi_dict::OrderedMultiDict::new();
    result.insert(
        "key".to_string(),
        doss_multi_dict::OrderedMultiDictEntry::List { list: Vec::new() },
    );
    assert_eq!(result.length(), 1);
    assert_eq!(
        result.get(&"key".to_string()).unwrap(),
        &doss_multi_dict::OrderedMultiDictEntry::List { list: Vec::new() }
    );
}

#[test]
fn bag_out_of_sync_columns() {
    let mut bag = OrderedBag::<&str, usize>::new();
    bag.insert_key_only("pending");
    assert!(!bag.keys_and_values_in_sync());
    bag.insert_value_only(7);
    assert!(bag.keys_and_values_in_sync());
    assert_eq!(bag.get("pending").unwrap(), &7);
}

#[test]
fn multi_dict_duplicate_keys_and_iteration() {
    let mut d = OrderedMultiDict::<&str, usize>::new();
    d.push("a", 1);
    d.push("a", 2);
    d.push("b", 3);
    // lookup finds the first match, removal removes the first match
    assert_eq!(d.get("a").unwrap(), &1);
    d.remove("a");
    assert_eq!(d.get("a").unwrap(), &2);
    assert_eq!(d.last_entry().unwrap(), &3);
    d.replace_last_entry(4);
    let mut it = d.iter();
    assert_eq!(it.next(&d).unwrap(), (&"a", &2));
    assert_eq!(it.next(&d).unwrap(), (&"b", &4));
    assert!(it.next(&d).is_none());
}
