use photo_backup::context::AssetContext;
use photo_backup::tags::ContextTable;

fn pair(key: &str, value: &str) -> (String, String) {
    (key.to_string(), value.to_string())
}

#[test]
fn new_context_is_empty() {
    let context = AssetContext::new();
    assert_eq!(context.len(), 0);
    assert!(context.pairs().is_empty());
    assert_eq!(context.get(&"alt".to_string()), None);
}

#[test]
fn inserted_value_is_found_under_its_key() {
    let mut context = AssetContext::new();
    context.insert("alt".to_string(), "a beach".to_string());
    context.insert("by".to_string(), "me".to_string());
    assert_eq!(context.len(), 2);
    assert_eq!(context.get(&"alt".to_string()), Some(&"a beach".to_string()));
    assert_eq!(context.get(&"by".to_string()), Some(&"me".to_string()));
    assert_eq!(context.get(&"at".to_string()), None);
    assert_eq!(context.pairs(), &vec![pair("alt", "a beach"), pair("by", "me")]);
}

#[test]
fn value_for_a_known_key_takes_the_place_of_the_old_one() {
    let mut context = AssetContext::new();
    context.insert("alt".to_string(), "a beach".to_string());
    context.insert("by".to_string(), "me".to_string());
    context.insert("alt".to_string(), "a lake".to_string());
    assert_eq!(context.len(), 2);
    assert_eq!(context.pairs(), &vec![pair("alt", "a lake"), pair("by", "me")]);
}

#[test]
fn of_two_pairs_with_one_key_the_later_stays() {
    let given = vec![pair("k", "1"), pair("l", "2"), pair("k", "3"), pair("k", "4")];
    let context = AssetContext::from_pairs(&given);
    assert_eq!(context.pairs(), &vec![pair("k", "4"), pair("l", "2")]);
    assert_eq!(AssetContext::from_pairs(&Vec::new()), AssetContext::new());
}

#[test]
fn copies_of_a_context_are_equal() {
    let context = AssetContext::from_pairs(&vec![pair("k", "1"), pair("l", "2")]);
    assert_eq!(context.duplicate(), context);
    assert_eq!(context.clone(), context);
}

#[test]
fn context_of_an_asset_is_attached_key_by_key() {
    let context = AssetContext::from_pairs(&vec![pair("k", "1"), pair("k", "2"), pair("l", "3")]);
    let mut table = ContextTable::new();
    table.attach_context(4, context.pairs());
    assert_eq!(table.len(), 2);
}
