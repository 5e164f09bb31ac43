use dfx::field_map::{FieldBase, FieldMap, FieldMapError, Group};
use dfx::message_store::{DefaultStoreFactory, MemoryMessageStore, MessageStore};
use dfx::session::SessionId;

#[test]
fn set_then_get_reads_back_the_value() {
    let mut map = FieldMap::new();
    map.set_field(55, "IBM");
    map.set_field(44, "10");
    map.set_field(55, "MSFT");
    assert_eq!(map.get_field(55).value(), "MSFT");
    assert_eq!(map.get_field(44).value(), "10");
    assert!(map.is_field_set(44));
    assert!(!map.is_field_set(1));
}

#[test]
fn remove_field_unsets_it() {
    let mut map = FieldMap::new();
    map.set_field(58, "hello");
    map.remove_field(58);
    assert!(!map.is_field_set(58));
    map.remove_field(58);
    assert!(map.is_empty());
}

#[test]
fn get_int_parses_or_fails() {
    let mut map = FieldMap::new();
    map.set_field(34, "12");
    map.set_field(35, "A");
    assert_eq!(map.get_int(34).ok(), Some(12));
    assert!(map.get_int(35).is_err());
    assert!(matches!(map.get_int(36), Err(FieldMapError::FieldNotFound(36))));
}

#[test]
fn set_field_base_with_overwrite_true_changes_nothing() {
    let mut map = FieldMap::new();
    map.set_field(1, "a");
    assert!(!map.set_field_base(FieldBase::new(1, "b".to_string()), Some(true)));
    assert_eq!(map.get_field(1).value(), "a");
    assert!(map.set_field_base(FieldBase::new(1, "b".to_string()), None));
    assert_eq!(map.get_field(1).value(), "b");
}

#[test]
fn calculate_string_writes_fields_in_tag_order() {
    let mut map = FieldMap::new();
    map.set_field(58, "x");
    map.set_field(35, "A");
    assert_eq!(map.calculate_string(None), "35=A\x0158=x\x01");
    assert_eq!(map.len(), 10);
}

#[test]
fn groups_are_counted_and_read_back() {
    let mut map = FieldMap::new();
    let mut g = Group::new(453, 448);
    g.map_mut().set_field(448, "PARTY");
    map.add_group(453, &g, None);
    map.add_group(453, &g, None);
    assert_eq!(map.group_count(453), 2);
    let back = map.get_group(2, 453);
    assert_eq!(back.map().get_field(448).value(), "PARTY");
    assert_eq!(back.field(), 453);
    assert_eq!(back.delim(), 448);
    map.remove_group(1, 453);
    assert_eq!(map.group_count(453), 1);
}

#[test]
fn memory_store_keeps_messages_in_order() {
    let id = SessionId::new("FIX.4.4", "S", "", "", "T", "", "");
    let mut store: MemoryMessageStore = DefaultStoreFactory::new().create(&id);
    assert_eq!(store.next_sender_msg_seq_num(), 1);
    store.set(5, "five");
    store.set(2, "two");
    store.set(9, "nine");
    store.set(2, "TWO");
    let got: Vec<String> = store.get(2, 5).into_iter().cloned().collect();
    assert_eq!(got, vec!["TWO".to_string(), "five".to_string()]);
    let got: Vec<String> = store.get(6, 100).into_iter().cloned().collect();
    assert_eq!(got, vec!["nine".to_string()]);
    store.incr_next_sender_msg_seq_num();
    store.set_next_target_msg_seq_num(7);
    store.incr_next_target_msg_seq_num();
    assert_eq!(store.next_sender_msg_seq_num(), 2);
    assert_eq!(store.next_target_msg_seq_num(), 8);
    assert!(store.creation_time().is_some());
    store.reset();
    assert!(store.get(0, 100).is_empty());
    assert_eq!(store.next_target_msg_seq_num(), 1);
}

#[test]
fn memory_store_knows_when_it_was_made_and_reset() {
    let mut store = MemoryMessageStore::new();
    assert!(store.creation_time().is_some());
    store.reset();
    assert!(store.creation_time().is_some());
}
