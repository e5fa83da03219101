use formidable::aggregate::{fold_list, merge_fields};
use formidable::{FieldError, FormError, ListItems, Name};

fn field_error(key: &'static str, message: &str) -> FieldError {
    FieldError::new(Name::new().push_key(key), message.to_string())
}

fn messages(e: &FormError) -> Vec<String> {
    e.errors().iter().map(|f| f.inner().to_string()).collect()
}

#[test]
fn merge_waits_for_untouched_fields() {
    let cells: Vec<Option<Result<u32, FormError>>> = vec![Some(Ok(1)), None, Some(Ok(3))];
    assert!(merge_fields(cells).is_none());
    let cells: Vec<Option<Result<u32, FormError>>> = vec![
        None,
        Some(Err(FormError::from_error(field_error("a", "bad")))),
    ];
    assert!(merge_fields(cells).is_none());
}

#[test]
fn merge_builds_value_when_all_valid() {
    let cells: Vec<Option<Result<u32, FormError>>> = vec![Some(Ok(1)), Some(Ok(2)), Some(Ok(3))];
    match merge_fields(cells) {
        Some(Ok(v)) => assert_eq!(v, vec![1, 2, 3]),
        _ => panic!("expected success"),
    }
}

#[test]
fn merge_of_no_fields_succeeds_at_once() {
    let cells: Vec<Option<Result<u32, FormError>>> = vec![];
    match merge_fields(cells) {
        Some(Ok(v)) => assert!(v.is_empty()),
        _ => panic!("expected success"),
    }
}

#[test]
fn merge_collects_every_error_in_order() {
    let mut two = FormError::from_error(field_error("b", "second"));
    two.extend(FormError::from_error(field_error("b", "third")));
    let cells: Vec<Option<Result<u32, FormError>>> = vec![
        Some(Err(FormError::from_error(field_error("a", "first")))),
        Some(Ok(5)),
        Some(Err(two)),
        Some(Err(FormError::from_error(field_error("c", "fourth")))),
    ];
    match merge_fields(cells) {
        Some(Err(e)) => {
            assert_eq!(e.len(), 4);
            assert_eq!(messages(&e), vec!["first", "second", "third", "fourth"]);
        }
        _ => panic!("expected failure"),
    }
}

#[test]
fn merge_fails_on_error_without_entries() {
    let cells: Vec<Option<Result<u32, FormError>>> = vec![Some(Ok(1)), Some(Err(FormError::new()))];
    match merge_fields(cells) {
        Some(Err(e)) => assert_eq!(e.len(), 0),
        _ => panic!("expected failure"),
    }
}

#[test]
fn fold_skips_untouched_elements() {
    let cells: Vec<Option<Result<u32, FormError>>> = vec![Some(Ok(1)), None, Some(Ok(3))];
    match fold_list(cells) {
        Ok(v) => assert_eq!(v, vec![1, 3]),
        Err(_) => panic!("expected success"),
    }
    let none: Vec<Option<Result<u32, FormError>>> = vec![None, None];
    assert_eq!(fold_list(none).ok(), Some(vec![]));
}

#[test]
fn fold_accumulates_errors_and_drops_values() {
    let cells: Vec<Option<Result<u32, FormError>>> = vec![
        Some(Ok(1)),
        Some(Err(FormError::from_error(field_error("a", "first")))),
        Some(Ok(2)),
        None,
        Some(Err(FormError::from_error(field_error("b", "second")))),
    ];
    match fold_list(cells) {
        Err(e) => assert_eq!(messages(&e), vec!["first", "second"]),
        Ok(_) => panic!("expected failure"),
    }
}

#[test]
fn list_items_keep_identity_on_removal() {
    let mut list: ListItems<u32> = ListItems::new();
    list.push_item(10);
    list.push_item(20);
    list.push_item(30);
    assert!(list.set_value(10, Ok(1)));
    assert!(list.set_value(30, Err(FormError::from_error(field_error("x", "bad")))));
    assert!(!list.set_value(99, Ok(9)));
    list.remove(20);
    let items = list.items();
    assert_eq!(items.len(), 2);
    assert_eq!(items[0].id, 10);
    assert!(matches!(items[0].value, Some(Ok(1))));
    assert_eq!(items[1].id, 30);
    assert!(matches!(items[1].value, Some(Err(_))));
}

#[test]
fn list_set_value_updates_first_match_only() {
    let mut list: ListItems<u32> = ListItems::new();
    list.push_item(5);
    list.push_item(5);
    assert!(list.set_value(5, Ok(8)));
    assert!(matches!(list.items()[0].value, Some(Ok(8))));
    assert!(list.items()[1].value.is_none());
}

#[test]
fn list_aggregate_folds_cells() {
    let list = ListItems::from_values(vec![4u32, 5, 6]);
    assert_eq!(list.len(), 3);
    assert_eq!(list.aggregate().ok(), Some(vec![4, 5, 6]));
}

#[test]
fn new_list_elements_get_version_four_ids() {
    let mut list: ListItems<u32> = ListItems::new();
    let a = list.push_new();
    let b = list.push_new();
    assert_ne!(a, b);
    assert_eq!((a >> 76) & 0xf, 4);
    assert_eq!((a >> 62) & 0x3, 2);
    assert_eq!(list.items()[1].id, b);
    assert!(list.items()[1].value.is_none());
}

#[test]
fn field_error_keeps_name_message_and_input() {
    let name = Name::new().push_key("age");
    let e = FieldError::new_string(name, "Invalid number".to_string(), "abc".to_string());
    assert_eq!(e.inner(), "Invalid number");
    assert_eq!(e.to_string(), "Invalid number");
    assert_eq!(e.name(), name);
    assert_eq!(e.raw_value(), Some("abc"));
    let e = FieldError::new(name, "Required".to_string());
    assert_eq!(e.raw_value(), None);
}

#[test]
fn form_error_lists_messages_by_line() {
    let mut e = FormError::from_errors(vec![field_error("a", "one")]);
    e.extend(FormError::from_error(field_error("b", "two")));
    assert_eq!(e.to_string(), "one\ntwo\n");
    assert_eq!(e.into_errors().len(), 2);
    assert_eq!(FormError::new().to_string(), "");
}
