use catalog::store::{record_precedes, Record, Store, StoreError};
use catalog::text::{chars_contain, chars_match_at, chars_of, chars_precede, contains, precedes};

fn names(records: &Vec<Record>) -> Vec<String> {
    records.iter().map(|r| r.name.clone()).collect()
}

fn ids(records: &Vec<Record>) -> Vec<i32> {
    records.iter().map(|r| r.id).collect()
}

fn filled(list: &[&str]) -> Store {
    let mut store = Store::new();
    for name in list {
        store.create(name.to_string()).unwrap();
    }
    store
}

#[test]
fn new_store_is_empty() {
    let store = Store::new();
    assert_eq!(store.len(), 0);
    assert_eq!(store.list_all(), Vec::<Record>::new());
    assert_eq!(store.find_by_substring(""), Vec::<Record>::new());
    assert_eq!(store.find_by_id(1), None);
}

#[test]
fn create_assigns_increasing_ids_from_one() {
    let mut store = Store::new();
    let a = store.create("Miles Davis".to_string()).unwrap();
    let b = store.create("Nina Simone".to_string()).unwrap();
    assert_eq!(a, Record { id: 1, name: "Miles Davis".to_string() });
    assert_eq!(b, Record { id: 2, name: "Nina Simone".to_string() });
    assert_eq!(store.len(), 2);
}

#[test]
fn create_adds_exactly_one_record_to_the_listing() {
    let mut store = filled(&["b", "a"]);
    let before = store.list_all();
    let made = store.create("ab".to_string()).unwrap();
    let after = store.list_all();
    assert_eq!(after.len(), before.len() + 1);
    assert!(!before.iter().any(|r| r.id == made.id));
    assert_eq!(after.iter().filter(|r| **r == made).count(), 1);
    for r in &before {
        assert!(after.contains(r));
    }
    assert_eq!(names(&after), vec!["a", "ab", "b"]);
}

#[test]
fn ids_are_not_reused_after_delete() {
    let mut store = filled(&["a", "b"]);
    assert_eq!(store.delete(2), Ok(()));
    let c = store.create("c".to_string()).unwrap();
    assert_eq!(c.id, 3);
}

#[test]
fn create_fails_when_identifiers_run_out() {
    let mut store = Store::starting_at(i32::MAX - 1).unwrap();
    let last = store.create("last".to_string()).unwrap();
    assert_eq!(last.id, i32::MAX - 1);
    assert_eq!(store.create("one too many".to_string()), Err(StoreError::PersistenceError));
    assert_eq!(store.len(), 1);
    assert_eq!(names(&store.list_all()), vec!["last"]);
}

#[test]
fn starting_at_refuses_what_is_not_positive() {
    assert!(Store::starting_at(0).is_none());
    assert!(Store::starting_at(-5).is_none());
    let mut store = Store::starting_at(7).unwrap();
    assert_eq!(store.create("x".to_string()).unwrap().id, 7);
}

#[test]
fn list_all_sorts_by_name_for_any_insertion_order() {
    let a = filled(&["Charlie", "alice", "Bob", "Alice", ""]);
    assert_eq!(names(&a.list_all()), vec!["", "Alice", "Bob", "Charlie", "alice"]);
    let b = filled(&["", "Alice", "alice", "Charlie", "Bob"]);
    assert_eq!(names(&b.list_all()), vec!["", "Alice", "Bob", "Charlie", "alice"]);
}

#[test]
fn list_all_keeps_equal_names_in_order_of_creation() {
    let store = filled(&["b", "a", "b", "a", "ab"]);
    let listing = store.list_all();
    assert_eq!(names(&listing), vec!["a", "a", "ab", "b", "b"]);
    assert_eq!(ids(&listing), vec![2, 4, 5, 1, 3]);
    assert_eq!(store.list_all(), listing);
}

#[test]
fn list_all_does_not_change_the_store() {
    let store = filled(&["b", "a"]);
    let _ = store.list_all();
    assert_eq!(ids(&store.find_by_substring("")), vec![1, 2]);
}

#[test]
fn find_with_empty_needle_returns_everything() {
    let store = filled(&["Jazz", "Blues", ""]);
    assert_eq!(ids(&store.find_by_substring("")), vec![1, 2, 3]);
}

#[test]
fn find_returns_exactly_the_names_that_hold_the_needle() {
    let store = filled(&["Jazz", "Acid Jazz", "Blues", "jazz", "Ja"]);
    let hits = store.find_by_substring("Jazz");
    assert_eq!(names(&hits), vec!["Jazz", "Acid Jazz"]);
    assert_eq!(ids(&hits), vec![1, 2]);
    assert_eq!(store.find_by_substring("Rock"), Vec::<Record>::new());
    assert_eq!(names(&store.find_by_substring("z")), vec!["Jazz", "Acid Jazz", "jazz"]);
}

#[test]
fn find_counts_characters_not_bytes() {
    let store = filled(&["Dvořák", "Ravel"]);
    assert_eq!(names(&store.find_by_substring("řá")), vec!["Dvořák"]);
    assert_eq!(names(&store.find_by_substring("ák")), vec!["Dvořák"]);
    assert_eq!(names(&store.find_by_substring("av")), vec!["Ravel"]);
}

#[test]
fn update_overwrites_the_name_in_place() {
    let mut store = filled(&["a", "b", "c"]);
    let r = store.update(2, "z".to_string());
    assert_eq!(r, Ok(Record { id: 2, name: "z".to_string() }));
    assert_eq!(names(&store.find_by_substring("")), vec!["a", "z", "c"]);
    assert_eq!(ids(&store.find_by_substring("")), vec![1, 2, 3]);
    assert_eq!(names(&store.list_all()), vec!["a", "c", "z"]);
}

#[test]
fn update_of_a_missing_id_is_not_found_and_changes_nothing() {
    let mut store = filled(&["a", "b"]);
    let before = store.list_all();
    assert_eq!(store.update(3, "z".to_string()), Err(StoreError::NotFound));
    assert_eq!(store.update(0, "z".to_string()), Err(StoreError::NotFound));
    assert_eq!(store.update(-1, "z".to_string()), Err(StoreError::NotFound));
    assert_eq!(store.list_all(), before);
    assert_eq!(store.create("c".to_string()).unwrap().id, 3);
}

#[test]
fn delete_removes_the_record() {
    let mut store = filled(&["a", "b", "c"]);
    assert_eq!(store.delete(2), Ok(()));
    assert_eq!(ids(&store.find_by_substring("")), vec![1, 3]);
    assert_eq!(store.find_by_id(2), None);
    assert_eq!(store.len(), 2);
}

#[test]
fn delete_of_a_missing_id_is_not_found_and_changes_nothing() {
    let mut store = filled(&["a", "b"]);
    let before = store.list_all();
    assert_eq!(store.delete(999), Err(StoreError::NotFound));
    assert_eq!(store.list_all(), before);
    assert_eq!(store.delete(1), Ok(()));
    assert_eq!(store.delete(1), Err(StoreError::NotFound));
    assert_eq!(store.len(), 1);
}

#[test]
fn find_by_id_returns_the_record() {
    let store = filled(&["a", "b"]);
    assert_eq!(store.find_by_id(2), Some(Record { id: 2, name: "b".to_string() }));
    assert_eq!(store.find_by_id(3), None);
}

#[test]
fn record_order_is_by_name_then_id() {
    let a1 = Record { id: 1, name: "a".to_string() };
    let a2 = Record { id: 2, name: "a".to_string() };
    let b0 = Record { id: 0, name: "b".to_string() };
    assert!(record_precedes(&a1, &a2));
    assert!(!record_precedes(&a2, &a1));
    assert!(!record_precedes(&a1, &a1));
    assert!(record_precedes(&a2, &b0));
    assert!(!record_precedes(&b0, &a1));
}

#[test]
fn text_order_is_lexicographic_by_code_point() {
    assert!(precedes("", "a"));
    assert!(!precedes("", ""));
    assert!(!precedes("a", ""));
    assert!(precedes("a", "ab"));
    assert!(!precedes("ab", "a"));
    assert!(precedes("ab", "b"));
    assert!(precedes("Z", "a"));
    assert!(!precedes("abc", "abc"));
    assert!(precedes("z", "é"));
    assert!(precedes("abc", "abd"));
}

#[test]
fn containment_is_exact_and_case_sensitive() {
    assert!(contains("", ""));
    assert!(contains("abc", ""));
    assert!(!contains("", "a"));
    assert!(contains("abc", "abc"));
    assert!(contains("abc", "bc"));
    assert!(!contains("abc", "abcd"));
    assert!(!contains("abc", "B"));
    assert!(contains("aab", "ab"));
    assert!(!contains("abab", "bb"));
}

#[test]
fn chars_of_gives_the_characters_in_order() {
    assert_eq!(chars_of(""), Vec::<char>::new());
    assert_eq!(chars_of("abc"), vec!['a', 'b', 'c']);
    assert_eq!(chars_of("Dvořák"), vec!['D', 'v', 'o', 'ř', 'á', 'k']);
}

#[test]
fn chars_match_at_tests_one_position() {
    let hello = chars_of("hello");
    assert!(chars_match_at(&hello, &chars_of("ll"), 2));
    assert!(!chars_match_at(&hello, &chars_of("ll"), 1));
    assert!(chars_match_at(&hello, &chars_of(""), 5));
    assert!(chars_match_at(&hello, &hello, 0));
}

#[test]
fn chars_functions_agree_with_the_text_functions() {
    for (a, b) in [("", ""), ("a", "ab"), ("ab", "a"), ("Jazz", "jazz"), ("abab", "ba"), ("é", "z")] {
        assert_eq!(chars_precede(&chars_of(a), &chars_of(b)), precedes(a, b));
        assert_eq!(chars_precede(&chars_of(a), &chars_of(b)), a < b);
        assert_eq!(chars_contain(&chars_of(a), &chars_of(b)), contains(a, b));
        assert_eq!(contains(a, b), a.contains(b));
    }
}
