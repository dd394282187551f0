//! Tests of the in-memory store.

use contacts::backend::store::Backend;
use contacts::backend::ContactBackend;
use contacts::utils::{Contact, ContactList};

#[test]
fn init_seeds_three_rows() {
    let store = Backend::init();
    let rows = store.get_contacts().unwrap();
    assert_eq!(rows.len(), 3);
    let ids: Vec<u64> = rows.iter().map(|r| r.0).collect();
    assert_eq!(ids, vec![1, 2, 3]);
    let names: Vec<&str> = rows.iter().map(|r| r.1.name.as_str()).collect();
    assert_eq!(names, vec!["John Doe", "Jane Doe", "Alice Smith"]);
    let first_mails: Vec<&str> = rows[0].1.mails.iter().map(|m| m.address.as_str()).collect();
    assert_eq!(first_mails, vec!["john.doe@example.com", "john.doe@example2.com"]);
    assert!(rows.iter().all(|r| r.1.phones.is_empty()));
}

#[test]
fn loaded_list_holds_the_rows() {
    let store = Backend::init();
    let list = match store.get_contacts() {
        Ok(rows) => ContactList::Loaded(rows),
        Err(()) => ContactList::Loading,
    };
    match list {
        ContactList::Loaded(rows) => assert_eq!(rows.len(), 3),
        ContactList::Loading => unreachable!(),
    }
}

#[test]
fn write_operations_are_stubs() {
    let mut store = Backend::init();
    let before = store.get_contacts().unwrap();
    let info = Contact { name: "New".to_owned(), mails: vec![], phones: vec![] };
    assert_eq!(store._add_contact(info), Err(()));
    let info = Contact { name: "New".to_owned(), mails: vec![], phones: vec![] };
    assert_eq!(store._update_contact(1, info), Err(()));
    assert_eq!(store._remove_contact(1), Err(()));
    let after = store.get_contacts().unwrap();
    assert_eq!(before, after);
}
