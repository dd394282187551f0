//! End-to-end tests of the record decoder, through the real card parser.

use contacts::backend::dbus::Backend;
use contacts::utils::{Contact, Mail, Phone};
use contacts::vcard::{decode_props, decode_record, decode_records, Prop};

fn vcard(lines: &[&str]) -> String {
    let mut s = String::new();
    s.push_str("BEGIN:VCARD\r\n");
    for l in lines {
        s.push_str(l);
        s.push_str("\r\n");
    }
    s.push_str("END:VCARD\r\n");
    s
}

fn mail(address: &str) -> Mail {
    Mail { address: address.to_owned() }
}

fn phone(number: &str) -> Phone {
    Phone { number: number.to_owned() }
}

fn contact(name: &str, mails: Vec<Mail>, phones: Vec<Phone>) -> Contact {
    Contact { name: name.to_owned(), mails, phones }
}

#[test]
fn decodes_valid_record() {
    let text = vcard(&["VERSION:4.0", "FN:Alice", "EMAIL:a@x.com"]);
    let got = decode_record(&text);
    assert_eq!(got, Some(contact("Alice", vec![mail("a@x.com")], vec![])));
}

#[test]
fn version_missing_is_skipped() {
    let text = vcard(&["FN:Alice", "EMAIL:a@x.com"]);
    assert_eq!(decode_record(&text), None);
}

#[test]
fn version_mismatch_is_skipped() {
    let text = vcard(&["VERSION:3.0", "FN:Bob"]);
    assert_eq!(decode_record(&text), None);
}

#[test]
fn version_without_value_is_skipped() {
    let text = vcard(&["VERSION:", "FN:Bob"]);
    assert_eq!(decode_record(&text), None);
}

#[test]
fn missing_name_is_skipped() {
    let text = vcard(&["VERSION:4.0", "EMAIL:a@x.com"]);
    assert_eq!(decode_record(&text), None);
}

#[test]
fn name_without_value_is_skipped() {
    let text = vcard(&["VERSION:4.0", "FN:", "EMAIL:a@x.com"]);
    assert_eq!(decode_record(&text), None);
}

#[test]
fn email_without_value_skips_the_record() {
    let text = vcard(&["VERSION:4.0", "FN:Bob", "EMAIL:"]);
    assert_eq!(decode_record(&text), None);
}

#[test]
fn repeated_fields_kept_in_order() {
    let text = vcard(&[
        "VERSION:4.0",
        "FN:Carol",
        "EMAIL:one@x.com",
        "TEL:555",
        "EMAIL:two@x.com",
        "EMAIL:three@x.com",
    ]);
    let got = decode_record(&text).unwrap();
    assert_eq!(got.mails, vec![mail("one@x.com"), mail("two@x.com"), mail("three@x.com")]);
    assert_eq!(got.phones, vec![phone("555")]);
}

#[test]
fn parameters_are_ignored() {
    let text = vcard(&["VERSION:4.0", "FN:Dora", "EMAIL;TYPE=work:w@x.com"]);
    let got = decode_record(&text).unwrap();
    assert_eq!(got.mails, vec![mail("w@x.com")]);
}

#[test]
fn unknown_properties_are_ignored() {
    let text = vcard(&["VERSION:4.0", "NICKNAME:Ed", "FN:Edward", "NOTE:friend"]);
    let got = decode_record(&text).unwrap();
    assert_eq!(got, contact("Edward", vec![], vec![]));
}

#[test]
fn only_first_card_of_a_blob_is_read() {
    let first = vcard(&["VERSION:4.0", "FN:Alice", "EMAIL:a@x.com"]);
    let second = vcard(&["VERSION:4.0", "FN:Eve", "TEL:111"]);
    let blob = format!("{}{}", first, second);
    let got = decode_record(&blob);
    assert_eq!(got, Some(contact("Alice", vec![mail("a@x.com")], vec![])));
    let out = decode_records(&vec![(7, blob)]);
    assert_eq!(out.len(), 1);
    assert_eq!(out[0].0, 7);
}

#[test]
fn malformed_first_card_skips_the_record() {
    let first = vcard(&["VERSION:3.0", "FN:Old"]);
    let second = vcard(&["VERSION:4.0", "FN:New"]);
    let blob = format!("{}{}", first, second);
    assert_eq!(decode_record(&blob), None);
}

#[test]
fn empty_text_is_skipped() {
    assert_eq!(decode_record(""), None);
    assert_eq!(decode_record("not a card at all"), None);
}

#[test]
fn malformed_record_is_isolated() {
    let raw = vec![
        (1, vcard(&["VERSION:4.0", "FN:Alice"])),
        (2, "garbage".to_owned()),
        (3, vcard(&["VERSION:4.0", "FN:Carol"])),
    ];
    let out = decode_records(&raw);
    assert_eq!(out.len(), 2);
    assert_eq!(out[0], (1, contact("Alice", vec![], vec![])));
    assert_eq!(out[1], (3, contact("Carol", vec![], vec![])));
}

#[test]
fn enumeration_order_is_preserved() {
    let raw = vec![
        (30, vcard(&["VERSION:4.0", "FN:C"])),
        (10, vcard(&["VERSION:4.0", "FN:A"])),
        (20, vcard(&["VERSION:4.0", "FN:B"])),
    ];
    let out = decode_records(&raw);
    let ids: Vec<u64> = out.iter().map(|p| p.0).collect();
    assert_eq!(ids, vec![30, 10, 20]);
    let names: Vec<&str> = out.iter().map(|p| p.1.name.as_str()).collect();
    assert_eq!(names, vec!["C", "A", "B"]);
}

#[test]
fn fetch_example_enumeration() {
    let raw = vec![
        (1, vcard(&["VERSION:4.0", "FN:Alice", "EMAIL:a@x.com"])),
        (2, vcard(&["VERSION:3.0", "FN:Bob"])),
        (3, vcard(&["VERSION:4.0", "FN:Carol", "EMAIL:c@x.com", "EMAIL:c2@x.com", "TEL:555"])),
    ];
    let got = Backend::get_contacts(Ok(raw)).unwrap();
    let want = vec![
        (1, contact("Alice", vec![mail("a@x.com")], vec![])),
        (
            3,
            contact("Carol", vec![mail("c@x.com"), mail("c2@x.com")], vec![phone("555")]),
        ),
    ];
    assert_eq!(got, want);
}

#[test]
fn fetch_failure_is_uniform() {
    assert_eq!(Backend::get_contacts(Err(())), Err(()));
}

#[test]
fn fetch_of_empty_enumeration_succeeds_empty() {
    assert_eq!(Backend::get_contacts(Ok(vec![])), Ok(vec![]));
}

#[test]
fn decode_props_requires_present_values() {
    let props = vec![
        Prop { name: "VERSION".to_owned(), value: Some("4.0".to_owned()) },
        Prop { name: "FN".to_owned(), value: None },
    ];
    assert_eq!(decode_props(&props), None);
    let props = vec![
        Prop { name: "VERSION".to_owned(), value: Some("4.0".to_owned()) },
        Prop { name: "FN".to_owned(), value: Some("Frank".to_owned()) },
        Prop { name: "TEL".to_owned(), value: None },
    ];
    assert_eq!(decode_props(&props), None);
}

#[test]
fn decode_props_first_version_wins() {
    let props = vec![
        Prop { name: "VERSION".to_owned(), value: Some("3.0".to_owned()) },
        Prop { name: "VERSION".to_owned(), value: Some("4.0".to_owned()) },
        Prop { name: "FN".to_owned(), value: Some("Grace".to_owned()) },
    ];
    assert_eq!(decode_props(&props), None);
}
