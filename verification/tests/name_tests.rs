use imap_correlate::name::{Name, NameAttribute, SpecialUseMailbox};
use imap_correlate::response::ResponseData;

// Test that the special-use mailbox attributes that the server returns can
// be parsed into the correct enum values.
#[test]
fn parse_special_use_mailboxes() {
    let special_use_mailboxes = [
        ("\\All", SpecialUseMailbox::All),
        ("\\Archive", SpecialUseMailbox::Archive),
        ("\\Drafts", SpecialUseMailbox::Drafts),
        ("\\Flagged", SpecialUseMailbox::Flagged),
        ("\\Junk", SpecialUseMailbox::Junk),
        ("\\Sent", SpecialUseMailbox::Sent),
        ("\\Trash", SpecialUseMailbox::Trash),
    ];

    for (string, enum_value) in special_use_mailboxes {
        assert_eq!(
            NameAttribute::from(string),
            NameAttribute::SpecialUseMailbox(enum_value)
        );
    }
}

#[test]
fn parse_structural_attributes() {
    assert_eq!(NameAttribute::from("\\Noinferiors"), NameAttribute::NoInferiors);
    assert_eq!(NameAttribute::from("\\Noselect"), NameAttribute::NoSelect);
    assert_eq!(NameAttribute::from("\\Marked"), NameAttribute::Marked);
    assert_eq!(NameAttribute::from("\\Unmarked"), NameAttribute::Unmarked);
}

#[test]
fn unknown_attribute_becomes_custom_with_exact_text() {
    assert_eq!(
        NameAttribute::from("\\Foo"),
        NameAttribute::Custom("\\Foo".to_string())
    );
    assert_eq!(
        NameAttribute::from("plain"),
        NameAttribute::Custom("plain".to_string())
    );
    assert_eq!(NameAttribute::from(""), NameAttribute::Custom("".to_string()));
    // Matching is case-sensitive and exact: near misses are custom.
    assert_eq!(
        NameAttribute::from("\\noselect"),
        NameAttribute::Custom("\\noselect".to_string())
    );
    assert_eq!(
        NameAttribute::from("\\Trash "),
        NameAttribute::Custom("\\Trash ".to_string())
    );
}

fn listing_record() -> ResponseData {
    ResponseData::MailboxList {
        flags: vec![
            "\\Noselect".to_string(),
            "\\Marked".to_string(),
            "\\Foo".to_string(),
        ],
        delimiter: Some("/".to_string()),
        name: "INBOX/Sub".to_string(),
    }
}

#[test]
fn name_exposes_classified_attributes_delimiter_and_name() {
    let name = Name::from_mailbox_data(listing_record());
    assert_eq!(
        name.attributes(),
        &vec![
            NameAttribute::NoSelect,
            NameAttribute::Marked,
            NameAttribute::Custom("\\Foo".to_string()),
        ]
    );
    assert_eq!(name.delimiter(), Some(&"/".to_string()));
    assert_eq!(name.name().as_str(), "INBOX/Sub");
    // The record itself is still owned by the name, unchanged.
    assert_eq!(name.record(), &listing_record());
}

#[test]
fn name_without_delimiter_is_flat() {
    let record = ResponseData::MailboxList {
        flags: vec![],
        delimiter: None,
        name: "INBOX".to_string(),
    };
    let name = Name::from_mailbox_data(record);
    assert_eq!(name.attributes(), &Vec::<NameAttribute>::new());
    assert_eq!(name.delimiter(), None);
    assert_eq!(name.name().as_str(), "INBOX");
}

#[test]
fn try_from_mailbox_data_rejects_other_records() {
    let record = ResponseData::Other {
        text: "* OK still here".to_string(),
    };
    match Name::try_from_mailbox_data(record.clone()) {
        Ok(_) => panic!("a non-listing record must be rejected"),
        Err(back) => assert_eq!(back, record),
    }
}

#[test]
fn try_from_mailbox_data_accepts_listing_records() {
    match Name::try_from_mailbox_data(listing_record()) {
        Ok(name) => assert_eq!(name.name().as_str(), "INBOX/Sub"),
        Err(_) => panic!("a listing record must be accepted"),
    }
}
