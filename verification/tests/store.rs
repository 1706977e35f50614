use phone_book::Address;
use phone_book::Contact;
use phone_book::PhoneBook;
use phone_book::PhoneBookError;
use phone_book::is_valid_phone_number;

fn contact(first: &str, last: &str, phone: &str) -> Contact {
    Contact {
        first_name: first.to_string(),
        last_name: last.to_string(),
        phone_number: phone.to_string(),
        address: None,
    }
}

fn sample_address(city: &str) -> Address {
    Address {
        street_address: "1 Main St".to_string(),
        city: city.to_string(),
        state: "IL".to_string(),
        postcode: "62704".to_string(),
        country: "USA".to_string(),
    }
}

#[test]
fn phone_number_length_rule() {
    assert!(is_valid_phone_number("5551234567").is_ok());
    assert_eq!(
        is_valid_phone_number("555123456"),
        Err(PhoneBookError::InvalidPhoneNumber)
    );
    assert_eq!(
        is_valid_phone_number("55512345678"),
        Err(PhoneBookError::InvalidPhoneNumber)
    );
    assert_eq!(is_valid_phone_number(""), Err(PhoneBookError::InvalidPhoneNumber));
}

#[test]
fn duplicate_insert_fails_and_keeps_existing() {
    let mut book = PhoneBook::new();
    assert_eq!(book.insert_contact(contact("Jane", "Doe", "5551234567")), Ok(()));
    assert_eq!(
        book.insert_contact(contact("John", "Smith", "5551234567")),
        Err(PhoneBookError::DuplicateContact)
    );
    assert_eq!(book.contacts().len(), 1);
    let found = book.find_phone_number("5551234567".to_string()).unwrap();
    assert_eq!(found.first_name, "Jane");
    assert_eq!(found.last_name, "Doe");
}

#[test]
fn validation_on_every_operation() {
    let mut book = PhoneBook::new();
    for phone in ["555123456", "55512345678", "", "abc"] {
        assert_eq!(
            book.insert_contact(contact("Jane", "Doe", phone)),
            Err(PhoneBookError::InvalidPhoneNumber)
        );
        assert_eq!(
            book.replace_contact(contact("Jane", "Doe", phone)),
            Err(PhoneBookError::InvalidPhoneNumber)
        );
        assert_eq!(
            book.delete_contact(phone.to_string()),
            Err(PhoneBookError::InvalidPhoneNumber)
        );
        assert!(matches!(
            book.find_phone_number(phone.to_string()),
            Err(PhoneBookError::InvalidPhoneNumber)
        ));
    }
    assert_eq!(book.contacts().len(), 0);
}

#[test]
fn replace_overwrites_every_field() {
    let mut book = PhoneBook::new();
    let mut original = contact("Jane", "Doe", "5551234567");
    original.address = Some(sample_address("Springfield"));
    assert_eq!(book.insert_contact(original), Ok(()));

    let replacement = contact("Janet", "Doer", "5551234567");
    assert_eq!(book.replace_contact(replacement), Ok(()));

    let found = book.find_phone_number("5551234567".to_string()).unwrap();
    assert_eq!(found.first_name, "Janet");
    assert_eq!(found.last_name, "Doer");
    assert!(found.address.is_none());
    assert_eq!(book.contacts().len(), 1);
}

#[test]
fn replace_and_delete_missing_fail_with_not_found() {
    let mut book = PhoneBook::new();
    assert_eq!(book.insert_contact(contact("Jane", "Doe", "5551234567")), Ok(()));
    assert_eq!(
        book.replace_contact(contact("Ann", "Lee", "1112223333")),
        Err(PhoneBookError::NotFound)
    );
    assert_eq!(
        book.delete_contact("1112223333".to_string()),
        Err(PhoneBookError::NotFound)
    );
    assert_eq!(book.contacts().len(), 1);
}

#[test]
fn delete_removes_the_member() {
    let mut book = PhoneBook::new();
    assert_eq!(book.insert_contact(contact("Jane", "Doe", "5551234567")), Ok(()));
    assert_eq!(book.insert_contact(contact("Ann", "Lee", "1112223333")), Ok(()));
    assert_eq!(book.delete_contact("5551234567".to_string()), Ok(()));
    assert!(matches!(
        book.find_phone_number("5551234567".to_string()),
        Err(PhoneBookError::NotFound)
    ));
    let remaining = book.find_phone_number("1112223333".to_string()).unwrap();
    assert_eq!(remaining.first_name, "Ann");
    assert_eq!(book.contacts().len(), 1);
}

#[test]
fn delete_and_find_on_empty_store() {
    let mut book = PhoneBook::new();
    assert_eq!(
        book.delete_contact("9999999999".to_string()),
        Err(PhoneBookError::NotFound)
    );
    assert!(matches!(
        book.find_phone_number("9999999999".to_string()),
        Err(PhoneBookError::NotFound)
    ));
}

#[test]
fn find_name_uses_or_semantics() {
    let mut book = PhoneBook::new();
    assert_eq!(book.insert_contact(contact("Ann", "Lee", "1112223333")), Ok(()));
    assert_eq!(book.insert_contact(contact("Bob", "Lee", "4445556666")), Ok(()));

    let only_ann = book.find_name(Some("Ann".to_string()), None);
    assert_eq!(only_ann.len(), 1);
    assert_eq!(only_ann[0].first_name, "Ann");
    assert_eq!(only_ann[0].last_name, "Lee");

    let both = book.find_name(None, Some("Lee".to_string()));
    assert_eq!(both.len(), 2);
    assert_eq!(both[0].first_name, "Ann");
    assert_eq!(both[1].first_name, "Bob");
}

#[test]
fn find_name_absent_field_means_empty_string() {
    let mut book = PhoneBook::new();
    assert_eq!(book.insert_contact(contact("", "Lee", "1112223333")), Ok(()));
    assert_eq!(book.insert_contact(contact("Bob", "Lee", "4445556666")), Ok(()));

    // An omitted first name searches for the empty string, so it matches the
    // contact whose first name is empty.
    let found = book.find_name(None, Some("Nobody".to_string()));
    assert_eq!(found.len(), 1);
    assert_eq!(found[0].last_name, "Lee");
    assert_eq!(found[0].first_name, "");

    let nothing = book.find_name(Some("Zoe".to_string()), Some("Ray".to_string()));
    assert_eq!(nothing.len(), 0);
}

#[test]
fn find_city_matches_exactly() {
    let mut book = PhoneBook::new();
    let mut ann = contact("Ann", "Lee", "1112223333");
    ann.address = Some(sample_address("Springfield"));
    let mut bob = contact("Bob", "Ray", "4445556666");
    bob.address = Some(sample_address("Shelbyville"));
    assert_eq!(book.insert_contact(ann), Ok(()));
    assert_eq!(book.insert_contact(bob), Ok(()));

    let hits = book.find_city("Springfield".to_string());
    assert_eq!(hits.len(), 1);
    assert_eq!(hits[0].first_name, "Ann");

    // Case-sensitive, exact match only.
    assert_eq!(book.find_city("springfield".to_string()).len(), 0);
}

#[test]
fn find_city_never_returns_addressless_contacts() {
    let mut book = PhoneBook::new();
    assert_eq!(book.insert_contact(contact("Ann", "Lee", "1112223333")), Ok(()));
    let mut bob = contact("Bob", "Ray", "4445556666");
    bob.address = Some(sample_address("Springfield"));
    assert_eq!(book.insert_contact(bob), Ok(()));

    let hits = book.find_city("Springfield".to_string());
    assert_eq!(hits.len(), 1);
    assert_eq!(hits[0].first_name, "Bob");
    // The empty city names no address either: the addressless member stays out.
    assert_eq!(book.find_city(String::new()).len(), 0);
}

#[test]
fn records_round_trip_preserves_contents() {
    let mut book = PhoneBook::new();
    let mut ann = contact("Ann", "Lee", "1112223333");
    ann.address = Some(sample_address("Springfield"));
    assert_eq!(book.insert_contact(ann), Ok(()));
    assert_eq!(book.insert_contact(contact("Bob", "Ray", "4445556666")), Ok(()));

    let records = book.contacts().clone();
    let reloaded = PhoneBook::from_records(records);

    let before = book.contacts();
    let after = reloaded.contacts();
    assert_eq!(after.len(), before.len());
    for (a, b) in after.iter().zip(before.iter()) {
        assert_eq!(a.first_name, b.first_name);
        assert_eq!(a.last_name, b.last_name);
        assert_eq!(a.phone_number, b.phone_number);
        match (&a.address, &b.address) {
            (None, None) => {}
            (Some(x), Some(y)) => {
                assert_eq!(x.street_address, y.street_address);
                assert_eq!(x.city, y.city);
                assert_eq!(x.state, y.state);
                assert_eq!(x.postcode, y.postcode);
                assert_eq!(x.country, y.country);
            }
            _ => panic!("address presence changed across the round trip"),
        }
    }
}

#[test]
fn from_records_keeps_the_first_of_a_duplicated_number() {
    let records = vec![
        contact("Jane", "Doe", "5551234567"),
        contact("John", "Smith", "5551234567"),
        contact("Ann", "Lee", "1112223333"),
    ];
    let book = PhoneBook::from_records(records);
    assert_eq!(book.contacts().len(), 2);
    let kept = book.find_phone_number("5551234567".to_string()).unwrap();
    assert_eq!(kept.first_name, "Jane");
}

#[test]
fn scenario_insert_duplicate_then_replace() {
    let mut book = PhoneBook::new();
    assert_eq!(book.insert_contact(contact("Jane", "Doe", "5551234567")), Ok(()));
    assert_eq!(
        book.insert_contact(contact("John", "Smith", "5551234567")),
        Err(PhoneBookError::DuplicateContact)
    );
    assert_eq!(book.replace_contact(contact("Janet", "Doe", "5551234567")), Ok(()));
    assert_eq!(
        book.find_phone_number("5551234567".to_string())
            .unwrap()
            .first_name,
        "Janet"
    );
}

#[test]
fn error_messages_are_stable() {
    assert_eq!(
        PhoneBookError::InvalidPhoneNumber.message(),
        "phone number must be 10 characters long"
    );
    assert_eq!(
        PhoneBookError::DuplicateContact.message(),
        "number already exists unable insert"
    );
    assert_eq!(PhoneBookError::NotFound.message(), "no contact found");
    assert_eq!(
        PhoneBookError::InvalidAddressFormat.message(),
        "address must have five comma separated values"
    );
}
