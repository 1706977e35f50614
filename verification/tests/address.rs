use phone_book::PhoneBookError;
use phone_book::parse_address;

#[test]
fn parse_address_splits_and_trims_five_fields() {
    let a = parse_address(" 1 Main St, Springfield ,\tIL , 62704 , USA ").unwrap();
    assert_eq!(a.street_address, "1 Main St");
    assert_eq!(a.city, "Springfield");
    assert_eq!(a.state, "IL");
    assert_eq!(a.postcode, "62704");
    assert_eq!(a.country, "USA");
}

#[test]
fn parse_address_keeps_inner_whitespace() {
    let a = parse_address("12 Long  Road,New York,NY,10001,United States").unwrap();
    assert_eq!(a.street_address, "12 Long  Road");
    assert_eq!(a.city, "New York");
    assert_eq!(a.country, "United States");
}

#[test]
fn parse_address_accepts_empty_fields() {
    let a = parse_address(",,,,").unwrap();
    assert_eq!(a.street_address, "");
    assert_eq!(a.city, "");
    assert_eq!(a.state, "");
    assert_eq!(a.postcode, "");
    assert_eq!(a.country, "");
}

#[test]
fn parse_address_rejects_too_few_fields() {
    assert!(matches!(
        parse_address("1 Main St, Springfield, IL, 62704"),
        Err(PhoneBookError::InvalidAddressFormat)
    ));
    assert!(matches!(parse_address(""), Err(PhoneBookError::InvalidAddressFormat)));
}

#[test]
fn parse_address_rejects_too_many_fields() {
    assert!(matches!(
        parse_address("1 Main St, Springfield, IL, 62704, USA, Earth"),
        Err(PhoneBookError::InvalidAddressFormat)
    ));
}
