//! A small contact book: a store of contacts keyed uniquely by phone number,
//! with validated insert/replace/delete mutations and name/city queries.

pub mod address_text;
pub mod book;
pub mod errors;
pub mod records;

pub use address_text::parse_address;
pub use book::PhoneBook;
pub use errors::PhoneBookError;
pub use records::Address;
pub use records::AddressV;
pub use records::Contact;
pub use records::ContactV;
pub use records::PhoneNumber;
pub use records::is_valid_phone_number;
