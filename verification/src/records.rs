use vstd::prelude::*;
use vstd::string::StrSliceExecFns;

use crate::errors::PhoneBookError;

verus! {

/// A phone number; the identity key of a contact.
pub type PhoneNumber = String;

/// Mathematical image of an [`Address`]: each field as a sequence of characters.
pub struct AddressV {
    pub street_address: Seq<char>,
    pub city: Seq<char>,
    pub state: Seq<char>,
    pub postcode: Seq<char>,
    pub country: Seq<char>,
}

/// A postal address. All fields are free text; nothing is validated here.
#[derive(Clone, Debug)]
pub struct Address {
    pub street_address: String,
    pub city: String,
    pub state: String,
    pub postcode: String,
    pub country: String,
}

impl View for Address {
    type V = AddressV;

    open spec fn view(&self) -> AddressV {
        AddressV {
            street_address: self.street_address@,
            city: self.city@,
            state: self.state@,
            postcode: self.postcode@,
            country: self.country@,
        }
    }
}

/// Mathematical image of a [`Contact`].
pub struct ContactV {
    pub first_name: Seq<char>,
    pub last_name: Seq<char>,
    pub phone_number: Seq<char>,
    pub address: Option<AddressV>,
}

/// One entry of the book: a person's names, the phone number that identifies
/// the entry inside a store, and an optional postal address.
#[derive(Clone, Debug)]
pub struct Contact {
    pub first_name: String,
    pub last_name: String,
    pub phone_number: PhoneNumber,
    pub address: Option<Address>,
}

impl View for Contact {
    type V = ContactV;

    open spec fn view(&self) -> ContactV {
        ContactV {
            first_name: self.first_name@,
            last_name: self.last_name@,
            phone_number: self.phone_number@,
            address: match self.address {
                Some(a) => Some(a@),
                None => None,
            },
        }
    }
}

/// A phone number is accepted by the store exactly when it is ten characters long.
pub open spec fn valid_phone(p: Seq<char>) -> bool {
    p.len() == 10
}

/// Checks the one rule on phone numbers: exactly ten characters.
pub fn is_valid_phone_number(number: &str) -> (r: Result<(), PhoneBookError>)
    ensures
        r is Ok <==> valid_phone(number@),
        r is Err ==> r == Err::<(), PhoneBookError>(PhoneBookError::InvalidPhoneNumber),
{
    if number.unicode_len() == 10 {
        Ok(())
    } else {
        Err(PhoneBookError::InvalidPhoneNumber)
    }
}

} // verus!
