use vstd::prelude::*;
use vstd::string::StringExecFns;

verus! {

/// Every failure the contact store and the address parser can report.
#[derive(Clone, Copy, Debug, PartialEq, Eq, Structural)]
pub enum PhoneBookError {
    /// The phone number handed to a store operation is not ten characters long.
    InvalidPhoneNumber,
    /// An insert collided with a member that already carries the same phone number.
    DuplicateContact,
    /// A replace, delete or lookup named a phone number no member carries.
    NotFound,
    /// An address string does not split into exactly five comma-separated fields.
    InvalidAddressFormat,
}

impl PhoneBookError {
    /// A human-readable description, for callers that print failures.
    pub fn message(&self) -> (r: String)
        ensures
            *self == PhoneBookError::InvalidPhoneNumber ==> r@ == "phone number must be 10 characters long"@,
            *self == PhoneBookError::DuplicateContact ==> r@ == "number already exists unable insert"@,
            *self == PhoneBookError::NotFound ==> r@ == "no contact found"@,
            *self == PhoneBookError::InvalidAddressFormat ==> r@ == "address must have five comma separated values"@,
    {
        match self {
            PhoneBookError::InvalidPhoneNumber => String::from_str("phone number must be 10 characters long"),
            PhoneBookError::DuplicateContact => String::from_str("number already exists unable insert"),
            PhoneBookError::NotFound => String::from_str("no contact found"),
            PhoneBookError::InvalidAddressFormat => String::from_str("address must have five comma separated values"),
        }
    }
}

} // verus!
