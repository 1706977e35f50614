use vstd::prelude::*;

use crate::errors::PhoneBookError;
use crate::records::Contact;
use crate::records::ContactV;
use crate::records::valid_phone;

verus! {

/// Does some member of `s` carry the phone number `p`?
pub open spec fn has_phone(s: Seq<ContactV>, p: Seq<char>) -> bool {
    exists|i: int| 0 <= i < s.len() && s[i].phone_number == p
}

/// No two members of `s` share a phone number.
pub open spec fn unique_phones(s: Seq<ContactV>) -> bool {
    forall|i: int, j: int| 0 <= i < j < s.len() ==> s[i].phone_number != s[j].phone_number
}

/// The name a query compares against: the given string, or empty when the
/// caller left the field out.
pub open spec fn query_name(o: Option<String>) -> Seq<char> {
    match o {
        Some(s) => s@,
        None => Seq::<char>::empty(),
    }
}

/// A contact answers a name query when its first name equals the queried
/// first name or its last name equals the queried last name.
pub open spec fn name_matches(c: ContactV, first: Seq<char>, last: Seq<char>) -> bool {
    c.first_name == first || c.last_name == last
}

/// A contact answers a city query when it has an address and that address
/// names exactly the queried city.
pub open spec fn city_matches(c: ContactV, city: Seq<char>) -> bool {
    match c.address {
        Some(a) => a.city == city,
        None => false,
    }
}

/// The members of `s` that answer the name query, in order.
pub open spec fn name_results(s: Seq<ContactV>, first: Seq<char>, last: Seq<char>) -> Seq<
    ContactV,
> {
    s.filter(|c: ContactV| name_matches(c, first, last))
}

/// The members of `s` that answer the city query, in order.
pub open spec fn city_results(s: Seq<ContactV>, city: Seq<char>) -> Seq<ContactV> {
    s.filter(|c: ContactV| city_matches(c, city))
}

/// The mathematical image of a list of contacts.
pub open spec fn record_views(s: Seq<Contact>) -> Seq<ContactV> {
    s.map_values(|c: Contact| c@)
}

/// The mathematical image of a list of borrowed contacts, as the queries
/// return them.
pub open spec fn borrowed_views(s: Seq<&Contact>) -> Seq<ContactV> {
    s.map_values(|c: &Contact| c@)
}

/// The members of `s`, keeping of any two that share a phone number only the
/// earlier one. This is what rebuilding a store from a plain list of records
/// yields.
pub open spec fn dedup_by_phone(s: Seq<ContactV>) -> Seq<ContactV>
    decreases s.len(),
{
    if s.len() == 0 {
        Seq::<ContactV>::empty()
    } else {
        let rest = dedup_by_phone(s.drop_last());
        if has_phone(rest, s.last().phone_number) {
            rest
        } else {
            rest.push(s.last())
        }
    }
}

/// The contact store: a collection of contacts in which the phone number is
/// the identity key. No two members ever share a phone number.
pub struct PhoneBook {
    contacts: Vec<Contact>,
}

impl View for PhoneBook {
    type V = Seq<ContactV>;

    closed spec fn view(&self) -> Seq<ContactV> {
        record_views(self.contacts@)
    }
}

impl PhoneBook {
    /// The store invariant: phone numbers identify members uniquely.
    pub open spec fn wf(&self) -> bool {
        unique_phones(self@)
    }

    /// An empty store.
    pub fn new() -> (r: PhoneBook)
        ensures
            r@ == Seq::<ContactV>::empty(),
            r.wf(),
    {
        PhoneBook { contacts: Vec::new() }
    }

    /// The position of the member carrying `number`, if any.
    fn index_of_phone(&self, number: &String) -> (r: Option<usize>)
        ensures
            match r {
                Some(i) => i < self@.len() && self@[i as int].phone_number == number@,
                None => !has_phone(self@, number@),
            },
    {
        let n = self.contacts.len();
        let mut i: usize = 0;
        while i < n
            invariant
                i <= n,
                n == self.contacts.len(),
                forall|j: int| 0 <= j < i ==> self@[j].phone_number != number@,
            decreases n - i,
        {
            if self.contacts[i].phone_number == *number {
                return Some(i);
            }
            i += 1;
        }
        None
    }

    /// Adds `contact` to the store. Fails with `InvalidPhoneNumber` when its
    /// phone number is not ten characters long, and with `DuplicateContact`
    /// when a member already carries that number; in both cases the store is
    /// left untouched.
    pub fn insert_contact(&mut self, contact: Contact) -> (r: Result<(), PhoneBookError>)
        requires
            old(self).wf(),
        ensures
            final(self).wf(),
            !valid_phone(contact@.phone_number)
                ==> r == Err::<(), PhoneBookError>(PhoneBookError::InvalidPhoneNumber)
                    && final(self)@ == old(self)@,
            valid_phone(contact@.phone_number) && has_phone(old(self)@, contact@.phone_number)
                ==> r == Err::<(), PhoneBookError>(PhoneBookError::DuplicateContact)
                    && final(self)@ == old(self)@,
            valid_phone(contact@.phone_number) && !has_phone(old(self)@, contact@.phone_number)
                ==> r == Ok::<(), PhoneBookError>(()) && final(self)@ == old(self)@.push(contact@),
    {
        match crate::is_valid_phone_number(contact.phone_number.as_str()) {
            Err(e) => Err(e),
            Ok(()) => {
                match self.index_of_phone(&contact.phone_number) {
                    Some(_) => Err(PhoneBookError::DuplicateContact),
                    None => {
                        let ghost prev = self@;
                        let ghost cv = contact@;
                        self.contacts.push(contact);
                        proof {
                            assert(self@ =~= prev.push(cv));
                        }
                        Ok(())
                    },
                }
            },
        }
    }

    /// Replaces, whole, the member that carries `contact`'s phone number.
    /// Every field of the old member is overwritten; nothing is merged. Fails
    /// with `InvalidPhoneNumber` on a malformed number and with `NotFound`
    /// when no member carries the number; the store is then left untouched.
    pub fn replace_contact(&mut self, contact: Contact) -> (r: Result<(), PhoneBookError>)
        requires
            old(self).wf(),
        ensures
            final(self).wf(),
            !valid_phone(contact@.phone_number)
                ==> r == Err::<(), PhoneBookError>(PhoneBookError::InvalidPhoneNumber)
                    && final(self)@ == old(self)@,
            valid_phone(contact@.phone_number) && !has_phone(old(self)@, contact@.phone_number)
                ==> r == Err::<(), PhoneBookError>(PhoneBookError::NotFound)
                    && final(self)@ == old(self)@,
            valid_phone(contact@.phone_number) && has_phone(old(self)@, contact@.phone_number)
                ==> r == Ok::<(), PhoneBookError>(()),
            forall|i: int|
                0 <= i < old(self)@.len() && old(self)@[i].phone_number == contact@.phone_number
                    && valid_phone(contact@.phone_number)
                    ==> final(self)@ == old(self)@.update(i, contact@),
    {
        match crate::is_valid_phone_number(contact.phone_number.as_str()) {
            Err(e) => Err(e),
            Ok(()) => {
                match self.index_of_phone(&contact.phone_number) {
                    None => Err(PhoneBookError::NotFound),
                    Some(i) => {
                        let ghost prev = self@;
                        let ghost cv = contact@;
                        self.contacts[i] = contact;
                        proof {
                            assert(self@ =~= prev.update(i as int, cv));
                            assert forall|j: int|
                                0 <= j < prev.len() && prev[j].phone_number == cv.phone_number
                                implies final(self)@ == prev.update(j, cv) by {
                                assert(j == i);
                            }
                        }
                        Ok(())
                    },
                }
            },
        }
    }

    /// Removes the member that carries `number`. Fails with
    /// `InvalidPhoneNumber` on a malformed number and with `NotFound` when no
    /// member carries it; the store is then left untouched.
    pub fn delete_contact(&mut self, number: String) -> (r: Result<(), PhoneBookError>)
        requires
            old(self).wf(),
        ensures
            final(self).wf(),
            !valid_phone(number@)
                ==> r == Err::<(), PhoneBookError>(PhoneBookError::InvalidPhoneNumber)
                    && final(self)@ == old(self)@,
            valid_phone(number@) && !has_phone(old(self)@, number@)
                ==> r == Err::<(), PhoneBookError>(PhoneBookError::NotFound)
                    && final(self)@ == old(self)@,
            valid_phone(number@) && has_phone(old(self)@, number@)
                ==> r == Ok::<(), PhoneBookError>(()),
            forall|i: int|
                0 <= i < old(self)@.len() && old(self)@[i].phone_number == number@
                    && valid_phone(number@) ==> final(self)@ == old(self)@.remove(i),
    {
        match crate::is_valid_phone_number(number.as_str()) {
            Err(e) => Err(e),
            Ok(()) => {
                match self.index_of_phone(&number) {
                    None => Err(PhoneBookError::NotFound),
                    Some(i) => {
                        let ghost prev = self@;
                        self.contacts.remove(i);
                        proof {
                            assert(self@ =~= prev.remove(i as int));
                            assert forall|j: int|
                                0 <= j < prev.len() && prev[j].phone_number == number@
                                implies final(self)@ == prev.remove(j) by {
                                assert(j == i);
                            }
                        }
                        Ok(())
                    },
                }
            },
        }
    }

    /// Looks a member up by phone number. Fails with `InvalidPhoneNumber` on
    /// a malformed number and with `NotFound` when no member carries it.
    pub fn find_phone_number(&self, number: String) -> (r: Result<&Contact, PhoneBookError>)
        requires
            self.wf(),
        ensures
            match r {
                Ok(c) => valid_phone(number@) && c@.phone_number == number@
                    && has_phone(self@, number@),
                Err(e) => (e == PhoneBookError::InvalidPhoneNumber && !valid_phone(number@))
                    || (e == PhoneBookError::NotFound && valid_phone(number@)
                    && !has_phone(self@, number@)),
            },
            forall|i: int|
                0 <= i < self@.len() && self@[i].phone_number == number@ && r is Ok
                    ==> self@[i] == r->Ok_0@,
    {
        match crate::is_valid_phone_number(number.as_str()) {
            Err(e) => Err(e),
            Ok(()) => {
                match self.index_of_phone(&number) {
                    None => Err(PhoneBookError::NotFound),
                    Some(i) => {
                        proof {
                            assert forall|j: int|
                                0 <= j < self@.len() && self@[j].phone_number == number@
                                implies self@[j] == self@[i as int] by {
                                assert(j == i);
                            }
                        }
                        Ok(&self.contacts[i])
                    },
                }
            },
        }
    }

    /// Every member whose first name equals `first` or whose last name equals
    /// `last`; an absent query field stands for the empty string. The members
    /// come out in store order.
    pub fn find_name(&self, first: Option<String>, last: Option<String>) -> (r: Vec<&Contact>)
        ensures
            borrowed_views(r@) == name_results(self@, query_name(first), query_name(last)),
    {
        let f: String = match first {
            Some(s) => s,
            None => String::new(),
        };
        let l: String = match last {
            Some(s) => s,
            None => String::new(),
        };
        let n = self.contacts.len();
        let mut r: Vec<&Contact> = Vec::new();
        let mut i: usize = 0;
        proof {
            reveal(Seq::filter);
            assert(borrowed_views(r@) =~= name_results(self@.take(0), f@, l@));
        }
        while i < n
            invariant
                i <= n,
                n == self.contacts.len(),
                borrowed_views(r@) == name_results(self@.take(i as int), f@, l@),
            decreases n - i,
        {
            let c = &self.contacts[i];
            let ghost prev = borrowed_views(r@);
            if c.first_name == f || c.last_name == l {
                r.push(c);
            }
            proof {
                reveal(Seq::filter);
                assert(self@.take(i as int + 1).drop_last() =~= self@.take(i as int));
                assert(self@.take(i as int + 1).last() == self@[i as int]);
                if name_matches(self@[i as int], f@, l@) {
                    assert(borrowed_views(r@) =~= prev.push(self@[i as int]));
                } else {
                    assert(borrowed_views(r@) == prev);
                }
                assert(borrowed_views(r@) == name_results(self@.take(i as int + 1), f@, l@));
            }
            i += 1;
        }
        proof {
            assert(self@.take(n as int) =~= self@);
        }
        r
    }

    /// Every member that has an address naming exactly `city`; a member
    /// without an address never answers. The members come out in store order.
    pub fn find_city(&self, city: String) -> (r: Vec<&Contact>)
        ensures
            borrowed_views(r@) == city_results(self@, city@),
            forall|k: int| 0 <= k < r@.len() ==> r@[k]@.address is Some,
    {
        let n = self.contacts.len();
        let mut r: Vec<&Contact> = Vec::new();
        let mut i: usize = 0;
        proof {
            reveal(Seq::filter);
            assert(borrowed_views(r@) =~= city_results(self@.take(0), city@));
        }
        while i < n
            invariant
                i <= n,
                n == self.contacts.len(),
                borrowed_views(r@) == city_results(self@.take(i as int), city@),
                forall|k: int| 0 <= k < r@.len() ==> r@[k]@.address is Some,
            decreases n - i,
        {
            let c = &self.contacts[i];
            let ghost prev = borrowed_views(r@);
            match &c.address {
                Some(a) => {
                    if a.city == city {
                        r.push(c);
                    }
                },
                None => {},
            }
            proof {
                reveal(Seq::filter);
                assert(self@.take(i as int + 1).drop_last() =~= self@.take(i as int));
                assert(self@.take(i as int + 1).last() == self@[i as int]);
                if city_matches(self@[i as int], city@) {
                    assert(borrowed_views(r@) =~= prev.push(self@[i as int]));
                } else {
                    assert(borrowed_views(r@) == prev);
                }
                assert(borrowed_views(r@) == city_results(self@.take(i as int + 1), city@));
            }
            i += 1;
        }
        proof {
            assert(self@.take(n as int) =~= self@);
        }
        r
    }

    /// The members of the store, as the plain list a persistence layer writes
    /// out whole.
    pub fn contacts(&self) -> (r: &Vec<Contact>)
        ensures
            record_views(r@) == self@,
    {
        &self.contacts
    }

    /// Rebuilds a store from a plain list of records, as a persistence layer
    /// hands it back. Of any two records sharing a phone number only the
    /// earlier survives, so the result always satisfies the store invariant;
    /// nothing else is validated.
    pub fn from_records(records: Vec<Contact>) -> (r: PhoneBook)
        ensures
            r.wf(),
            r@ == dedup_by_phone(record_views(records@)),
    {
        let ghost all = record_views(records@);
        let mut rest = records;
        let mut book = PhoneBook::new();
        let ghost mut k: int = 0;
        while rest.len() > 0
            invariant
                0 <= k <= all.len(),
                record_views(rest@) =~= all.skip(k),
                book.wf(),
                book@ == dedup_by_phone(all.take(k)),
            decreases rest.len(),
        {
            let ghost rest0 = rest@;
            let c = rest.remove(0);
            let ghost prev = book@;
            proof {
                assert(record_views(rest0) == all.skip(k));
                assert(record_views(rest0).len() == rest0.len());
                assert(rest0.len() > 0);
                assert(all.skip(k).len() == all.len() - k);
                assert(k < all.len());
                assert(record_views(rest0)[0] == all.skip(k)[0]);
                assert(all.skip(k)[0] == all[k]);
                assert(c@ == all[k]);
                assert(record_views(rest@).len() == all.skip(k + 1).len());
                assert forall|j: int| 0 <= j < rest@.len() implies record_views(rest@)[j]
                    == all.skip(k + 1)[j] by {
                    assert(rest@[j] == rest0[j + 1]);
                    assert(record_views(rest0)[j + 1] == all.skip(k)[j + 1]);
                    assert(all.skip(k)[j + 1] == all[k + 1 + j]);
                    assert(all.skip(k + 1)[j] == all[k + 1 + j]);
                }
                assert(record_views(rest@) =~= all.skip(k + 1));
                assert(all.take(k + 1).drop_last() =~= all.take(k));
                assert(all.take(k + 1).last() == all[k]);
            }
            match book.index_of_phone(&c.phone_number) {
                Some(_) => {
                    proof {
                        assert(book@ == dedup_by_phone(all.take(k + 1)));
                    }
                },
                None => {
                    book.contacts.push(c);
                    proof {
                        assert(book@ =~= prev.push(all[k]));
                    }
                },
            }
            proof {
                k = k + 1;
            }
        }
        proof {
            assert(all.take(k) =~= all);
        }
        book
    }
}

/// Saving then loading changes nothing: rebuilding a store from the records
/// of a well-formed store reproduces exactly the same members, in the same
/// order, with every field intact.
pub proof fn lemma_records_round_trip(s: Seq<ContactV>)
    requires
        unique_phones(s),
    ensures
        dedup_by_phone(s) == s,
    decreases s.len(),
{
    if s.len() == 0 {
        assert(dedup_by_phone(s) =~= s);
    } else {
        assert(unique_phones(s.drop_last()));
        lemma_records_round_trip(s.drop_last());
        assert(!has_phone(s.drop_last(), s.last().phone_number)) by {
            if has_phone(s.drop_last(), s.last().phone_number) {
                let i = choose|i: int|
                    0 <= i < s.drop_last().len() && s.drop_last()[i].phone_number
                        == s.last().phone_number;
                assert(s[i].phone_number == s[s.len() - 1].phone_number);
            }
        }
        assert(dedup_by_phone(s) =~= s);
    }
}

} // verus!
