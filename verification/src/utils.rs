//! The contact data model: `Mail`, `Phone` and `Contact`, together with the
//! mathematical view (`ContactModel`) that every contract in this crate is
//! stated over.

use vstd::prelude::*;

verus! {

/// A single e-mail address; equality is value-based.
#[derive(Debug, PartialEq, Eq)]
pub struct Mail {
    pub address: String,
}

/// A single phone number; equality is value-based.
#[derive(Debug, PartialEq, Eq)]
pub struct Phone {
    pub number: String,
}

/// One address-book entry: a required display name plus zero or more mail
/// addresses and phone numbers, each kept in the order they appeared in the
/// source record.
#[derive(Debug, PartialEq, Eq)]
pub struct Contact {
    pub name: String,
    pub mails: Vec<Mail>,
    pub phones: Vec<Phone>,
}

/// The mathematical shadow of a [`Contact`]: plain character sequences, with
/// the same ordering of mails and phones.
pub struct ContactModel {
    pub name: Seq<char>,
    pub mails: Seq<Seq<char>>,
    pub phones: Seq<Seq<char>>,
}

impl Mail {
    pub open spec fn model(self) -> Seq<char> {
        self.address@
    }
}

impl Phone {
    pub open spec fn model(self) -> Seq<char> {
        self.number@
    }
}

impl Contact {
    pub open spec fn model(self) -> ContactModel {
        ContactModel {
            name: self.name@,
            mails: self.mails@.map_values(|m: Mail| m.model()),
            phones: self.phones@.map_values(|p: Phone| p.model()),
        }
    }
}

impl Clone for Mail {
    fn clone(&self) -> (r: Self)
        ensures
            r == *self,
    {
        Mail { address: self.address.clone() }
    }
}

impl Clone for Phone {
    fn clone(&self) -> (r: Self)
        ensures
            r == *self,
    {
        Phone { number: self.number.clone() }
    }
}

impl Clone for Contact {
    fn clone(&self) -> (r: Self)
        ensures
            r.name == self.name,
            r.mails@ == self.mails@,
            r.phones@ == self.phones@,
            r.model() == self.model(),
    {
        let mut mails: Vec<Mail> = Vec::new();
        let mut i: usize = 0;
        while i < self.mails.len()
            invariant
                i <= self.mails.len(),
                mails@ =~= self.mails@.take(i as int),
            decreases self.mails.len() - i,
        {
            mails.push(self.mails[i].clone());
            i = i + 1;
        }
        let mut phones: Vec<Phone> = Vec::new();
        let mut j: usize = 0;
        while j < self.phones.len()
            invariant
                j <= self.phones.len(),
                phones@ =~= self.phones@.take(j as int),
            decreases self.phones.len() - j,
        {
            phones.push(self.phones[j].clone());
            j = j + 1;
        }
        proof {
            assert(mails@ =~= self.mails@);
            assert(phones@ =~= self.phones@);
        }
        Contact { name: self.name.clone(), mails, phones }
    }
}

/// The contact list as the surrounding application sees it: either still
/// being fetched, or the collection produced by the last successful fetch.
pub enum ContactList {
    Loading,
    Loaded(Vec<(u64, Contact)>),
}

} // verus!
