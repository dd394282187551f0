//! An in-memory contact store, seeded with a few example rows.
//!
//! It stands in for a persistent local store and doubles as the fake
//! backend the adapter logic can be exercised against without a daemon.
//! Row identifiers are unique, and the store hands out fresh ones from a
//! sequence that starts past the seed rows. The write operations are
//! contract stubs: they leave the store unchanged and report failure.

use crate::backend::ContactBackend;
use crate::utils::{Contact, ContactModel, Mail};
use crate::vcard::pairs_model;
use vstd::prelude::*;

verus! {

/// The in-memory store: an ordered list of `(id, contact)` rows.
pub struct Backend {
    rows: Vec<(u64, Contact)>,
    next_id: u64,
}

impl Backend {
    /// The rows as the contracts see them.
    pub closed spec fn model(self) -> Seq<(u64, ContactModel)> {
        pairs_model(self.rows@)
    }

    /// Row identifiers are unique, and every identifier the sequence will
    /// hand out is fresh.
    pub closed spec fn well_formed(self) -> bool {
        &&& forall|a: int, b: int|
            0 <= a < b < self.rows@.len() ==> self.rows@[a].0 != self.rows@[b].0
        &&& forall|a: int| 0 <= a < self.rows@.len() ==> self.rows@[a].0 < self.next_id
    }

    /// The rows the store is seeded with.
    pub open spec fn seed_model() -> Seq<(u64, ContactModel)> {
        seq![
            (
                1u64,
                ContactModel {
                    name: "John Doe"@,
                    mails: seq!["john.doe@example.com"@, "john.doe@example2.com"@],
                    phones: Seq::empty(),
                },
            ),
            (
                2u64,
                ContactModel {
                    name: "Jane Doe"@,
                    mails: seq!["jane.doe@example.com"@],
                    phones: Seq::empty(),
                },
            ),
            (
                3u64,
                ContactModel {
                    name: "Alice Smith"@,
                    mails: seq!["jane.doe@example.com"@],
                    phones: Seq::empty(),
                },
            ),
        ]
    }

    /// Creates the store with its seed rows in place and the id sequence
    /// starting right past them.
    pub fn init() -> (r: Backend)
        ensures
            r.well_formed(),
            r.model() == Self::seed_model(),
    {
        let mut m1: Vec<Mail> = Vec::new();
        m1.push(Mail { address: "john.doe@example.com".to_owned() });
        m1.push(Mail { address: "john.doe@example2.com".to_owned() });
        let c1 = Contact { name: "John Doe".to_owned(), mails: m1, phones: Vec::new() };
        let mut m2: Vec<Mail> = Vec::new();
        m2.push(Mail { address: "jane.doe@example.com".to_owned() });
        let c2 = Contact { name: "Jane Doe".to_owned(), mails: m2, phones: Vec::new() };
        let mut m3: Vec<Mail> = Vec::new();
        m3.push(Mail { address: "jane.doe@example.com".to_owned() });
        let c3 = Contact { name: "Alice Smith".to_owned(), mails: m3, phones: Vec::new() };
        proof {
            assert(c1.model().mails =~= Self::seed_model()[0].1.mails);
            assert(c2.model().mails =~= Self::seed_model()[1].1.mails);
            assert(c3.model().mails =~= Self::seed_model()[2].1.mails);
            assert(c1.model().phones =~= Self::seed_model()[0].1.phones);
            assert(c2.model().phones =~= Self::seed_model()[1].1.phones);
            assert(c3.model().phones =~= Self::seed_model()[2].1.phones);
        }
        let mut rows: Vec<(u64, Contact)> = Vec::new();
        rows.push((1, c1));
        rows.push((2, c2));
        rows.push((3, c3));
        let r = Backend { rows, next_id: 4 };
        proof {
            assert(r.model() =~= Self::seed_model());
        }
        r
    }
}

impl ContactBackend for Backend {
    /// A fetch of the store always succeeds and lists exactly its rows.
    open spec fn get_contacts_ens(&self, r: Result<Vec<(u64, Contact)>, ()>) -> bool {
        r matches Ok(out) && pairs_model(out@) == self.model()
    }

    /// Adding is a contract stub: the store is unchanged and failure is
    /// reported.
    open spec fn add_contact_ens(pre: Self, post: Self, info: Contact, r: Result<u64, ()>) -> bool {
        post == pre && r is Err
    }

    /// Updating is a contract stub: the store is unchanged and failure is
    /// reported.
    open spec fn update_contact_ens(
        pre: Self,
        post: Self,
        id: u64,
        info: Contact,
        r: Result<(), ()>,
    ) -> bool {
        post == pre && r is Err
    }

    /// Removing is a contract stub: the store is unchanged and failure is
    /// reported.
    open spec fn remove_contact_ens(pre: Self, post: Self, id: u64, r: Result<(), ()>) -> bool {
        post == pre && r is Err
    }

    fn get_contacts(&self) -> (r: Result<Vec<(u64, Contact)>, ()>) {
        let mut out: Vec<(u64, Contact)> = Vec::new();
        let mut i: usize = 0;
        while i < self.rows.len()
            invariant
                i <= self.rows.len(),
                out@.len() == i as int,
                forall|k: int|
                    0 <= k < i as int ==> out@[k].0 == self.rows@[k].0 && out@[k].1.model()
                        == self.rows@[k].1.model(),
            decreases self.rows.len() - i,
        {
            let id = self.rows[i].0;
            out.push((id, self.rows[i].1.clone()));
            i = i + 1;
        }
        proof {
            assert(pairs_model(out@) =~= self.model());
        }
        Ok(out)
    }

    fn _add_contact(&mut self, _info: Contact) -> (r: Result<u64, ()>) {
        Err(())
    }

    fn _update_contact(&mut self, _id: u64, _info: Contact) -> (r: Result<(), ()>) {
        Err(())
    }

    fn _remove_contact(&mut self, _id: u64) -> (r: Result<(), ()>) {
        Err(())
    }
}

} // verus!
