//! The backends a contact list can be loaded from, behind one trait.

pub mod dbus;
pub mod store;

use crate::utils::Contact;
use vstd::prelude::*;

verus! {

/// The operations a contact backend offers. Each implementation pins its
/// own behaviour down through the `*_ens` spec functions, which callers
/// reason through.
pub trait ContactBackend: Sized {
    /// What a fetch outcome of this backend satisfies.
    spec fn get_contacts_ens(&self, r: Result<Vec<(u64, Contact)>, ()>) -> bool;

    /// What the outcome of adding a contact satisfies.
    spec fn add_contact_ens(pre: Self, post: Self, info: Contact, r: Result<u64, ()>) -> bool;

    /// What the outcome of updating a contact satisfies.
    spec fn update_contact_ens(
        pre: Self,
        post: Self,
        id: u64,
        info: Contact,
        r: Result<(), ()>,
    ) -> bool;

    /// What the outcome of removing a contact satisfies.
    spec fn remove_contact_ens(pre: Self, post: Self, id: u64, r: Result<(), ()>) -> bool;

    /// Return all the contacts.
    fn get_contacts(&self) -> (r: Result<Vec<(u64, Contact)>, ()>)
        ensures
            self.get_contacts_ens(r),
    ;

    /// Add a contact to the backend.
    ///
    /// If successful, returns the id of the created contact.
    fn _add_contact(&mut self, info: Contact) -> (r: Result<u64, ()>)
        ensures
            Self::add_contact_ens(*old(self), *final(self), info, r),
    ;

    /// Update the contact associated with `id` with the provided `info`.
    fn _update_contact(&mut self, id: u64, info: Contact) -> (r: Result<(), ()>)
        ensures
            Self::update_contact_ens(*old(self), *final(self), id, info, r),
    ;

    /// Remove the contact associated with `id`.
    fn _remove_contact(&mut self, id: u64) -> (r: Result<(), ()>)
        ensures
            Self::remove_contact_ens(*old(self), *final(self), id, r),
    ;
}

} // verus!
