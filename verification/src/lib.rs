//! A contact-list backend: decodes vCard-encoded records fetched from a
//! contacts daemon into an ordered collection of validated contacts.
//!
//! The decoding and validation logic lives in [`vcard`]; the data model in
//! [`utils`]; the fetch assembly and the in-memory store in [`backend`].

pub mod backend;
pub mod utils;
pub mod vcard;
