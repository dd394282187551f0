//! The daemon-backed backend.
//!
//! The contacts daemon is reached over the session bus; opening the
//! connection and performing the enumerate call are the surrounding
//! application's part. This type owns everything after the round trip: it
//! decodes each raw record independently and fault-tolerantly, and turns a
//! connection or call failure into the uniform failure signal.

use crate::utils::Contact;
use crate::vcard::{decode_all_model, decode_records, pairs_model, raw_model};
use vstd::prelude::*;

verus! {

/// The backend that fetches its records from the contacts daemon.
pub struct Backend {}

impl Backend {
    /// Assembles a fetch outcome from the outcome of one enumerate call: a
    /// failed connection or call is surfaced as the uniform failure signal
    /// (never as a partial or empty success), and a successful enumeration
    /// is decoded record by record, skipping each record that fails to parse
    /// or to validate and keeping the order of the rest.
    pub fn get_contacts(fetched: Result<Vec<(u64, String)>, ()>) -> (r: Result<
        Vec<(u64, Contact)>,
        (),
    >)
        ensures
            r is Err <==> fetched is Err,
            match fetched {
                Ok(raw) => r matches Ok(out) && pairs_model(out@) == decode_all_model(
                    raw_model(raw@),
                ),
                Err(_) => r is Err,
            },
    {
        match fetched {
            Ok(raw) => Ok(decode_records(&raw)),
            Err(_) => Err(()),
        }
    }
}

} // verus!
