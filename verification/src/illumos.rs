//! The illumos branch: the host identifier, formatted as lowercase hex.
//!
//! The host-identifier system call yields an integer and does not fail
//! under normal operation; the surrounding program makes the call and hands
//! the value in.  Formatting it is the whole of this branch's work.

use vstd::prelude::*;

use crate::errors::Error;
use crate::hex::{hex_rep, lemma_hex_rep_clean, to_hex};
use crate::text::is_space;

verus! {

/// What the lookup yields from the host-identifier value: its lowercase
/// hexadecimal form.  This branch cannot fail.
pub open spec fn resolved(hostid: u64) -> Result<Seq<char>, Error> {
    Ok(hex_rep(hostid as nat))
}

/// The machine identifier from the host-identifier value: the value in
/// lowercase hexadecimal, most significant digit first.
pub fn get_machine_id(hostid: u64) -> (r: Result<String, Error>)
    ensures
        match r {
            Ok(s) => resolved(hostid) == Ok::<Seq<char>, Error>(s@),
            Err(_) => false,
        },
{
    Ok(to_hex(hostid))
}

/// Resolution is a function of the host identifier alone: two lookups over
/// an unchanged system yield the same identifier.
pub proof fn lemma_resolved_deterministic(
    hostid: u64,
    r1: Result<Seq<char>, Error>,
    r2: Result<Seq<char>, Error>,
)
    requires
        r1 == resolved(hostid),
        r2 == resolved(hostid),
    ensures
        r1 == r2,
{
}

/// A resolved identifier is always non-empty and never carries leading or
/// trailing whitespace.
pub proof fn lemma_resolved_clean(hostid: u64)
    ensures
        match resolved(hostid) {
            Ok(id) => id.len() > 0 && !is_space(id.first()) && !is_space(id.last()),
            Err(_) => false,
        },
{
    lemma_hex_rep_clean(hostid as nat);
}

} // verus!
