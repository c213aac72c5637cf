//! The Windows branch: the machine GUID under the cryptography registry key.
//!
//! The identifier is a string value of a key under the local-machine hive.
//! A 32-bit process on 64-bit Windows must ask for the 64-bit registry view,
//! or redirection would hide the canonical key.  The surrounding program
//! opens the key and reads the value; the access-flag choice and the shaping
//! of the outcome live here.

use vstd::prelude::*;

use crate::errors::Error;
use crate::text::{is_space, lemma_stripped_clean, lemma_stripped_nonempty, space_pred, trim,
    trimmed};

verus! {

/// The registry access rights asking to read a key.
pub const READ_ACCESS: u32 = 0x20019;

/// The registry access right asking for the 64-bit registry view.
pub const WOW64_64KEY_ACCESS: u32 = 0x0100;

/// The access flags for opening the key: read access, widened to the 64-bit
/// registry view for a 32-bit process running on 64-bit Windows.
pub fn access_flags(is_wow64: bool, pointer_width_32: bool) -> (r: u32)
    ensures
        r == if is_wow64 && pointer_width_32 {
            READ_ACCESS | WOW64_64KEY_ACCESS
        } else {
            READ_ACCESS
        },
{
    if is_wow64 && pointer_width_32 {
        READ_ACCESS | WOW64_64KEY_ACCESS
    } else {
        READ_ACCESS
    }
}

/// What the lookup yields from the key open and the value read: an
/// unopenable key fails, an unreadable value fails, and a value resolves to
/// its trimmed text.
pub open spec fn resolved(key_opened: bool, value: Option<Seq<char>>) -> Result<Seq<char>, Error> {
    if !key_opened {
        Err(Error::RegistryKeyUnopenable)
    } else {
        match value {
            Some(text) => Ok(trimmed(text)),
            None => Err(Error::RegistryValueUnreadable),
        }
    }
}

/// The machine identifier from the registry lookup's outcomes.
///
/// `key_opened` says whether the key could be opened for reading;
/// `value` holds the named string value where it could be read.  A closed
/// key fails with [`Error::RegistryKeyUnopenable`], a missing or unreadable
/// value with [`Error::RegistryValueUnreadable`].
pub fn get_machine_id(key_opened: bool, value: Option<String>) -> (r: Result<String, Error>)
    ensures
        match r {
            Ok(s) => resolved(key_opened, value.deep_view()) == Ok::<Seq<char>, Error>(s@),
            Err(e) => resolved(key_opened, value.deep_view()) == Err::<Seq<char>, Error>(e),
        },
{
    if !key_opened {
        Err(Error::RegistryKeyUnopenable)
    } else {
        match value {
            Some(text) => Ok(trim(text.as_str())),
            None => Err(Error::RegistryValueUnreadable),
        }
    }
}

/// Resolution is a function of the registry outcomes alone: two lookups
/// over an unchanged system yield the same identifier.
pub proof fn lemma_resolved_deterministic(
    key_opened: bool,
    value: Option<Seq<char>>,
    r1: Result<Seq<char>, Error>,
    r2: Result<Seq<char>, Error>,
)
    requires
        r1 == resolved(key_opened, value),
        r2 == resolved(key_opened, value),
    ensures
        r1 == r2,
{
}

/// A resolved identifier never carries leading or trailing whitespace; and
/// where the value holds any non-whitespace character, the lookup succeeds
/// with a non-empty identifier.
pub proof fn lemma_resolved_clean(key_opened: bool, value: Option<Seq<char>>)
    ensures
        match resolved(key_opened, value) {
            Ok(id) => id.len() > 0 ==> (!is_space(id.first()) && !is_space(id.last())),
            Err(_) => !key_opened || value is None,
        },
        key_opened ==> match value {
            Some(text) => (exists|k: int| 0 <= k < text.len() && !is_space(text[k]))
                ==> resolved(key_opened, value) == Ok::<Seq<char>, Error>(trimmed(text))
                && trimmed(text).len() > 0,
            None => true,
        },
{
    if key_opened && value is Some {
        let text = value->0;
        lemma_stripped_clean(text, space_pred());
        lemma_stripped_nonempty(text, space_pred());
    }
}

} // verus!
