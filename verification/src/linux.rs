//! The Linux branch: the machine-id file, with a fallback path.
//!
//! The identifier lives in a text file; systems without the dbus path carry
//! it at a second fixed path.  The surrounding program reads each file and
//! hands the contents in; an unreadable file arrives as `None`.

use vstd::prelude::*;

use crate::errors::Error;
use crate::text::{is_space, lemma_stripped_clean, lemma_stripped_nonempty, space_pred, trim,
    trimmed};

verus! {

/// What the lookup yields from the two file reads: the primary file wins,
/// an unreadable primary falls back to the second path, and with neither
/// readable the lookup fails.
pub open spec fn resolved(primary: Option<Seq<char>>, fallback: Option<Seq<char>>) -> Result<
    Seq<char>,
    Error,
> {
    match primary {
        Some(content) => Ok(trimmed(content)),
        None => match fallback {
            Some(content) => Ok(trimmed(content)),
            None => Err(Error::FileUnreadable),
        },
    }
}

/// The machine identifier from the two file reads, primary path first.
///
/// Each argument holds a file's decoded contents, or nothing where the file
/// could not be opened, read or decoded; with both unreadable the lookup
/// fails with [`Error::FileUnreadable`].
pub fn get_machine_id(primary: Option<String>, fallback: Option<String>) -> (r: Result<
    String,
    Error,
>)
    ensures
        match r {
            Ok(s) => resolved(primary.deep_view(), fallback.deep_view()) == Ok::<Seq<char>, Error>(
                s@,
            ),
            Err(e) => resolved(primary.deep_view(), fallback.deep_view()) == Err::<
                Seq<char>,
                Error,
            >(e),
        },
{
    match primary {
        Some(content) => Ok(trim(content.as_str())),
        None => match fallback {
            Some(content) => Ok(trim(content.as_str())),
            None => Err(Error::FileUnreadable),
        },
    }
}

/// Resolution is a function of the file contents alone: two lookups over an
/// unchanged system yield the same identifier.
pub proof fn lemma_resolved_deterministic(
    primary: Option<Seq<char>>,
    fallback: Option<Seq<char>>,
    r1: Result<Seq<char>, Error>,
    r2: Result<Seq<char>, Error>,
)
    requires
        r1 == resolved(primary, fallback),
        r2 == resolved(primary, fallback),
    ensures
        r1 == r2,
{
}

/// A resolved identifier never carries leading or trailing whitespace; and
/// where the winning file holds any non-whitespace character, the lookup
/// succeeds with a non-empty identifier.
pub proof fn lemma_resolved_clean(primary: Option<Seq<char>>, fallback: Option<Seq<char>>)
    ensures
        match resolved(primary, fallback) {
            Ok(id) => id.len() > 0 ==> (!is_space(id.first()) && !is_space(id.last())),
            Err(_) => primary is None && fallback is None,
        },
        match primary {
            Some(content) => (exists|k: int| 0 <= k < content.len() && !is_space(content[k]))
                ==> resolved(primary, fallback) == Ok::<Seq<char>, Error>(trimmed(content))
                && trimmed(content).len() > 0,
            None => true,
        },
        primary is None ==> match fallback {
            Some(content) => (exists|k: int| 0 <= k < content.len() && !is_space(content[k]))
                ==> resolved(primary, fallback) == Ok::<Seq<char>, Error>(trimmed(content))
                && trimmed(content).len() > 0,
            None => true,
        },
{
    if primary is Some {
        let content = primary->0;
        lemma_stripped_clean(content, space_pred());
        lemma_stripped_nonempty(content, space_pred());
    } else if fallback is Some {
        let content = fallback->0;
        lemma_stripped_clean(content, space_pred());
        lemma_stripped_nonempty(content, space_pred());
    }
}

} // verus!
