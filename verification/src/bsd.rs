//! The BSD branch: the hostid file, with a helper-process fallback.
//!
//! The identifier lives in a fixed file; where that is unreadable, a helper
//! process prints the SMBIOS system UUID.  The surrounding program reads the
//! file, spawns the helper where needed, and hands in the outcomes.

use vstd::prelude::*;

use crate::decode::{decode_utf8_lossy, utf8_lossy_of};
use crate::errors::Error;
use crate::text::{is_space, lemma_stripped_clean, lemma_stripped_nonempty, space_pred, trim,
    trimmed};

verus! {

/// What the lookup yields from the file read and the helper output: the
/// file wins, an unreadable file falls back to the decoded helper output,
/// and with neither available the lookup fails.
pub open spec fn resolved(hostid: Option<Seq<char>>, helper: Option<Seq<u8>>) -> Result<
    Seq<char>,
    Error,
> {
    match hostid {
        Some(content) => Ok(trimmed(content)),
        None => match helper {
            Some(bytes) => Ok(trimmed(utf8_lossy_of(bytes))),
            None => Err(Error::ProcessSpawnFailed),
        },
    }
}

/// The machine identifier from the hostid file read and, where that failed,
/// the helper process output.
///
/// `hostid` holds the file's decoded contents or nothing where it could not
/// be read; `helper_output` holds the bytes the helper wrote to its standard
/// output, or nothing where it could not be run: with neither available the
/// lookup fails with [`Error::ProcessSpawnFailed`].
pub fn get_machine_id(hostid: Option<String>, helper_output: Option<Vec<u8>>) -> (r: Result<
    String,
    Error,
>)
    ensures
        match r {
            Ok(s) => resolved(hostid.deep_view(), helper_output.deep_view()) == Ok::<
                Seq<char>,
                Error,
            >(s@),
            Err(e) => resolved(hostid.deep_view(), helper_output.deep_view()) == Err::<
                Seq<char>,
                Error,
            >(e),
        },
{
    match hostid {
        Some(content) => Ok(trim(content.as_str())),
        None => match helper_output {
            Some(bytes) => {
                proof {
                    assert(bytes.deep_view() =~= bytes@);
                }
                let content = decode_utf8_lossy(bytes.as_slice());
                Ok(trim(content.as_str()))
            },
            None => Err(Error::ProcessSpawnFailed),
        },
    }
}

/// Resolution is a function of the file contents and helper output alone:
/// two lookups over an unchanged system yield the same identifier.
pub proof fn lemma_resolved_deterministic(
    hostid: Option<Seq<char>>,
    helper: Option<Seq<u8>>,
    r1: Result<Seq<char>, Error>,
    r2: Result<Seq<char>, Error>,
)
    requires
        r1 == resolved(hostid, helper),
        r2 == resolved(hostid, helper),
    ensures
        r1 == r2,
{
}

/// A resolved identifier never carries leading or trailing whitespace; and
/// where the winning source holds any non-whitespace character, the lookup
/// succeeds with a non-empty identifier.
pub proof fn lemma_resolved_clean(hostid: Option<Seq<char>>, helper: Option<Seq<u8>>)
    ensures
        match resolved(hostid, helper) {
            Ok(id) => id.len() > 0 ==> (!is_space(id.first()) && !is_space(id.last())),
            Err(_) => hostid is None && helper is None,
        },
        match hostid {
            Some(content) => (exists|k: int| 0 <= k < content.len() && !is_space(content[k]))
                ==> resolved(hostid, helper) == Ok::<Seq<char>, Error>(trimmed(content))
                && trimmed(content).len() > 0,
            None => true,
        },
        hostid is None ==> match helper {
            Some(bytes) => (exists|k: int|
                0 <= k < utf8_lossy_of(bytes).len() && !is_space(utf8_lossy_of(bytes)[k]))
                ==> resolved(hostid, helper) == Ok::<Seq<char>, Error>(
                trimmed(utf8_lossy_of(bytes)),
            ) && trimmed(utf8_lossy_of(bytes)).len() > 0,
            None => true,
        },
{
    if hostid is Some {
        let content = hostid->0;
        lemma_stripped_clean(content, space_pred());
        lemma_stripped_nonempty(content, space_pred());
    } else if helper is Some {
        let content = utf8_lossy_of(helper->0);
        lemma_stripped_clean(content, space_pred());
        lemma_stripped_nonempty(content, space_pred());
    }
}

} // verus!
