//! The `stanza-delete` command.
use vstd::prelude::*;

use crate::paths;
use crate::config::{CommandError, StorageError};
use crate::paths::{archive_dir, backup_dir};

verus! {

/// Refuses to delete a stanza that was not stopped.
pub fn require_stopped(stanza: &str, stopped: bool) -> (r: Result<(), CommandError>)
    ensures
        if stopped {
            r is Ok
        } else {
            r matches Err(e) && e.is_other("stop file does not exist for stanza "@ + stanza@)
        },
{
    if stopped {
        return Ok(());
    }
    let mut m = "stop file does not exist for stanza ".to_owned();
    m.append(stanza);
    Err(CommandError::Other(m))
}

/// What is removed from each repository, in this order.
pub fn stanza_subtrees(stanza: &str) -> (r: Vec<String>)
    ensures
        r.len() == 2,
        r[0]@ == paths::archive_dir_at(stanza@),
        r[1]@ == paths::backup_dir_at(stanza@),
{
    let mut out: Vec<String> = Vec::new();
    out.push(archive_dir(stanza));
    out.push(backup_dir(stanza));
    out
}

/// What a removal amounts to: what was not there counts as removed.
pub fn remove_subtree(result: Result<(), StorageError>) -> (r: Result<(), CommandError>)
    ensures
        match result {
            Ok(_) => r is Ok,
            Err(StorageError::NotFound { .. }) => r is Ok,
            Err(StorageError::Backend { message }) => r matches Err(CommandError::Storage(e)) && e == (
                StorageError::Backend { message }),
        },
{
    match result {
        Ok(()) => Ok(()),
        Err(StorageError::NotFound { .. }) => Ok(()),
        Err(StorageError::Backend { message }) => Err(CommandError::Storage(StorageError::Backend { message })),
    }
}

/// A stanza is deleted only once it was stopped; what is removed is its archive, then its
/// backups, and what is not there counts as removed.
pub proof fn law_stopped_stanzas_are_deleted(
    stanza: &str,
    stopped: bool,
    allowed: Result<(), CommandError>,
    subtrees: Vec<String>,
    result: Result<(), StorageError>,
    removed: Result<(), CommandError>,
)
    requires
        call_ensures(require_stopped, (stanza, stopped), allowed),
        call_ensures(stanza_subtrees, (stanza,), subtrees),
        call_ensures(remove_subtree, (result,), removed),
    ensures
        allowed is Ok <==> stopped,
        allowed is Err ==> allowed->Err_0.is_other("stop file does not exist for stanza "@ + stanza@),
        subtrees.len() == 2 && subtrees[0]@ == "archive/"@ + stanza@ && subtrees[1]@ == "backup/"@ + stanza@,
        removed is Err <==> result is Err && !(result->Err_0 is NotFound),
        removed is Err ==> removed->Err_0 == CommandError::Storage(result->Err_0),
{
}

}
