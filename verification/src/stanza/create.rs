//! The `stanza-create` command.
use std::collections::BTreeMap;
use vstd::prelude::*;

use crate::history;
use crate::verify::info_files;
use crate::paths;
use crate::config;
use crate::config::{copied, other_error, require_stanza, CommandError, LoadedConfig};
use crate::info::{DbHistoryEntry, InfoArchive, InfoBackup};
use crate::paths::{archive_dir, archive_info_path, backup_dir, backup_info_path};
use crate::stanza::cipher::RepoCipherConfig;
use crate::stanza::identity::ClusterIdentity;
use crate::textmap::TextMap;

verus! {

/// The format of the info files.
pub const BACKREST_FORMAT: u32 = 5;

/// The version that is written into the info files.
pub const BACKREST_VERSION: &'static str = "2.58";

/// What `stanza-create` recorded.
#[derive(Debug, Clone, PartialEq, Eq)]
pub struct CreateOutcome {
    /// The cluster's version.
    pub db_version: String,
    /// Its system identifier.
    pub db_system_id: u64,
}

/// The stanza that a command works on, where there is one and at least one
/// repository to work on; `command` is its name.
pub fn require_repos<'a>(config: &'a LoadedConfig, command: &str, repos: &Vec<u32>) -> (r: Result<&'a str, CommandError>)
    ensures
        match config.stanza {
            None => r matches Err(e) && e.is_missing("stanza"@),
            Some(s) => if repos.len() == 0 {
                r matches Err(e) && e.is_other(command@ + " requires at least one repository"@)
            } else {
                r matches Ok(t) && t@ == s@
            },
        },
{
    let stanza = match require_stanza(config) {
        Ok(s) => s,
        Err(e) => return Err(e),
    };
    if repos.len() == 0 {
        let mut m = command.to_owned();
        m.append(" requires at least one repository");
        return Err(CommandError::Other(m));
    }
    Ok(stanza)
}

/// The history of a stanza that has had one cluster.
pub open spec fn first_record(identity: ClusterIdentity) -> Map<u32, (u64, Seq<char>)> {
    Map::<u32, (u64, Seq<char>)>::empty().insert(1, (identity.header.system_identifier, identity.version@))
}

/// What `archive.info` records of a new stanza.
pub open spec fn is_new_archive(archive: InfoArchive, identity: ClusterIdentity) -> bool {
    &&& archive.backrest_format == BACKREST_FORMAT
    &&& archive.backrest_version@ == BACKREST_VERSION@
    &&& archive.db_id == 1
    &&& archive.db_system_id == identity.header.system_identifier
    &&& archive.db_version@ == identity.version@
    &&& history::record(archive.history@) == first_record(identity)
}

/// What `backup.info` records of a new stanza.
pub open spec fn is_new_backup(backup: InfoBackup, identity: ClusterIdentity) -> bool {
    &&& backup.backrest_format == BACKREST_FORMAT
    &&& backup.backrest_version@ == BACKREST_VERSION@
    &&& backup.db_id == 1
    &&& backup.db_system_id == identity.header.system_identifier
    &&& backup.db_version@ == identity.version@
    &&& backup.db_catalog_version == identity.header.catalog_version_no
    &&& backup.db_control_version == identity.header.pg_control_version
    &&& backup.current.keys().len() == 0
    &&& history::record(backup.history@) == first_record(identity)
}

/// What `stanza-create` writes to a repository: the directories, then the two info
/// files, each under the passphrase and with its own key for what it covers.
pub struct NewStanza {
    /// The directories to make.
    pub directories: Vec<String>,
    pub archive_path: String,
    pub archive: InfoArchive,
    /// The key that `archive.info` carries.
    pub archive_key: Option<String>,
    pub backup_path: String,
    pub backup: InfoBackup,
    /// The key that `backup.info` carries.
    pub backup_key: Option<String>,
    /// The passphrase that both files are encrypted under.
    pub passphrase: Option<String>,
    pub outcome: CreateOutcome,
}

fn first_history(identity: &ClusterIdentity) -> (r: BTreeMap<u32, DbHistoryEntry>)
    ensures
        history::record(r@) == first_record(*identity),
{
    broadcast use vstd::std_specs::btree::group_btree_axioms;

    let mut history: BTreeMap<u32, DbHistoryEntry> = BTreeMap::new();
    history.insert(
        1,
        DbHistoryEntry { db_id: identity.header.system_identifier, db_version: identity.version.clone() },
    );
    assert(history::record(history@) =~= first_record(*identity));
    history
}

/// What `stanza-create` writes to a repository in which the info files do or do not
/// exist. The two keys are used where the repository is encrypted only. A stanza
/// that exists is left alone.
pub fn create_with_identity(
    stanza: &str,
    archive_exists: bool,
    backup_exists: bool,
    identity: &ClusterIdentity,
    cipher: &RepoCipherConfig,
    archive_key: String,
    backup_key: String,
) -> (r: Result<NewStanza, CommandError>)
    ensures
        if archive_exists || backup_exists {
            r matches Err(e) && e.is_other("stanza already exists"@)
        } else {
            &&& r matches Ok(new)
            &&& new.directories.len() == 2
            &&& new.directories[0]@ == paths::archive_dir_at(stanza@)
            &&& new.directories[1]@ == paths::backup_dir_at(stanza@)
            &&& new.archive_path@ == paths::archive_info_at(stanza@)
            &&& new.backup_path@ == paths::backup_info_at(stanza@)
            &&& is_new_archive(new.archive, *identity)
            &&& is_new_backup(new.backup, *identity)
            &&& new.archive_key == (if cipher.cipher_type.encrypts() {
                Some(archive_key)
            } else {
                None
            })
            &&& new.backup_key == (if cipher.cipher_type.encrypts() {
                Some(backup_key)
            } else {
                None
            })
            &&& config::opt_text(new.passphrase) == cipher.key()
            &&& new.outcome.db_version@ == identity.version@
            &&& new.outcome.db_system_id == identity.header.system_identifier
        },
{
    if archive_exists || backup_exists {
        return Err(other_error("stanza already exists"));
    }
    let archive = InfoArchive {
        backrest_format: BACKREST_FORMAT,
        backrest_version: BACKREST_VERSION.to_owned(),
        db_id: 1,
        db_system_id: identity.header.system_identifier,
        db_version: identity.version.clone(),
        history: first_history(identity),
    };
    let backup = InfoBackup {
        backrest_format: BACKREST_FORMAT,
        backrest_version: BACKREST_VERSION.to_owned(),
        db_id: 1,
        db_system_id: identity.header.system_identifier,
        db_version: identity.version.clone(),
        db_catalog_version: identity.header.catalog_version_no,
        db_control_version: identity.header.pg_control_version,
        current: TextMap::new(),
        history: first_history(identity),
    };
    let mut directories: Vec<String> = Vec::new();
    directories.push(archive_dir(stanza));
    directories.push(backup_dir(stanza));
    let encrypted: bool = cipher.cipher_type.is_encrypted();
    Ok(
        NewStanza {
            directories,
            archive_path: archive_info_path(stanza),
            archive,
            archive_key: if encrypted {
                Some(archive_key)
            } else {
                None
            },
            backup_path: backup_info_path(stanza),
            backup,
            backup_key: if encrypted {
                Some(backup_key)
            } else {
                None
            },
            passphrase: copied(cipher.passphrase()),
            outcome: CreateOutcome {
                db_version: identity.version.clone(),
                db_system_id: identity.header.system_identifier,
            },
        },
    )
}

/// The info files of a new stanza agree.
pub proof fn law_new_stanza_is_consistent(archive: InfoArchive, backup: InfoBackup, identity: ClusterIdentity)
    requires
        is_new_archive(archive, identity),
        is_new_backup(backup, identity),
    ensures
        info_files::same_cluster(archive, backup),
        info_files::notes_of(Ok(archive), backup).len() == 0,
{
}

/// A new stanza's two info files lie at their places and record one cluster, the given
/// one, as number one of a history of one; they are encrypted under the passphrase and
/// carry their keys where the repository is encrypted, and only there. A stanza that has
/// either file is left alone.
pub proof fn law_new_stanza_records_its_cluster(
    stanza: &str,
    exists_at: (bool, bool),
    identity: &ClusterIdentity,
    cipher: &RepoCipherConfig,
    keys: (String, String),
    encrypted: bool,
    pass: Option<&str>,
    r: Result<NewStanza, CommandError>,
)
    requires
        call_ensures(crate::stanza::cipher::CipherType::is_encrypted, (&cipher.cipher_type,), encrypted),
        call_ensures(RepoCipherConfig::passphrase, (cipher,), pass),
        call_ensures(create_with_identity, (stanza, exists_at.0, exists_at.1, identity, cipher, keys.0, keys.1), r),
    ensures
        r is Err <==> exists_at.0 || exists_at.1,
        r is Err ==> r->Err_0.is_other("stanza already exists"@),
        r is Ok ==> {
            let new = r->Ok_0;
            &&& new.directories.len() == 2
            &&& new.directories[0]@ == "archive/"@ + stanza@ && new.directories[1]@ == "backup/"@ + stanza@
            &&& new.archive_path@ == "archive/"@ + stanza@ + "/archive.info"@
            &&& new.backup_path@ == "backup/"@ + stanza@ + "/backup.info"@
            &&& new.archive.backrest_format == 5 && new.backup.backrest_format == 5
            &&& new.archive.backrest_version@ == "2.58"@ && new.backup.backrest_version@ == "2.58"@
            &&& new.archive.db_id == 1 && new.backup.db_id == 1
            &&& new.archive.db_system_id == identity.header.system_identifier
            &&& new.backup.db_system_id == identity.header.system_identifier
            &&& new.archive.db_version@ == identity.version@ && new.backup.db_version@ == identity.version@
            &&& new.backup.db_catalog_version == identity.header.catalog_version_no
            &&& new.backup.db_control_version == identity.header.pg_control_version
            &&& new.backup.current.keys().len() == 0
            &&& new.archive_key is Some <==> encrypted
            &&& new.backup_key is Some <==> encrypted
            &&& encrypted ==> new.archive_key.unwrap()@ == keys.0@ && new.backup_key.unwrap()@ == keys.1@
            &&& config::opt_text(new.passphrase) == config::opt_view(pass)
            &&& new.outcome.db_version@ == identity.version@ && new.outcome.db_system_id == identity.header.system_identifier
        },
{
}

/// The history of a new stanza holds one entry in either file: number one, the cluster.
pub proof fn law_new_history_has_one_entry(
    stanza: &str,
    identity: &ClusterIdentity,
    cipher: &RepoCipherConfig,
    keys: (String, String),
    r: Result<NewStanza, CommandError>,
    k: u32,
)
    requires
        call_ensures(create_with_identity, (stanza, false, false, identity, cipher, keys.0, keys.1), r),
    ensures
        r is Ok,
        r->Ok_0.archive.history@.contains_key(k) <==> k == 1,
        r->Ok_0.backup.history@.contains_key(k) <==> k == 1,
        r->Ok_0.archive.history@[1].db_id == identity.header.system_identifier,
        r->Ok_0.archive.history@[1].db_version@ == identity.version@,
        r->Ok_0.backup.history@[1].db_id == identity.header.system_identifier,
        r->Ok_0.backup.history@[1].db_version@ == identity.version@,
{
    let one = first_record(*identity);
    let a = r->Ok_0.archive.history@;
    let b = r->Ok_0.backup.history@;
    assert(history::record(a).dom() =~= a.dom());
    assert(history::record(b).dom() =~= b.dom());
    assert(one.contains_key(k) <==> k == 1);
    assert(history::record(a).contains_key(1u32) && history::record(b).contains_key(1u32));
    assert(history::record(a).contains_key(k) <==> a.contains_key(k));
    assert(history::record(b).contains_key(k) <==> b.contains_key(k));
    assert(history::record(a)[1u32] == one[1u32]);
    assert(history::record(b)[1u32] == one[1u32]);
}

/// A command works on the stanza that was given, on at least one repository.
pub proof fn law_repositories_are_needed(config: &LoadedConfig, command: &str, repos: &Vec<u32>, r: Result<&str, CommandError>)
    requires
        call_ensures(require_repos, (config, command, repos), r),
    ensures
        r is Ok <==> config.stanza is Some && repos.len() > 0,
        r is Ok ==> r->Ok_0@ == config.stanza.unwrap()@,
        config.stanza is None ==> r->Err_0.is_missing("stanza"@),
        config.stanza is Some && r is Err ==> r->Err_0.is_other(command@ + " requires at least one repository"@),
{
}

}
