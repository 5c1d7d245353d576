//! The `stanza-upgrade` command.
use std::collections::BTreeMap;
use vstd::prelude::*;

use crate::verify::info_files;
use crate::stanza::create;
use crate::history;
use crate::config::{other_error, CommandError};
use crate::history::largest_id;
use crate::info::{DbHistoryEntry, InfoArchive, InfoBackup};
use crate::stanza::cipher::RepoCipherConfig;
use crate::stanza::identity::ClusterIdentity;
use crate::text::text_eq;

verus! {

/// What `stanza-upgrade` did.
#[derive(Debug, Clone, Copy, PartialEq, Eq, Structural)]
pub struct UpgradeOutcome {
    /// Whether the cluster had changed.
    pub upgraded: bool,
    /// The number of the active cluster.
    pub new_db_id: u32,
}

/// Refuses a repository that lacks one of the info files.
pub fn require_initialized(archive_exists: bool, backup_exists: bool) -> (r: Result<(), CommandError>)
    ensures
        if archive_exists && backup_exists {
            r is Ok
        } else {
            r matches Err(e) && e.is_other("stanza not initialized; run stanza-create first"@)
        },
{
    if archive_exists && backup_exists {
        Ok(())
    } else {
        Err(other_error("stanza not initialized; run stanza-create first"))
    }
}

/// The bytes that an encrypted file starts with: `Salted__`.
pub open spec fn cipher_magic() -> Seq<u8> {
    seq![0x53u8, 0x61, 0x6c, 0x74, 0x65, 0x64, 0x5f, 0x5f]
}

/// Whether a file that starts with the bytes `head`, at least eight of them where
/// the file has as many, is encrypted.
pub open spec fn head_encrypted(head: Seq<u8>) -> bool {
    head.len() >= 8 && head.take(8) == cipher_magic()
}

/// Whether a file that starts with the bytes `head` is encrypted. One shorter than
/// the mark is not.
pub fn info_file_is_encrypted(head: &Vec<u8>) -> (r: bool)
    ensures
        r == head_encrypted(head@),
{
    if head.len() < 8 {
        return false;
    }
    let same: bool = head[0] == 0x53 && head[1] == 0x61 && head[2] == 0x6c && head[3] == 0x74 && head[4] == 0x65
        && head[5] == 0x64 && head[6] == 0x5f && head[7] == 0x5f;
    proof {
        if same {
            assert(head@.take(8) =~= cipher_magic());
        } else {
            assert forall|i: int| 0 <= i < 8 implies #[trigger] head@.take(8)[i] == head@[i] by {}
        }
    }
    same
}

/// Refuses a repository that is encrypted where the options say it is not, or the
/// other way round; `head` is how its `archive.info` starts.
pub fn require_same_cipher(head: &Vec<u8>, cipher: &RepoCipherConfig) -> (r: Result<(), CommandError>)
    ensures
        if head_encrypted(head@) == cipher.cipher_type.encrypts() {
            r is Ok
        } else {
            r matches Err(e) && e.is_other(
                "repo-cipher-type does not match the existing repository; encryption must be set at stanza-create"@,
            )
        },
{
    if info_file_is_encrypted(head) != cipher.cipher_type.is_encrypted() {
        return Err(
            other_error(
                "repo-cipher-type does not match the existing repository; encryption must be set at stanza-create",
            ),
        );
    }
    Ok(())
}

/// Whether the cluster is another than the one that either info file records.
pub open spec fn changed(archive: InfoArchive, backup: InfoBackup, identity: ClusterIdentity) -> bool {
    ||| archive.db_system_id != identity.header.system_identifier
    ||| archive.db_version@ != identity.version@
    ||| backup.db_system_id != identity.header.system_identifier
    ||| backup.db_version@ != identity.version@
}

/// Whether the cluster is another than the one that either info file records.
pub fn cluster_changed(archive: &InfoArchive, backup: &InfoBackup, identity: &ClusterIdentity) -> (r: bool)
    ensures
        r == changed(*archive, *backup, *identity),
{
    archive.db_system_id != identity.header.system_identifier || !text_eq(
        archive.db_version.as_str(),
        identity.version.as_str(),
    ) || backup.db_system_id != identity.header.system_identifier || !text_eq(
        backup.db_version.as_str(),
        identity.version.as_str(),
    )
}

/// The number before that of the next cluster: the largest that the stanza has had,
/// or the active one where the history is empty.
pub open spec fn is_last_id(archive: InfoArchive, n: u32) -> bool {
    if exists|k: u32| #[trigger] archive.history@.contains_key(k) {
        history::is_largest(archive.history@, n)
    } else {
        n == archive.db_id
    }
}

/// Whether there is a number left for the next cluster.
pub open spec fn has_next_id(archive: InfoArchive) -> bool {
    !is_last_id(archive, u32::MAX)
}

/// The number for the next cluster, where one is left.
pub fn next_id(archive: &InfoArchive) -> (r: Option<u32>)
    ensures
        match r {
            Some(n) => has_next_id(*archive) && n > 0 && is_last_id(*archive, (n - 1) as u32),
            None => !has_next_id(*archive),
        },
{
    let last: u32 = match largest_id(&archive.history) {
        Some(n) => n,
        None => archive.db_id,
    };
    assert(is_last_id(*archive, last));
    if last < u32::MAX {
        Some(last + 1)
    } else {
        None
    }
}

/// Whether `after` records the cluster `identity` under the number `id`, and all
/// else that `before` does.
pub open spec fn archive_upgraded(before: InfoArchive, after: InfoArchive, identity: ClusterIdentity, id: u32) -> bool {
    &&& after.backrest_format == before.backrest_format
    &&& after.backrest_version@ == before.backrest_version@
    &&& after.db_id == id
    &&& after.db_system_id == identity.header.system_identifier
    &&& after.db_version@ == identity.version@
    &&& history::record(after.history@) == history::record(before.history@).insert(
        id,
        (identity.header.system_identifier, identity.version@),
    )
}

/// The same of `backup.info`.
pub open spec fn backup_upgraded(before: InfoBackup, after: InfoBackup, identity: ClusterIdentity, id: u32) -> bool {
    &&& after.backrest_format == before.backrest_format
    &&& after.backrest_version@ == before.backrest_version@
    &&& after.db_id == id
    &&& after.db_system_id == identity.header.system_identifier
    &&& after.db_version@ == identity.version@
    &&& after.db_catalog_version == identity.header.catalog_version_no
    &&& after.db_control_version == identity.header.pg_control_version
    &&& after.current == before.current
    &&& history::record(after.history@) == history::record(before.history@).insert(
        id,
        (identity.header.system_identifier, identity.version@),
    )
}

fn with_cluster(history: BTreeMap<u32, DbHistoryEntry>, id: u32, identity: &ClusterIdentity) -> (r: BTreeMap<
    u32,
    DbHistoryEntry,
>)
    ensures
        history::record(r@) == history::record(history@).insert(id, (identity.header.system_identifier, identity.version@)),
{
    broadcast use vstd::std_specs::btree::group_btree_axioms;

    let mut out = history;
    out.insert(id, DbHistoryEntry { db_id: identity.header.system_identifier, db_version: identity.version.clone() });
    assert(history::record(out@) =~= history::record(history@).insert(id, (identity.header.system_identifier, identity.version@)));
    out
}

/// The info files after an upgrade, and what it did.
pub struct Upgraded {
    pub archive: InfoArchive,
    pub backup: InfoBackup,
    pub outcome: UpgradeOutcome,
}

/// Records the cluster `identity` where it is another than the one that either info
/// file records, under a number that the archive has not had. Else the files are as
/// they were, and need not be written.
pub fn upgrade_with_identity(archive: InfoArchive, backup: InfoBackup, identity: &ClusterIdentity) -> (r: Upgraded)
    requires
        changed(archive, backup, *identity) ==> has_next_id(archive),
    ensures
        r.outcome.upgraded == changed(archive, backup, *identity),
        if changed(archive, backup, *identity) {
            &&& r.outcome.new_db_id > 0
            &&& is_last_id(archive, (r.outcome.new_db_id - 1) as u32)
            &&& archive_upgraded(archive, r.archive, *identity, r.outcome.new_db_id)
            &&& backup_upgraded(backup, r.backup, *identity, r.outcome.new_db_id)
        } else {
            r.outcome.new_db_id == archive.db_id && r.archive == archive && r.backup == backup
        },
{
    if !cluster_changed(&archive, &backup, identity) {
        let outcome = UpgradeOutcome { upgraded: false, new_db_id: archive.db_id };
        return Upgraded { archive, backup, outcome };
    }
    let next: u32 = next_id(&archive).unwrap();
    let archive = InfoArchive {
        backrest_format: archive.backrest_format,
        backrest_version: archive.backrest_version,
        db_id: next,
        db_system_id: identity.header.system_identifier,
        db_version: identity.version.clone(),
        history: with_cluster(archive.history, next, identity),
    };
    let backup = InfoBackup {
        backrest_format: backup.backrest_format,
        backrest_version: backup.backrest_version,
        db_id: next,
        db_system_id: identity.header.system_identifier,
        db_version: identity.version.clone(),
        db_catalog_version: identity.header.catalog_version_no,
        db_control_version: identity.header.pg_control_version,
        current: backup.current,
        history: with_cluster(backup.history, next, identity),
    };
    Upgraded { archive, backup, outcome: UpgradeOutcome { upgraded: true, new_db_id: next } }
}

/// The number of a new cluster is larger than every number that the stanza has had,
/// and what was recorded of them is kept.
pub proof fn law_numbers_grow(before: InfoArchive, after: InfoArchive, identity: ClusterIdentity, id: u32)
    requires
        id > 0,
        is_last_id(before, (id - 1) as u32),
        archive_upgraded(before, after, identity, id),
    ensures
        forall|k: u32| #[trigger] before.history@.contains_key(k) ==> k < id,
        forall|k: u32|
            #[trigger] before.history@.contains_key(k) ==> history::record(after.history@).contains_key(k) && history::record(
                after.history@,
            )[k] == history::record(before.history@)[k],
{
    assert forall|k: u32| #[trigger] before.history@.contains_key(k) implies k < id && history::record(after.history@).contains_key(k)
        && history::record(after.history@)[k] == history::record(before.history@)[k] by {
        assert(history::is_largest(before.history@, (id - 1) as u32));
        assert(history::record(before.history@).contains_key(k));
    }
}

/// A second upgrade to the same cluster changes nothing.
pub proof fn law_upgrade_is_idempotent(
    archive: InfoArchive,
    backup: InfoBackup,
    archive_after: InfoArchive,
    backup_after: InfoBackup,
    identity: ClusterIdentity,
    id: u32,
)
    requires
        archive_upgraded(archive, archive_after, identity, id),
        backup_upgraded(backup, backup_after, identity, id),
    ensures
        !changed(archive_after, backup_after, identity),
{
}

/// An upgrade of info files that agree gives info files that agree.
pub proof fn law_upgrade_keeps_agreement(
    archive: InfoArchive,
    backup: InfoBackup,
    archive_after: InfoArchive,
    backup_after: InfoBackup,
    identity: ClusterIdentity,
    id: u32,
)
    requires
        history::record(archive.history@) == history::record(backup.history@),
        archive_upgraded(archive, archive_after, identity, id),
        backup_upgraded(backup, backup_after, identity, id),
    ensures
        info_files::same_cluster(archive_after, backup_after),
        info_files::notes_of(Ok(archive_after), backup_after).len() == 0,
{
}

/// A stanza that was just made for a cluster is not changed by an upgrade to it; for
/// another cluster the next number is two.
pub proof fn law_upgrade_after_create(archive: InfoArchive, backup: InfoBackup, identity: ClusterIdentity)
    requires
        create::is_new_archive(archive, identity),
        create::is_new_backup(backup, identity),
    ensures
        !changed(archive, backup, identity),
        has_next_id(archive),
        is_last_id(archive, 1),
        forall|n: u32| #[trigger] is_last_id(archive, n) ==> n == 1,
{
    assert(history::record(archive.history@).dom() =~= archive.history@.dom());
    assert(history::record(archive.history@).contains_key(1u32));
    assert(archive.history@.contains_key(1u32));
    assert forall|k: u32| #[trigger] archive.history@.contains_key(k) implies k == 1 by {
        assert(history::record(archive.history@).contains_key(k));
    }
    assert(is_last_id(archive, 1));
}

/// An upgrade is due where either info file names another system identifier or another
/// version than the cluster's. It gives both files the cluster under one number that is
/// one more than the largest that the archive had, adds it to both histories and changes
/// nothing else in them; where none is due both files are as they were.
pub proof fn law_upgrade_records_the_cluster(archive: InfoArchive, backup: InfoBackup, identity: &ClusterIdentity, due: bool, r: Upgraded)
    requires
        call_ensures(cluster_changed, (&archive, &backup, identity), due),
        due ==> has_next_id(archive),
        call_ensures(upgrade_with_identity, (archive, backup, identity), r),
    ensures
        due <==> archive.db_system_id != identity.header.system_identifier || archive.db_version@ != identity.version@
            || backup.db_system_id != identity.header.system_identifier || backup.db_version@ != identity.version@,
        r.outcome.upgraded == due,
        r.outcome.new_db_id == r.archive.db_id,
        !due ==> r.archive == archive && r.backup == backup,
        due ==> {
            &&& r.backup.db_id == r.archive.db_id
            &&& r.archive.db_system_id == identity.header.system_identifier
            &&& r.backup.db_system_id == identity.header.system_identifier
            &&& r.archive.db_version@ == identity.version@ && r.backup.db_version@ == identity.version@
            &&& r.backup.db_catalog_version == identity.header.catalog_version_no
            &&& r.backup.db_control_version == identity.header.pg_control_version
            &&& r.archive.backrest_format == archive.backrest_format && r.backup.backrest_format == backup.backrest_format
            &&& r.archive.backrest_version@ == archive.backrest_version@ && r.backup.backrest_version@ == backup.backrest_version@
            &&& r.backup.current == backup.current
        },
{
}

/// The histories after an upgrade: every entry that was there is there still, and one is
/// new in each, under the new number, which no entry of the archive had.
pub proof fn law_upgrade_keeps_the_history(archive: InfoArchive, backup: InfoBackup, identity: &ClusterIdentity, due: bool, r: Upgraded, k: u32)
    requires
        call_ensures(cluster_changed, (&archive, &backup, identity), due),
        due,
        has_next_id(archive),
        call_ensures(upgrade_with_identity, (archive, backup, identity), r),
    ensures
        archive.history@.contains_key(k) ==> k < r.archive.db_id,
        r.archive.history@.contains_key(k) <==> archive.history@.contains_key(k) || k == r.archive.db_id,
        r.backup.history@.contains_key(k) <==> backup.history@.contains_key(k) || k == r.archive.db_id,
        archive.history@.contains_key(k) && k != r.archive.db_id ==> r.archive.history@[k].db_id == archive.history@[k].db_id
            && r.archive.history@[k].db_version@ == archive.history@[k].db_version@,
        backup.history@.contains_key(k) && k != r.archive.db_id ==> r.backup.history@[k].db_id == backup.history@[k].db_id
            && r.backup.history@[k].db_version@ == backup.history@[k].db_version@,
        r.archive.history@[r.archive.db_id].db_id == identity.header.system_identifier,
        r.archive.history@[r.archive.db_id].db_version@ == identity.version@,
        r.backup.history@[r.archive.db_id].db_id == identity.header.system_identifier,
        r.backup.history@[r.archive.db_id].db_version@ == identity.version@,
        (exists|j: u32| #[trigger] archive.history@.contains_key(j)) ==> archive.history@.contains_key((r.archive.db_id - 1) as u32),
        (forall|j: u32| !#[trigger] archive.history@.contains_key(j)) ==> r.archive.db_id == archive.db_id + 1,
{
    let id = r.outcome.new_db_id;
    let entry = (identity.header.system_identifier, identity.version@);
    lemma_one_more(archive.history@, r.archive.history@, id, entry, k);
    lemma_one_more(archive.history@, r.archive.history@, id, entry, id);
    lemma_one_more(backup.history@, r.backup.history@, id, entry, k);
    lemma_one_more(backup.history@, r.backup.history@, id, entry, id);
    if archive.history@.contains_key(k) {
        assert(history::is_largest(archive.history@, (id - 1) as u32));
    }
}

proof fn lemma_one_more(before: Map<u32, DbHistoryEntry>, after: Map<u32, DbHistoryEntry>, id: u32, entry: (u64, Seq<char>), k: u32)
    requires
        history::record(after) == history::record(before).insert(id, entry),
    ensures
        after.contains_key(k) <==> before.contains_key(k) || k == id,
        k == id ==> after[k].db_id == entry.0 && after[k].db_version@ == entry.1,
        before.contains_key(k) && k != id ==> after[k].db_id == before[k].db_id && after[k].db_version@ == before[k].db_version@,
{
    assert(history::record(after).dom() =~= after.dom());
    assert(history::record(before).dom() =~= before.dom());
    assert(history::record(after).contains_key(k) <==> after.contains_key(k));
    assert(history::record(before).contains_key(k) <==> before.contains_key(k));
    if after.contains_key(k) {
        assert(history::record(after)[k] == (after[k].db_id, after[k].db_version@));
    }
    if before.contains_key(k) {
        assert(history::record(before)[k] == (before[k].db_id, before[k].db_version@));
    }
}

/// The number for the next cluster is one more than the largest that the archive's history
/// holds, than the active one where it holds none; beyond the largest number there is
/// none.
pub proof fn law_next_number(archive: &InfoArchive, largest: Option<u32>, r: Option<u32>)
    requires
        call_ensures(largest_id, (&archive.history,), largest),
        call_ensures(next_id, (archive,), r),
    ensures
        ({
            let last = match largest {
                Some(n) => n,
                None => archive.db_id,
            };
            &&& r is None <==> last == u32::MAX
            &&& r is Some ==> r.unwrap() == last + 1
        }),
{
    let last = match largest {
        Some(n) => n,
        None => archive.db_id,
    };
    assert(largest is Some ==> archive.history@.contains_key(largest.unwrap()));
    assert(is_last_id(*archive, last));
}

/// An upgrade needs both info files, and a repository that is encrypted just where the
/// options say so: one whose file begins with `Salted__`.
pub proof fn law_upgrade_needs_its_repository(
    files: (bool, bool),
    ready: Result<(), CommandError>,
    head: &Vec<u8>,
    marked: bool,
    cipher: &RepoCipherConfig,
    encrypted: bool,
    same: Result<(), CommandError>,
)
    requires
        call_ensures(require_initialized, (files.0, files.1), ready),
        call_ensures(info_file_is_encrypted, (head,), marked),
        call_ensures(crate::stanza::cipher::CipherType::is_encrypted, (&cipher.cipher_type,), encrypted),
        call_ensures(require_same_cipher, (head, cipher), same),
    ensures
        ready is Ok <==> files.0 && files.1,
        ready is Err ==> ready->Err_0.is_other("stanza not initialized; run stanza-create first"@),
        marked <==> head.len() >= 8 && head[0] == 'S' as u8 && head[1] == 'a' as u8 && head[2] == 'l' as u8 && head[3] == 't' as u8
            && head[4] == 'e' as u8 && head[5] == 'd' as u8 && head[6] == '_' as u8 && head[7] == '_' as u8,
        same is Ok <==> marked == encrypted,
        same is Err ==> same->Err_0.is_other(
            "repo-cipher-type does not match the existing repository; encryption must be set at stanza-create"@,
        ),
{
    assert('S' as u8 == 0x53 && 'a' as u8 == 0x61 && 'l' as u8 == 0x6c && 't' as u8 == 0x74);
    assert('e' as u8 == 0x65 && 'd' as u8 == 0x64 && '_' as u8 == 0x5f);
    let magic = cipher_magic();
    if head.len() >= 8 {
        let front = head@.take(8);
        assert(forall|i: int| 0 <= i < 8 ==> #[trigger] front[i] == head@[i]);
        if marked {
            assert(front[0] == magic[0] && front[1] == magic[1] && front[2] == magic[2] && front[3] == magic[3]);
            assert(front[4] == magic[4] && front[5] == magic[5] && front[6] == magic[6] && front[7] == magic[7]);
        }
        if head[0] == 0x53 && head[1] == 0x61 && head[2] == 0x6c && head[3] == 0x74 && head[4] == 0x65 && head[5] == 0x64 && head[6]
            == 0x5f && head[7] == 0x5f {
            assert(front =~= magic);
        }
    }
}

}
