//! Verifying that the info files agree, and which backups they name.
use vstd::prelude::*;

use crate::text;
use crate::history;
use crate::config;
use crate::config::LoadedConfig;
use crate::history::same_history;
use crate::info::{InfoArchive, InfoBackup};
use crate::restore::resolver::LoadError;
use crate::restore::select::requested_set;
use crate::text::{print_unsigned, text_eq};

verus! {

/// The labels of the backups to check: the one that was asked for, else all.
pub open spec fn labels_of(config: LoadedConfig, info: InfoBackup) -> Seq<Seq<char>> {
    match config::string_of(config.option("set"@, None)) {
        Some(label) => seq![label],
        None => info.current.keys(),
    }
}

/// The labels of the backups to check: the one that was asked for, whether or not
/// it is current, else all current ones.
pub fn select_backups(config: &LoadedConfig, info: &InfoBackup) -> (r: Vec<String>)
    ensures
        text::texts(r@) == labels_of(*config, *info),
{
    let mut out: Vec<String> = Vec::new();
    if let Some(label) = requested_set(config) {
        out.push(label.to_owned());
        assert(text::texts(out@) =~= seq![label@]);
        return out;
    }
    let n: usize = info.current.len();
    let mut i: usize = 0;
    while i < n
        invariant
            i <= n,
            n == info.current.keys().len(),
            text::texts(out@) == info.current.keys().take(i as int),
        decreases n - i,
    {
        let ghost before = text::texts(out@);
        out.push(info.current.key_at(i).clone());
        assert(text::texts(out@) =~= before.push(info.current.keys()[i as int]));
        assert(text::texts(out@) =~= info.current.keys().take(i as int + 1));
        i += 1;
    }
    assert(info.current.keys().take(n as int) =~= info.current.keys());
    out
}

/// An identity as the note on a disagreement writes it.
pub open spec fn identity_text(db_id: u32, system_id: u64, version: Seq<char>) -> Seq<char> {
    "db-id="@ + text::decimal(db_id as nat) + " system-id="@ + text::decimal(system_id as nat) + " version="@ + version
}

/// The note on two info files that name different clusters.
pub open spec fn identity_note(archive: InfoArchive, backup: InfoBackup) -> Seq<char> {
    "backup info db mismatch: backup.info "@ + identity_text(backup.db_id, backup.db_system_id, backup.db_version@)
        + " but archive.info "@ + identity_text(archive.db_id, archive.db_system_id, archive.db_version@)
}

/// Whether two info files name the same active cluster.
pub open spec fn same_cluster(archive: InfoArchive, backup: InfoBackup) -> bool {
    archive.db_id == backup.db_id && archive.db_system_id == backup.db_system_id && archive.db_version@
        == backup.db_version@
}

/// What is wrong with the info files.
pub open spec fn notes_of(archive: Result<InfoArchive, LoadError>, backup: InfoBackup) -> Seq<Seq<char>> {
    match archive {
        Err(LoadError::NotFound) => seq![
            "archive.info is missing; skipping archive/backup history consistency check"@,
        ],
        Err(LoadError::Unusable(m)) => seq!["archive.info is unusable: "@ + m@],
        Ok(a) => (if same_cluster(a, backup) {
            Seq::<Seq<char>>::empty()
        } else {
            seq![identity_note(a, backup)]
        }) + (if history::record(a.history@) == history::record(backup.history@) {
            Seq::<Seq<char>>::empty()
        } else {
            seq!["archive and backup history lists do not match"@]
        }),
    }
}

fn push_identity(out: &mut String, db_id: u32, system_id: u64, version: &str)
    ensures
        final(out)@ == old(out)@ + identity_text(db_id, system_id, version@),
{
    out.append("db-id=");
    out.append(print_unsigned(db_id as u64).as_str());
    out.append(" system-id=");
    out.append(print_unsigned(system_id).as_str());
    out.append(" version=");
    out.append(version);
    assert(out@ =~= old(out)@ + identity_text(db_id, system_id, version@));
}

/// What is wrong with the info files, once `archive.info` was loaded or failed to
/// be. A missing one is noted, not an error: a repository may hold backups only.
pub fn verify_info_consistency(archive: &Result<InfoArchive, LoadError>, backup: &InfoBackup) -> (r: Vec<String>)
    ensures
        text::texts(r@) == notes_of(*archive, *backup),
{
    let mut out: Vec<String> = Vec::new();
    let ghost empty = text::texts(out@);
    assert(empty =~= Seq::<Seq<char>>::empty());
    match archive {
        Err(LoadError::NotFound) => {
            out.push("archive.info is missing; skipping archive/backup history consistency check".to_owned());
            assert(text::texts(out@) =~= notes_of(*archive, *backup));
        },
        Err(LoadError::Unusable(m)) => {
            let mut note = "archive.info is unusable: ".to_owned();
            note.append(m.as_str());
            out.push(note);
            assert(text::texts(out@) =~= notes_of(*archive, *backup));
        },
        Ok(a) => {
            if a.db_id != backup.db_id || a.db_system_id != backup.db_system_id || !text_eq(
                a.db_version.as_str(),
                backup.db_version.as_str(),
            ) {
                let mut note = "backup info db mismatch: backup.info ".to_owned();
                push_identity(&mut note, backup.db_id, backup.db_system_id, backup.db_version.as_str());
                note.append(" but archive.info ");
                push_identity(&mut note, a.db_id, a.db_system_id, a.db_version.as_str());
                assert(note@ =~= identity_note(*a, *backup));
                out.push(note);
                assert(text::texts(out@) =~= seq![identity_note(*a, *backup)]);
            }
            let ghost before = text::texts(out@);
            if !same_history(&a.history, &backup.history) {
                out.push("archive and backup history lists do not match".to_owned());
                assert(text::texts(out@) =~= before.push("archive and backup history lists do not match"@));
            }
            assert(text::texts(out@) =~= notes_of(*archive, *backup));
        },
    }
    out
}

/// Info files that name the same clusters give no note.
pub proof fn law_agreeing_files_are_clean(a: InfoArchive, backup: InfoBackup)
    ensures
        notes_of(Ok(a), backup).len() == 0 <==> same_cluster(a, backup) && history::record(a.history@) == history::record(backup.history@),
{
}

/// The one backup that was asked for is checked, current or not; without one, all current
/// backups are, in the order of their labels.
pub proof fn law_which_backups_are_checked(config: &LoadedConfig, info: &InfoBackup, set: Option<&str>, r: Vec<String>)
    requires
        call_ensures(requested_set, (config,), set),
        call_ensures(select_backups, (config, info), r),
    ensures
        set is Some ==> r.len() == 1 && r[0]@ == set.unwrap()@,
        set is None ==> r.len() == info.current.keys().len() && forall|i: int|
            0 <= i < r.len() ==> (#[trigger] r[i])@ == info.current.keys()[i],
{
    let v = text::texts(r@);
    assert(v.len() == r.len());
    assert(set is Some ==> v[0] == r[0]@);
    assert forall|i: int| set is None && 0 <= i < r.len() implies (#[trigger] r[i])@ == info.current.keys()[i] by {
        assert(v[i] == r[i]@);
    }
}

/// The two info files agree where they name the same active cluster, by number, system
/// identifier and version, and the same history. Each of the two that does not hold gives
/// one note; an `archive.info` that is missing or cannot be used gives one note alone.
pub proof fn law_notes_on_the_info_files(archive: &Result<InfoArchive, LoadError>, backup: &InfoBackup, same: bool, r: Vec<String>)
    requires
        call_ensures(verify_info_consistency, (archive, backup), r),
        *archive is Ok ==> call_ensures(same_history, (&(*archive)->Ok_0.history, &backup.history), same),
    ensures
        match *archive {
            Err(LoadError::NotFound) => r.len() == 1 && r[0]@
                == "archive.info is missing; skipping archive/backup history consistency check"@,
            Err(LoadError::Unusable(m)) => r.len() == 1 && r[0]@ == "archive.info is unusable: "@ + m@,
            Ok(a) => {
                let agree = a.db_id == backup.db_id && a.db_system_id == backup.db_system_id && a.db_version@ == backup.db_version@;
                let note = "backup info db mismatch: backup.info db-id="@ + text::decimal(backup.db_id as nat) + " system-id="@
                    + text::decimal(backup.db_system_id as nat) + " version="@ + backup.db_version@ + " but archive.info db-id="@
                    + text::decimal(a.db_id as nat) + " system-id="@ + text::decimal(a.db_system_id as nat) + " version="@
                    + a.db_version@;
                let other = "archive and backup history lists do not match"@;
                &&& agree && same ==> r.len() == 0
                &&& !agree && same ==> r.len() == 1 && r[0]@ == note
                &&& agree && !same ==> r.len() == 1 && r[0]@ == other
                &&& !agree && !same ==> r.len() == 2 && r[0]@ == note && r[1]@ == other
            },
        },
{
    let v = text::texts(r@);
    assert(v.len() == r.len());
    assert(v == notes_of(*archive, *backup));
    assert(r.len() > 0 ==> v[0] == r[0]@);
    assert(r.len() > 1 ==> v[1] == r[1]@);
    if let Ok(a) = *archive {
        reveal_strlit("backup info db mismatch: backup.info ");
        reveal_strlit("db-id=");
        reveal_strlit("backup info db mismatch: backup.info db-id=");
        reveal_strlit(" but archive.info ");
        reveal_strlit(" but archive.info db-id=");
        let front = "backup info db mismatch: backup.info "@ + "db-id="@;
        let middle = " but archive.info "@ + "db-id="@;
        assert(front =~= "backup info db mismatch: backup.info db-id="@);
        assert(middle =~= " but archive.info db-id="@);
        let note = "backup info db mismatch: backup.info db-id="@ + text::decimal(backup.db_id as nat) + " system-id="@
            + text::decimal(backup.db_system_id as nat) + " version="@ + backup.db_version@ + " but archive.info db-id="@
            + text::decimal(a.db_id as nat) + " system-id="@ + text::decimal(a.db_system_id as nat) + " version="@ + a.db_version@;
        assert(identity_note(a, *backup) =~= front + text::decimal(backup.db_id as nat) + " system-id="@ + text::decimal(
            backup.db_system_id as nat,
        ) + " version="@ + backup.db_version@ + middle + text::decimal(a.db_id as nat) + " system-id="@ + text::decimal(
            a.db_system_id as nat,
        ) + " version="@ + a.db_version@);
        assert(identity_note(a, *backup) == note);
    }
}

}
