//! One run of the `verify` command: the info files, then each backup, then the
//! archive.
use vstd::prelude::*;

use crate::text;
use crate::verify::report;
use crate::verify::info_files;
use crate::verify::backup;
use crate::verify::archive;
use crate::paths;
use crate::config::{require_stanza, CommandError, LoadedConfig};
use crate::info::{InfoArchive, InfoBackup, Manifest, ManifestFile};
use crate::paths::{backup_info_path, manifest_path};
use crate::restore::resolver::{load_error, LoadError};
use crate::verify::archive::{verify_archive, ArchiveEntry};
use crate::verify::backup::{plan_checks, verify_backup, CheckView, FileCheck, VerifyResult};
use crate::verify::info_files::{select_backups, verify_info_consistency};
use crate::verify::report::{ArchiveVerify, BackupVerify, ProblemView, VerifyReport};

verus! {

/// A report in which nothing has been checked yet but the info files.
pub open spec fn is_fresh(r: VerifyReport) -> bool {
    &&& r.backups_checked == 0
    &&& r.files_checked == 0
    &&& r.problems.len() == 0
    &&& r.backups.len() == 0
    &&& r.archive.total == 0
    &&& r.archive.valid == 0
    &&& r.archive.checksum_verified == 0
    &&& r.archive.presence_only == 0
    &&& r.archive.problems.len() == 0
}

/// How many files of the backups were checked.
pub open spec fn files_of(backups: Seq<BackupVerify>) -> nat
    decreases backups.len(),
{
    if backups.len() == 0 {
        0
    } else {
        files_of(backups.drop_last()) + backups.last().total as nat
    }
}

/// The lines on all problems of the backups.
pub open spec fn errors_of(backups: Seq<BackupVerify>) -> Seq<Seq<char>>
    decreases backups.len(),
{
    if backups.len() == 0 {
        Seq::<Seq<char>>::empty()
    } else {
        errors_of(backups.drop_last()) + text::texts(backups.last().errors@)
    }
}

/// A report of the first `done` of the backups `labels`: each of them is reported
/// once and in order, and the totals are those of the backups.
pub open spec fn reports_on(r: VerifyReport, labels: Seq<Seq<char>>, done: int) -> bool {
    &&& 0 <= done <= labels.len()
    &&& r.backups.len() == done
    &&& r.backups_checked == done
    &&& forall|i: int| 0 <= i < done ==> (#[trigger] r.backups[i]).label@ == labels[i]
    &&& r.files_checked == files_of(r.backups@)
    &&& report::problem_lines(report::problem_views(r.problems@)) == errors_of(r.backups@)
}

/// What was told of one backup.
pub struct BackupSeen {
    /// The files that its manifest records.
    pub files: Seq<ManifestFile>,
    /// Of each file to check whether it is there.
    pub exists_at: Seq<bool>,
    /// What reading those gave.
    pub results: Seq<(String, VerifyResult)>,
}

impl BackupSeen {
    /// The files of the backup `label` to check: all with a recorded digest.
    pub open spec fn checks(self, stanza: Seq<char>, label: Seq<char>, info: InfoBackup) -> Seq<CheckView> {
        backup::checks_of(stanza, label, info, self.files, self.files.len() as int)
    }

    /// Whether it was told of each of them whether it is there, and there is one result
    /// for each that is.
    pub open spec fn complete(self, stanza: Seq<char>, label: Seq<char>, info: InfoBackup) -> bool {
        &&& self.exists_at.len() == self.checks(stanza, label, info).len()
        &&& backup::one_result_each(self.checks(stanza, label, info), self.exists_at, self.results)
    }

    /// The problems of the backup.
    pub open spec fn problems(self, stanza: Seq<char>, label: Seq<char>, info: InfoBackup) -> Seq<ProblemView> {
        backup::backup_problems(label, self.checks(stanza, label, info), self.exists_at, self.results)
    }

    /// Whether the recorded file at place `f` was there.
    pub open spec fn was_there(self, stanza: Seq<char>, label: Seq<char>, info: InfoBackup, f: int) -> bool {
        exists|i: int|
            0 <= i < self.checks(stanza, label, info).len() && #[trigger] self.checks(stanza, label, info)[i]
                == backup::check_of(stanza, label, info, self.files[f]) && self.exists_at[i]
    }

    /// Whether no file after place `f` has a digest recorded for the same path.
    pub open spec fn last_recorded(self, f: int) -> bool {
        forall|k: int|
            f < k < self.files.len() && self.files[k].checksum is Some ==> (#[trigger] self.files[k]).path@
                != self.files[f].path@
    }
}

/// All problems of the first backups, one after the other.
pub open spec fn problems_seen(
    stanza: Seq<char>,
    info: InfoBackup,
    labels: Seq<Seq<char>>,
    seen: Seq<BackupSeen>,
) -> Seq<ProblemView>
    decreases seen.len(),
{
    if seen.len() == 0 {
        Seq::<ProblemView>::empty()
    } else {
        problems_seen(stanza, info, labels, seen.drop_last()) + seen.last().problems(stanza, labels[seen.len() - 1], info)
    }
}

/// Whether a report is that of what was told of the first backups: each of them in
/// full, with its files counted and its problems listed.
pub open spec fn reports_seen(
    r: VerifyReport,
    stanza: Seq<char>,
    info: InfoBackup,
    labels: Seq<Seq<char>>,
    seen: Seq<BackupSeen>,
) -> bool {
    &&& reports_on(r, labels, seen.len() as int)
    &&& report::problem_views(r.problems@) == problems_seen(stanza, info, labels, seen)
    &&& forall|b: int| 0 <= b < seen.len() ==> (#[trigger] seen[b]).complete(stanza, labels[b], info)
    &&& forall|b: int|
        0 <= b < seen.len() ==> (#[trigger] r.backups[b]).total == seen[b].checks(stanza, labels[b], info).len()
            && r.backups[b].valid == backup::clean_count(
            labels[b],
            seen[b].checks(stanza, labels[b], info),
            seen[b].exists_at,
            seen[b].results,
            seen[b].results.len() as int,
        )
}

/// A verification under way.
pub struct VerifyRun {
    stanza: String,
    info: InfoBackup,
    labels: Vec<String>,
    done: usize,
    planned: Option<Vec<FileCheck>>,
    report: VerifyReport,
    files: Ghost<Seq<ManifestFile>>,
    seen: Ghost<Seq<BackupSeen>>,
}

impl VerifyRun {
    #[verifier::type_invariant]
    spec fn inv(self) -> bool {
        &&& self.seen@.len() == self.done
        &&& reports_seen(self.report, self.stanza@, self.info, text::texts(self.labels@), self.seen@)
        &&& self.planned matches Some(checks) ==> {
            &&& self.done < self.labels.len()
            &&& backup::check_views(checks@) == self.checks()
        }
    }

    /// The stanza that is verified.
    pub closed spec fn stanza(self) -> Seq<char> {
        self.stanza@
    }

    /// What `backup.info` records.
    pub closed spec fn info(self) -> InfoBackup {
        self.info
    }

    /// The backups to check.
    pub closed spec fn labels(self) -> Seq<Seq<char>> {
        text::texts(self.labels@)
    }

    /// How many of them have been checked.
    pub closed spec fn done(self) -> int {
        self.done as int
    }

    /// The files that the manifest of the next backup records, once it was told.
    pub closed spec fn files(self) -> Option<Seq<ManifestFile>> {
        if self.planned is Some {
            Some(self.files@)
        } else {
            None
        }
    }

    /// The files of the next backup to check, once its manifest was told.
    pub open spec fn checks(self) -> Seq<CheckView> {
        backup::checks_of(
            self.stanza(),
            self.labels()[self.done()],
            self.info(),
            self.files().unwrap(),
            self.files().unwrap().len() as int,
        )
    }

    /// What was told of the backups that have been checked.
    pub closed spec fn seen(self) -> Seq<BackupSeen> {
        self.seen@
    }

    /// What was found so far.
    pub closed spec fn report(self) -> VerifyReport {
        self.report
    }

    /// Starts a run, once the two info files were loaded or failed to be. Only
    /// `backup.info` is needed: what is wrong with `archive.info` is noted.
    pub fn start(
        config: &LoadedConfig,
        backup: Result<InfoBackup, LoadError>,
        archive: &Result<InfoArchive, LoadError>,
    ) -> (r: Result<VerifyRun, CommandError>)
        ensures
            match (config.stanza, backup) {
                (None, _) => r matches Err(e) && e.is_missing("stanza"@),
                (Some(s), Err(LoadError::NotFound)) => r matches Err(e) && e.is_not_found(paths::backup_info_at(s@)),
                (Some(s), Err(LoadError::Unusable(m))) => r matches Err(e) && e.is_other(m@),
                (Some(s), Ok(info)) => {
                    &&& r matches Ok(run)
                    &&& run.stanza() == s@
                    &&& run.info() == info
                    &&& run.labels() == info_files::labels_of(*config, info)
                    &&& run.done() == 0
                    &&& run.files() is None
                    &&& run.seen().len() == 0
                    &&& is_fresh(run.report())
                    &&& text::texts(run.report().info_problems@) == info_files::notes_of(*archive, info)
                },
            },
    {
        let stanza = match require_stanza(config) {
            Ok(s) => s,
            Err(e) => return Err(e),
        };
        let info = match backup {
            Ok(info) => info,
            Err(err) => return Err(load_error(err, backup_info_path(stanza))),
        };
        let info_problems = verify_info_consistency(archive, &info);
        let labels = select_backups(config, &info);
        let report = VerifyReport {
            backups_checked: 0,
            files_checked: 0,
            problems: Vec::new(),
            backups: Vec::new(),
            archive: ArchiveVerify {
                total: 0,
                valid: 0,
                checksum_verified: 0,
                presence_only: 0,
                problems: Vec::new(),
            },
            info_problems,
        };
        assert(report::problem_lines(report::problem_views(report.problems@)) =~= errors_of(report.backups@));
        assert(report::problem_views(report.problems@) =~= Seq::<ProblemView>::empty());
        Ok(
            VerifyRun {
                stanza: stanza.to_owned(),
                info,
                labels,
                done: 0,
                planned: None,
                report,
                files: Ghost(Seq::empty()),
                seen: Ghost(Seq::empty()),
            },
        )
    }

    /// How many files have been checked.
    pub fn files_checked(&self) -> (r: usize)
        ensures
            r == self.report().files_checked,
    {
        self.report.files_checked
    }

    /// The next backup to check; none where all have been.
    pub fn next_label(&self) -> (r: Option<&str>)
        ensures
            if self.done() < self.labels().len() {
                r matches Some(l) && l@ == self.labels()[self.done()]
            } else {
                r is None && self.done() == self.labels().len()
            },
    {
        proof {
            use_type_invariant(self);
        }
        if self.done < self.labels.len() {
            Some(self.labels[self.done].as_str())
        } else {
            None
        }
    }

    /// Where the manifest of the next backup lies.
    pub fn next_manifest(&self) -> (r: Option<String>)
        ensures
            if self.done() < self.labels().len() {
                r matches Some(p) && p@ == paths::manifest_at(self.stanza(), self.labels()[self.done()])
            } else {
                r is None && self.done() == self.labels().len()
            },
    {
        match self.next_label() {
            Some(label) => Some(manifest_path(self.stanza.as_str(), label)),
            None => None,
        }
    }

    /// Takes up the manifest of the next backup, or that it could not be loaded.
    pub fn told_manifest(self, loaded: Result<Manifest, LoadError>) -> (r: Result<VerifyRun, CommandError>)
        requires
            self.done() < self.labels().len(),
        ensures
            match loaded {
                Err(LoadError::NotFound) => r matches Err(e) && e.is_not_found(
                    paths::manifest_at(self.stanza(), self.labels()[self.done()]),
                ),
                Err(LoadError::Unusable(m)) => r matches Err(e) && e.is_other(m@),
                Ok(manifest) => {
                    &&& r matches Ok(run)
                    &&& run.stanza() == self.stanza()
                    &&& run.info() == self.info()
                    &&& run.labels() == self.labels()
                    &&& run.done() == self.done()
                    &&& run.files() == Some(manifest.files@)
                    &&& run.seen() == self.seen()
                    &&& run.report() == self.report()
                },
            },
    {
        proof {
            use_type_invariant(&self);
        }
        let VerifyRun { stanza, info, labels, done, planned: _, report, files: _, seen } = self;
        let label = labels[done].as_str();
        match loaded {
            Ok(manifest) => {
                let checks = plan_checks(stanza.as_str(), label, &info, &manifest);
                let files = Ghost(manifest.files@);
                Ok(VerifyRun { stanza, info, labels, done, planned: Some(checks), report, files, seen })
            },
            Err(err) => Err(load_error(err, manifest_path(stanza.as_str(), label))),
        }
    }

    /// The files of the next backup to check, in the order of its manifest; none before
    /// it was told.
    pub fn next_checks(&self) -> (r: Option<&Vec<FileCheck>>)
        ensures
            r is Some <==> self.files() is Some,
            r matches Some(checks) ==> backup::check_views(checks@) == self.checks(),
    {
        proof {
            use_type_invariant(self);
        }
        match &self.planned {
            Some(checks) => Some(checks),
            None => None,
        }
    }

    /// Takes up what was found of the next backup: of each file to check whether it
    /// is there, and the results of reading those that are, one for each.
    pub fn backup_checked(
        self,
        exists_at: &Vec<bool>,
        results: &Vec<(String, VerifyResult)>,
    ) -> (r: Result<VerifyRun, CommandError>)
        requires
            self.files() is Some,
            exists_at.len() == self.checks().len(),
            self.report().files_checked + self.checks().len() <= usize::MAX,
            backup::first_unknown(self.checks(), exists_at@, results@, 0) is None ==> backup::one_result_each(
                self.checks(),
                exists_at@,
                results@,
            ),
        ensures
            match backup::first_unknown(self.checks(), exists_at@, results@, 0) {
                Some(i) => r matches Err(e) && e.is_other(
                    "verify result for unknown file `"@ + results[i].0@ + "` in backup `"@ + self.labels()[self.done()]
                        + "`"@,
                ),
                None => {
                    let label = self.labels()[self.done()];
                    let found = backup::backup_problems(label, self.checks(), exists_at@, results@);
                    &&& r matches Ok(run)
                    &&& run.stanza() == self.stanza()
                    &&& run.info() == self.info()
                    &&& run.labels() == self.labels()
                    &&& run.done() == self.done() + 1
                    &&& run.files() is None
                    &&& run.seen() == self.seen().push(
                        BackupSeen { files: self.files().unwrap(), exists_at: exists_at@, results: results@ },
                    )
                    &&& run.report().archive == self.report().archive
                    &&& run.report().info_problems == self.report().info_problems
                    &&& run.report().files_checked == self.report().files_checked + self.checks().len()
                    &&& report::problem_views(run.report().problems@) == report::problem_views(self.report().problems@) + found
                    &&& run.report().backups.len() == self.report().backups.len() + 1
                    &&& report::keeps(self.report().backups@, run.report().backups@)
                    &&& run.report().backups@.last().total == self.checks().len()
                    &&& run.report().backups@.last().valid == backup::clean_count(
                        label,
                        self.checks(),
                        exists_at@,
                        results@,
                        results.len() as int,
                    )
                    &&& text::texts(run.report().backups@.last().errors@) == report::problem_lines(found)
                },
            },
    {
        proof {
            use_type_invariant(&self);
        }
        let ghost before = self.report;
        let ghost names = text::texts(self.labels@);
        let ghost model = self.checks();
        let ghost told = BackupSeen { files: self.files@, exists_at: exists_at@, results: results@ };
        let VerifyRun { stanza, info, labels, done, planned, report, files: _, seen } = self;
        let ghost prior = seen@;
        let checks = match planned {
            Some(checks) => checks,
            None => Vec::new(),
        };
        proof {
            assert(names.len() == labels@.len());
            assert(labels.len() <= usize::MAX);
            assert(backup::check_views(checks@) == model);
            assert(checks.len() == model.len());
        }
        let after = match verify_backup(report, labels[done].as_str(), &checks, exists_at, results) {
            Ok(report) => report,
            Err(e) => return Err(e),
        };
        proof {
            let more = prior.push(told);
            let found = backup::backup_problems(names[done as int], model, exists_at@, results@);
            assert(after.backups@.drop_last() =~= before.backups@);
            assert(report::problem_lines(report::problem_views(after.problems@)) =~= report::problem_lines(report::problem_views(before.problems@))
                + report::problem_lines(found));
            assert forall|i: int| 0 <= i < done + 1 implies (#[trigger] after.backups[i]).label@ == names[i] by {
                if i < done {
                    assert(after.backups[i] == before.backups[i]);
                }
            }
            assert(more.drop_last() =~= prior);
            assert forall|b: int| 0 <= b < more.len() implies (#[trigger] more[b]).complete(stanza@, names[b], info) by {
                if b < done {
                    assert(more[b] == prior[b]);
                }
            }
            assert forall|b: int| 0 <= b < more.len() implies (#[trigger] after.backups[b]).total == more[b].checks(
                stanza@,
                names[b],
                info,
            ).len() && after.backups[b].valid == backup::clean_count(
                names[b],
                more[b].checks(stanza@, names[b], info),
                more[b].exists_at,
                more[b].results,
                more[b].results.len() as int,
            ) by {
                if b < done {
                    assert(after.backups[b] == before.backups[b]);
                    assert(more[b] == prior[b]);
                }
            }
        }
        Ok(
            VerifyRun {
                stanza,
                info,
                labels,
                done: done + 1,
                planned: None,
                report: after,
                files: Ghost(Seq::empty()),
                seen: Ghost(prior.push(told)),
            },
        )
    }

    /// Ends the run, once all backups have been checked, with what the archive holds: a
    /// list without anything in it where there is no archive.
    pub fn finish(self, entries: &Vec<ArchiveEntry>) -> (r: VerifyReport)
        requires
            self.done() == self.labels().len(),
        ensures
            r.archive@ == archive::archive_of(entries@),
            r.backups == self.report().backups,
            r.problems == self.report().problems,
            r.info_problems == self.report().info_problems,
            r.backups_checked == self.report().backups_checked,
            r.files_checked == self.report().files_checked,
            self.seen().len() == self.labels().len(),
            reports_seen(r, self.stanza(), self.info(), self.labels(), self.seen()),
    {
        proof {
            use_type_invariant(&self);
        }
        let VerifyRun { stanza, info, labels, done, planned, report, files, seen } = self;
        let VerifyReport { backups_checked, files_checked, problems, backups, archive, info_problems } = report;
        VerifyReport { backups_checked, files_checked, problems, backups, archive: verify_archive(entries), info_problems }
    }
}

/// A report without a problem with files means that all of them are as they were
/// recorded: every file with a recorded digest, of every backup that was to be checked,
/// was there and was read with the recorded size and digest. Where a manifest records a
/// path more than once, its last record says what the file is held against.
pub proof fn law_no_problem_means_every_file_intact(
    r: VerifyReport,
    stanza: Seq<char>,
    info: InfoBackup,
    labels: Seq<Seq<char>>,
    seen: Seq<BackupSeen>,
)
    requires
        reports_seen(r, stanza, info, labels, seen),
        seen.len() == labels.len(),
        r.problems.len() == 0,
    ensures
        forall|b: int, f: int|
            0 <= b < labels.len() && 0 <= f < seen[b].files.len() && seen[b].files[f].checksum is Some ==> {
                &&& #[trigger] seen[b].was_there(stanza, labels[b], info, f)
                &&& seen[b].last_recorded(f) ==> backup::intact(
                    backup::check_of(stanza, labels[b], info, seen[b].files[f]),
                    seen[b].results,
                )
            },
{
    assert(report::problem_views(r.problems@).len() == 0);
    assert forall|b: int, f: int| 0 <= b < labels.len() && 0 <= f < seen[b].files.len() && seen[b].files[f].checksum is Some implies {
        &&& #[trigger] seen[b].was_there(stanza, labels[b], info, f)
        &&& seen[b].last_recorded(f) ==> backup::intact(
            backup::check_of(stanza, labels[b], info, seen[b].files[f]),
            seen[b].results,
        )
    } by {
        let one = seen[b];
        let label = labels[b];
        let checks = one.checks(stanza, label, info);
        lemma_no_problem_seen(stanza, info, labels, seen, b);
        assert(one.complete(stanza, label, info));
        backup::law_no_problem_means_all_intact(label, checks, one.exists_at, one.results);
        let i = backup::lemma_checked(stanza, label, info, one.files, one.files.len() as int, f);
        assert(one.exists_at[i]);
        if one.last_recorded(f) {
            assert(backup::last_of_path(checks, i));
        }
    }
}

/// The backups are all clean where their problems taken together are none.
proof fn lemma_no_problem_seen(stanza: Seq<char>, info: InfoBackup, labels: Seq<Seq<char>>, seen: Seq<BackupSeen>, b: int)
    requires
        problems_seen(stanza, info, labels, seen).len() == 0,
        0 <= b < seen.len(),
    ensures
        seen[b].problems(stanza, labels[b], info).len() == 0,
    decreases seen.len(),
{
    if b < seen.len() - 1 {
        lemma_no_problem_seen(stanza, info, labels, seen.drop_last(), b);
    }
}

/// The problems with files are those that the backups list, in the same order.
pub proof fn law_problems_are_listed(r: VerifyReport, labels: Seq<Seq<char>>)
    requires
        reports_on(r, labels, labels.len() as int),
    ensures
        r.problems.len() == errors_of(r.backups@).len(),
        forall|i: int| 0 <= i < r.problems.len() ==> (#[trigger] r.problems[i])@.line() == errors_of(r.backups@)[i],
{
    let lines = report::problem_lines(report::problem_views(r.problems@));
    assert forall|i: int| 0 <= i < r.problems.len() implies (#[trigger] r.problems[i])@.line() == errors_of(r.backups@)[i] by {
        assert(lines[i] == r.problems[i]@.line());
    }
}

/// A verification starts on the backups that are to be checked, with the notes on the info
/// files and nothing else found.
pub proof fn law_run_starts_on_the_backups(
    config: &LoadedConfig,
    info: InfoBackup,
    archive: &Result<InfoArchive, LoadError>,
    labels: Vec<String>,
    notes: Vec<String>,
    r: Result<VerifyRun, CommandError>,
)
    requires
        call_ensures(VerifyRun::start, (config, Ok::<InfoBackup, LoadError>(info), archive), r),
        call_ensures(select_backups, (config, &info), labels),
        call_ensures(verify_info_consistency, (archive, &info), notes),
    ensures
        r is Ok <==> config.stanza is Some,
        r is Err ==> r->Err_0.is_missing("stanza"@),
        r is Ok ==> {
            &&& r->Ok_0.stanza() == config.stanza.unwrap()@
            &&& r->Ok_0.labels() == text::texts(labels@)
            &&& text::texts(r->Ok_0.report().info_problems@) == text::texts(notes@)
            &&& r->Ok_0.done() == 0
            &&& r->Ok_0.seen().len() == 0
            &&& r->Ok_0.report().problems.len() == 0
            &&& r->Ok_0.report().files_checked == 0
            &&& r->Ok_0.report().archive.problems.len() == 0
            &&& r->Ok_0.report().archive.total == 0 && r->Ok_0.report().archive.valid == 0
            &&& r->Ok_0.report().archive.checksum_verified == 0 && r->Ok_0.report().archive.presence_only == 0
            &&& r->Ok_0.report().backups.len() == 0 && r->Ok_0.report().backups_checked == 0
        },
{
}

/// The backups are taken one by one in their order: each with the manifest that lies below
/// its label, and with the checks that this manifest gives.
pub proof fn law_backups_in_order(
    run: VerifyRun,
    label: Option<&str>,
    path: Option<String>,
    manifest: Manifest,
    told: Result<VerifyRun, CommandError>,
    info: &InfoBackup,
    stanza: &str,
    checks: Vec<FileCheck>,
    next: Option<&Vec<FileCheck>>,
)
    requires
        run.done() < run.labels().len(),
        call_ensures(VerifyRun::next_label, (&run,), label),
        call_ensures(VerifyRun::next_manifest, (&run,), path),
        call_ensures(VerifyRun::told_manifest, (run, Ok::<Manifest, LoadError>(manifest)), told),
        *info == run.info(),
        stanza@ == run.stanza(),
        label is Some ==> call_ensures(plan_checks, (stanza, label.unwrap(), info, &manifest), checks),
        told is Ok ==> call_ensures(VerifyRun::next_checks, (&told->Ok_0,), next),
    ensures
        label is Some && label.unwrap()@ == run.labels()[run.done()],
        path is Some && path.unwrap()@ == "backup/"@ + stanza@ + "/"@ + label.unwrap()@ + "/backup.manifest"@,
        told is Ok && told->Ok_0.done() == run.done() && told->Ok_0.report() == run.report(),
        next is Some && next.unwrap().len() == checks.len(),
        forall|i: int| 0 <= i < checks.len() ==> (#[trigger] next.unwrap()[i])@ == checks[i]@,
{
    let a = backup::check_views(next.unwrap()@);
    let b = backup::check_views(checks@);
    assert(a == b);
    assert(a.len() == next.unwrap().len() && b.len() == checks.len());
    assert forall|i: int| 0 <= i < checks.len() implies (#[trigger] next.unwrap()[i])@ == checks[i]@ by {
        assert(a[i] == b[i]);
    }
}

/// What was found of a backup is what its check says, added to what was found before it,
/// and the next backup is up.
pub proof fn law_backup_is_added(
    run: VerifyRun,
    checks: &Vec<FileCheck>,
    label: &str,
    exists_at: &Vec<bool>,
    results: &Vec<(String, VerifyResult)>,
    checked: Result<VerifyReport, CommandError>,
    r: Result<VerifyRun, CommandError>,
)
    requires
        run.files() is Some,
        run.report().backups_checked < usize::MAX,
        backup::check_views(checks@) == run.checks(),
        label@ == run.labels()[run.done()],
        exists_at.len() == checks.len(),
        run.report().files_checked + checks.len() <= usize::MAX,
        call_ensures(verify_backup, (run.report(), label, checks, exists_at, results), checked),
        call_ensures(VerifyRun::backup_checked, (run, exists_at, results), r),
    ensures
        r is Ok <==> checked is Ok,
        r is Ok ==> {
            let a = r->Ok_0.report();
            let b = checked->Ok_0;
            &&& r->Ok_0.done() == run.done() + 1
            &&& report::problem_views(a.problems@) == report::problem_views(b.problems@)
            &&& a.files_checked == b.files_checked
            &&& a.backups.len() == b.backups.len()
            &&& a.backups@.last().valid == b.backups@.last().valid
            &&& a.backups@.last().total == b.backups@.last().total
            &&& text::texts(a.backups@.last().errors@) == text::texts(b.backups@.last().errors@)
        },
{
    assert(backup::check_views(checks@).len() == checks.len());
}

/// At the end what was found of the archive joins what was found of the backups, which
/// stays as it was.
pub proof fn law_archive_joins_the_report(run: VerifyRun, entries: &Vec<ArchiveEntry>, a: ArchiveVerify, r: VerifyReport)
    requires
        run.done() == run.labels().len(),
        call_ensures(verify_archive, (entries,), a),
        call_ensures(VerifyRun::finish, (run, entries), r),
    ensures
        r.archive.total == a.total && r.archive.valid == a.valid && r.archive.checksum_verified == a.checksum_verified
            && r.archive.presence_only == a.presence_only,
        r.archive.problems.len() == a.problems.len(),
        forall|i: int| 0 <= i < a.problems.len() ==> (#[trigger] r.archive.problems[i])@ == a.problems[i]@,
        r.backups == run.report().backups && r.problems == run.report().problems && r.info_problems == run.report().info_problems,
        r.files_checked == run.report().files_checked && r.backups_checked == run.report().backups_checked,
        r.backups_checked == run.labels().len(),
{
    assert(r.archive@ == a@);
    let v = report::archive_problem_views(r.archive.problems@);
    let w = report::archive_problem_views(a.problems@);
    assert(v == w);
    assert(v.len() == r.archive.problems.len() && w.len() == a.problems.len());
    assert forall|i: int| 0 <= i < a.problems.len() implies (#[trigger] r.archive.problems[i])@ == a.problems[i]@ by {
        assert(v[i] == w[i]);
    }
}

/// Each backup that is added counts with all its files, and with all its problems, which
/// are listed behind those of the backups before it.
pub proof fn law_totals_grow_by_a_backup(
    backups: Seq<BackupVerify>,
    b: BackupVerify,
    stanza: Seq<char>,
    info: InfoBackup,
    labels: Seq<Seq<char>>,
    seen: Seq<BackupSeen>,
    s: BackupSeen,
)
    ensures
        files_of(Seq::<BackupVerify>::empty()) == 0,
        files_of(backups.push(b)) == files_of(backups) + b.total,
        errors_of(Seq::<BackupVerify>::empty()).len() == 0,
        errors_of(backups.push(b)) == errors_of(backups) + text::texts(b.errors@),
        problems_seen(stanza, info, labels, Seq::<BackupSeen>::empty()).len() == 0,
        problems_seen(stanza, info, labels, seen.push(s)) == problems_seen(stanza, info, labels, seen) + s.problems(
            stanza,
            labels[seen.len() as int],
            info,
        ),
{
    assert(backups.push(b).drop_last() =~= backups);
    assert(seen.push(s).drop_last() =~= seen);
}

/// What a run goes by, and what it found before, is not changed by a further backup.
pub proof fn law_earlier_backups_stay(
    run: VerifyRun,
    exists_at: &Vec<bool>,
    results: &Vec<(String, VerifyResult)>,
    r: Result<VerifyRun, CommandError>,
    i: int,
)
    requires
        call_ensures(VerifyRun::backup_checked, (run, exists_at, results), r),
        r is Ok,
    ensures
        r->Ok_0.stanza() == run.stanza(),
        r->Ok_0.info() == run.info(),
        r->Ok_0.labels() == run.labels(),
        r->Ok_0.files() is None,
        r->Ok_0.report().archive == run.report().archive,
        r->Ok_0.report().info_problems == run.report().info_problems,
        0 <= i < run.report().backups.len() ==> r->Ok_0.report().backups[i] == run.report().backups[i],
        r->Ok_0.seen().len() == run.seen().len() + 1,
        0 <= i < run.seen().len() ==> r->Ok_0.seen()[i] == run.seen()[i],
        r->Ok_0.seen()[run.seen().len() as int].files == run.files().unwrap(),
        r->Ok_0.seen()[run.seen().len() as int].exists_at == exists_at@,
        r->Ok_0.seen()[run.seen().len() as int].results == results@,
{
}

/// The report of a whole run holds each selected backup, in their order.
pub proof fn law_each_selected_backup_is_reported(run: VerifyRun, entries: &Vec<ArchiveEntry>, r: VerifyReport, n: usize, i: int)
    requires
        run.done() == run.labels().len(),
        call_ensures(VerifyRun::finish, (run, entries), r),
        call_ensures(VerifyRun::files_checked, (&run,), n),
        0 <= i < run.labels().len(),
    ensures
        n == r.files_checked,
        r.backups.len() == run.labels().len(),
        r.backups[i].label@ == run.labels()[i],
        r.backups[i].total == run.seen()[i].checks(run.stanza(), run.labels()[i], run.info()).len(),
{
}

}
