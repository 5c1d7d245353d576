//! What a verification found, and how it is reported.
use vstd::prelude::*;

use crate::text;
use crate::config::CommandError;
use crate::text::{cat3, print_unsigned};

verus! {

/// Something wrong with a file of a backup.
#[allow(inconsistent_fields)]
#[derive(Debug, Clone, PartialEq, Eq)]
pub enum VerifyProblem {
    /// It is not there.
    MissingFile { backup: String, path: String },
    /// Its digest is not the recorded one.
    ChecksumMismatch { backup: String, path: String, expected: String, actual: String },
    /// Its size is not the recorded one.
    SizeMismatch { backup: String, path: String, expected: u64, actual: u64 },
}

/// The contents of a [`VerifyProblem`].
#[allow(inconsistent_fields)]
pub enum ProblemView {
    MissingFile { backup: Seq<char>, path: Seq<char> },
    ChecksumMismatch { backup: Seq<char>, path: Seq<char>, expected: Seq<char>, actual: Seq<char> },
    SizeMismatch { backup: Seq<char>, path: Seq<char>, expected: u64, actual: u64 },
}

impl View for VerifyProblem {
    type V = ProblemView;

    open spec fn view(&self) -> ProblemView {
        match *self {
            VerifyProblem::MissingFile { backup, path } => ProblemView::MissingFile { backup: backup@, path: path@ },
            VerifyProblem::ChecksumMismatch { backup, path, expected, actual } => ProblemView::ChecksumMismatch {
                backup: backup@,
                path: path@,
                expected: expected@,
                actual: actual@,
            },
            VerifyProblem::SizeMismatch { backup, path, expected, actual } => ProblemView::SizeMismatch {
                backup: backup@,
                path: path@,
                expected,
                actual,
            },
        }
    }
}

impl ProblemView {
    /// The backup that the problem belongs to.
    pub open spec fn of_backup(self) -> Seq<char> {
        match self {
            ProblemView::MissingFile { backup, .. } => backup,
            ProblemView::ChecksumMismatch { backup, .. } => backup,
            ProblemView::SizeMismatch { backup, .. } => backup,
        }
    }

    /// The file that the problem belongs to.
    pub open spec fn of_path(self) -> Seq<char> {
        match self {
            ProblemView::MissingFile { path, .. } => path,
            ProblemView::ChecksumMismatch { path, .. } => path,
            ProblemView::SizeMismatch { path, .. } => path,
        }
    }

    /// The line that reports the problem.
    pub open spec fn line(self) -> Seq<char> {
        match self {
            ProblemView::MissingFile { backup, path } => "missing: "@ + backup + "/"@ + path,
            ProblemView::ChecksumMismatch { backup, path, expected, actual } => "checksum mismatch: "@ + backup + "/"@
                + path + " (expected "@ + expected + ", got "@ + actual + ")"@,
            ProblemView::SizeMismatch { backup, path, expected, actual } => "size mismatch: "@ + backup + "/"@ + path
                + " (expected "@ + text::decimal(expected as nat) + ", got "@ + text::decimal(actual as nat) + ")"@,
        }
    }
}

/// The contents of a list of problems.
pub open spec fn problem_views(v: Seq<VerifyProblem>) -> Seq<ProblemView> {
    Seq::new(v.len(), |i: int| v[i]@)
}

/// The lines that report a list of problems.
pub open spec fn problem_lines(v: Seq<ProblemView>) -> Seq<Seq<char>> {
    Seq::new(v.len(), |i: int| v[i].line())
}

impl VerifyProblem {
    /// The backup that the problem belongs to.
    pub fn backup(&self) -> (r: &str)
        ensures
            r@ == self@.of_backup(),
    {
        match self {
            VerifyProblem::MissingFile { backup, .. } => backup.as_str(),
            VerifyProblem::ChecksumMismatch { backup, .. } => backup.as_str(),
            VerifyProblem::SizeMismatch { backup, .. } => backup.as_str(),
        }
    }

    /// The file that the problem belongs to.
    pub fn path(&self) -> (r: &str)
        ensures
            r@ == self@.of_path(),
    {
        match self {
            VerifyProblem::MissingFile { path, .. } => path.as_str(),
            VerifyProblem::ChecksumMismatch { path, .. } => path.as_str(),
            VerifyProblem::SizeMismatch { path, .. } => path.as_str(),
        }
    }
}

fn expected_got(out: &mut String, expected: &str, actual: &str)
    ensures
        final(out)@ == old(out)@ + " (expected "@ + expected@ + ", got "@ + actual@ + ")"@,
{
    out.append(" (expected ");
    out.append(expected);
    out.append(", got ");
    out.append(actual);
    out.append(")");
}

/// The line that reports a problem.
pub fn describe_problem(problem: &VerifyProblem) -> (r: String)
    ensures
        r@ == problem@.line(),
{
    match problem {
        VerifyProblem::MissingFile { backup, path } => {
            let mut out = cat3("missing: ", backup.as_str(), "/");
            out.append(path.as_str());
            out
        },
        VerifyProblem::ChecksumMismatch { backup, path, expected, actual } => {
            let mut out = cat3("checksum mismatch: ", backup.as_str(), "/");
            out.append(path.as_str());
            expected_got(&mut out, expected.as_str(), actual.as_str());
            out
        },
        VerifyProblem::SizeMismatch { backup, path, expected, actual } => {
            let mut out = cat3("size mismatch: ", backup.as_str(), "/");
            out.append(path.as_str());
            expected_got(&mut out, print_unsigned(*expected).as_str(), print_unsigned(*actual).as_str());
            out
        },
    }
}

/// What was found of one backup.
#[derive(Debug, Clone, PartialEq, Eq)]
pub struct BackupVerify {
    pub label: String,
    /// How many files were checked.
    pub total: usize,
    /// How many of them are intact.
    pub valid: usize,
    /// One line per problem, in the order they were found.
    pub errors: Vec<String>,
}

/// Whether the backups that were reported before are still reported, each at its place.
pub open spec fn keeps(before: Seq<BackupVerify>, after: Seq<BackupVerify>) -> bool {
    forall|i: int| 0 <= i < before.len() ==> #[trigger] after[i] == before[i]
}

/// Something wrong with a segment of the archive.
#[derive(Debug, Clone, PartialEq, Eq)]
pub enum ArchiveProblem {
    /// Its digest is not the one in its name.
    ChecksumMismatch { segment: String, expected: String, actual: String },
    /// It cannot be read.
    Unreadable { segment: String, message: String },
}

/// The contents of an [`ArchiveProblem`].
pub enum ArchiveProblemView {
    ChecksumMismatch { segment: Seq<char>, expected: Seq<char>, actual: Seq<char> },
    Unreadable { segment: Seq<char>, message: Seq<char> },
}

impl View for ArchiveProblem {
    type V = ArchiveProblemView;

    open spec fn view(&self) -> ArchiveProblemView {
        match *self {
            ArchiveProblem::ChecksumMismatch { segment, expected, actual } => ArchiveProblemView::ChecksumMismatch {
                segment: segment@,
                expected: expected@,
                actual: actual@,
            },
            ArchiveProblem::Unreadable { segment, message } => ArchiveProblemView::Unreadable {
                segment: segment@,
                message: message@,
            },
        }
    }
}

impl ArchiveProblemView {
    /// The line that reports the problem.
    pub open spec fn line(self) -> Seq<char> {
        match self {
            ArchiveProblemView::ChecksumMismatch { segment, expected, actual } => "    checksum mismatch: "@ + segment
                + " (expected "@ + expected + ", got "@ + actual + ")"@,
            ArchiveProblemView::Unreadable { segment, message } => "    unreadable: "@ + segment + " ("@ + message + ")"@,
        }
    }
}

/// The contents of a list of problems with segments.
pub open spec fn archive_problem_views(v: Seq<ArchiveProblem>) -> Seq<ArchiveProblemView> {
    Seq::new(v.len(), |i: int| v[i]@)
}

/// What was found of the archive.
#[derive(Debug, Clone, PartialEq, Eq)]
pub struct ArchiveVerify {
    /// How many segments there are.
    pub total: usize,
    /// How many of them are intact.
    pub valid: usize,
    /// How many were checked against the digest in their name.
    pub checksum_verified: usize,
    /// How many could only be read.
    pub presence_only: usize,
    /// In the order they were found.
    pub problems: Vec<ArchiveProblem>,
}

/// What a verification found.
#[derive(Debug, Clone, PartialEq, Eq)]
pub struct VerifyReport {
    /// How many backups were checked.
    pub backups_checked: usize,
    /// How many files of theirs were.
    pub files_checked: usize,
    /// The problems with files, in the order they were found.
    pub problems: Vec<VerifyProblem>,
    /// What was found of each backup.
    pub backups: Vec<BackupVerify>,
    pub archive: ArchiveVerify,
    /// What is wrong with the info files.
    pub info_problems: Vec<String>,
}

impl VerifyReport {
    /// How many problems there are in all.
    pub open spec fn problem_count(self) -> int {
        self.info_problems.len() + self.problems.len() + self.archive.problems.len()
    }

    /// How many problems there are in all.
    pub fn total_problems(&self) -> (r: usize)
        requires
            self.problem_count() <= usize::MAX,
        ensures
            r == self.problem_count(),
    {
        self.info_problems.len() + self.problems.len() + self.archive.problems.len()
    }
}

/// The first line of a report.
pub open spec fn head_line(r: VerifyReport) -> Seq<char> {
    "verify: "@ + text::decimal(r.backups_checked as nat) + " backup(s), "@ + text::decimal(r.files_checked as nat)
        + " file(s) checked, "@ + text::decimal(r.archive.total as nat) + " WAL segment(s), "@ + text::decimal(
        r.problem_count() as nat,
    ) + " problem(s)"@
}

/// The lines on the info files.
pub open spec fn info_lines(notes: Seq<Seq<char>>) -> Seq<Seq<char>> {
    Seq::new(notes.len(), |i: int| "  info: "@ + notes[i])
}

/// The lines on one backup.
pub open spec fn backup_lines(b: BackupVerify) -> Seq<Seq<char>> {
    seq!["  backup "@ + b.label@ + ": "@ + text::decimal(b.valid as nat) + "/"@ + text::decimal(b.total as nat) + " file(s) valid"@]
        + Seq::new(b.errors.len() as nat, |i: int| "    "@ + b.errors[i]@)
}

/// The lines on all backups.
pub open spec fn all_backup_lines(v: Seq<BackupVerify>) -> Seq<Seq<char>>
    decreases v.len(),
{
    if v.len() == 0 {
        Seq::<Seq<char>>::empty()
    } else {
        all_backup_lines(v.drop_last()) + backup_lines(v.last())
    }
}

/// The line on the archive.
pub open spec fn archive_line(a: ArchiveVerify) -> Seq<char> {
    "  archive: "@ + text::decimal(a.valid as nat) + "/"@ + text::decimal(a.total as nat) + " segment(s) valid ("@ + text::decimal(
        a.checksum_verified as nat,
    ) + " checksum-verified, "@ + text::decimal(a.presence_only as nat) + " presence-only)"@
}

/// The lines of a report.
pub open spec fn lines_of(r: VerifyReport) -> Seq<Seq<char>> {
    seq![head_line(r)] + info_lines(text::texts(r.info_problems@)) + all_backup_lines(r.backups@) + seq![
        archive_line(r.archive),
    ] + Seq::new(r.archive.problems.len() as nat, |i: int| r.archive.problems[i]@.line())
}

fn push_line(out: &mut Vec<String>, line: String)
    ensures
        text::texts(final(out)@) == text::texts(old(out)@).push(line@),
{
    out.push(line);
    assert(text::texts(out@) =~= text::texts(old(out)@).push(line@));
}

fn push_number(out: &mut String, n: usize, what: &str)
    ensures
        final(out)@ == old(out)@ + text::decimal(n as nat) + what@,
{
    out.append(print_unsigned(n as u64).as_str());
    out.append(what);
}

/// The lines of a report.
pub fn report_lines(report: &VerifyReport) -> (r: Vec<String>)
    requires
        report.problem_count() <= usize::MAX,
    ensures
        text::texts(r@) == lines_of(*report),
{
    let mut out: Vec<String> = Vec::new();
    let mut head = "verify: ".to_owned();
    push_number(&mut head, report.backups_checked, " backup(s), ");
    push_number(&mut head, report.files_checked, " file(s) checked, ");
    push_number(&mut head, report.archive.total, " WAL segment(s), ");
    push_number(&mut head, report.total_problems(), " problem(s)");
    assert(head@ =~= head_line(*report));
    push_line(&mut out, head);
    assert(text::texts(out@) =~= seq![head_line(*report)]);
    let ghost t0 = text::texts(out@);
    let n: usize = report.info_problems.len();
    let mut i: usize = 0;
    let ghost notes = text::texts(report.info_problems@);
    while i < n
        invariant
            i <= n,
            n == report.info_problems.len(),
            notes == text::texts(report.info_problems@),
            text::texts(out@) == t0 + info_lines(notes).take(i as int),
        decreases n - i,
    {
        let mut line = "  info: ".to_owned();
        line.append(report.info_problems[i].as_str());
        assert(line@ == info_lines(notes)[i as int]);
        push_line(&mut out, line);
        i += 1;
        assert(text::texts(out@) =~= t0 + info_lines(notes).take(i as int));
    }
    assert(info_lines(notes).take(n as int) =~= info_lines(notes));
    let ghost t1 = text::texts(out@);
    let m: usize = report.backups.len();
    let mut j: usize = 0;
    assert(report.backups@.take(0) =~= Seq::<BackupVerify>::empty());
    assert(t1 =~= t1 + all_backup_lines(report.backups@.take(0)));
    while j < m
        invariant
            j <= m,
            m == report.backups.len(),
            text::texts(out@) == t1 + all_backup_lines(report.backups@.take(j as int)),
        decreases m - j,
    {
        proof {
            assert(report.backups@.take(j as int + 1).drop_last() =~= report.backups@.take(j as int));
        }
        let ghost before = text::texts(out@);
        push_backup(&mut out, &report.backups[j]);
        assert(text::texts(out@) =~= t1 + all_backup_lines(report.backups@.take(j as int + 1)));
        j += 1;
    }
    assert(report.backups@.take(m as int) =~= report.backups@);
    let mut line = "  archive: ".to_owned();
    push_number(&mut line, report.archive.valid, "/");
    push_number(&mut line, report.archive.total, " segment(s) valid (");
    push_number(&mut line, report.archive.checksum_verified, " checksum-verified, ");
    push_number(&mut line, report.archive.presence_only, " presence-only)");
    assert(line@ =~= archive_line(report.archive));
    push_line(&mut out, line);
    let ghost t3 = text::texts(out@);
    let q: usize = report.archive.problems.len();
    let mut k: usize = 0;
    let ghost tail = Seq::new(q as nat, |i: int| report.archive.problems[i]@.line());
    while k < q
        invariant
            k <= q,
            q == report.archive.problems.len(),
            tail == Seq::new(q as nat, |i: int| report.archive.problems[i]@.line()),
            text::texts(out@) == t3 + tail.take(k as int),
        decreases q - k,
    {
        let problem_line = describe_segment(&report.archive.problems[k]);
        assert(problem_line@ == tail[k as int]);
        push_line(&mut out, problem_line);
        k += 1;
        assert(text::texts(out@) =~= t3 + tail.take(k as int));
    }
    assert(tail.take(q as int) =~= tail);
    assert(text::texts(out@) =~= lines_of(*report));
    out
}

/// The line that reports a problem with a segment.
pub fn describe_segment(problem: &ArchiveProblem) -> (r: String)
    ensures
        r@ == problem@.line(),
{
    match problem {
        ArchiveProblem::ChecksumMismatch { segment, expected, actual } => {
            let mut out = "    checksum mismatch: ".to_owned();
            out.append(segment.as_str());
            expected_got(&mut out, expected.as_str(), actual.as_str());
            out
        },
        ArchiveProblem::Unreadable { segment, message } => {
            let mut out = cat3("    unreadable: ", segment.as_str(), " (");
            out.append(message.as_str());
            out.append(")");
            out
        },
    }
}

fn push_backup(out: &mut Vec<String>, b: &BackupVerify)
    ensures
        text::texts(final(out)@) == text::texts(old(out)@) + backup_lines(*b),
{
    let ghost start = text::texts(out@);
    let mut line = cat3("  backup ", b.label.as_str(), ": ");
    push_number(&mut line, b.valid, "/");
    push_number(&mut line, b.total, " file(s) valid");
    assert(line@ =~= backup_lines(*b)[0]);
    push_line(out, line);
    assert(text::texts(out@) =~= start + backup_lines(*b).take(1));
    let n: usize = b.errors.len();
    let mut i: usize = 0;
    while i < n
        invariant
            i <= n,
            n == b.errors.len(),
            text::texts(out@) == start + backup_lines(*b).take(i as int + 1),
        decreases n - i,
    {
        let mut error = "    ".to_owned();
        error.append(b.errors[i].as_str());
        assert(error@ == backup_lines(*b)[i as int + 1]);
        push_line(out, error);
        i += 1;
        assert(text::texts(out@) =~= start + backup_lines(*b).take(i as int + 1));
    }
    assert(backup_lines(*b).take(n as int + 1) =~= backup_lines(*b));
}

/// What a report amounts to: success where there is no problem, else an error with
/// their number.
pub fn verdict(report: &VerifyReport) -> (r: Result<(), CommandError>)
    requires
        report.problem_count() <= usize::MAX,
    ensures
        if report.problem_count() == 0 {
            r is Ok
        } else {
            r matches Err(e) && e.is_other(
                text::decimal(report.problem_count() as nat) + " fatal error(s) encountered, see output for details"@,
            )
        },
{
    let total: usize = report.total_problems();
    if total == 0 {
        Ok(())
    } else {
        let mut m = print_unsigned(total as u64);
        m.append(" fatal error(s) encountered, see output for details");
        Err(CommandError::Other(m))
    }
}

/// A problem is reported with its backup, its file and what differs, and told apart by
/// what it is.
pub proof fn law_problem_lines(problem: &VerifyProblem, line: String, backup: &str, path: &str)
    requires
        call_ensures(describe_problem, (problem,), line),
        call_ensures(VerifyProblem::backup, (problem,), backup),
        call_ensures(VerifyProblem::path, (problem,), path),
    ensures
        match *problem {
            VerifyProblem::MissingFile { backup: b, path: p } => backup@ == b@ && path@ == p@ && line@ == "missing: "@ + b@ + "/"@
                + p@,
            VerifyProblem::ChecksumMismatch { backup: b, path: p, expected, actual } => backup@ == b@ && path@ == p@ && line@
                == "checksum mismatch: "@ + b@ + "/"@ + p@ + " (expected "@ + expected@ + ", got "@ + actual@ + ")"@,
            VerifyProblem::SizeMismatch { backup: b, path: p, expected, actual } => backup@ == b@ && path@ == p@ && line@
                == "size mismatch: "@ + b@ + "/"@ + p@ + " (expected "@ + text::decimal(expected as nat) + ", got "@ + text::decimal(
                actual as nat,
            ) + ")"@,
        },
{
}

/// A problem with a segment is reported with the segment and what differs, or why it could
/// not be read.
pub proof fn law_segment_lines(problem: &ArchiveProblem, line: String)
    requires
        call_ensures(describe_segment, (problem,), line),
    ensures
        match *problem {
            ArchiveProblem::ChecksumMismatch { segment, expected, actual } => line@ == "    checksum mismatch: "@ + segment@
                + " (expected "@ + expected@ + ", got "@ + actual@ + ")"@,
            ArchiveProblem::Unreadable { segment, message } => line@ == "    unreadable: "@ + segment@ + " ("@ + message@ + ")"@,
        },
{
}

/// A verification succeeds where it found no problem of any kind; else the error gives
/// how many there are of the three kinds together.
pub proof fn law_every_problem_is_fatal(report: &VerifyReport, total: usize, r: Result<(), CommandError>)
    requires
        report.info_problems.len() + report.problems.len() + report.archive.problems.len() <= usize::MAX,
        call_ensures(VerifyReport::total_problems, (report,), total),
        call_ensures(verdict, (report,), r),
    ensures
        total == report.info_problems.len() + report.problems.len() + report.archive.problems.len(),
        r is Ok <==> report.info_problems.len() == 0 && report.problems.len() == 0 && report.archive.problems.len() == 0,
        r is Err ==> r->Err_0.is_other(
            text::decimal(total as nat) + " fatal error(s) encountered, see output for details"@,
        ),
{
}

/// A report begins with its counts, then come the notes on the info files, the backups,
/// the archive's counts, and the problems with segments.
pub proof fn law_report_lines(report: &VerifyReport, r: Vec<String>)
    requires
        report.info_problems.len() + report.problems.len() + report.archive.problems.len() <= usize::MAX,
        call_ensures(report_lines, (report,), r),
    ensures
        ({
            let n = report.info_problems.len();
            let m = all_backup_lines(report.backups@).len();
            &&& r.len() == 1 + n + m + 1 + report.archive.problems.len()
            &&& r[0]@ == "verify: "@ + text::decimal(report.backups_checked as nat) + " backup(s), "@ + text::decimal(
                report.files_checked as nat,
            ) + " file(s) checked, "@ + text::decimal(report.archive.total as nat) + " WAL segment(s), "@ + text::decimal(
                (report.info_problems.len() + report.problems.len() + report.archive.problems.len()) as nat,
            ) + " problem(s)"@
            &&& forall|i: int| 1 <= i <= n ==> (#[trigger] r[i])@ == "  info: "@ + report.info_problems[i - 1]@
            &&& forall|i: int| 0 <= i < m ==> r[1 + n + i]@ == #[trigger] all_backup_lines(report.backups@)[i]
            &&& r[1 + n + m]@ == "  archive: "@ + text::decimal(report.archive.valid as nat) + "/"@ + text::decimal(
                report.archive.total as nat,
            ) + " segment(s) valid ("@ + text::decimal(report.archive.checksum_verified as nat) + " checksum-verified, "@
                + text::decimal(report.archive.presence_only as nat) + " presence-only)"@
            &&& forall|i: int|
                0 <= i < report.archive.problems.len() ==> r[2 + n + m + i]@ == (#[trigger] report.archive.problems[i])@.line()
        }),
{
    let v = text::texts(r@);
    let n = report.info_problems.len() as int;
    let m = all_backup_lines(report.backups@).len() as int;
    let notes = info_lines(text::texts(report.info_problems@));
    assert(v == lines_of(*report));
    assert(v.len() == r.len());
    assert(v[0] == r[0]@);
    assert(v[1 + n + m] == r[1 + n + m]@);
    assert forall|i: int| 1 <= i <= n implies (#[trigger] r[i])@ == "  info: "@ + report.info_problems[i - 1]@ by {
        assert(v[i] == r[i]@);
        assert(v[i] == notes[i - 1]);
    }
    assert forall|i: int| 0 <= i < m implies r[1 + n + i]@ == #[trigger] all_backup_lines(report.backups@)[i] by {
        assert(v[1 + n + i] == r[1 + n + i]@);
    }
    assert forall|i: int| 0 <= i < report.archive.problems.len() implies r[2 + n + m + i]@ == (
    #[trigger] report.archive.problems[i])@.line() by {
        assert(v[2 + n + m + i] == r[2 + n + m + i]@);
    }
}

/// The lines on the backups: of each its label with how many of its files are intact of
/// how many, then its problems, indented.
pub proof fn law_backup_lines(backups: Seq<BackupVerify>, b: BackupVerify)
    ensures
        all_backup_lines(Seq::<BackupVerify>::empty()).len() == 0,
        ({
            let before = all_backup_lines(backups);
            let after = all_backup_lines(backups.push(b));
            &&& after.len() == before.len() + 1 + b.errors.len()
            &&& after.take(before.len() as int) == before
            &&& after[before.len() as int] == "  backup "@ + b.label@ + ": "@ + text::decimal(b.valid as nat) + "/"@ + text::decimal(
                b.total as nat,
            ) + " file(s) valid"@
            &&& forall|i: int|
                0 <= i < b.errors.len() ==> after[before.len() + 1 + i] == "    "@ + (#[trigger] b.errors[i])@
        }),
{
    let before = all_backup_lines(backups);
    let after = all_backup_lines(backups.push(b));
    assert(backups.push(b).drop_last() =~= backups);
    assert(after == before + backup_lines(b));
    assert(after.take(before.len() as int) =~= before);
    assert forall|i: int| 0 <= i < b.errors.len() implies after[before.len() + 1 + i] == "    "@ + (#[trigger] b.errors[i])@ by {
        assert(after[before.len() + 1 + i] == backup_lines(b)[1 + i]);
    }
}

}
