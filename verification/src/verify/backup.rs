//! Verifying the files of a backup.
use vstd::prelude::*;

use crate::restore::resolver;
use crate::verify::report;
use crate::text;
use crate::paths;
use crate::config;
use crate::compress::helper;
use crate::compress::helper::CompressType;
use crate::config::CommandError;
use crate::info::{InfoBackup, Manifest, ManifestFile, RepoTransform, TransformView};
use crate::paths::backup_file_path;
use crate::restore::resolver::{ResolutionView, SourceResolver, SourceView};
use crate::protocol::{ParamValue, Request};
use crate::text::{cat3, text_eq};
use crate::verify::report::{describe_problem, BackupVerify, ProblemView, VerifyProblem, VerifyReport};

verus! {

/// What the backup `holder` did to its files: what was recorded of it, nothing where
/// nothing was.
pub open spec fn transform_of(holder: Seq<char>, info: InfoBackup) -> TransformView {
    match info.current.lookup(holder) {
        Some(entry) => entry.transform@,
        None => TransformView { compress_type: CompressType::Uncompressed, compress_level: 0, key: None },
    }
}

/// What the backup `holder` did to its files.
pub fn transform_for_holder(holder: &str, info: &InfoBackup) -> (r: RepoTransform)
    ensures
        r@ == transform_of(holder@, *info),
{
    match info.current.get(holder) {
        Some(entry) => entry.transform.copy(),
        None => RepoTransform::identity(),
    }
}

/// A file to check.
pub struct FileCheck {
    /// Its recorded path.
    pub rel: String,
    /// Where it lies in the repository.
    pub storage_path: String,
    /// The backup that holds it.
    pub holder: String,
    /// What that backup did to it.
    pub transform: RepoTransform,
    /// The recorded digest of its plain bytes.
    pub expected_sha: String,
    /// Their recorded number.
    pub expected_size: u64,
}

/// The contents of a [`FileCheck`].
pub struct CheckView {
    pub rel: Seq<char>,
    pub storage_path: Seq<char>,
    pub holder: Seq<char>,
    pub transform: TransformView,
    pub expected_sha: Seq<char>,
    pub expected_size: u64,
}

impl View for FileCheck {
    type V = CheckView;

    open spec fn view(&self) -> CheckView {
        CheckView {
            rel: self.rel@,
            storage_path: self.storage_path@,
            holder: self.holder@,
            transform: self.transform@,
            expected_sha: self.expected_sha@,
            expected_size: self.expected_size,
        }
    }
}

/// The contents of a list of files to check.
pub open spec fn check_views(v: Seq<FileCheck>) -> Seq<CheckView> {
    Seq::new(v.len(), |i: int| v[i]@)
}

/// The check of a recorded file: it lies with the backup that holds its bytes, under
/// its path and the extension of what that backup did to it.
pub open spec fn check_of(stanza: Seq<char>, label: Seq<char>, info: InfoBackup, file: ManifestFile) -> CheckView {
    let holder = resolver::holder_of(file, label);
    let transform = transform_of(holder, info);
    CheckView {
        rel: file.path@,
        storage_path: paths::backup_file_at(stanza, holder, file.path@ + helper::extension(transform.compress_type)),
        holder,
        transform,
        expected_sha: config::opt_text(file.checksum).unwrap(),
        expected_size: file.size,
    }
}

/// The checks of the first `n` files: of those with a recorded digest.
pub open spec fn checks_of(
    stanza: Seq<char>,
    label: Seq<char>,
    info: InfoBackup,
    files: Seq<ManifestFile>,
    n: int,
) -> Seq<CheckView>
    decreases n,
{
    if n <= 0 {
        Seq::<CheckView>::empty()
    } else if files[n - 1].checksum is Some {
        checks_of(stanza, label, info, files, n - 1).push(check_of(stanza, label, info, files[n - 1]))
    } else {
        checks_of(stanza, label, info, files, n - 1)
    }
}

/// The files of a backup to check, in the order of its manifest.
pub fn plan_checks(stanza: &str, label: &str, info: &InfoBackup, manifest: &Manifest) -> (r: Vec<FileCheck>)
    ensures
        check_views(r@) == checks_of(stanza@, label@, *info, manifest.files@, manifest.files.len() as int),
{
    let mut out: Vec<FileCheck> = Vec::new();
    let n: usize = manifest.files.len();
    let mut i: usize = 0;
    assert(check_views(out@) =~= Seq::<CheckView>::empty());
    while i < n
        invariant
            i <= n,
            n == manifest.files.len(),
            check_views(out@) == checks_of(stanza@, label@, *info, manifest.files@, i as int),
        decreases n - i,
    {
        let file = &manifest.files[i];
        let ghost before = check_views(out@);
        if let Some(expected) = &file.checksum {
            let holder = match &file.reference {
                Some(reference) => reference.as_str(),
                None => label,
            };
            let transform = transform_for_holder(holder, info);
            let mut name = file.path.clone();
            name.append(transform.repo_suffix());
            let check = FileCheck {
                rel: file.path.clone(),
                storage_path: backup_file_path(stanza, holder, name.as_str()),
                holder: holder.to_owned(),
                transform,
                expected_sha: expected.clone(),
                expected_size: file.size,
            };
            assert(check@ == check_of(stanza@, label@, *info, *file));
            out.push(check);
            assert(check_views(out@) =~= before.push(check_of(stanza@, label@, *info, *file)));
        }
        i += 1;
    }
    out
}

/// Every file with a recorded digest is among those to check; the files after it with a
/// check of the same path were recorded after it.
pub proof fn lemma_checked(
    stanza: Seq<char>,
    label: Seq<char>,
    info: InfoBackup,
    files: Seq<ManifestFile>,
    n: int,
    f: int,
) -> (i: int)
    requires
        0 <= f < n <= files.len(),
        files[f].checksum is Some,
    ensures
        0 <= i < checks_of(stanza, label, info, files, n).len(),
        checks_of(stanza, label, info, files, n)[i] == check_of(stanza, label, info, files[f]),
        (forall|k: int| f < k < n && files[k].checksum is Some ==> (#[trigger] files[k]).path@ != files[f].path@)
            ==> last_of_path(checks_of(stanza, label, info, files, n), i),
    decreases n,
{
    let checks = checks_of(stanza, label, info, files, n);
    if f == n - 1 {
        checks.len() - 1
    } else {
        let i = lemma_checked(stanza, label, info, files, n - 1, f);
        let front = checks_of(stanza, label, info, files, n - 1);
        if forall|k: int| f < k < n && files[k].checksum is Some ==> (#[trigger] files[k]).path@ != files[f].path@ {
            assert forall|k: int| i < k < checks.len() implies (#[trigger] checks[k]).rel != checks[i].rel by {
                if k < front.len() {
                    assert(front[k] == checks[k]);
                } else {
                    assert(files[n - 1].path@ != files[f].path@);
                }
            }
        }
        i
    }
}

/// What reading and undoing a stored file gave.
#[derive(Debug, Clone, PartialEq, Eq)]
pub struct VerifyResult {
    /// The digest of the plain bytes.
    pub actual_sha: String,
    /// Their number.
    pub actual_size: u64,
}

/// A file to read, on this host or through the repository.
#[derive(Debug, Clone, PartialEq, Eq)]
pub struct VerifyJob {
    pub rel: String,
    pub storage_path: String,
    /// Where it can be read on this host; empty where it cannot be.
    pub abs_path: String,
    pub holder: String,
}

/// The job for a file to check that can be read at `abs_path`.
pub fn verify_job(check: &FileCheck, abs_path: String) -> (r: VerifyJob)
    ensures
        r.rel@ == check@.rel,
        r.storage_path@ == check@.storage_path,
        r.abs_path == abs_path,
        r.holder@ == check@.holder,
{
    VerifyJob { rel: check.rel.clone(), storage_path: check.storage_path.clone(), abs_path, holder: check.holder.clone() }
}

/// The job as a request: its path is the command, the rest are the parameters.
pub fn verify_job_to_request(job: &VerifyJob) -> (r: Request)
    ensures
        r.cmd@ == job.rel@,
        r.param.len() == 3,
        r.text_at(0) == Some(job.abs_path@),
        r.text_at(1) == Some(job.holder@),
        r.text_at(2) == Some(job.storage_path@),
{
    let mut param: Vec<ParamValue> = Vec::new();
    param.push(ParamValue::Text(job.abs_path.clone()));
    param.push(ParamValue::Text(job.holder.clone()));
    param.push(ParamValue::Text(job.storage_path.clone()));
    Request { cmd: job.rel.clone(), param }
}

/// The place on this host, the holder and the place in the repository that a request
/// carries.
pub fn request_to_verify_job(request: &Request) -> (r: Result<(String, String, String), String>)
    ensures
        match (request.text_at(0), request.text_at(1), request.text_at(2)) {
            (None, _, _) => r matches Err(m) && m@ == "verify job missing abs path"@,
            (Some(_), None, _) => r matches Err(m) && m@ == "verify job missing holder"@,
            (Some(_), Some(_), None) => r matches Err(m) && m@ == "verify job missing storage path"@,
            (Some(a), Some(h), Some(s)) => r matches Ok(v) && v.0@ == a && v.1@ == h && v.2@ == s,
        },
{
    let abs_path = match request.param_text(0) {
        Some(p) => p,
        None => return Err("verify job missing abs path".to_owned()),
    };
    let holder = match request.param_text(1) {
        Some(p) => p,
        None => return Err("verify job missing holder".to_owned()),
    };
    let storage_path = match request.param_text(2) {
        Some(p) => p,
        None => return Err("verify job missing storage path".to_owned()),
    };
    Ok((abs_path.to_owned(), holder.to_owned(), storage_path.to_owned()))
}

/// How a worker answered a job.
#[derive(Debug, Clone, PartialEq, Eq)]
pub enum VerifyReply {
    /// With the digest and the size that its reply holds.
    Hashed { sha: Option<String>, size: Option<u64> },
    /// With nothing.
    Empty,
    /// It failed.
    Failed(String),
}

/// The answer to the job for the path `key`.
#[derive(Debug, Clone, PartialEq, Eq)]
pub struct VerifyAnswer {
    pub key: String,
    pub reply: VerifyReply,
}

/// Why an answer cannot be used; none where it can.
pub open spec fn answer_error(a: VerifyAnswer) -> Option<Seq<char>> {
    match a.reply {
        VerifyReply::Hashed { sha, size } => if sha is None {
            Some("verify of "@ + a.key@ + " returned no checksum"@)
        } else if size is None {
            Some("verify of "@ + a.key@ + " returned no size"@)
        } else {
            None
        },
        VerifyReply::Empty => Some("verify of "@ + a.key@ + " produced an unexpected empty response"@),
        VerifyReply::Failed(m) => Some(m@),
    }
}

/// The first answer from place `i` on that cannot be used.
pub open spec fn first_unusable(v: Seq<VerifyAnswer>, i: int) -> Option<int>
    decreases v.len() - i,
{
    if i < 0 || i >= v.len() {
        None
    } else if answer_error(v[i]) is Some {
        Some(i)
    } else {
        first_unusable(v, i + 1)
    }
}

/// Whether a result is what an answer holds.
pub open spec fn answers(r: (String, VerifyResult), a: VerifyAnswer) -> bool {
    &&& r.0@ == a.key@
    &&& a.reply matches VerifyReply::Hashed { sha: Some(sha), size: Some(size) } && r.1.actual_sha@ == sha@
        && r.1.actual_size == size
}

/// Whether results are what the answers hold, one for each and in order.
pub open spec fn all_answered(out: Seq<(String, VerifyResult)>, v: Seq<VerifyAnswer>) -> bool {
    &&& out.len() == v.len()
    &&& forall|i: int| 0 <= i < out.len() ==> answers(#[trigger] out[i], v[i])
}

/// The results that the answers hold; the first answer that cannot be used fails
/// them all.
pub fn verify_results(v: &Vec<VerifyAnswer>) -> (r: Result<Vec<(String, VerifyResult)>, CommandError>)
    ensures
        match first_unusable(v@, 0) {
            Some(i) => r matches Err(e) && e.is_other(answer_error(v[i]).unwrap()),
            None => r matches Ok(out) && all_answered(out@, v@),
        },
{
    let mut out: Vec<(String, VerifyResult)> = Vec::new();
    let n: usize = v.len();
    let mut i: usize = 0;
    while i < n
        invariant
            i <= n,
            n == v.len(),
            out.len() == i,
            first_unusable(v@, 0) == first_unusable(v@, i as int),
            forall|k: int| 0 <= k < i ==> answers(#[trigger] out[k], v[k]),
        decreases n - i,
    {
        let answer = &v[i];
        match &answer.reply {
            VerifyReply::Hashed { sha, size } => {
                let actual_sha = match sha {
                    Some(s) => s.clone(),
                    None => return Err(
                        CommandError::Other(cat3("verify of ", answer.key.as_str(), " returned no checksum")),
                    ),
                };
                let actual_size: u64 = match size {
                    Some(s) => *s,
                    None => return Err(
                        CommandError::Other(cat3("verify of ", answer.key.as_str(), " returned no size")),
                    ),
                };
                out.push((answer.key.clone(), VerifyResult { actual_sha, actual_size }));
            },
            VerifyReply::Empty => {
                return Err(
                    CommandError::Other(
                        cat3("verify of ", answer.key.as_str(), " produced an unexpected empty response"),
                    ),
                );
            },
            VerifyReply::Failed(m) => {
                return Err(CommandError::Other(m.clone()));
            },
        }
        i += 1;
    }
    Ok(out)
}

/// The problems of the first `n` files to check that are not there.
pub open spec fn missing_of(label: Seq<char>, checks: Seq<CheckView>, exists_at: Seq<bool>, n: int) -> Seq<ProblemView>
    decreases n,
{
    if n <= 0 {
        Seq::<ProblemView>::empty()
    } else if exists_at[n - 1] {
        missing_of(label, checks, exists_at, n - 1)
    } else {
        missing_of(label, checks, exists_at, n - 1).push(
            ProblemView::MissingFile { backup: label, path: checks[n - 1].rel },
        )
    }
}

/// The last of the first `n` files to check that is there and has the path `rel`.
pub open spec fn check_for(checks: Seq<CheckView>, exists_at: Seq<bool>, rel: Seq<char>, n: int) -> Option<int>
    decreases n,
{
    if n <= 0 {
        None
    } else if exists_at[n - 1] && checks[n - 1].rel == rel {
        Some(n - 1)
    } else {
        check_for(checks, exists_at, rel, n - 1)
    }
}

/// The problems that a result shows: another size, another digest.
pub open spec fn result_problems(label: Seq<char>, check: CheckView, result: (String, VerifyResult)) -> Seq<ProblemView> {
    (if result.1.actual_size != check.expected_size {
        seq![
            ProblemView::SizeMismatch {
                backup: label,
                path: result.0@,
                expected: check.expected_size,
                actual: result.1.actual_size,
            },
        ]
    } else {
        Seq::<ProblemView>::empty()
    }) + (if result.1.actual_sha@ != check.expected_sha {
        seq![
            ProblemView::ChecksumMismatch {
                backup: label,
                path: result.0@,
                expected: check.expected_sha,
                actual: result.1.actual_sha@,
            },
        ]
    } else {
        Seq::<ProblemView>::empty()
    })
}

/// The check that a result is for.
pub open spec fn matching(checks: Seq<CheckView>, exists_at: Seq<bool>, result: (String, VerifyResult)) -> Option<int> {
    check_for(checks, exists_at, result.0@, checks.len() as int)
}

/// The first result from place `i` on that is for no file that is there.
pub open spec fn first_unknown(
    checks: Seq<CheckView>,
    exists_at: Seq<bool>,
    results: Seq<(String, VerifyResult)>,
    i: int,
) -> Option<int>
    decreases results.len() - i,
{
    if i < 0 || i >= results.len() {
        None
    } else if matching(checks, exists_at, results[i]) is None {
        Some(i)
    } else {
        first_unknown(checks, exists_at, results, i + 1)
    }
}

/// The problems that the first `n` results show.
pub open spec fn shown_problems(
    label: Seq<char>,
    checks: Seq<CheckView>,
    exists_at: Seq<bool>,
    results: Seq<(String, VerifyResult)>,
    n: int,
) -> Seq<ProblemView>
    decreases n,
{
    if n <= 0 {
        Seq::<ProblemView>::empty()
    } else {
        shown_problems(label, checks, exists_at, results, n - 1) + result_problems(
            label,
            checks[matching(checks, exists_at, results[n - 1]).unwrap()],
            results[n - 1],
        )
    }
}

/// How many of the first `n` results show no problem.
pub open spec fn clean_count(
    label: Seq<char>,
    checks: Seq<CheckView>,
    exists_at: Seq<bool>,
    results: Seq<(String, VerifyResult)>,
    n: int,
) -> nat
    decreases n,
{
    if n <= 0 {
        0
    } else if result_problems(label, checks[matching(checks, exists_at, results[n - 1]).unwrap()], results[n - 1]).len()
        == 0 {
        clean_count(label, checks, exists_at, results, n - 1) + 1
    } else {
        clean_count(label, checks, exists_at, results, n - 1)
    }
}

/// All problems of a backup: the missing files, then what the results show.
pub open spec fn backup_problems(
    label: Seq<char>,
    checks: Seq<CheckView>,
    exists_at: Seq<bool>,
    results: Seq<(String, VerifyResult)>,
) -> Seq<ProblemView> {
    missing_of(label, checks, exists_at, checks.len() as int) + shown_problems(
        label,
        checks,
        exists_at,
        results,
        results.len() as int,
    )
}

fn find_check(checks: &Vec<FileCheck>, exists_at: &Vec<bool>, rel: &str) -> (r: Option<usize>)
    requires
        exists_at.len() == checks.len(),
    ensures
        match r {
            Some(i) => i < checks.len() && check_for(check_views(checks@), exists_at@, rel@, checks.len() as int) == Some(
                i as int,
            ),
            None => check_for(check_views(checks@), exists_at@, rel@, checks.len() as int) is None,
        },
{
    let ghost model = check_views(checks@);
    let mut i: usize = checks.len();
    while i > 0
        invariant
            i <= checks.len(),
            exists_at.len() == checks.len(),
            model == check_views(checks@),
            check_for(model, exists_at@, rel@, checks.len() as int) == check_for(model, exists_at@, rel@, i as int),
        decreases i,
    {
        i -= 1;
        assert(model[i as int] == checks@[i as int]@);
        if exists_at[i] && text_eq(checks[i].rel.as_str(), rel) {
            return Some(i);
        }
    }
    None
}

fn note(problem: VerifyProblem, problems: &mut Vec<VerifyProblem>, errors: &mut Vec<String>)
    ensures
        report::problem_views(final(problems)@) == report::problem_views(old(problems)@).push(problem@),
        text::texts(final(errors)@) == text::texts(old(errors)@).push(problem@.line()),
{
    errors.push(describe_problem(&problem));
    problems.push(problem);
    assert(report::problem_views(problems@) =~= report::problem_views(old(problems)@).push(problem@));
    assert(text::texts(errors@) =~= text::texts(old(errors)@).push(problem@.line()));
}

/// Adds what was found of the backup `label` to a report: of each file to check
/// whether it is there, and the results of reading those that are.
#[verifier::rlimit(40)]
pub fn verify_backup(
    report: VerifyReport,
    label: &str,
    checks: &Vec<FileCheck>,
    exists_at: &Vec<bool>,
    results: &Vec<(String, VerifyResult)>,
) -> (r: Result<VerifyReport, CommandError>)
    requires
        exists_at.len() == checks.len(),
        report.backups_checked < usize::MAX,
        report.files_checked + checks.len() <= usize::MAX,
    ensures
        match first_unknown(check_views(checks@), exists_at@, results@, 0) {
            Some(i) => r matches Err(e) && e.is_other(
                "verify result for unknown file `"@ + results[i].0@ + "` in backup `"@ + label@ + "`"@,
            ),
            None => {
                let found = backup_problems(label@, check_views(checks@), exists_at@, results@);
                &&& r matches Ok(after)
                &&& after.backups_checked == report.backups_checked + 1
                &&& after.files_checked == report.files_checked + checks.len()
                &&& report::problem_views(after.problems@) == report::problem_views(report.problems@) + found
                &&& after.backups.len() == report.backups.len() + 1
                &&& report::keeps(report.backups@, after.backups@)
                &&& after.backups@.last().label@ == label@
                &&& after.backups@.last().total == checks.len()
                &&& after.backups@.last().valid == clean_count(
                    label@,
                    check_views(checks@),
                    exists_at@,
                    results@,
                    results.len() as int,
                )
                &&& text::texts(after.backups@.last().errors@) == report::problem_lines(found)
                &&& after.archive == report.archive
                &&& after.info_problems == report.info_problems
            },
        },
{
    let VerifyReport { backups_checked, files_checked, problems, backups, archive, info_problems } = report;
    let ghost model = check_views(checks@);
    let ghost start = report::problem_views(problems@);
    let mut problems = problems;
    let mut errors: Vec<String> = Vec::new();
    let n: usize = checks.len();
    let mut i: usize = 0;
    proof {
        assert(start + missing_of(label@, model, exists_at@, 0) =~= start);
        assert(text::texts(errors@) =~= report::problem_lines(missing_of(label@, model, exists_at@, 0)));
    }
    while i < n
        invariant
            i <= n,
            n == checks.len(),
            n == exists_at.len(),
            model == check_views(checks@),
            report::problem_views(problems@) == start + missing_of(label@, model, exists_at@, i as int),
            text::texts(errors@) == report::problem_lines(missing_of(label@, model, exists_at@, i as int)),
        decreases n - i,
    {
        if !exists_at[i] {
            let ghost m0 = missing_of(label@, model, exists_at@, i as int);
            let ghost m1 = missing_of(label@, model, exists_at@, i as int + 1);
            let problem = VerifyProblem::MissingFile { backup: label.to_owned(), path: checks[i].rel.clone() };
            assert(model[i as int] == checks@[i as int]@);
            assert(m1 == m0.push(problem@));
            note(problem, &mut problems, &mut errors);
            assert(report::problem_views(problems@) =~= start + m1);
            assert(text::texts(errors@) =~= report::problem_lines(m1));
        }
        i += 1;
    }
    let ghost missing = missing_of(label@, model, exists_at@, n as int);
    let mut valid: usize = 0;
    let k: usize = results.len();
    let mut j: usize = 0;
    proof {
        assert(missing + shown_problems(label@, model, exists_at@, results@, 0) =~= missing);
    }
    while j < k
        invariant
            j <= k,
            k == results.len(),
            n == checks.len(),
            n == exists_at.len(),
            model == check_views(checks@),
            valid <= j,
            valid == clean_count(label@, model, exists_at@, results@, j as int),
            first_unknown(model, exists_at@, results@, 0) == first_unknown(model, exists_at@, results@, j as int),
            report::problem_views(problems@) == start + (missing + shown_problems(label@, model, exists_at@, results@, j as int)),
            text::texts(errors@) == report::problem_lines(missing + shown_problems(label@, model, exists_at@, results@, j as int)),
        decreases k - j,
    {
        let pair = &results[j];
        let place: usize = match find_check(checks, exists_at, pair.0.as_str()) {
            Some(p) => p,
            None => {
                let mut m = cat3("verify result for unknown file `", pair.0.as_str(), "` in backup `");
                m.append(label);
                m.append("`");
                return Err(CommandError::Other(m));
            },
        };
        let check = &checks[place];
        let ghost s0 = missing + shown_problems(label@, model, exists_at@, results@, j as int);
        let ghost here = result_problems(label@, model[place as int], results@[j as int]);
        assert(model[place as int] == check@);
        let bad_size: bool = pair.1.actual_size != check.expected_size;
        if bad_size {
            note(
                VerifyProblem::SizeMismatch {
                    backup: label.to_owned(),
                    path: pair.0.clone(),
                    expected: check.expected_size,
                    actual: pair.1.actual_size,
                },
                &mut problems,
                &mut errors,
            );
        }
        let bad_sha: bool = !text_eq(pair.1.actual_sha.as_str(), check.expected_sha.as_str());
        if bad_sha {
            note(
                VerifyProblem::ChecksumMismatch {
                    backup: label.to_owned(),
                    path: pair.0.clone(),
                    expected: check.expected_sha.clone(),
                    actual: pair.1.actual_sha.clone(),
                },
                &mut problems,
                &mut errors,
            );
        }
        if !bad_size && !bad_sha {
            valid += 1;
        }
        proof {
            let s1 = missing + shown_problems(label@, model, exists_at@, results@, j as int + 1);
            assert(s1 =~= s0 + here);
            assert(report::problem_views(problems@) =~= start + s1);
            assert(text::texts(errors@) =~= report::problem_lines(s1));
        }
        j += 1;
    }
    let mut backups = backups;
    let ghost old_backups = backups@;
    backups.push(BackupVerify { label: label.to_owned(), total: n, valid, errors });
    assert(backups@ =~= old_backups.push(backups@.last()));
    Ok(
        VerifyReport {
            backups_checked: backups_checked + 1,
            files_checked: files_checked + n,
            problems,
            backups,
            archive,
            info_problems,
        },
    )
}

/// How many of the first `n` files to check are there.
pub open spec fn there_count(exists_at: Seq<bool>, n: int) -> nat
    decreases n,
{
    if n <= 0 {
        0
    } else if exists_at[n - 1] {
        there_count(exists_at, n - 1) + 1
    } else {
        there_count(exists_at, n - 1)
    }
}

/// Every file to check is there or reported missing.
pub proof fn law_missing_files_are_reported(label: Seq<char>, checks: Seq<CheckView>, exists_at: Seq<bool>, n: int)
    requires
        0 <= n <= checks.len(),
        exists_at.len() == checks.len(),
    ensures
        missing_of(label, checks, exists_at, n).len() + there_count(exists_at, n) == n,
    decreases n,
{
    if n > 0 {
        law_missing_files_are_reported(label, checks, exists_at, n - 1);
    }
}

/// A backup is clean if and only if every file was there and every result showed no
/// problem.
pub proof fn law_clean_means_no_problem(
    label: Seq<char>,
    checks: Seq<CheckView>,
    exists_at: Seq<bool>,
    results: Seq<(String, VerifyResult)>,
)
    requires
        exists_at.len() == checks.len(),
    ensures
        backup_problems(label, checks, exists_at, results).len() == 0 <==> there_count(exists_at, checks.len() as int)
            == checks.len() && clean_count(label, checks, exists_at, results, results.len() as int) == results.len(),
{
    law_missing_files_are_reported(label, checks, exists_at, checks.len() as int);
    lemma_clean(label, checks, exists_at, results, results.len() as int);
}

proof fn lemma_clean(
    label: Seq<char>,
    checks: Seq<CheckView>,
    exists_at: Seq<bool>,
    results: Seq<(String, VerifyResult)>,
    n: int,
)
    requires
        0 <= n <= results.len(),
    ensures
        clean_count(label, checks, exists_at, results, n) <= n,
        shown_problems(label, checks, exists_at, results, n).len() == 0 <==> clean_count(
            label,
            checks,
            exists_at,
            results,
            n,
        ) == n,
    decreases n,
{
    if n > 0 {
        lemma_clean(label, checks, exists_at, results, n - 1);
    }
}

/// The paths of those of the first `n` files to check that are there.
pub open spec fn there_paths(checks: Seq<CheckView>, exists_at: Seq<bool>, n: int) -> Seq<Seq<char>>
    decreases n,
{
    if n <= 0 {
        Seq::<Seq<char>>::empty()
    } else if exists_at[n - 1] {
        there_paths(checks, exists_at, n - 1).push(checks[n - 1].rel)
    } else {
        there_paths(checks, exists_at, n - 1)
    }
}

/// The paths that results are for.
pub open spec fn result_paths(results: Seq<(String, VerifyResult)>) -> Seq<Seq<char>> {
    Seq::new(results.len(), |j: int| results[j].0@)
}

/// Whether there is exactly one result for each file that is there, under the file's
/// path, and none else; in any order.
pub open spec fn one_result_each(checks: Seq<CheckView>, exists_at: Seq<bool>, results: Seq<(String, VerifyResult)>) -> bool {
    result_paths(results).to_multiset() == there_paths(checks, exists_at, checks.len() as int).to_multiset()
}

/// Whether no two of the files to check have the same path.
pub open spec fn distinct_paths(checks: Seq<CheckView>) -> bool {
    forall|i: int, k: int| 0 <= i < k < checks.len() ==> (#[trigger] checks[i]).rel != (#[trigger] checks[k]).rel
}

/// Whether the results and the files that are there can be paired off.
spec fn paired(checks: Seq<CheckView>, exists_at: Seq<bool>, results: Seq<(String, VerifyResult)>) -> bool {
    &&& forall|j: int| 0 <= j < results.len() ==> matching(checks, exists_at, #[trigger] results[j]) is Some
    &&& forall|j: int, k: int|
        0 <= j < k < results.len() ==> matching(checks, exists_at, #[trigger] results[j]) != matching(
            checks,
            exists_at,
            #[trigger] results[k],
        )
    &&& forall|i: int|
        0 <= i < checks.len() && #[trigger] exists_at[i] ==> exists|j: int|
            0 <= j < results.len() && matching(checks, exists_at, #[trigger] results[j]) == Some(i)
}

/// Whether the result at place `j` shows no problem.
pub open spec fn clean_at(
    label: Seq<char>,
    checks: Seq<CheckView>,
    exists_at: Seq<bool>,
    results: Seq<(String, VerifyResult)>,
    j: int,
) -> bool {
    result_problems(label, checks[matching(checks, exists_at, results[j]).unwrap()], results[j]).len() == 0
}

/// Whether there is a problem with the file at place `i`: it is not there, or a result
/// for it shows one.
pub open spec fn faulty(
    label: Seq<char>,
    checks: Seq<CheckView>,
    exists_at: Seq<bool>,
    results: Seq<(String, VerifyResult)>,
    i: int,
) -> bool {
    ||| !exists_at[i]
    ||| exists|j: int|
        0 <= j < results.len() && matching(checks, exists_at, #[trigger] results[j]) == Some(i) && !clean_at(
            label,
            checks,
            exists_at,
            results,
            j,
        )
}

/// The places of the files with a problem.
pub open spec fn faulty_places(
    label: Seq<char>,
    checks: Seq<CheckView>,
    exists_at: Seq<bool>,
    results: Seq<(String, VerifyResult)>,
) -> Set<int> {
    Set::new(|i: int| 0 <= i < checks.len() && faulty(label, checks, exists_at, results, i))
}

/// The places of the files for which one of the first `n` results shows no problem.
spec fn clean_places(
    label: Seq<char>,
    checks: Seq<CheckView>,
    exists_at: Seq<bool>,
    results: Seq<(String, VerifyResult)>,
    n: int,
) -> Set<int> {
    Set::new(
        |i: int|
            exists|j: int|
                0 <= j < n && matching(checks, exists_at, #[trigger] results[j]) == Some(i) && clean_at(
                    label,
                    checks,
                    exists_at,
                    results,
                    j,
                ),
    )
}

/// Where there is one result for each file that is there and no path comes twice, no
/// file is passed over: the files that are valid and those with a problem make up all
/// that were checked, and a backup shows no problem if and only if all its files are
/// valid.
pub proof fn law_every_file_is_judged(
    label: Seq<char>,
    checks: Seq<CheckView>,
    exists_at: Seq<bool>,
    results: Seq<(String, VerifyResult)>,
)
    requires
        exists_at.len() == checks.len(),
        distinct_paths(checks),
        one_result_each(checks, exists_at, results),
    ensures
        faulty_places(label, checks, exists_at, results).finite(),
        clean_count(label, checks, exists_at, results, results.len() as int) + faulty_places(
            label,
            checks,
            exists_at,
            results,
        ).len() == checks.len(),
        backup_problems(label, checks, exists_at, results).len() == 0 <==> clean_count(
            label,
            checks,
            exists_at,
            results,
            results.len() as int,
        ) == checks.len(),
{
    let n = checks.len() as int;
    let m = results.len() as int;
    let clean = clean_places(label, checks, exists_at, results, m);
    let faults = faulty_places(label, checks, exists_at, results);
    let all = vstd::set_lib::set_int_range(0, n);
    vstd::set_lib::lemma_int_range(0, n);
    lemma_paired(checks, exists_at, results);
    lemma_clean_places(label, checks, exists_at, results, m);
    assert forall|i: int| clean.contains(i) implies all.contains(i) && !faults.contains(i) by {
        let j = choose|j: int|
            0 <= j < m && matching(checks, exists_at, #[trigger] results[j]) == Some(i) && clean_at(
                label,
                checks,
                exists_at,
                results,
                j,
            );
        lemma_check_for(checks, exists_at, results[j].0@, n);
        if faulty(label, checks, exists_at, results, i) {
            let k = choose|k: int|
                0 <= k < m && matching(checks, exists_at, #[trigger] results[k]) == Some(i) && !clean_at(
                    label,
                    checks,
                    exists_at,
                    results,
                    k,
                );
            assert(j != k);
            assert(j < k || k < j);
        }
    }
    assert forall|i: int| all.contains(i) && !faults.contains(i) implies clean.contains(i) by {
        assert(exists_at[i]);
        let j = choose|j: int| 0 <= j < m && matching(checks, exists_at, #[trigger] results[j]) == Some(i);
        assert(clean_at(label, checks, exists_at, results, j));
    }
    assert(faults.subset_of(all));
    vstd::set_lib::lemma_len_subset(faults, all);
    assert(clean.disjoint(faults));
    vstd::set_lib::lemma_set_disjoint_lens(clean, faults);
    assert(clean + faults =~= all);
    lemma_missing_empty(label, checks, exists_at, n);
    lemma_shown_empty(label, checks, exists_at, results, m);
    let missing = missing_of(label, checks, exists_at, n);
    let shown = shown_problems(label, checks, exists_at, results, m);
    if faults.len() == 0 {
        assert(faults =~= Set::<int>::empty());
        assert forall|i: int| 0 <= i < n implies #[trigger] exists_at[i] by {
            assert(!faults.contains(i));
        }
        assert forall|j: int| 0 <= j < m implies #[trigger] clean_at(label, checks, exists_at, results, j) by {
            assert(matching(checks, exists_at, results[j]) is Some);
            let i = matching(checks, exists_at, results[j]).unwrap();
            lemma_check_for(checks, exists_at, results[j].0@, n);
            assert(!faults.contains(i));
        }
        assert(missing.len() == 0 && shown.len() == 0);
    }
    if missing.len() == 0 && shown.len() == 0 {
        assert forall|i: int| !faults.contains(i) by {
            if faults.contains(i) {
                assert(exists_at[i]);
                let j = choose|j: int|
                    0 <= j < m && matching(checks, exists_at, #[trigger] results[j]) == Some(i) && !clean_at(
                        label,
                        checks,
                        exists_at,
                        results,
                        j,
                    );
                assert(clean_at(label, checks, exists_at, results, j));
            }
        }
        assert(faults =~= Set::<int>::empty());
    }
}

proof fn lemma_check_for(checks: Seq<CheckView>, exists_at: Seq<bool>, rel: Seq<char>, n: int)
    requires
        0 <= n <= checks.len(),
    ensures
        there_paths(checks, exists_at, n).contains(rel) <==> check_for(checks, exists_at, rel, n) is Some,
        check_for(checks, exists_at, rel, n) matches Some(i) ==> {
            &&& 0 <= i < n
            &&& exists_at[i]
            &&& checks[i].rel == rel
            &&& forall|k: int| i < k < n && exists_at[k] ==> (#[trigger] checks[k]).rel != rel
        },
        check_for(checks, exists_at, rel, n) is None ==> forall|k: int|
            0 <= k < n && exists_at[k] ==> (#[trigger] checks[k]).rel != rel,
    decreases n,
{
    if n > 0 {
        lemma_check_for(checks, exists_at, rel, n - 1);
        let front = there_paths(checks, exists_at, n - 1);
        let all = there_paths(checks, exists_at, n);
        if exists_at[n - 1] {
            if front.contains(rel) {
                let k = choose|k: int| 0 <= k < front.len() && front[k] == rel;
                assert(all[k] == rel);
            }
            assert(all[front.len() as int] == checks[n - 1].rel);
            if all.contains(rel) {
                let k = choose|k: int| 0 <= k < all.len() && all[k] == rel;
                if k < front.len() {
                    assert(front[k] == rel);
                }
            }
        }
    }
}

proof fn lemma_there_paths_distinct(checks: Seq<CheckView>, exists_at: Seq<bool>, n: int)
    requires
        0 <= n <= checks.len(),
        distinct_paths(checks),
    ensures
        there_paths(checks, exists_at, n).no_duplicates(),
    decreases n,
{
    if n > 0 {
        lemma_there_paths_distinct(checks, exists_at, n - 1);
        if exists_at[n - 1] {
            lemma_check_for(checks, exists_at, checks[n - 1].rel, n - 1);
            assert(!there_paths(checks, exists_at, n - 1).contains(checks[n - 1].rel));
        }
    }
}

/// Where there is one result for each file that is there, every result is for one of
/// them, and each of them has a result.
pub proof fn law_results_are_for_files(checks: Seq<CheckView>, exists_at: Seq<bool>, results: Seq<(String, VerifyResult)>)
    requires
        one_result_each(checks, exists_at, results),
    ensures
        forall|j: int| 0 <= j < results.len() ==> matching(checks, exists_at, #[trigger] results[j]) is Some,
        forall|i: int|
            0 <= i < checks.len() && #[trigger] exists_at[i] ==> exists|j: int|
                0 <= j < results.len() && (#[trigger] results[j]).0@ == checks[i].rel,
        first_unknown(checks, exists_at, results, 0) is None,
{
    broadcast use vstd::seq_lib::group_to_multiset_ensures;

    let told = result_paths(results);
    let due = there_paths(checks, exists_at, checks.len() as int);
    assert forall|j: int| 0 <= j < results.len() implies matching(checks, exists_at, #[trigger] results[j]) is Some by {
        let rel = results[j].0@;
        assert(told[j] == rel);
        assert(told.contains(rel));
        assert(told.to_multiset().count(rel) > 0);
        assert(due.to_multiset().count(rel) > 0);
        assert(due.contains(rel));
        lemma_check_for(checks, exists_at, rel, checks.len() as int);
    }
    assert forall|i: int| 0 <= i < checks.len() && #[trigger] exists_at[i] implies exists|j: int|
        0 <= j < results.len() && (#[trigger] results[j]).0@ == checks[i].rel by {
        let rel = checks[i].rel;
        lemma_check_for(checks, exists_at, rel, checks.len() as int);
        assert(due.contains(rel));
        assert(due.to_multiset().count(rel) > 0);
        assert(told.to_multiset().count(rel) > 0);
        assert(told.contains(rel));
        let j = choose|j: int| 0 <= j < told.len() && told[j] == rel;
        assert(results[j].0@ == rel);
    }
    lemma_none_unknown(checks, exists_at, results, 0);
}

proof fn lemma_none_unknown(checks: Seq<CheckView>, exists_at: Seq<bool>, results: Seq<(String, VerifyResult)>, i: int)
    requires
        forall|j: int| 0 <= j < results.len() ==> matching(checks, exists_at, #[trigger] results[j]) is Some,
    ensures
        first_unknown(checks, exists_at, results, i) is None,
    decreases results.len() - i,
{
    if 0 <= i < results.len() {
        lemma_none_unknown(checks, exists_at, results, i + 1);
    }
}

proof fn lemma_paired(checks: Seq<CheckView>, exists_at: Seq<bool>, results: Seq<(String, VerifyResult)>)
    requires
        exists_at.len() == checks.len(),
        distinct_paths(checks),
        one_result_each(checks, exists_at, results),
    ensures
        paired(checks, exists_at, results),
{
    let n = checks.len() as int;
    let told = result_paths(results);
    let due = there_paths(checks, exists_at, n);
    law_results_are_for_files(checks, exists_at, results);
    lemma_there_paths_distinct(checks, exists_at, n);
    due.lemma_multiset_has_no_duplicates();
    told.lemma_multiset_has_no_duplicates_conv();
    assert forall|j: int, k: int| 0 <= j < k < results.len() implies matching(checks, exists_at, #[trigger] results[j])
        != matching(checks, exists_at, #[trigger] results[k]) by {
        assert(told[j] != told[k]);
        lemma_check_for(checks, exists_at, results[j].0@, n);
        lemma_check_for(checks, exists_at, results[k].0@, n);
    }
    assert forall|i: int| 0 <= i < checks.len() && #[trigger] exists_at[i] implies exists|j: int|
        0 <= j < results.len() && matching(checks, exists_at, #[trigger] results[j]) == Some(i) by {
        let j = choose|j: int| 0 <= j < results.len() && (#[trigger] results[j]).0@ == checks[i].rel;
        lemma_check_for(checks, exists_at, results[j].0@, n);
        assert(matching(checks, exists_at, results[j]) == Some(i));
    }
}

/// Whether the file at place `i` is the last of those to check with its path.
pub open spec fn last_of_path(checks: Seq<CheckView>, i: int) -> bool {
    forall|k: int| i < k < checks.len() ==> (#[trigger] checks[k]).rel != checks[i].rel
}

/// Whether a file was read and found as it was recorded: there is a result for its
/// path, and every such result has the recorded size and digest.
pub open spec fn intact(check: CheckView, results: Seq<(String, VerifyResult)>) -> bool {
    &&& exists|j: int| 0 <= j < results.len() && (#[trigger] results[j]).0@ == check.rel
    &&& forall|j: int|
        0 <= j < results.len() && (#[trigger] results[j]).0@ == check.rel ==> results[j].1.actual_size
            == check.expected_size && results[j].1.actual_sha@ == check.expected_sha
}

/// Where there is one result for each file that is there, a backup without a problem is
/// whole: every file was there, with the recorded size and digest. Of files with the
/// same path the last one says what is recorded.
pub proof fn law_no_problem_means_all_intact(
    label: Seq<char>,
    checks: Seq<CheckView>,
    exists_at: Seq<bool>,
    results: Seq<(String, VerifyResult)>,
)
    requires
        exists_at.len() == checks.len(),
        one_result_each(checks, exists_at, results),
        backup_problems(label, checks, exists_at, results).len() == 0,
    ensures
        forall|i: int| 0 <= i < checks.len() ==> #[trigger] exists_at[i],
        forall|i: int| 0 <= i < checks.len() && #[trigger] last_of_path(checks, i) ==> intact(checks[i], results),
{
    let n = checks.len() as int;
    law_results_are_for_files(checks, exists_at, results);
    lemma_missing_empty(label, checks, exists_at, n);
    lemma_shown_empty(label, checks, exists_at, results, results.len() as int);
    assert(missing_of(label, checks, exists_at, n).len() == 0);
    assert(shown_problems(label, checks, exists_at, results, results.len() as int).len() == 0);
    assert forall|i: int| 0 <= i < checks.len() && #[trigger] last_of_path(checks, i) implies intact(checks[i], results) by {
        assert(exists_at[i]);
        assert forall|j: int| 0 <= j < results.len() && (#[trigger] results[j]).0@ == checks[i].rel implies results[j].1.actual_size
            == checks[i].expected_size && results[j].1.actual_sha@ == checks[i].expected_sha by {
            lemma_check_for(checks, exists_at, results[j].0@, n);
            assert(matching(checks, exists_at, results[j]) == Some(i));
            assert(clean_at(label, checks, exists_at, results, j));
        }
    }
}

proof fn lemma_clean_places(
    label: Seq<char>,
    checks: Seq<CheckView>,
    exists_at: Seq<bool>,
    results: Seq<(String, VerifyResult)>,
    n: int,
)
    requires
        0 <= n <= results.len(),
        paired(checks, exists_at, results),
    ensures
        clean_places(label, checks, exists_at, results, n).finite(),
        clean_places(label, checks, exists_at, results, n).len() == clean_count(label, checks, exists_at, results, n),
    decreases n,
{
    let here = clean_places(label, checks, exists_at, results, n);
    if n == 0 {
        assert(here =~= Set::<int>::empty());
    } else {
        let before = clean_places(label, checks, exists_at, results, n - 1);
        lemma_clean_places(label, checks, exists_at, results, n - 1);
        assert(matching(checks, exists_at, results[n - 1]) is Some);
        let last = matching(checks, exists_at, results[n - 1]).unwrap();
        if clean_at(label, checks, exists_at, results, n - 1) {
            assert(!before.contains(last));
            assert(here =~= before.insert(last));
        } else {
            assert(here =~= before);
        }
    }
}

proof fn lemma_missing_empty(label: Seq<char>, checks: Seq<CheckView>, exists_at: Seq<bool>, n: int)
    requires
        0 <= n <= checks.len(),
        exists_at.len() == checks.len(),
    ensures
        missing_of(label, checks, exists_at, n).len() == 0 <==> forall|i: int| 0 <= i < n ==> #[trigger] exists_at[i],
    decreases n,
{
    if n > 0 {
        lemma_missing_empty(label, checks, exists_at, n - 1);
    }
}

proof fn lemma_shown_empty(
    label: Seq<char>,
    checks: Seq<CheckView>,
    exists_at: Seq<bool>,
    results: Seq<(String, VerifyResult)>,
    n: int,
)
    requires
        0 <= n <= results.len(),
    ensures
        shown_problems(label, checks, exists_at, results, n).len() == 0 <==> forall|j: int|
            0 <= j < n ==> #[trigger] clean_at(label, checks, exists_at, results, j),
    decreases n,
{
    if n > 0 {
        lemma_shown_empty(label, checks, exists_at, results, n - 1);
        let last = result_problems(label, checks[matching(checks, exists_at, results[n - 1]).unwrap()], results[n - 1]);
        assert(clean_at(label, checks, exists_at, results, n - 1) <==> last.len() == 0);
        assert(shown_problems(label, checks, exists_at, results, n).len() == shown_problems(
            label,
            checks,
            exists_at,
            results,
            n - 1,
        ).len() + last.len());
    }
}

/// A file that stands by itself is verified where a restore reads it, and undone as a
/// restore undoes it but for the key.
pub proof fn law_verify_reads_what_restore_reads(r: SourceResolver, file: ManifestFile)
    requires
        transform_of(r.label@, r.info).compress_type == r.transform@.compress_type,
        r.info.current.lookup(resolver::holder_of(file, r.label@)) is Some,
        r.resolution(file) matches ResolutionView::Found(SourceView::Standalone { .. }),
    ensures
        ({
            let check = check_of(r.stanza@, r.label@, r.info, file);
            &&& r.resolution(file) matches ResolutionView::Found(SourceView::Standalone { repo, transform, .. })
            &&& check.storage_path == repo
            &&& check.transform.compress_type == transform.compress_type
        }),
{
}

/// What a backup did to its files is what was recorded of it, key and all; of a backup
/// that nothing was recorded of, nothing was done.
pub proof fn law_recorded_transform(holder: &str, info: &InfoBackup, entry: Option<&crate::info::BackupEntry>, t: RepoTransform)
    requires
        call_ensures(transform_for_holder, (holder, info), t),
        call_ensures(crate::textmap::TextMap::<crate::info::BackupEntry>::get, (&info.current, holder), entry),
    ensures
        entry is Some ==> t.compress_type == entry.unwrap().transform.compress_type && t.compress_level
            == entry.unwrap().transform.compress_level && config::opt_text(t.key) == config::opt_text(entry.unwrap().transform.key),
        entry is None ==> t.compress_type == CompressType::Uncompressed && t.key is None,
{
    assert(t@ == transform_of(holder@, *info));
}

/// A further recorded file is one further check where a digest was recorded for it, and
/// none where not. It is looked for in the backup that holds it, the checked one where no
/// other is named, below its path with the extension of that backup's compression, and
/// held against its own digest and size.
pub proof fn law_each_recorded_digest_is_checked(
    stanza: &str,
    label: &str,
    info: &InfoBackup,
    manifest: &Manifest,
    more: &Manifest,
    a: Vec<FileCheck>,
    b: Vec<FileCheck>,
    holder: &str,
    t: RepoTransform,
)
    requires
        call_ensures(plan_checks, (stanza, label, info, manifest), a),
        call_ensures(plan_checks, (stanza, label, info, more), b),
        more.files.len() > 0,
        more.files@.drop_last() == manifest.files@,
        holder@ == (match more.files@.last().reference {
            Some(reference) => reference@,
            None => label@,
        }),
        call_ensures(transform_for_holder, (holder, info), t),
    ensures
        manifest.files.len() == 0 ==> a.len() == 0,
        more.files@.last().checksum is None ==> b.len() == a.len(),
        more.files@.last().checksum is Some ==> {
            let file = more.files@.last();
            &&& b.len() == a.len() + 1
            &&& b@.last().rel@ == file.path@
            &&& b@.last().holder@ == holder@
            &&& b@.last().storage_path@ == "backup/"@ + stanza@ + "/"@ + holder@ + "/"@ + (file.path@ + helper::extension(
                t.compress_type,
            ))
            &&& b@.last().transform.compress_type == t.compress_type
            &&& config::opt_text(b@.last().transform.key) == config::opt_text(t.key)
            &&& b@.last().expected_sha@ == file.checksum.unwrap()@
            &&& b@.last().expected_size == file.size
        },
        forall|i: int| 0 <= i < a.len() ==> (#[trigger] b[i])@ == a[i]@,
{
    let n = manifest.files.len() as int;
    let va = check_views(a@);
    let vb = check_views(b@);
    assert(va.len() == a.len() && vb.len() == b.len());
    lemma_same_front(stanza@, label@, *info, manifest.files@, more.files@, n);
    assert(more.files.len() == n + 1);
    assert(more.files[n] == more.files@.last());
    assert(t@ == transform_of(holder@, *info));
    if more.files@.last().checksum is Some {
        assert(vb == va.push(check_of(stanza@, label@, *info, more.files@.last())));
        assert(vb[a.len() as int] == b@.last()@);
    }
    assert forall|i: int| 0 <= i < a.len() implies (#[trigger] b[i])@ == a[i]@ by {
        assert(vb[i] == b[i]@);
        assert(va[i] == a[i]@);
    }
}

proof fn lemma_same_front(stanza: Seq<char>, label: Seq<char>, info: InfoBackup, a: Seq<ManifestFile>, b: Seq<ManifestFile>, n: int)
    requires
        n <= a.len(),
        b.len() > 0,
        a == b.drop_last(),
    ensures
        checks_of(stanza, label, info, a, n) == checks_of(stanza, label, info, b, n),
    decreases n,
{
    if n > 0 {
        assert(a[n - 1] == b[n - 1]);
        lemma_same_front(stanza, label, info, a, b, n - 1);
    }
}

/// A job that is sent as a request is read back as it was: where the file is read here,
/// which backup holds it, and where it lies in the repository.
pub proof fn law_verify_request_reads_back(
    check: &FileCheck,
    abs_path: String,
    job: VerifyJob,
    request: Request,
    r: Result<(String, String, String), String>,
)
    requires
        call_ensures(verify_job, (check, abs_path), job),
        call_ensures(verify_job_to_request, (&job,), request),
        call_ensures(request_to_verify_job, (&request,), r),
    ensures
        request.cmd@ == check.rel@,
        request.param.len() == 3,
        r is Ok,
        r->Ok_0.0@ == abs_path@,
        r->Ok_0.1@ == check.holder@,
        r->Ok_0.2@ == check.storage_path@,
{
}

/// The answers give results where each holds a digest and a size: these, under the same
/// paths and in the same order. Else the first answer that does not decides the error.
pub proof fn law_answers_give_results(v: &Vec<VerifyAnswer>, r: Result<Vec<(String, VerifyResult)>, CommandError>)
    requires
        call_ensures(verify_results, (v,), r),
    ensures
        r is Ok <==> forall|i: int|
            0 <= i < v.len() ==> (#[trigger] v[i]).reply is Hashed && v[i].reply->sha is Some && v[i].reply->size is Some,
        r is Ok ==> r->Ok_0.len() == v.len() && forall|i: int|
            0 <= i < v.len() ==> (#[trigger] r->Ok_0[i]).0@ == v[i].key@ && r->Ok_0[i].1.actual_sha@ == v[i].reply->sha.unwrap()@
                && r->Ok_0[i].1.actual_size == v[i].reply->size.unwrap(),
        r is Err ==> exists|i: int|
            #![trigger v[i]]
            0 <= i < v.len() && (forall|j: int|
                0 <= j < i ==> (#[trigger] v[j]).reply is Hashed && v[j].reply->sha is Some && v[j].reply->size is Some)
                && r->Err_0.is_other(
                match v[i].reply {
                    VerifyReply::Failed(m) => m@,
                    VerifyReply::Empty => "verify of "@ + v[i].key@ + " produced an unexpected empty response"@,
                    VerifyReply::Hashed { sha, .. } => if sha is None {
                        "verify of "@ + v[i].key@ + " returned no checksum"@
                    } else {
                        "verify of "@ + v[i].key@ + " returned no size"@
                    },
                },
            ),
{
    lemma_first_unusable(v@, 0);
    assert(forall|i: int|
        #![trigger v[i]]
        0 <= i < v.len() ==> (answer_error(v@[i]) is None <==> v[i].reply is Hashed && v[i].reply->sha is Some && v[i].reply->size is Some));
    if let Some(k) = first_unusable(v@, 0) {
        assert(answer_error(v[k]) is Some);
        assert forall|j: int| 0 <= j < k implies (#[trigger] v[j]).reply is Hashed && v[j].reply->sha is Some
            && v[j].reply->size is Some by {
            assert(answer_error(v@[j]) is None);
        }
    } else {
        assert forall|i: int| 0 <= i < v.len() implies (#[trigger] v[i]).reply is Hashed && v[i].reply->sha is Some
            && v[i].reply->size is Some by {
            assert(answer_error(v@[i]) is None);
        }
        assert forall|i: int| 0 <= i < v.len() implies (#[trigger] r->Ok_0[i]).0@ == v[i].key@ && r->Ok_0[i].1.actual_sha@
            == v[i].reply->sha.unwrap()@ && r->Ok_0[i].1.actual_size == v[i].reply->size.unwrap() by {
            assert(answers(r->Ok_0@[i], v@[i]));
        }
    }
}

proof fn lemma_first_unusable(v: Seq<VerifyAnswer>, i: int)
    requires
        0 <= i,
    ensures
        match first_unusable(v, i) {
            Some(k) => i <= k < v.len() && answer_error(v[k]) is Some && forall|j: int|
                i <= j < k ==> answer_error(#[trigger] v[j]) is None,
            None => forall|j: int| i <= j < v.len() ==> answer_error(#[trigger] v[j]) is None,
        },
    decreases v.len() - i,
{
    if i < v.len() && answer_error(v[i]) is None {
        lemma_first_unusable(v, i + 1);
    }
}

/// A result counts against the last of the files to check that is there under its path;
/// where there is none, the backup cannot be judged.
pub proof fn law_unknown_results_fail(
    report: VerifyReport,
    label: &str,
    checks: &Vec<FileCheck>,
    exists_at: &Vec<bool>,
    results: &Vec<(String, VerifyResult)>,
    r: Result<VerifyReport, CommandError>,
)
    requires
        exists_at.len() == checks.len(),
        report.backups_checked < usize::MAX,
        report.files_checked + checks.len() <= usize::MAX,
        call_ensures(verify_backup, (report, label, checks, exists_at, results), r),
    ensures
        r is Ok <==> forall|j: int|
            0 <= j < results.len() ==> exists|i: int|
                0 <= i < checks.len() && exists_at[i] && (#[trigger] checks[i]).rel@ == (#[trigger] results[j]).0@,
{
    let model = check_views(checks@);
    assert(model.len() == checks.len());
    assert(forall|i: int| 0 <= i < checks.len() ==> (#[trigger] model[i]).rel == checks[i].rel@);
    lemma_first_unknown(model, exists_at@, results@, 0);
    assert forall|j: int| 0 <= j < results.len() implies (matching(model, exists_at@, #[trigger] results@[j]) is Some <==> exists|i: int|
        0 <= i < checks.len() && exists_at[i] && (#[trigger] checks[i]).rel@ == results[j].0@) by {
        lemma_check_for(model, exists_at@, results@[j].0@, checks.len() as int);
        if let Some(i) = matching(model, exists_at@, results@[j]) {
            assert(checks[i].rel@ == results[j].0@);
        }
        if exists|i: int| 0 <= i < checks.len() && exists_at[i] && (#[trigger] checks[i]).rel@ == results[j].0@ {
            let i = choose|i: int| 0 <= i < checks.len() && exists_at[i] && (#[trigger] checks[i]).rel@ == results[j].0@;
            assert(model[i].rel == results@[j].0@);
        }
    }
    if first_unknown(model, exists_at@, results@, 0) is None {
        assert forall|j: int| 0 <= j < results.len() implies exists|i: int|
            0 <= i < checks.len() && exists_at[i] && (#[trigger] checks[i]).rel@ == (#[trigger] results[j]).0@ by {
            assert(matching(model, exists_at@, results@[j]) is Some);
        }
    } else {
        let j = first_unknown(model, exists_at@, results@, 0).unwrap();
        assert(matching(model, exists_at@, results@[j]) is None);
        assert(0 <= j < results.len());
        assert(results[j] == results@[j]);
    }
}

proof fn lemma_first_unknown(checks: Seq<CheckView>, exists_at: Seq<bool>, results: Seq<(String, VerifyResult)>, i: int)
    requires
        0 <= i,
    ensures
        match first_unknown(checks, exists_at, results, i) {
            Some(k) => i <= k < results.len() && matching(checks, exists_at, results[k]) is None,
            None => forall|j: int| i <= j < results.len() ==> matching(checks, exists_at, #[trigger] results[j]) is Some,
        },
    decreases results.len() - i,
{
    if i < results.len() && matching(checks, exists_at, results[i]) is Some {
        lemma_first_unknown(checks, exists_at, results, i + 1);
    }
}

/// One result more adds the problems that it shows and no other: another size than the
/// recorded one, then another digest. Where it shows none, one more file is intact. The
/// problems before it stand.
pub proof fn law_one_more_result(
    report: VerifyReport,
    label: &str,
    checks: &Vec<FileCheck>,
    exists_at: &Vec<bool>,
    results: &Vec<(String, VerifyResult)>,
    more: &Vec<(String, VerifyResult)>,
    i: int,
    a: Result<VerifyReport, CommandError>,
    b: Result<VerifyReport, CommandError>,
)
    requires
        exists_at.len() == checks.len(),
        report.backups_checked < usize::MAX,
        report.files_checked + checks.len() <= usize::MAX,
        call_ensures(verify_backup, (report, label, checks, exists_at, results), a),
        call_ensures(verify_backup, (report, label, checks, exists_at, more), b),
        a is Ok,
        b is Ok,
        more.len() > 0,
        more@.drop_last() == results@,
        0 <= i < checks.len(),
        exists_at[i],
        checks[i].rel@ == more@.last().0@,
        forall|k: int| i < k < checks.len() && exists_at[k] ==> (#[trigger] checks[k]).rel@ != more@.last().0@,
    ensures
        ({
            let before = report::problem_views(a->Ok_0.problems@);
            let after = report::problem_views(b->Ok_0.problems@);
            let x = more@.last();
            let size = if x.1.actual_size != checks[i].expected_size {
                seq![
                    ProblemView::SizeMismatch {
                        backup: label@,
                        path: x.0@,
                        expected: checks[i].expected_size,
                        actual: x.1.actual_size,
                    },
                ]
            } else {
                seq![]
            };
            let sha = if x.1.actual_sha@ != checks[i].expected_sha@ {
                seq![
                    ProblemView::ChecksumMismatch {
                        backup: label@,
                        path: x.0@,
                        expected: checks[i].expected_sha@,
                        actual: x.1.actual_sha@,
                    },
                ]
            } else {
                seq![]
            };
            let clean = x.1.actual_size == checks[i].expected_size && x.1.actual_sha@ == checks[i].expected_sha@;
            &&& after == before + size + sha
            &&& b->Ok_0.backups@.last().valid == a->Ok_0.backups@.last().valid + (if clean {
                1int
            } else {
                0int
            })
            &&& b->Ok_0.backups_checked == report.backups_checked + 1
            &&& b->Ok_0.files_checked == report.files_checked + checks.len()
            &&& b->Ok_0.backups@.last().total == checks.len()
            &&& b->Ok_0.backups@.last().label@ == label@
        }),
{
    let model = check_views(checks@);
    let n = results.len() as int;
    assert(model.len() == checks.len());
    assert(forall|k: int| 0 <= k < checks.len() ==> (#[trigger] model[k]) == checks[k]@);
    lemma_check_for(model, exists_at@, more@.last().0@, checks.len() as int);
    assert(more@[n] == more@.last());
    let m = matching(model, exists_at@, more@[n]);
    if m is None {
        assert(model[i].rel != more@.last().0@);
    }
    let p = m.unwrap();
    if p < i {
        assert(model[i].rel != more@.last().0@);
    }
    if i < p {
        assert(checks[p].rel@ != more@.last().0@);
    }
    lemma_same_results(label@, model, exists_at@, results@, more@, n);
    let old_shown = shown_problems(label@, model, exists_at@, results@, n);
    let added = result_problems(label@, model[i], more@[n]);
    assert(shown_problems(label@, model, exists_at@, more@, n + 1) == old_shown + added);
    let start = report::problem_views(report.problems@);
    let missing = missing_of(label@, model, exists_at@, checks.len() as int);
    assert(report::problem_views(a->Ok_0.problems@) == start + (missing + old_shown));
    assert(report::problem_views(b->Ok_0.problems@) == start + (missing + (old_shown + added)));
    assert(start + (missing + (old_shown + added)) =~= start + (missing + old_shown) + added);
    if more@[n].1.actual_size != model[i].expected_size {
        assert(added.len() > 0);
    }
}

proof fn lemma_same_results(
    label: Seq<char>,
    checks: Seq<CheckView>,
    exists_at: Seq<bool>,
    a: Seq<(String, VerifyResult)>,
    b: Seq<(String, VerifyResult)>,
    n: int,
)
    requires
        n <= a.len(),
        b.len() > 0,
        a == b.drop_last(),
    ensures
        shown_problems(label, checks, exists_at, a, n) == shown_problems(label, checks, exists_at, b, n),
        clean_count(label, checks, exists_at, a, n) == clean_count(label, checks, exists_at, b, n),
    decreases n,
{
    if n > 0 {
        assert(a[n - 1] == b[n - 1]);
        lemma_same_results(label, checks, exists_at, a, b, n - 1);
    }
}

/// Without results the problems of a backup are its missing files: one for each file to
/// check that is not there, and none for one that is.
pub proof fn law_missing_files_alone(
    report: VerifyReport,
    label: &str,
    checks: &Vec<FileCheck>,
    exists_at: &Vec<bool>,
    results: &Vec<(String, VerifyResult)>,
    r: Result<VerifyReport, CommandError>,
    path: Seq<char>,
)
    requires
        exists_at.len() == checks.len(),
        report.backups_checked < usize::MAX,
        report.files_checked + checks.len() <= usize::MAX,
        results.len() == 0,
        report.problems.len() == 0,
        call_ensures(verify_backup, (report, label, checks, exists_at, results), r),
    ensures
        r is Ok,
        r->Ok_0.problems.len() + there_count(exists_at@, checks.len() as int) == checks.len(),
        report::problem_views(r->Ok_0.problems@).contains(ProblemView::MissingFile { backup: label@, path }) <==> exists|i: int|
            0 <= i < checks.len() && !exists_at[i] && (#[trigger] checks[i]).rel@ == path,
        forall|i: int| 0 <= i < r->Ok_0.problems.len() ==> (#[trigger] r->Ok_0.problems[i]) is MissingFile,
{
    let model = check_views(checks@);
    let n = checks.len() as int;
    let found = missing_of(label@, model, exists_at@, n);
    let views = report::problem_views(r->Ok_0.problems@);
    assert(model.len() == checks.len());
    assert(results@ =~= Seq::<(String, VerifyResult)>::empty());
    assert(first_unknown(model, exists_at@, results@, 0) is None);
    assert(report::problem_views(report.problems@) =~= Seq::<ProblemView>::empty());
    assert(views =~= found);
    assert(views.len() == r->Ok_0.problems.len());
    law_missing_files_are_reported(label@, model, exists_at@, n);
    lemma_missing_contains(label@, model, exists_at@, n, path);
    if exists|i: int| 0 <= i < checks.len() && !exists_at[i] && (#[trigger] checks[i]).rel@ == path {
        let i = choose|i: int| 0 <= i < checks.len() && !exists_at[i] && (#[trigger] checks[i]).rel@ == path;
        assert(model[i].rel == path);
    }
    if exists|i: int| 0 <= i < n && !exists_at@[i] && (#[trigger] model[i]).rel == path {
        let i = choose|i: int| 0 <= i < n && !exists_at@[i] && (#[trigger] model[i]).rel == path;
        assert(checks[i].rel@ == path);
    }
    assert forall|i: int| 0 <= i < r->Ok_0.problems.len() implies (#[trigger] r->Ok_0.problems[i]) is MissingFile by {
        assert(views[i] == r->Ok_0.problems[i]@);
        lemma_missing_only(label@, model, exists_at@, n, i);
    }
}

proof fn lemma_missing_contains(label: Seq<char>, checks: Seq<CheckView>, exists_at: Seq<bool>, n: int, path: Seq<char>)
    requires
        0 <= n <= checks.len(),
    ensures
        missing_of(label, checks, exists_at, n).contains(ProblemView::MissingFile { backup: label, path }) <==> exists|i: int|
            0 <= i < n && !exists_at[i] && (#[trigger] checks[i]).rel == path,
    decreases n,
{
    let p = ProblemView::MissingFile { backup: label, path };
    if n > 0 {
        lemma_missing_contains(label, checks, exists_at, n - 1, path);
        let front = missing_of(label, checks, exists_at, n - 1);
        let all = missing_of(label, checks, exists_at, n);
        if !exists_at[n - 1] {
            let last = ProblemView::MissingFile { backup: label, path: checks[n - 1].rel };
            assert(all == front.push(last));
            if front.contains(p) {
                let k = choose|k: int| 0 <= k < front.len() && front[k] == p;
                assert(all[k] == p);
            }
            if checks[n - 1].rel == path {
                assert(all[front.len() as int] == p);
            }
            if all.contains(p) {
                let k = choose|k: int| 0 <= k < all.len() && all[k] == p;
                if k < front.len() {
                    assert(front[k] == p);
                } else {
                    assert(checks[n - 1].rel == path);
                }
            }
        }
    }
}

proof fn lemma_missing_only(label: Seq<char>, checks: Seq<CheckView>, exists_at: Seq<bool>, n: int, i: int)
    requires
        0 <= i < missing_of(label, checks, exists_at, n).len(),
    ensures
        missing_of(label, checks, exists_at, n)[i] is MissingFile,
    decreases n,
{
    if n > 0 {
        let front = missing_of(label, checks, exists_at, n - 1);
        if i < front.len() {
            lemma_missing_only(label, checks, exists_at, n - 1, i);
        }
    }
}

/// A backup that was checked is reported behind those before it, which stay as they were:
/// under its label, with the number of its checks, and with a line for each problem that
/// was added. All its checks count. Nothing else of the report changes.
pub proof fn law_backup_is_reported(
    report: VerifyReport,
    label: &str,
    checks: &Vec<FileCheck>,
    exists_at: &Vec<bool>,
    results: &Vec<(String, VerifyResult)>,
    r: Result<VerifyReport, CommandError>,
    i: int,
)
    requires
        exists_at.len() == checks.len(),
        report.backups_checked < usize::MAX,
        report.files_checked + checks.len() <= usize::MAX,
        call_ensures(verify_backup, (report, label, checks, exists_at, results), r),
        r is Ok,
    ensures
        r->Ok_0.backups_checked == report.backups_checked + 1,
        r->Ok_0.files_checked == report.files_checked + checks.len(),
        r->Ok_0.backups.len() == report.backups.len() + 1,
        0 <= i < report.backups.len() ==> r->Ok_0.backups[i] == report.backups[i],
        r->Ok_0.backups[report.backups.len() as int].label@ == label@,
        r->Ok_0.backups[report.backups.len() as int].total == checks.len(),
        r->Ok_0.problems.len() == report.problems.len() + r->Ok_0.backups[report.backups.len() as int].errors.len(),
        0 <= i < report.problems.len() ==> r->Ok_0.problems[i]@ == report.problems[i]@,
        0 <= i < r->Ok_0.backups[report.backups.len() as int].errors.len()
            ==> r->Ok_0.backups[report.backups.len() as int].errors[i]@ == r->Ok_0.problems[report.problems.len() + i]@.line(),
        r->Ok_0.archive == report.archive,
        r->Ok_0.info_problems == report.info_problems,
{
    let after = r->Ok_0;
    let found = backup_problems(label@, check_views(checks@), exists_at@, results@);
    let views = report::problem_views(after.problems@);
    let before = report::problem_views(report.problems@);
    let lines = text::texts(after.backups@.last().errors@);
    assert(check_views(checks@).len() == checks.len());
    assert(views.len() == after.problems.len() && before.len() == report.problems.len());
    assert(views == before + found);
    assert(lines == report::problem_lines(found));
    assert(lines.len() == after.backups@.last().errors.len());
    assert(lines.len() == found.len());
    if 0 <= i < report.problems.len() {
        assert(views[i] == before[i]);
    }
    if 0 <= i < lines.len() {
        assert(views[report.problems.len() + i] == found[i]);
        assert(lines[i] == found[i].line());
    }
}

}
