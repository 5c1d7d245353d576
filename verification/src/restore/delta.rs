//! Which files of the target a delta restore leaves as they are.
use vstd::prelude::*;

use crate::text;
use crate::config;
use crate::info::{ManifestFile, StorageInfo, StorageKind};
use crate::protocol::{ParamValue, Request};
use crate::text::text_eq;

verus! {

/// Whether a file of the recorded size stands in the target.
pub open spec fn size_fits(info: Option<StorageInfo>, file: ManifestFile) -> bool {
    info matches Some(i) && i.kind == StorageKind::File && i.size == file.size
}

/// Whether the target's file is the recorded one: of the recorded size and, where a
/// checksum was recorded, with that digest. `info` is what the target tells of the
/// path and `digest` the SHA-1 of the file there; each is none where it failed.
pub open spec fn unchanged(info: Option<StorageInfo>, digest: Option<Seq<char>>, file: ManifestFile) -> bool {
    &&& size_fits(info, file)
    &&& match config::opt_text(file.checksum) {
        Some(recorded) => digest == Some(recorded),
        None => true,
    }
}

/// The target's answer behind an optional reference.
pub open spec fn opt_info(info: Option<&StorageInfo>) -> Option<StorageInfo> {
    match info {
        Some(i) => Some(*i),
        None => None,
    }
}

/// Whether the target's file is the recorded one.
pub fn target_matches(info: Option<&StorageInfo>, digest: Option<&str>, file: &ManifestFile) -> (r: bool)
    ensures
        r == unchanged(opt_info(info), config::opt_view(digest), *file),
{
    let fits: bool = match info {
        Some(i) => i.kind == StorageKind::File && i.size == file.size,
        None => false,
    };
    if !fits {
        return false;
    }
    match &file.checksum {
        Some(recorded) => match digest {
            Some(actual) => text_eq(actual, recorded.as_str()),
            None => false,
        },
        None => true,
    }
}

/// What the target's answer settles without reading the file.
#[derive(Debug, Clone, PartialEq, Eq)]
pub enum DeltaMatch {
    /// It is the recorded file.
    Matches,
    /// It is if the file there has this digest.
    NeedsHash {
        /// Where the file can be read; empty where the target is not local.
        abs_path: String,
        expected_sha: String,
    },
    /// It is not.
    NoMatch,
}

/// What the target's answer settles without reading the file.
pub fn classify_delta_match(info: Option<&StorageInfo>, file: &ManifestFile, local_pg: bool) -> (r: DeltaMatch)
    ensures
        match config::opt_text(file.checksum) {
            Some(recorded) => if size_fits(opt_info(info), *file) {
                r matches DeltaMatch::NeedsHash { abs_path, expected_sha } && expected_sha@ == recorded && abs_path@ == (
                if local_pg {
                    opt_info(info).unwrap().path@
                } else {
                    Seq::<char>::empty()
                })
            } else {
                r == DeltaMatch::NoMatch
            },
            None => r == (if size_fits(opt_info(info), *file) {
                DeltaMatch::Matches
            } else {
                DeltaMatch::NoMatch
            }),
        },
{
    let found = match info {
        Some(i) => i,
        None => return DeltaMatch::NoMatch,
    };
    if !(found.kind == StorageKind::File && found.size == file.size) {
        return DeltaMatch::NoMatch;
    }
    match &file.checksum {
        None => DeltaMatch::Matches,
        Some(recorded) => {
            let abs_path = if local_pg {
                found.path.clone()
            } else {
                String::new()
            };
            DeltaMatch::NeedsHash { abs_path, expected_sha: recorded.clone() }
        },
    }
}

/// A file of the target whose digest decides.
#[derive(Debug, Clone, PartialEq, Eq)]
pub struct DeltaJob {
    /// Its recorded path.
    pub rel: String,
    /// Where it can be read.
    pub abs_path: String,
    /// The digest it has if it is unchanged.
    pub expected_sha: String,
}

/// The job as a request: its path is the command, the place and the digest are the
/// parameters.
pub fn delta_request(job: &DeltaJob) -> (r: Request)
    ensures
        r.cmd@ == job.rel@,
        r.param.len() == 2,
        r.text_at(0) == Some(job.abs_path@),
        r.text_at(1) == Some(job.expected_sha@),
{
    let mut param: Vec<ParamValue> = Vec::new();
    param.push(ParamValue::Text(job.abs_path.clone()));
    param.push(ParamValue::Text(job.expected_sha.clone()));
    Request { cmd: job.rel.clone(), param }
}

/// The place and the digest that a request carries.
pub fn delta_request_decode(request: &Request) -> (r: Result<(String, String), String>)
    ensures
        match (request.text_at(0), request.text_at(1)) {
            (None, _) => r matches Err(m) && m@ == "delta job missing abs path"@,
            (Some(_), None) => r matches Err(m) && m@ == "delta job missing expected sha"@,
            (Some(path), Some(sha)) => r matches Ok(v) && v.0@ == path && v.1@ == sha,
        },
{
    let path = match request.param_text(0) {
        Some(p) => p,
        None => return Err("delta job missing abs path".to_owned()),
    };
    let sha = match request.param_text(1) {
        Some(s) => s,
        None => return Err("delta job missing expected sha".to_owned()),
    };
    Ok((path.to_owned(), sha.to_owned()))
}

/// How a worker answered a job.
#[derive(Debug, Clone, PartialEq, Eq)]
pub enum DeltaReply {
    /// Whether the digest was the expected one.
    Compared(bool),
    /// With something else.
    Unexpected,
    /// Not at all.
    Failed(String),
}

/// The answer to the job for the path `key`.
#[derive(Debug, Clone, PartialEq, Eq)]
pub struct DeltaResult {
    pub key: String,
    pub reply: DeltaReply,
}

/// Whether the answers say of `path` that the file there is unchanged.
pub open spec fn confirmed(results: Seq<DeltaResult>, path: Seq<char>) -> bool {
    exists|i: int| 0 <= i < results.len() && (#[trigger] results[i]).key@ == path && results[i].reply == DeltaReply::Compared(
        true,
    )
}

/// Whether one of the first `n` answers, each for the file at the place that `asked`
/// gives, says of the file at place `i` that it is unchanged.
pub open spec fn confirmed_at(results: Seq<DeltaResult>, asked: Seq<int>, n: int, i: int) -> bool {
    exists|j: int| 0 <= j < n && #[trigger] asked[j] == i && results[j].reply == DeltaReply::Compared(true)
}

/// Whether there is one answer for each job, in the order of the jobs.
pub open spec fn in_order(results: Seq<DeltaResult>, jobs: Seq<DeltaJob>) -> bool {
    &&& results.len() == jobs.len()
    &&& forall|j: int| 0 <= j < results.len() ==> (#[trigger] results[j]).key@ == jobs[j].rel@
}

/// Whether there is one answer for each job, under the job's path, in any order.
pub open spec fn covers(results: Seq<DeltaResult>, jobs: Seq<DeltaJob>) -> bool {
    Seq::new(results.len(), |j: int| results[j].key@).to_multiset() == Seq::new(jobs.len(), |j: int| jobs[j].rel@).to_multiset()
}

/// The paths that the answers confirm. Any other answer leaves its file to be
/// restored.
pub fn matched_paths(results: &Vec<DeltaResult>) -> (r: Vec<String>)
    ensures
        r.len() <= results.len(),
        forall|path: Seq<char>| text::texts(r@).contains(path) <==> #[trigger] confirmed(results@, path),
{
    let mut out: Vec<String> = Vec::new();
    let n: usize = results.len();
    let mut i: usize = 0;
    proof {
        assert(results@.take(0) =~= Seq::<DeltaResult>::empty());
    }
    while i < n
        invariant
            i <= n,
            n == results.len(),
            out.len() <= i,
            forall|path: Seq<char>| text::texts(out@).contains(path) <==> #[trigger] confirmed(results@.take(i as int), path),
        decreases n - i,
    {
        let ghost before = out@;
        let ghost front = results@.take(i as int);
        let ghost more = results@.take(i as int + 1);
        let hit: bool = match &results[i].reply {
            DeltaReply::Compared(b) => *b,
            _ => false,
        };
        if hit {
            out.push(results[i].key.clone());
        }
        proof {
            assert(more =~= front.push(results@[i as int]));
            if hit {
                assert(text::texts(out@) =~= text::texts(before).push(results@[i as int].key@));
            }
            assert forall|path: Seq<char>| text::texts(out@).contains(path) <==> #[trigger] confirmed(more, path) by {
                assert(text::texts(before).contains(path) <==> confirmed(front, path));
                if confirmed(front, path) {
                    let k = choose|k: int|
                        0 <= k < front.len() && (#[trigger] front[k]).key@ == path && front[k].reply
                            == DeltaReply::Compared(true);
                    assert(more[k] == front[k]);
                    let j = choose|j: int| 0 <= j < text::texts(before).len() && text::texts(before)[j] == path;
                    assert(text::texts(out@)[j] == path);
                }
                if hit && results@[i as int].key@ == path {
                    assert(more[i as int].key@ == path);
                    assert(text::texts(out@)[text::texts(before).len() as int] == path);
                }
                if confirmed(more, path) {
                    let k = choose|k: int|
                        0 <= k < more.len() && (#[trigger] more[k]).key@ == path && more[k].reply
                            == DeltaReply::Compared(true);
                    if k < i {
                        assert(front[k] == more[k]);
                    }
                }
                if text::texts(out@).contains(path) {
                    let j = choose|j: int| 0 <= j < text::texts(out@).len() && text::texts(out@)[j] == path;
                    if j < text::texts(before).len() {
                        assert(text::texts(before)[j] == path);
                    }
                }
            }
        }
        i += 1;
    }
    assert(results@.take(n as int) =~= results@);
    out
}

/// What is settled without reading agrees with reading: a match holds whatever the
/// digest, no match holds whatever the digest, and otherwise the digest decides.
pub proof fn law_classification_agrees(info: Option<StorageInfo>, digest: Option<Seq<char>>, file: ManifestFile)
    ensures
        !size_fits(info, file) ==> !unchanged(info, digest, file),
        size_fits(info, file) && file.checksum is None ==> unchanged(info, digest, file),
        size_fits(info, file) && file.checksum is Some ==> (unchanged(info, digest, file) <==> digest == config::opt_text(
            file.checksum,
        )),
{
}

/// A file of the target is left as it is where a regular file of the recorded size stands
/// there and, where a digest was recorded, reading it gave that digest. What is settled
/// before it is read agrees: it matches without a recorded digest, it is not read where
/// kind or size differ, and else its digest decides, read where the target says it lies.
pub proof fn law_unchanged_files_stay(
    info: Option<&StorageInfo>,
    digest: Option<&str>,
    file: &ManifestFile,
    local: bool,
    r: bool,
    settled: DeltaMatch,
)
    requires
        call_ensures(target_matches, (info, digest, file), r),
        call_ensures(classify_delta_match, (info, file, local), settled),
    ensures
        r <==> info is Some && info.unwrap().kind == StorageKind::File && info.unwrap().size == file.size && (file.checksum is None || (
        digest is Some && digest.unwrap()@ == file.checksum.unwrap()@)),
        settled is NoMatch <==> !(info is Some && info.unwrap().kind == StorageKind::File && info.unwrap().size == file.size),
        settled is Matches <==> info is Some && info.unwrap().kind == StorageKind::File && info.unwrap().size == file.size
            && file.checksum is None,
        settled is NeedsHash ==> settled->expected_sha@ == file.checksum.unwrap()@,
        settled is NeedsHash && local ==> settled->abs_path@ == info.unwrap().path@,
        settled is NeedsHash && !local ==> settled->abs_path@.len() == 0,
{
}

/// A job that is sent as a request is read back as it was: the place and the digest.
pub proof fn law_delta_request_reads_back(job: &DeltaJob, request: Request, r: Result<(String, String), String>)
    requires
        call_ensures(delta_request, (job,), request),
        call_ensures(delta_request_decode, (&request,), r),
    ensures
        request.cmd@ == job.rel@,
        request.param.len() == 2,
        r is Ok,
        r->Ok_0.0@ == job.abs_path@,
        r->Ok_0.1@ == job.expected_sha@,
{
}

/// A path counts as unchanged where an answer for it says so, and nowhere else: an answer
/// that failed or says something else leaves its file to be restored.
pub proof fn law_only_confirmed_paths_match(results: &Vec<DeltaResult>, r: Vec<String>, path: Seq<char>)
    requires
        call_ensures(matched_paths, (results,), r),
    ensures
        text::texts(r@).contains(path) <==> exists|i: int|
            0 <= i < results.len() && (#[trigger] results[i]).key@ == path && results[i].reply == DeltaReply::Compared(true),
{
    assert(text::texts(r@).contains(path) <==> confirmed(results@, path));
}

/// A request is read where its first two parameters are texts, as a path and a digest; else
/// it is said which of them is missing.
pub proof fn law_delta_requests_hold_two_texts(
    request: &Request,
    path: Option<&str>,
    sha: Option<&str>,
    r: Result<(String, String), String>,
)
    requires
        call_ensures(Request::param_text, (request, 0usize), path),
        call_ensures(Request::param_text, (request, 1usize), sha),
        call_ensures(delta_request_decode, (request,), r),
    ensures
        r is Ok <==> path is Some && sha is Some,
        r is Ok ==> r->Ok_0.0@ == path.unwrap()@ && r->Ok_0.1@ == sha.unwrap()@,
        path is None ==> r->Err_0@ == "delta job missing abs path"@,
        path is Some && sha is None ==> r->Err_0@ == "delta job missing expected sha"@,
{
}

}
