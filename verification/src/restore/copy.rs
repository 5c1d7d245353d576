//! Copying the files of a backup: what is read, what is checked, what is reported.
use vstd::prelude::*;

use crate::text;
use crate::config;
use crate::config::CommandError;
use crate::info::{RepoTransform, TransformView};
use crate::protocol::{ParamValue, Request};
use crate::restore::resolver;
use crate::restore::resolver::{BlockSource, RestoreSource};
use crate::text::{cat3, print_unsigned, text_eq};

verus! {

/// A file to copy.
pub struct RestoreCopyJob {
    /// Its recorded path.
    pub rel: String,
    /// Where its bytes come from.
    pub source: RestoreSource,
    /// Where it goes.
    pub abs_dst: String,
    /// The SHA-1 of its plain bytes; none for an empty file.
    pub expected_checksum: Option<String>,
    /// Its mode bits, where they were recorded.
    pub mode: Option<u32>,
}

/// Stored bytes to read: a whole object, or `len` bytes from `offset` on.
pub struct Part {
    pub path: String,
    pub slice: Option<(u64, u64)>,
    /// What was done to them.
    pub transform: RepoTransform,
}

/// The contents of a [`Part`].
pub struct PartView {
    pub path: Seq<char>,
    pub slice: Option<(u64, u64)>,
    pub transform: TransformView,
}

impl View for Part {
    type V = PartView;

    open spec fn view(&self) -> PartView {
        PartView { path: self.path@, slice: self.slice, transform: self.transform@ }
    }
}

/// The contents of a list of parts.
pub open spec fn part_views(v: Seq<Part>) -> Seq<PartView> {
    Seq::new(v.len(), |i: int| v[i]@)
}

/// The part that a block is, read on this host or through the repository.
pub open spec fn block_part(block: BlockSource, local: bool) -> PartView {
    PartView {
        path: if local {
            block.abs_bundle@
        } else {
            block.repo_bundle@
        },
        slice: Some((block.offset, block.len)),
        transform: block.transform@,
    }
}

/// What is read for a source, in order, on this host or through the repository.
pub open spec fn parts_of(source: RestoreSource, local: bool) -> Seq<PartView> {
    match source {
        RestoreSource::Standalone { abs_src, repo_src, transform } => seq![
            PartView {
                path: if local {
                    abs_src@
                } else {
                    repo_src@
                },
                slice: None,
                transform: transform@,
            },
        ],
        RestoreSource::Bundled { abs_bundle, repo_bundle, offset, len, transform } => seq![
            PartView {
                path: if local {
                    abs_bundle@
                } else {
                    repo_bundle@
                },
                slice: Some((offset, len)),
                transform: transform@,
            },
        ],
        RestoreSource::Blocks(blocks) => Seq::new(blocks.len() as nat, |i: int| block_part(blocks[i], local)),
    }
}

fn pick<'a>(local: bool, abs: &'a String, repo: &'a String) -> (r: String)
    ensures
        r@ == (if local {
            abs@
        } else {
            repo@
        }),
{
    if local {
        abs.clone()
    } else {
        repo.clone()
    }
}

/// What is read for a source, in order. A file's plain bytes are what the parts
/// give when their transforms are undone, one after the other.
pub fn source_parts(source: &RestoreSource, local: bool) -> (r: Vec<Part>)
    ensures
        part_views(r@) == parts_of(*source, local),
{
    let mut out: Vec<Part> = Vec::new();
    match source {
        RestoreSource::Standalone { abs_src, repo_src, transform } => {
            out.push(Part { path: pick(local, abs_src, repo_src), slice: None, transform: transform.copy() });
        },
        RestoreSource::Bundled { abs_bundle, repo_bundle, offset, len, transform } => {
            out.push(
                Part {
                    path: pick(local, abs_bundle, repo_bundle),
                    slice: Some((*offset, *len)),
                    transform: transform.copy(),
                },
            );
        },
        RestoreSource::Blocks(blocks) => {
            let n: usize = blocks.len();
            let mut i: usize = 0;
            while i < n
                invariant
                    i <= n,
                    n == blocks.len(),
                    out.len() == i,
                    forall|k: int| 0 <= k < i ==> #[trigger] part_views(out@)[k] == block_part(blocks[k], local),
                decreases n - i,
            {
                let block = &blocks[i];
                let ghost before = part_views(out@);
                out.push(
                    Part {
                        path: pick(local, &block.abs_bundle, &block.repo_bundle),
                        slice: Some((block.offset, block.len)),
                        transform: block.transform.copy(),
                    },
                );
                proof {
                    assert forall|k: int| 0 <= k < i + 1 implies #[trigger] part_views(out@)[k] == block_part(
                        blocks[k],
                        local,
                    ) by {
                        if k < i {
                            assert(part_views(out@)[k] == before[k]);
                        }
                    }
                }
                i += 1;
            }
        },
    }
    assert(part_views(out@) =~= parts_of(*source, local));
    out
}

/// `n` as a size on this host, the largest where it is larger.
pub open spec fn host_size(n: u64) -> int {
    if n <= usize::MAX {
        n as int
    } else {
        usize::MAX as int
    }
}

fn to_size(n: u64) -> (r: usize)
    ensures
        r == host_size(n),
{
    if n <= usize::MAX as u64 {
        n as usize
    } else {
        usize::MAX
    }
}

/// The message for a slice that does not lie in its bundle.
pub open spec fn slice_message(offset: u64, len: u64, size: int) -> Seq<char> {
    "bundle slice "@ + text::decimal(host_size(offset) as nat) + "..+"@ + text::decimal(host_size(len) as nat)
        + " out of range (len "@ + text::decimal(size as nat) + ")"@
}

/// The `len` bytes from `offset` on of a bundle that was read.
pub fn read_bundle_slice_buffered(bundle: &[u8], offset: u64, len: u64) -> (r: Result<Vec<u8>, CommandError>)
    ensures
        if host_size(offset) + host_size(len) <= bundle@.len() {
            r matches Ok(bytes) && bytes@ == bundle@.subrange(host_size(offset), host_size(offset) + host_size(len))
        } else {
            r matches Err(e) && e.is_other(slice_message(offset, len, bundle@.len() as int))
        },
{
    let start: usize = to_size(offset);
    let count: usize = to_size(len);
    let size: usize = bundle.len();
    if start > size || count > size - start {
        let mut m = cat3("bundle slice ", print_unsigned(start as u64).as_str(), "..+");
        m.append(print_unsigned(count as u64).as_str());
        m.append(" out of range (len ");
        m.append(print_unsigned(size as u64).as_str());
        m.append(")");
        return Err(CommandError::Other(m));
    }
    let mut out: Vec<u8> = Vec::new();
    let end: usize = start + count;
    let mut i: usize = start;
    while i < end
        invariant
            start <= i <= end,
            end <= bundle@.len(),
            out@ == bundle@.subrange(start as int, i as int),
        decreases end - i,
    {
        out.push(bundle[i]);
        i += 1;
        assert(out@ =~= bundle@.subrange(start as int, i as int));
    }
    Ok(out)
}

/// The bytes of an object that a part is: all of them, or its slice where that lies in
/// the object.
pub open spec fn part_bytes(object: Seq<u8>, slice: Option<(u64, u64)>) -> Option<Seq<u8>> {
    match slice {
        None => Some(object),
        Some((offset, len)) => if host_size(offset) + host_size(len) <= object.len() {
            Some(object.subrange(host_size(offset), host_size(offset) + host_size(len)))
        } else {
            None
        },
    }
}

/// The bytes of an object that was read that a part is.
pub fn take_part(object: &Vec<u8>, slice: Option<(u64, u64)>) -> (r: Result<Vec<u8>, CommandError>)
    ensures
        match part_bytes(object@, slice) {
            Some(bytes) => r matches Ok(b) && b@ == bytes,
            None => r matches Err(e) && e.is_other(
                slice_message(slice.unwrap().0, slice.unwrap().1, object.len() as int),
            ),
        },
{
    match slice {
        None => {
            let out = object.clone();
            assert(out@ =~= object@);
            Ok(out)
        },
        Some((offset, len)) => read_bundle_slice_buffered(object.as_slice(), offset, len),
    }
}

/// Byte strings one after the other.
pub open spec fn concatenated(parts: Seq<Vec<u8>>) -> Seq<u8>
    decreases parts.len(),
{
    if parts.len() == 0 {
        Seq::<u8>::empty()
    } else {
        concatenated(parts.drop_last()) + parts.last()@
    }
}

/// The plain bytes of a file, put together from the plain bytes of its parts.
pub fn assemble(parts: &Vec<Vec<u8>>) -> (r: Vec<u8>)
    ensures
        r@ == concatenated(parts@),
{
    let mut out: Vec<u8> = Vec::new();
    let n: usize = parts.len();
    let mut i: usize = 0;
    assert(parts@.take(0) =~= Seq::<Vec<u8>>::empty());
    while i < n
        invariant
            i <= n,
            n == parts.len(),
            out@ == concatenated(parts@.take(i as int)),
        decreases n - i,
    {
        let part = &parts[i];
        let m: usize = part.len();
        let ghost base = out@;
        let mut j: usize = 0;
        while j < m
            invariant
                j <= m,
                m == part.len(),
                out@ == base + part@.take(j as int),
            decreases m - j,
        {
            out.push(part[j]);
            j += 1;
            assert(out@ =~= base + part@.take(j as int));
        }
        proof {
            assert(part@.take(m as int) =~= part@);
            assert(parts@.take(i as int + 1).drop_last() =~= parts@.take(i as int));
        }
        i += 1;
    }
    assert(parts@.take(n as int) =~= parts@);
    out
}

/// Whether the digest of what was restored is the recorded one; nothing is
/// compared where none was recorded.
pub open spec fn digest_fits(expected: Option<String>, actual: Seq<char>) -> bool {
    config::opt_text(expected) matches Some(recorded) ==> recorded == actual
}

/// Whether the digest of what was restored is the recorded one.
pub fn check_restored(rel: &str, expected: &Option<String>, actual: &str) -> (r: Result<(), CommandError>)
    ensures
        if digest_fits(*expected, actual@) {
            r is Ok
        } else {
            r matches Err(e) && e.is_other("restore checksum mismatch for "@ + rel@)
        },
{
    if let Some(recorded) = expected {
        if !text_eq(actual, recorded.as_str()) {
            let mut m = "restore checksum mismatch for ".to_owned();
            m.append(rel);
            return Err(CommandError::Other(m));
        }
    }
    Ok(())
}

/// The plain bytes of the first `n` parts, one after the other: `held` is what can be
/// read at a path, `undo` what undoing a transform gives. None where a part cannot be
/// read, does not lie in its object, or cannot be undone.
pub open spec fn plain_bytes(
    parts: Seq<PartView>,
    held: spec_fn(Seq<char>) -> Option<Seq<u8>>,
    undo: spec_fn(TransformView, Seq<u8>) -> Option<Seq<u8>>,
    n: int,
) -> Option<Seq<u8>>
    decreases n,
{
    if n <= 0 {
        Some(Seq::<u8>::empty())
    } else {
        let part = parts[n - 1];
        let stored = match held(part.path) {
            Some(object) => part_bytes(object, part.slice),
            None => None,
        };
        let plain = match stored {
            Some(bytes) => undo(part.transform, bytes),
            None => None,
        };
        match (plain_bytes(parts, held, undo, n - 1), plain) {
            (Some(front), Some(last)) => Some(front + last),
            _ => None,
        }
    }
}

/// What a job leaves at its place, read on this host or through the repository: the
/// plain bytes of its parts, where their digest is the recorded one; none where the
/// job fails.
pub open spec fn copied_bytes(
    job: RestoreCopyJob,
    local: bool,
    held: spec_fn(Seq<char>) -> Option<Seq<u8>>,
    undo: spec_fn(TransformView, Seq<u8>) -> Option<Seq<u8>>,
    sha1: spec_fn(Seq<u8>) -> Seq<char>,
) -> Option<Seq<u8>> {
    let parts = parts_of(job.source, local);
    match plain_bytes(parts, held, undo, parts.len() as int) {
        Some(plain) => if digest_fits(job.expected_checksum, sha1(plain)) {
            Some(plain)
        } else {
            None
        },
        None => None,
    }
}

/// What a job leaves depends on where its bytes come from and on the recorded digest
/// alone.
pub proof fn law_copy_follows_source(
    a: RestoreCopyJob,
    b: RestoreCopyJob,
    local: bool,
    held: spec_fn(Seq<char>) -> Option<Seq<u8>>,
    undo: spec_fn(TransformView, Seq<u8>) -> Option<Seq<u8>>,
    sha1: spec_fn(Seq<u8>) -> Seq<char>,
)
    requires
        a.source@ == b.source@,
        config::opt_text(a.expected_checksum) == config::opt_text(b.expected_checksum),
    ensures
        copied_bytes(a, local, held, undo, sha1) == copied_bytes(b, local, held, undo, sha1),
{
    let mine = parts_of(a.source, local);
    let yours = parts_of(b.source, local);
    if let RestoreSource::Blocks(blocks) = a.source {
        let others = b.source->Blocks_0;
        assert(resolver::block_views(blocks@) == resolver::block_views(others@));
        assert(resolver::block_views(blocks@).len() == resolver::block_views(others@).len());
        assert forall|i: int| 0 <= i < blocks.len() implies block_part(blocks[i], local) == block_part(others[i], local) by {
            assert(resolver::block_views(blocks@)[i] == resolver::block_views(others@)[i]);
            assert(blocks[i]@ == others[i]@);
        }
    }
    assert(mine =~= yours);
}

/// Reading on this host and reading through the repository take the same parts: as
/// many, with the same slices, and undone the same way. They differ in the path alone.
pub proof fn law_same_parts_either_way(source: RestoreSource)
    ensures
        parts_of(source, true).len() == parts_of(source, false).len(),
        forall|i: int|
            0 <= i < parts_of(source, true).len() ==> {
                &&& (#[trigger] parts_of(source, true)[i]).slice == parts_of(source, false)[i].slice
                &&& parts_of(source, true)[i].transform == parts_of(source, false)[i].transform
            },
{
}

/// A copy through the repository is the same as one on this host: where the same
/// bytes can be read at the matching paths, either both fail or both leave the same
/// bytes.
pub proof fn law_same_copy_either_way(
    job: RestoreCopyJob,
    here: spec_fn(Seq<char>) -> Option<Seq<u8>>,
    through: spec_fn(Seq<char>) -> Option<Seq<u8>>,
    undo: spec_fn(TransformView, Seq<u8>) -> Option<Seq<u8>>,
    sha1: spec_fn(Seq<u8>) -> Seq<char>,
)
    requires
        forall|i: int|
            0 <= i < parts_of(job.source, true).len() ==> here((#[trigger] parts_of(job.source, true)[i]).path)
                == through(parts_of(job.source, false)[i].path),
    ensures
        copied_bytes(job, true, here, undo, sha1) == copied_bytes(job, false, through, undo, sha1),
{
    law_same_parts_either_way(job.source);
    lemma_same_plain(
        parts_of(job.source, true),
        parts_of(job.source, false),
        here,
        through,
        undo,
        parts_of(job.source, true).len() as int,
    );
}

proof fn lemma_same_plain(
    a: Seq<PartView>,
    b: Seq<PartView>,
    here: spec_fn(Seq<char>) -> Option<Seq<u8>>,
    through: spec_fn(Seq<char>) -> Option<Seq<u8>>,
    undo: spec_fn(TransformView, Seq<u8>) -> Option<Seq<u8>>,
    n: int,
)
    requires
        0 <= n <= a.len(),
        a.len() == b.len(),
        forall|i: int| 0 <= i < a.len() ==> (#[trigger] a[i]).slice == b[i].slice && a[i].transform == b[i].transform,
        forall|i: int| 0 <= i < a.len() ==> here((#[trigger] a[i]).path) == through(b[i].path),
    ensures
        plain_bytes(a, here, undo, n) == plain_bytes(b, through, undo, n),
    decreases n,
{
    if n > 0 {
        lemma_same_plain(a, b, here, through, undo, n - 1);
    }
}

/// The permission bits to give a restored file, where a mode was recorded.
pub fn apply_mode(mode: Option<u32>) -> (r: Option<u32>)
    ensures
        match mode {
            Some(m) => r == Some(m & 0o7777),
            None => r is None,
        },
        r matches Some(bits) ==> bits <= 0o7777,
{
    match mode {
        Some(m) => {
            assert(m & 0o7777 <= 0o7777) by (bit_vector);
            Some(m & 0o7777)
        },
        None => None,
    }
}

/// Whether a source reads from the bundle that this host finds at `path`.
pub open spec fn reads_bundle(source: RestoreSource, path: Seq<char>) -> bool {
    match source {
        RestoreSource::Standalone { .. } => false,
        RestoreSource::Bundled { abs_bundle, .. } => abs_bundle@ == path,
        RestoreSource::Blocks(blocks) => exists|j: int|
            0 <= j < blocks.len() && (#[trigger] blocks[j]).abs_bundle@ == path,
    }
}

/// Whether one of the jobs reads from the bundle at `path`.
pub open spec fn some_job_reads(jobs: Seq<RestoreCopyJob>, path: Seq<char>) -> bool {
    exists|i: int| 0 <= i < jobs.len() && reads_bundle((#[trigger] jobs[i]).source, path)
}

fn add_once(names: &mut Vec<String>, name: &String)
    requires
        text::texts(old(names)@).no_duplicates(),
    ensures
        text::texts(final(names)@).no_duplicates(),
        forall|p: Seq<char>| #[trigger] text::texts(final(names)@).contains(p) <==> (text::texts(old(names)@).contains(p) || p == name@),
{
    let ghost before = text::texts(names@);
    let n: usize = names.len();
    let mut i: usize = 0;
    while i < n
        invariant
            i <= n,
            n == names.len(),
            text::texts(names@) == before,
            before.no_duplicates(),
            forall|k: int| 0 <= k < i ==> before[k] != name@,
        decreases n - i,
    {
        assert(before[i as int] == names@[i as int]@);
        if text_eq(names[i].as_str(), name.as_str()) {
            assert(before.contains(name@));
            return;
        }
        i += 1;
    }
    names.push(name.clone());
    proof {
        let after = text::texts(names@);
        assert(after =~= before.push(name@));
        assert forall|p: Seq<char>| #[trigger] after.contains(p) <==> (before.contains(p) || p == name@) by {
            if before.contains(p) {
                let k = choose|k: int| 0 <= k < before.len() && before[k] == p;
                assert(after[k] == p);
            }
            if p == name@ {
                assert(after[before.len() as int] == p);
            }
            if after.contains(p) {
                let k = choose|k: int| 0 <= k < after.len() && after[k] == p;
                if k < before.len() {
                    assert(before[k] == p);
                }
            }
        }
    }
}

/// The bundles that the jobs read from on this host, each named once; none where
/// the repository is read elsewhere.
pub fn bundle_paths(jobs: &Vec<RestoreCopyJob>, local: bool) -> (r: Vec<String>)
    ensures
        !local ==> r.len() == 0,
        local ==> forall|p: Seq<char>| #[trigger] text::texts(r@).contains(p) <==> some_job_reads(jobs@, p),
        text::texts(r@).no_duplicates(),
{
    let mut out: Vec<String> = Vec::new();
    if !local {
        return out;
    }
    let n: usize = jobs.len();
    let mut i: usize = 0;
    while i < n
        invariant
            i <= n,
            n == jobs.len(),
            text::texts(out@).no_duplicates(),
            forall|p: Seq<char>| #[trigger] text::texts(out@).contains(p) <==> some_job_reads(jobs@.take(i as int), p),
        decreases n - i,
    {
        let ghost start = text::texts(out@);
        match &jobs[i].source {
            RestoreSource::Standalone { .. } => {},
            RestoreSource::Bundled { abs_bundle, .. } => {
                add_once(&mut out, abs_bundle);
            },
            RestoreSource::Blocks(blocks) => {
                let m: usize = blocks.len();
                let mut j: usize = 0;
                while j < m
                    invariant
                        j <= m,
                        m == blocks.len(),
                        text::texts(out@).no_duplicates(),
                        forall|p: Seq<char>|
                            #[trigger] text::texts(out@).contains(p) <==> (start.contains(p) || exists|k: int|
                                0 <= k < j && (#[trigger] blocks[k]).abs_bundle@ == p),
                    decreases m - j,
                {
                    let ghost prior = text::texts(out@);
                    add_once(&mut out, &blocks[j].abs_bundle);
                    proof {
                        assert forall|p: Seq<char>|
                            #[trigger] text::texts(out@).contains(p) <==> (start.contains(p) || exists|k: int|
                                0 <= k < j + 1 && (#[trigger] blocks[k]).abs_bundle@ == p) by {
                            assert(prior.contains(p) <==> (start.contains(p) || exists|k: int|
                                0 <= k < j && (#[trigger] blocks[k]).abs_bundle@ == p));
                            if blocks[j as int].abs_bundle@ == p {
                                assert(text::texts(out@).contains(p));
                            }
                        }
                    }
                    j += 1;
                }
            },
        }
        let ghost front = jobs@.take(i as int);
        let ghost more = jobs@.take(i as int + 1);
        proof {
            assert(more =~= front.push(jobs@[i as int]));
            assert forall|p: Seq<char>| #[trigger] text::texts(out@).contains(p) <==> some_job_reads(more, p) by {
                assert(start.contains(p) <==> some_job_reads(front, p));
                assert(text::texts(out@).contains(p) <==> (start.contains(p) || reads_bundle(jobs@[i as int].source, p)));
                if some_job_reads(front, p) {
                    let k = choose|k: int| 0 <= k < front.len() && reads_bundle((#[trigger] front[k]).source, p);
                    assert(more[k] == front[k]);
                }
                if reads_bundle(jobs@[i as int].source, p) {
                    assert(reads_bundle(more[i as int].source, p));
                }
                if some_job_reads(more, p) {
                    let k = choose|k: int| 0 <= k < more.len() && reads_bundle((#[trigger] more[k]).source, p);
                    if k < i {
                        assert(front[k] == more[k]);
                    }
                }
            }
        }
        i += 1;
        assert(jobs@.take(i as int) == more);
    }
    assert(jobs@.take(n as int) =~= jobs@);
    out
}

/// The request for a job: its path alone.
pub fn copy_request(job: &RestoreCopyJob) -> (r: Request)
    ensures
        r.cmd@ == job.rel@,
        r.param.len() == 0,
{
    let param: Vec<ParamValue> = Vec::new();
    Request { cmd: job.rel.clone(), param }
}

/// The last of the first `n` jobs for the path `rel`.
pub open spec fn job_for(jobs: Seq<RestoreCopyJob>, rel: Seq<char>, n: int) -> Option<int>
    decreases n,
{
    if n <= 0 {
        None
    } else if jobs[n - 1].rel@ == rel {
        Some(n - 1)
    } else {
        job_for(jobs, rel, n - 1)
    }
}

/// The job that a request names.
pub fn find_job(jobs: &Vec<RestoreCopyJob>, request: &Request) -> (r: Result<usize, String>)
    ensures
        match job_for(jobs@, request.cmd@, jobs.len() as int) {
            Some(i) => r matches Ok(k) && k == i && k < jobs.len(),
            None => r matches Err(m) && m@ == "no restore job for "@ + request.cmd@,
        },
{
    let mut i: usize = jobs.len();
    while i > 0
        invariant
            i <= jobs.len(),
            job_for(jobs@, request.cmd@, jobs.len() as int) == job_for(jobs@, request.cmd@, i as int),
        decreases i,
    {
        i -= 1;
        if text_eq(jobs[i].rel.as_str(), request.cmd.as_str()) {
            return Ok(i);
        }
    }
    let mut m = "no restore job for ".to_owned();
    m.append(request.cmd.as_str());
    Err(m)
}

/// How a worker answered a job.
#[derive(Debug, Clone, PartialEq, Eq)]
pub enum CopyReply {
    /// The file was copied.
    Done,
    /// With something else.
    Unexpected,
    /// It failed.
    Failed(String),
}

/// The answer to the job for the path `key`.
#[derive(Debug, Clone, PartialEq, Eq)]
pub struct CopyResult {
    pub key: String,
    pub reply: CopyReply,
}

/// The first answer from place `i` on that is not a success.
pub open spec fn first_failure(results: Seq<CopyResult>, i: int) -> Option<int>
    decreases results.len() - i,
{
    if i < 0 || i >= results.len() {
        None
    } else if results[i].reply != CopyReply::Done {
        Some(i)
    } else {
        first_failure(results, i + 1)
    }
}

/// What the first answer that is not a success says; none where all are.
pub open spec fn failure_text(results: Seq<CopyResult>) -> Option<Seq<char>> {
    match first_failure(results, 0) {
        None => None,
        Some(i) => match results[i].reply {
            CopyReply::Failed(m) => Some(m@),
            _ => Some("restore of "@ + results[i].key@ + " produced an unexpected response"@),
        },
    }
}

/// The paths that answers are for.
pub open spec fn answered_paths(results: Seq<CopyResult>) -> Seq<Seq<char>> {
    Seq::new(results.len(), |i: int| results[i].key@)
}

/// The paths that jobs are for.
pub open spec fn job_paths(jobs: Seq<RestoreCopyJob>) -> Seq<Seq<char>> {
    Seq::new(jobs.len(), |i: int| jobs[i].rel@)
}

/// Whether there is one answer for each job, under the job's path, in any order.
pub open spec fn covers(results: Seq<CopyResult>, jobs: Seq<RestoreCopyJob>) -> bool {
    answered_paths(results).to_multiset() == job_paths(jobs).to_multiset()
}

/// Whether the job for `path` was answered, and with success alone.
pub open spec fn was_copied(results: Seq<CopyResult>, path: Seq<char>) -> bool {
    &&& exists|i: int| 0 <= i < results.len() && (#[trigger] results[i]).key@ == path
    &&& forall|i: int|
        0 <= i < results.len() && (#[trigger] results[i]).key@ == path ==> results[i].reply == CopyReply::Done
}

/// What the answers amount to: success, or the first failure.
pub fn copy_outcome(results: &Vec<CopyResult>) -> (r: Result<(), CommandError>)
    ensures
        match failure_text(results@) {
            None => r is Ok,
            Some(m) => r matches Err(e) && e.is_other(m),
        },
{
    let n: usize = results.len();
    let mut i: usize = 0;
    while i < n
        invariant
            i <= n,
            n == results.len(),
            first_failure(results@, 0) == first_failure(results@, i as int),
        decreases n - i,
    {
        match &results[i].reply {
            CopyReply::Done => {},
            CopyReply::Unexpected => {
                return Err(
                    CommandError::Other(cat3("restore of ", results[i].key.as_str(), " produced an unexpected response")),
                );
            },
            CopyReply::Failed(m) => {
                return Err(CommandError::Other(m.clone()));
            },
        }
        i += 1;
    }
    Ok(())
}

/// A restore succeeds only if every file did.
pub proof fn law_one_failure_fails_all(results: Seq<CopyResult>, k: int)
    requires
        0 <= k < results.len(),
        results[k].reply != CopyReply::Done,
    ensures
        first_failure(results, 0) matches Some(i) && i <= k && results[i].reply != CopyReply::Done,
{
    lemma_first_failure(results, 0, k);
}

/// Where there is an answer for each job, success means that the file of every job
/// was copied.
pub proof fn law_success_means_all_copied(results: Seq<CopyResult>, jobs: Seq<RestoreCopyJob>)
    requires
        covers(results, jobs),
        failure_text(results) is None,
    ensures
        results.len() == jobs.len(),
        forall|k: int| 0 <= k < jobs.len() ==> was_copied(results, (#[trigger] jobs[k]).rel@),
{
    broadcast use vstd::seq_lib::group_to_multiset_ensures;

    let told = answered_paths(results);
    let due = job_paths(jobs);
    assert(told.to_multiset().len() == told.len());
    assert(due.to_multiset().len() == due.len());
    assert forall|i: int| 0 <= i < results.len() implies (#[trigger] results[i]).reply == CopyReply::Done by {
        if results[i].reply != CopyReply::Done {
            law_one_failure_fails_all(results, i);
        }
    }
    assert forall|k: int| 0 <= k < jobs.len() implies was_copied(results, (#[trigger] jobs[k]).rel@) by {
        assert(due[k] == jobs[k].rel@);
        assert(due.contains(jobs[k].rel@));
        assert(due.to_multiset().count(jobs[k].rel@) > 0);
        assert(told.to_multiset().count(jobs[k].rel@) > 0);
        assert(told.contains(jobs[k].rel@));
        let i = choose|i: int| 0 <= i < told.len() && told[i] == jobs[k].rel@;
        assert(results[i].key@ == jobs[k].rel@);
    }
}

proof fn lemma_first_failure(results: Seq<CopyResult>, i: int, k: int)
    requires
        0 <= i <= k < results.len(),
        results[k].reply != CopyReply::Done,
    ensures
        first_failure(results, i) matches Some(j) && i <= j <= k && results[j].reply != CopyReply::Done,
    decreases k - i,
{
    if results[i].reply == CopyReply::Done {
        lemma_first_failure(results, i + 1, k);
    }
}

/// What is read for a source. An object of its own is read whole; of a bundle the bytes
/// from its offset on; of blocks each one in turn. Each is read where this host finds it,
/// or where it lies in the repository, and undone as it was stored.
pub proof fn law_parts_of_a_source(source: &RestoreSource, local: bool, r: Vec<Part>)
    requires
        call_ensures(source_parts, (source, local), r),
    ensures
        match *source {
            RestoreSource::Standalone { abs_src, repo_src, transform } => {
                &&& r.len() == 1
                &&& local ==> r[0].path@ == abs_src@
                &&& !local ==> r[0].path@ == repo_src@
                &&& r[0].slice is None
                &&& r[0].transform.compress_type == transform.compress_type
                &&& config::opt_text(r[0].transform.key) == config::opt_text(transform.key)
            },
            RestoreSource::Bundled { abs_bundle, repo_bundle, offset, len, transform } => {
                &&& r.len() == 1
                &&& local ==> r[0].path@ == abs_bundle@
                &&& !local ==> r[0].path@ == repo_bundle@
                &&& r[0].slice == Some((offset, len))
                &&& r[0].transform.compress_type == transform.compress_type
                &&& config::opt_text(r[0].transform.key) == config::opt_text(transform.key)
            },
            RestoreSource::Blocks(blocks) => {
                &&& r.len() == blocks.len()
                &&& forall|i: int|
                    0 <= i < blocks.len() ==> {
                        &&& local ==> (#[trigger] r[i]).path@ == blocks[i].abs_bundle@
                        &&& !local ==> r[i].path@ == blocks[i].repo_bundle@
                        &&& r[i].slice == Some((blocks[i].offset, blocks[i].len))
                        &&& r[i].transform.compress_type == blocks[i].transform.compress_type
                        &&& config::opt_text(r[i].transform.key) == config::opt_text(blocks[i].transform.key)
                    }
            },
        },
{
    let views = part_views(r@);
    assert(views.len() == r.len());
    assert(views == parts_of(*source, local));
    assert(r.len() > 0 ==> views[0] == r[0]@);
    if let RestoreSource::Blocks(blocks) = *source {
        assert forall|i: int| 0 <= i < blocks.len() implies {
            &&& local ==> (#[trigger] r[i]).path@ == blocks[i].abs_bundle@
            &&& !local ==> r[i].path@ == blocks[i].repo_bundle@
            &&& r[i].slice == Some((blocks[i].offset, blocks[i].len))
            &&& r[i].transform.compress_type == blocks[i].transform.compress_type
            &&& config::opt_text(r[i].transform.key) == config::opt_text(blocks[i].transform.key)
        } by {
            assert(views[i] == r[i]@);
            assert(views[i] == block_part(blocks[i], local));
        }
    }
}

/// A slice of a bundle is as long as it says, byte for byte what the bundle holds from its
/// offset on; one that reaches beyond the bundle is refused, and the message gives its
/// offset, its length and the bundle's size. A part without a slice is the whole object.
pub proof fn law_slice_is_cut_out(
    object: &Vec<u8>,
    bundle: &[u8],
    offset: u64,
    len: u64,
    r: Result<Vec<u8>, CommandError>,
    part: Result<Vec<u8>, CommandError>,
    whole: Result<Vec<u8>, CommandError>,
)
    requires
        bundle@ == object@,
        offset <= usize::MAX,
        len <= usize::MAX,
        call_ensures(read_bundle_slice_buffered, (bundle, offset, len), r),
        call_ensures(take_part, (object, Some((offset, len))), part),
        call_ensures(take_part, (object, None::<(u64, u64)>), whole),
    ensures
        r is Ok <==> offset + len <= bundle@.len(),
        part is Ok <==> offset + len <= bundle@.len(),
        r is Ok ==> r->Ok_0.len() == len && forall|i: int| 0 <= i < len ==> #[trigger] r->Ok_0[i] == bundle@[offset + i],
        part is Ok ==> part->Ok_0@ == r->Ok_0@,
        r is Err ==> r->Err_0.is_other(
            "bundle slice "@ + text::decimal(offset as nat) + "..+"@ + text::decimal(len as nat) + " out of range (len "@
                + text::decimal(bundle@.len()) + ")"@,
        ),
        whole is Ok && whole->Ok_0@ == object@,
{
}

/// The plain bytes of the parts stand one after the other: a further part adds its bytes
/// at the end, and no part gives no bytes.
pub proof fn law_parts_follow_one_another(parts: &Vec<Vec<u8>>, more: &Vec<Vec<u8>>, a: Vec<u8>, b: Vec<u8>)
    requires
        call_ensures(assemble, (parts,), a),
        call_ensures(assemble, (more,), b),
        more.len() == parts.len() + 1,
        more@.drop_last() == parts@,
    ensures
        b@ == a@ + more@.last()@,
        parts.len() == 0 ==> a.len() == 0,
{
}

/// What was restored is checked against the digest that was recorded: it passes where they
/// are the same or none was recorded, and the error names the file.
pub proof fn law_recorded_digest_is_checked(rel: &str, expected: &Option<String>, actual: &str, r: Result<(), CommandError>)
    requires
        call_ensures(check_restored, (rel, expected, actual), r),
    ensures
        *expected is None ==> r is Ok,
        *expected is Some ==> (r is Ok <==> (*expected).unwrap()@ == actual@),
        r is Err ==> r->Err_0.is_other("restore checksum mismatch for "@ + rel@),
{
}

/// The bits that a file gets are the lowest twelve of its recorded mode.
pub proof fn law_twelve_mode_bits(mode: Option<u32>, r: Option<u32>)
    requires
        call_ensures(apply_mode, (mode,), r),
    ensures
        r is Some <==> mode is Some,
        r is Some ==> r.unwrap() == mode.unwrap() % 4096,
{
    if let Some(m) = mode {
        assert(m & 0o7777 == m % 4096) by (bit_vector);
    }
}

/// The bundles that are opened on this host are those that a job reads from, whole files
/// none, each once.
pub proof fn law_bundles_that_are_read(jobs: &Vec<RestoreCopyJob>, local: bool, r: Vec<String>)
    requires
        call_ensures(bundle_paths, (jobs, local), r),
    ensures
        !local ==> r.len() == 0,
        forall|i: int, j: int| 0 <= i < j < r.len() ==> (#[trigger] r[i])@ != (#[trigger] r[j])@,
        local ==> forall|i: int|
            0 <= i < jobs.len() ==> match (#[trigger] jobs[i]).source {
                RestoreSource::Bundled { abs_bundle, .. } => text::texts(r@).contains(abs_bundle@),
                RestoreSource::Blocks(blocks) => forall|j: int|
                    0 <= j < blocks.len() ==> text::texts(r@).contains((#[trigger] blocks[j]).abs_bundle@),
                _ => true,
            },
        forall|path: Seq<char>| #[trigger]
            text::texts(r@).contains(path) ==> exists|i: int|
                0 <= i < jobs.len() && match (#[trigger] jobs[i]).source {
                    RestoreSource::Bundled { abs_bundle, .. } => abs_bundle@ == path,
                    RestoreSource::Blocks(blocks) => exists|j: int|
                        0 <= j < blocks.len() && (#[trigger] blocks[j]).abs_bundle@ == path,
                    _ => false,
                },
{
    let v = text::texts(r@);
    assert(v.len() == r.len());
    assert forall|i: int, j: int| 0 <= i < j < r.len() implies (#[trigger] r[i])@ != (#[trigger] r[j])@ by {
        assert(v[i] != v[j]);
    }
    if local {
        assert forall|i: int| 0 <= i < jobs.len() implies match (#[trigger] jobs[i]).source {
            RestoreSource::Bundled { abs_bundle, .. } => v.contains(abs_bundle@),
            RestoreSource::Blocks(blocks) => forall|j: int|
                0 <= j < blocks.len() ==> v.contains((#[trigger] blocks[j]).abs_bundle@),
            _ => true,
        } by {
            match jobs[i].source {
                RestoreSource::Bundled { abs_bundle, .. } => {
                    assert(reads_bundle(jobs@[i].source, abs_bundle@));
                    assert(some_job_reads(jobs@, abs_bundle@));
                },
                RestoreSource::Blocks(blocks) => {
                    assert forall|j: int| 0 <= j < blocks.len() implies v.contains((#[trigger] blocks[j]).abs_bundle@) by {
                        assert(reads_bundle(jobs@[i].source, blocks[j].abs_bundle@));
                        assert(some_job_reads(jobs@, blocks[j].abs_bundle@));
                    }
                },
                _ => {},
            }
        }
        assert forall|path: Seq<char>| #[trigger] v.contains(path) implies exists|i: int|
            0 <= i < jobs.len() && match (#[trigger] jobs[i]).source {
                RestoreSource::Bundled { abs_bundle, .. } => abs_bundle@ == path,
                RestoreSource::Blocks(blocks) => exists|j: int|
                    0 <= j < blocks.len() && (#[trigger] blocks[j]).abs_bundle@ == path,
                _ => false,
            } by {
            let i = choose|i: int| 0 <= i < jobs.len() && reads_bundle((#[trigger] jobs@[i]).source, path);
            assert(jobs[i] == jobs@[i]);
        }
    }
}

/// A request names its job by the file's path alone, and of jobs for the same path the
/// last is meant; a request for another path has none.
pub proof fn law_request_names_its_job(jobs: &Vec<RestoreCopyJob>, job: &RestoreCopyJob, request: Request, r: Result<usize, String>)
    requires
        call_ensures(copy_request, (job,), request),
        call_ensures(find_job, (jobs, &request), r),
    ensures
        match r {
            Ok(k) => k < jobs.len() && jobs[k as int].rel@ == job.rel@ && forall|j: int|
                k < j < jobs.len() ==> (#[trigger] jobs[j]).rel@ != job.rel@,
            Err(m) => m@ == "no restore job for "@ + job.rel@ && forall|j: int|
                0 <= j < jobs.len() ==> (#[trigger] jobs[j]).rel@ != job.rel@,
        },
        request.param.len() == 0,
{
    lemma_job_for(jobs@, job.rel@, jobs.len() as int);
}

proof fn lemma_job_for(jobs: Seq<RestoreCopyJob>, rel: Seq<char>, n: int)
    requires
        n <= jobs.len(),
    ensures
        match job_for(jobs, rel, n) {
            Some(k) => 0 <= k < n && jobs[k].rel@ == rel && forall|j: int| k < j < n ==> (#[trigger] jobs[j]).rel@ != rel,
            None => forall|j: int| 0 <= j < n ==> (#[trigger] jobs[j]).rel@ != rel,
        },
    decreases n,
{
    if n > 0 && jobs[n - 1].rel@ != rel {
        lemma_job_for(jobs, rel, n - 1);
    }
}

/// A copy succeeds where every answer says so. Else the first answer that does not decides
/// the error: its own message where it failed, one that names the file where it was
/// something else.
pub proof fn law_first_failure_decides(results: &Vec<CopyResult>, r: Result<(), CommandError>)
    requires
        call_ensures(copy_outcome, (results,), r),
    ensures
        r is Ok <==> forall|i: int| 0 <= i < results.len() ==> (#[trigger] results[i]).reply == CopyReply::Done,
        r is Err ==> exists|i: int|
            0 <= i < results.len() && (#[trigger] results[i]).reply != CopyReply::Done && (forall|j: int|
                0 <= j < i ==> (#[trigger] results[j]).reply == CopyReply::Done) && r->Err_0.is_other(
                match results[i].reply {
                    CopyReply::Failed(m) => m@,
                    _ => "restore of "@ + results[i].key@ + " produced an unexpected response"@,
                },
            ),
{
    lemma_first_of_failures(results@, 0);
    if forall|i: int| 0 <= i < results.len() ==> (#[trigger] results[i]).reply == CopyReply::Done {
        if let Some(i) = first_failure(results@, 0) {
            assert(results[i].reply == CopyReply::Done);
        }
    }
    if let Some(i) = first_failure(results@, 0) {
        assert(results[i].reply != CopyReply::Done);
    }
}

proof fn lemma_first_of_failures(results: Seq<CopyResult>, i: int)
    requires
        0 <= i,
    ensures
        match first_failure(results, i) {
            Some(k) => i <= k < results.len() && results[k].reply != CopyReply::Done && forall|j: int|
                i <= j < k ==> (#[trigger] results[j]).reply == CopyReply::Done,
            None => forall|j: int| i <= j < results.len() ==> (#[trigger] results[j]).reply == CopyReply::Done,
        },
    decreases results.len() - i,
{
    if i < results.len() && results[i].reply == CopyReply::Done {
        lemma_first_of_failures(results, i + 1);
    }
}

/// What a job leaves is nothing but what undoing its parts gives, in order, and its digest
/// is the recorded one where one was recorded.
pub proof fn law_copy_is_the_plain_parts(
    job: RestoreCopyJob,
    local: bool,
    held: spec_fn(Seq<char>) -> Option<Seq<u8>>,
    undo: spec_fn(TransformView, Seq<u8>) -> Option<Seq<u8>>,
    sha1: spec_fn(Seq<u8>) -> Seq<char>,
    n: int,
)
    requires
        0 <= n < parts_of(job.source, local).len(),
    ensures
        ({
            let parts = parts_of(job.source, local);
            let part = parts[n];
            &&& plain_bytes(parts, held, undo, 0) == Some(Seq::<u8>::empty())
            &&& plain_bytes(parts, held, undo, n + 1) matches Some(all) ==> {
                &&& held(part.path) is Some
                &&& plain_bytes(parts, held, undo, n) is Some
                &&& part.slice is None ==> undo(part.transform, held(part.path).unwrap()) is Some && all == plain_bytes(
                    parts,
                    held,
                    undo,
                    n,
                ).unwrap() + undo(part.transform, held(part.path).unwrap()).unwrap()
                &&& part.slice is Some && part.slice.unwrap().0 <= usize::MAX && part.slice.unwrap().1 <= usize::MAX ==> {
                    let (offset, len) = part.slice.unwrap();
                    let cut = held(part.path).unwrap().subrange(offset as int, offset + len);
                    &&& offset + len <= held(part.path).unwrap().len()
                    &&& undo(part.transform, cut) is Some
                    &&& all == plain_bytes(parts, held, undo, n).unwrap() + undo(part.transform, cut).unwrap()
                }
            }
            &&& copied_bytes(job, local, held, undo, sha1) matches Some(left) ==> {
                &&& plain_bytes(parts, held, undo, parts.len() as int) == Some(left)
                &&& job.expected_checksum is Some ==> sha1(left) == job.expected_checksum.unwrap()@
            }
            &&& copied_bytes(job, local, held, undo, sha1) is None && plain_bytes(parts, held, undo, parts.len() as int) is Some ==> {
                &&& job.expected_checksum is Some
                &&& sha1(plain_bytes(parts, held, undo, parts.len() as int).unwrap()) != job.expected_checksum.unwrap()@
            }
        }),
{
}

}
