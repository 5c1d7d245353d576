//! From the files to copy to the jobs that copy them.
use vstd::prelude::*;

use crate::restore::resolver;
use crate::restore::run;
use crate::paths;
use crate::config;
use crate::config::{CommandError, StorageError};
use crate::info::{BlockRef, Manifest, ManifestFile, StorageInfo};
use crate::paths::{destination, file_name, join_path, manifest_path, Destination};
use crate::restore::copy::RestoreCopyJob;
use crate::restore::resolver::{load_error, LoadError, Resolution, ResolutionView, SourceResolver};
use crate::restore::run::copy_job;

verus! {

/// Whether a resolver knows all that another one knows, of the same backup.
pub open spec fn knows_more(before: SourceResolver, after: SourceResolver) -> bool {
    &&& after.same_backup(before)
    &&& forall|k: Seq<char>|
        before.manifests.lookup(k) is Some ==> #[trigger] after.manifests.lookup(k) == before.manifests.lookup(k)
    &&& forall|k: Seq<char>|
        before.infos.lookup(k) is Some ==> #[trigger] after.infos.lookup(k) == before.infos.lookup(k)
}

/// A source that was found stays the same, whatever is learnt later.
pub proof fn law_found_sources_stay(before: SourceResolver, after: SourceResolver, file: ManifestFile)
    requires
        knows_more(before, after),
        before.resolution(file) is Found,
    ensures
        after.resolution(file) == before.resolution(file),
{
    let holder = resolver::holder_of(file, before.label@);
    if file.block_map is Some {
        lemma_blocks_stay(before, after, file.block_map.unwrap().blocks@);
    } else {
        let entry = if file.reference is Some {
            resolver::entry_in(before.manifests.lookup(holder).unwrap(), file)
        } else {
            file
        };
        if entry.block_map is Some {
            lemma_blocks_stay(before, after, entry.block_map.unwrap().blocks@);
        } else {
            assert(before.whole_resolution(file, holder, entry) is Found);
            if holder != before.label@ {
                assert(before.files_of(holder) == after.files_of(holder));
            }
        }
    }
}

proof fn lemma_blocks_stay(before: SourceResolver, after: SourceResolver, blocks: Seq<BlockRef>)
    requires
        knows_more(before, after),
        before.blocks_resolution(blocks) is Found,
    ensures
        after.blocks_resolution(blocks) == before.blocks_resolution(blocks),
{
    lemma_known_bundles(before, after, blocks, 0);
    assert forall|i: int| 0 <= i < blocks.len() implies #[trigger] after.block_source(blocks[i]) == before.block_source(
        blocks[i],
    ) by {}
    assert(Seq::new(blocks.len(), |i: int| after.block_source(blocks[i])) =~= Seq::new(
        blocks.len(),
        |i: int| before.block_source(blocks[i]),
    ));
}

proof fn lemma_known_bundles(before: SourceResolver, after: SourceResolver, blocks: Seq<BlockRef>, i: int)
    requires
        knows_more(before, after),
        before.unknown_bundle(blocks, i) is None,
        0 <= i,
    ensures
        after.unknown_bundle(blocks, i) is None,
        before.local ==> forall|k: int|
            i <= k < blocks.len() ==> before.infos.lookup(
                paths::bundle_at(before.stanza@, (#[trigger] blocks[k]).reference@, blocks[k].bundle_id),
            ) is Some,
    decreases blocks.len() - i,
{
    if before.local && i < blocks.len() {
        lemma_known_bundles(before, after, blocks, i + 1);
    }
}

/// Whether a job copies a file from where its bytes were found.
pub open spec fn copies(job: RestoreCopyJob, resolver: SourceResolver, file: ManifestFile) -> bool {
    &&& job.rel@ == file.path@
    &&& config::opt_text(job.expected_checksum) == config::opt_text(file.checksum)
    &&& job.mode == file.mode
    &&& resolver.resolution(file) == ResolutionView::Found(job.source@)
}

/// The jobs for the first of the files to copy.
pub open spec fn jobs_so_far(resolver: SourceResolver, todo: Seq<int>, jobs: Seq<RestoreCopyJob>) -> bool {
    &&& jobs.len() <= todo.len()
    &&& forall|k: int| 0 <= k < todo.len() ==> 0 <= #[trigger] todo[k] < resolver.manifest.files.len()
    &&& forall|k: int| 0 <= k < jobs.len() ==> copies(#[trigger] jobs[k], resolver, resolver.manifest.files[todo[k]])
}

/// What is needed to go on.
pub enum CopyNeed {
    /// The manifest of the backup `label`, which lies at `path`.
    Manifest { label: String, path: String },
    /// What the repository tells of `path`.
    Info { path: String },
    /// The place of a file in the target.
    Place { destination: Destination },
    /// Nothing: there is a job for each file.
    Complete,
}

/// Whether `need` is what the job for a file needs next. A file whose path ends in
/// no name has no place.
pub open spec fn asks(need: Result<CopyNeed, CommandError>, resolver: SourceResolver, file: ManifestFile) -> bool {
    match resolver.resolution(file) {
        ResolutionView::NeedManifest { label, path } => {
            &&& need matches Ok(CopyNeed::Manifest { label: l, path: p })
            &&& l@ == label
            &&& p@ == path
            &&& resolver.manifests.lookup(label) is None
        },
        ResolutionView::NeedInfo { path } => {
            &&& need matches Ok(CopyNeed::Info { path: p })
            &&& p@ == path
            &&& resolver.infos.lookup(path) is None
        },
        ResolutionView::Found(_) => match paths::name_of(file.path@) {
            Some(name) => {
                &&& need matches Ok(CopyNeed::Place { destination: d })
                &&& d.name@ == name
                &&& config::opt_text(d.parent) == paths::holding_dir(file.path@)
            },
            None => need matches Err(e) && e.is_other("cannot resolve absolute path for "@ + file.path@),
        },
    }
}

/// Making the jobs for the files to copy, in order.
pub struct CopyRun {
    resolver: SourceResolver,
    todo: Vec<usize>,
    jobs: Vec<RestoreCopyJob>,
}

impl CopyRun {
    #[verifier::type_invariant]
    spec fn inv(self) -> bool {
        jobs_so_far(self.resolver, run::places(self.todo@), self.jobs@)
    }

    /// What is known of the backup and the repository.
    pub closed spec fn resolver(self) -> SourceResolver {
        self.resolver
    }

    /// The places of the files to copy.
    pub closed spec fn todo(self) -> Seq<int> {
        run::places(self.todo@)
    }

    /// The jobs made so far.
    pub closed spec fn jobs(self) -> Seq<RestoreCopyJob> {
        self.jobs@
    }

    /// The file that the next job is for.
    pub open spec fn current(self) -> ManifestFile {
        self.resolver().manifest.files[self.todo()[self.jobs().len() as int]]
    }

    /// Starts on the files at the places `todo`.
    pub fn start(resolver: SourceResolver, todo: Vec<usize>) -> (r: CopyRun)
        requires
            forall|k: int| 0 <= k < todo.len() ==> #[trigger] todo[k] < resolver.manifest.files.len(),
        ensures
            r.resolver() == resolver,
            r.todo() == run::places(todo@),
            r.jobs().len() == 0,
    {
        CopyRun { resolver, todo, jobs: Vec::new() }
    }

    /// What is known of the backup and the repository.
    pub fn known(&self) -> (r: &SourceResolver)
        ensures
            *r == self.resolver(),
    {
        &self.resolver
    }

    /// The jobs made so far.
    pub fn made(&self) -> (r: &Vec<RestoreCopyJob>)
        ensures
            r@ == self.jobs(),
    {
        &self.jobs
    }

    /// What is needed for the next job.
    pub fn next(&self) -> (r: Result<CopyNeed, CommandError>)
        ensures
            self.jobs().len() <= self.todo().len(),
            if self.jobs().len() == self.todo().len() {
                r == Ok::<CopyNeed, CommandError>(CopyNeed::Complete)
            } else {
                asks(r, self.resolver(), self.current())
            },
    {
        proof {
            use_type_invariant(self);
            assert(run::places(self.todo@).len() == self.todo@.len());
        }
        let at: usize = self.jobs.len();
        if at == self.todo.len() {
            return Ok(CopyNeed::Complete);
        }
        assert(run::places(self.todo@)[at as int] == self.todo@[at as int]);
        let file = &self.resolver.manifest.files[self.todo[at]];
        proof {
            resolver::law_asks_for_what_is_unknown(self.resolver, *file);
        }
        match self.resolver.resolve(file) {
            Resolution::NeedManifest { label, path } => Ok(CopyNeed::Manifest { label, path }),
            Resolution::NeedInfo { path } => Ok(CopyNeed::Info { path }),
            Resolution::Found(_) => match destination(file.path.as_str()) {
                Ok(d) => Ok(CopyNeed::Place { destination: d }),
                Err(e) => Err(e),
            },
        }
    }

    /// Takes up the manifest of another backup, or that it could not be loaded.
    pub fn told_manifest(self, label: String, loaded: Result<Manifest, LoadError>) -> (r: Result<CopyRun, CommandError>)
        requires
            self.resolver().manifests.lookup(label@) is None,
        ensures
            match loaded {
                Err(LoadError::NotFound) => r matches Err(e) && e.is_not_found(
                    paths::manifest_at(self.resolver().stanza@, label@),
                ),
                Err(LoadError::Unusable(m)) => r matches Err(e) && e.is_other(m@),
                Ok(manifest) => {
                    &&& r matches Ok(run)
                    &&& run.todo() == self.todo()
                    &&& run.jobs() == self.jobs()
                    &&& knows_more(self.resolver(), run.resolver())
                    &&& run.resolver().manifests.lookup(label@) == Some(manifest)
                    &&& run.resolver().infos == self.resolver().infos
                    &&& jobs_so_far(run.resolver(), run.todo(), run.jobs())
                },
            },
    {
        proof {
            use_type_invariant(&self);
        }
        let ghost before = self.resolver;
        let CopyRun { resolver, todo, jobs } = self;
        let mut resolver = resolver;
        let manifest = match loaded {
            Ok(m) => m,
            Err(err) => {
                let path = manifest_path(resolver.stanza.as_str(), label.as_str());
                return Err(load_error(err, path));
            },
        };
        resolver.add_manifest(label, manifest);
        proof {
            assert(knows_more(before, resolver));
            lemma_jobs_stay(before, resolver, run::places(todo@), jobs@);
        }
        Ok(CopyRun { resolver, todo, jobs })
    }

    /// Takes up what the repository told of a path, or that it failed to.
    pub fn told_info(self, path: String, told: Result<StorageInfo, StorageError>) -> (r: Result<CopyRun, CommandError>)
        requires
            self.resolver().infos.lookup(path@) is None,
        ensures
            match told {
                Err(err) => r == Err::<CopyRun, CommandError>(CommandError::Storage(err)),
                Ok(info) => {
                    &&& r matches Ok(run)
                    &&& run.todo() == self.todo()
                    &&& run.jobs() == self.jobs()
                    &&& knows_more(self.resolver(), run.resolver())
                    &&& run.resolver().infos.lookup(path@) == Some(info)
                    &&& run.resolver().manifests == self.resolver().manifests
                    &&& jobs_so_far(run.resolver(), run.todo(), run.jobs())
                },
            },
    {
        proof {
            use_type_invariant(&self);
        }
        let ghost before = self.resolver;
        let CopyRun { resolver, todo, jobs } = self;
        let mut resolver = resolver;
        let info = match told {
            Ok(info) => info,
            Err(err) => return Err(CommandError::Storage(err)),
        };
        resolver.add_info(path, info);
        proof {
            assert(knows_more(before, resolver));
            lemma_jobs_stay(before, resolver, run::places(todo@), jobs@);
        }
        Ok(CopyRun { resolver, todo, jobs })
    }

    /// Makes the next job, once the directory that is to hold the file stands at
    /// `abs_parent` on this host.
    pub fn placed(self, abs_parent: &str) -> (r: CopyRun)
        requires
            self.jobs().len() < self.todo().len(),
            self.resolver().resolution(self.current()) is Found,
            paths::name_of(self.current().path@) is Some,
        ensures
            r.resolver() == self.resolver(),
            r.todo() == self.todo(),
            r.jobs().len() == self.jobs().len() + 1,
            r.jobs().drop_last() == self.jobs(),
            r.jobs().last().rel@ == self.current().path@,
            self.resolver().resolution(self.current()) == ResolutionView::Found(r.jobs().last().source@),
            r.jobs().last().abs_dst@ == paths::below(abs_parent@, paths::name_of(self.current().path@).unwrap()),
            config::opt_text(r.jobs().last().expected_checksum) == config::opt_text(self.current().checksum),
            r.jobs().last().mode == self.current().mode,
            jobs_so_far(r.resolver(), r.todo(), r.jobs()),
    {
        proof {
            use_type_invariant(&self);
            assert(run::places(self.todo@).len() == self.todo@.len());
        }
        let ghost before = self.jobs@;
        let ghost file_now = self.current();
        let CopyRun { resolver, todo, jobs } = self;
        let mut jobs = jobs;
        let at: usize = jobs.len();
        assert(run::places(todo@)[at as int] == todo@[at as int]);
        let file = &resolver.manifest.files[todo[at]];
        assert(*file == file_now);
        let name = match file_name(file.path.as_str()) {
            Some(name) => name,
            None => file.path.clone(),
        };
        match resolver.resolve(file) {
            Resolution::Found(source) => {
                let job = copy_job(file, source, join_path(abs_parent, name.as_str()));
                jobs.push(job);
            },
            _ => {},
        }
        proof {
            assert(jobs@.drop_last() =~= before);
            assert forall|k: int| 0 <= k < jobs@.len() implies copies(
                #[trigger] jobs@[k],
                resolver,
                resolver.manifest.files[run::places(todo@)[k]],
            ) by {
                if k < before.len() {
                    assert(jobs@[k] == before[k]);
                }
            }
        }
        CopyRun { resolver, todo, jobs }
    }

    /// The jobs, once there is one for each file.
    pub fn finish(self) -> (r: (SourceResolver, Vec<RestoreCopyJob>))
        requires
            self.jobs().len() == self.todo().len(),
        ensures
            r.0 == self.resolver(),
            r.1@ == self.jobs(),
            r.1.len() == self.todo().len(),
            jobs_so_far(r.0, self.todo(), r.1@),
    {
        proof {
            use_type_invariant(&self);
        }
        let CopyRun { resolver, todo, jobs } = self;
        (resolver, jobs)
    }
}

proof fn lemma_jobs_stay(before: SourceResolver, after: SourceResolver, todo: Seq<int>, jobs: Seq<RestoreCopyJob>)
    requires
        knows_more(before, after),
        jobs_so_far(before, todo, jobs),
    ensures
        jobs_so_far(after, todo, jobs),
{
    assert forall|k: int| 0 <= k < jobs.len() implies copies(
        #[trigger] jobs[k],
        after,
        after.manifest.files[todo[k]],
    ) by {
        assert(copies(jobs[k], before, before.manifest.files[todo[k]]));
        law_found_sources_stay(before, after, before.manifest.files[todo[k]]);
    }
}

/// What the next job needs is what its source needs; once that is known, the place of its
/// file: its name in the directory it lies in. A file whose path ends in no name fails.
pub proof fn law_next_need(
    run: &CopyRun,
    file: &ManifestFile,
    found: Resolution,
    name: Option<String>,
    holding: Option<String>,
    path: &str,
    r: Result<CopyNeed, CommandError>,
)
    requires
        call_ensures(CopyRun::next, (run,), r),
        run.jobs().len() < run.todo().len(),
        *file == run.current(),
        path@ == file.path@,
        call_ensures(SourceResolver::resolve, (&run.resolver(), file), found),
        call_ensures(file_name, (path,), name),
        call_ensures(paths::holding_path, (path,), holding),
    ensures
        match found {
            Resolution::NeedManifest { label, path: p } => r is Ok && r->Ok_0 is Manifest && r->Ok_0->label@ == label@
                && r->Ok_0->Manifest_path@ == p@,
            Resolution::NeedInfo { path: p } => r is Ok && r->Ok_0 is Info && r->Ok_0->Info_path@ == p@,
            Resolution::Found(_) => {
                &&& r is Ok <==> name is Some
                &&& r is Ok ==> r->Ok_0 is Place && r->Ok_0->destination.name@ == name.unwrap()@ && config::opt_text(
                    r->Ok_0->destination.parent,
                ) == config::opt_text(holding)
                &&& r is Err ==> r->Err_0.is_other("cannot resolve absolute path for "@ + file.path@)
            },
        },
{
    assert(found@ == run.resolver().resolution(*file));
}

/// The jobs that come out are for the files that were to be copied, one for each and in
/// their order, under the path, the digest and the mode that were recorded.
pub proof fn law_a_job_for_each_file(run: CopyRun, r: (SourceResolver, Vec<RestoreCopyJob>), k: int)
    requires
        call_ensures(CopyRun::finish, (run,), r),
        0 <= k < run.todo().len(),
    ensures
        r.1.len() == run.todo().len(),
        r.1[k].rel@ == r.0.manifest.files[run.todo()[k]].path@,
        config::opt_text(r.1[k].expected_checksum) == config::opt_text(r.0.manifest.files[run.todo()[k]].checksum),
        r.1[k].mode == r.0.manifest.files[run.todo()[k]].mode,
        r.0.resolution(r.0.manifest.files[run.todo()[k]]) == ResolutionView::Found(r.1[k].source@),
{
    assert(copies(r.1@[k], r.0, r.0.manifest.files[run.todo()[k]]));
}

/// A file goes under its own name into the directory that was made for it.
pub proof fn law_placed_under_its_name(run: CopyRun, abs_parent: &str, path: &str, name: Option<String>, dst: String, r: CopyRun)
    requires
        run.jobs().len() < run.todo().len(),
        path@ == run.current().path@,
        call_ensures(file_name, (path,), name),
        call_ensures(CopyRun::placed, (run, abs_parent), r),
        name matches Some(n) ==> exists|base: &str|
            #![trigger base@]
            base@ == n@ && call_ensures(join_path, (abs_parent, base), dst),
        name is Some,
    ensures
        r.jobs().len() == run.jobs().len() + 1,
        r.jobs().last().rel@ == path@,
        r.jobs().last().abs_dst@ == dst@,
        r.jobs().last().mode == run.current().mode,
        config::opt_text(r.jobs().last().expected_checksum) == config::opt_text(run.current().checksum),
        r.todo() == run.todo() && r.resolver() == run.resolver(),
        forall|k: int| 0 <= k < run.jobs().len() ==> #[trigger] r.jobs()[k] == run.jobs()[k],
{
    assert forall|k: int| 0 <= k < run.jobs().len() implies #[trigger] r.jobs()[k] == run.jobs()[k] by {
        assert(r.jobs().drop_last()[k] == r.jobs()[k]);
    }
}

/// What the repository told of an object is known from then on; what was known before
/// stays, and so do the jobs. Where it could not tell, its error ends the run.
pub proof fn law_told_info_is_known(
    run: CopyRun,
    path: String,
    info: StorageInfo,
    err: StorageError,
    r: Result<CopyRun, CommandError>,
    e: Result<CopyRun, CommandError>,
    other: Seq<char>,
    after: &SourceResolver,
    jobs: &Vec<RestoreCopyJob>,
)
    requires
        run.resolver().infos.lookup(path@) is None,
        call_ensures(CopyRun::told_info, (run, path, Ok::<StorageInfo, StorageError>(info)), r),
        call_ensures(CopyRun::told_info, (run, path, Err::<StorageInfo, StorageError>(err)), e),
        r is Ok ==> call_ensures(CopyRun::known, (&r->Ok_0,), after),
        r is Ok ==> call_ensures(CopyRun::made, (&r->Ok_0,), jobs),
    ensures
        e == Err::<CopyRun, CommandError>(CommandError::Storage(err)),
        r is Ok,
        after.infos.lookup(path@) == Some(info),
        run.resolver().infos.lookup(other) is Some ==> after.infos.lookup(other) == run.resolver().infos.lookup(other),
        after.manifests == run.resolver().manifests,
        after.same_backup(run.resolver()),
        jobs@ == run.jobs(),
        r->Ok_0.todo() == run.todo(),
{
    assert(r->Ok_0.resolver() == *after);
    assert(after.infos.lookup(other) == after.infos.lookup(other));
}

/// The same of a manifest of another backup.
pub proof fn law_told_manifest_is_known(
    run: CopyRun,
    label: String,
    manifest: Manifest,
    message: String,
    r: Result<CopyRun, CommandError>,
    e: Result<CopyRun, CommandError>,
    missing: Result<CopyRun, CommandError>,
    other: Seq<char>,
)
    requires
        run.resolver().manifests.lookup(label@) is None,
        call_ensures(CopyRun::told_manifest, (run, label, Ok::<Manifest, LoadError>(manifest)), r),
        call_ensures(CopyRun::told_manifest, (run, label, Err::<Manifest, LoadError>(LoadError::Unusable(message))), e),
        call_ensures(CopyRun::told_manifest, (run, label, Err::<Manifest, LoadError>(LoadError::NotFound)), missing),
    ensures
        e is Err && e->Err_0.is_other(message@),
        missing is Err && missing->Err_0.is_not_found(
            "backup/"@ + run.resolver().stanza@ + "/"@ + label@ + "/backup.manifest"@,
        ),
        r is Ok,
        r->Ok_0.resolver().manifests.lookup(label@) == Some(manifest),
        run.resolver().manifests.lookup(other) is Some ==> r->Ok_0.resolver().manifests.lookup(other)
            == run.resolver().manifests.lookup(other),
        r->Ok_0.resolver().infos == run.resolver().infos,
        r->Ok_0.resolver().same_backup(run.resolver()),
        r->Ok_0.jobs() == run.jobs(),
        r->Ok_0.todo() == run.todo(),
{
    assert(r->Ok_0.resolver().manifests.lookup(other) == r->Ok_0.resolver().manifests.lookup(other));
}

}
