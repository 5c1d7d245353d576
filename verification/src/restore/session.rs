//! One restore from the opened backup to the outcome: what to do next, and what
//! follows from what came of it.
use vstd::prelude::*;

use crate::text;
use crate::config;
use crate::paths;
use crate::restore::copy;
use crate::restore::delta;
use crate::restore::links;
use crate::restore::plan;
use crate::restore::recovery;
use crate::restore::resolver;
use crate::restore::run;
use crate::restore::stray;
use crate::config::{CommandError, LoadedConfig, StorageError};
use crate::info::{Manifest, ManifestFile, StorageInfo, TransformView};
use crate::restore::copy::{copy_outcome, CopyResult, RestoreCopyJob};
use crate::restore::delta::{DeltaJob, DeltaResult};
use crate::restore::plan::{CopyNeed, CopyRun};
use crate::restore::recovery::{recovery_files, RecoveryFile};
use crate::restore::resolver::{LoadError, ResolutionView, SourceResolver};
use crate::restore::run::{
    copy_plan, delta_candidates, delta_plan, directories, dry_run_lines, label_files, link_counts, link_steps, next_step, open_backup,
    restore_outcome, Chosen, DeltaPlan, LinkStep, RestoreOutcome, RestoreSettings, Step,
};
use crate::restore::stray::{stray_files, stray_roots, RootFound};

verus! {

/// The state of a restore.
pub struct RunView {
    pub config: LoadedConfig,
    pub settings: RestoreSettings,
    /// Whether the target can be read on this host.
    pub local_pg: bool,
    /// The step it is at.
    pub step: Step,
    /// What is known of the backup and the repository.
    pub resolver: SourceResolver,
    /// The places of the files to compare with the target.
    pub candidates: Seq<usize>,
    /// The places of the files that the target's answers settled to be unchanged.
    pub settled: Seq<int>,
    /// The files whose digest decides.
    pub hashing: Seq<DeltaJob>,
    /// The places of these files.
    pub asked: Seq<int>,
    /// Of each recorded file whether it is unchanged, once that is known.
    pub matched: Seq<bool>,
    /// The places of the files to copy.
    pub todo: Seq<int>,
    /// The jobs that copy them, as far as they were made.
    pub jobs: Seq<RestoreCopyJob>,
    /// How the jobs ended, once they did.
    pub answers: Seq<CopyResult>,
    /// The files in the target that the backup does not hold.
    pub strays: Seq<Seq<char>>,
    /// Of each link that was attempted, whether it was made.
    pub made: Seq<bool>,
}

impl RunView {
    /// The recorded files.
    pub open spec fn files(self) -> Seq<ManifestFile> {
        self.resolver.manifest.files@
    }

    /// Whether the step after `before` was reached.
    pub open spec fn past(self, before: Step) -> bool {
        run::follows(before, self.step, self.settings.delta, self.settings.dry_run)
    }

    /// The places of the files to copy, as far as the run has come: none before it
    /// looks for their sources.
    pub open spec fn due(self) -> Seq<int> {
        if run::rank(self.step) < run::rank(Step::ResolveFiles) || self.settings.dry_run {
            Seq::<int>::empty()
        } else {
            run::copy_places(self.settings, self.files(), self.matched, self.files().len() as int)
        }
    }

    /// The file that the next job is for.
    pub open spec fn current(self) -> ManifestFile {
        self.files()[self.todo[self.jobs.len() as int]]
    }

    /// Whether the parts fit together.
    pub open spec fn consistent(self) -> bool {
        &&& run::rank(Step::LoadManifest) < run::rank(self.step)
        &&& run::taken(self.step, self.settings.delta, self.settings.dry_run)
        &&& run::places(self.candidates) == run::wanted_places(self.settings, self.files(), self.files().len() as int)
        &&& forall|k: int| 0 <= k < self.candidates.len() ==> #[trigger] self.candidates[k] < self.files().len()
        &&& self.asked.len() == self.hashing.len()
        &&& forall|k: int| 0 <= k < self.settled.len() ==> 0 <= #[trigger] self.settled[k] < self.files().len()
        &&& forall|k: int| 0 <= k < self.asked.len() ==> 0 <= #[trigger] self.asked[k] < self.files().len()
        &&& self.todo == self.due()
        &&& plan::jobs_so_far(self.resolver, self.todo, self.jobs)
        &&& run::rank(self.step) > run::rank(Step::ResolveFiles) ==> self.jobs.len() == self.todo.len()
        &&& run::rank(self.step) > run::rank(Step::CopyFiles) && !self.settings.dry_run ==> copy::covers(self.answers, self.jobs)
            && copy::failure_text(self.answers) is None
        &&& run::rank(self.step) > run::rank(Step::LayLinks) && !self.settings.dry_run && links::symlinks_allowed(self.config)
            ==> self.made.len() == self.resolver.manifest.links.len()
    }
}

/// Whether an outcome is that of a restore that came to its end.
pub open spec fn amounts_to(r: RestoreOutcome, v: RunView) -> bool {
    let files = v.files();
    let n = files.len() as int;
    let links = v.resolver.manifest.links.len();
    &&& r.label@ == v.resolver.label@
    &&& r.dry_run == v.settings.dry_run
    &&& r.files_restored == run::copy_places(v.settings, files, v.matched, n).len()
    &&& r.files_skipped == run::skip_count(v.settings, files, v.matched, n)
    &&& r.files_removed == (if v.settings.delta {
        v.strays.len()
    } else {
        0
    })
    &&& r.paths_created == v.resolver.manifest.paths.len()
    &&& r.links_as_dir == (if links::symlinks_allowed(v.config) {
        0
    } else {
        links
    })
    &&& r.links_created == (if !links::symlinks_allowed(v.config) {
        0
    } else if v.settings.dry_run {
        links as nat
    } else {
        run::made(v.made)
    })
    &&& r.links_created + r.skipped_links + r.links_as_dir == links
    &&& text::texts(r.recovery_files_written@) == run::recovery_names(
        v.resolver.manifest.db_version@,
        v.settings.stanza@,
        v.config,
    )
}

/// A restore under way.
pub struct RestoreRun {
    config: LoadedConfig,
    settings: RestoreSettings,
    local_pg: bool,
    step: Step,
    copy: CopyRun,
    candidates: Vec<usize>,
    delta: DeltaPlan,
    matched: Vec<bool>,
    strays: Vec<String>,
    made: Vec<bool>,
    answers: Ghost<Seq<CopyResult>>,
}

impl View for RestoreRun {
    type V = RunView;

    closed spec fn view(&self) -> RunView {
        RunView {
            config: self.config,
            settings: self.settings,
            local_pg: self.local_pg,
            step: self.step,
            resolver: self.copy.resolver(),
            candidates: self.candidates@,
            settled: run::places(self.delta.settled@),
            hashing: self.delta.jobs@,
            asked: run::places(self.delta.asked@),
            matched: self.matched@,
            todo: self.copy.todo(),
            jobs: self.copy.jobs(),
            answers: self.answers@,
            strays: text::texts(self.strays@),
            made: self.made@,
        }
    }
}

impl RestoreRun {
    #[verifier::type_invariant]
    spec fn inv(self) -> bool {
        self@.consistent()
    }

    /// Starts on the chosen backup, once its manifest was loaded or failed to be.
    pub fn open(
        config: LoadedConfig,
        settings: RestoreSettings,
        chosen: Chosen,
        sub_key: Option<String>,
        loaded: Result<Manifest, LoadError>,
        local_repo: bool,
        local_pg: bool,
    ) -> (r: Result<RestoreRun, CommandError>)
        requires
            chosen.index < chosen.info.current.vals().len(),
        ensures
            match loaded {
                Err(LoadError::NotFound) => r matches Err(e) && e.is_not_found(chosen.manifest_path@),
                Err(LoadError::Unusable(m)) => r matches Err(e) && e.is_other(m@),
                Ok(manifest) => {
                    &&& r matches Ok(s)
                    &&& s@.consistent()
                    &&& s@.config == config
                    &&& s@.settings == settings
                    &&& s@.local_pg == local_pg
                    &&& s@.past(Step::LoadManifest)
                    &&& run::opened(s@.resolver, settings, chosen, sub_key, manifest, local_repo)
                    &&& s@.matched.len() == 0
                    &&& s@.jobs.len() == 0
                    &&& s@.answers.len() == 0
                    &&& s@.strays.len() == 0
                    &&& s@.made.len() == 0
                },
            },
    {
        let resolver = match open_backup(&settings, chosen, sub_key, loaded, local_repo) {
            Ok(resolver) => resolver,
            Err(e) => return Err(e),
        };
        let step = next_step(Step::LoadManifest, settings.delta, settings.dry_run);
        let candidates = delta_candidates(&settings, &resolver.manifest);
        let none: Vec<usize> = Vec::new();
        let copy = CopyRun::start(resolver, none);
        assert(copy.todo() =~= Seq::<int>::empty());
        assert(run::rank(Step::CreatePaths) < run::rank(Step::ResolveFiles));
        Ok(
            RestoreRun {
                config,
                settings,
                local_pg,
                step,
                copy,
                candidates,
                delta: DeltaPlan { settled: Vec::new(), jobs: Vec::new(), asked: Vec::new() },
                matched: Vec::new(),
                strays: Vec::new(),
                made: Vec::new(),
                answers: Ghost(Seq::empty()),
            },
        )
    }

    /// The step that the restore is at.
    pub fn step(&self) -> (r: Step)
        ensures
            r == self@.step,
            self@.consistent(),
    {
        proof {
            use_type_invariant(self);
        }
        self.step
    }

    fn moved(self) -> (r: RestoreRun)
        requires
            self@.step != Step::Finish,
            self@.step == Step::ResolveFiles ==> self@.jobs.len() == self@.todo.len(),
            self@.step == Step::CopyFiles ==> copy::covers(self@.answers, self@.jobs) && copy::failure_text(self@.answers) is None,
            self@.step == Step::LayLinks && links::symlinks_allowed(self@.config) ==> self@.made.len()
                == self@.resolver.manifest.links.len(),
        ensures
            r@ == (RunView { step: r@.step, todo: r@.todo, ..self@ }),
            r@.past(self@.step),
            r@.consistent(),
    {
        proof {
            use_type_invariant(&self);
        }
        let ghost before = self@;
        let RestoreRun { config, settings, local_pg, step, copy, candidates, delta, matched, strays, made, answers } = self;
        let next = next_step(step, settings.delta, settings.dry_run);
        proof {
            assert(run::rank(Step::ResolveFiles) > run::rank(Step::HashTargets));
            assert(run::rank(Step::LayLinks) > run::rank(Step::ResolveFiles));
        }
        let copy = if next == Step::ResolveFiles {
            assert(before.todo.len() == 0);
            let (known, _jobs) = copy.finish();
            let plan = copy_plan(&settings, &known.manifest, &matched);
            let started = CopyRun::start(known, plan.todo);
            assert(started.jobs() =~= before.jobs);
            started
        } else {
            copy
        };
        RestoreRun { config, settings, local_pg, step: next, copy, candidates, delta, matched, strays, made, answers }
    }

    /// The directories to make in the target.
    pub fn paths_to_create(&self) -> (r: Vec<String>)
        ensures
            text::texts(r@) == run::recorded_paths(self@.resolver.manifest) + run::skeleton(),
    {
        directories(&self.copy.known().manifest)
    }

    /// Goes on once they were made.
    pub fn paths_created(self) -> (r: RestoreRun)
        requires
            self@.step == Step::CreatePaths,
        ensures
            r@ == (RunView { step: r@.step, todo: r@.todo, ..self@ }),
            r@.past(Step::CreatePaths),
            r@.consistent(),
    {
        self.moved()
    }

    /// The paths to ask the target of: those of the files to compare, in order.
    pub fn targets(&self) -> (r: Vec<String>)
        ensures
            r.len() == self@.candidates.len(),
            forall|k: int|
                0 <= k < r.len() ==> (#[trigger] r[k])@ == self@.files()[self@.candidates[k] as int].path@,
    {
        proof {
            use_type_invariant(self);
        }
        let mut out: Vec<String> = Vec::new();
        let n: usize = self.candidates.len();
        let mut i: usize = 0;
        let files = &self.copy.known().manifest.files;
        while i < n
            invariant
                i <= n,
                n == self.candidates.len(),
                self@.consistent(),
                files@ == self@.files(),
                self@.candidates == self.candidates@,
                out.len() == i,
                forall|k: int|
                    0 <= k < i ==> (#[trigger] out[k])@ == self@.files()[self@.candidates[k] as int].path@,
            decreases n - i,
        {
            assert(self@.candidates[i as int] < self@.files().len());
            out.push(files[self.candidates[i]].path.clone());
            i += 1;
        }
        out
    }

    /// Takes up what the target told of these paths: none where it told nothing.
    pub fn told_targets(self, infos: &Vec<Option<StorageInfo>>) -> (r: RestoreRun)
        requires
            self@.step == Step::InspectTargets,
            infos.len() == self@.candidates.len(),
        ensures
            r@ == (RunView {
                step: r@.step,
                todo: r@.todo,
                settled: r@.settled,
                hashing: r@.hashing,
                asked: r@.asked,
                ..self@
            }),
            run::plans(r@.settled, r@.hashing, r@.asked, self@.files(), self@.candidates, infos@, self@.local_pg),
            r@.past(Step::InspectTargets),
            r@.consistent(),
    {
        proof {
            use_type_invariant(&self);
        }
        let ghost before = self@;
        let delta = delta_plan(&self.copy.known().manifest, &self.candidates, infos, self.local_pg);
        let RestoreRun { config, settings, local_pg, step, copy, candidates, delta: _, matched, strays, made, answers } = self;
        let told = RestoreRun { config, settings, local_pg, step, copy, candidates, delta, matched, strays, made, answers };
        told.moved()
    }

    /// The files whose digest decides.
    pub fn hash_jobs(&self) -> (r: &Vec<DeltaJob>)
        ensures
            r@ == self@.hashing,
    {
        &self.delta.jobs
    }

    /// Takes up how the digests compare, one answer for each file. Where the target is
    /// not on this host, the answers are in the order of the files.
    pub fn told_digests(self, results: &Vec<DeltaResult>) -> (r: RestoreRun)
        requires
            self@.step == Step::HashTargets,
            if self@.local_pg {
                delta::covers(results@, self@.hashing)
            } else {
                delta::in_order(results@, self@.hashing)
            },
        ensures
            r@ == (RunView {
                step: r@.step,
                todo: r@.todo,
                matched: r@.matched,
                settled: Seq::empty(),
                hashing: Seq::empty(),
                asked: Seq::empty(),
                ..self@
            }),
            r@.matched.len() == self@.files().len(),
            forall|i: int|
                0 <= i < r@.matched.len() ==> #[trigger] r@.matched[i] == run::stays(
                    self@.files(),
                    self@.settled,
                    self@.asked,
                    results@,
                    self@.local_pg,
                    i,
                ),
            r@.past(Step::HashTargets),
            r@.consistent(),
    {
        proof {
            use_type_invariant(&self);
        }
        let ghost before = self@;
        let RestoreRun { config, settings, local_pg, step, copy, candidates, delta, matched: _, strays, made, answers } = self;
        proof {
            assert forall|k: int| 0 <= k < delta.settled.len() implies #[trigger] delta.settled[k] < before.files().len() by {
                assert(before.settled[k] == delta.settled[k]);
            }
            assert forall|k: int| 0 <= k < delta.asked.len() implies #[trigger] delta.asked[k] < before.files().len() by {
                assert(before.asked[k] == delta.asked[k]);
            }
        }
        let matched = delta.confirm(&copy.known().manifest, results, local_pg);
        let delta = DeltaPlan { settled: Vec::new(), jobs: Vec::new(), asked: Vec::new() };
        let told = RestoreRun { config, settings, local_pg, step, copy, candidates, delta, matched, strays, made, answers };
        assert(told@.settled =~= Seq::<int>::empty());
        assert(told@.asked =~= Seq::<int>::empty());
        assert(told@.hashing =~= Seq::<DeltaJob>::empty());
        told.moved()
    }

    /// What is needed for the next job; the run can go on where nothing is.
    pub fn next_need(&self) -> (r: Result<CopyNeed, CommandError>)
        ensures
            self@.jobs.len() <= self@.todo.len(),
            if self@.jobs.len() == self@.todo.len() {
                r == Ok::<CopyNeed, CommandError>(CopyNeed::Complete)
            } else {
                plan::asks(r, self@.resolver, self@.current())
            },
    {
        self.copy.next()
    }

    /// Takes up the manifest of another backup, or that it could not be loaded.
    pub fn told_manifest(self, label: String, loaded: Result<Manifest, LoadError>) -> (r: Result<RestoreRun, CommandError>)
        requires
            self@.resolver.manifests.lookup(label@) is None,
        ensures
            match loaded {
                Err(LoadError::NotFound) => r matches Err(e) && e.is_not_found(
                    paths::manifest_at(self@.resolver.stanza@, label@),
                ),
                Err(LoadError::Unusable(m)) => r matches Err(e) && e.is_other(m@),
                Ok(manifest) => {
                    &&& r matches Ok(s)
                    &&& s@ == (RunView { resolver: s@.resolver, ..self@ })
                    &&& plan::knows_more(self@.resolver, s@.resolver)
                    &&& s@.resolver.manifests.lookup(label@) == Some(manifest)
                    &&& s@.resolver.infos == self@.resolver.infos
                },
            },
    {
        proof {
            use_type_invariant(&self);
        }
        let RestoreRun { config, settings, local_pg, step, copy, candidates, delta, matched, strays, made, answers } = self;
        let copy = match copy.told_manifest(label, loaded) {
            Ok(copy) => copy,
            Err(e) => return Err(e),
        };
        Ok(RestoreRun { config, settings, local_pg, step, copy, candidates, delta, matched, strays, made, answers })
    }

    /// Takes up what the repository told of a path, or that it failed to.
    pub fn told_info(self, path: String, told: Result<StorageInfo, StorageError>) -> (r: Result<RestoreRun, CommandError>)
        requires
            self@.resolver.infos.lookup(path@) is None,
        ensures
            match told {
                Err(err) => r == Err::<RestoreRun, CommandError>(CommandError::Storage(err)),
                Ok(info) => {
                    &&& r matches Ok(s)
                    &&& s@ == (RunView { resolver: s@.resolver, ..self@ })
                    &&& plan::knows_more(self@.resolver, s@.resolver)
                    &&& s@.resolver.infos.lookup(path@) == Some(info)
                    &&& s@.resolver.manifests == self@.resolver.manifests
                },
            },
    {
        proof {
            use_type_invariant(&self);
        }
        let RestoreRun { config, settings, local_pg, step, copy, candidates, delta, matched, strays, made, answers } = self;
        let copy = match copy.told_info(path, told) {
            Ok(copy) => copy,
            Err(e) => return Err(e),
        };
        Ok(RestoreRun { config, settings, local_pg, step, copy, candidates, delta, matched, strays, made, answers })
    }

    /// Makes the next job, once the directory that is to hold the file stands at
    /// `abs_parent` on this host.
    pub fn placed(self, abs_parent: &str) -> (r: RestoreRun)
        requires
            self@.step == Step::ResolveFiles,
            self@.jobs.len() < self@.todo.len(),
            self@.resolver.resolution(self@.current()) is Found,
            paths::name_of(self@.current().path@) is Some,
        ensures
            r@ == (RunView { jobs: r@.jobs, ..self@ }),
            r@.jobs.len() == self@.jobs.len() + 1,
            r@.jobs.drop_last() == self@.jobs,
            plan::copies(r@.jobs.last(), self@.resolver, self@.current()),
            r@.jobs.last().abs_dst@ == paths::below(abs_parent@, paths::name_of(self@.current().path@).unwrap()),
    {
        proof {
            use_type_invariant(&self);
        }
        let RestoreRun { config, settings, local_pg, step, copy, candidates, delta, matched, strays, made, answers } = self;
        let copy = copy.placed(abs_parent);
        RestoreRun { config, settings, local_pg, step, copy, candidates, delta, matched, strays, made, answers }
    }

    /// Goes on once there is a job for each file.
    pub fn files_resolved(self) -> (r: RestoreRun)
        requires
            self@.step == Step::ResolveFiles,
            self@.jobs.len() == self@.todo.len(),
        ensures
            r@ == (RunView { step: r@.step, ..self@ }),
            r@.past(Step::ResolveFiles),
            r@.consistent(),
    {
        proof {
            use_type_invariant(&self);
        }
        self.moved()
    }

    /// The jobs that copy the files.
    pub fn copy_jobs(&self) -> (r: &Vec<RestoreCopyJob>)
        ensures
            r@ == self@.jobs,
            self@.consistent(),
    {
        proof {
            use_type_invariant(self);
        }
        self.copy.made()
    }

    /// Takes up how the jobs ended, one answer for each: the first failure fails the
    /// restore.
    pub fn copied(self, results: &Vec<CopyResult>) -> (r: Result<RestoreRun, CommandError>)
        requires
            self@.step == Step::CopyFiles,
            copy::covers(results@, self@.jobs),
        ensures
            match copy::failure_text(results@) {
                Some(m) => r matches Err(e) && e.is_other(m),
                None => {
                    &&& r matches Ok(s)
                    &&& s@ == (RunView { step: s@.step, answers: results@, ..self@ })
                    &&& s@.past(Step::CopyFiles)
                    &&& s@.consistent()
                },
            },
    {
        proof {
            use_type_invariant(&self);
        }
        match copy_outcome(results) {
            Ok(_) => {
                let RestoreRun { config, settings, local_pg, step, copy, candidates, delta, matched, strays, made, answers: _ } =
                    self;
                let answers = Ghost(results@);
                let told = RestoreRun {
                    config,
                    settings,
                    local_pg,
                    step,
                    copy,
                    candidates,
                    delta,
                    matched,
                    strays,
                    made,
                    answers,
                };
                Ok(told.moved())
            },
            Err(e) => Err(e),
        }
    }

    /// Where to look for files that the backup does not hold.
    pub fn roots(&self) -> (r: Vec<String>)
        ensures
            crate::textmap::ascending(text::texts(r@)),
            forall|root: Seq<char>|
                #[trigger] text::texts(r@).contains(root) <==> stray::is_root(self@.resolver.manifest, root),
    {
        stray_roots(&self.copy.known().manifest)
    }

    /// Takes up what was found there, in the same order.
    pub fn told_tree(self, found: &Vec<(String, RootFound)>) -> (r: RestoreRun)
        requires
            self@.step == Step::WalkTarget,
            stray::walks_all(found@, self@.resolver.manifest),
        ensures
            r@ == (RunView { step: r@.step, strays: r@.strays, ..self@ }),
            r@.strays == stray::strays(self@.files(), stray::present_files(found@)),
            r@.past(Step::WalkTarget),
            r@.consistent(),
    {
        proof {
            use_type_invariant(&self);
        }
        let strays = stray_files(&self.copy.known().manifest, found);
        let RestoreRun { config, settings, local_pg, step, copy, candidates, delta, matched, strays: _, made, answers } = self;
        let told = RestoreRun { config, settings, local_pg, step, copy, candidates, delta, matched, strays, made, answers };
        told.moved()
    }

    /// The files in the target that the backup does not hold.
    pub fn strays(&self) -> (r: &Vec<String>)
        ensures
            text::texts(r@) == self@.strays,
    {
        &self.strays
    }

    /// Goes on once they were removed.
    pub fn strays_removed(self) -> (r: RestoreRun)
        requires
            self@.step == Step::RemoveStrays,
        ensures
            r@ == (RunView { step: r@.step, ..self@ }),
            r@.past(Step::RemoveStrays),
            r@.consistent(),
    {
        proof {
            use_type_invariant(&self);
        }
        self.moved()
    }

    /// What becomes of the links.
    pub fn links(&self) -> (r: Vec<LinkStep>)
        ensures
            r.len() == self@.resolver.manifest.links.len(),
            forall|i: int|
                0 <= i < r.len() ==> run::step_fits(#[trigger] r[i], self@.resolver.manifest.links[i], self@.config),
    {
        link_steps(&self.config, &self.copy.known().manifest)
    }

    /// Takes up of each symbolic link, in order, whether it was made.
    pub fn links_laid(self, results: Vec<bool>) -> (r: RestoreRun)
        requires
            self@.step == Step::LayLinks,
            links::symlinks_allowed(self@.config) ==> results.len() == self@.resolver.manifest.links.len(),
        ensures
            r@ == (RunView { step: r@.step, made: results@, ..self@ }),
            r@.past(Step::LayLinks),
            r@.consistent(),
    {
        proof {
            use_type_invariant(&self);
        }
        let RestoreRun { config, settings, local_pg, step, copy, candidates, delta, matched, strays, made: _, answers } = self;
        let told = RestoreRun {
            config,
            settings,
            local_pg,
            step,
            copy,
            candidates,
            delta,
            matched,
            strays,
            made: results,
            answers,
        };
        told.moved()
    }

    /// The files at the root of the backup to copy where it has them: each as where
    /// it lies and what it is named.
    pub fn labels(&self) -> (r: Vec<(String, String)>)
        ensures
            r.len() == 2,
            r[0].0@ == paths::backup_file_at(self@.settings.stanza@, self@.resolver.label@, "backup_label"@),
            r[0].1@ == "backup_label"@,
            r[1].0@ == paths::backup_file_at(self@.settings.stanza@, self@.resolver.label@, "tablespace_map"@),
            r[1].1@ == "tablespace_map"@,
    {
        label_files(&self.settings, self.copy.known().label.as_str())
    }

    /// Goes on once they were copied.
    pub fn labels_copied(self) -> (r: RestoreRun)
        requires
            self@.step == Step::CopyLabels,
        ensures
            r@ == (RunView { step: r@.step, ..self@ }),
            r@.past(Step::CopyLabels),
            r@.consistent(),
    {
        proof {
            use_type_invariant(&self);
        }
        self.moved()
    }

    /// The recovery files to write.
    pub fn recovery(&self) -> (r: Vec<RecoveryFile>)
        ensures
            recovery::file_views(r@) == recovery::files_of(
                self@.resolver.manifest.db_version@,
                self@.settings.stanza@,
                self@.config,
            ),
    {
        recovery_files(self.copy.known().manifest.db_version.as_str(), self.settings.stanza.as_str(), &self.config)
    }

    /// Goes on once they were written.
    pub fn recovery_written(self) -> (r: RestoreRun)
        requires
            self@.step == Step::WriteRecovery,
        ensures
            r@ == (RunView { step: r@.step, ..self@ }),
            r@.past(Step::WriteRecovery),
            r@.consistent(),
    {
        proof {
            use_type_invariant(&self);
        }
        self.moved()
    }

    /// What a restore that may only say what it would do says, line by line; one that
    /// did it says nothing here.
    pub fn would_do(&self) -> (r: Vec<String>)
        requires
            self@.step == Step::Finish,
        ensures
            text::texts(r@) == (if self@.settings.dry_run {
                run::would_do(self@.settings, self@.config, self@.resolver.manifest, self@.matched)
            } else {
                Seq::<Seq<char>>::empty()
            }),
    {
        if self.settings.dry_run {
            dry_run_lines(&self.settings, &self.config, &self.copy.known().manifest, &self.matched)
        } else {
            let none: Vec<String> = Vec::new();
            assert(text::texts(none@) =~= Seq::<Seq<char>>::empty());
            none
        }
    }

    /// What the restore did, or under `dry_run` would do.
    pub fn finish(self) -> (r: RestoreOutcome)
        requires
            self@.step == Step::Finish,
        ensures
            amounts_to(r, self@),
            self@.consistent(),
    {
        proof {
            use_type_invariant(&self);
        }
        let known = self.copy.known();
        let plan = copy_plan(&self.settings, &known.manifest, &self.matched);
        let counts = link_counts(&self.config, &known.manifest, self.settings.dry_run, &self.made);
        assert(run::places(plan.todo@).len() == plan.todo.len());
        restore_outcome(&self.settings, &self.config, known, &plan, self.strays.len(), &counts)
    }
}

/// Every recorded file was restored, was left as it is, or belongs to a database
/// that is not wanted, and only one of the three.
pub proof fn law_outcome_accounts_for_every_file(r: RestoreOutcome, v: RunView)
    requires
        amounts_to(r, v),
    ensures
        r.files_restored + r.files_skipped + run::unwanted_count(v.settings, v.files(), v.files().len() as int)
            == v.files().len(),
{
    run::law_every_file_is_accounted_for(v.settings, v.files(), v.matched, v.files().len() as int);
}

/// A restore that came to its end copied each file that it counts, from where the
/// backup's bytes of it lie: there is a job for each, and each was answered with
/// success.
pub proof fn law_counted_files_were_copied(r: RestoreOutcome, v: RunView)
    requires
        amounts_to(r, v),
        v.consistent(),
        v.step == Step::Finish,
        !v.settings.dry_run,
    ensures
        v.jobs.len() == r.files_restored,
        v.answers.len() == r.files_restored,
        forall|k: int| 0 <= k < v.jobs.len() ==> plan::copies(#[trigger] v.jobs[k], v.resolver, v.files()[v.todo[k]]),
        forall|k: int| 0 <= k < v.jobs.len() ==> copy::was_copied(v.answers, (#[trigger] v.jobs[k]).rel@),
        forall|k: int|
            0 <= k < v.jobs.len() ==> run::to_copy(v.settings, v.files(), v.matched, #[trigger] v.todo[k]),
{
    let n = v.files().len() as int;
    assert(run::rank(Step::Finish) > run::rank(Step::CopyFiles));
    copy::law_success_means_all_copied(v.answers, v.jobs);
    assert forall|k: int| 0 <= k < v.jobs.len() implies run::to_copy(
        v.settings,
        v.files(),
        v.matched,
        #[trigger] v.todo[k],
    ) by {
        lemma_copy_places(v.settings, v.files(), v.matched, n, k);
    }
}

proof fn lemma_copy_places(settings: RestoreSettings, files: Seq<ManifestFile>, matched: Seq<bool>, n: int, k: int)
    requires
        0 <= k < run::copy_places(settings, files, matched, n).len(),
    ensures
        run::to_copy(settings, files, matched, run::copy_places(settings, files, matched, n)[k]),
    decreases n,
{
    if n > 0 {
        let front = run::copy_places(settings, files, matched, n - 1);
        if k < front.len() {
            lemma_copy_places(settings, files, matched, n - 1, k);
        }
    }
}

/// Whether two outcomes are the same.
pub open spec fn same_outcome(a: RestoreOutcome, b: RestoreOutcome) -> bool {
    &&& a.label@ == b.label@
    &&& a.files_restored == b.files_restored
    &&& a.files_skipped == b.files_skipped
    &&& a.files_removed == b.files_removed
    &&& a.paths_created == b.paths_created
    &&& a.links_created == b.links_created
    &&& a.skipped_links == b.skipped_links
    &&& a.links_as_dir == b.links_as_dir
    &&& text::texts(a.recovery_files_written@) == text::texts(b.recovery_files_written@)
    &&& a.dry_run == b.dry_run
}

/// Whether two restores were told the same: of the repository and the backup, of which
/// files are unchanged, of what else stands in the target, and of which links were made.
pub open spec fn told_the_same(a: RunView, b: RunView) -> bool {
    &&& resolver::knows_the_same(a.resolver, b.resolver)
    &&& a.matched == b.matched
    &&& a.strays == b.strays
    &&& a.made == b.made
}

/// How many workers copy changes no outcome: two restores whose configurations differ
/// in `process-max` alone and that are told the same come to the same outcome, by jobs
/// that leave the same bytes under the same paths.
pub proof fn law_process_max_changes_no_outcome(
    a: RunView,
    b: RunView,
    r: RestoreOutcome,
    q: RestoreOutcome,
    held: spec_fn(Seq<char>) -> Option<Seq<u8>>,
    undo: spec_fn(TransformView, Seq<u8>) -> Option<Seq<u8>>,
    sha1: spec_fn(Seq<u8>) -> Seq<char>,
)
    requires
        config::same_but(a.config, b.config, "process-max"@),
        run::settings_fit(a.settings, a.config),
        run::settings_fit(b.settings, b.config),
        told_the_same(a, b),
        a.consistent(),
        b.consistent(),
        a.step == Step::Finish,
        b.step == Step::Finish,
        amounts_to(r, a),
        amounts_to(q, b),
    ensures
        same_outcome(r, q),
        a.todo == b.todo,
        a.jobs.len() == b.jobs.len(),
        forall|k: int|
            0 <= k < a.jobs.len() ==> {
                &&& (#[trigger] a.jobs[k]).rel@ == b.jobs[k].rel@
                &&& a.jobs[k].mode == b.jobs[k].mode
                &&& copy::copied_bytes(a.jobs[k], a.resolver.local, held, undo, sha1) == copy::copied_bytes(
                    b.jobs[k],
                    b.resolver.local,
                    held,
                    undo,
                    sha1,
                )
            },
{
    run::law_process_max_decides_nothing(a.config, b.config);
    assert(run::same_but_workers(a.settings, b.settings));
    let mine = a.resolver.manifest@;
    let yours = b.resolver.manifest@;
    assert(mine == yours);
    assert(mine.paths.len() == yours.paths.len());
    assert(mine.links.len() == yours.links.len());
    assert(mine.files.len() == yours.files.len());
    assert forall|i: int| 0 <= i < a.files().len() implies (#[trigger] a.files()[i])@ == b.files()[i]@ by {
        assert(mine.files[i] == yours.files[i]);
    }
    assert(run::same_paths(a.files(), b.files())) by {
        assert forall|i: int| 0 <= i < a.files().len() implies (#[trigger] a.files()[i]).path@ == b.files()[i].path@ by {
            assert(a.files()[i]@.path == b.files()[i]@.path);
        }
    }
    run::law_workers_copy_the_same(a.settings, b.settings, a.files(), b.files(), a.matched, a.files().len() as int);
    let version = mine.db_version;
    assert(recovery::files_of(version, a.settings.stanza@, a.config) == recovery::files_of(
        version,
        b.settings.stanza@,
        b.config,
    ));
    assert(run::rank(Step::Finish) > run::rank(Step::ResolveFiles));
    assert forall|k: int| 0 <= k < a.jobs.len() implies {
        &&& (#[trigger] a.jobs[k]).rel@ == b.jobs[k].rel@
        &&& a.jobs[k].mode == b.jobs[k].mode
        &&& copy::copied_bytes(a.jobs[k], a.resolver.local, held, undo, sha1) == copy::copied_bytes(
            b.jobs[k],
            b.resolver.local,
            held,
            undo,
            sha1,
        )
    } by {
        assert(plan::copies(a.jobs[k], a.resolver, a.files()[a.todo[k]]));
        assert(plan::copies(b.jobs[k], b.resolver, b.files()[b.todo[k]]));
        let file = a.files()[a.todo[k]];
        let other = b.files()[b.todo[k]];
        assert(file@ == other@);
        assert(file@.path == other@.path && file@.mode == other@.mode && file@.checksum == other@.checksum);
        resolver::law_same_knowledge_same_source(a.resolver, b.resolver, file, other);
        copy::law_copy_follows_source(a.jobs[k], b.jobs[k], a.resolver.local, held, undo, sha1);
    }
}

/// A restore that may only say what it would do copies nothing.
pub proof fn law_dry_run_copies_nothing(v: RunView)
    requires
        v.consistent(),
        v.settings.dry_run,
    ensures
        v.jobs.len() == 0,
        !run::changes_target(v.step),
{
}

/// A restore without `delta` leaves no file as it is and removes none.
pub proof fn law_full_restore_replaces_all(r: RestoreOutcome, v: RunView)
    requires
        amounts_to(r, v),
        !v.settings.delta,
    ensures
        r.files_skipped == 0,
        r.files_removed == 0,
        r.files_restored + run::unwanted_count(v.settings, v.files(), v.files().len() as int) == v.files().len(),
{
    law_outcome_accounts_for_every_file(r, v);
    run::law_full_restore_copies_all(v.settings, v.files(), v.matched, v.files().len() as int);
}

/// A restore that may only say what it would do names each file, link and recovery
/// file that its outcome counts.
pub proof fn law_dry_run_names_what_it_counts(r: RestoreOutcome, v: RunView)
    requires
        amounts_to(r, v),
        v.settings.dry_run,
    ensures
        run::would_do(v.settings, v.config, v.resolver.manifest, v.matched).len() == r.files_restored + r.links_created
            + r.links_as_dir + r.recovery_files_written.len(),
{
    assert(text::texts(r.recovery_files_written@).len() == r.recovery_files_written.len());
}

proof fn lemma_one_step_follows(step: Step, a: Step, b: Step, delta: bool, dry_run: bool)
    requires
        run::follows(step, a, delta, dry_run),
        run::follows(step, b, delta, dry_run),
    ensures
        a == b,
{
    if run::rank(a) < run::rank(b) {
        assert(!run::taken(a, delta, dry_run));
    }
    if run::rank(b) < run::rank(a) {
        assert(!run::taken(b, delta, dry_run));
    }
}

/// Once a step is done the restore is at the step that comes next, and it has not
/// forgotten what it was told.
pub proof fn law_done_steps_lead_to_the_next(run: RestoreRun, r: RestoreRun, before: Step, next: Step, after: Step)
    requires
        call_ensures(RestoreRun::step, (&run,), before),
        before != Step::Finish,
        call_ensures(next_step, (before, run@.settings.delta, run@.settings.dry_run), next),
        match before {
            Step::CreatePaths => call_ensures(RestoreRun::paths_created, (run,), r),
            Step::ResolveFiles => run@.jobs.len() == run@.todo.len() && call_ensures(RestoreRun::files_resolved, (run,), r),
            Step::RemoveStrays => call_ensures(RestoreRun::strays_removed, (run,), r),
            Step::CopyLabels => call_ensures(RestoreRun::labels_copied, (run,), r),
            Step::WriteRecovery => call_ensures(RestoreRun::recovery_written, (run,), r),
            _ => false,
        },
        call_ensures(RestoreRun::step, (&r,), after),
    ensures
        after == next,
        r@.matched == run@.matched && r@.strays == run@.strays && r@.made == run@.made && r@.resolver == run@.resolver
            && r@.jobs == run@.jobs && r@.settings == run@.settings && r@.config == run@.config,
{
    lemma_one_step_follows(before, after, next, run@.settings.delta, run@.settings.dry_run);
}

/// What is told at a step is taken up, and the restore is at the step that comes next: the
/// links that were made; the files that stand in the target but were not recorded; the
/// answers to the copy, unless one of them fails it.
pub proof fn law_answers_are_taken_up(
    run: RestoreRun,
    before: Step,
    next: Step,
    made: Vec<bool>,
    laid: RestoreRun,
    found: &Vec<(String, RootFound)>,
    manifest: &Manifest,
    strays: Vec<String>,
    walked: RestoreRun,
    results: &Vec<CopyResult>,
    outcome: Result<(), CommandError>,
    copied: Result<RestoreRun, CommandError>,
)
    requires
        call_ensures(RestoreRun::step, (&run,), before),
        before != Step::Finish,
        call_ensures(next_step, (before, run@.settings.delta, run@.settings.dry_run), next),
        before == Step::LayLinks ==> call_ensures(RestoreRun::links_laid, (run, made), laid),
        *manifest == run@.resolver.manifest,
        call_ensures(stray_files, (manifest, found), strays),
        before == Step::WalkTarget ==> call_ensures(RestoreRun::told_tree, (run, found), walked),
        call_ensures(copy_outcome, (results,), outcome),
        before == Step::CopyFiles ==> call_ensures(RestoreRun::copied, (run, results), copied),
    ensures
        before == Step::LayLinks ==> laid@.step == next && laid@.made == made@ && laid@.strays == run@.strays && laid@.matched
            == run@.matched,
        before == Step::WalkTarget ==> walked@.step == next && walked@.strays == text::texts(strays@) && walked@.matched
            == run@.matched,
        before == Step::CopyFiles ==> (copied is Ok <==> outcome is Ok),
        before == Step::CopyFiles && copied is Ok ==> copied->Ok_0@.step == next && copied->Ok_0@.answers == results@
            && copied->Ok_0@.jobs == run@.jobs,
{
    if before == Step::LayLinks {
        lemma_one_step_follows(before, laid@.step, next, run@.settings.delta, run@.settings.dry_run);
    }
    if before == Step::WalkTarget {
        lemma_one_step_follows(before, walked@.step, next, run@.settings.delta, run@.settings.dry_run);
    }
    if before == Step::CopyFiles && copied is Ok {
        lemma_one_step_follows(before, copied->Ok_0@.step, next, run@.settings.delta, run@.settings.dry_run);
    }
}

/// What the target is asked and told. It is asked for the files whose database is taken,
/// in the order of the manifest; what it tells settles each by itself; how the digests
/// compare decides the rest.
pub proof fn law_target_is_compared(
    run: RestoreRun,
    settings: &RestoreSettings,
    manifest: &Manifest,
    candidates: &Vec<usize>,
    asked: Vec<String>,
    infos: &Vec<Option<StorageInfo>>,
    plan: DeltaPlan,
    told: RestoreRun,
    next: Step,
)
    requires
        *settings == run@.settings,
        *manifest == run@.resolver.manifest,
        call_ensures(delta_candidates, (settings, manifest), *candidates),
        candidates@ == run@.candidates,
        call_ensures(RestoreRun::targets, (&run,), asked),
        run@.step == Step::InspectTargets,
        infos.len() == candidates.len(),
        call_ensures(delta_plan, (manifest, candidates, infos, run@.local_pg), plan),
        call_ensures(RestoreRun::told_targets, (run, infos), told),
        call_ensures(next_step, (Step::InspectTargets, run@.settings.delta, run@.settings.dry_run), next),
    ensures
        asked.len() == candidates.len(),
        forall|k: int|
            0 <= k < asked.len() ==> (#[trigger] asked[k])@ == manifest.files[candidates[k] as int].path@,
        told@.settled == run::places(plan.settled@),
        told@.asked == run::places(plan.asked@),
        told@.hashing.len() == plan.jobs.len(),
        told@.step == next,
{
    lemma_one_step_follows(Step::InspectTargets, told@.step, next, run@.settings.delta, run@.settings.dry_run);
}

/// Which files are unchanged is what the plan makes of the answers.
pub proof fn law_digests_decide(
    run: RestoreRun,
    manifest: &Manifest,
    plan: &DeltaPlan,
    results: &Vec<DeltaResult>,
    same: Vec<bool>,
    told: RestoreRun,
    next: Step,
)
    requires
        *manifest == run@.resolver.manifest,
        run::places(plan.settled@) == run@.settled,
        run::places(plan.asked@) == run@.asked,
        run@.step == Step::HashTargets,
        call_ensures(DeltaPlan::confirm, (plan, manifest, results, run@.local_pg), same),
        call_ensures(RestoreRun::told_digests, (run, results), told),
        call_ensures(next_step, (Step::HashTargets, run@.settings.delta, run@.settings.dry_run), next),
    ensures
        told@.matched == same@,
        told@.step == next,
{
    assert(told@.matched =~= same@);
    lemma_one_step_follows(Step::HashTargets, told@.step, next, run@.settings.delta, run@.settings.dry_run);
}

/// What a restore hands out to be done is what its backup and its options ask for.
pub proof fn law_work_is_handed_out(
    run: &RestoreRun,
    settings: &RestoreSettings,
    config: &LoadedConfig,
    manifest: &Manifest,
    label: &str,
    version: &str,
    stanza: &str,
    dirs: (Vec<String>, Vec<String>),
    roots: (Vec<String>, Vec<String>),
    labels: (Vec<(String, String)>, Vec<(String, String)>),
    files: (Vec<RecoveryFile>, Vec<RecoveryFile>),
)
    requires
        *settings == run@.settings,
        *config == run@.config,
        *manifest == run@.resolver.manifest,
        label@ == run@.resolver.label@,
        version@ == manifest.db_version@,
        stanza@ == settings.stanza@,
        call_ensures(RestoreRun::paths_to_create, (run,), dirs.0),
        call_ensures(directories, (manifest,), dirs.1),
        call_ensures(RestoreRun::roots, (run,), roots.0),
        call_ensures(stray_roots, (manifest,), roots.1),
        call_ensures(RestoreRun::labels, (run,), labels.0),
        call_ensures(label_files, (settings, label), labels.1),
        call_ensures(RestoreRun::recovery, (run,), files.0),
        call_ensures(recovery_files, (version, stanza, config), files.1),
    ensures
        text::texts(dirs.0@) == text::texts(dirs.1@),
        forall|root: Seq<char>| #[trigger] text::texts(roots.0@).contains(root) <==> text::texts(roots.1@).contains(root),
        labels.0.len() == labels.1.len(),
        forall|i: int|
            0 <= i < labels.0.len() ==> (#[trigger] labels.0[i]).0@ == labels.1[i].0@ && labels.0[i].1@ == labels.1[i].1@,
        files.0.len() == files.1.len(),
        forall|i: int|
            0 <= i < files.0.len() ==> (#[trigger] files.0[i]).path@ == files.1[i].path@ && files.0[i].contents@
                == files.1[i].contents@,
{
    let a = recovery::file_views(files.0@);
    let b = recovery::file_views(files.1@);
    assert(a.len() == files.0.len() && b.len() == files.1.len());
    assert(a == b);
    assert forall|i: int| 0 <= i < files.0.len() implies (#[trigger] files.0[i]).path@ == files.1[i].path@ && files.0[i].contents@
        == files.1[i].contents@ by {
        assert(a[i] == b[i]);
    }
}

/// The outcome of a restore counts what its plan copies and skips, what it removed, and
/// what became of its links; a restore that only says what it would do says it in the same
/// lines.
pub proof fn law_outcome_counts_the_plan(
    run: RestoreRun,
    settings: &RestoreSettings,
    config: &LoadedConfig,
    manifest: &Manifest,
    matched: &Vec<bool>,
    made: &Vec<bool>,
    plan: run::CopyPlan,
    counts: run::LinkCounts,
    lines: Vec<String>,
    said: Vec<String>,
    r: RestoreOutcome,
)
    requires
        *settings == run@.settings,
        *config == run@.config,
        *manifest == run@.resolver.manifest,
        matched@ == run@.matched,
        made@ == run@.made,
        run@.step == Step::Finish,
        call_ensures(copy_plan, (settings, manifest, matched), plan),
        call_ensures(link_counts, (config, manifest, settings.dry_run, made), counts),
        call_ensures(dry_run_lines, (settings, config, manifest, matched), lines),
        call_ensures(RestoreRun::would_do, (&run,), said),
        call_ensures(RestoreRun::finish, (run,), r),
    ensures
        r.label@ == run@.resolver.label@,
        r.files_restored == plan.todo.len(),
        r.files_skipped == plan.files_skipped,
        r.files_removed == (if settings.delta {
            run@.strays.len()
        } else {
            0
        }),
        r.paths_created == manifest.paths.len(),
        r.links_created == counts.links_created,
        r.skipped_links == counts.skipped_links,
        r.links_as_dir == counts.links_as_dir,
        r.dry_run == settings.dry_run,
        settings.dry_run ==> text::texts(said@) == text::texts(lines@),
        !settings.dry_run ==> said.len() == 0,
{
    assert(run::places(plan.todo@).len() == plan.todo.len());
    assert(text::texts(said@).len() == said.len());
    assert(amounts_to(r, run@));
}

/// Every job of a restore reads under the repository's key: of a restore whose backup was
/// opened with that key, whatever was told since.
pub proof fn law_every_job_is_keyed(v: RunView, k: int)
    requires
        v.consistent(),
        config::opt_text(v.resolver.transform.key) == config::opt_text(v.resolver.sub_key),
        0 <= k < v.jobs.len(),
    ensures
        match v.jobs[k].source {
            resolver::RestoreSource::Standalone { transform, .. } => config::opt_text(transform.key) == config::opt_text(
                v.resolver.sub_key,
            ),
            resolver::RestoreSource::Bundled { transform, .. } => config::opt_text(transform.key) == config::opt_text(
                v.resolver.sub_key,
            ),
            resolver::RestoreSource::Blocks(blocks) => forall|i: int|
                0 <= i < blocks.len() ==> config::opt_text((#[trigger] blocks[i]).transform.key) == config::opt_text(
                    v.resolver.sub_key,
                ),
        },
{
    assert(plan::copies(v.jobs[k], v.resolver, v.files()[v.todo[k]]));
    resolver::law_key_of_every_source(v.resolver, v.files()[v.todo[k]]);
    if let resolver::RestoreSource::Blocks(blocks) = v.jobs[k].source {
        let view = resolver::block_views(blocks@);
        assert(v.jobs[k].source@ == resolver::SourceView::Blocks(view));
        assert forall|i: int| 0 <= i < blocks.len() implies config::opt_text((#[trigger] blocks[i]).transform.key)
            == config::opt_text(v.resolver.sub_key) by {
            assert(view[i] == blocks[i]@);
        }
    }
}

/// A restore starts at the first step behind the manifest, on the chosen backup, with
/// nothing told yet and every key in place.
pub proof fn law_opened_restore(
    config: LoadedConfig,
    settings: RestoreSettings,
    chosen: Chosen,
    sub_key: Option<String>,
    manifest: Manifest,
    local_repo: bool,
    local_pg: bool,
    next: Step,
    r: Result<RestoreRun, CommandError>,
)
    requires
        chosen.index < chosen.info.current.vals().len(),
        call_ensures(
            RestoreRun::open,
            (config, settings, chosen, sub_key, Ok::<Manifest, LoadError>(manifest), local_repo, local_pg),
            r,
        ),
        call_ensures(next_step, (Step::LoadManifest, settings.delta, settings.dry_run), next),
    ensures
        r is Ok,
        ({
            let v = r->Ok_0@;
            &&& v.step == next
            &&& v.resolver.label@ == chosen.label@
            &&& v.resolver.manifest == manifest
            &&& v.resolver.stanza@ == settings.stanza@
            &&& config::opt_text(v.resolver.sub_key) == config::opt_text(sub_key)
            &&& config::opt_text(v.resolver.transform.key) == config::opt_text(sub_key)
            &&& v.resolver.transform.compress_type == chosen.info.current.vals()[chosen.index as int].transform.compress_type
            &&& v.resolver.local == local_repo
            &&& v.local_pg == local_pg
            &&& v.config == config && v.settings == settings
            &&& v.matched.len() == 0 && v.jobs.len() == 0 && v.strays.len() == 0 && v.made.len() == 0
        }),
{
    lemma_one_step_follows(Step::LoadManifest, r->Ok_0@.step, next, settings.delta, settings.dry_run);
}

/// While files are to be placed, a run needs what the source of the next of them needs; it
/// needs nothing once there is a job for each. What it is told of an object is known from
/// then on.
pub proof fn law_session_asks_and_is_told(
    run: RestoreRun,
    need: Result<CopyNeed, CommandError>,
    jobs: &Vec<RestoreCopyJob>,
    path: String,
    info: StorageInfo,
    err: StorageError,
    r: Result<RestoreRun, CommandError>,
    e: Result<RestoreRun, CommandError>,
    other: Seq<char>,
)
    requires
        call_ensures(RestoreRun::next_need, (&run,), need),
        call_ensures(RestoreRun::copy_jobs, (&run,), jobs),
        run@.resolver.infos.lookup(path@) is None,
        call_ensures(RestoreRun::told_info, (run, path, Ok::<StorageInfo, StorageError>(info)), r),
        call_ensures(RestoreRun::told_info, (run, path, Err::<StorageInfo, StorageError>(err)), e),
    ensures
        jobs.len() <= run@.todo.len(),
        need == Ok::<CopyNeed, CommandError>(CopyNeed::Complete) <==> jobs.len() == run@.todo.len(),
        e == Err::<RestoreRun, CommandError>(CommandError::Storage(err)),
        r is Ok,
        r->Ok_0@.resolver.infos.lookup(path@) == Some(info),
        run@.resolver.infos.lookup(other) is Some ==> r->Ok_0@.resolver.infos.lookup(other) == run@.resolver.infos.lookup(other),
        r->Ok_0@.resolver.manifests == run@.resolver.manifests,
        r->Ok_0@.resolver.same_backup(run@.resolver),
        r->Ok_0@.jobs == run@.jobs && r->Ok_0@.todo == run@.todo && r->Ok_0@.config == run@.config,
{
    assert(r->Ok_0@.resolver.infos.lookup(other) == r->Ok_0@.resolver.infos.lookup(other));
}

/// The steps for the links are those that the links of the manifest give one by one.
pub proof fn law_links_of_the_manifest(run: &RestoreRun, r: Vec<LinkStep>, i: int)
    requires
        call_ensures(RestoreRun::links, (run,), r),
        0 <= i < run@.resolver.manifest.links.len(),
    ensures
        r.len() == run@.resolver.manifest.links.len(),
        run::step_fits(r[i], run@.resolver.manifest.links[i], run@.config),
{
}

/// A file that was given its place has its job behind those before it; nothing else of the
/// run changes.
pub proof fn law_placed_file_is_added(run: RestoreRun, abs_parent: &str, r: RestoreRun, k: int)
    requires
        run@.step == Step::ResolveFiles,
        run@.jobs.len() < run@.todo.len(),
        run@.resolver.resolution(run@.current()) is Found,
        paths::name_of(run@.current().path@) is Some,
        call_ensures(RestoreRun::placed, (run, abs_parent), r),
    ensures
        r@.jobs.len() == run@.jobs.len() + 1,
        0 <= k < run@.jobs.len() ==> r@.jobs[k] == run@.jobs[k],
        r@.jobs[run@.jobs.len() as int].rel@ == run@.current().path@,
        r@.jobs[run@.jobs.len() as int].mode == run@.current().mode,
        config::opt_text(r@.jobs[run@.jobs.len() as int].expected_checksum) == config::opt_text(run@.current().checksum),
        r@.step == run@.step && r@.todo == run@.todo && r@.resolver == run@.resolver && r@.config == run@.config,
        r@.hashing == run@.hashing && r@.strays == run@.strays && r@.answers == run@.answers,
{
    if 0 <= k < run@.jobs.len() {
        assert(r@.jobs.drop_last()[k] == run@.jobs[k]);
    }
}

/// The roots are walked in ascending order, each once.
pub proof fn law_roots_are_walked_once(run: &RestoreRun, r: Vec<String>, i: int, j: int)
    requires
        call_ensures(RestoreRun::roots, (run,), r),
        0 <= i < j < r.len(),
    ensures
        r[i]@ != r[j]@,
        crate::textmap::text_lt(r[i]@, r[j]@),
{
    let v = text::texts(r@);
    assert(crate::textmap::text_lt(v[i], v[j]));
    crate::textmap::lemma_lt_irreflexive(v[i]);
}

}
