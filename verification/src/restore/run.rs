//! One run of the `restore` command: its steps in order, what each of them is to
//! do, and what the run amounts to.
use vstd::prelude::*;

use crate::text;
use crate::restore::select;
use crate::restore::resolver;
use crate::restore::recovery;
use crate::restore::links;
use crate::restore::delta;
use crate::restore::database;
use crate::paths;
use crate::config;
use crate::config::{other_error, process_max, require_stanza, switched_on, CommandError, LoadedConfig, OptionValue};
use crate::info::{BackupEntry, InfoBackup, Manifest, ManifestFile, ManifestLink, RepoTransform, StorageInfo};
use crate::paths::{backup_file_path, backup_info_path, holding_path, manifest_path};
use crate::restore::copy::RestoreCopyJob;
use crate::restore::database::{database_included, db_list};
use crate::restore::delta::{classify_delta_match, matched_paths, DeltaJob, DeltaMatch, DeltaReply, DeltaResult};
use crate::restore::links::{link_destination, link_plan, repo_symlink, LinkPlan};
use crate::restore::recovery::{recovery_files, RecoveryFile};
use crate::restore::resolver::{load_error, restore_transform, LoadError, RestoreSource, SourceResolver};
use crate::restore::select::select_backup;
use crate::text::{cat3, listed, print_unsigned};
use crate::textmap::TextMap;

verus! {

/// What a restore did, or under `dry_run` would do.
#[derive(Debug, Clone, PartialEq, Eq)]
pub struct RestoreOutcome {
    /// The backup that was restored.
    pub label: String,
    /// Files copied.
    pub files_restored: usize,
    /// Files left as they were.
    pub files_skipped: usize,
    /// Files removed because the backup does not hold them.
    pub files_removed: usize,
    /// Directories of the backup made.
    pub paths_created: usize,
    /// Links made.
    pub links_created: usize,
    /// Links that could not be made.
    pub skipped_links: usize,
    /// Links that became directories.
    pub links_as_dir: usize,
    /// The recovery files written.
    pub recovery_files_written: Vec<String>,
    /// Whether nothing was changed.
    pub dry_run: bool,
}

/// What the options say of a run as a whole.
pub struct RestoreSettings {
    pub stanza: String,
    /// Whether unchanged files are left and other files removed.
    pub delta: bool,
    /// Whether nothing is to be changed.
    pub dry_run: bool,
    /// The databases to keep.
    pub keep: Vec<String>,
    /// The databases to drop.
    pub drop: Vec<String>,
    /// How many workers copy.
    pub workers: usize,
}

/// Whether a run may only say what it would do.
pub fn dry_run_enabled(config: &LoadedConfig) -> (r: bool)
    ensures
        r == (config.option("dry-run"@, None) == Some(OptionValue::Boolean(true))),
{
    switched_on(config, "dry-run")
}

/// Whether unchanged files are left and other files removed.
pub fn delta_enabled(config: &LoadedConfig) -> (r: bool)
    ensures
        r == (config.option("delta"@, None) == Some(OptionValue::Boolean(true))),
{
    switched_on(config, "delta")
}

/// Whether the options name databases both to keep and to drop.
pub open spec fn keeps_and_drops(config: LoadedConfig) -> bool {
    database::list_of(config.option("db-include"@, None)).len() > 0 && database::list_of(
        config.option("db-exclude"@, None),
    ).len() > 0
}

/// Whether `s` is what the options say of a run.
pub open spec fn settings_fit(s: RestoreSettings, config: LoadedConfig) -> bool {
    &&& config::opt_text(config.stanza) == Some(s.stanza@)
    &&& s.delta == (config.option("delta"@, None) == Some(OptionValue::Boolean(true)))
    &&& s.dry_run == (config.option("dry-run"@, None) == Some(OptionValue::Boolean(true)))
    &&& text::texts(s.keep@) == database::list_of(config.option("db-include"@, None))
    &&& text::texts(s.drop@) == database::list_of(config.option("db-exclude"@, None))
    &&& s.workers == config::worker_count(config.option("process-max"@, None))
}

/// What the options say of a run. There is none without a stanza, and none with
/// databases both to keep and to drop.
pub fn restore_settings(config: &LoadedConfig) -> (r: Result<RestoreSettings, CommandError>)
    ensures
        if config.stanza is None {
            r matches Err(e) && e.is_missing("stanza"@)
        } else if keeps_and_drops(*config) {
            r matches Err(e) && e.is_other("db-include and db-exclude are mutually exclusive"@)
        } else {
            r matches Ok(s) && settings_fit(s, *config)
        },
{
    let stanza = match require_stanza(config) {
        Ok(s) => s,
        Err(e) => return Err(e),
    };
    let keep = db_list(config, "db-include");
    let drop = db_list(config, "db-exclude");
    assert(text::texts(keep@).len() == keep.len());
    assert(text::texts(drop@).len() == drop.len());
    if keep.len() > 0 && drop.len() > 0 {
        return Err(other_error("db-include and db-exclude are mutually exclusive"));
    }
    Ok(
        RestoreSettings {
            stanza: stanza.to_owned(),
            delta: delta_enabled(config),
            dry_run: dry_run_enabled(config),
            keep,
            drop,
            workers: process_max(config),
        },
    )
}

/// A step of a run.
#[derive(Debug, Clone, Copy, PartialEq, Eq, Structural)]
pub enum Step {
    /// Load `backup.info`.
    LoadInfo,
    /// Find the repository's key.
    LoadKey,
    /// Load the chosen backup's manifest.
    LoadManifest,
    /// Make the directories.
    CreatePaths,
    /// Ask the target what stands in place of the files.
    InspectTargets,
    /// Compare the digests of those that may be unchanged.
    HashTargets,
    /// Find the sources and prepare the destinations of the files to copy.
    ResolveFiles,
    /// Copy them.
    CopyFiles,
    /// Look for files that the backup does not hold.
    WalkTarget,
    /// Remove them.
    RemoveStrays,
    /// Lay out the links.
    LayLinks,
    /// Copy the label files.
    CopyLabels,
    /// Write the recovery files.
    WriteRecovery,
    /// Nothing is left to do.
    Finish,
}

/// Whether a step changes the target.
pub open spec fn changes_target(step: Step) -> bool {
    match step {
        Step::CreatePaths | Step::ResolveFiles | Step::CopyFiles | Step::RemoveStrays | Step::LayLinks
        | Step::CopyLabels | Step::WriteRecovery => true,
        _ => false,
    }
}

/// How many steps lie behind a step in the order of all steps.
pub open spec fn rank(step: Step) -> int {
    match step {
        Step::LoadInfo => 0,
        Step::LoadKey => 1,
        Step::LoadManifest => 2,
        Step::CreatePaths => 3,
        Step::InspectTargets => 4,
        Step::HashTargets => 5,
        Step::ResolveFiles => 6,
        Step::CopyFiles => 7,
        Step::WalkTarget => 8,
        Step::RemoveStrays => 9,
        Step::LayLinks => 10,
        Step::CopyLabels => 11,
        Step::WriteRecovery => 12,
        Step::Finish => 13,
    }
}

/// Whether a run takes a step: one that compares with the target or removes from it
/// only under `delta`, one that changes the target only if it may.
pub open spec fn taken(step: Step, delta: bool, dry_run: bool) -> bool {
    let compares = step == Step::InspectTargets || step == Step::HashTargets || step == Step::WalkTarget || step
        == Step::RemoveStrays;
    (compares ==> delta) && (changes_target(step) ==> !dry_run)
}

/// Whether `next` is the step after `step`: the next in the order of all steps that
/// the run takes.
pub open spec fn follows(step: Step, next: Step, delta: bool, dry_run: bool) -> bool {
    &&& rank(next) > rank(step)
    &&& taken(next, delta, dry_run)
    &&& forall|s: Step| rank(step) < #[trigger] rank(s) < rank(next) ==> !taken(s, delta, dry_run)
}

/// The step after `step`.
pub fn next_step(step: Step, delta: bool, dry_run: bool) -> (r: Step)
    requires
        step != Step::Finish,
    ensures
        follows(step, r, delta, dry_run),
{
    match step {
        Step::LoadInfo => Step::LoadKey,
        Step::LoadKey => Step::LoadManifest,
        Step::LoadManifest => if !dry_run {
            Step::CreatePaths
        } else if delta {
            Step::InspectTargets
        } else {
            Step::Finish
        },
        Step::CreatePaths => if delta {
            Step::InspectTargets
        } else if !dry_run {
            Step::ResolveFiles
        } else {
            Step::Finish
        },
        Step::InspectTargets => if delta {
            Step::HashTargets
        } else if !dry_run {
            Step::ResolveFiles
        } else {
            Step::Finish
        },
        Step::HashTargets => if !dry_run {
            Step::ResolveFiles
        } else if delta {
            Step::WalkTarget
        } else {
            Step::Finish
        },
        Step::ResolveFiles => if !dry_run {
            Step::CopyFiles
        } else if delta {
            Step::WalkTarget
        } else {
            Step::Finish
        },
        Step::CopyFiles => if delta {
            Step::WalkTarget
        } else if !dry_run {
            Step::LayLinks
        } else {
            Step::Finish
        },
        Step::WalkTarget => if delta && !dry_run {
            Step::RemoveStrays
        } else if !dry_run {
            Step::LayLinks
        } else {
            Step::Finish
        },
        Step::RemoveStrays => if !dry_run {
            Step::LayLinks
        } else {
            Step::Finish
        },
        Step::LayLinks => if !dry_run {
            Step::CopyLabels
        } else {
            Step::Finish
        },
        Step::CopyLabels => if !dry_run {
            Step::WriteRecovery
        } else {
            Step::Finish
        },
        Step::WriteRecovery => Step::Finish,
        Step::Finish => Step::Finish,
    }
}

/// A run that may only say what it would do takes no step that changes the target.
pub proof fn law_dry_run_changes_nothing(step: Step, delta: bool)
    requires
        taken(step, delta, true),
    ensures
        !changes_target(step),
{
}

/// Without `delta` nothing is removed from the target.
pub proof fn law_only_delta_removes(dry_run: bool)
    ensures
        !taken(Step::RemoveStrays, false, dry_run),
{
}

/// Where a run finds `backup.info`.
pub fn info_path(settings: &RestoreSettings) -> (r: String)
    ensures
        r@ == paths::backup_info_at(settings.stanza@),
{
    backup_info_path(settings.stanza.as_str())
}

/// The backup that a run restores.
pub struct Chosen {
    pub info: InfoBackup,
    /// Its place among the current backups.
    pub index: usize,
    pub label: String,
    /// Where its manifest lies.
    pub manifest_path: String,
}

/// The backup that a run restores, once `backup.info` was loaded or failed to be.
pub fn choose_backup(settings: &RestoreSettings, config: &LoadedConfig, loaded: Result<InfoBackup, LoadError>) -> (r: Result<
    Chosen,
    CommandError,
>)
    ensures
        match loaded {
            Err(LoadError::NotFound) => r matches Err(e) && e.is_not_found(paths::backup_info_at(settings.stanza@)),
            Err(LoadError::Unusable(m)) => r matches Err(e) && e.is_other(m@),
            Ok(info) => match select::selected(*config, info.current) {
                None => r matches Err(e) && e.is_other(select::selection_error(*config)),
                Some(i) => {
                    &&& r matches Ok(c)
                    &&& c.info == info
                    &&& c.index == i
                    &&& i < info.current.keys().len()
                    &&& i < info.current.vals().len()
                    &&& c.label@ == info.current.keys()[i]
                    &&& c.manifest_path@ == paths::manifest_at(settings.stanza@, info.current.keys()[i])
                },
            },
        },
{
    let info = match loaded {
        Ok(info) => info,
        Err(err) => return Err(load_error(err, info_path(settings))),
    };
    let index: usize = match select_backup(config, &info) {
        Ok(i) => i,
        Err(e) => return Err(e),
    };
    let label = info.current.key_at(index).clone();
    let path = manifest_path(settings.stanza.as_str(), label.as_str());
    Ok(Chosen { info, index, label, manifest_path: path })
}

/// Whether `s` is the resolver for the chosen backup with its manifest, before
/// anything else is known.
pub open spec fn opened(
    s: SourceResolver,
    settings: RestoreSettings,
    chosen: Chosen,
    sub_key: Option<String>,
    manifest: Manifest,
    local_repo: bool,
) -> bool {
    &&& s.stanza@ == settings.stanza@
    &&& s.label == chosen.label
    &&& s.transform@ == resolver::keyed(
        chosen.info.current.vals()[chosen.index as int].transform@,
        config::opt_text(sub_key),
    )
    &&& s.manifest == manifest
    &&& s.info == chosen.info
    &&& s.sub_key == sub_key
    &&& s.local == local_repo
    &&& s.manifests.keys().len() == 0
    &&& s.infos.keys().len() == 0
}

/// The resolver for the chosen backup, once its manifest was loaded or failed to be.
pub fn open_backup(
    settings: &RestoreSettings,
    chosen: Chosen,
    sub_key: Option<String>,
    loaded: Result<Manifest, LoadError>,
    local_repo: bool,
) -> (r: Result<SourceResolver, CommandError>)
    requires
        chosen.index < chosen.info.current.vals().len(),
    ensures
        match loaded {
            Err(LoadError::NotFound) => r matches Err(e) && e.is_not_found(chosen.manifest_path@),
            Err(LoadError::Unusable(m)) => r matches Err(e) && e.is_other(m@),
            Ok(manifest) => r matches Ok(s) && opened(s, *settings, chosen, sub_key, manifest, local_repo),
        },
{
    let manifest = match loaded {
        Ok(m) => m,
        Err(err) => return Err(load_error(err, chosen.manifest_path)),
    };
    let transform = restore_transform(&chosen.info.current.value_at(chosen.index).transform, &sub_key);
    Ok(
        SourceResolver::new(
            settings.stanza.clone(),
            chosen.label,
            transform,
            manifest,
            chosen.info,
            sub_key,
            local_repo,
        ),
    )
}

/// The directories that a cluster needs to start but that a backup may not record.
pub open spec fn skeleton() -> Seq<Seq<char>> {
    seq![
        "pg_wal"@,
        "pg_wal/archive_status"@,
        "pg_notify"@,
        "pg_replslot"@,
        "pg_serial"@,
        "pg_snapshots"@,
        "pg_dynshmem"@,
        "pg_stat_tmp"@,
        "pg_subtrans"@,
        "pg_stat"@,
        "pg_logical"@,
        "pg_logical/snapshots"@,
        "pg_logical/mappings"@,
        "pg_commit_ts"@,
        "pg_tblspc"@,
    ]
}

/// The recorded directories.
pub open spec fn recorded_paths(manifest: Manifest) -> Seq<Seq<char>> {
    Seq::new(manifest.paths.len() as nat, |i: int| manifest.paths[i].path@)
}

fn push_text(out: &mut Vec<String>, s: &str)
    ensures
        text::texts(final(out)@) == text::texts(old(out)@).push(s@),
{
    out.push(s.to_owned());
    assert(text::texts(out@) =~= text::texts(old(out)@).push(s@));
}

/// The directories to make in the target: the recorded ones, then those that a
/// cluster needs.
pub fn directories(manifest: &Manifest) -> (r: Vec<String>)
    ensures
        text::texts(r@) == recorded_paths(*manifest) + skeleton(),
{
    let mut out: Vec<String> = Vec::new();
    let n: usize = manifest.paths.len();
    let mut i: usize = 0;
    while i < n
        invariant
            i <= n,
            n == manifest.paths.len(),
            text::texts(out@) == recorded_paths(*manifest).take(i as int),
        decreases n - i,
    {
        push_text(&mut out, manifest.paths[i].path.as_str());
        i += 1;
        assert(text::texts(out@) =~= recorded_paths(*manifest).take(i as int));
    }
    push_text(&mut out, "pg_wal");
    push_text(&mut out, "pg_wal/archive_status");
    push_text(&mut out, "pg_notify");
    push_text(&mut out, "pg_replslot");
    push_text(&mut out, "pg_serial");
    push_text(&mut out, "pg_snapshots");
    push_text(&mut out, "pg_dynshmem");
    push_text(&mut out, "pg_stat_tmp");
    push_text(&mut out, "pg_subtrans");
    push_text(&mut out, "pg_stat");
    push_text(&mut out, "pg_logical");
    push_text(&mut out, "pg_logical/snapshots");
    push_text(&mut out, "pg_logical/mappings");
    push_text(&mut out, "pg_commit_ts");
    push_text(&mut out, "pg_tblspc");
    assert(text::texts(out@) =~= recorded_paths(*manifest) + skeleton());
    out
}

/// Whether the file at place `i` is to be restored as far as databases go.
pub open spec fn wanted(settings: RestoreSettings, files: Seq<ManifestFile>, i: int) -> bool {
    database::kept(files[i].path@, text::texts(settings.keep@), text::texts(settings.drop@))
}

/// The places, among the first `n`, of the files that are wanted.
pub open spec fn wanted_places(settings: RestoreSettings, files: Seq<ManifestFile>, n: int) -> Seq<int>
    decreases n,
{
    if n <= 0 {
        Seq::<int>::empty()
    } else if wanted(settings, files, n - 1) {
        wanted_places(settings, files, n - 1).push(n - 1)
    } else {
        wanted_places(settings, files, n - 1)
    }
}

/// Places as numbers.
pub open spec fn places(v: Seq<usize>) -> Seq<int> {
    Seq::new(v.len(), |i: int| v[i] as int)
}

/// The places of the files that a delta restore compares with the target: those
/// that are wanted.
pub fn delta_candidates(settings: &RestoreSettings, manifest: &Manifest) -> (r: Vec<usize>)
    ensures
        places(r@) == wanted_places(*settings, manifest.files@, manifest.files.len() as int),
        forall|k: int| 0 <= k < r.len() ==> #[trigger] r[k] < manifest.files.len(),
{
    let mut out: Vec<usize> = Vec::new();
    let n: usize = manifest.files.len();
    let mut i: usize = 0;
    assert(places(out@) =~= Seq::<int>::empty());
    while i < n
        invariant
            i <= n,
            n == manifest.files.len(),
            places(out@) == wanted_places(*settings, manifest.files@, i as int),
            forall|k: int| 0 <= k < out.len() ==> #[trigger] out[k] < i,
        decreases n - i,
    {
        let ghost before = places(out@);
        if database_included(manifest.files[i].path.as_str(), &settings.keep, &settings.drop) {
            out.push(i);
            assert(places(out@) =~= before.push(i as int));
        }
        i += 1;
    }
    out
}

/// What the target's answers settle of the files at `candidates`.
pub struct DeltaPlan {
    /// The places of those that are unchanged.
    pub settled: Vec<usize>,
    /// Those whose digest decides.
    pub jobs: Vec<DeltaJob>,
    /// The place of the file that each of these is for.
    pub asked: Vec<usize>,
}

/// Whether a candidate is settled to be unchanged by what the target told of it.
pub open spec fn settled(files: Seq<ManifestFile>, candidates: Seq<usize>, infos: Seq<Option<StorageInfo>>, k: int) -> bool {
    files[candidates[k] as int].checksum is None && delta::size_fits(infos[k], files[candidates[k] as int])
}

/// The places of the settled files among the first `n` candidates.
pub open spec fn settled_places(
    files: Seq<ManifestFile>,
    candidates: Seq<usize>,
    infos: Seq<Option<StorageInfo>>,
    n: int,
) -> Seq<int>
    decreases n,
{
    if n <= 0 {
        Seq::<int>::empty()
    } else if settled(files, candidates, infos, n - 1) {
        settled_places(files, candidates, infos, n - 1).push(candidates[n - 1] as int)
    } else {
        settled_places(files, candidates, infos, n - 1)
    }
}

/// Whether a candidate's digest decides.
pub open spec fn undecided(files: Seq<ManifestFile>, candidates: Seq<usize>, infos: Seq<Option<StorageInfo>>, k: int) -> bool {
    files[candidates[k] as int].checksum is Some && delta::size_fits(infos[k], files[candidates[k] as int])
}

/// The job for a candidate. Where the target is not local it names no place on this
/// host.
pub open spec fn job_fits(job: DeltaJob, file: ManifestFile, info: Option<StorageInfo>, local_pg: bool) -> bool {
    &&& job.rel@ == file.path@
    &&& crate::config::opt_text(file.checksum) == Some(job.expected_sha@)
    &&& local_pg ==> (info matches Some(i) && job.abs_path@ == i.path@)
    &&& !local_pg ==> job.abs_path@.len() == 0
}

/// The undecided ones among the first `n` candidates.
pub open spec fn undecided_places(
    files: Seq<ManifestFile>,
    candidates: Seq<usize>,
    infos: Seq<Option<StorageInfo>>,
    n: int,
) -> Seq<int>
    decreases n,
{
    if n <= 0 {
        Seq::<int>::empty()
    } else if undecided(files, candidates, infos, n - 1) {
        undecided_places(files, candidates, infos, n - 1).push(n - 1)
    } else {
        undecided_places(files, candidates, infos, n - 1)
    }
}

/// The places of the candidates at `todo`.
pub open spec fn places_at(candidates: Seq<usize>, todo: Seq<int>) -> Seq<int> {
    Seq::new(todo.len(), |j: int| candidates[todo[j]] as int)
}

/// Whether these are what the answers on the first `n` candidates settle: the places of
/// the unchanged files, and a job for each file whose digest decides, in order.
pub open spec fn plans_first(
    settled: Seq<int>,
    jobs: Seq<DeltaJob>,
    asked: Seq<int>,
    files: Seq<ManifestFile>,
    candidates: Seq<usize>,
    infos: Seq<Option<StorageInfo>>,
    local_pg: bool,
    n: int,
) -> bool {
    let todo = undecided_places(files, candidates, infos, n);
    &&& settled == settled_places(files, candidates, infos, n)
    &&& asked == places_at(candidates, todo)
    &&& jobs.len() == todo.len()
    &&& forall|j: int|
        0 <= j < todo.len() ==> job_fits(
            #[trigger] jobs[j],
            files[candidates[todo[j]] as int],
            infos[todo[j]],
            local_pg,
        )
}

/// Whether these are what the target's answers settle.
pub open spec fn plans(
    settled: Seq<int>,
    jobs: Seq<DeltaJob>,
    asked: Seq<int>,
    files: Seq<ManifestFile>,
    candidates: Seq<usize>,
    infos: Seq<Option<StorageInfo>>,
    local_pg: bool,
) -> bool {
    plans_first(settled, jobs, asked, files, candidates, infos, local_pg, candidates.len() as int)
}

/// What the target's answers settle.
pub fn delta_plan(manifest: &Manifest, candidates: &Vec<usize>, infos: &Vec<Option<StorageInfo>>, local_pg: bool) -> (r: DeltaPlan)
    requires
        infos.len() == candidates.len(),
        forall|k: int| 0 <= k < candidates.len() ==> #[trigger] candidates[k] < manifest.files.len(),
    ensures
        plans(places(r.settled@), r.jobs@, places(r.asked@), manifest.files@, candidates@, infos@, local_pg),
        r.asked.len() == r.jobs.len(),
        forall|k: int| 0 <= k < r.settled.len() ==> #[trigger] r.settled[k] < manifest.files.len(),
        forall|k: int| 0 <= k < r.asked.len() ==> #[trigger] r.asked[k] < manifest.files.len(),
{
    let ghost files = manifest.files@;
    let mut settled: Vec<usize> = Vec::new();
    let mut jobs: Vec<DeltaJob> = Vec::new();
    let mut asked: Vec<usize> = Vec::new();
    let n: usize = candidates.len();
    let mut i: usize = 0;
    proof {
        assert(places(settled@) =~= Seq::<int>::empty());
        assert(places(asked@) =~= places_at(candidates@, Seq::<int>::empty()));
    }
    while i < n
        invariant
            i <= n,
            n == candidates.len(),
            n == infos.len(),
            files == manifest.files@,
            forall|k: int| 0 <= k < candidates.len() ==> #[trigger] candidates[k] < manifest.files.len(),
            plans_first(places(settled@), jobs@, places(asked@), files, candidates@, infos@, local_pg, i as int),
            asked.len() == jobs.len(),
            forall|k: int| 0 <= k < settled.len() ==> #[trigger] settled[k] < manifest.files.len(),
            forall|k: int| 0 <= k < asked.len() ==> #[trigger] asked[k] < manifest.files.len(),
        decreases n - i,
    {
        let ghost before = places(settled@);
        let ghost prior = places(asked@);
        let ghost front = undecided_places(files, candidates@, infos@, i as int);
        let ghost more = undecided_places(files, candidates@, infos@, i as int + 1);
        let place: usize = candidates[i];
        let file = &manifest.files[place];
        let info: Option<&StorageInfo> = match &infos[i] {
            Some(s) => Some(s),
            None => None,
        };
        match classify_delta_match(info, file, local_pg) {
            DeltaMatch::Matches => {
                settled.push(place);
                assert(places(settled@) =~= before.push(place as int));
            },
            DeltaMatch::NeedsHash { abs_path, expected_sha } => {
                jobs.push(DeltaJob { rel: file.path.clone(), abs_path, expected_sha });
                asked.push(place);
                assert(more == front.push(i as int));
                assert(places(asked@) =~= prior.push(place as int));
                assert(places_at(candidates@, more) =~= places_at(candidates@, front).push(place as int));
            },
            DeltaMatch::NoMatch => {},
        }
        assert(!undecided(files, candidates@, infos@, i as int) ==> more == front);
        i += 1;
    }
    DeltaPlan { settled, jobs, asked }
}

/// Whether one of the first `n` places is that of a file with the path `path`.
pub open spec fn at_path(files: Seq<ManifestFile>, at: Seq<int>, n: int, path: Seq<char>) -> bool {
    exists|k: int| 0 <= k < n && files[#[trigger] at[k]].path@ == path
}

/// Whether the file at place `i` is unchanged, by what was settled and by how the jobs
/// for the files at `asked` were answered. In a target on this host a path decides for
/// every file that is recorded under it; elsewhere each file is compared by itself, and
/// the answers are in the order of the jobs.
pub open spec fn stays(
    files: Seq<ManifestFile>,
    settled: Seq<int>,
    asked: Seq<int>,
    results: Seq<DeltaResult>,
    local_pg: bool,
    i: int,
) -> bool {
    if local_pg {
        at_path(files, settled, settled.len() as int, files[i].path@) || delta::confirmed(results, files[i].path@)
    } else {
        settled.contains(i) || delta::confirmed_at(results, asked, asked.len() as int, i)
    }
}

impl DeltaPlan {
    fn by_path(&self, manifest: &Manifest, results: &Vec<DeltaResult>) -> (r: Vec<bool>)
        requires
            forall|k: int| 0 <= k < self.settled.len() ==> #[trigger] self.settled[k] < manifest.files.len(),
        ensures
            r.len() == manifest.files.len(),
            forall|i: int|
                0 <= i < r.len() ==> #[trigger] r[i] == stays(
                    manifest.files@,
                    places(self.settled@),
                    places(self.asked@),
                    results@,
                    true,
                    i,
                ),
    {
        let ghost files = manifest.files@;
        let ghost at = places(self.settled@);
        let mut known = matched_paths(results);
        let n: usize = self.settled.len();
        let mut k: usize = 0;
        while k < n
            invariant
                k <= n,
                n == self.settled.len(),
                files == manifest.files@,
                at == places(self.settled@),
                forall|j: int| 0 <= j < self.settled.len() ==> #[trigger] self.settled[j] < manifest.files.len(),
                forall|path: Seq<char>|
                    #[trigger] text::texts(known@).contains(path) <==> (at_path(files, at, k as int, path)
                        || delta::confirmed(results@, path)),
            decreases n - k,
        {
            let ghost before = text::texts(known@);
            let place: usize = self.settled[k];
            push_text(&mut known, manifest.files[place].path.as_str());
            proof {
                assert(at[k as int] == place);
                assert forall|path: Seq<char>|
                    #[trigger] text::texts(known@).contains(path) <==> (at_path(files, at, k as int + 1, path)
                        || delta::confirmed(results@, path)) by {
                    lemma_push_contains(before, files[place as int].path@, path);
                    assert(before.contains(path) <==> (at_path(files, at, k as int, path) || delta::confirmed(results@, path)));
                }
            }
            k += 1;
        }
        let mut out: Vec<bool> = Vec::new();
        let total: usize = manifest.files.len();
        let mut i: usize = 0;
        while i < total
            invariant
                i <= total,
                total == manifest.files.len(),
                files == manifest.files@,
                at == places(self.settled@),
                at.len() == n,
                forall|path: Seq<char>|
                    #[trigger] text::texts(known@).contains(path) <==> (at_path(files, at, n as int, path)
                        || delta::confirmed(results@, path)),
                out.len() == i,
                forall|j: int|
                    0 <= j < i ==> #[trigger] out[j] == stays(files, at, places(self.asked@), results@, true, j),
            decreases total - i,
        {
            let hit: bool = listed(&known, manifest.files[i].path.as_str());
            assert(hit == text::texts(known@).contains(files[i as int].path@));
            out.push(hit);
            i += 1;
        }
        out
    }

    fn by_place(&self, manifest: &Manifest, results: &Vec<DeltaResult>) -> (r: Vec<bool>)
        requires
            forall|k: int| 0 <= k < self.settled.len() ==> #[trigger] self.settled[k] < manifest.files.len(),
            forall|k: int| 0 <= k < self.asked.len() ==> #[trigger] self.asked[k] < manifest.files.len(),
            results.len() == self.asked.len(),
        ensures
            r.len() == manifest.files.len(),
            forall|i: int|
                0 <= i < r.len() ==> #[trigger] r[i] == stays(
                    manifest.files@,
                    places(self.settled@),
                    places(self.asked@),
                    results@,
                    false,
                    i,
                ),
    {
        let ghost at = places(self.settled@);
        let ghost asked = places(self.asked@);
        let total: usize = manifest.files.len();
        let mut out: Vec<bool> = Vec::new();
        let mut i: usize = 0;
        while i < total
            invariant
                i <= total,
                out.len() == i,
                forall|j: int| 0 <= j < i ==> !#[trigger] out[j],
            decreases total - i,
        {
            out.push(false);
            i += 1;
        }
        let n: usize = self.settled.len();
        let mut k: usize = 0;
        assert(at.take(0) =~= Seq::<int>::empty());
        while k < n
            invariant
                k <= n,
                n == self.settled.len(),
                out.len() == total,
                total == manifest.files.len(),
                at == places(self.settled@),
                forall|j: int| 0 <= j < self.settled.len() ==> #[trigger] self.settled[j] < manifest.files.len(),
                forall|j: int| 0 <= j < total ==> #[trigger] out[j] == at.take(k as int).contains(j),
            decreases n - k,
        {
            let ghost before = out@;
            let place: usize = self.settled[k];
            out.set(place, true);
            proof {
                let front = at.take(k as int);
                let more = at.take(k as int + 1);
                assert(more =~= front.push(place as int));
                assert forall|j: int| 0 <= j < total implies #[trigger] out[j] == more.contains(j) by {
                    lemma_push_place(front, place as int, j);
                    assert(before[j] == front.contains(j));
                }
            }
            k += 1;
        }
        assert(at.take(n as int) =~= at);
        let m: usize = results.len();
        let mut k: usize = 0;
        while k < m
            invariant
                k <= m,
                m == results.len(),
                m == self.asked.len(),
                out.len() == total,
                total == manifest.files.len(),
                asked == places(self.asked@),
                forall|j: int| 0 <= j < self.asked.len() ==> #[trigger] self.asked[j] < manifest.files.len(),
                forall|j: int|
                    0 <= j < total ==> #[trigger] out[j] == (at.contains(j) || delta::confirmed_at(results@, asked, k as int, j)),
            decreases m - k,
        {
            let ghost before = out@;
            let place: usize = self.asked[k];
            let hit: bool = match &results[k].reply {
                DeltaReply::Compared(same) => *same,
                _ => false,
            };
            assert(hit == (results@[k as int].reply == DeltaReply::Compared(true)));
            if hit {
                out.set(place, true);
            }
            proof {
                assert(asked[k as int] == place);
                assert forall|j: int| 0 <= j < total implies #[trigger] out[j] == (at.contains(j) || delta::confirmed_at(
                    results@,
                    asked,
                    k as int + 1,
                    j,
                )) by {
                    assert(before[j] == (at.contains(j) || delta::confirmed_at(results@, asked, k as int, j)));
                }
            }
            k += 1;
        }
        out
    }

    /// Of each recorded file whether it is unchanged.
    pub fn confirm(&self, manifest: &Manifest, results: &Vec<DeltaResult>, local_pg: bool) -> (r: Vec<bool>)
        requires
            forall|k: int| 0 <= k < self.settled.len() ==> #[trigger] self.settled[k] < manifest.files.len(),
            forall|k: int| 0 <= k < self.asked.len() ==> #[trigger] self.asked[k] < manifest.files.len(),
            !local_pg ==> results.len() == self.asked.len(),
        ensures
            r.len() == manifest.files.len(),
            forall|i: int|
                0 <= i < r.len() ==> #[trigger] r[i] == stays(
                    manifest.files@,
                    places(self.settled@),
                    places(self.asked@),
                    results@,
                    local_pg,
                    i,
                ),
    {
        if local_pg {
            self.by_path(manifest, results)
        } else {
            self.by_place(manifest, results)
        }
    }
}

proof fn lemma_push_place(s: Seq<int>, x: int, p: int)
    ensures
        s.push(x).contains(p) <==> (s.contains(p) || p == x),
{
    let t = s.push(x);
    if s.contains(p) {
        let k = choose|k: int| 0 <= k < s.len() && s[k] == p;
        assert(t[k] == p);
    }
    if p == x {
        assert(t[s.len() as int] == p);
    }
    if t.contains(p) {
        let k = choose|k: int| 0 <= k < t.len() && t[k] == p;
        if k < s.len() {
            assert(s[k] == p);
        }
    }
}

proof fn lemma_push_contains(s: Seq<Seq<char>>, x: Seq<char>, p: Seq<char>)
    ensures
        s.push(x).contains(p) <==> (s.contains(p) || p == x),
{
    let t = s.push(x);
    if s.contains(p) {
        let k = choose|k: int| 0 <= k < s.len() && s[k] == p;
        assert(t[k] == p);
    }
    if p == x {
        assert(t[s.len() as int] == p);
    }
    if t.contains(p) {
        let k = choose|k: int| 0 <= k < t.len() && t[k] == p;
        if k < s.len() {
            assert(s[k] == p);
        }
    }
}

/// Whether the answers, in any order, confirm just those undecided candidates whose
/// digest is the recorded one.
pub open spec fn truthful(
    files: Seq<ManifestFile>,
    candidates: Seq<usize>,
    infos: Seq<Option<StorageInfo>>,
    digests: Seq<Option<Seq<char>>>,
    results: Seq<DeltaResult>,
) -> bool {
    forall|path: Seq<char>|
        #[trigger] delta::confirmed(results, path) <==> exists|j: int|
            0 <= j < candidates.len() && undecided(files, candidates, infos, j) && files[(#[trigger] candidates[j]) as int].path@
                == path && digests[j] == config::opt_text(files[candidates[j] as int].checksum)
}

/// Whether the answers, in the order of the undecided candidates, confirm just those
/// whose digest is the recorded one.
pub open spec fn truthful_in_order(
    files: Seq<ManifestFile>,
    candidates: Seq<usize>,
    infos: Seq<Option<StorageInfo>>,
    digests: Seq<Option<Seq<char>>>,
    results: Seq<DeltaResult>,
) -> bool {
    let todo = undecided_places(files, candidates, infos, candidates.len() as int);
    &&& results.len() == todo.len()
    &&& forall|j: int|
        0 <= j < todo.len() ==> ((#[trigger] results[j]).reply == DeltaReply::Compared(true) <==> digests[todo[j]]
            == config::opt_text(files[candidates[todo[j]] as int].checksum))
}

/// In a target that is not on this host a delta restore leaves a recorded file if and
/// only if it is unchanged: there, of the recorded size and, where a digest was
/// recorded, of that digest.
pub proof fn law_delta_leaves_the_unchanged(
    settings: RestoreSettings,
    files: Seq<ManifestFile>,
    candidates: Seq<usize>,
    infos: Seq<Option<StorageInfo>>,
    digests: Seq<Option<Seq<char>>>,
    results: Seq<DeltaResult>,
    settled: Seq<int>,
    jobs: Seq<DeltaJob>,
    asked: Seq<int>,
    k: int,
)
    requires
        places(candidates) == wanted_places(settings, files, files.len() as int),
        plans(settled, jobs, asked, files, candidates, infos, false),
        truthful_in_order(files, candidates, infos, digests, results),
        0 <= k < candidates.len(),
    ensures
        stays(files, settled, asked, results, false, candidates[k] as int) <==> delta::unchanged(
            infos[k],
            digests[k],
            files[candidates[k] as int],
        ),
{
    let n = candidates.len() as int;
    let place = candidates[k] as int;
    let todo = undecided_places(files, candidates, infos, n);
    delta::law_classification_agrees(infos[k], digests[k], files[place]);
    assert forall|a: int, b: int| 0 <= a < n && 0 <= b < n && (#[trigger] candidates[a]) == (#[trigger] candidates[b]) implies a
        == b by {
        lemma_wanted_ascending(settings, files, files.len() as int);
        assert(places(candidates)[a] == places(candidates)[b]);
    }
    lemma_settled_places(files, candidates, infos, n, place);
    assert forall|j: int| 0 <= j < todo.len() implies 0 <= #[trigger] todo[j] < n && undecided(files, candidates, infos, todo[j]) by {
        lemma_undecided_place(files, candidates, infos, n, j);
    }
    if delta::confirmed_at(results, asked, asked.len() as int, place) {
        let j = choose|j: int|
            0 <= j < asked.len() && #[trigger] asked[j] == place && results[j].reply == DeltaReply::Compared(true);
        assert(candidates[todo[j]] == candidates[k]);
        assert(todo[j] == k);
    }
    if undecided(files, candidates, infos, k) && delta::unchanged(infos[k], digests[k], files[place]) {
        let j = lemma_is_undecided_place(files, candidates, infos, n, k);
        assert(asked[j] == place);
        assert(results[j].reply == DeltaReply::Compared(true));
    }
}

/// In a target on this host a delta restore leaves a recorded file if and only if a file
/// recorded under its path is unchanged: this one, unless the path was recorded more
/// than once.
pub proof fn law_local_delta_leaves_the_unchanged(
    files: Seq<ManifestFile>,
    candidates: Seq<usize>,
    infos: Seq<Option<StorageInfo>>,
    digests: Seq<Option<Seq<char>>>,
    results: Seq<DeltaResult>,
    settled: Seq<int>,
    jobs: Seq<DeltaJob>,
    asked: Seq<int>,
    k: int,
)
    requires
        plans(settled, jobs, asked, files, candidates, infos, true),
        truthful(files, candidates, infos, digests, results),
        0 <= k < candidates.len(),
    ensures
        stays(files, settled, asked, results, true, candidates[k] as int) <==> exists|j: int|
            0 <= j < candidates.len() && files[(#[trigger] candidates[j]) as int].path@ == files[candidates[k] as int].path@
                && delta::unchanged(infos[j], digests[j], files[candidates[j] as int]),
{
    let n = candidates.len() as int;
    let path = files[candidates[k] as int].path@;
    if at_path(files, settled, settled.len() as int, path) {
        let m = choose|m: int| 0 <= m < settled.len() && files[#[trigger] settled[m]].path@ == path;
        assert(settled.contains(settled[m]));
        lemma_settled_places(files, candidates, infos, n, settled[m]);
        let j = choose|j: int| 0 <= j < n && (#[trigger] candidates[j]) == settled[m] && self::settled(files, candidates, infos, j);
        assert(delta::unchanged(infos[j], digests[j], files[candidates[j] as int]));
    }
    assert forall|j: int|
        0 <= j < n && files[(#[trigger] candidates[j]) as int].path@ == path && delta::unchanged(
            infos[j],
            digests[j],
            files[candidates[j] as int],
        ) implies stays(files, settled, asked, results, true, candidates[k] as int) by {
        if files[candidates[j] as int].checksum is None {
            lemma_settled_places(files, candidates, infos, n, candidates[j] as int);
            assert(settled.contains(candidates[j] as int));
            let m = choose|m: int| 0 <= m < settled.len() && settled[m] == candidates[j];
            assert(files[settled[m]].path@ == path);
        } else {
            assert(undecided(files, candidates, infos, j));
            assert(delta::confirmed(results, path));
        }
    }
}

proof fn lemma_settled_places(
    files: Seq<ManifestFile>,
    candidates: Seq<usize>,
    infos: Seq<Option<StorageInfo>>,
    n: int,
    place: int,
)
    requires
        0 <= n <= candidates.len(),
    ensures
        settled_places(files, candidates, infos, n).contains(place) <==> exists|k: int|
            0 <= k < n && (#[trigger] candidates[k]) == place && settled(files, candidates, infos, k),
    decreases n,
{
    if n > 0 {
        lemma_settled_places(files, candidates, infos, n - 1, place);
        lemma_push_place(settled_places(files, candidates, infos, n - 1), candidates[n - 1] as int, place);
        if settled(files, candidates, infos, n - 1) && candidates[n - 1] == place {
            assert(candidates[n - 1] == place);
        }
    }
}

proof fn lemma_undecided_place(
    files: Seq<ManifestFile>,
    candidates: Seq<usize>,
    infos: Seq<Option<StorageInfo>>,
    n: int,
    j: int,
)
    requires
        0 <= j < undecided_places(files, candidates, infos, n).len(),
    ensures
        0 <= undecided_places(files, candidates, infos, n)[j] < n,
        undecided(files, candidates, infos, undecided_places(files, candidates, infos, n)[j]),
    decreases n,
{
    if n > 0 && j < undecided_places(files, candidates, infos, n - 1).len() {
        lemma_undecided_place(files, candidates, infos, n - 1, j);
    }
}

proof fn lemma_is_undecided_place(
    files: Seq<ManifestFile>,
    candidates: Seq<usize>,
    infos: Seq<Option<StorageInfo>>,
    n: int,
    k: int,
) -> (j: int)
    requires
        0 <= k < n,
        undecided(files, candidates, infos, k),
    ensures
        0 <= j < undecided_places(files, candidates, infos, n).len(),
        undecided_places(files, candidates, infos, n)[j] == k,
    decreases n,
{
    if k == n - 1 {
        undecided_places(files, candidates, infos, n).len() - 1
    } else {
        lemma_is_undecided_place(files, candidates, infos, n - 1, k)
    }
}

proof fn lemma_wanted_ascending(settings: RestoreSettings, files: Seq<ManifestFile>, n: int)
    ensures
        forall|a: int| 0 <= a < wanted_places(settings, files, n).len() ==> #[trigger] wanted_places(settings, files, n)[a] < n,
        forall|a: int, b: int|
            0 <= a < b < wanted_places(settings, files, n).len() ==> #[trigger] wanted_places(settings, files, n)[a]
                < #[trigger] wanted_places(settings, files, n)[b],
    decreases n,
{
    if n > 0 {
        lemma_wanted_ascending(settings, files, n - 1);
        let front = wanted_places(settings, files, n - 1);
        let all = wanted_places(settings, files, n);
        assert(forall|a: int| 0 <= a < front.len() ==> #[trigger] front[a] < n - 1);
        if wanted(settings, files, n - 1) {
            assert(all == front.push(n - 1));
            assert forall|a: int, b: int| 0 <= a < b < all.len() implies #[trigger] all[a] < #[trigger] all[b] by {
                assert(all[a] == front[a]);
                if b < front.len() {
                    assert(all[b] == front[b]);
                }
            }
            assert forall|a: int| 0 <= a < all.len() implies #[trigger] all[a] < n by {
                if a < front.len() {
                    assert(all[a] == front[a]);
                }
            }
        }
    }
}

/// Whether the file at place `i` was found to be unchanged.
pub open spec fn is_matched(matched: Seq<bool>, i: int) -> bool {
    0 <= i < matched.len() && matched[i]
}

/// Whether the file at place `i` is left as it is: it is wanted, but already in
/// place.
pub open spec fn skipped(settings: RestoreSettings, files: Seq<ManifestFile>, matched: Seq<bool>, i: int) -> bool {
    wanted(settings, files, i) && settings.delta && is_matched(matched, i)
}

/// Whether the file at place `i` is to be copied.
pub open spec fn to_copy(settings: RestoreSettings, files: Seq<ManifestFile>, matched: Seq<bool>, i: int) -> bool {
    wanted(settings, files, i) && !(settings.delta && is_matched(matched, i))
}

/// The places, among the first `n`, of the files to copy.
pub open spec fn copy_places(settings: RestoreSettings, files: Seq<ManifestFile>, matched: Seq<bool>, n: int) -> Seq<int>
    decreases n,
{
    if n <= 0 {
        Seq::<int>::empty()
    } else if to_copy(settings, files, matched, n - 1) {
        copy_places(settings, files, matched, n - 1).push(n - 1)
    } else {
        copy_places(settings, files, matched, n - 1)
    }
}

/// How many of the first `n` files are left as they are.
pub open spec fn skip_count(settings: RestoreSettings, files: Seq<ManifestFile>, matched: Seq<bool>, n: int) -> nat
    decreases n,
{
    if n <= 0 {
        0
    } else if skipped(settings, files, matched, n - 1) {
        skip_count(settings, files, matched, n - 1) + 1
    } else {
        skip_count(settings, files, matched, n - 1)
    }
}

/// Which files a run copies, and how many it leaves as they are.
pub struct CopyPlan {
    /// The places of the files to copy.
    pub todo: Vec<usize>,
    pub files_skipped: usize,
}

/// Which files a run copies: those that are wanted and, under `delta`, not already
/// in place, which `matched` says of each recorded file.
pub fn copy_plan(settings: &RestoreSettings, manifest: &Manifest, matched: &Vec<bool>) -> (r: CopyPlan)
    ensures
        places(r.todo@) == copy_places(*settings, manifest.files@, matched@, manifest.files.len() as int),
        r.files_skipped == skip_count(*settings, manifest.files@, matched@, manifest.files.len() as int),
        forall|k: int| 0 <= k < r.todo.len() ==> #[trigger] r.todo[k] < manifest.files.len(),
{
    let ghost files = manifest.files@;
    let ghost done = matched@;
    let mut todo: Vec<usize> = Vec::new();
    let mut files_skipped: usize = 0;
    let n: usize = manifest.files.len();
    let mut i: usize = 0;
    assert(places(todo@) =~= Seq::<int>::empty());
    while i < n
        invariant
            i <= n,
            n == manifest.files.len(),
            files == manifest.files@,
            done == matched@,
            places(todo@) == copy_places(*settings, files, done, i as int),
            files_skipped == skip_count(*settings, files, done, i as int),
            files_skipped <= i,
            forall|k: int| 0 <= k < todo.len() ==> #[trigger] todo[k] < i,
        decreases n - i,
    {
        let ghost before = places(todo@);
        let path = manifest.files[i].path.as_str();
        if database_included(path, &settings.keep, &settings.drop) {
            if settings.delta && i < matched.len() && matched[i] {
                files_skipped += 1;
            } else {
                todo.push(i);
                assert(places(todo@) =~= before.push(i as int));
            }
        }
        i += 1;
    }
    CopyPlan { todo, files_skipped }
}

/// How many of the first `n` files are not wanted.
pub open spec fn unwanted_count(settings: RestoreSettings, files: Seq<ManifestFile>, n: int) -> nat
    decreases n,
{
    if n <= 0 {
        0
    } else if wanted(settings, files, n - 1) {
        unwanted_count(settings, files, n - 1)
    } else {
        unwanted_count(settings, files, n - 1) + 1
    }
}

/// Every recorded file is copied, left as it is, or not wanted, and only one of the
/// three.
pub proof fn law_every_file_is_accounted_for(
    settings: RestoreSettings,
    files: Seq<ManifestFile>,
    matched: Seq<bool>,
    n: int,
)
    requires
        0 <= n <= files.len(),
    ensures
        copy_places(settings, files, matched, n).len() + skip_count(settings, files, matched, n) + unwanted_count(
            settings,
            files,
            n,
        ) == n,
    decreases n,
{
    if n > 0 {
        law_every_file_is_accounted_for(settings, files, matched, n - 1);
    }
}

/// Without `delta` every wanted file is copied and none is left as it is.
pub proof fn law_full_restore_copies_all(
    settings: RestoreSettings,
    files: Seq<ManifestFile>,
    matched: Seq<bool>,
    n: int,
)
    requires
        0 <= n <= files.len(),
        !settings.delta,
    ensures
        copy_places(settings, files, matched, n) == wanted_places(settings, files, n),
        skip_count(settings, files, matched, n) == 0,
    decreases n,
{
    if n > 0 {
        law_full_restore_copies_all(settings, files, matched, n - 1);
    }
}

/// A second delta restore into an unchanged target copies nothing.
pub proof fn law_second_delta_copies_nothing(
    settings: RestoreSettings,
    files: Seq<ManifestFile>,
    matched: Seq<bool>,
    n: int,
)
    requires
        0 <= n <= files.len(),
        settings.delta,
        forall|i: int| 0 <= i < n && #[trigger] wanted(settings, files, i) ==> is_matched(matched, i),
    ensures
        copy_places(settings, files, matched, n).len() == 0,
        skip_count(settings, files, matched, n) == wanted_places(settings, files, n).len(),
    decreases n,
{
    if n > 0 {
        assert(wanted(settings, files, n - 1) ==> is_matched(matched, n - 1));
        law_second_delta_copies_nothing(settings, files, matched, n - 1);
    }
}

/// Whether two settings differ in nothing but the number of workers.
pub open spec fn same_but_workers(a: RestoreSettings, b: RestoreSettings) -> bool {
    &&& a.stanza@ == b.stanza@
    &&& a.delta == b.delta
    &&& a.dry_run == b.dry_run
    &&& text::texts(a.keep@) == text::texts(b.keep@)
    &&& text::texts(a.drop@) == text::texts(b.drop@)
}

/// Whether two lists of files have the same paths.
pub open spec fn same_paths(a: Seq<ManifestFile>, b: Seq<ManifestFile>) -> bool {
    &&& a.len() == b.len()
    &&& forall|i: int| 0 <= i < a.len() ==> (#[trigger] a[i]).path@ == b[i].path@
}

/// The number of workers decides which files are copied as little as which are left:
/// settings that differ in it alone copy, leave and leave out the same.
pub proof fn law_workers_copy_the_same(
    a: RestoreSettings,
    b: RestoreSettings,
    files: Seq<ManifestFile>,
    others: Seq<ManifestFile>,
    matched: Seq<bool>,
    n: int,
)
    requires
        same_but_workers(a, b),
        same_paths(files, others),
        0 <= n <= files.len(),
    ensures
        wanted_places(a, files, n) == wanted_places(b, others, n),
        copy_places(a, files, matched, n) == copy_places(b, others, matched, n),
        skip_count(a, files, matched, n) == skip_count(b, others, matched, n),
        unwanted_count(a, files, n) == unwanted_count(b, others, n),
    decreases n,
{
    if n > 0 {
        law_workers_copy_the_same(a, b, files, others, matched, n - 1);
        assert(files[n - 1].path@ == others[n - 1].path@);
    }
}

/// Configurations that differ in `process-max` alone are accepted or refused alike,
/// give settings that differ in the number of workers alone, choose the same backup,
/// lay the links out the same and write the same recovery files.
pub proof fn law_process_max_decides_nothing(a: LoadedConfig, b: LoadedConfig)
    requires
        config::same_but(a, b, "process-max"@),
    ensures
        a.stanza is None <==> b.stanza is None,
        keeps_and_drops(a) == keeps_and_drops(b),
        forall|s: RestoreSettings, t: RestoreSettings|
            #[trigger] settings_fit(s, a) && #[trigger] settings_fit(t, b) ==> same_but_workers(s, t),
        forall|current: TextMap<BackupEntry>, other: TextMap<BackupEntry>|
            select::same_backups(current, other) ==> #[trigger] select::selected(a, current) == #[trigger] select::selected(
                b,
                other,
            ),
        select::selection_error(a) == select::selection_error(b),
        links::symlinks_allowed(a) == links::symlinks_allowed(b),
        forall|link: ManifestLink, other: ManifestLink|
            link@ == other@ ==> #[trigger] links::target_of(link, a) == #[trigger] links::target_of(other, b),
        forall|version: Seq<char>, stanza: Seq<char>|
            #[trigger] recovery::files_of(version, stanza, a) == recovery::files_of(version, stanza, b),
{
    reveal_strlit("process-max");
    let taken = "process-max"@.len();
    reveal_strlit("db-include");
    assert("db-include"@.len() != taken);
    reveal_strlit("db-exclude");
    assert("db-exclude"@.len() != taken);
    reveal_strlit("delta");
    assert("delta"@.len() != taken);
    reveal_strlit("dry-run");
    assert("dry-run"@.len() != taken);
    reveal_strlit("set");
    assert("set"@.len() != taken);
    reveal_strlit("repo-target-time");
    assert("repo-target-time"@.len() != taken);
    reveal_strlit("type");
    assert("type"@.len() != taken);
    reveal_strlit("target");
    assert("target"@.len() != taken);
    reveal_strlit("repo-symlink");
    assert("repo-symlink"@.len() != taken);
    reveal_strlit("tablespace-map");
    assert("tablespace-map"@.len() != taken);
    reveal_strlit("tablespace-map-all");
    assert("tablespace-map-all"@.len() != taken);
    reveal_strlit("link-map");
    assert("link-map"@.len() != taken);
    reveal_strlit("target-exclusive");
    assert("target-exclusive"@.len() != taken);
    reveal_strlit("target-action");
    assert("target-action"@.len() != taken);
    reveal_strlit("target-timeline");
    assert("target-timeline"@.len() != taken);
    reveal_strlit("recovery-option");
    assert("recovery-option"@.len() != taken);
    reveal_strlit("archive-mode");
    assert("archive-mode"@.len() != taken);
    reveal_strlit("pg-version-force");
    assert("pg-version-force"@.len() != taken);
    assert(a.stanza is None <==> config::opt_text(a.stanza) is None);
    assert(b.stanza is None <==> config::opt_text(b.stanza) is None);
    assert(recovery::settings_of(a) == recovery::settings_of(b));
    assert(recovery::recovery_type_of(a) == recovery::recovery_type_of(b));
    assert(select::target_time_of(a) == select::target_time_of(b));
    assert forall|current: TextMap<BackupEntry>, other: TextMap<BackupEntry>|
        select::same_backups(current, other) implies #[trigger] select::selected(a, current) == #[trigger] select::selected(
        b,
        other,
    ) by {
        select::lemma_same_stops(current, other);
    }
    assert forall|link: ManifestLink, other: ManifestLink| link@ == other@ implies #[trigger] links::target_of(link, a)
        == #[trigger] links::target_of(other, b) by {
        assert(link@.path == other@.path && link@.destination == other@.destination);
    }
    assert forall|version: Seq<char>, stanza: Seq<char>|
        #[trigger] recovery::files_of(version, stanza, a) == recovery::files_of(version, stanza, b) by {
        assert(recovery::effective_major(version, a) == recovery::effective_major(version, b));
    }
}

/// The job that copies a file from its source to its place.
pub fn copy_job(file: &ManifestFile, source: RestoreSource, abs_dst: String) -> (r: RestoreCopyJob)
    ensures
        r.rel@ == file.path@,
        r.source == source,
        r.abs_dst == abs_dst,
        config::opt_text(r.expected_checksum) == config::opt_text(file.checksum),
        r.mode == file.mode,
{
    RestoreCopyJob {
        rel: file.path.clone(),
        source,
        abs_dst,
        expected_checksum: crate::info::copy_text(&file.checksum),
        mode: file.mode,
    }
}

/// What becomes of one link.
#[derive(Debug, Clone, PartialEq, Eq)]
pub enum LinkStep {
    /// A directory in its place.
    Directory { path: String },
    /// A link to `target`, once the directory that is to hold it stands.
    Symlink { parent: Option<String>, path: String, target: String },
}

/// Whether a step is the one for a link.
pub open spec fn step_fits(step: LinkStep, link: ManifestLink, cfg: LoadedConfig) -> bool {
    if links::symlinks_allowed(cfg) {
        &&& step matches LinkStep::Symlink { parent, path, target }
        &&& config::opt_text(parent) == paths::holding_dir(link.path@)
        &&& path@ == link.path@
        &&& target@ == links::target_of(link, cfg)
    } else {
        step matches LinkStep::Directory { path } && path@ == link.path@
    }
}

/// What becomes of the links, in order.
pub fn link_steps(config: &LoadedConfig, manifest: &Manifest) -> (r: Vec<LinkStep>)
    ensures
        r.len() == manifest.links.len(),
        forall|i: int| 0 <= i < r.len() ==> step_fits(#[trigger] r[i], manifest.links[i], *config),
{
    let mut out: Vec<LinkStep> = Vec::new();
    let plan = link_plan(repo_symlink(config));
    let n: usize = manifest.links.len();
    let mut i: usize = 0;
    while i < n
        invariant
            i <= n,
            n == manifest.links.len(),
            out.len() == i,
            plan == (if links::symlinks_allowed(*config) {
                LinkPlan::Symlink
            } else {
                LinkPlan::PlainDir
            }),
            forall|k: int| 0 <= k < i ==> step_fits(#[trigger] out[k], manifest.links[k], *config),
        decreases n - i,
    {
        let link = &manifest.links[i];
        let step = match plan {
            LinkPlan::PlainDir => LinkStep::Directory { path: link.path.clone() },
            LinkPlan::Symlink => LinkStep::Symlink {
                parent: holding_path(link.path.as_str()),
                path: link.path.clone(),
                target: link_destination(link, config),
            },
        };
        out.push(step);
        i += 1;
    }
    out
}

/// How many of the links were made.
pub open spec fn made(results: Seq<bool>) -> nat
    decreases results.len(),
{
    if results.len() == 0 {
        0
    } else if results.last() {
        made(results.drop_last()) + 1
    } else {
        made(results.drop_last())
    }
}

/// The counts of links: made, not made, laid out as directories.
pub struct LinkCounts {
    pub links_created: usize,
    pub skipped_links: usize,
    pub links_as_dir: usize,
}

/// The counts of links. `results` says of each link that was attempted whether it
/// was made; a run that changes nothing attempts none and counts all as made.
pub fn link_counts(config: &LoadedConfig, manifest: &Manifest, dry_run: bool, results: &Vec<bool>) -> (r: LinkCounts)
    requires
        links::symlinks_allowed(*config) && !dry_run ==> results.len() == manifest.links.len(),
    ensures
        if !links::symlinks_allowed(*config) {
            r.links_as_dir == manifest.links.len() && r.links_created == 0 && r.skipped_links == 0
        } else if dry_run {
            r.links_created == manifest.links.len() && r.links_as_dir == 0 && r.skipped_links == 0
        } else {
            r.links_created == made(results@) && r.links_as_dir == 0 && r.links_created + r.skipped_links
                == manifest.links.len()
        },
{
    let total: usize = manifest.links.len();
    if !repo_symlink(config) {
        return LinkCounts { links_created: 0, skipped_links: 0, links_as_dir: total };
    }
    if dry_run {
        return LinkCounts { links_created: total, skipped_links: 0, links_as_dir: 0 };
    }
    let mut created: usize = 0;
    let n: usize = results.len();
    let mut i: usize = 0;
    assert(results@.take(0) =~= Seq::<bool>::empty());
    while i < n
        invariant
            i <= n,
            n == results.len(),
            created <= i,
            created == made(results@.take(i as int)),
        decreases n - i,
    {
        proof {
            assert(results@.take(i as int + 1).drop_last() =~= results@.take(i as int));
        }
        if results[i] {
            created += 1;
        }
        i += 1;
    }
    assert(results@.take(n as int) =~= results@);
    LinkCounts { links_created: created, skipped_links: total - created, links_as_dir: 0 }
}

/// The files at the root of a backup that go to the root of the target, where the
/// backup has them: each as where it lies and what it is named.
pub fn label_files(settings: &RestoreSettings, label: &str) -> (r: Vec<(String, String)>)
    ensures
        r.len() == 2,
        r[0].0@ == paths::backup_file_at(settings.stanza@, label@, "backup_label"@),
        r[0].1@ == "backup_label"@,
        r[1].0@ == paths::backup_file_at(settings.stanza@, label@, "tablespace_map"@),
        r[1].1@ == "tablespace_map"@,
{
    let mut out: Vec<(String, String)> = Vec::new();
    out.push(
        (backup_file_path(settings.stanza.as_str(), label, "backup_label"), "backup_label".to_owned()),
    );
    out.push(
        (backup_file_path(settings.stanza.as_str(), label, "tablespace_map"), "tablespace_map".to_owned()),
    );
    out
}

/// The paths of the recovery files.
pub open spec fn recovery_names(db_version: Seq<char>, stanza: Seq<char>, cfg: LoadedConfig) -> Seq<Seq<char>> {
    let files = recovery::files_of(db_version, stanza, cfg);
    Seq::new(files.len(), |i: int| files[i].0)
}

fn names_of(files: &Vec<RecoveryFile>) -> (r: Vec<String>)
    ensures
        text::texts(r@) == Seq::new(files.len() as nat, |i: int| recovery::file_views(files@)[i].0),
{
    let mut out: Vec<String> = Vec::new();
    let n: usize = files.len();
    let mut i: usize = 0;
    while i < n
        invariant
            i <= n,
            n == files.len(),
            text::texts(out@) == Seq::new(i as nat, |k: int| recovery::file_views(files@)[k].0),
        decreases n - i,
    {
        push_text(&mut out, files[i].path.as_str());
        assert(text::texts(out@) =~= Seq::new((i + 1) as nat, |k: int| recovery::file_views(files@)[k].0));
        i += 1;
    }
    out
}

/// What the run did, or would do: `plan` says what was copied and what was left,
/// `strays` how many files the backup does not hold, `counts` what became of the
/// links.
pub fn restore_outcome(
    settings: &RestoreSettings,
    config: &LoadedConfig,
    resolver: &SourceResolver,
    plan: &CopyPlan,
    strays: usize,
    counts: &LinkCounts,
) -> (r: RestoreOutcome)
    ensures
        r.label@ == resolver.label@,
        r.files_restored == plan.todo.len(),
        r.files_skipped == plan.files_skipped,
        r.files_removed == (if settings.delta {
            strays
        } else {
            0
        }),
        r.paths_created == resolver.manifest.paths.len(),
        r.links_created == counts.links_created,
        r.skipped_links == counts.skipped_links,
        r.links_as_dir == counts.links_as_dir,
        text::texts(r.recovery_files_written@) == recovery_names(
            resolver.manifest.db_version@,
            settings.stanza@,
            *config,
        ),
        r.dry_run == settings.dry_run,
{
    let files = recovery_files(resolver.manifest.db_version.as_str(), settings.stanza.as_str(), config);
    let names = names_of(&files);
    assert(text::texts(names@) =~= recovery_names(resolver.manifest.db_version@, settings.stanza@, *config));
    RestoreOutcome {
        label: resolver.label.clone(),
        files_restored: plan.todo.len(),
        files_skipped: plan.files_skipped,
        files_removed: if settings.delta {
            strays
        } else {
            0
        },
        paths_created: resolver.manifest.paths.len(),
        links_created: counts.links_created,
        skipped_links: counts.skipped_links,
        links_as_dir: counts.links_as_dir,
        recovery_files_written: names,
        dry_run: settings.dry_run,
    }
}

/// What a run that changes nothing says before all else.
pub fn dry_run_notice(settings: &RestoreSettings) -> (r: Option<&'static str>)
    ensures
        config::opt_view(r) == (if settings.dry_run {
            Some("dry-run: no files will be restored and PGDATA will not be modified"@)
        } else {
            None
        }),
{
    if settings.dry_run {
        Some("dry-run: no files will be restored and PGDATA will not be modified")
    } else {
        None
    }
}

/// The line on a file that would be copied.
pub open spec fn file_line(file: ManifestFile) -> Seq<char> {
    "dry-run: would restore "@ + file.path@ + " ("@ + text::decimal(file.size as nat) + " byte(s))"@
}

/// The line on what a link would become.
pub open spec fn link_line(link: ManifestLink, cfg: LoadedConfig) -> Seq<char> {
    if links::symlinks_allowed(cfg) {
        "dry-run: would create symlink "@ + link.path@ + " -> "@ + links::target_of(link, cfg)
    } else {
        "dry-run: would create directory "@ + link.path@ + " (link as dir)"@
    }
}

/// The line on a recovery file that would be written.
pub open spec fn recovery_line(name: Seq<char>) -> Seq<char> {
    "dry-run: would write recovery file "@ + name
}

/// The lines on all files that would be copied, in order.
pub open spec fn file_lines(settings: RestoreSettings, files: Seq<ManifestFile>, matched: Seq<bool>) -> Seq<Seq<char>> {
    let todo = copy_places(settings, files, matched, files.len() as int);
    Seq::new(todo.len(), |k: int| file_line(files[todo[k]]))
}

/// The lines on what all links would become, in order.
pub open spec fn link_lines(links: Seq<ManifestLink>, cfg: LoadedConfig) -> Seq<Seq<char>> {
    Seq::new(links.len(), |i: int| link_line(links[i], cfg))
}

/// The lines on all recovery files that would be written, in order.
pub open spec fn recovery_lines(names: Seq<Seq<char>>) -> Seq<Seq<char>> {
    Seq::new(names.len(), |i: int| recovery_line(names[i]))
}

/// What a run would do, line by line: the files it would copy, what the links would
/// become, the recovery files it would write.
pub open spec fn would_do(
    settings: RestoreSettings,
    cfg: LoadedConfig,
    manifest: Manifest,
    matched: Seq<bool>,
) -> Seq<Seq<char>> {
    file_lines(settings, manifest.files@, matched) + link_lines(manifest.links@, cfg) + recovery_lines(
        recovery_names(manifest.db_version@, settings.stanza@, cfg),
    )
}

fn push_file_lines(out: &mut Vec<String>, manifest: &Manifest, todo: &Vec<usize>)
    requires
        forall|k: int| 0 <= k < todo.len() ==> #[trigger] todo[k] < manifest.files.len(),
    ensures
        text::texts(final(out)@) == text::texts(old(out)@) + Seq::new(
            todo.len() as nat,
            |k: int| file_line(manifest.files@[places(todo@)[k]]),
        ),
{
    let ghost start = text::texts(out@);
    let ghost lines = Seq::new(todo.len() as nat, |k: int| file_line(manifest.files@[places(todo@)[k]]));
    let n: usize = todo.len();
    let mut i: usize = 0;
    while i < n
        invariant
            i <= n,
            n == todo.len(),
            forall|k: int| 0 <= k < todo.len() ==> #[trigger] todo[k] < manifest.files.len(),
            lines == Seq::new(todo.len() as nat, |k: int| file_line(manifest.files@[places(todo@)[k]])),
            text::texts(out@) == start + lines.take(i as int),
        decreases n - i,
    {
        let file = &manifest.files[todo[i]];
        let mut line = cat3("dry-run: would restore ", file.path.as_str(), " (");
        line.append(print_unsigned(file.size).as_str());
        line.append(" byte(s))");
        assert(line@ =~= file_line(*file));
        assert(lines[i as int] == line@);
        push_text(out, line.as_str());
        i += 1;
        assert(text::texts(out@) =~= start + lines.take(i as int));
    }
    assert(lines.take(n as int) =~= lines);
}

fn push_link_lines(out: &mut Vec<String>, config: &LoadedConfig, manifest: &Manifest)
    ensures
        text::texts(final(out)@) == text::texts(old(out)@) + link_lines(manifest.links@, *config),
{
    let ghost start = text::texts(out@);
    let ghost lines = link_lines(manifest.links@, *config);
    let steps = link_steps(config, manifest);
    let n: usize = steps.len();
    let mut i: usize = 0;
    while i < n
        invariant
            i <= n,
            n == steps.len(),
            n == manifest.links.len(),
            forall|k: int| 0 <= k < n ==> step_fits(#[trigger] steps[k], manifest.links[k], *config),
            lines == link_lines(manifest.links@, *config),
            text::texts(out@) == start + lines.take(i as int),
        decreases n - i,
    {
        assert(step_fits(steps@[i as int], manifest.links[i as int], *config));
        let line = match &steps[i] {
            LinkStep::Directory { path } => cat3("dry-run: would create directory ", path.as_str(), " (link as dir)"),
            LinkStep::Symlink { parent: _, path, target } => {
                let mut line = cat3("dry-run: would create symlink ", path.as_str(), " -> ");
                line.append(target.as_str());
                line
            },
        };
        assert(lines[i as int] == line@);
        push_text(out, line.as_str());
        i += 1;
        assert(text::texts(out@) =~= start + lines.take(i as int));
    }
    assert(lines.take(n as int) =~= lines);
}

fn push_recovery_lines(out: &mut Vec<String>, names: &Vec<String>)
    ensures
        text::texts(final(out)@) == text::texts(old(out)@) + recovery_lines(text::texts(names@)),
{
    let ghost start = text::texts(out@);
    let ghost lines = recovery_lines(text::texts(names@));
    let n: usize = names.len();
    let mut i: usize = 0;
    while i < n
        invariant
            i <= n,
            n == names.len(),
            lines == recovery_lines(text::texts(names@)),
            text::texts(out@) == start + lines.take(i as int),
        decreases n - i,
    {
        let mut line = "dry-run: would write recovery file ".to_owned();
        line.append(names[i].as_str());
        assert(lines[i as int] == line@);
        push_text(out, line.as_str());
        i += 1;
        assert(text::texts(out@) =~= start + lines.take(i as int));
    }
    assert(lines.take(n as int) =~= lines);
}

/// What a run would do, line by line; `matched` says of each recorded file whether it
/// is already in place.
pub fn dry_run_lines(
    settings: &RestoreSettings,
    config: &LoadedConfig,
    manifest: &Manifest,
    matched: &Vec<bool>,
) -> (r: Vec<String>)
    ensures
        text::texts(r@) == would_do(*settings, *config, *manifest, matched@),
{
    let plan = copy_plan(settings, manifest, matched);
    let names = names_of(&recovery_files(manifest.db_version.as_str(), settings.stanza.as_str(), config));
    let mut out: Vec<String> = Vec::new();
    push_file_lines(&mut out, manifest, &plan.todo);
    assert(places(plan.todo@).len() == plan.todo.len());
    assert(text::texts(out@) =~= file_lines(*settings, manifest.files@, matched@));
    push_link_lines(&mut out, config, manifest);
    push_recovery_lines(&mut out, &names);
    assert(text::texts(names@) =~= recovery_names(manifest.db_version@, settings.stanza@, *config));
    assert(text::texts(out@) =~= would_do(*settings, *config, *manifest, matched@));
    out
}

/// The line that reports a run.
pub open spec fn summary_text(o: RestoreOutcome) -> Seq<char> {
    (if o.dry_run {
        "dry-run: would restore"@
    } else {
        "restore:"@
    }) + " backup "@ + o.label@ + " — "@ + text::decimal(o.files_restored as nat) + " file(s) restored, "@ + text::decimal(
        o.files_skipped as nat,
    ) + " skipped, "@ + text::decimal(o.files_removed as nat) + " removed, "@ + text::decimal(o.paths_created as nat)
        + " path(s) created, "@ + text::decimal(o.links_created as nat) + " link(s) created, "@ + text::decimal(
        o.skipped_links as nat,
    ) + " link(s) skipped, "@ + text::decimal(o.links_as_dir as nat) + " link(s) as dir, "@ + text::decimal(
        o.recovery_files_written.len() as nat,
    ) + " recovery file(s) written"@
}

fn push_count(out: &mut String, n: usize, what: &str)
    ensures
        final(out)@ == old(out)@ + text::decimal(n as nat) + what@,
{
    out.append(print_unsigned(n as u64).as_str());
    out.append(what);
}

/// The line that reports a run.
pub fn restore_summary(outcome: &RestoreOutcome) -> (r: String)
    ensures
        r@ == summary_text(*outcome),
{
    let mut out = (if outcome.dry_run {
        "dry-run: would restore"
    } else {
        "restore:"
    }).to_owned();
    out.append(" backup ");
    out.append(outcome.label.as_str());
    out.append(" — ");
    push_count(&mut out, outcome.files_restored, " file(s) restored, ");
    push_count(&mut out, outcome.files_skipped, " skipped, ");
    push_count(&mut out, outcome.files_removed, " removed, ");
    push_count(&mut out, outcome.paths_created, " path(s) created, ");
    push_count(&mut out, outcome.links_created, " link(s) created, ");
    push_count(&mut out, outcome.skipped_links, " link(s) skipped, ");
    push_count(&mut out, outcome.links_as_dir, " link(s) as dir, ");
    push_count(&mut out, outcome.recovery_files_written.len(), " recovery file(s) written");
    out
}

/// A run is set up from the options as they were given: the stanza, the two switches, the
/// two lists of databases, the workers. Without a stanza there is none, and none where
/// both lists name a database.
pub proof fn law_settings_are_as_given(
    config: &LoadedConfig,
    keep: Vec<String>,
    drop: Vec<String>,
    delta: bool,
    dry_run: bool,
    switches: (bool, bool),
    workers: usize,
    r: Result<RestoreSettings, CommandError>,
)
    requires
        call_ensures(db_list, (config, "db-include"), keep),
        call_ensures(db_list, (config, "db-exclude"), drop),
        call_ensures(switched_on, (config, "delta"), delta),
        call_ensures(switched_on, (config, "dry-run"), dry_run),
        call_ensures(delta_enabled, (config,), switches.0),
        call_ensures(dry_run_enabled, (config,), switches.1),
        call_ensures(process_max, (config,), workers),
        call_ensures(restore_settings, (config,), r),
    ensures
        switches == (delta, dry_run),
        config.stanza is None ==> r is Err && r->Err_0.is_missing("stanza"@),
        config.stanza is Some && keep.len() > 0 && drop.len() > 0 ==> r is Err && r->Err_0.is_other(
            "db-include and db-exclude are mutually exclusive"@,
        ),
        config.stanza is Some && (keep.len() == 0 || drop.len() == 0) ==> r is Ok && r->Ok_0.stanza@ == config.stanza.unwrap()@
            && r->Ok_0.delta == delta && r->Ok_0.dry_run == dry_run && text::texts(r->Ok_0.keep@) == text::texts(keep@)
            && text::texts(r->Ok_0.drop@) == text::texts(drop@) && r->Ok_0.workers == workers,
{
    assert(text::texts(keep@).len() == keep.len());
    assert(text::texts(drop@).len() == drop.len());
}

/// The steps of a run in their order: from the records to the manifest; then, unless
/// nothing may be changed, the directories; under `delta` the comparison with the target;
/// the copy; under `delta` the search for stray files and, unless nothing may be changed,
/// their removal; at last links, labels and recovery files.
pub proof fn law_order_of_steps(step: Step, delta: bool, dry_run: bool, r: Step)
    requires
        step != Step::Finish,
        call_ensures(next_step, (step, delta, dry_run), r),
    ensures
        step == Step::LoadInfo ==> r == Step::LoadKey,
        step == Step::LoadKey ==> r == Step::LoadManifest,
        step == Step::LoadManifest && !dry_run ==> r == Step::CreatePaths,
        step == Step::LoadManifest && dry_run && delta ==> r == Step::InspectTargets,
        step == Step::LoadManifest && dry_run && !delta ==> r == Step::Finish,
        step == Step::CreatePaths && delta ==> r == Step::InspectTargets,
        step == Step::CreatePaths && !delta && !dry_run ==> r == Step::ResolveFiles,
        step == Step::InspectTargets && delta ==> r == Step::HashTargets,
        step == Step::HashTargets && !dry_run ==> r == Step::ResolveFiles,
        step == Step::HashTargets && dry_run && delta ==> r == Step::WalkTarget,
        step == Step::ResolveFiles && !dry_run ==> r == Step::CopyFiles,
        step == Step::CopyFiles && delta ==> r == Step::WalkTarget,
        step == Step::CopyFiles && !delta && !dry_run ==> r == Step::LayLinks,
        step == Step::WalkTarget && delta && !dry_run ==> r == Step::RemoveStrays,
        step == Step::WalkTarget && dry_run ==> r == Step::Finish,
        step == Step::RemoveStrays && !dry_run ==> r == Step::LayLinks,
        step == Step::LayLinks && !dry_run ==> r == Step::CopyLabels,
        step == Step::CopyLabels && !dry_run ==> r == Step::WriteRecovery,
        step == Step::WriteRecovery ==> r == Step::Finish,
{
    assert(follows(step, r, delta, dry_run));
    assert(rank(Step::LoadKey) == 1);
    assert(rank(Step::LoadManifest) == 2);
    assert(rank(Step::CreatePaths) == 3);
    assert(rank(Step::InspectTargets) == 4);
    assert(rank(Step::HashTargets) == 5);
    assert(rank(Step::ResolveFiles) == 6);
    assert(rank(Step::CopyFiles) == 7);
    assert(rank(Step::WalkTarget) == 8);
    assert(rank(Step::RemoveStrays) == 9);
    assert(rank(Step::LayLinks) == 10);
    assert(rank(Step::CopyLabels) == 11);
    assert(rank(Step::WriteRecovery) == 12);
    assert(rank(Step::Finish) == 13);
}

/// The backup that is restored is the one that is selected among the loaded ones, under
/// its own label and with the manifest that lies below that label; where the records could
/// not be loaded or nothing is selected there is none.
pub proof fn law_chosen_is_selected(
    settings: &RestoreSettings,
    config: &LoadedConfig,
    info: InfoBackup,
    selected: Result<usize, CommandError>,
    r: Result<Chosen, CommandError>,
)
    requires
        call_ensures(select_backup, (config, &info), selected),
        call_ensures(choose_backup, (settings, config, Ok::<InfoBackup, LoadError>(info)), r),
    ensures
        r is Ok <==> selected is Ok,
        r is Ok ==> {
            &&& r->Ok_0.index == selected->Ok_0
            &&& r->Ok_0.info == info
            &&& r->Ok_0.label@ == info.current.keys()[selected->Ok_0 as int]
            &&& r->Ok_0.manifest_path@ == "backup/"@ + settings.stanza@ + "/"@ + r->Ok_0.label@ + "/backup.manifest"@
        },
        r is Err && selected->Err_0 is Other ==> r->Err_0 is Other && r->Err_0->Other_0@ == selected->Err_0->Other_0@,
{
}

/// Records or a manifest that could not be loaded end the run: a missing file as missing
/// at its place, any other failure with its message.
pub proof fn law_unloaded_records_end_the_run(
    settings: &RestoreSettings,
    config: &LoadedConfig,
    failure: LoadError,
    chosen: Chosen,
    sub_key: Option<String>,
    local: bool,
    a: Result<Chosen, CommandError>,
    b: Result<SourceResolver, CommandError>,
    path: String,
)
    requires
        chosen.index < chosen.info.current.vals().len(),
        call_ensures(choose_backup, (settings, config, Err::<InfoBackup, LoadError>(failure)), a),
        call_ensures(open_backup, (settings, chosen, sub_key, Err::<Manifest, LoadError>(failure), local), b),
        call_ensures(info_path, (settings,), path),
    ensures
        path@ == "backup/"@ + settings.stanza@ + "/backup.info"@,
        a is Err && b is Err,
        failure is NotFound ==> a->Err_0.is_not_found(path@) && b->Err_0.is_not_found(chosen.manifest_path@),
        failure is Unusable ==> a->Err_0.is_other(failure->Unusable_0@) && b->Err_0.is_other(failure->Unusable_0@),
{
}

/// An opened backup reads its own files as they were recorded to be stored, under the
/// repository's key, and every file, whichever backup holds it, under that same key.
pub proof fn law_opened_backup_reads_under_the_key(
    settings: &RestoreSettings,
    chosen: Chosen,
    sub_key: Option<String>,
    manifest: Manifest,
    local: bool,
    opened: Result<SourceResolver, CommandError>,
    later: &SourceResolver,
    file: &ManifestFile,
    found: resolver::Resolution,
)
    requires
        chosen.index < chosen.info.current.vals().len(),
        call_ensures(open_backup, (settings, chosen, sub_key, Ok::<Manifest, LoadError>(manifest), local), opened),
        opened is Ok ==> later.same_backup(opened->Ok_0),
        call_ensures(SourceResolver::resolve, (later, file), found),
    ensures
        opened is Ok,
        ({
            let s = opened->Ok_0;
            let entry = chosen.info.current.vals()[chosen.index as int];
            &&& s.stanza@ == settings.stanza@
            &&& s.label@ == chosen.label@
            &&& s.manifest == manifest
            &&& s.info == chosen.info
            &&& s.local == local
            &&& s.transform.compress_type == entry.transform.compress_type
            &&& s.transform.compress_level == entry.transform.compress_level
            &&& config::opt_text(s.transform.key) == config::opt_text(sub_key)
            &&& config::opt_text(s.sub_key) == config::opt_text(sub_key)
        }),
        match found {
            resolver::Resolution::Found(RestoreSource::Standalone { transform, .. }) => config::opt_text(transform.key)
                == config::opt_text(sub_key),
            resolver::Resolution::Found(RestoreSource::Bundled { transform, .. }) => config::opt_text(transform.key)
                == config::opt_text(sub_key),
            resolver::Resolution::Found(RestoreSource::Blocks(blocks)) => forall|i: int|
                0 <= i < blocks.len() ==> config::opt_text((#[trigger] blocks[i]).transform.key) == config::opt_text(sub_key),
            _ => true,
        },
{
    let s = opened->Ok_0;
    assert(self::opened(s, *settings, chosen, sub_key, manifest, local));
    resolver::law_every_source_is_keyed(later, file, found);
}

/// Every recorded directory is made, and every directory that a cluster needs to start.
pub proof fn law_directories_are_made(manifest: &Manifest, r: Vec<String>, path: Seq<char>)
    requires
        call_ensures(directories, (manifest,), r),
    ensures
        text::texts(r@).contains(path) <==> ((exists|i: int|
            0 <= i < manifest.paths.len() && (#[trigger] manifest.paths[i]).path@ == path) || path == "pg_wal"@ || path
            == "pg_wal/archive_status"@ || path == "pg_notify"@ || path == "pg_replslot"@ || path == "pg_serial"@ || path
            == "pg_snapshots"@ || path == "pg_dynshmem"@ || path == "pg_stat_tmp"@ || path == "pg_subtrans"@ || path == "pg_stat"@
            || path == "pg_logical"@ || path == "pg_logical/snapshots"@ || path == "pg_logical/mappings"@ || path
            == "pg_commit_ts"@ || path == "pg_tblspc"@),
        r.len() == manifest.paths.len() + 15,
{
    let front = recorded_paths(*manifest);
    let all = front + skeleton();
    assert(text::texts(r@) == all);
    assert(text::texts(r@).len() == r.len());
    if exists|i: int| 0 <= i < manifest.paths.len() && (#[trigger] manifest.paths[i]).path@ == path {
        let i = choose|i: int| 0 <= i < manifest.paths.len() && (#[trigger] manifest.paths[i]).path@ == path;
        assert(all[i] == path);
    }
    let n = front.len() as int;
    assert(all[n] == "pg_wal"@);
    assert(all[n + 1] == "pg_wal/archive_status"@);
    assert(all[n + 2] == "pg_notify"@);
    assert(all[n + 3] == "pg_replslot"@);
    assert(all[n + 4] == "pg_serial"@);
    assert(all[n + 5] == "pg_snapshots"@);
    assert(all[n + 6] == "pg_dynshmem"@);
    assert(all[n + 7] == "pg_stat_tmp"@);
    assert(all[n + 8] == "pg_subtrans"@);
    assert(all[n + 9] == "pg_stat"@);
    assert(all[n + 10] == "pg_logical"@);
    assert(all[n + 11] == "pg_logical/snapshots"@);
    assert(all[n + 12] == "pg_logical/mappings"@);
    assert(all[n + 13] == "pg_commit_ts"@);
    assert(all[n + 14] == "pg_tblspc"@);
    if all.contains(path) {
        let k = choose|k: int| 0 <= k < all.len() && all[k] == path;
        if k < n {
            assert(manifest.paths[k].path@ == path);
        }
    }
}

proof fn lemma_wanted_places(settings: RestoreSettings, files: Seq<ManifestFile>, n: int, i: int)
    requires
        0 <= i,
    ensures
        wanted_places(settings, files, n).contains(i) <==> i < n && wanted(settings, files, i),
        n >= 0 ==> wanted_places(settings, files, n).len() + unwanted_count(settings, files, n) == n,
    decreases n,
{
    if n > 0 {
        lemma_wanted_places(settings, files, n - 1, i);
        lemma_push_place(wanted_places(settings, files, n - 1), n - 1, i);
    } else {
        assert(wanted_places(settings, files, n) =~= Seq::<int>::empty());
    }
}

proof fn lemma_copy_places(settings: RestoreSettings, files: Seq<ManifestFile>, matched: Seq<bool>, n: int, i: int)
    requires
        0 <= i,
    ensures
        copy_places(settings, files, matched, n).contains(i) <==> i < n && to_copy(settings, files, matched, i),
        forall|a: int|
            0 <= a < copy_places(settings, files, matched, n).len() ==> #[trigger] copy_places(settings, files, matched, n)[a] < n,
        forall|a: int, b: int|
            0 <= a < b < copy_places(settings, files, matched, n).len() ==> #[trigger] copy_places(settings, files, matched, n)[a]
                < #[trigger] copy_places(settings, files, matched, n)[b],
    decreases n,
{
    if n > 0 {
        lemma_copy_places(settings, files, matched, n - 1, i);
        let front = copy_places(settings, files, matched, n - 1);
        let all = copy_places(settings, files, matched, n);
        lemma_push_place(front, n - 1, i);
        if to_copy(settings, files, matched, n - 1) {
            assert(all == front.push(n - 1));
            assert forall|a: int, b: int| 0 <= a < b < all.len() implies #[trigger] all[a] < #[trigger] all[b] by {
                assert(all[a] == front[a]);
                if b < front.len() {
                    assert(all[b] == front[b]);
                }
            }
            assert forall|a: int| 0 <= a < all.len() implies #[trigger] all[a] < n by {
                if a < front.len() {
                    assert(all[a] == front[a]);
                }
            }
        } else {
            assert(forall|a: int| 0 <= a < front.len() ==> #[trigger] front[a] < n - 1);
        }
    }
}

/// A recorded file is copied where its database is taken and, under `delta`, it was not
/// found to be unchanged; the files that are compared are all whose database is taken.
/// Each comes once and in the order of the manifest, and what is compared is copied or
/// counted as skipped.
pub proof fn law_which_files_are_copied(
    settings: &RestoreSettings,
    manifest: &Manifest,
    matched: &Vec<bool>,
    candidates: Vec<usize>,
    plan: CopyPlan,
    i: usize,
    path: &str,
    included: bool,
)
    requires
        call_ensures(delta_candidates, (settings, manifest), candidates),
        call_ensures(copy_plan, (settings, manifest, matched), plan),
        i < manifest.files.len(),
        path@ == manifest.files[i as int].path@,
        call_ensures(database_included, (path, &settings.keep, &settings.drop), included),
    ensures
        candidates@.contains(i) <==> included,
        plan.todo@.contains(i) <==> included && !(settings.delta && i < matched.len() && matched[i as int]),
        forall|a: int, b: int| 0 <= a < b < plan.todo.len() ==> (#[trigger] plan.todo[a]) < (#[trigger] plan.todo[b]),
        forall|a: int, b: int| 0 <= a < b < candidates.len() ==> (#[trigger] candidates[a]) < (#[trigger] candidates[b]),
        plan.todo.len() + plan.files_skipped == candidates.len(),
{
    let files = manifest.files@;
    let n = files.len() as int;
    lemma_wanted_places(*settings, files, n, i as int);
    lemma_wanted_ascending(*settings, files, n);
    lemma_copy_places(*settings, files, matched@, n, i as int);
    law_every_file_is_accounted_for(*settings, files, matched@, n);
    lemma_places_contain(candidates@, i);
    lemma_places_contain(plan.todo@, i);
    assert(places(candidates@).len() == candidates.len());
    assert(places(plan.todo@).len() == plan.todo.len());
    assert(included == wanted(*settings, files, i as int));
    assert forall|a: int, b: int| 0 <= a < b < plan.todo.len() implies (#[trigger] plan.todo[a]) < (#[trigger] plan.todo[b]) by {
        assert(places(plan.todo@)[a] < places(plan.todo@)[b]);
    }
    assert forall|a: int, b: int| 0 <= a < b < candidates.len() implies (#[trigger] candidates[a]) < (#[trigger] candidates[b]) by {
        assert(places(candidates@)[a] < places(candidates@)[b]);
    }
}

proof fn lemma_places_contain(v: Seq<usize>, i: usize)
    ensures
        places(v).contains(i as int) <==> v.contains(i),
{
    if v.contains(i) {
        let k = choose|k: int| 0 <= k < v.len() && v[k] == i;
        assert(places(v)[k] == i);
    }
    if places(v).contains(i as int) {
        let k = choose|k: int| 0 <= k < places(v).len() && places(v)[k] == i;
        assert(v[k] == i);
    }
}

/// What the target tells of a candidate settles it by itself: it is unchanged, or it is
/// asked for its digest, by a job that names its path, the recorded digest and the place
/// in the target, or it is neither.
pub proof fn law_each_candidate_is_classified(
    manifest: &Manifest,
    candidates: &Vec<usize>,
    infos: &Vec<Option<StorageInfo>>,
    local: bool,
    plan: DeltaPlan,
    k: int,
    info: Option<&StorageInfo>,
    settled: DeltaMatch,
)
    requires
        infos.len() == candidates.len(),
        forall|j: int| 0 <= j < candidates.len() ==> #[trigger] candidates[j] < manifest.files.len(),
        forall|a: int, b: int| 0 <= a < b < candidates.len() ==> (#[trigger] candidates[a]) != (#[trigger] candidates[b]),
        call_ensures(delta_plan, (manifest, candidates, infos, local), plan),
        0 <= k < candidates.len(),
        info is Some <==> infos[k] is Some,
        info is Some ==> *info.unwrap() == infos[k].unwrap(),
        call_ensures(classify_delta_match, (info, &manifest.files[candidates[k] as int], local), settled),
    ensures
        plan.settled@.contains(candidates[k]) <==> settled is Matches,
        plan.asked@.contains(candidates[k]) <==> settled is NeedsHash,
        plan.asked.len() == plan.jobs.len(),
        forall|j: int|
            0 <= j < plan.asked.len() && #[trigger] plan.asked[j] == candidates[k] ==> {
                &&& plan.jobs[j].rel@ == manifest.files[candidates[k] as int].path@
                &&& plan.jobs[j].expected_sha@ == settled->expected_sha@
                &&& plan.jobs[j].abs_path@ == settled->abs_path@
            },
{
    let files = manifest.files@;
    let n = candidates.len() as int;
    let place = candidates[k] as int;
    let todo = undecided_places(files, candidates@, infos@, n);
    assert(delta::opt_info(info) == infos[k]);
    lemma_settled_places(files, candidates@, infos@, n, place);
    lemma_places_contain(plan.settled@, candidates[k]);
    lemma_places_contain(plan.asked@, candidates[k]);
    assert(settled is Matches <==> self::settled(files, candidates@, infos@, k));
    assert(settled is NeedsHash <==> undecided(files, candidates@, infos@, k));
    if self::settled(files, candidates@, infos@, k) {
        assert(candidates@[k] == place);
    }
    if plan.settled@.contains(candidates[k]) {
        let j = choose|j: int|
            0 <= j < n && (#[trigger] candidates@[j]) == place && self::settled(files, candidates@, infos@, j);
        assert(candidates[j] == candidates[k]);
        assert(j == k);
    }
    assert(places(plan.asked@) == places_at(candidates@, todo));
    assert(places(plan.asked@).len() == plan.asked.len());
    assert forall|j: int| 0 <= j < plan.asked.len() && #[trigger] plan.asked[j] == candidates[k] implies todo[j] == k by {
        lemma_undecided_place(files, candidates@, infos@, n, j);
        assert(places(plan.asked@)[j] == plan.asked[j]);
        assert(candidates[todo[j]] == candidates[k]);
    }
    if undecided(files, candidates@, infos@, k) {
        let j = lemma_is_undecided_place(files, candidates@, infos@, n, k);
        assert(places(plan.asked@)[j] == place);
        assert(plan.asked@[j] == candidates[k]);
    }
    if plan.asked@.contains(candidates[k]) {
        let j = choose|j: int| 0 <= j < plan.asked.len() && plan.asked@[j] == candidates[k];
        assert(plan.asked[j] == candidates[k]);
        lemma_undecided_place(files, candidates@, infos@, n, j);
    }
    assert forall|j: int| 0 <= j < plan.asked.len() && #[trigger] plan.asked[j] == candidates[k] implies {
        &&& plan.jobs[j].rel@ == manifest.files[candidates[k] as int].path@
        &&& plan.jobs[j].expected_sha@ == settled->expected_sha@
        &&& plan.jobs[j].abs_path@ == settled->abs_path@
    } by {
        assert(job_fits(plan.jobs@[j], files[candidates@[todo[j]] as int], infos@[todo[j]], local));
        lemma_undecided_place(files, candidates@, infos@, n, j);
    }
}

/// Which recorded files are found to be unchanged. In a target on this host: all under the
/// path of a settled file, and all under a path that an answer confirms. Elsewhere: the
/// settled ones, and each whose own answer confirms it.
pub proof fn law_confirmed_files(plan: &DeltaPlan, manifest: &Manifest, results: &Vec<DeltaResult>, local: bool, r: Vec<bool>, i: int)
    requires
        forall|k: int| 0 <= k < plan.settled.len() ==> #[trigger] plan.settled[k] < manifest.files.len(),
        forall|k: int| 0 <= k < plan.asked.len() ==> #[trigger] plan.asked[k] < manifest.files.len(),
        !local ==> results.len() == plan.asked.len(),
        call_ensures(DeltaPlan::confirm, (plan, manifest, results, local), r),
        0 <= i < manifest.files.len(),
    ensures
        r.len() == manifest.files.len(),
        local ==> (r[i] <==> ((exists|k: int|
            0 <= k < plan.settled.len() && manifest.files[(#[trigger] plan.settled[k]) as int].path@ == manifest.files[i].path@) || (
        exists|k: int|
            0 <= k < results.len() && (#[trigger] results[k]).key@ == manifest.files[i].path@ && results[k].reply
                == DeltaReply::Compared(true)))),
        !local ==> (r[i] <==> ((exists|k: int| 0 <= k < plan.settled.len() && (#[trigger] plan.settled[k]) == i) || (exists|k: int|
            0 <= k < plan.asked.len() && (#[trigger] plan.asked[k]) == i && results[k].reply == DeltaReply::Compared(true)))),
{
    let files = manifest.files@;
    let at = places(plan.settled@);
    let asked = places(plan.asked@);
    assert(at.len() == plan.settled.len());
    assert(asked.len() == plan.asked.len());
    assert(r[i] == stays(files, at, asked, results@, local, i));
    assert(forall|k: int| 0 <= k < at.len() ==> #[trigger] at[k] == plan.settled[k]);
    assert(forall|k: int| 0 <= k < asked.len() ==> #[trigger] asked[k] == plan.asked[k]);
    if local {
        if exists|k: int|
            0 <= k < plan.settled.len() && manifest.files[(#[trigger] plan.settled[k]) as int].path@ == manifest.files[i].path@ {
            let k = choose|k: int|
                0 <= k < plan.settled.len() && manifest.files[(#[trigger] plan.settled[k]) as int].path@ == manifest.files[i].path@;
            assert(files[at[k]].path@ == files[i].path@);
        }
        if at_path(files, at, at.len() as int, files[i].path@) {
            let k = choose|k: int| 0 <= k < at.len() && files[#[trigger] at[k]].path@ == files[i].path@;
            assert(manifest.files[plan.settled[k] as int].path@ == manifest.files[i].path@);
        }
        if exists|k: int|
            0 <= k < results.len() && (#[trigger] results[k]).key@ == manifest.files[i].path@ && results[k].reply
                == DeltaReply::Compared(true) {
            let k = choose|k: int|
                0 <= k < results.len() && (#[trigger] results[k]).key@ == manifest.files[i].path@ && results[k].reply
                    == DeltaReply::Compared(true);
            assert(results@[k].key@ == files[i].path@);
        }
    } else {
        if at.contains(i) {
            let k = choose|k: int| 0 <= k < at.len() && at[k] == i;
            assert(plan.settled[k] == i);
        }
        if exists|k: int| 0 <= k < plan.settled.len() && (#[trigger] plan.settled[k]) == i {
            let k = choose|k: int| 0 <= k < plan.settled.len() && (#[trigger] plan.settled[k]) == i;
            assert(at[k] == i);
        }
        if delta::confirmed_at(results@, asked, asked.len() as int, i) {
            let k = choose|k: int|
                0 <= k < asked.len() && #[trigger] asked[k] == i && results@[k].reply == DeltaReply::Compared(true);
            assert(plan.asked[k] == i);
        }
        if exists|k: int|
            0 <= k < plan.asked.len() && (#[trigger] plan.asked[k]) == i && results[k].reply == DeltaReply::Compared(true) {
            let k = choose|k: int|
                0 <= k < plan.asked.len() && (#[trigger] plan.asked[k]) == i && results[k].reply == DeltaReply::Compared(true);
            assert(asked[k] == i);
        }
    }
}

/// A job carries what its file records, from the source to the place it was given.
pub proof fn law_job_carries_its_file(file: &ManifestFile, source: RestoreSource, dst: String, r: RestoreCopyJob)
    requires
        call_ensures(copy_job, (file, source, dst), r),
    ensures
        r.rel@ == file.path@ && r.source == source && r.abs_dst@ == dst@ && r.mode == file.mode,
        r.expected_checksum is Some <==> file.checksum is Some,
        r.expected_checksum is Some ==> r.expected_checksum.unwrap()@ == file.checksum.unwrap()@,
{
}

/// Each link becomes, in its place, a link to where it is to point, in the directory that
/// is to hold it; where links may not be made, a directory.
pub proof fn law_each_link_is_laid_out(
    config: &LoadedConfig,
    manifest: &Manifest,
    r: Vec<LinkStep>,
    i: int,
    allowed: bool,
    target: String,
    path: &str,
    parent: Option<String>,
)
    requires
        call_ensures(link_steps, (config, manifest), r),
        0 <= i < manifest.links.len(),
        call_ensures(repo_symlink, (config,), allowed),
        call_ensures(link_destination, (&manifest.links[i], config), target),
        path@ == manifest.links[i].path@,
        call_ensures(holding_path, (path,), parent),
    ensures
        r.len() == manifest.links.len(),
        allowed ==> r[i] is Symlink && r[i]->Symlink_path@ == path@ && r[i]->target@ == target@ && config::opt_text(r[i]->parent)
            == config::opt_text(parent),
        !allowed ==> r[i] is Directory && r[i]->Directory_path@ == path@,
{
    assert(step_fits(r@[i], manifest.links[i], *config));
}

/// The counts of links: all are directories where links may not be made; all are made
/// where nothing was attempted; else each that was made counts as made and each that was
/// not as skipped, and one more result is one more of either.
pub proof fn law_links_are_counted(
    config: &LoadedConfig,
    manifest: &Manifest,
    dry_run: bool,
    results: &Vec<bool>,
    allowed: bool,
    r: LinkCounts,
    last: bool,
)
    requires
        call_ensures(repo_symlink, (config,), allowed),
        allowed && !dry_run ==> results.len() == manifest.links.len(),
        call_ensures(link_counts, (config, manifest, dry_run, results), r),
    ensures
        r.links_created + r.skipped_links + r.links_as_dir == manifest.links.len(),
        !allowed ==> r.links_as_dir == manifest.links.len(),
        allowed ==> r.links_as_dir == 0,
        allowed && dry_run ==> r.skipped_links == 0,
        allowed && !dry_run ==> r.links_created == made(results@),
        made(Seq::<bool>::empty()) == 0,
        made(results@.push(last)) == made(results@) + (if last {
            1nat
        } else {
            0nat
        }),
{
    assert(results@.push(last).drop_last() =~= results@);
}

/// The two files that go with a backup's label lie at the backup's root and keep their
/// names.
pub proof fn law_label_files(settings: &RestoreSettings, label: &str, r: Vec<(String, String)>)
    requires
        call_ensures(label_files, (settings, label), r),
    ensures
        r.len() == 2,
        r[0].1@ == "backup_label"@,
        r[1].1@ == "tablespace_map"@,
        forall|i: int|
            0 <= i < 2 ==> (#[trigger] r[i]).0@ == "backup/"@ + settings.stanza@ + "/"@ + label@ + "/"@ + r[i].1@,
{
}

/// What a run amounts to: the backup, what the plan copied and skipped, what was removed,
/// which counts under `delta` only, the recorded directories, the links, the recovery
/// files by their names.
pub proof fn law_outcome_reports_the_run(
    settings: &RestoreSettings,
    config: &LoadedConfig,
    resolver: &SourceResolver,
    plan: &CopyPlan,
    strays: usize,
    counts: &LinkCounts,
    version: &str,
    stanza: &str,
    files: Vec<RecoveryFile>,
    r: RestoreOutcome,
)
    requires
        call_ensures(restore_outcome, (settings, config, resolver, plan, strays, counts), r),
        version@ == resolver.manifest.db_version@,
        stanza@ == settings.stanza@,
        call_ensures(recovery_files, (version, stanza, config), files),
    ensures
        r.label@ == resolver.label@,
        r.files_restored == plan.todo.len(),
        r.files_skipped == plan.files_skipped,
        settings.delta ==> r.files_removed == strays,
        !settings.delta ==> r.files_removed == 0,
        r.paths_created == resolver.manifest.paths.len(),
        r.links_created == counts.links_created && r.skipped_links == counts.skipped_links && r.links_as_dir == counts.links_as_dir,
        r.dry_run == settings.dry_run,
        r.recovery_files_written.len() == files.len(),
        forall|i: int| 0 <= i < files.len() ==> (#[trigger] r.recovery_files_written[i])@ == files[i].path@,
{
    let v = text::texts(r.recovery_files_written@);
    let w = recovery::file_views(files@);
    assert(v.len() == r.recovery_files_written.len());
    assert(w.len() == files.len());
    assert(v == recovery_names(version@, stanza@, *config));
    assert forall|i: int| 0 <= i < files.len() implies (#[trigger] r.recovery_files_written[i])@ == files[i].path@ by {
        assert(v[i] == r.recovery_files_written[i]@);
        assert(w[i].0 == files[i].path@);
    }
}

/// What a run that changes nothing says: a line for each file that would be copied, with
/// its size, one for each link, one for each recovery file, in this order.
pub proof fn law_dry_run_says_it_all(
    settings: &RestoreSettings,
    config: &LoadedConfig,
    manifest: &Manifest,
    matched: &Vec<bool>,
    plan: CopyPlan,
    steps: Vec<LinkStep>,
    version: &str,
    stanza: &str,
    files: Vec<RecoveryFile>,
    r: Vec<String>,
)
    requires
        call_ensures(dry_run_lines, (settings, config, manifest, matched), r),
        call_ensures(copy_plan, (settings, manifest, matched), plan),
        call_ensures(link_steps, (config, manifest), steps),
        version@ == manifest.db_version@,
        stanza@ == settings.stanza@,
        call_ensures(recovery_files, (version, stanza, config), files),
    ensures
        r.len() == plan.todo.len() + steps.len() + files.len(),
        forall|k: int|
            0 <= k < plan.todo.len() ==> (#[trigger] r[k])@ == "dry-run: would restore "@
                + manifest.files[plan.todo[k] as int].path@ + " ("@ + text::decimal(
                manifest.files[plan.todo[k] as int].size as nat,
            ) + " byte(s))"@,
        forall|k: int|
            0 <= k < steps.len() ==> r[plan.todo.len() + k]@ == (match #[trigger] steps[k] {
                LinkStep::Symlink { path, target, .. } => "dry-run: would create symlink "@ + path@ + " -> "@ + target@,
                LinkStep::Directory { path } => "dry-run: would create directory "@ + path@ + " (link as dir)"@,
            }),
        forall|k: int|
            0 <= k < files.len() ==> r[plan.todo.len() + steps.len() + k]@ == "dry-run: would write recovery file "@ + (
            #[trigger] files[k]).path@,
{
    let all = text::texts(r@);
    let a = file_lines(*settings, manifest.files@, matched@);
    let b = link_lines(manifest.links@, *config);
    let names = recovery_names(version@, stanza@, *config);
    let c = recovery_lines(names);
    let w = recovery::file_views(files@);
    assert(all == a + b + c);
    assert(all.len() == r.len());
    assert(places(plan.todo@).len() == plan.todo.len());
    assert(w.len() == files.len());
    assert forall|k: int| 0 <= k < plan.todo.len() implies (#[trigger] r[k])@ == "dry-run: would restore "@
        + manifest.files[plan.todo[k] as int].path@ + " ("@ + text::decimal(manifest.files[plan.todo[k] as int].size as nat)
        + " byte(s))"@ by {
        assert(all[k] == r[k]@);
        assert(a[k] == file_line(manifest.files@[places(plan.todo@)[k]]));
        assert(places(plan.todo@)[k] == plan.todo[k]);
    }
    assert forall|k: int| 0 <= k < steps.len() implies r[plan.todo.len() + k]@ == (match #[trigger] steps[k] {
        LinkStep::Symlink { path, target, .. } => "dry-run: would create symlink "@ + path@ + " -> "@ + target@,
        LinkStep::Directory { path } => "dry-run: would create directory "@ + path@ + " (link as dir)"@,
    }) by {
        assert(all[plan.todo.len() + k] == r[plan.todo.len() + k]@);
        assert(b[k] == link_line(manifest.links@[k], *config));
        assert(step_fits(steps@[k], manifest.links[k], *config));
    }
    assert forall|k: int| 0 <= k < files.len() implies r[plan.todo.len() + steps.len() + k]@
        == "dry-run: would write recovery file "@ + (#[trigger] files[k]).path@ by {
        assert(all[plan.todo.len() + steps.len() + k] == r[plan.todo.len() + steps.len() + k]@);
        assert(c[k] == recovery_line(names[k]));
        assert(w[k].0 == files[k].path@);
    }
}

/// A run that changes nothing says so first, and no other run does.
pub proof fn law_dry_run_is_announced(settings: &RestoreSettings, r: Option<&str>)
    requires
        call_ensures(dry_run_notice, (settings,), r),
    ensures
        r is Some <==> settings.dry_run,
        r is Some ==> r.unwrap()@ == "dry-run: no files will be restored and PGDATA will not be modified"@,
{
}

/// The report of a run gives its backup and each of its counts in turn.
pub proof fn law_summary_gives_every_count(o: &RestoreOutcome, r: String)
    requires
        call_ensures(restore_summary, (o,), r),
    ensures
        ({
            let n = |k: usize| text::decimal(k as nat);
            let start = if o.dry_run {
                "dry-run: would restore"@
            } else {
                "restore:"@
            };
            let files = n(o.files_restored) + " file(s) restored, "@ + n(o.files_skipped) + " skipped, "@ + n(o.files_removed)
                + " removed, "@;
            let paths = n(o.paths_created) + " path(s) created, "@;
            let links = n(o.links_created) + " link(s) created, "@ + n(o.skipped_links) + " link(s) skipped, "@ + n(o.links_as_dir)
                + " link(s) as dir, "@;
            let recovery = n(o.recovery_files_written.len()) + " recovery file(s) written"@;
            r@ =~= start + (" backup "@ + o.label@ + " — "@) + files + paths + links + recovery
        }),
{
}

}
