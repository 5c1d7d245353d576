use std::cell::RefCell;
use std::collections::{BTreeMap, BTreeSet};

use pgbr::compress::helper::CompressType;
use pgbr::config::{
    process_max, read_if_there, CommandError, ConfigCommandRole, LoadedConfig, OptionValue, Options, StorageError,
};
use pgbr::info::{
    BackupEntry, BlockMap, BlockRef, DbHistoryEntry, InfoBackup, Manifest, ManifestFile, ManifestLink, ManifestPath,
    RepoTransform, StorageInfo, StorageKind,
};
use pgbr::paths::{destination, join_path, parent_path};
use pgbr::restore::bundle::{bundle_layout, BundleLayout};
use pgbr::restore::copy::{
    apply_mode, assemble, bundle_paths, check_restored, copy_outcome, copy_request, find_job,
    read_bundle_slice_buffered, source_parts, take_part, CopyReply, CopyResult, RestoreCopyJob,
};
use pgbr::restore::database::{database_included, database_oid};
use pgbr::restore::delta::{
    classify_delta_match, delta_request, delta_request_decode, matched_paths, target_matches, DeltaJob, DeltaMatch,
    DeltaReply, DeltaResult,
};
use pgbr::restore::links::{
    link_all, link_plan, link_relative_name, resolve_link_target, resolve_tablespace_target, LinkPlan,
};
use pgbr::restore::plan::CopyNeed;
use pgbr::restore::recovery::{append_to_existing, recovery_files, RecoveryFile};
use pgbr::restore::resolver::{LoadError, Resolution, RestoreSource, SourceResolver};
use pgbr::restore::run::{
    choose_backup, dry_run_enabled, dry_run_notice, info_path, link_counts, next_step, restore_settings, restore_summary, LinkStep,
    RestoreOutcome, Step,
};
use pgbr::restore::select::{entry_timestamp_stop, select_backup_by_time};
use pgbr::restore::session::RestoreRun;
use pgbr::restore::stray::{RootFound, TargetEntry};
use pgbr::restore::time::{civil_seconds, parse_civil_time};
use pgbr::retry::{AfterFailure, Attempts, JobRetry};
use pgbr::textmap::TextMap;
use pgbr::verify::backup::plan_checks;

// A SHA-1 of its own, so that the digests that are compared come from elsewhere.

fn sha1_hex(bytes: &[u8]) -> String {
    let mut h: [u32; 5] = [0x6745_2301, 0xefcd_ab89, 0x98ba_dcfe, 0x1032_5476, 0xc3d2_e1f0];
    let mut data = bytes.to_vec();
    let bits = (bytes.len() as u64) * 8;
    data.push(0x80);
    while data.len() % 64 != 56 {
        data.push(0);
    }
    data.extend_from_slice(&bits.to_be_bytes());
    for block in data.chunks(64) {
        let mut w = [0u32; 80];
        for i in 0..16 {
            w[i] = u32::from_be_bytes([block[4 * i], block[4 * i + 1], block[4 * i + 2], block[4 * i + 3]]);
        }
        for i in 16..80 {
            w[i] = (w[i - 3] ^ w[i - 8] ^ w[i - 14] ^ w[i - 16]).rotate_left(1);
        }
        let [mut a, mut b, mut c, mut d, mut e] = h;
        for (i, word) in w.iter().enumerate() {
            let (f, k) = if i < 20 {
                ((b & c) | (!b & d), 0x5a82_7999_u32)
            } else if i < 40 {
                (b ^ c ^ d, 0x6ed9_eba1)
            } else if i < 60 {
                ((b & c) | (b & d) | (c & d), 0x8f1b_bcdc)
            } else {
                (b ^ c ^ d, 0xca62_c1d6)
            };
            let next = a.rotate_left(5).wrapping_add(f).wrapping_add(e).wrapping_add(k).wrapping_add(*word);
            e = d;
            d = c;
            c = b.rotate_left(30);
            b = a;
            a = next;
        }
        h[0] = h[0].wrapping_add(a);
        h[1] = h[1].wrapping_add(b);
        h[2] = h[2].wrapping_add(c);
        h[3] = h[3].wrapping_add(d);
        h[4] = h[4].wrapping_add(e);
    }
    h.iter().map(|word| format!("{word:08x}")).collect()
}

// A storage in memory.

struct Store {
    root: String,
    local: bool,
    files: RefCell<BTreeMap<String, Vec<u8>>>,
    dirs: RefCell<BTreeSet<String>>,
    links: RefCell<BTreeMap<String, String>>,
    reads: RefCell<Vec<String>>,
}

impl Store {
    fn new(root: &str, local: bool) -> Self {
        Store {
            root: root.to_owned(),
            local,
            files: RefCell::new(BTreeMap::new()),
            dirs: RefCell::new(BTreeSet::new()),
            links: RefCell::new(BTreeMap::new()),
            reads: RefCell::new(Vec::new()),
        }
    }

    fn rel<'a>(&self, path: &'a str) -> &'a str {
        match path.strip_prefix(self.root.as_str()) {
            Some(rest) => rest.trim_start_matches('/'),
            None => path,
        }
    }

    fn create_path(&self, path: &str) {
        let mut dir = String::new();
        for piece in self.rel(path).split('/').filter(|p| !p.is_empty()) {
            if !dir.is_empty() {
                dir.push('/');
            }
            dir.push_str(piece);
            self.dirs.borrow_mut().insert(dir.clone());
        }
    }

    fn holds(&self, path: &str) -> bool {
        let path = self.rel(path);
        self.files.borrow().contains_key(path)
            || self.dirs.borrow().contains(path)
            || self.links.borrow().contains_key(path)
    }

    fn info(&self, path: &str) -> Result<StorageInfo, StorageError> {
        let rel = self.rel(path);
        let (kind, size) = if rel == "." || rel.is_empty() || self.dirs.borrow().contains(rel) {
            (StorageKind::Path, 0)
        } else if let Some(bytes) = self.files.borrow().get(rel) {
            (StorageKind::File, bytes.len() as u64)
        } else if self.links.borrow().contains_key(rel) {
            (StorageKind::Link, 0)
        } else {
            return Err(StorageError::NotFound { path: path.to_owned() });
        };
        let abs = if rel == "." { self.root.clone() } else { format!("{}/{rel}", self.root) };
        Ok(StorageInfo { kind, size, path: abs })
    }

    fn read(&self, path: &str) -> Result<Vec<u8>, StorageError> {
        let rel = self.rel(path);
        self.reads.borrow_mut().push(rel.to_owned());
        match self.files.borrow().get(rel) {
            Some(bytes) => Ok(bytes.clone()),
            None => Err(StorageError::NotFound { path: path.to_owned() }),
        }
    }

    fn write(&self, path: &str, bytes: &[u8]) {
        let rel = self.rel(path).to_owned();
        if let Some((dir, _)) = rel.rsplit_once('/') {
            self.create_path(dir);
        }
        self.files.borrow_mut().insert(rel, bytes.to_vec());
    }

    fn text(&self, path: &str) -> String {
        String::from_utf8(self.files.borrow()[path].clone()).unwrap()
    }

    fn entries(&self, dir: &str) -> Vec<TargetEntry> {
        let prefix = format!("{dir}/");
        let inside = |path: &str| path.strip_prefix(prefix.as_str()).filter(|n| !n.contains('/')).map(str::to_owned);
        let mut out = Vec::new();
        for path in self.dirs.borrow().iter() {
            if let Some(name) = inside(path) {
                out.push(TargetEntry::Dir { name, entries: self.entries(path) });
            }
        }
        for path in self.files.borrow().keys() {
            if let Some(name) = inside(path) {
                out.push(TargetEntry::File { name });
            }
        }
        for path in self.links.borrow().keys() {
            if let Some(name) = inside(path) {
                out.push(TargetEntry::Other { name });
            }
        }
        out
    }
}

// A repository: objects in a store, and what its info file and manifests record.

type Maker<T> = Box<dyn Fn() -> T>;

struct Repo {
    store: Store,
    info: RefCell<Option<Maker<InfoBackup>>>,
    manifests: RefCell<BTreeMap<String, Maker<Manifest>>>,
}

impl Repo {
    fn load_info(&self) -> Result<InfoBackup, LoadError> {
        match self.info.borrow().as_ref() {
            Some(make) => Ok(make()),
            None => Err(LoadError::NotFound),
        }
    }

    fn load_manifest(&self, path: &str) -> Result<Manifest, LoadError> {
        match self.manifests.borrow().get(path) {
            Some(make) => Ok(make()),
            None => Err(LoadError::NotFound),
        }
    }
}

fn pair() -> (Repo, Store) {
    let repo = Repo {
        store: Store::new("/repo", true),
        info: RefCell::new(None),
        manifests: RefCell::new(BTreeMap::new()),
    };
    (repo, Store::new("/pg", true))
}

fn info_of(backups: &[(String, String)]) -> InfoBackup {
    let mut current = TextMap::new();
    for (label, metadata) in backups {
        current = current.insert(
            label.clone(),
            BackupEntry { metadata: metadata.clone(), transform: RepoTransform::identity() },
        );
    }
    let mut history = BTreeMap::new();
    history.insert(1, DbHistoryEntry { db_id: 6_873_049_345_984_568_091, db_version: "14".to_owned() });
    InfoBackup {
        backrest_format: 5,
        backrest_version: "2.58".to_owned(),
        db_id: 1,
        db_system_id: 6_873_049_345_984_568_091,
        db_version: "14".to_owned(),
        db_catalog_version: 202_107_181,
        db_control_version: 1300,
        current,
        history,
    }
}

fn seed_backup_info(repo: &Repo, _stanza: &str, labels: &[&str]) {
    let backups: Vec<(String, String)> = labels
        .iter()
        .map(|l| ((*l).to_owned(), format!("{{\"backup-info-size\":100,\"backup-label\":\"{l}\",\"backup-type\":\"full\"}}")))
        .collect();
    *repo.info.borrow_mut() = Some(Box::new(move || info_of(&backups)));
}

fn seed_backup_info_with_stops(repo: &Repo, _stanza: &str, stops: &[(&str, i64)]) {
    let backups = with_stops(stops);
    *repo.info.borrow_mut() = Some(Box::new(move || info_of(&backups)));
}

fn with_stops(stops: &[(&str, i64)]) -> Vec<(String, String)> {
    stops
        .iter()
        .map(|(label, stop)| {
            (
                (*label).to_owned(),
                format!(
                    "{{\"backup-info-size\":100,\"backup-label\":\"{label}\",\"backup-type\":\"full\",\
                     \"backup-timestamp-start\":{},\"backup-timestamp-stop\":{stop}}}",
                    stop - 10
                ),
            )
        })
        .collect()
}

#[derive(Clone)]
struct FileSeed {
    path: String,
    size: u64,
    checksum: Option<String>,
    reference: Option<String>,
    bundle: Option<(u64, u64)>,
    blocks: Option<Vec<(String, u64, u64, u64)>>,
}

fn file_seed(path: &str, bytes: &[u8], checksum: Option<String>) -> FileSeed {
    FileSeed { path: path.to_owned(), size: bytes.len() as u64, checksum, reference: None, bundle: None, blocks: None }
}

fn manifest_file(seed: &FileSeed) -> ManifestFile {
    ManifestFile {
        path: seed.path.clone(),
        size: seed.size,
        checksum: seed.checksum.clone(),
        reference: seed.reference.clone(),
        mode: None,
        bundle_id: seed.bundle.map(|b| b.0),
        bundle_offset: seed.bundle.map(|b| b.1),
        block_map: seed.blocks.as_ref().map(|blocks| BlockMap {
            blocks: blocks
                .iter()
                .map(|(reference, bundle_id, offset, size)| BlockRef {
                    reference: reference.clone(),
                    bundle_id: *bundle_id,
                    offset: *offset,
                    size: *size,
                })
                .collect(),
        }),
    }
}

fn seed_manifest(
    repo: &Repo,
    stanza: &str,
    label: &str,
    db_version: &str,
    files: Vec<FileSeed>,
    paths: &[&str],
    links: &[(&str, &str)],
) {
    let db_version = db_version.to_owned();
    let paths: Vec<String> = paths.iter().map(|p| (*p).to_owned()).collect();
    let links: Vec<(String, String)> = links.iter().map(|(p, d)| ((*p).to_owned(), (*d).to_owned())).collect();
    repo.manifests.borrow_mut().insert(
        format!("backup/{stanza}/{label}/backup.manifest"),
        Box::new(move || Manifest {
            db_version: db_version.clone(),
            paths: paths.iter().map(|p| ManifestPath { path: p.clone() }).collect(),
            files: files.iter().map(manifest_file).collect(),
            links: links.iter().map(|(p, d)| ManifestLink { path: p.clone(), destination: d.clone() }).collect(),
        }),
    );
}

fn seed_backup_ver(
    repo: &Repo,
    stanza: &str,
    label: &str,
    db_version: &str,
    files: &[(&str, &[u8], Option<String>)],
    paths: &[&str],
    links: &[(&str, &str)],
) {
    let seeds = files.iter().map(|(p, b, c)| file_seed(p, b, c.clone())).collect();
    seed_manifest(repo, stanza, label, db_version, seeds, paths, links);
    for (path, bytes, _) in files {
        repo.store.write(&format!("backup/{stanza}/{label}/{path}"), bytes);
    }
}

fn seed_backup(
    repo: &Repo,
    stanza: &str,
    label: &str,
    files: &[(&str, &[u8], Option<String>)],
    paths: &[&str],
    links: &[(&str, &str)],
) {
    seed_backup_ver(repo, stanza, label, "14", files, paths, links);
}

// Performing what a restore asks for.

fn restore_file(job: &RestoreCopyJob, repo: &Store, pg: &Store) -> Result<(), CommandError> {
    let mut parts = Vec::new();
    for part in source_parts(&job.source, repo.local) {
        let stored = repo.read(&part.path).map_err(CommandError::Storage)?;
        assert_eq!(part.transform.compress_type, CompressType::Uncompressed);
        parts.push(take_part(&stored, part.slice)?);
    }
    let plain = assemble(&parts);
    pg.write(&job.abs_dst, &plain);
    check_restored(&job.rel, &job.expected_checksum, &sha1_hex(&plain))
}

fn compare(job: &DeltaJob, pg: &Store) -> DeltaResult {
    let read = if pg.local {
        let (path, _) = delta_request_decode(&delta_request(job)).unwrap();
        pg.read(&path)
    } else {
        assert!(job.abs_path.is_empty());
        pg.read(&job.rel)
    };
    let reply = match read {
        Ok(bytes) => DeltaReply::Compared(sha1_hex(&bytes) == job.expected_sha),
        Err(_) => DeltaReply::Failed("unreadable".to_owned()),
    };
    DeltaResult { key: job.rel.clone(), reply }
}

fn resolve(run: RestoreRun, repo: &Repo, pg: &Store) -> Result<RestoreRun, CommandError> {
    let mut run = run;
    loop {
        run = match run.next_need()? {
            CopyNeed::Manifest { label, path } => run.told_manifest(label, repo.load_manifest(&path))?,
            CopyNeed::Info { path } => {
                let told = repo.store.info(&path);
                run.told_info(path, told)?
            }
            CopyNeed::Place { destination } => {
                let parent = match destination.parent {
                    Some(dir) => {
                        pg.create_path(&dir);
                        pg.info(&dir).map_err(CommandError::Storage)?.path
                    }
                    None => pg.info(".").map_err(CommandError::Storage)?.path,
                };
                run.placed(&parent)
            }
            CopyNeed::Complete => return Ok(run.files_resolved()),
        };
    }
}

fn copy_all(jobs: &Vec<RestoreCopyJob>, repo: &Store, pg: &Store) -> Vec<CopyResult> {
    let mut results = Vec::new();
    for job in jobs {
        let found = find_job(jobs, &copy_request(job)).unwrap();
        let reply = match restore_file(&jobs[found], repo, pg) {
            Ok(()) => CopyReply::Done,
            Err(CommandError::Other(m)) => CopyReply::Failed(m),
            Err(e) => CopyReply::Failed(format!("{e:?}")),
        };
        results.push(CopyResult { key: job.rel.clone(), reply });
    }
    results
}

fn look(pg: &Store, root: String) -> (String, RootFound) {
    let what = match pg.info(&root).map(|i| i.kind) {
        Ok(StorageKind::Path) => RootFound::Dir(pg.entries(&root)),
        Ok(StorageKind::File) => RootFound::File,
        _ => RootFound::Nothing,
    };
    (root, what)
}

fn lay(step: LinkStep, pg: &Store, made: &mut Vec<bool>) {
    match step {
        LinkStep::Directory { path } => pg.create_path(&path),
        LinkStep::Symlink { parent, path, target } => {
            if let Some(dir) = parent {
                pg.create_path(&dir);
            }
            pg.links.borrow_mut().insert(path, target);
            made.push(true);
        }
    }
}

fn restore_inner(config: LoadedConfig, repo: &Repo, pg: &Store) -> Result<RestoreOutcome, CommandError> {
    restore_told(config, repo, pg).map(|(outcome, _)| outcome)
}

fn restore_told(
    config: LoadedConfig,
    repo: &Repo,
    pg: &Store,
) -> Result<(RestoreOutcome, Vec<String>), CommandError> {
    let settings = restore_settings(&config)?;
    assert_eq!(info_path(&settings), format!("backup/{}/backup.info", settings.stanza));
    let chosen = choose_backup(&settings, &config, repo.load_info())?;
    let loaded = repo.load_manifest(&chosen.manifest_path);
    let mut run = RestoreRun::open(config, settings, chosen, None, loaded, repo.store.local, pg.local)?;
    loop {
        run = match run.step() {
            Step::LoadInfo | Step::LoadKey | Step::LoadManifest => unreachable!(),
            Step::CreatePaths => {
                run.paths_to_create().iter().for_each(|dir| pg.create_path(dir));
                run.paths_created()
            }
            Step::InspectTargets => {
                let told: Vec<Option<StorageInfo>> = run.targets().iter().map(|path| pg.info(path).ok()).collect();
                run.told_targets(&told)
            }
            Step::HashTargets => {
                let results: Vec<DeltaResult> = run.hash_jobs().iter().map(|job| compare(job, pg)).collect();
                run.told_digests(&results)
            }
            Step::ResolveFiles => resolve(run, repo, pg)?,
            Step::CopyFiles => {
                let results = copy_all(run.copy_jobs(), &repo.store, pg);
                run.copied(&results)?
            }
            Step::WalkTarget => {
                let found: Vec<(String, RootFound)> = run.roots().into_iter().map(|root| look(pg, root)).collect();
                run.told_tree(&found)
            }
            Step::RemoveStrays => {
                for path in run.strays() {
                    pg.files.borrow_mut().remove(path);
                }
                run.strays_removed()
            }
            Step::LayLinks => {
                let mut made = Vec::new();
                run.links().into_iter().for_each(|step| lay(step, pg, &mut made));
                run.links_laid(made)
            }
            Step::CopyLabels => {
                for (from, name) in run.labels() {
                    if let Some(bytes) = read_if_there(repo.store.read(&from))? {
                        pg.write(&name, &bytes);
                    }
                }
                run.labels_copied()
            }
            Step::WriteRecovery => {
                for file in run.recovery() {
                    pg.write(&file.path, &file.bytes(pg.read(&file.path))?);
                }
                run.recovery_written()
            }
            Step::Finish => {
                let lines = run.would_do();
                return Ok((run.finish(), lines));
            }
        };
    }
}

// Configurations.

fn restore_cfg(stanza: &str, options: Vec<((&str, Option<u32>), OptionValue)>) -> LoadedConfig {
    let mut all = Options::new();
    for ((name, index), value) in options {
        all.insert(name, index, value);
    }
    LoadedConfig {
        command: "restore".to_owned(),
        command_role: ConfigCommandRole::Main,
        stanza: Some(stanza.to_owned()),
        options: all,
        params: Vec::new(),
    }
}

fn text(s: &str) -> OptionValue {
    OptionValue::String(s.to_owned())
}

fn word(s: &str) -> OptionValue {
    OptionValue::StringId(s.to_owned())
}

fn pairs(list: &[(&str, &str)]) -> TextMap<String> {
    let mut map = TextMap::new();
    for (k, v) in list {
        map = map.insert((*k).to_owned(), (*v).to_owned());
    }
    map
}

fn cfg(stanza: Option<&str>, set: Option<&str>) -> LoadedConfig {
    cfg_delta(stanza, set, false)
}

fn cfg_delta(stanza: Option<&str>, set: Option<&str>, delta: bool) -> LoadedConfig {
    let mut options = Vec::new();
    if let Some(label) = set {
        options.push((("set", None), text(label)));
    }
    if delta {
        options.push((("delta", None), OptionValue::Boolean(true)));
    }
    let mut config = restore_cfg("", options);
    config.stanza = stanza.map(str::to_owned);
    config
}

fn cfg_dry_run(stanza: Option<&str>, set: Option<&str>) -> LoadedConfig {
    let mut config = cfg(stanza, set);
    config.options.insert("dry-run", None, OptionValue::Boolean(true));
    config
}

fn cfg_recovery(stanza: &str, ty: Option<&str>, target: Option<&str>, target_exclusive: bool) -> LoadedConfig {
    cfg_recovery_full(stanza, ty, target, target_exclusive, None, None)
}

fn cfg_recovery_full(
    stanza: &str,
    ty: Option<&str>,
    target: Option<&str>,
    target_exclusive: bool,
    target_action: Option<&str>,
    target_timeline: Option<&str>,
) -> LoadedConfig {
    let mut options = Vec::new();
    if let Some(ty) = ty {
        options.push((("type", None), word(ty)));
    }
    if let Some(target) = target {
        options.push((("target", None), text(target)));
    }
    if target_exclusive {
        options.push((("target-exclusive", None), OptionValue::Boolean(true)));
    }
    if let Some(action) = target_action {
        options.push((("target-action", None), word(action)));
    }
    if let Some(timeline) = target_timeline {
        options.push((("target-timeline", None), text(timeline)));
    }
    restore_cfg(stanza, options)
}

fn cfg_recovery_option(stanza: &str, ty: Option<&str>, recovery_option: &[(&str, &str)]) -> LoadedConfig {
    let mut options = Vec::new();
    if let Some(ty) = ty {
        options.push((("type", None), word(ty)));
    }
    if !recovery_option.is_empty() {
        options.push((("recovery-option", None), OptionValue::Hash(pairs(recovery_option))));
    }
    restore_cfg(stanza, options)
}

fn cfg_archive_mode(stanza: &str, mode: Option<&str>) -> LoadedConfig {
    match mode {
        Some(mode) => restore_cfg(stanza, vec![(("archive-mode", None), word(mode))]),
        None => restore_cfg(stanza, Vec::new()),
    }
}

fn other(err: CommandError) -> String {
    match err {
        CommandError::Other(m) => m,
        e => panic!("expected a message, got {e:?}"),
    }
}

const COMMAND: &str = "restore_command = 'pgbackrest --stanza=demo archive-get %f \"%p\"'";

// Whole restores.

#[test]
fn restore_copies_files_to_pg_target() {
    let (repo, pg) = pair();
    let label = "20240101-120000F";
    let a = b"PG_VERSION contents".as_slice();
    let b = b"base table page bytes".as_slice();
    seed_backup_info(&repo, "demo", &[label]);
    seed_backup(
        &repo,
        "demo",
        label,
        &[("pg_data/PG_VERSION", a, Some(sha1_hex(a))), ("pg_data/base/1/1259", b, Some(sha1_hex(b)))],
        &["pg_data", "pg_data/base", "pg_data/base/1"],
        &[],
    );
    let outcome = restore_inner(cfg(Some("demo"), None), &repo, &pg).unwrap();
    assert_eq!(outcome.files_restored, 2);
    assert_eq!(pg.read("pg_data/PG_VERSION").unwrap(), a);
    assert_eq!(pg.read("pg_data/base/1/1259").unwrap(), b);
}

#[test]
fn restore_creates_directories() {
    let (repo, pg) = pair();
    let label = "20240101-120000F";
    seed_backup_info(&repo, "demo", &[label]);
    seed_backup(&repo, "demo", label, &[], &["pg_data", "pg_data/base", "pg_data/global"], &[]);
    let outcome = restore_inner(cfg(Some("demo"), None), &repo, &pg).unwrap();
    assert_eq!(outcome.paths_created, 3);
    for dir in ["pg_data", "pg_data/base", "pg_data/global"] {
        assert_eq!(pg.info(dir).unwrap().kind, StorageKind::Path, "{dir}");
    }
}

#[test]
fn restore_into_fresh_pgdata_creates_runtime_dir_skeleton() {
    let (repo, pg) = pair();
    let label = "20240101-120000F";
    seed_backup_info(&repo, "demo", &[label]);
    seed_backup(&repo, "demo", label, &[], &["base", "base/1", "pg_notify", "pg_wal"], &[]);
    let outcome = restore_inner(cfg(Some("demo"), None), &repo, &pg).unwrap();
    assert_eq!(outcome.files_restored, 0);
    for dir in [
        "pg_wal",
        "pg_wal/archive_status",
        "pg_notify",
        "pg_replslot",
        "pg_serial",
        "pg_snapshots",
        "pg_dynshmem",
        "pg_stat_tmp",
        "pg_subtrans",
        "pg_stat",
        "pg_logical",
        "pg_logical/snapshots",
        "pg_logical/mappings",
        "pg_commit_ts",
        "pg_tblspc",
        "base/1",
    ] {
        assert_eq!(pg.info(dir).unwrap().kind, StorageKind::Path, "{dir}");
    }
}

#[test]
fn restore_dry_run_skips_runtime_dir_skeleton() {
    let (repo, pg) = pair();
    let label = "20240101-120000F";
    seed_backup_info(&repo, "demo", &[label]);
    seed_backup(&repo, "demo", label, &[], &["pg_notify"], &[]);
    restore_inner(cfg_dry_run(Some("demo"), None), &repo, &pg).unwrap();
    assert!(pg.info("pg_wal/archive_status").is_err());
    assert!(pg.info("pg_notify").is_err());
}

fn two_sets(repo: &Repo, older: &str, newer: &str) {
    let old_bytes = b"older".as_slice();
    let new_bytes = b"newer".as_slice();
    seed_backup(repo, "demo", older, &[("only/old.txt", old_bytes, Some(sha1_hex(old_bytes)))], &["only"], &[]);
    seed_backup(repo, "demo", newer, &[("only/new.txt", new_bytes, Some(sha1_hex(new_bytes)))], &["only"], &[]);
}

#[test]
fn restore_selects_latest_when_no_set() {
    let (repo, pg) = pair();
    let (older, newer) = ("20240101-120000F", "20240202-120000F");
    seed_backup_info(&repo, "demo", &[older, newer]);
    two_sets(&repo, older, newer);
    let outcome = restore_inner(cfg(Some("demo"), None), &repo, &pg).unwrap();
    assert_eq!(outcome.label, newer);
    assert!(pg.holds("only/new.txt"));
    assert!(!pg.holds("only/old.txt"));
}

#[test]
fn restore_set_selects_specific_backup() {
    let (repo, pg) = pair();
    let (older, newer) = ("20240101-120000F", "20240202-120000F");
    seed_backup_info(&repo, "demo", &[older, newer]);
    two_sets(&repo, older, newer);
    let outcome = restore_inner(cfg(Some("demo"), Some(older)), &repo, &pg).unwrap();
    assert_eq!(outcome.label, older);
    assert!(pg.holds("only/old.txt"));
    assert!(!pg.holds("only/new.txt"));
}

#[test]
fn the_set_latest_is_no_label() {
    let (repo, pg) = pair();
    let (older, newer) = ("20240101-120000F", "20240202-120000F");
    seed_backup_info(&repo, "demo", &[older, newer]);
    two_sets(&repo, older, newer);
    let outcome = restore_inner(cfg(Some("demo"), Some("latest")), &repo, &pg).unwrap();
    assert_eq!(outcome.label, newer);
}

#[test]
fn restore_checksum_mismatch_is_a_hard_error() {
    let (repo, pg) = pair();
    let label = "20240101-120000F";
    seed_backup_info(&repo, "demo", &[label]);
    seed_backup(
        &repo,
        "demo",
        label,
        &[("pg_data/corrupt", b"genuine bytes", Some("0000000000000000000000000000000000000000".to_owned()))],
        &["pg_data"],
        &[],
    );
    let message = other(restore_inner(cfg(Some("demo"), None), &repo, &pg).unwrap_err());
    assert!(message.contains("checksum mismatch"));
    assert_eq!(message, "restore checksum mismatch for pg_data/corrupt");
}

#[test]
fn restore_unknown_set_errors() {
    let (repo, pg) = pair();
    seed_backup_info(&repo, "demo", &["20240101-120000F"]);
    let err = restore_inner(cfg(Some("demo"), Some("20990909-000000F")), &repo, &pg).unwrap_err();
    assert_eq!(other(err), "backup set 20990909-000000F is not present in the repository");
}

#[test]
fn restore_no_backups_errors() {
    let (repo, pg) = pair();
    seed_backup_info(&repo, "demo", &[]);
    let err = restore_inner(cfg(Some("demo"), None), &repo, &pg).unwrap_err();
    assert_eq!(other(err), "no backups to restore");
}

#[test]
fn restore_missing_stanza_errors() {
    let (repo, pg) = pair();
    let err = restore_inner(cfg(None, None), &repo, &pg).unwrap_err();
    assert_eq!(err, CommandError::MissingOption { option: "stanza".to_owned() });
}

#[test]
fn a_missing_info_file_or_manifest_names_its_path() {
    let (repo, pg) = pair();
    let err = restore_inner(cfg(Some("demo"), None), &repo, &pg).unwrap_err();
    let path = "backup/demo/backup.info".to_owned();
    assert_eq!(err, CommandError::Storage(StorageError::NotFound { path }));
    seed_backup_info(&repo, "demo", &["20240101-120000F"]);
    let err = restore_inner(cfg(Some("demo"), None), &repo, &pg).unwrap_err();
    let path = "backup/demo/20240101-120000F/backup.manifest".to_owned();
    assert_eq!(err, CommandError::Storage(StorageError::NotFound { path }));
}

#[test]
fn an_unusable_info_file_hands_its_message_on() {
    let settings = restore_settings(&cfg(Some("demo"), None)).unwrap();
    let loaded = Err(LoadError::Unusable("bad checksum".to_owned()));
    let err = choose_backup(&settings, &cfg(Some("demo"), None), loaded).err().unwrap();
    assert_eq!(other(err), "bad checksum");
}

#[test]
fn restore_creates_symlinks() {
    let (repo, pg) = pair();
    let label = "20240101-120000F";
    seed_backup_info(&repo, "demo", &[label]);
    seed_backup(&repo, "demo", label, &[], &["pg_data"], &[("pg_data/pg_wal", "/var/lib/pg_wal")]);
    let outcome = restore_inner(cfg(Some("demo"), None), &repo, &pg).unwrap();
    assert_eq!(outcome.links_created, 1);
    assert_eq!(outcome.skipped_links, 0);
    assert_eq!(pg.links.borrow()["pg_data/pg_wal"], "/var/lib/pg_wal");
}

#[test]
fn backup_label_files_go_to_the_root() {
    let (repo, pg) = pair();
    let label = "20240101-120000F";
    seed_backup_info(&repo, "demo", &[label]);
    seed_backup(&repo, "demo", label, &[], &["pg_data"], &[]);
    repo.store.write("backup/demo/20240101-120000F/backup_label", b"START WAL LOCATION");
    restore_inner(cfg(Some("demo"), None), &repo, &pg).unwrap();
    assert_eq!(pg.text("backup_label"), "START WAL LOCATION");
    assert!(!pg.holds("tablespace_map"));
}

#[test]
fn the_summary_counts_what_was_done() {
    let (repo, pg) = pair();
    let label = "20240101-120000F";
    let a = b"a".as_slice();
    seed_backup_info(&repo, "demo", &[label]);
    seed_backup(&repo, "demo", label, &[("d/a", a, Some(sha1_hex(a)))], &["d"], &[("d/l", "/x")]);
    let outcome = restore_inner(cfg(Some("demo"), None), &repo, &pg).unwrap();
    assert_eq!(
        restore_summary(&outcome),
        "restore: backup 20240101-120000F — 1 file(s) restored, 0 skipped, 0 removed, 1 path(s) created, \
         1 link(s) created, 0 link(s) skipped, 0 link(s) as dir, 2 recovery file(s) written"
    );
    let (_, fresh) = pair();
    let outcome = restore_inner(cfg_dry_run(Some("demo"), None), &repo, &fresh).unwrap();
    assert!(restore_summary(&outcome).starts_with("dry-run: would restore backup 20240101-120000F — 1 file(s)"));
}

// Recovery settings.

fn seeded(db_version: &str) -> (Repo, Store) {
    let (repo, pg) = pair();
    seed_backup_info(&repo, "demo", &["20240101-120000F"]);
    seed_backup_ver(&repo, "demo", "20240101-120000F", db_version, &[], &["pg_data"], &[]);
    (repo, pg)
}

#[test]
fn restore_recovery_conf_for_pg11() {
    let (repo, pg) = seeded("11");
    let outcome = restore_inner(cfg_recovery("demo", None, None, false), &repo, &pg).unwrap();
    assert_eq!(outcome.recovery_files_written, vec!["recovery.conf".to_owned()]);
    assert!(pg.text("recovery.conf").contains(COMMAND));
    assert!(!pg.holds("recovery.signal"));
}

#[test]
fn restore_signal_file_for_pg14() {
    let (repo, pg) = seeded("14");
    pg.write("postgresql.auto.conf", b"# existing setting\nshared_buffers = '128MB'\n");
    let outcome = restore_inner(cfg_recovery("demo", None, None, false), &repo, &pg).unwrap();
    assert_eq!(
        outcome.recovery_files_written,
        vec!["postgresql.auto.conf".to_owned(), "recovery.signal".to_owned()]
    );
    let contents = pg.text("postgresql.auto.conf");
    assert!(contents.starts_with("# existing setting\nshared_buffers = '128MB'\n"));
    assert!(contents.contains(COMMAND));
    assert!(pg.holds("recovery.signal"));
    assert!(!pg.holds("standby.signal"));
    assert!(!pg.holds("recovery.conf"));
}

#[test]
fn restore_standby_writes_standby_signal() {
    let (repo, pg) = seeded("14");
    let outcome = restore_inner(cfg_recovery("demo", Some("standby"), None, false), &repo, &pg).unwrap();
    assert_eq!(
        outcome.recovery_files_written,
        vec!["postgresql.auto.conf".to_owned(), "standby.signal".to_owned()]
    );
    assert!(pg.holds("standby.signal"));
    assert!(!pg.holds("recovery.signal"));
    assert!(!pg.text("postgresql.auto.conf").contains("standby_mode"));
}

#[test]
fn restore_type_none_writes_no_recovery_files() {
    let (repo, pg) = seeded("14");
    let outcome = restore_inner(cfg_recovery("demo", Some("none"), None, false), &repo, &pg).unwrap();
    assert!(outcome.recovery_files_written.is_empty());
    assert!(!pg.holds("recovery.signal"));
    assert!(!pg.holds("postgresql.auto.conf"));
}

#[test]
fn restore_writes_recovery_target_settings_end_to_end() {
    let (repo, pg) = seeded("14");
    let config =
        cfg_recovery_full("demo", Some("time"), Some("2024-01-01 12:00:00"), true, Some("promote"), Some("2"));
    let outcome = restore_inner(config, &repo, &pg).unwrap();
    assert_eq!(
        outcome.recovery_files_written,
        vec!["postgresql.auto.conf".to_owned(), "recovery.signal".to_owned()]
    );
    let contents = pg.text("postgresql.auto.conf");
    for expected in [
        COMMAND,
        "recovery_target_time = '2024-01-01 12:00:00'",
        "recovery_target_inclusive = 'false'",
        "recovery_target_action = 'promote'",
        "recovery_target_timeline = '2'",
    ] {
        assert!(contents.contains(expected), "{expected:?} in {contents}");
    }
    assert!(pg.holds("recovery.signal"));
    assert!(!pg.holds("standby.signal"));
}

#[test]
fn recovery_files_pure_fn() {
    let config = cfg_recovery("demo", None, None, false);
    let pg11 = recovery_files("11", "demo", &config);
    assert_eq!(pg11.len(), 1);
    assert_eq!(pg11[0].path, "recovery.conf");
    assert!(pg11[0].contents.contains(COMMAND));
    assert_eq!(recovery_files("9.6", "demo", &config)[0].path, "recovery.conf");
    let pg14 = recovery_files("14", "demo", &config);
    assert_eq!(pg14.len(), 2);
    assert_eq!(pg14[0].path, "postgresql.auto.conf");
    assert_eq!(pg14[1].path, "recovery.signal");
    let standby = cfg_recovery("demo", Some("standby"), None, false);
    assert_eq!(recovery_files("14", "demo", &standby)[1].path, "standby.signal");
    let immediate = cfg_recovery("demo", Some("immediate"), None, false);
    assert!(recovery_files("14", "demo", &immediate)[0].contents.contains("recovery_target = 'immediate'"));
    let time = cfg_recovery("demo", Some("time"), Some("2024-01-01 12:00:00"), true);
    let files = recovery_files("11", "demo", &time);
    assert!(files[0].contents.contains("recovery_target_time = '2024-01-01 12:00:00'"));
    assert!(files[0].contents.contains("recovery_target_inclusive = 'false'"));
    let name = cfg_recovery("demo", Some("name"), Some("my_restore_point"), true);
    let files = recovery_files("11", "demo", &name);
    assert!(files[0].contents.contains("recovery_target_name = 'my_restore_point'"));
    assert!(!files[0].contents.contains("recovery_target_inclusive"));
    assert!(recovery_files("11", "demo", &standby)[0].contents.contains("standby_mode = 'on'"));
    assert!(recovery_files("14", "demo", &cfg_recovery("demo", Some("none"), None, false)).is_empty());
}

fn block(files: &[RecoveryFile]) -> &str {
    &files[0].contents
}

#[test]
fn recovery_target_action_passthrough() {
    let time = Some("2024-01-01 12:00:00");
    let config = cfg_recovery_full("demo", Some("time"), time, false, Some("promote"), None);
    assert!(block(&recovery_files("14", "demo", &config)).contains("recovery_target_action = 'promote'"));
    let config = cfg_recovery_full("demo", Some("immediate"), None, false, Some("shutdown"), None);
    assert!(block(&recovery_files("14", "demo", &config)).contains("recovery_target_action = 'shutdown'"));
    let config = cfg_recovery_full("demo", Some("time"), time, false, Some("pause"), None);
    assert!(!block(&recovery_files("14", "demo", &config)).contains("recovery_target_action"));
    let config = cfg_recovery("demo", Some("time"), time, false);
    assert!(!block(&recovery_files("14", "demo", &config)).contains("recovery_target_action"));
}

#[test]
fn recovery_target_timeline_passthrough() {
    let config = cfg_recovery_full("demo", Some("time"), Some("2024-01-01 12:00:00"), false, None, Some("3"));
    assert!(block(&recovery_files("14", "demo", &config)).contains("recovery_target_timeline = '3'"));
    assert!(block(&recovery_files("11", "demo", &config)).contains("recovery_target_timeline = '3'"));
    let config = cfg_recovery_full("demo", Some("default"), None, false, None, Some("current"));
    assert!(block(&recovery_files("14", "demo", &config)).contains("recovery_target_timeline = 'current'"));
    assert!(!block(&recovery_files("11", "demo", &config)).contains("recovery_target_timeline"));
}

#[test]
fn recovery_immediate_pins_timeline_on_pg12() {
    let config = cfg_recovery("demo", Some("immediate"), None, false);
    assert!(block(&recovery_files("14", "demo", &config)).contains("recovery_target_timeline = 'current'"));
    assert!(!block(&recovery_files("11", "demo", &config)).contains("recovery_target_timeline"));
}

#[test]
fn recovery_option_lines_appended_and_override() {
    let config = cfg_recovery_option("demo", Some("default"), &[("archive-cleanup-command", "/usr/bin/cleanup %r")]);
    let files = recovery_files("14", "demo", &config);
    assert!(block(&files).contains(COMMAND));
    assert!(block(&files).contains("archive_cleanup_command = '/usr/bin/cleanup %r'"));
    assert!(block(&files).find("archive_cleanup_command").unwrap() > block(&files).find("restore_command").unwrap());

    let config = cfg_recovery_option("demo", Some("default"), &[("restore_command", "my-custom-archive-get %f %p")]);
    let files = recovery_files("14", "demo", &config);
    assert!(block(&files).contains("restore_command = 'my-custom-archive-get %f %p'"));
    assert!(!block(&files).contains("pgbackrest --stanza=demo archive-get"));
    assert_eq!(block(&files).matches("restore_command").count(), 1);

    let config = cfg_recovery_option("demo", Some("default"), &[("restore-command", "dashed-archive-get %f %p")]);
    let files = recovery_files("14", "demo", &config);
    assert!(block(&files).contains("restore_command = 'dashed-archive-get %f %p'"));
    assert_eq!(block(&files).matches("restore_command").count(), 1);
}

#[test]
fn every_built_in_line_yields_to_an_extra_setting() {
    let mut config = cfg_recovery_option(
        "demo",
        Some("time"),
        &[
            ("recovery-target-time", "2031-01-01"),
            ("recovery_target_inclusive", "true"),
            ("recovery-target-action", "shutdown"),
            ("recovery-target-timeline", "7"),
        ],
    );
    config.options.insert("target", None, OptionValue::String("2030-01-01".to_owned()));
    config.options.insert("target-exclusive", None, OptionValue::Boolean(true));
    config.options.insert("target-action", None, OptionValue::String("promote".to_owned()));
    config.options.insert("target-timeline", None, OptionValue::String("latest".to_owned()));
    let files = recovery_files("14", "demo", &config);
    assert_eq!(
        block(&files),
        "# Recovery settings generated by pgBackRest restore\n\
         restore_command = 'pgbackrest --stanza=demo archive-get %f \"%p\"'\n\
         recovery_target_action = 'shutdown'\n\
         recovery_target_time = '2031-01-01'\n\
         recovery_target_timeline = '7'\n\
         recovery_target_inclusive = 'true'\n"
    );

    let config = cfg_recovery_option("demo", Some("immediate"), &[("recovery-target", ""), ("recovery-target-timeline", "3")]);
    let files = recovery_files("14", "demo", &config);
    assert_eq!(block(&files).matches("recovery_target ").count(), 1);
    assert_eq!(block(&files).matches("recovery_target_timeline").count(), 1);

    let config = cfg_recovery_option("demo", Some("standby"), &[("standby-mode", "off")]);
    let files = recovery_files("11", "demo", &config);
    assert!(block(&files).ends_with("standby_mode = 'off'\n"));
    assert_eq!(block(&files).matches("standby_mode").count(), 1);
}

#[test]
fn recovery_option_end_to_end() {
    let (repo, pg) = seeded("14");
    let config = cfg_recovery_option("demo", None, &[("archive-cleanup-command", "foo")]);
    let outcome = restore_inner(config, &repo, &pg).unwrap();
    assert_eq!(
        outcome.recovery_files_written,
        vec!["postgresql.auto.conf".to_owned(), "recovery.signal".to_owned()]
    );
    assert!(pg.text("postgresql.auto.conf").contains("archive_cleanup_command = 'foo'"));
}

#[test]
fn archive_mode_off_emits_archive_mode_preserve_omits() {
    let off = recovery_files("14", "demo", &cfg_archive_mode("demo", Some("off")));
    assert!(block(&off).contains("archive_mode = off"));
    let preserve = recovery_files("14", "demo", &cfg_archive_mode("demo", Some("preserve")));
    assert!(!block(&preserve).contains("archive_mode"));
    let absent = recovery_files("14", "demo", &cfg_archive_mode("demo", None));
    assert!(!block(&absent).contains("archive_mode"));
}

#[test]
fn archive_mode_off_user_recovery_option_wins() {
    let mut config = cfg_archive_mode("demo", Some("off"));
    config.options.insert("recovery-option", None, OptionValue::Hash(pairs(&[("archive-mode", "always")])));
    let files = recovery_files("14", "demo", &config);
    assert!(block(&files).contains("archive_mode = 'always'"));
    assert_eq!(block(&files).matches("archive_mode").count(), 1);
}

#[test]
fn archive_mode_off_end_to_end() {
    let (repo, pg) = seeded("14");
    restore_inner(restore_cfg("demo", vec![(("archive-mode", None), word("off"))]), &repo, &pg).unwrap();
    assert!(pg.text("postgresql.auto.conf").contains("archive_mode = off"));
}

#[test]
fn pg_version_force_overrides_recovery_format() {
    let mut config = cfg_recovery("demo", None, None, false);
    config.options.insert("pg-version-force", None, text("11"));
    let files = recovery_files("14", "demo", &config);
    assert_eq!(files.len(), 1);
    assert_eq!(files[0].path, "recovery.conf");
    let mut config = cfg_recovery("demo", None, None, false);
    config.options.insert("pg-version-force", None, text("14"));
    let files = recovery_files("11", "demo", &config);
    assert_eq!(files.len(), 2);
    assert_eq!(files[0].path, "postgresql.auto.conf");
    assert_eq!(files[1].path, "recovery.signal");
}

#[test]
fn pg_version_force_end_to_end() {
    let (repo, pg) = seeded("14");
    let outcome = restore_inner(restore_cfg("demo", vec![(("pg-version-force", None), text("11"))]), &repo, &pg).unwrap();
    assert_eq!(outcome.recovery_files_written, vec!["recovery.conf".to_owned()]);
    assert!(pg.holds("recovery.conf"));
    assert!(!pg.holds("recovery.signal"));
}

#[test]
fn the_whole_recovery_block() {
    let config = cfg_recovery_full("demo", Some("lsn"), Some("0/3000000"), true, Some("promote"), None);
    assert_eq!(
        block(&recovery_files("14", "demo", &config)),
        format!(
            "# Recovery settings generated by pgBackRest restore\n{COMMAND}\nrecovery_target_lsn = '0/3000000'\nrecovery_target_inclusive = 'false'\n\
             recovery_target_action = 'promote'\n"
        )
    );
}

#[test]
fn settings_are_appended_after_a_blank_line() {
    assert_eq!(append_to_existing(Vec::new(), "x = 1\n"), b"x = 1\n");
    assert_eq!(append_to_existing(b"a = 1\n".to_vec(), "x = 1\n"), b"a = 1\n\nx = 1\n");
    assert_eq!(append_to_existing(b"a = 1".to_vec(), "x = 1\n"), b"a = 1\n\nx = 1\n");
}

// Delta restores.

#[test]
fn delta_skips_matching_files() {
    let (repo, pg) = pair();
    let label = "20240101-120000F";
    let same = b"already identical contents".as_slice();
    let changed = b"needs restoring".as_slice();
    seed_backup_info(&repo, "demo", &[label]);
    seed_backup(
        &repo,
        "demo",
        label,
        &[("pg_data/match.txt", same, Some(sha1_hex(same))), ("pg_data/other.txt", changed, Some(sha1_hex(changed)))],
        &["pg_data"],
        &[],
    );
    pg.write("pg_data/match.txt", same);
    let outcome = restore_inner(cfg_delta(Some("demo"), None, true), &repo, &pg).unwrap();
    assert_eq!(outcome.files_skipped, 1);
    assert_eq!(outcome.files_restored, 1);
    assert_eq!(pg.read("pg_data/match.txt").unwrap(), same);
    assert_eq!(pg.read("pg_data/other.txt").unwrap(), changed);
}

#[test]
fn delta_restores_changed_files() {
    let (repo, pg) = pair();
    let label = "20240101-120000F";
    let backup_bytes = b"the canonical backup contents".as_slice();
    seed_backup_info(&repo, "demo", &[label]);
    seed_backup(
        &repo,
        "demo",
        label,
        &[("pg_data/changed.txt", backup_bytes, Some(sha1_hex(backup_bytes)))],
        &["pg_data"],
        &[],
    );
    pg.write("pg_data/changed.txt", b"stale local edits that differ");
    let outcome = restore_inner(cfg_delta(Some("demo"), None, true), &repo, &pg).unwrap();
    assert_eq!(outcome.files_restored, 1);
    assert_eq!(outcome.files_skipped, 0);
    assert_eq!(pg.read("pg_data/changed.txt").unwrap(), backup_bytes);
}

#[test]
fn delta_restores_missing_files() {
    let (repo, pg) = pair();
    let label = "20240101-120000F";
    let bytes = b"a file absent from the target".as_slice();
    seed_backup_info(&repo, "demo", &[label]);
    seed_backup(&repo, "demo", label, &[("pg_data/fresh.txt", bytes, Some(sha1_hex(bytes)))], &["pg_data"], &[]);
    let outcome = restore_inner(cfg_delta(Some("demo"), None, true), &repo, &pg).unwrap();
    assert_eq!(outcome.files_restored, 1);
    assert_eq!(outcome.files_skipped, 0);
    assert_eq!(pg.read("pg_data/fresh.txt").unwrap(), bytes);
}

#[test]
fn delta_removes_files_absent_from_manifest() {
    let (repo, pg) = pair();
    let label = "20240101-120000F";
    let bytes = b"a managed file".as_slice();
    seed_backup_info(&repo, "demo", &[label]);
    seed_backup(
        &repo,
        "demo",
        label,
        &[("pg_data/keep.txt", bytes, Some(sha1_hex(bytes)))],
        &["pg_data", "pg_data/sub"],
        &[],
    );
    pg.write("pg_data/stray.txt", b"not in the backup");
    pg.write("pg_data/sub/orphan.txt", b"also not in the backup");
    let outcome = restore_inner(cfg_delta(Some("demo"), None, true), &repo, &pg).unwrap();
    assert_eq!(outcome.files_restored, 1);
    assert_eq!(outcome.files_removed, 2);
    assert!(pg.holds("pg_data/keep.txt"));
    assert!(!pg.holds("pg_data/stray.txt"));
    assert!(!pg.holds("pg_data/sub/orphan.txt"));
}

#[test]
fn a_dry_delta_run_counts_strays_and_removes_none() {
    let (repo, pg) = pair();
    let label = "20240101-120000F";
    let bytes = b"a managed file".as_slice();
    seed_backup_info(&repo, "demo", &[label]);
    seed_backup(&repo, "demo", label, &[("top", bytes, Some(sha1_hex(bytes)))], &["pg_data"], &[]);
    pg.write("pg_data/stray.txt", b"not in the backup");
    pg.write("top", bytes);
    let mut config = cfg_delta(Some("demo"), None, true);
    config.options.insert("dry-run", None, OptionValue::Boolean(true));
    let outcome = restore_inner(config, &repo, &pg).unwrap();
    assert_eq!(outcome.files_removed, 1);
    assert_eq!(outcome.files_skipped, 1);
    assert_eq!(outcome.files_restored, 0);
    assert!(pg.holds("pg_data/stray.txt"));
}

#[test]
fn non_delta_restores_everything() {
    let (repo, pg) = pair();
    let label = "20240101-120000F";
    let same = b"already identical contents".as_slice();
    seed_backup_info(&repo, "demo", &[label]);
    seed_backup(&repo, "demo", label, &[("pg_data/match.txt", same, Some(sha1_hex(same)))], &["pg_data"], &[]);
    pg.write("pg_data/match.txt", same);
    pg.write("pg_data/stray.txt", b"untouched without delta");
    let outcome = restore_inner(cfg(Some("demo"), None), &repo, &pg).unwrap();
    assert_eq!(outcome.files_restored, 1);
    assert_eq!(outcome.files_skipped, 0);
    assert_eq!(outcome.files_removed, 0);
    assert!(pg.holds("pg_data/stray.txt"));
}

fn matches_target(pg: &Store, path: &str, file: &ManifestFile) -> bool {
    let info = pg.info(path).ok();
    let digest = pg.read(path).ok().map(|bytes| sha1_hex(&bytes));
    target_matches(info.as_ref(), digest.as_deref(), file)
}

#[test]
fn target_matches_helper() {
    let (_, pg) = pair();
    let bytes = b"helper fixture bytes".as_slice();
    let file = manifest_file(&file_seed("pg_data/h.txt", bytes, Some(sha1_hex(bytes))));
    assert!(!matches_target(&pg, "pg_data/h.txt", &file));
    pg.write("pg_data/h.txt", bytes);
    assert!(matches_target(&pg, "pg_data/h.txt", &file));
    let changed = b"helper fixturf bytes".as_slice();
    assert_eq!(changed.len(), bytes.len());
    pg.write("pg_data/h.txt", changed);
    assert!(!matches_target(&pg, "pg_data/h.txt", &file));
    pg.write("pg_data/h.txt", b"a different length entirely");
    assert!(!matches_target(&pg, "pg_data/h.txt", &file));
    let empty = manifest_file(&file_seed("pg_data/empty", b"", None));
    pg.write("pg_data/empty", b"");
    assert!(matches_target(&pg, "pg_data/empty", &empty));
}

fn delta_cfg_4(label: &str) -> LoadedConfig {
    restore_cfg(
        "demo",
        vec![
            (("set", None), text(label)),
            (("delta", None), OptionValue::Boolean(true)),
            (("process-max", None), OptionValue::Integer(4)),
        ],
    )
}

#[test]
fn delta_verify_falls_back_to_serial_on_remote_pg() {
    let (repo, _) = pair();
    let pg = Store::new("/pg", false);
    let label = "20240101-120000F";
    let same = b"matching contents".as_slice();
    let changed = b"backup content for other".as_slice();
    seed_backup_info(&repo, "demo", &[label]);
    seed_backup(
        &repo,
        "demo",
        label,
        &[("pg_data/match.txt", same, Some(sha1_hex(same))), ("pg_data/other.txt", changed, Some(sha1_hex(changed)))],
        &["pg_data"],
        &[],
    );
    pg.write("pg_data/match.txt", same);
    let outcome = restore_inner(delta_cfg_4(label), &repo, &pg).unwrap();
    assert_eq!(outcome.files_skipped, 1);
    assert_eq!(outcome.files_restored, 1);
}

#[test]
fn a_path_recorded_twice_is_compared_record_by_record_elsewhere() {
    let restored = |local: bool| {
        let (repo, _) = pair();
        let pg = Store::new("/pg", local);
        let label = "20240101-120000F";
        let (first, second) = (b"as it stands".as_slice(), b"as it should".as_slice());
        seed_backup_info(&repo, "demo", &[label]);
        let twice = vec![
            file_seed("pg_data/twice", first, Some(sha1_hex(first))),
            file_seed("pg_data/twice", second, Some(sha1_hex(second))),
        ];
        seed_manifest(&repo, "demo", label, "14", twice, &["pg_data"], &[]);
        repo.store.write(&format!("backup/demo/{label}/pg_data/twice"), second);
        pg.write("pg_data/twice", first);
        let outcome = restore_inner(delta_cfg_4(label), &repo, &pg).unwrap();
        (outcome.files_skipped, outcome.files_restored, pg.text("pg_data/twice"))
    };
    assert_eq!(restored(false), (1, 1, "as it should".to_owned()));
    assert_eq!(restored(true), (2, 0, "as it stands".to_owned()));
}

#[test]
fn delta_with_size_mismatch_short_circuits() {
    let (repo, pg) = pair();
    let label = "20240101-120000F";
    let backup = b"backup file contents that are 36 bytes".as_slice();
    seed_backup_info(&repo, "demo", &[label]);
    seed_backup(&repo, "demo", label, &[("pg_data/sized.txt", backup, Some(sha1_hex(backup)))], &["pg_data"], &[]);
    pg.write("pg_data/sized.txt", b"shorter local");
    let file = manifest_file(&file_seed("pg_data/sized.txt", backup, Some(sha1_hex(backup))));
    let info = pg.info("pg_data/sized.txt").unwrap();
    assert_eq!(classify_delta_match(Some(&info), &file, true), DeltaMatch::NoMatch);
    let outcome = restore_inner(delta_cfg_4(label), &repo, &pg).unwrap();
    assert_eq!(outcome.files_skipped, 0);
    assert_eq!(outcome.files_restored, 1);
    pg.write("pg_data/sized.txt", b"shorter local");
    assert!(!matches_target(&pg, "pg_data/sized.txt", &file));
}

#[test]
fn a_delta_request_carries_what_a_worker_needs() {
    let job = DeltaJob { rel: "a/b".to_owned(), abs_path: "/pg/a/b".to_owned(), expected_sha: "ff".to_owned() };
    let request = delta_request(&job);
    assert_eq!(request.cmd, "a/b");
    assert_eq!(delta_request_decode(&request), Ok(("/pg/a/b".to_owned(), "ff".to_owned())));
    let results = vec![
        DeltaResult { key: "x".to_owned(), reply: DeltaReply::Compared(true) },
        DeltaResult { key: "y".to_owned(), reply: DeltaReply::Compared(false) },
        DeltaResult { key: "z".to_owned(), reply: DeltaReply::Unexpected },
        DeltaResult { key: "w".to_owned(), reply: DeltaReply::Failed("gone".to_owned()) },
    ];
    assert_eq!(matched_paths(&results), vec!["x".to_owned()]);
}

// Links.

fn ts_link(oid: &str, destination: &str) -> ManifestLink {
    ManifestLink { path: format!("pg_data/pg_tblspc/{oid}"), destination: destination.to_owned() }
}

#[test]
fn tablespace_explicit_map_wins() {
    let link = ts_link("16395", "/original/ts_loc");
    let map = pairs(&[("16395", "/explicit/here")]);
    assert_eq!(resolve_tablespace_target(&link, Some(&map), Some("/all/prefix")), "/explicit/here");
}

#[test]
fn tablespace_map_all_prefix() {
    let link = ts_link("16395", "/original/ts_loc");
    assert_eq!(resolve_tablespace_target(&link, None, Some("/all/prefix")), "/all/prefix/ts_loc");
}

#[test]
fn tablespace_falls_back_to_manifest_target() {
    let link = ts_link("16395", "/original/ts_loc");
    assert_eq!(resolve_tablespace_target(&link, None, None), "/original/ts_loc");
    let wal = ManifestLink { path: "pg_data/pg_wal".to_owned(), destination: "/var/lib/pg_wal".to_owned() };
    assert_eq!(resolve_tablespace_target(&wal, None, Some("/all/prefix")), "/var/lib/pg_wal");
}

#[test]
fn resolve_link_target_mapped_and_unmapped() {
    let map = pairs(&[("pg_wal", "/mnt/fast/pg_wal")]);
    assert_eq!(resolve_link_target("pg_wal", "/var/lib/pg_wal", Some(&map)), "/mnt/fast/pg_wal");
    assert_eq!(resolve_link_target("pg_log", "/var/log/pg_log", Some(&map)), "/var/log/pg_log");
    assert_eq!(resolve_link_target("pg_wal", "/var/lib/pg_wal", None), "/var/lib/pg_wal");
}

#[test]
fn link_relative_name_strips_pgdata_prefix() {
    assert_eq!(link_relative_name("pg_data/pg_wal"), "pg_wal");
    assert_eq!(link_relative_name("pg_data/some/deep/link"), "some/deep/link");
    assert_eq!(link_relative_name("pg_wal"), "pg_wal");
}

#[test]
fn link_plan_decision_table() {
    assert_eq!(link_plan(true), LinkPlan::Symlink);
    assert_eq!(link_plan(false), LinkPlan::PlainDir);
}

fn linked(path: &str, to: &str, options: Vec<((&str, Option<u32>), OptionValue)>) -> (RestoreOutcome, Store) {
    let (repo, pg) = pair();
    seed_backup_info(&repo, "demo", &["20240101-120000F"]);
    seed_backup(&repo, "demo", "20240101-120000F", &[], &["pg_data"], &[(path, to)]);
    let outcome = restore_inner(restore_cfg("demo", options), &repo, &pg).unwrap();
    (outcome, pg)
}

#[test]
fn restore_remaps_tablespace_symlink() {
    let map = OptionValue::Hash(pairs(&[("16395", "/pg/remapped_ts")]));
    let (outcome, pg) =
        linked("pg_data/pg_tblspc/16395", "/original/ts_loc", vec![(("tablespace-map", None), map)]);
    assert_eq!(outcome.links_created, 1);
    assert_eq!(pg.links.borrow()["pg_data/pg_tblspc/16395"], "/pg/remapped_ts");
}

#[test]
fn restore_remaps_link_with_link_map() {
    let map = OptionValue::Hash(pairs(&[("pg_wal", "/pg/relocated_wal")]));
    let (outcome, pg) = linked("pg_data/pg_wal", "/var/lib/original_wal", vec![(("link-map", None), map)]);
    assert_eq!(outcome.links_created, 1);
    assert_eq!(pg.links.borrow()["pg_data/pg_wal"], "/pg/relocated_wal");
}

#[test]
fn restore_unmapped_link_keeps_recorded_destination() {
    let map = OptionValue::Hash(pairs(&[("pg_log", "/somewhere/else")]));
    let (outcome, pg) = linked("pg_data/pg_wal", "/var/lib/original_wal", vec![(("link-map", None), map)]);
    assert_eq!(outcome.links_created, 1);
    assert_eq!(pg.links.borrow()["pg_data/pg_wal"], "/var/lib/original_wal");
}

#[test]
fn a_link_map_spares_tablespaces() {
    let map = OptionValue::Hash(pairs(&[("pg_tblspc/16395", "/somewhere/else")]));
    let (_, pg) = linked("pg_data/pg_tblspc/16395", "/original/ts_loc", vec![(("link-map", None), map)]);
    assert_eq!(pg.links.borrow()["pg_data/pg_tblspc/16395"], "/original/ts_loc");
}

#[test]
fn link_all_recreates_symlink_at_stored_destination() {
    let (outcome, pg) =
        linked("pg_data/pg_wal", "/var/lib/pg_wal", vec![(("link-all", None), OptionValue::Boolean(true))]);
    assert_eq!(outcome.links_created, 1);
    assert_eq!(outcome.links_as_dir, 0);
    assert_eq!(pg.links.borrow()["pg_data/pg_wal"], "/var/lib/pg_wal");
}

#[test]
fn no_repo_symlink_suppresses_symlink_creation() {
    let (outcome, pg) = linked(
        "pg_data/pg_wal",
        "/var/lib/pg_wal",
        vec![
            (("link-all", None), OptionValue::Boolean(true)),
            (("repo-symlink", None), OptionValue::Boolean(false)),
        ],
    );
    assert_eq!(outcome.links_created, 0);
    assert_eq!(outcome.links_as_dir, 1);
    assert_eq!(pg.info("pg_data/pg_wal").unwrap().kind, StorageKind::Path);
}

#[test]
fn no_repo_symlink_via_repo1_index() {
    let (outcome, pg) =
        linked("pg_data/pg_wal", "/var/lib/pg_wal", vec![(("repo-symlink", Some(1)), OptionValue::Boolean(false))]);
    assert_eq!(outcome.links_created, 0);
    assert_eq!(outcome.links_as_dir, 1);
    assert_eq!(pg.info("pg_data/pg_wal").unwrap().kind, StorageKind::Path);
}

#[test]
fn links_that_cannot_be_made_are_counted() {
    let manifest = Manifest {
        db_version: "14".to_owned(),
        paths: Vec::new(),
        files: Vec::new(),
        links: vec![ts_link("1", "/a"), ts_link("2", "/b"), ts_link("3", "/c")],
    };
    let counts = link_counts(&cfg(Some("demo"), None), &manifest, false, &vec![true, false, true]);
    assert_eq!((counts.links_created, counts.skipped_links, counts.links_as_dir), (2, 1, 0));
    let counts = link_counts(&cfg(Some("demo"), None), &manifest, true, &Vec::new());
    assert_eq!((counts.links_created, counts.skipped_links, counts.links_as_dir), (3, 0, 0));
}

// Databases.

#[test]
fn database_included_keeps_only_included_oid() {
    let keep = vec!["16384".to_owned()];
    let none = Vec::new();
    assert!(database_included("base/16384/1259", &keep, &none));
    assert!(!database_included("base/1/1259", &keep, &none));
    assert!(database_included("pg_tblspc/16400/PG_16_202307071/16384/2619", &keep, &none));
    assert!(!database_included("pg_tblspc/16400/PG_16_202307071/1/2619", &keep, &none));
    assert!(database_included("global/pg_control", &keep, &none));
    assert!(database_included("PG_VERSION", &keep, &none));
    assert!(database_included("pg_wal/000000010000000000000001", &keep, &none));
}

#[test]
fn database_included_drops_excluded_oid() {
    let none = Vec::new();
    let drop = vec!["1".to_owned()];
    assert!(!database_included("base/1/1259", &none, &drop));
    assert!(database_included("base/16384/1259", &none, &drop));
    assert!(!database_included("pg_tblspc/16400/PG_16_202307071/1/2619", &none, &drop));
    assert!(database_included("global/pg_control", &none, &drop));
}

#[test]
fn database_included_no_filters_keeps_everything() {
    let none = Vec::new();
    assert!(database_included("base/1/1259", &none, &none));
    assert!(database_included("base/16384/1259", &none, &none));
    assert!(database_included("global/pg_control", &none, &none));
}

#[test]
fn a_file_belongs_to_one_database() {
    assert_eq!(database_oid("base/16384/1259"), Some("16384".to_owned()));
    assert_eq!(database_oid("pg_data/base/1/2"), Some("1".to_owned()));
    assert_eq!(database_oid("global/1262"), None);
    assert_eq!(database_oid("pg_data/pg_tblspc/16400/PG_16_202307071/5/2619"), Some("5".to_owned()));
    assert_eq!(database_oid("pg_tblspc/16400/PG_16_202307071/5"), None);
    assert_eq!(database_oid("pg_tblspc/16400/pgsql_tmp/5/2619"), None);
    assert_eq!(database_oid("extra/PG_16_202307071/5/2619"), None);
}

#[test]
fn database_included_both_set_is_rejected_upstream() {
    let (repo, pg) = seeded("14");
    let config = restore_cfg(
        "demo",
        vec![
            (("db-include", None), OptionValue::List(vec!["16384".to_owned()])),
            (("db-exclude", None), OptionValue::List(vec!["1".to_owned()])),
        ],
    );
    let message = other(restore_inner(config, &repo, &pg).unwrap_err());
    assert_eq!(message, "db-include and db-exclude are mutually exclusive");
}

fn databases() -> (Repo, Store) {
    let (repo, pg) = pair();
    let label = "20240101-120000F";
    let db1 = b"database 1 relation data".as_slice();
    let kept = b"database 16384 relation data".as_slice();
    let control = b"global control file bytes".as_slice();
    seed_backup_info(&repo, "demo", &[label]);
    seed_backup(
        &repo,
        "demo",
        label,
        &[
            ("base/1/1259", db1, Some(sha1_hex(db1))),
            ("base/16384/1259", kept, Some(sha1_hex(kept))),
            ("global/pg_control", control, Some(sha1_hex(control))),
        ],
        &["base", "base/1", "base/16384", "global"],
        &[],
    );
    (repo, pg)
}

#[test]
fn restore_with_db_include_skips_other_databases() {
    let (repo, pg) = databases();
    let list = OptionValue::List(vec!["16384".to_owned()]);
    let outcome = restore_inner(restore_cfg("demo", vec![(("db-include", None), list)]), &repo, &pg).unwrap();
    assert_eq!(outcome.files_restored, 2);
    assert!(pg.holds("base/16384/1259"));
    assert!(pg.holds("global/pg_control"));
    assert!(!pg.holds("base/1/1259"));
}

#[test]
fn restore_with_db_exclude_skips_excluded_database() {
    let (repo, pg) = databases();
    let list = OptionValue::List(vec!["1".to_owned()]);
    let outcome = restore_inner(restore_cfg("demo", vec![(("db-exclude", None), list)]), &repo, &pg).unwrap();
    assert_eq!(outcome.files_restored, 2);
    assert!(pg.holds("base/16384/1259"));
    assert!(pg.holds("global/pg_control"));
    assert!(!pg.holds("base/1/1259"));
}

#[test]
fn process_max_reads_option_with_serial_default() {
    let with = |v: OptionValue| restore_cfg("demo", vec![(("process-max", None), v)]);
    assert_eq!(process_max(&cfg(Some("demo"), None)), 1);
    assert_eq!(process_max(&with(OptionValue::Integer(4))), 4);
    assert_eq!(process_max(&with(OptionValue::Integer(0))), 1);
    assert_eq!(process_max(&with(OptionValue::Integer(-3))), 1);
    assert_eq!(process_max(&with(text("nope"))), 1);
}

// Which backup.

#[test]
fn parse_civil_time_round_trips_known_values() {
    assert_eq!(parse_civil_time("2024-01-01 12:00:00"), Some(1_704_110_400));
    assert_eq!(parse_civil_time("2024-01-01T12:00:00+00"), Some(1_704_110_400));
    assert_eq!(parse_civil_time("2024-01-01"), Some(1_704_067_200));
    assert_eq!(parse_civil_time("1970-01-01 00:00:00"), Some(0));
    assert_eq!(parse_civil_time("not a time"), None);
    assert_eq!(parse_civil_time("2024-13-01 00:00:00"), None);
}

#[test]
fn days_are_counted_over_leap_years() {
    assert_eq!(civil_seconds("2000-02-29"), Some(951_782_400));
    assert_eq!(civil_seconds("2000-03-01"), Some(951_868_800));
    assert_eq!(civil_seconds("1969-12-31 23:59:59"), Some(-1));
}

#[test]
fn select_backup_by_time_picks_most_recent_at_or_before_target() {
    let info = info_of(&with_stops(&[
        ("20240101-120000F", 1000),
        ("20240102-120000F", 2000),
        ("20240103-120000F", 3000),
    ]));
    assert_eq!(select_backup_by_time(&info, 2000).as_deref(), Some("20240102-120000F"));
    assert_eq!(select_backup_by_time(&info, 2500).as_deref(), Some("20240102-120000F"));
    assert_eq!(select_backup_by_time(&info, 9999).as_deref(), Some("20240103-120000F"));
    assert_eq!(select_backup_by_time(&info, 500).as_deref(), Some("20240101-120000F"));
    assert_eq!(select_backup_by_time(&info_of(&[]), 500), None);
}

#[test]
fn stop_times_are_read_from_the_metadata() {
    let entry = |metadata: &str| BackupEntry { metadata: metadata.to_owned(), transform: RepoTransform::identity() };
    assert_eq!(entry_timestamp_stop(&entry("{\"backup-timestamp-stop\": 1704110400}")), Some(1_704_110_400));
    assert_eq!(entry_timestamp_stop(&entry("{\"backup-timestamp-stop\": \"1704110400\"}")), None);
    assert_eq!(entry_timestamp_stop(&entry("{\"backup-timestamp-start\": 5}")), None);
    assert_eq!(entry_timestamp_stop(&entry("no object")), None);
}

fn timed() -> (Repo, Store, &'static str) {
    let (repo, pg) = pair();
    let (older, newer) = ("20240101-120000F", "20240103-120000F");
    seed_backup_info_with_stops(&repo, "demo", &[(older, 1_704_110_400), (newer, 1_704_283_200)]);
    two_sets(&repo, older, newer);
    (repo, pg, older)
}

#[test]
fn restore_repo_target_time_selects_backup_set() {
    let (repo, pg, older) = timed();
    let config = restore_cfg("demo", vec![(("repo-target-time", None), text("2024-01-02 00:00:00"))]);
    let outcome = restore_inner(config, &repo, &pg).unwrap();
    assert_eq!(outcome.label, older);
    assert!(pg.holds("only/old.txt"));
    assert!(!pg.holds("only/new.txt"));
}

#[test]
fn restore_type_time_target_selects_backup_set() {
    let (repo, pg, older) = timed();
    let config = restore_cfg(
        "demo",
        vec![(("type", None), word("time")), (("target", None), text("2024-01-02 00:00:00"))],
    );
    assert_eq!(restore_inner(config, &repo, &pg).unwrap().label, older);
}

// Dry runs.

#[test]
fn dry_run_restore_writes_nothing_but_reports_counts() {
    let (repo, pg) = pair();
    let label = "20240101-120000F";
    let a = b"PG_VERSION contents".as_slice();
    let b = b"base table page bytes".as_slice();
    seed_backup_info(&repo, "demo", &[label]);
    seed_backup(
        &repo,
        "demo",
        label,
        &[("pg_data/PG_VERSION", a, Some(sha1_hex(a))), ("pg_data/base/1/1259", b, Some(sha1_hex(b)))],
        &["pg_data", "pg_data/base", "pg_data/base/1"],
        &[],
    );
    let outcome = restore_inner(cfg_dry_run(Some("demo"), None), &repo, &pg).unwrap();
    assert!(outcome.dry_run);
    assert_eq!(outcome.files_restored, 2);
    assert_eq!(outcome.paths_created, 3);
    assert!(!pg.holds("pg_data/PG_VERSION"));
    assert!(!pg.holds("pg_data"));
}

#[test]
fn dry_run_restore_skips_recovery_files() {
    let (repo, pg) = seeded("14");
    let outcome = restore_inner(cfg_dry_run(Some("demo"), None), &repo, &pg).unwrap();
    assert!(outcome.recovery_files_written.iter().any(|f| f == "postgresql.auto.conf"));
    assert!(!pg.holds("postgresql.auto.conf"));
    assert!(!pg.holds("recovery.signal"));
}

#[test]
fn dry_run_option_reader_defaults_false() {
    assert!(!dry_run_enabled(&cfg(Some("demo"), None)));
    assert!(dry_run_enabled(&cfg_dry_run(Some("demo"), None)));
}

#[test]
fn a_dry_run_says_first_that_it_changes_nothing() {
    let plain = restore_settings(&cfg(Some("demo"), None)).unwrap();
    assert_eq!(dry_run_notice(&plain), None);
    let dry = restore_settings(&cfg_dry_run(Some("demo"), None)).unwrap();
    assert_eq!(dry_run_notice(&dry), Some("dry-run: no files will be restored and PGDATA will not be modified"));
}

fn linked_backup() -> (Repo, Store) {
    let (repo, pg) = pair();
    let label = "20240101-120000F";
    let (kept, gone) = (b"14\n".as_slice(), b"twelve bytes".as_slice());
    seed_backup_info(&repo, "demo", &[label]);
    seed_backup(
        &repo,
        "demo",
        label,
        &[("PG_VERSION", kept, Some(sha1_hex(kept))), ("base/1/1259", gone, Some(sha1_hex(gone)))],
        &["base", "base/1"],
        &[("pg_wal", "/wal")],
    );
    (repo, pg)
}

#[test]
fn a_dry_run_names_what_it_would_do() {
    let (repo, pg) = linked_backup();
    let mut config = cfg_dry_run(Some("demo"), None);
    config.options.insert("repo-symlink", None, OptionValue::Boolean(false));
    let (outcome, lines) = restore_told(config, &repo, &pg).unwrap();
    assert_eq!(
        lines[..3],
        [
            "dry-run: would restore PG_VERSION (3 byte(s))".to_owned(),
            "dry-run: would restore base/1/1259 (12 byte(s))".to_owned(),
            "dry-run: would create directory pg_wal (link as dir)".to_owned(),
        ]
    );
    let recovery: Vec<String> =
        outcome.recovery_files_written.iter().map(|f| format!("dry-run: would write recovery file {f}")).collect();
    assert!(!recovery.is_empty());
    assert_eq!(lines[3..], recovery[..]);
    assert_eq!(outcome.files_restored, 2);
    assert_eq!(outcome.links_as_dir, 1);
}

#[test]
fn a_dry_run_names_symlinks_and_leaves_out_matching_files() {
    let (repo, pg) = linked_backup();
    pg.write("PG_VERSION", b"14\n");
    let mut config = cfg_dry_run(Some("demo"), None);
    config.options.insert("delta", None, OptionValue::Boolean(true));
    let (outcome, lines) = restore_told(config, &repo, &pg).unwrap();
    assert_eq!(
        lines[..2],
        [
            "dry-run: would restore base/1/1259 (12 byte(s))".to_owned(),
            "dry-run: would create symlink pg_wal -> /wal".to_owned(),
        ]
    );
    assert_eq!((outcome.files_restored, outcome.files_skipped, outcome.links_created), (1, 1, 1));
}

#[test]
fn a_restore_that_works_says_nothing_of_what_it_would_do() {
    let (repo, pg) = linked_backup();
    let (outcome, lines) = restore_told(cfg(Some("demo"), None), &repo, &pg).unwrap();
    assert!(!outcome.dry_run);
    assert!(lines.is_empty());
}

#[test]
fn a_dry_run_takes_no_step_that_changes_the_target() {
    let mut steps = Vec::new();
    let mut step = Step::LoadInfo;
    while step != Step::Finish {
        steps.push(step);
        step = next_step(step, true, true);
    }
    assert_eq!(
        steps,
        vec![
            Step::LoadInfo,
            Step::LoadKey,
            Step::LoadManifest,
            Step::InspectTargets,
            Step::HashTargets,
            Step::WalkTarget,
        ]
    );
}

// Where the bytes come from.

#[test]
fn a_referenced_file_is_read_from_the_backup_that_holds_it() {
    let (repo, pg) = pair();
    let (full, diff) = ("20240101-120000F", "20240101-120000F_20240102-120000D");
    let kept = b"unchanged since the full backup".as_slice();
    let changed = b"changed in the differential one".as_slice();
    seed_backup_info(&repo, "demo", &[full, diff]);
    seed_backup(&repo, "demo", full, &[("PG_VERSION", kept, Some(sha1_hex(kept)))], &[], &[]);
    let mut referenced = file_seed("PG_VERSION", kept, Some(sha1_hex(kept)));
    referenced.reference = Some(full.to_owned());
    let own = file_seed("base/1/1259", changed, Some(sha1_hex(changed)));
    seed_manifest(&repo, "demo", diff, "14", vec![referenced, own], &["base", "base/1"], &[]);
    repo.store.write(&format!("backup/demo/{diff}/base/1/1259"), changed);
    let outcome = restore_inner(cfg(Some("demo"), Some(diff)), &repo, &pg).unwrap();
    assert_eq!(outcome.files_restored, 2);
    assert_eq!(pg.read("PG_VERSION").unwrap(), kept);
    assert_eq!(pg.read("base/1/1259").unwrap(), changed);
    assert!(repo.store.reads.borrow().contains(&format!("backup/demo/{full}/PG_VERSION")));
}

fn bundled(local: bool) -> (Repo, Store) {
    let (mut repo, pg) = pair();
    repo.store = Store::new("/repo", local);
    let label = "20240101-120000F";
    let contents: Vec<(&str, &[u8])> =
        vec![("PG_VERSION", b"14\n"), ("a", b"file-a"), ("b", b"file-bb"), ("c", b""), ("d", b"file-d")];
    let mut bundle: Vec<u8> = Vec::new();
    let mut seeds = Vec::new();
    for (path, bytes) in &contents {
        let checksum = if bytes.is_empty() { None } else { Some(sha1_hex(bytes)) };
        let mut seed = file_seed(path, bytes, checksum);
        if !bytes.is_empty() {
            seed.bundle = Some((1, bundle.len() as u64));
            bundle.extend_from_slice(bytes);
        }
        seeds.push(seed);
    }
    seed_backup_info(&repo, "demo", &[label]);
    seed_manifest(&repo, "demo", label, "14", seeds, &[], &[]);
    repo.store.write("backup/demo/20240101-120000F/bundle/1", &bundle);
    repo.store.write("backup/demo/20240101-120000F/c", b"");
    (repo, pg)
}

#[test]
fn bundled_files_are_sliced_out_of_their_bundle() {
    for local in [true, false] {
        let (repo, pg) = bundled(local);
        let outcome = restore_inner(cfg(Some("demo"), None), &repo, &pg).unwrap();
        assert_eq!(outcome.files_restored, 5);
        assert_eq!(pg.text("PG_VERSION"), "14\n");
        assert_eq!(pg.text("a"), "file-a");
        assert_eq!(pg.text("b"), "file-bb");
        assert_eq!(pg.text("c"), "");
        assert_eq!(pg.text("d"), "file-d");
    }
}

#[test]
fn block_stored_files_are_put_together() {
    let (repo, pg) = pair();
    let (full, diff) = ("20240101-120000F", "20240101-120000F_20240102-120000D");
    seed_backup_info(&repo, "demo", &[full, diff]);
    repo.store.write(&format!("backup/demo/{full}/bundle/1"), b"__first__");
    repo.store.write(&format!("backup/demo/{diff}/bundle/2"), b"second");
    let whole = b"firstsecond".as_slice();
    let mut seed = file_seed("base/1/big", whole, Some(sha1_hex(whole)));
    seed.blocks = Some(vec![(full.to_owned(), 1, 2, 5), (diff.to_owned(), 2, 0, 6)]);
    seed_manifest(&repo, "demo", diff, "14", vec![seed], &[], &[]);
    restore_inner(cfg(Some("demo"), None), &repo, &pg).unwrap();
    assert_eq!(pg.read("base/1/big").unwrap(), whole);
}

fn bundle_job(n: usize, abs_bundle: &str) -> RestoreCopyJob {
    RestoreCopyJob {
        rel: format!("dst-{n}"),
        source: RestoreSource::Bundled {
            abs_bundle: abs_bundle.to_owned(),
            repo_bundle: "backup/demo/L/bundle/1".to_owned(),
            offset: 0,
            len: 0,
            transform: RepoTransform::identity(),
        },
        abs_dst: String::new(),
        expected_checksum: None,
        mode: None,
    }
}

#[test]
fn process_max_changes_no_outcome() {
    let restored = |workers: i64| {
        let (repo, pg) = bundled(true);
        pg.write("a", b"file-a");
        let config = restore_cfg(
            "demo",
            vec![
                (("delta", None), OptionValue::Boolean(true)),
                (("process-max", None), OptionValue::Integer(workers)),
            ],
        );
        let outcome = restore_inner(config, &repo, &pg).unwrap();
        let files = pg.files.borrow().clone();
        (restore_summary(&outcome), outcome.recovery_files_written, files)
    };
    assert_eq!(restored(1), restored(4));
    assert_eq!(restored(1).2["b"], b"file-bb");
}

#[test]
fn both_ways_to_a_repository_differ_in_paths_alone() {
    let source = RestoreSource::Bundled {
        abs_bundle: "/repo/backup/demo/L/bundle/1".to_owned(),
        repo_bundle: "backup/demo/L/bundle/1".to_owned(),
        offset: 4,
        len: 6,
        transform: RepoTransform::identity(),
    };
    let (here, through) = (source_parts(&source, true), source_parts(&source, false));
    assert_eq!((here.len(), through.len()), (1, 1));
    assert_eq!(here[0].path, "/repo/backup/demo/L/bundle/1");
    assert_eq!(through[0].path, "backup/demo/L/bundle/1");
    assert_eq!(here[0].slice, Some((4, 6)));
    assert_eq!(through[0].slice, here[0].slice);
    assert_eq!(through[0].transform.compress_type, here[0].transform.compress_type);
}

#[test]
fn a_part_is_a_slice_or_the_whole_object() {
    let object = b"abcdef".to_vec();
    assert_eq!(take_part(&object, None).unwrap(), b"abcdef");
    assert_eq!(take_part(&object, Some((2, 3))).unwrap(), b"cde");
    assert_eq!(other(take_part(&object, Some((4, 3))).unwrap_err()), "bundle slice 4..+3 out of range (len 6)");
}

// Trying a copy again.

fn standalone_job(rel: &str, abs_src: &str, abs_dst: &str) -> RestoreCopyJob {
    RestoreCopyJob {
        rel: rel.to_owned(),
        source: RestoreSource::Standalone {
            abs_src: abs_src.to_owned(),
            repo_src: String::new(),
            transform: RepoTransform::identity(),
        },
        abs_dst: abs_dst.to_owned(),
        expected_checksum: None,
        mode: None,
    }
}

/// Copies a job's file as often as it may be tried; `waited` is told each wait.
fn copy_retrying(
    job: &RestoreCopyJob,
    repo: &Store,
    pg: &Store,
    retry: JobRetry,
    waited: &dyn Fn(u64),
) -> Result<(), CommandError> {
    let mut attempts = Attempts::start(retry);
    loop {
        let failure = match restore_file(job, repo, pg) {
            Ok(()) => return Ok(()),
            Err(err) => err,
        };
        match attempts.failed(failure) {
            AfterFailure::Again { attempts: left, wait_ms } => {
                waited(wait_ms);
                attempts = left;
            }
            AfterFailure::GiveUp(err) => return Err(err),
        }
    }
}

#[test]
fn restore_retries_a_failing_copy_until_it_succeeds() {
    let (repo, pg) = pair();
    let job = standalone_job("late", "/repo/late_source", "/pg/restored_late");
    let elapsed = RefCell::new(0u64);
    let policy = JobRetry::new(40, 25);
    copy_retrying(&job, &repo.store, &pg, policy, &|ms| {
        *elapsed.borrow_mut() += ms;
        if *elapsed.borrow() >= 120 {
            repo.store.write("late_source", b"recovered late");
        }
    })
    .expect("retry must recover once the source appears");
    assert_eq!(pg.read("/pg/restored_late").unwrap(), b"recovered late");
    assert_eq!(repo.store.reads.borrow().len(), 6);
}

#[test]
fn restore_errors_after_exhausting_retries() {
    let (repo, pg) = pair();
    let job = standalone_job("never", "/repo/never_exists_source", "/pg/restored_never");
    let policy = JobRetry::new(2, 0);
    let err = copy_retrying(&job, &repo.store, &pg, policy, &|ms| assert_eq!(ms, 0)).expect_err("missing source must fail");
    assert!(format!("{err:?}").contains("never"), "error must name the failing file: {err:?}");
    assert_eq!(repo.store.reads.borrow().len(), 3);
    assert!(!pg.holds("/pg/restored_never"), "no destination is written when the copy never succeeds");
}

#[test]
fn a_job_without_retries_is_tried_once() {
    let (repo, pg) = pair();
    let job = standalone_job("never", "/repo/gone", "/pg/gone");
    let err = copy_retrying(&job, &repo.store, &pg, JobRetry::none(), &|_| unreachable!()).unwrap_err();
    assert_eq!(err, CommandError::Storage(StorageError::NotFound { path: "/repo/gone".to_owned() }));
    assert_eq!(repo.store.reads.borrow().len(), 1);
}

#[test]
fn the_error_of_the_last_attempt_is_handed_on() {
    let told = |text: &str| CommandError::Other(text.to_owned());
    let left = match Attempts::start(JobRetry::new(1, 7)).failed(told("first")) {
        AfterFailure::Again { attempts, wait_ms } => {
            assert_eq!(wait_ms, 7);
            attempts
        }
        AfterFailure::GiveUp(err) => panic!("gave up: {err:?}"),
    };
    assert!(matches!(left.failed(told("second")), AfterFailure::GiveUp(err) if err == told("second")));
}

#[test]
fn the_retry_policy_comes_from_the_options() {
    let policy = |options| JobRetry::from_options(&restore_cfg("demo", options));
    assert_eq!(policy(Vec::new()), JobRetry::none());
    assert_eq!(
        policy(vec![
            (("job-retry", None), OptionValue::Integer(3)),
            (("job-retry-interval", None), OptionValue::Time(15_000)),
        ]),
        JobRetry::new(3, 15_000)
    );
    assert_eq!(policy(vec![(("job-retry", None), OptionValue::Integer(-1))]), JobRetry::none());
}

#[test]
fn bundle_pre_cache_built_once_per_bundle() {
    let jobs: Vec<RestoreCopyJob> = (0..5).map(|n| bundle_job(n, "/repo/backup/demo/L/bundle/1")).collect();
    assert_eq!(bundle_paths(&jobs, true), vec!["/repo/backup/demo/L/bundle/1".to_owned()]);
}

#[test]
fn bundle_pre_cache_skipped_on_remote_repo() {
    let jobs = vec![bundle_job(0, "/nonexistent-non-local-repo/backup/demo/L/bundle/1")];
    assert!(bundle_paths(&jobs, false).is_empty());
}

#[test]
fn a_slice_outside_its_bundle_is_refused() {
    assert_eq!(read_bundle_slice_buffered(b"abcdef", 2, 3).unwrap(), b"cde");
    assert_eq!(other(read_bundle_slice_buffered(b"abcdef", 4, 3).unwrap_err()), "bundle slice 4..+3 out of range (len 6)");
    assert!(read_bundle_slice_buffered(b"abcdef", u64::MAX, u64::MAX).is_err());
}

#[test]
fn members_of_a_bundle_end_where_the_next_begins() {
    let layout = BundleLayout::new(20, vec![12, 0, 5, 5]);
    assert_eq!(layout.member_len(0), 5);
    assert_eq!(layout.member_len(5), 7);
    assert_eq!(layout.member_len(12), 8);
    let (repo, _) = bundled(true);
    let manifest = repo.load_manifest("backup/demo/20240101-120000F/backup.manifest").unwrap();
    let layout = bundle_layout(&manifest, "20240101-120000F", 1, 22);
    assert_eq!(layout.member_len(3), 6);
    assert_eq!(layout.member_len(16), 6);
}

fn plain_resolver(local: bool) -> SourceResolver {
    let info = info_of(&[("L".to_owned(), "{}".to_owned())]);
    let manifest = Manifest { db_version: "14".to_owned(), paths: Vec::new(), files: Vec::new(), links: Vec::new() };
    SourceResolver::new(
        "demo".to_owned(),
        "L".to_owned(),
        RepoTransform::with_key(CompressType::Gz, 6, Some("key".to_owned())),
        manifest,
        info,
        Some("key".to_owned()),
        local,
    )
}

#[test]
fn a_compressed_file_lies_under_its_extension() {
    let resolver = plain_resolver(false);
    let file = manifest_file(&file_seed("base/1/1259", b"x", None));
    match resolver.resolve(&file) {
        Resolution::Found(RestoreSource::Standalone { repo_src, transform, .. }) => {
            assert_eq!(repo_src, "backup/demo/L/base/1/1259.gz");
            assert_eq!(transform.key.as_deref(), Some("key"));
        }
        _ => panic!("the source is known"),
    }
}

#[test]
fn a_local_source_needs_to_be_looked_up_once() {
    let mut resolver = plain_resolver(true);
    let file = manifest_file(&file_seed("a", b"x", None));
    let path = match resolver.resolve(&file) {
        Resolution::NeedInfo { path } => path,
        _ => panic!("nothing is known yet"),
    };
    assert_eq!(path, "backup/demo/L/a.gz");
    let told = StorageInfo { kind: StorageKind::File, size: 1, path: "/repo/backup/demo/L/a.gz".to_owned() };
    resolver.add_info(path, told);
    match resolver.resolve(&file) {
        Resolution::Found(RestoreSource::Standalone { abs_src, .. }) => assert_eq!(abs_src, "/repo/backup/demo/L/a.gz"),
        _ => panic!("the source is known"),
    }
}

#[test]
fn modes_keep_their_permission_bits() {
    assert_eq!(apply_mode(Some(0o100_640)), Some(0o640));
    assert_eq!(apply_mode(Some(0o4755)), Some(0o4755));
    assert_eq!(apply_mode(None), None);
}

#[test]
fn one_failed_copy_fails_the_restore() {
    let done = |key: &str| CopyResult { key: key.to_owned(), reply: CopyReply::Done };
    assert!(copy_outcome(&vec![done("a"), done("b")]).is_ok());
    let failed = CopyResult { key: "b".to_owned(), reply: CopyReply::Failed("read b: gone".to_owned()) };
    assert_eq!(other(copy_outcome(&vec![done("a"), failed]).unwrap_err()), "read b: gone");
    let odd = CopyResult { key: "b".to_owned(), reply: CopyReply::Unexpected };
    assert_eq!(
        other(copy_outcome(&vec![done("a"), odd]).unwrap_err()),
        "restore of b produced an unexpected response"
    );
    let jobs = vec![bundle_job(0, "/x")];
    assert_eq!(find_job(&jobs, &copy_request(&bundle_job(7, "/x"))), Err("no restore job for dst-7".to_owned()));
}

#[test]
fn paths_have_parents_and_names() {
    assert_eq!(parent_path("a/b/c"), Some("a/b".to_owned()));
    assert_eq!(parent_path("a"), Some(String::new()));
    assert_eq!(parent_path("/a"), Some("/".to_owned()));
    assert_eq!(parent_path("/"), None);
    assert_eq!(parent_path(""), None);
    let place = destination("base/1/1259").unwrap();
    assert_eq!(place.parent.as_deref(), Some("base/1"));
    assert_eq!(place.name, "1259");
    assert_eq!(destination("PG_VERSION").unwrap().parent, None);
    assert_eq!(other(destination("base/..").unwrap_err()), "cannot resolve absolute path for base/..");
    assert_eq!(join_path("/pg/base/1", "1259"), "/pg/base/1/1259");
}

// Runs and commands that belong together.

#[test]
fn a_second_delta_restore_copies_nothing() {
    let (repo, pg) = databases();
    let first = restore_inner(cfg_delta(Some("demo"), None, true), &repo, &pg).unwrap();
    assert_eq!((first.files_restored, first.files_skipped), (3, 0));
    let second = restore_inner(cfg_delta(Some("demo"), None, true), &repo, &pg).unwrap();
    assert_eq!((second.files_restored, second.files_skipped, second.files_removed), (0, 3, 0));
}

#[test]
fn every_file_is_accounted_for() {
    let (repo, pg) = databases();
    pg.write("global/pg_control", b"global control file bytes");
    let list = OptionValue::List(vec!["16384".to_owned()]);
    let config =
        restore_cfg("demo", vec![(("db-include", None), list), (("delta", None), OptionValue::Boolean(true))]);
    let outcome = restore_inner(config, &repo, &pg).unwrap();
    assert_eq!((outcome.files_restored, outcome.files_skipped), (1, 1));
}

#[test]
fn link_all_is_read_from_the_options() {
    assert!(!link_all(&cfg(Some("demo"), None)));
    assert!(link_all(&restore_cfg("demo", vec![(("link-all", None), OptionValue::Boolean(true))])));
}

#[test]
fn a_file_is_verified_where_it_is_restored_from() {
    let file = file_seed("base/1/1259", b"x", Some("ff".to_owned()));
    let transform = || RepoTransform::with_key(CompressType::Zst, 3, None);
    let info = InfoBackup {
        current: TextMap::new().insert("L".to_owned(), BackupEntry { metadata: "{}".to_owned(), transform: transform() }),
        ..info_of(&[])
    };
    let manifest = || Manifest {
        db_version: "14".to_owned(),
        paths: Vec::new(),
        files: vec![manifest_file(&file)],
        links: Vec::new(),
    };
    let checks = plan_checks("demo", "L", &info, &manifest());
    let resolver =
        SourceResolver::new("demo".to_owned(), "L".to_owned(), transform(), manifest(), info, None, false);
    match resolver.resolve(&manifest_file(&file)) {
        Resolution::Found(RestoreSource::Standalone { repo_src, .. }) => assert_eq!(repo_src, checks[0].storage_path),
        _ => panic!("the source is known"),
    }
}
