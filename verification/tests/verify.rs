use std::cell::RefCell;
use std::collections::BTreeMap;

use pgbr::compress::helper::CompressType;
use pgbr::config::{CommandError, ConfigCommandRole, LoadedConfig, OptionValue, Options, StorageError};
use pgbr::info::{
    BackupEntry, DbHistoryEntry, InfoArchive, InfoBackup, Manifest, ManifestFile, RepoTransform, StorageKind,
};
use pgbr::restore::resolver::LoadError;
use pgbr::textmap::TextMap;
use pgbr::verify::archive::{
    is_segment, split_segment_checksum, verify_archive, ArchiveEntry, SegmentContent,
};
use pgbr::verify::backup::{
    plan_checks, request_to_verify_job, verify_job, verify_job_to_request, verify_results, FileCheck, VerifyAnswer,
    VerifyReply, VerifyResult,
};
use pgbr::verify::report::{
    describe_problem, report_lines, verdict, ArchiveProblem, VerifyProblem, VerifyReport,
};
use pgbr::verify::run::VerifyRun;

// A SHA-1 of its own, so that the digests that are compared come from elsewhere.

fn sha1_hex(bytes: &[u8]) -> String {
    let mut h: [u32; 5] = [0x6745_2301, 0xefcd_ab89, 0x98ba_dcfe, 0x1032_5476, 0xc3d2_e1f0];
    let mut data = bytes.to_vec();
    let bits = (bytes.len() as u64) * 8;
    data.push(0x80);
    while data.len() % 64 != 56 {
        data.push(0);
    }
    data.extend_from_slice(&bits.to_be_bytes());
    for block in data.chunks(64) {
        let mut w = [0u32; 80];
        for i in 0..16 {
            w[i] = u32::from_be_bytes([block[4 * i], block[4 * i + 1], block[4 * i + 2], block[4 * i + 3]]);
        }
        for i in 16..80 {
            w[i] = (w[i - 3] ^ w[i - 8] ^ w[i - 14] ^ w[i - 16]).rotate_left(1);
        }
        let [mut a, mut b, mut c, mut d, mut e] = h;
        for (i, word) in w.iter().enumerate() {
            let (f, k) = if i < 20 {
                ((b & c) | (!b & d), 0x5a82_7999_u32)
            } else if i < 40 {
                (b ^ c ^ d, 0x6ed9_eba1)
            } else if i < 60 {
                ((b & c) | (b & d) | (c & d), 0x8f1b_bcdc)
            } else {
                (b ^ c ^ d, 0xca62_c1d6)
            };
            let next = a.rotate_left(5).wrapping_add(f).wrapping_add(e).wrapping_add(k).wrapping_add(*word);
            e = d;
            d = c;
            c = b.rotate_left(30);
            b = a;
            a = next;
        }
        h[0] = h[0].wrapping_add(a);
        h[1] = h[1].wrapping_add(b);
        h[2] = h[2].wrapping_add(c);
        h[3] = h[3].wrapping_add(d);
        h[4] = h[4].wrapping_add(e);
    }
    h.iter().map(|word| format!("{word:08x}")).collect()
}

// A repository in memory: its files, and what its info files and manifests record.

type Maker<T> = Box<dyn Fn() -> T>;

struct Repo {
    local: bool,
    files: RefCell<BTreeMap<String, Vec<u8>>>,
    backup_info: RefCell<Option<Maker<InfoBackup>>>,
    archive_info: RefCell<Option<Maker<InfoArchive>>>,
    manifests: RefCell<BTreeMap<String, Maker<Manifest>>>,
}

fn empty_repo() -> Repo {
    Repo {
        local: true,
        files: RefCell::new(BTreeMap::new()),
        backup_info: RefCell::new(None),
        archive_info: RefCell::new(None),
        manifests: RefCell::new(BTreeMap::new()),
    }
}

fn load<T>(made: &RefCell<Option<Maker<T>>>) -> Result<T, LoadError> {
    match made.borrow().as_ref() {
        Some(make) => Ok(make()),
        None => Err(LoadError::NotFound),
    }
}

fn cfg(stanza: Option<&str>, set: Option<&str>) -> LoadedConfig {
    let mut options = Options::new();
    if let Some(label) = set {
        options.insert("set", None, OptionValue::String(label.to_owned()));
    }
    LoadedConfig {
        command: "verify".to_owned(),
        command_role: ConfigCommandRole::Main,
        stanza: stanza.map(str::to_owned),
        options,
        params: Vec::new(),
    }
}

fn cfg_with_process_max(stanza: Option<&str>, process_max: i64) -> LoadedConfig {
    let mut config = cfg(stanza, None);
    config.options.insert("process-max", None, OptionValue::Integer(process_max));
    config
}

const SYSTEM_ID: u64 = 6_873_049_345_984_568_091;

fn history(db_id: u64) -> BTreeMap<u32, DbHistoryEntry> {
    let mut history = BTreeMap::new();
    history.insert(1, DbHistoryEntry { db_id, db_version: "14".to_owned() });
    history
}

fn info_of(labels: &[(String, CompressType)]) -> InfoBackup {
    let mut current = TextMap::new();
    for (label, compress_type) in labels {
        current = current.insert(
            label.clone(),
            BackupEntry {
                metadata: format!(
                    "{{\"backup-info-size\":100,\"backup-label\":\"{label}\",\
                     \"backup-timestamp-stop\":1704110410,\"backup-type\":\"full\"}}"
                ),
                transform: RepoTransform::with_key(*compress_type, 0, None),
            },
        );
    }
    InfoBackup {
        backrest_format: 5,
        backrest_version: "2.58".to_owned(),
        db_id: 1,
        db_system_id: SYSTEM_ID,
        db_version: "14".to_owned(),
        db_catalog_version: 202_107_181,
        db_control_version: 1300,
        current,
        history: history(SYSTEM_ID),
    }
}

fn seed_backup_info(repo: &Repo, _stanza: &str, labels: &[&str]) {
    let labels: Vec<(String, CompressType)> =
        labels.iter().map(|l| ((*l).to_owned(), CompressType::Uncompressed)).collect();
    *repo.backup_info.borrow_mut() = Some(Box::new(move || info_of(&labels)));
}

fn seed_backup_info_with_compress(repo: &Repo, _stanza: &str, entries: &[(&str, CompressType)]) {
    let labels: Vec<(String, CompressType)> = entries.iter().map(|(l, kind)| ((*l).to_owned(), *kind)).collect();
    *repo.backup_info.borrow_mut() = Some(Box::new(move || info_of(&labels)));
}

fn archive_of(system_id: u64) -> InfoArchive {
    InfoArchive {
        backrest_format: 5,
        backrest_version: "2.58".to_owned(),
        db_id: 1,
        db_system_id: system_id,
        db_version: "14".to_owned(),
        history: history(system_id),
    }
}

fn seed_archive_info(repo: &Repo, _stanza: &str) {
    *repo.archive_info.borrow_mut() = Some(Box::new(|| archive_of(SYSTEM_ID)));
}

#[derive(Clone)]
struct FileSeed {
    path: String,
    size: u64,
    checksum: Option<String>,
    reference: Option<String>,
}

fn manifest_of(files: &[FileSeed]) -> Manifest {
    Manifest {
        db_version: "14".to_owned(),
        paths: Vec::new(),
        files: files
            .iter()
            .map(|f| ManifestFile {
                path: f.path.clone(),
                size: f.size,
                checksum: f.checksum.clone(),
                reference: f.reference.clone(),
                mode: None,
                bundle_id: None,
                bundle_offset: None,
                block_map: None,
            })
            .collect(),
        links: Vec::new(),
    }
}

fn seed_manifest(repo: &Repo, stanza: &str, label: &str, files: Vec<FileSeed>) {
    repo.manifests
        .borrow_mut()
        .insert(format!("backup/{stanza}/{label}/backup.manifest"), Box::new(move || manifest_of(&files)));
}

fn write_backup_file(repo: &Repo, stanza: &str, label: &str, rel: &str, bytes: &[u8]) {
    repo.files.borrow_mut().insert(format!("backup/{stanza}/{label}/{rel}"), bytes.to_vec());
}

fn write_archive_segment(repo: &Repo, stanza: &str, segment: &str, bytes: &[u8]) {
    repo.files.borrow_mut().insert(format!("archive/{stanza}/{segment}"), bytes.to_vec());
}

fn file_entry(path: &str, bytes: &[u8], checksum: Option<String>) -> FileSeed {
    FileSeed { path: path.to_owned(), size: bytes.len() as u64, checksum, reference: None }
}

fn referenced_entry(path: &str, bytes: &[u8], reference: &str) -> FileSeed {
    FileSeed {
        path: path.to_owned(),
        size: bytes.len() as u64,
        checksum: Some(sha1_hex(bytes)),
        reference: Some(reference.to_owned()),
    }
}

// A stand-in for the codecs: the name of the kind, then every byte changed.

fn kind_name(kind: CompressType) -> String {
    format!("{kind:?}:")
}

fn forward(kind: CompressType, plain: &[u8]) -> Vec<u8> {
    if kind == CompressType::Uncompressed {
        return plain.to_vec();
    }
    let mut out = kind_name(kind).into_bytes();
    out.extend(plain.iter().map(|byte| byte ^ 0x5a));
    out
}

fn backward(kind: CompressType, stored: &[u8]) -> Result<Vec<u8>, String> {
    if kind == CompressType::Uncompressed {
        return Ok(stored.to_vec());
    }
    match stored.strip_prefix(kind_name(kind).as_bytes()) {
        Some(rest) => Ok(rest.iter().map(|byte| byte ^ 0x5a).collect()),
        None => Err(format!("not {kind:?} data")),
    }
}

// Performing what a verification asks for.

fn hash(check: &FileCheck, repo: &Repo) -> VerifyAnswer {
    let abs_path = if repo.local { format!("/repo/{}", check.storage_path) } else { String::new() };
    let request = verify_job_to_request(&verify_job(check, abs_path));
    let (abs_path, _, storage_path) = request_to_verify_job(&request).unwrap();
    let path = if abs_path.is_empty() { storage_path } else { abs_path["/repo/".len()..].to_owned() };
    let reply = match backward(check.transform.compress_type, &repo.files.borrow()[&path]) {
        Ok(plain) => VerifyReply::Hashed { sha: Some(sha1_hex(&plain)), size: Some(plain.len() as u64) },
        Err(message) => VerifyReply::Failed(message),
    };
    VerifyAnswer { key: request.cmd, reply }
}

fn archive_entries(repo: &Repo, stanza: &str) -> Vec<ArchiveEntry> {
    let prefix = format!("archive/{stanza}/");
    let mut entries = Vec::new();
    for (path, bytes) in repo.files.borrow().iter() {
        if let Some(name) = path.strip_prefix(prefix.as_str()) {
            entries.push(ArchiveEntry {
                name: name.to_owned(),
                kind: StorageKind::File,
                content: SegmentContent::Read { sha1: sha1_hex(bytes) },
            });
        }
    }
    entries
}

fn verify_inner(config: &LoadedConfig, repo: &Repo) -> Result<VerifyReport, CommandError> {
    let mut run = VerifyRun::start(config, load(&repo.backup_info), &load(&repo.archive_info))?;
    while let Some(path) = run.next_manifest() {
        let loaded = match repo.manifests.borrow().get(&path) {
            Some(make) => Ok(make()),
            None => Err(LoadError::NotFound),
        };
        run = run.told_manifest(loaded)?;
        let checks = run.next_checks().unwrap();
        let there: Vec<bool> = checks.iter().map(|c| repo.files.borrow().contains_key(&c.storage_path)).collect();
        let mut answers = Vec::new();
        for (check, found) in checks.iter().zip(&there) {
            if *found {
                answers.push(hash(check, repo));
            }
        }
        run = run.backup_checked(&there, &verify_results(&answers)?)?;
    }
    Ok(run.finish(&archive_entries(repo, config.stanza.as_ref().unwrap())))
}

#[test]
fn verify_clean_backup_has_no_problems() {
    let repo = empty_repo();
    let label = "20240101-120000F";

    let a = b"PG_VERSION contents\n";
    let b = b"some heap page bytes \x00\x01\x02";

    seed_backup_info(&repo, "demo", &[label]);
    seed_manifest(
        &repo,
        "demo",
        label,
        vec![
            file_entry("pg_data/PG_VERSION", a, Some(sha1_hex(a))),
            file_entry("pg_data/base/1/1259", b, Some(sha1_hex(b))),
        ],
    );
    write_backup_file(&repo, "demo", label, "pg_data/PG_VERSION", a);
    write_backup_file(&repo, "demo", label, "pg_data/base/1/1259", b);

    let report = verify_inner(&cfg(Some("demo"), None), &repo).expect("verify_inner");
    assert!(report.problems.is_empty(), "clean backup must report no problems: {report:?}");
    assert_eq!(report.files_checked, 2);
    assert_eq!(report.backups_checked, 1);
    assert_eq!(report.backups.len(), 1);
    assert_eq!(report.backups[0].valid, 2);
    assert_eq!(report.backups[0].total, 2);
    assert!(report.backups[0].errors.is_empty());
}

#[test]
fn verify_detects_missing_file() {
    let repo = empty_repo();
    let label = "20240101-120000F";

    let a = b"present file";
    let b = b"this one is never written to disk";

    seed_backup_info(&repo, "demo", &[label]);
    seed_manifest(
        &repo,
        "demo",
        label,
        vec![
            file_entry("pg_data/present", a, Some(sha1_hex(a))),
            file_entry("pg_data/absent", b, Some(sha1_hex(b))),
        ],
    );
    write_backup_file(&repo, "demo", label, "pg_data/present", a);

    let report = verify_inner(&cfg(Some("demo"), None), &repo).expect("verify_inner");
    assert_eq!(report.files_checked, 2);
    assert_eq!(report.problems.len(), 1);
    assert_eq!(
        report.problems[0],
        VerifyProblem::MissingFile {
            backup: label.to_owned(),
            path: "pg_data/absent".to_owned(),
        }
    );
    assert_eq!(report.backups[0].valid, 1);
    assert_eq!(report.backups[0].total, 2);
    assert!(
        report.backups[0].errors.iter().any(|e| e.contains("pg_data/absent")),
        "backup errors must name the missing file: {:?}",
        report.backups[0].errors
    );
}

#[test]
fn verify_detects_checksum_mismatch() {
    let repo = empty_repo();
    let label = "20240101-120000F";

    let bytes = b"the real file content";
    let wrong = "0000000000000000000000000000000000000000".to_owned();

    seed_backup_info(&repo, "demo", &[label]);
    seed_manifest(
        &repo,
        "demo",
        label,
        vec![file_entry("pg_data/corrupt", bytes, Some(wrong.clone()))],
    );
    write_backup_file(&repo, "demo", label, "pg_data/corrupt", bytes);

    let report = verify_inner(&cfg(Some("demo"), None), &repo).expect("verify_inner");
    assert_eq!(report.files_checked, 1);
    assert_eq!(report.problems.len(), 1);
    assert_eq!(
        report.problems[0],
        VerifyProblem::ChecksumMismatch {
            backup: label.to_owned(),
            path: "pg_data/corrupt".to_owned(),
            expected: wrong,
            actual: sha1_hex(bytes),
        }
    );
}

#[test]
fn verify_missing_stanza_errors() {
    let repo = empty_repo();
    let err = verify_inner(&cfg(None, None), &repo).expect_err("verify requires a stanza");
    match err {
        CommandError::MissingOption { option } => assert_eq!(option, "stanza"),
        other => panic!("expected MissingOption, got {other:?}"),
    }
}

#[test]
fn verify_set_selects_single_backup() {
    let repo = empty_repo();
    let first = "20240101-120000F";
    let second = "20240102-120000F";

    seed_backup_info(&repo, "demo", &[first, second]);

    let a = b"first backup file";
    seed_manifest(&repo, "demo", first, vec![file_entry("pg_data/a", a, Some(sha1_hex(a)))]);
    write_backup_file(&repo, "demo", first, "pg_data/a", a);

    let b = b"second backup file";
    seed_manifest(&repo, "demo", second, vec![file_entry("pg_data/b", b, Some(sha1_hex(b)))]);
    write_backup_file(&repo, "demo", second, "pg_data/b", b);

    let report = verify_inner(&cfg(Some("demo"), Some(first)), &repo).expect("verify_inner");
    assert_eq!(report.backups_checked, 1);
    assert_eq!(report.files_checked, 1);
    assert!(report.problems.is_empty());
}

#[test]
fn verify_multi_backup_with_references_all_valid() {
    let repo = empty_repo();
    let full = "20240101-120000F";
    let diff = "20240101-120000F_20240102-120000D";

    seed_backup_info(&repo, "demo", &[full, diff]);
    seed_archive_info(&repo, "demo");

    let unchanged = b"unchanged heap page";
    let changed_old = b"original";
    let changed_new = b"modified in diff";

    seed_manifest(
        &repo,
        "demo",
        full,
        vec![
            file_entry("base/1/unchanged", unchanged, Some(sha1_hex(unchanged))),
            file_entry("base/1/changed", changed_old, Some(sha1_hex(changed_old))),
        ],
    );
    write_backup_file(&repo, "demo", full, "base/1/unchanged", unchanged);
    write_backup_file(&repo, "demo", full, "base/1/changed", changed_old);

    seed_manifest(
        &repo,
        "demo",
        diff,
        vec![
            referenced_entry("base/1/unchanged", unchanged, full),
            file_entry("base/1/changed", changed_new, Some(sha1_hex(changed_new))),
        ],
    );
    write_backup_file(&repo, "demo", diff, "base/1/changed", changed_new);

    let report = verify_inner(&cfg(Some("demo"), None), &repo).expect("verify_inner");
    assert_eq!(report.backups_checked, 2);
    assert_eq!(report.files_checked, 4, "2 full + 2 diff (referenced counts)");
    assert!(
        report.problems.is_empty(),
        "all checksums valid → no problems: {:?}",
        report.problems
    );
    assert!(
        report.info_problems.is_empty(),
        "info files agree: {:?}",
        report.info_problems
    );
    for b in &report.backups {
        assert_eq!(b.valid, b.total, "backup {} should be fully valid", b.label);
    }
}

#[test]
fn verify_detects_corrupt_file_in_repo() {
    let repo = empty_repo();
    let first = "20240101-120000F";
    let second = "20240102-120000F";

    seed_backup_info(&repo, "demo", &[first, second]);

    let clean = b"clean bytes";
    seed_manifest(
        &repo,
        "demo",
        first,
        vec![file_entry("base/clean", clean, Some(sha1_hex(clean)))],
    );
    write_backup_file(&repo, "demo", first, "base/clean", clean);

    let intended = b"the intended content";
    seed_manifest(
        &repo,
        "demo",
        second,
        vec![file_entry("base/corrupt", intended, Some(sha1_hex(intended)))],
    );
    let tampered = b"TAMPERED on-disk!!!!";
    assert_eq!(tampered.len(), intended.len(), "tampered bytes must match the intended size");
    write_backup_file(&repo, "demo", second, "base/corrupt", tampered);

    let report = verify_inner(&cfg(Some("demo"), None), &repo).expect("verify_inner");
    assert_eq!(report.problems.len(), 1);
    match &report.problems[0] {
        VerifyProblem::ChecksumMismatch { backup, path, .. } => {
            assert_eq!(backup, second);
            assert_eq!(path, "base/corrupt");
        }
        other => panic!("expected ChecksumMismatch, got {other:?}"),
    }
    let first_summary = report.backups.iter().find(|b| b.label == first).unwrap();
    assert!(first_summary.errors.is_empty());
    let second_summary = report.backups.iter().find(|b| b.label == second).unwrap();
    assert_eq!(second_summary.valid, 0);
    assert!(
        second_summary.errors.iter().any(|e| e.contains("base/corrupt")),
        "second backup errors must name the corrupt file: {:?}",
        second_summary.errors
    );
}

#[test]
fn verify_detects_missing_referenced_file() {
    let repo = empty_repo();
    let full = "20240101-120000F";
    let diff = "20240101-120000F_20240102-120000D";

    seed_backup_info(&repo, "demo", &[full, diff]);

    seed_manifest(&repo, "demo", full, Vec::new());

    let gone = b"bytes that were supposed to be in the full";
    seed_manifest(&repo, "demo", diff, vec![referenced_entry("base/1/gone", gone, full)]);

    let report = verify_inner(&cfg(Some("demo"), None), &repo).expect("verify_inner");
    assert_eq!(report.problems.len(), 1);
    assert_eq!(
        report.problems[0],
        VerifyProblem::MissingFile {
            backup: diff.to_owned(),
            path: "base/1/gone".to_owned(),
        }
    );
}

#[test]
fn verify_info_mismatch_recorded_not_thrown() {
    let repo = empty_repo();
    let label = "20240101-120000F";
    seed_backup_info(&repo, "demo", &[label]);

    *repo.archive_info.borrow_mut() = Some(Box::new(|| archive_of(1234)));

    let a = b"x";
    seed_manifest(&repo, "demo", label, vec![file_entry("base/a", a, Some(sha1_hex(a)))]);
    write_backup_file(&repo, "demo", label, "base/a", a);

    let report = verify_inner(&cfg(Some("demo"), None), &repo).expect("verify_inner completes");
    assert!(
        report.info_problems.iter().any(|n| n.contains("db mismatch")),
        "expected a db-mismatch note: {:?}",
        report.info_problems
    );
    assert!(report.total_problems() >= 1);
}

#[test]
fn verify_archive_presence_only_for_flat_layout() {
    let repo = empty_repo();
    let label = "20240101-120000F";
    seed_backup_info(&repo, "demo", &[label]);
    seed_manifest(&repo, "demo", label, Vec::new());

    write_archive_segment(&repo, "demo", "000000010000000000000001", b"wal one");
    write_archive_segment(&repo, "demo", "000000010000000000000002", b"wal two");

    let report = verify_inner(&cfg(Some("demo"), None), &repo).expect("verify_inner");
    assert_eq!(report.archive.total, 2);
    assert_eq!(report.archive.valid, 2);
    assert_eq!(report.archive.presence_only, 2);
    assert_eq!(report.archive.checksum_verified, 0);
    assert!(report.archive.problems.is_empty());
}

#[test]
fn verify_archive_checksum_segments_valid_and_tampered() {
    let repo = empty_repo();
    let label = "20240101-120000F";
    seed_backup_info(&repo, "demo", &[label]);
    seed_manifest(&repo, "demo", label, Vec::new());

    let good = b"valid wal segment bytes";
    let good_name = format!("000000010000000000000003-{}", sha1_hex(good));
    write_archive_segment(&repo, "demo", &good_name, good);

    let intended = b"intended wal bytes";
    let bad_name = format!("000000010000000000000004-{}", sha1_hex(intended));
    write_archive_segment(&repo, "demo", &bad_name, b"tampered wal bytes!!");

    let report = verify_inner(&cfg(Some("demo"), None), &repo).expect("verify_inner");
    assert_eq!(report.archive.total, 2);
    assert_eq!(report.archive.valid, 1);
    assert_eq!(report.archive.checksum_verified, 1);
    assert_eq!(report.archive.problems.len(), 1);
    match &report.archive.problems[0] {
        ArchiveProblem::ChecksumMismatch {
            segment,
            expected,
            actual,
        } => {
            assert_eq!(segment, &bad_name);
            assert_eq!(expected, &sha1_hex(intended));
            assert_eq!(actual, &sha1_hex(b"tampered wal bytes!!"));
        }
        other @ ArchiveProblem::Unreadable { .. } => panic!("expected ChecksumMismatch, got {other:?}"),
    }
}

#[test]
fn verify_clean_compressed_backup_passes_when_suffix_matches() {
    let repo = empty_repo();
    let full_gz = "20240101-120000F";
    let full_zst = "20240102-120000F";
    seed_backup_info_with_compress(&repo, "demo", &[(full_gz, CompressType::Gz), (full_zst, CompressType::Zst)]);

    // One file of its own, and one that the other backup holds in another kind.
    let own = b"PG_VERSION contents\n";
    let referenced_bytes = b"shared heap page bytes that the zst backup physically holds";
    seed_manifest(
        &repo,
        "demo",
        full_gz,
        vec![
            file_entry("pg_data/PG_VERSION", own, Some(sha1_hex(own))),
            referenced_entry("pg_data/base/1/1259", referenced_bytes, full_zst),
        ],
    );
    seed_manifest(
        &repo,
        "demo",
        full_zst,
        vec![file_entry("pg_data/base/1/1259", referenced_bytes, Some(sha1_hex(referenced_bytes)))],
    );
    write_backup_file(&repo, "demo", full_gz, "pg_data/PG_VERSION.gz", &forward(CompressType::Gz, own));
    write_backup_file(
        &repo,
        "demo",
        full_zst,
        "pg_data/base/1/1259.zst",
        &forward(CompressType::Zst, referenced_bytes),
    );

    let report = verify_inner(&cfg(Some("demo"), None), &repo).expect("verify_inner");
    assert!(
        report.problems.is_empty(),
        "a clean compressed backup must report ZERO problems; got: {:?}",
        report.problems
    );
    assert_eq!(report.backups.len(), 2);
    for backup in &report.backups {
        assert!(
            backup.errors.is_empty(),
            "backup {}'s per-backup errors must be empty: {:?}",
            backup.label,
            backup.errors,
        );
        assert_eq!(
            backup.valid, backup.total,
            "every file in {} must be valid (got {}/{})",
            backup.label, backup.valid, backup.total
        );
    }
    assert_eq!(report.files_checked, 3);
}

#[test]
fn verify_corrupt_compressed_file_is_checksum_mismatch_not_missing() {
    let repo = empty_repo();
    let label = "20240101-120000F";
    seed_backup_info_with_compress(&repo, "demo", &[(label, CompressType::Gz)]);

    let plaintext = b"the relation bytes that compress and round-trip cleanly when intact";
    let intended_sha = sha1_hex(plaintext);
    seed_manifest(
        &repo,
        "demo",
        label,
        vec![file_entry("pg_data/base/1/1259", plaintext, Some(intended_sha))],
    );

    let mut gz = forward(CompressType::Gz, plaintext);
    assert!(gz.len() > 1, "gz output must be at least 2 bytes to truncate");
    gz.pop();
    write_backup_file(&repo, "demo", label, "pg_data/base/1/1259.gz", &gz);

    let report = verify_inner(&cfg(Some("demo"), None), &repo).expect("verify_inner");
    assert!(
        !report.problems.iter().any(|p| matches!(p, VerifyProblem::MissingFile { .. })),
        "a corrupt .gz must NOT surface as MissingFile; problems: {:?}",
        report.problems,
    );
    assert!(
        report
            .problems
            .iter()
            .any(|p| matches!(p, VerifyProblem::ChecksumMismatch { .. } | VerifyProblem::SizeMismatch { .. })),
        "the corruption must be detected as a checksum or size mismatch: {:?}",
        report.problems,
    );

    // Bytes that cannot be undone at all fail the run with a message.
    write_backup_file(&repo, "demo", label, "pg_data/base/1/1259.gz", b"?");
    match verify_inner(&cfg(Some("demo"), None), &repo) {
        Err(CommandError::Other(message)) => {
            assert!(!message.is_empty(), "a decompression failure should carry a non-empty message");
        }
        other => panic!("expected an error, got {other:?}"),
    }
}

#[test]
fn split_segment_checksum_recognizes_layouts() {
    assert!(split_segment_checksum("000000010000000000000001").is_none());
    let name = "000000010000000000000001-1234567890abcdef1234567890abcdef12345678";
    let parts = ("000000010000000000000001".to_owned(), "1234567890abcdef1234567890abcdef12345678".to_owned());
    assert_eq!(split_segment_checksum(name), Some(parts.clone()));
    let gz = "000000010000000000000001-1234567890abcdef1234567890abcdef12345678.gz";
    assert_eq!(split_segment_checksum(gz), Some(parts));
    assert!(split_segment_checksum("000000010000000000000001-notachecksum").is_none());
}

#[test]
fn verify_parallel_local_baseline() {
    let repo = empty_repo();
    let label = "20240101-120000F";

    let a = b"PG_VERSION contents\n";
    let b = b"some heap page bytes \x00\x01\x02";
    let c = b"another relation byte stream";

    seed_backup_info(&repo, "demo", &[label]);
    seed_manifest(
        &repo,
        "demo",
        label,
        vec![
            file_entry("pg_data/PG_VERSION", a, Some(sha1_hex(a))),
            file_entry("pg_data/base/1/1259", b, Some(sha1_hex(b))),
            file_entry("pg_data/base/1/1260", c, Some(sha1_hex(c))),
        ],
    );
    write_backup_file(&repo, "demo", label, "pg_data/PG_VERSION", a);
    write_backup_file(&repo, "demo", label, "pg_data/base/1/1259", b);
    write_backup_file(&repo, "demo", label, "pg_data/base/1/1260", c);

    let report = verify_inner(&cfg_with_process_max(Some("demo"), 4), &repo).expect("verify_inner");
    assert!(
        report.problems.is_empty(),
        "clean parallel verify must report no problems: {:?}",
        report.problems
    );
    assert_eq!(report.files_checked, 3);
    assert_eq!(report.backups_checked, 1);
    assert_eq!(report.backups.len(), 1);
    assert_eq!(report.backups[0].valid, 3);
    assert_eq!(report.backups[0].total, 3);
    assert!(report.backups[0].errors.is_empty());
}

#[test]
fn verify_remote_fallback_serial() {
    let repo = Repo { local: false, ..empty_repo() };
    let label = "20240101-120000F";

    let a = b"PG_VERSION contents\n";
    let b = b"some heap page bytes \x00\x01\x02";
    let c = b"another relation byte stream";

    seed_backup_info(&repo, "demo", &[label]);
    seed_manifest(
        &repo,
        "demo",
        label,
        vec![
            file_entry("pg_data/PG_VERSION", a, Some(sha1_hex(a))),
            file_entry("pg_data/base/1/1259", b, Some(sha1_hex(b))),
            file_entry("pg_data/base/1/1260", c, Some(sha1_hex(c))),
        ],
    );
    write_backup_file(&repo, "demo", label, "pg_data/PG_VERSION", a);
    write_backup_file(&repo, "demo", label, "pg_data/base/1/1259", b);
    write_backup_file(&repo, "demo", label, "pg_data/base/1/1260", c);

    let report = verify_inner(&cfg_with_process_max(Some("demo"), 4), &repo).expect("verify_inner");
    assert!(
        report.problems.is_empty(),
        "non-local serial verify must report no problems: {:?}",
        report.problems
    );
    assert_eq!(report.files_checked, 3);
    assert_eq!(report.backups_checked, 1);
    assert_eq!(report.backups[0].valid, 3);
    assert_eq!(report.backups[0].total, 3);
}

#[test]
fn verify_error_aggregation() {
    let repo = empty_repo();
    let label = "20240101-120000F";

    let clean1 = b"first clean file bytes";
    let clean2 = b"second clean file bytes";

    let size_mismatch_bytes = b"SIZE";

    let csum_mismatch_bytes = b"the real bytes (wrong checksum recorded)";
    let wrong_csum = "0000000000000000000000000000000000000000".to_owned();

    let size_mismatch_entry = FileSeed {
        path: "pg_data/oversized".to_owned(),
        size: 99,
        checksum: Some(sha1_hex(size_mismatch_bytes)),
        reference: None,
    };

    seed_backup_info(&repo, "demo", &[label]);
    seed_manifest(
        &repo,
        "demo",
        label,
        vec![
            file_entry("pg_data/clean_a", clean1, Some(sha1_hex(clean1))),
            file_entry("pg_data/clean_b", clean2, Some(sha1_hex(clean2))),
            size_mismatch_entry,
            file_entry("pg_data/bad_csum", csum_mismatch_bytes, Some(wrong_csum.clone())),
        ],
    );
    write_backup_file(&repo, "demo", label, "pg_data/clean_a", clean1);
    write_backup_file(&repo, "demo", label, "pg_data/clean_b", clean2);
    write_backup_file(&repo, "demo", label, "pg_data/oversized", size_mismatch_bytes);
    write_backup_file(&repo, "demo", label, "pg_data/bad_csum", csum_mismatch_bytes);

    let report = verify_inner(&cfg_with_process_max(Some("demo"), 4), &repo).expect("verify_inner");

    assert_eq!(report.files_checked, 4);
    assert_eq!(report.problems.len(), 2, "must collect BOTH problems: {:?}", report.problems);
    let summary = report.backups.iter().find(|b| b.label == label).expect("backup summary");
    assert_eq!(summary.total, 4);
    assert_eq!(summary.valid, 2, "2 clean files must be counted valid");
    assert_eq!(summary.errors.len(), 2, "one entry per problem: {:?}", summary.errors);

    let mut saw_size = false;
    let mut saw_csum = false;
    for problem in &report.problems {
        match problem {
            VerifyProblem::SizeMismatch {
                backup,
                path,
                expected,
                actual,
            } => {
                assert_eq!(backup, label);
                assert_eq!(path, "pg_data/oversized");
                assert_eq!(*expected, 99);
                assert_eq!(*actual, size_mismatch_bytes.len() as u64);
                saw_size = true;
            }
            VerifyProblem::ChecksumMismatch {
                backup,
                path,
                expected,
                actual,
            } => {
                assert_eq!(backup, label);
                assert_eq!(path, "pg_data/bad_csum");
                assert_eq!(expected, &wrong_csum);
                assert_eq!(actual, &sha1_hex(csum_mismatch_bytes));
                saw_csum = true;
            }
            other @ VerifyProblem::MissingFile { .. } => panic!("unexpected problem: {other:?}"),
        }
    }
    assert!(saw_size, "size mismatch must be reported: {:?}", report.problems);
    assert!(saw_csum, "checksum mismatch must be reported: {:?}", report.problems);
}

// What stands in the reports, and what goes wrong on the way to them.

#[test]
fn a_missing_info_file_or_manifest_fails_the_run() {
    let repo = empty_repo();
    let err = verify_inner(&cfg(Some("demo"), None), &repo).unwrap_err();
    assert_eq!(err, CommandError::Storage(StorageError::NotFound { path: "backup/demo/backup.info".to_owned() }));
    seed_backup_info(&repo, "demo", &["20240101-120000F"]);
    let err = verify_inner(&cfg(Some("demo"), None), &repo).unwrap_err();
    let path = "backup/demo/20240101-120000F/backup.manifest".to_owned();
    assert_eq!(err, CommandError::Storage(StorageError::NotFound { path }));
}

#[test]
fn unusable_files_hand_their_message_on() {
    let config = cfg(Some("demo"), None);
    let unusable = || LoadError::Unusable("bad checksum".to_owned());
    let err = VerifyRun::start(&config, Err(unusable()), &Err(LoadError::NotFound)).err().unwrap();
    assert_eq!(err, CommandError::Other("bad checksum".to_owned()));
    let labels = [("20240101-120000F".to_owned(), CompressType::Uncompressed)];
    let run = VerifyRun::start(&config, Ok(info_of(&labels)), &Err(unusable())).unwrap();
    assert_eq!(run.next_label(), Some("20240101-120000F"));
    assert_eq!(run.files_checked(), 0);
    assert!(run.next_checks().is_none());
    assert_eq!(run.told_manifest(Err(unusable())).err().unwrap(), CommandError::Other("bad checksum".to_owned()));
    let run = VerifyRun::start(&config, Ok(info_of(&labels)), &Err(unusable())).unwrap();
    let run = run.told_manifest(Ok(manifest_of(&[]))).unwrap();
    let report = run.backup_checked(&Vec::new(), &Vec::new()).unwrap().finish(&Vec::new());
    assert_eq!(report.info_problems, vec!["archive.info is unusable: bad checksum".to_owned()]);
}

#[test]
fn an_unknown_set_has_no_manifest() {
    let repo = empty_repo();
    seed_backup_info(&repo, "demo", &["20240101-120000F"]);
    seed_archive_info(&repo, "demo");
    let err = verify_inner(&cfg(Some("demo"), Some("20990101-120000F")), &repo).unwrap_err();
    let path = "backup/demo/20990101-120000F/backup.manifest".to_owned();
    assert_eq!(err, CommandError::Storage(StorageError::NotFound { path }));
}

#[test]
fn the_lines_of_a_report() {
    let repo = empty_repo();
    let label = "20240101-120000F";
    seed_backup_info(&repo, "demo", &[label]);
    let a = b"present";
    seed_manifest(
        &repo,
        "demo",
        label,
        vec![file_entry("a", a, Some(sha1_hex(a))), file_entry("b", a, Some(sha1_hex(a)))],
    );
    write_backup_file(&repo, "demo", label, "a", a);
    write_archive_segment(&repo, "demo", "000000010000000000000001", b"wal one");
    let sha = "0000000000000000000000000000000000000000";
    write_archive_segment(&repo, "demo", &format!("000000010000000000000002-{sha}"), b"wal two");
    let report = verify_inner(&cfg(Some("demo"), None), &repo).unwrap();
    assert_eq!(
        report_lines(&report),
        vec![
            "verify: 1 backup(s), 2 file(s) checked, 2 WAL segment(s), 3 problem(s)".to_owned(),
            "  info: archive.info is missing; skipping archive/backup history consistency check".to_owned(),
            "  backup 20240101-120000F: 1/2 file(s) valid".to_owned(),
            "    missing: 20240101-120000F/b".to_owned(),
            "  archive: 1/2 segment(s) valid (0 checksum-verified, 1 presence-only)".to_owned(),
            format!(
                "    checksum mismatch: 000000010000000000000002-{sha} (expected {sha}, got {})",
                sha1_hex(b"wal two")
            ),
        ]
    );
    assert_eq!(
        verdict(&report).unwrap_err(),
        CommandError::Other("3 fatal error(s) encountered, see output for details".to_owned())
    );
}

#[test]
fn each_problem_has_its_line() {
    let problem = VerifyProblem::SizeMismatch { backup: "L".to_owned(), path: "a".to_owned(), expected: 3, actual: 4 };
    assert_eq!(describe_problem(&problem), "size mismatch: L/a (expected 3, got 4)");
    assert_eq!((problem.backup(), problem.path()), ("L", "a"));
    let problem = VerifyProblem::ChecksumMismatch {
        backup: "L".to_owned(),
        path: "a".to_owned(),
        expected: "x".to_owned(),
        actual: "y".to_owned(),
    };
    assert_eq!(describe_problem(&problem), "checksum mismatch: L/a (expected x, got y)");
    let problem = VerifyProblem::MissingFile { backup: "L".to_owned(), path: "a".to_owned() };
    assert_eq!(describe_problem(&problem), "missing: L/a");
}

#[test]
fn archive_records_and_directories_are_no_segments() {
    assert!(is_segment("000000010000000000000001", StorageKind::File));
    assert!(!is_segment("000000010000000000000001", StorageKind::Path));
    assert!(!is_segment("archive.info", StorageKind::File));
    assert!(!is_segment("archive.info.copy", StorageKind::File));
    let entry = |name: &str, kind: StorageKind, content: SegmentContent| ArchiveEntry {
        name: name.to_owned(),
        kind,
        content,
    };
    let read = || SegmentContent::Read { sha1: "ff".to_owned() };
    let gone = || SegmentContent::Unreadable { message: "no such file".to_owned() };
    let found = verify_archive(&vec![
        entry("archive.info", StorageKind::File, read()),
        entry("14-1", StorageKind::Path, gone()),
        entry("000000010000000000000001", StorageKind::File, gone()),
        entry("000000010000000000000002", StorageKind::File, read()),
    ]);
    assert_eq!((found.total, found.valid, found.presence_only, found.checksum_verified), (2, 1, 1, 0));
    assert_eq!(
        found.problems,
        vec![ArchiveProblem::Unreadable {
            segment: "000000010000000000000001".to_owned(),
            message: "no such file".to_owned(),
        }]
    );
    assert_eq!(found.total, found.valid + found.problems.len());
}

#[test]
fn a_file_lies_under_the_extension_of_its_holder() {
    let gz = "20240101-120000F".to_owned();
    let zst = "20240102-120000F".to_owned();
    let info = info_of(&[(gz.clone(), CompressType::Gz), (zst.clone(), CompressType::Zst)]);
    let manifest = manifest_of(&[
        file_entry("pg_data/PG_VERSION", b"14", Some(sha1_hex(b"14"))),
        referenced_entry("pg_data/base/1/1259", b"page", &zst),
        referenced_entry("pg_data/base/1/1260", b"page", "20230101-120000F"),
        file_entry("pg_data/empty", b"", None),
    ]);
    let checks = plan_checks("demo", &gz, &info, &manifest);
    let paths: Vec<&str> = checks.iter().map(|c| c.storage_path.as_str()).collect();
    assert_eq!(
        paths,
        vec![
            "backup/demo/20240101-120000F/pg_data/PG_VERSION.gz",
            "backup/demo/20240102-120000F/pg_data/base/1/1259.zst",
            "backup/demo/20230101-120000F/pg_data/base/1/1260",
        ]
    );
    assert_eq!(checks[1].holder, zst);
    assert_eq!(checks[1].transform.compress_type, CompressType::Zst);
    assert_eq!(checks[2].transform.compress_type, CompressType::Uncompressed);
}

#[test]
fn unusable_answers_fail_the_run() {
    let answer = |reply: VerifyReply| vec![VerifyAnswer { key: "a".to_owned(), reply }];
    let message = |reply: VerifyReply| match verify_results(&answer(reply)) {
        Err(CommandError::Other(message)) => message,
        other => panic!("expected an error, got {other:?}"),
    };
    assert_eq!(message(VerifyReply::Hashed { sha: None, size: Some(1) }), "verify of a returned no checksum");
    assert_eq!(
        message(VerifyReply::Hashed { sha: Some("ff".to_owned()), size: None }),
        "verify of a returned no size"
    );
    assert_eq!(message(VerifyReply::Empty), "verify of a produced an unexpected empty response");
    assert_eq!(message(VerifyReply::Failed("gone".to_owned())), "gone");
    let labels = [("L".to_owned(), CompressType::Uncompressed)];
    let run = VerifyRun::start(&cfg(Some("demo"), None), Ok(info_of(&labels)), &Ok(archive_of(SYSTEM_ID))).unwrap();
    let run = run.told_manifest(Ok(manifest_of(&[]))).unwrap();
    assert!(run.next_checks().unwrap().is_empty());
    let stranger = VerifyResult { actual_sha: "ff".to_owned(), actual_size: 1 };
    let err = run.backup_checked(&Vec::new(), &vec![("b".to_owned(), stranger)]).err().unwrap();
    assert_eq!(err, CommandError::Other("verify result for unknown file `b` in backup `L`".to_owned()));
}

#[test]
fn a_request_without_its_parameters_is_refused() {
    let repo = empty_repo();
    seed_backup_info(&repo, "demo", &["L"]);
    let checks = plan_checks("demo", "L", &load(&repo.backup_info).ok().unwrap(), &manifest_of(&[file_entry(
        "a",
        b"x",
        Some("ff".to_owned()),
    )]));
    let mut request = verify_job_to_request(&verify_job(&checks[0], "/repo/a".to_owned()));
    assert_eq!(request.cmd, "a");
    assert_eq!(
        request_to_verify_job(&request),
        Ok(("/repo/a".to_owned(), "L".to_owned(), "backup/demo/L/a".to_owned()))
    );
    for missing in ["storage path", "holder", "abs path"] {
        request.param.pop();
        assert_eq!(request_to_verify_job(&request), Err(format!("verify job missing {missing}")));
    }
}

#[test]
fn valid_files_and_faulty_files_make_up_all_files() {
    let repo = empty_repo();
    let label = "20240101-120000F";
    let contents: [(&str, &[u8]); 4] =
        [("good", b"as it was"), ("absent", b"never written"), ("short", b"cut short"), ("changed", b"same len")];
    seed_backup_info(&repo, "demo", &[label]);
    let files = contents.iter().map(|(path, bytes)| file_entry(path, bytes, Some(sha1_hex(bytes)))).collect();
    seed_manifest(&repo, "demo", label, files);
    write_backup_file(&repo, "demo", label, "good", b"as it was");
    write_backup_file(&repo, "demo", label, "short", b"cut");
    write_backup_file(&repo, "demo", label, "changed", b"SAME LEN");

    let report = verify_inner(&cfg(Some("demo"), None), &repo).unwrap();
    let faulty = ["absent", "short", "changed"]
        .iter()
        .filter(|path| report.backups[0].errors.iter().any(|e| e.contains(**path)))
        .count();
    assert_eq!(report.backups[0].valid, 1);
    assert_eq!(report.backups[0].total, 4);
    assert_eq!(faulty, 3);
    assert!(!report.backups[0].errors.iter().any(|e| e.contains("good")));
}
