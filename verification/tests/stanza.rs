use std::collections::BTreeMap;

use pgbr::config::{CommandError, ConfigCommandRole, LoadedConfig, OptionValue, Options, StorageError};
use pgbr::info::{DbHistoryEntry, InfoArchive, InfoBackup};
use pgbr::paths::{archive_info_path, backup_info_path};
use pgbr::stanza::cipher::{repo_ciphers, CipherType, RepoCipherConfig};
use pgbr::stanza::conninfo::{derive_conninfo_with_url, identity_source, IdentitySource};
use pgbr::stanza::create::{create_with_identity, require_repos, CreateOutcome, NewStanza};
use pgbr::stanza::delete::{remove_subtree, require_stopped, stanza_subtrees};
use pgbr::stanza::identity::{
    identity_from_control, identity_from_rows, identity_from_scalars, pg_version_label_from_num,
    query_result_to_identity, ClusterIdentity, DbIdentityRow, PgControlHeader, VersionInterface,
};
use pgbr::stanza::upgrade::{
    require_initialized, require_same_cipher, upgrade_with_identity, UpgradeOutcome,
};
use pgbr::verify::info_files::verify_info_consistency;

// The supported versions.

fn supported() -> Vec<VersionInterface> {
    let rows: [(&str, u32, u32); 11] = [
        ("9.5", 942, 201_510_051),
        ("9.6", 960, 201_608_131),
        ("10", 1002, 201_707_211),
        ("11", 1100, 201_809_051),
        ("12", 1201, 201_909_212),
        ("13", 1300, 202_007_201),
        ("14", 1300, 202_107_181),
        ("15", 1300, 202_209_061),
        ("16", 1300, 202_307_071),
        ("17", 1700, 202_406_281),
        ("18", 1800, 202_506_291),
    ];
    rows.iter()
        .map(|(label, control, catalog)| VersionInterface {
            label: (*label).to_owned(),
            pg_control_version: *control,
            catalog_version_no: *catalog,
        })
        .collect()
}

fn by_label(label: &str) -> VersionInterface {
    supported().into_iter().find(|v| v.label == label).unwrap()
}

fn config_with_stanza(stanza: Option<&str>) -> LoadedConfig {
    LoadedConfig {
        command: "stanza-create".to_owned(),
        command_role: ConfigCommandRole::Main,
        stanza: stanza.map(str::to_owned),
        options: Options::new(),
        params: Vec::new(),
    }
}

fn config_with_cipher(stanza: Option<&str>, pass: &str) -> LoadedConfig {
    let mut cfg = config_with_stanza(stanza);
    cfg.options.insert("repo-cipher-type", Some(1), OptionValue::StringId("aes-256-cbc".to_owned()));
    cfg.options.insert("repo-cipher-pass", Some(1), OptionValue::String(pass.to_owned()));
    cfg
}

// A control file, and repositories in memory.

struct ControlFile {
    system_id: u64,
    version: VersionInterface,
}

fn pg_control(system_id: u64, v: &VersionInterface) -> ControlFile {
    ControlFile { system_id, version: v.clone() }
}

fn read_cluster_identity(pg: &ControlFile) -> Result<ClusterIdentity, CommandError> {
    let header = PgControlHeader {
        system_identifier: pg.system_id,
        pg_control_version: pg.version.pg_control_version,
        catalog_version_no: pg.version.catalog_version_no,
    };
    let known = supported().into_iter().find(|v| {
        v.pg_control_version == header.pg_control_version && v.catalog_version_no == header.catalog_version_no
    });
    identity_from_control(header, known.map(|v| v.label))
}

#[derive(Default)]
struct Repo {
    directories: Vec<String>,
    archive: BTreeMap<String, InfoArchive>,
    backup: BTreeMap<String, InfoBackup>,
    keys: BTreeMap<String, String>,
    encrypted: bool,
}

impl Repo {
    fn save(&mut self, made: NewStanza, cipher: &RepoCipherConfig) -> CreateOutcome {
        self.directories.extend(made.directories);
        self.encrypted = cipher.passphrase().is_some();
        if let Some(key) = made.archive_key {
            self.keys.insert(made.archive_path.clone(), key);
        }
        if let Some(key) = made.backup_key {
            self.keys.insert(made.backup_path.clone(), key);
        }
        self.archive.insert(made.archive_path, made.archive);
        self.backup.insert(made.backup_path, made.backup);
        made.outcome
    }

    fn head(&self) -> Vec<u8> {
        if self.encrypted {
            b"Salted__........".to_vec()
        } else {
            b"[backrest]\n".to_vec()
        }
    }

    fn archive(&self, stanza: &str) -> &InfoArchive {
        &self.archive[&archive_info_path(stanza)]
    }

    fn backup(&self, stanza: &str) -> &InfoBackup {
        &self.backup[&backup_info_path(stanza)]
    }
}

fn numbers(n: usize) -> Vec<u32> {
    (1..=n as u32).collect()
}

fn create(cfg: &LoadedConfig, repos: &mut [Repo], pg: &ControlFile) -> Result<Vec<CreateOutcome>, CommandError> {
    let stanza = require_repos(cfg, "stanza-create", &numbers(repos.len()))?;
    let ciphers = repo_ciphers(cfg, &numbers(repos.len()))?;
    let identity = read_cluster_identity(pg)?;
    let mut outcomes = Vec::new();
    for (n, (repo, cipher)) in repos.iter_mut().zip(&ciphers).enumerate() {
        let made = create_with_identity(
            stanza,
            repo.archive.contains_key(&archive_info_path(stanza)),
            repo.backup.contains_key(&backup_info_path(stanza)),
            &identity,
            cipher,
            format!("archive key {n}"),
            format!("backup key {n}"),
        )?;
        outcomes.push(repo.save(made, cipher));
    }
    Ok(outcomes)
}

fn upgrade(cfg: &LoadedConfig, repos: &mut [Repo], pg: &ControlFile) -> Result<Vec<UpgradeOutcome>, CommandError> {
    let stanza = require_repos(cfg, "stanza-upgrade", &numbers(repos.len()))?;
    let ciphers = repo_ciphers(cfg, &numbers(repos.len()))?;
    let identity = read_cluster_identity(pg)?;
    let mut outcomes = Vec::new();
    for (repo, cipher) in repos.iter_mut().zip(&ciphers) {
        let archive_path = archive_info_path(stanza);
        let backup_path = backup_info_path(stanza);
        require_initialized(repo.archive.contains_key(&archive_path), repo.backup.contains_key(&backup_path))?;
        require_same_cipher(&repo.head(), cipher)?;
        let archive = repo.archive.remove(&archive_path).unwrap();
        let backup = repo.backup.remove(&backup_path).unwrap();
        let done = upgrade_with_identity(archive, backup, &identity);
        repo.archive.insert(archive_path, done.archive);
        repo.backup.insert(backup_path, done.backup);
        outcomes.push(done.outcome);
    }
    Ok(outcomes)
}

fn other(err: CommandError) -> String {
    match err {
        CommandError::Other(message) => message,
        err => panic!("expected another error, got {err:?}"),
    }
}

// Creating a stanza.

#[test]
fn stanza_create_writes_info_files_from_pg_control() {
    let v = &supported()[0];
    let system_id: u64 = 0x0102_0304_0506_0708;
    let mut repos = [Repo::default()];
    create(&config_with_stanza(Some("demo")), &mut repos, &pg_control(system_id, v)).unwrap();

    let archive = repos[0].archive("demo");
    assert_eq!(archive.db_system_id, system_id);
    assert_eq!(archive.db_version, v.label);
    assert_eq!(archive.db_id, 1);
    assert_eq!(archive.history.len(), 1);
    assert_eq!(archive.history[&1].db_id, system_id);

    let backup = repos[0].backup("demo");
    assert_eq!(backup.db_system_id, system_id);
    assert_eq!(backup.db_version, v.label);
    assert_eq!(backup.db_catalog_version, v.catalog_version_no);
    assert_eq!(backup.db_control_version, v.pg_control_version);
    assert!(backup.current.len() == 0);

    assert_eq!(repos[0].directories, vec!["archive/demo".to_owned(), "backup/demo".to_owned()]);
    assert_eq!((backup.backrest_format, backup.backrest_version.as_str()), (5, "2.58"));
}

#[test]
fn a_new_stanza_is_consistent() {
    let mut repos = [Repo::default()];
    create(&config_with_stanza(Some("demo")), &mut repos, &pg_control(7, &supported()[0])).unwrap();
    let archive = repos[0].archive.remove(&archive_info_path("demo")).unwrap();
    assert!(verify_info_consistency(&Ok(archive), repos[0].backup("demo")).is_empty());
}

#[test]
fn stanza_create_encrypted_without_pass_errors() {
    let mut cfg = config_with_stanza(Some("enc"));
    cfg.options.insert("repo-cipher-type", Some(1), OptionValue::StringId("aes-256-cbc".to_owned()));
    let err = create(&cfg, &mut [Repo::default()], &pg_control(7, &supported()[0])).unwrap_err();
    assert_eq!(err, CommandError::MissingOption { option: "repo-cipher-pass".to_owned() });
    cfg.options.insert("repo-cipher-pass", Some(1), OptionValue::String(String::new()));
    let err = create(&cfg, &mut [Repo::default()], &pg_control(7, &supported()[0])).unwrap_err();
    assert_eq!(err, CommandError::MissingOption { option: "repo-cipher-pass".to_owned() });
}

#[test]
fn an_encrypted_stanza_carries_its_own_keys() {
    let mut repos = [Repo::default()];
    let cfg = config_with_cipher(Some("enc"), "user-passphrase");
    create(&cfg, &mut repos, &pg_control(0x0a0b_0c0d, &supported()[0])).unwrap();
    assert!(repos[0].encrypted);
    assert_eq!(repos[0].keys[&archive_info_path("enc")], "archive key 0");
    assert_eq!(repos[0].keys[&backup_info_path("enc")], "backup key 0");
    let mut plain = [Repo::default()];
    create(&config_with_stanza(Some("enc")), &mut plain, &pg_control(7, &supported()[0])).unwrap();
    assert!(plain[0].keys.is_empty());
}

#[test]
fn stanza_create_missing_stanza_errors() {
    let err = create(&config_with_stanza(None), &mut [Repo::default()], &pg_control(1, &supported()[0])).unwrap_err();
    assert_eq!(err, CommandError::MissingOption { option: "stanza".to_owned() });
}

#[test]
fn a_stanza_needs_a_repository() {
    let err = create(&config_with_stanza(Some("demo")), &mut [], &pg_control(1, &supported()[0])).unwrap_err();
    assert_eq!(other(err), "stanza-create requires at least one repository");
}

#[test]
fn stanza_create_existing_stanza_errors() {
    let mut repos = [Repo::default()];
    let cfg = config_with_stanza(Some("demo"));
    let pg = pg_control(42, &supported()[0]);
    create(&cfg, &mut repos, &pg).unwrap();
    assert_eq!(other(create(&cfg, &mut repos, &pg).unwrap_err()), "stanza already exists");
}

#[test]
fn stanza_create_initializes_every_repo() {
    let mut repos = [Repo::default(), Repo::default()];
    create(&config_with_stanza(Some("demo")), &mut repos, &pg_control(0x0102_0304, &supported()[0])).unwrap();
    for repo in &repos {
        assert_eq!(repo.archive("demo").db_version, supported()[0].label);
        assert!(repo.backup.contains_key(&backup_info_path("demo")));
    }
}

#[test]
fn stanza_create_honors_per_repo_cipher() {
    let mut repos = [Repo::default(), Repo::default()];
    let mut cfg = config_with_stanza(Some("demo"));
    cfg.options.insert("repo-cipher-type", Some(2), OptionValue::StringId("aes-256-cbc".to_owned()));
    cfg.options.insert("repo-cipher-pass", Some(2), OptionValue::String("repo2-pass".to_owned()));
    create(&cfg, &mut repos, &pg_control(0x0a0b_0c0d, &supported()[0])).unwrap();
    assert!(!repos[0].encrypted);
    assert!(repos[0].keys.is_empty());
    assert!(repos[1].encrypted);
    assert_eq!(repos[1].keys.len(), 2);
    let ciphers = repo_ciphers(&cfg, &vec![1, 2]).unwrap();
    assert_eq!(ciphers[0].passphrase(), None);
    assert_eq!(ciphers[1].passphrase(), Some("repo2-pass"));
}

#[test]
fn stanza_create_missing_pass_on_one_repo_fails_before_writing() {
    let mut repos = [Repo::default(), Repo::default()];
    let mut cfg = config_with_stanza(Some("demo"));
    cfg.options.insert("repo-cipher-type", Some(2), OptionValue::StringId("aes-256-cbc".to_owned()));
    let err = create(&cfg, &mut repos, &pg_control(7, &supported()[0])).unwrap_err();
    assert_eq!(err, CommandError::MissingOption { option: "repo-cipher-pass".to_owned() });
    assert!(!repos[0].archive.contains_key(&archive_info_path("demo")));
}

#[test]
fn an_unknown_word_names_no_cipher() {
    assert_eq!(CipherType::from_str_id("aes-256-cbc"), CipherType::Aes256Cbc);
    assert_eq!(CipherType::from_str_id("none"), CipherType::Unencrypted);
    assert!(!CipherType::from_str_id("rot13").is_encrypted());
}

// Upgrading a stanza.

#[test]
fn stanza_upgrade_no_change_is_noop() {
    let mut repos = [Repo::default()];
    let cfg = config_with_stanza(Some("demo"));
    let pg = pg_control(7, &supported()[0]);
    let outcome = create(&cfg, &mut repos, &pg).unwrap();
    assert_eq!(outcome[0].db_version, supported()[0].label);
    let outcome = upgrade(&cfg, &mut repos, &pg).unwrap();
    assert!(!outcome[0].upgraded);
    assert_eq!(outcome[0].new_db_id, 1);
}

#[test]
fn stanza_upgrade_appends_history_on_version_change() {
    let mut repos = [Repo::default()];
    let cfg = config_with_stanza(Some("demo"));
    let system_id: u64 = 99;
    create(&cfg, &mut repos, &pg_control(system_id, &supported()[0])).unwrap();

    let outcome = upgrade(&cfg, &mut repos, &pg_control(system_id, &supported()[1])).unwrap();
    assert!(outcome[0].upgraded);
    assert_eq!(outcome[0].new_db_id, 2);

    let archive = repos[0].archive("demo");
    assert_eq!(archive.db_id, 2);
    assert_eq!(archive.db_version, supported()[1].label);
    assert_eq!(archive.history.len(), 2);
    assert_eq!(archive.history[&1].db_version, supported()[0].label);
    assert_eq!(archive.history[&2].db_version, supported()[1].label);

    let backup = repos[0].backup("demo");
    assert_eq!(backup.db_id, 2);
    assert_eq!(backup.db_catalog_version, supported()[1].catalog_version_no);
    assert_eq!(backup.db_control_version, supported()[1].pg_control_version);
}

#[test]
fn an_upgrade_numbers_past_a_gap_and_is_done_once() {
    let mut repos = [Repo::default()];
    let cfg = config_with_stanza(Some("demo"));
    create(&cfg, &mut repos, &pg_control(99, &supported()[0])).unwrap();
    let path = archive_info_path("demo");
    let gap = DbHistoryEntry { db_id: 5, db_version: "9.4".to_owned() };
    repos[0].archive.get_mut(&path).unwrap().history.insert(7, gap);
    let pg = pg_control(100, &supported()[0]);
    assert_eq!(upgrade(&cfg, &mut repos, &pg).unwrap()[0], UpgradeOutcome { upgraded: true, new_db_id: 8 });
    assert_eq!(upgrade(&cfg, &mut repos, &pg).unwrap()[0], UpgradeOutcome { upgraded: false, new_db_id: 8 });
}

#[test]
fn stanza_upgrade_uninitialized_errors() {
    let err = upgrade(&config_with_stanza(Some("demo")), &mut [Repo::default()], &pg_control(1, &supported()[0]))
        .unwrap_err();
    assert_eq!(other(err), "stanza not initialized; run stanza-create first");
}

#[test]
fn stanza_upgrade_cipher_mismatch_errors() {
    let mut repos = [Repo::default()];
    let pg = pg_control(7, &supported()[0]);
    create(&config_with_stanza(Some("plain")), &mut repos, &pg).unwrap();
    let message = other(upgrade(&config_with_cipher(Some("plain"), "pw"), &mut repos, &pg).unwrap_err());
    assert!(message.contains("stanza-create"), "message was {message:?}");
}

#[test]
fn stanza_upgrade_encrypted_round_trips() {
    let mut repos = [Repo::default()];
    let system_id: u64 = 55;
    let cfg = config_with_cipher(Some("enc"), "pw");
    create(&cfg, &mut repos, &pg_control(system_id, &supported()[0])).unwrap();
    let before = repos[0].keys.clone();
    upgrade(&cfg, &mut repos, &pg_control(system_id, &supported()[1])).unwrap();
    assert_eq!(repos[0].archive("enc").db_version, supported()[1].label);
    assert_eq!(repos[0].archive("enc").db_id, 2);
    assert_eq!(repos[0].keys, before);
}

#[test]
fn stanza_upgrade_applies_to_every_repo() {
    let mut repos = [Repo::default(), Repo::default()];
    let cfg = config_with_stanza(Some("demo"));
    create(&cfg, &mut repos, &pg_control(99, &supported()[0])).unwrap();
    upgrade(&cfg, &mut repos, &pg_control(99, &supported()[1])).unwrap();
    for repo in &repos {
        assert_eq!(repo.archive("demo").db_id, 2);
        assert_eq!(repo.archive("demo").db_version, supported()[1].label);
    }
}

// Deleting a stanza.

#[test]
fn stanza_delete_refuses_without_stop_file() {
    let message = other(require_stopped("demo", false).unwrap_err());
    assert!(message.contains("stop file does not exist for stanza demo"), "unexpected error: {message}");
    assert!(require_stopped("demo", true).is_ok());
}

#[test]
fn a_stanza_is_two_directories() {
    assert_eq!(stanza_subtrees("demo"), vec!["archive/demo".to_owned(), "backup/demo".to_owned()]);
}

#[test]
fn what_is_gone_need_not_be_removed() {
    assert!(remove_subtree(Ok(())).is_ok());
    assert!(remove_subtree(Err(StorageError::NotFound { path: "archive/demo".to_owned() })).is_ok());
    let denied = StorageError::Backend { message: "permission denied".to_owned() };
    assert_eq!(remove_subtree(Err(denied.clone())), Err(CommandError::Storage(denied)));
}

#[test]
fn upgrade_heals_a_backup_info_that_lags_behind() {
    let cfg = config_with_stanza(Some("demo"));
    let mut repos = [Repo::default()];
    create(&cfg, &mut repos, &pg_control(99, &by_label("15"))).expect("create");
    upgrade(&cfg, &mut repos, &pg_control(99, &by_label("16"))).expect("upgrade");
    let lagging = repos[0].backup.get_mut(&backup_info_path("demo")).unwrap();
    lagging.db_id = 1;
    lagging.db_version = "15".to_owned();

    let outcomes = upgrade(&cfg, &mut repos, &pg_control(99, &by_label("16"))).expect("second upgrade");
    assert_eq!(outcomes, vec![UpgradeOutcome { upgraded: true, new_db_id: 3 }]);
    let backup = repos[0].backup.get(&backup_info_path("demo")).unwrap();
    assert_eq!(backup.db_version, "16");
    assert_eq!(backup.db_id, 3);

    let outcomes = upgrade(&cfg, &mut repos, &pg_control(99, &by_label("16"))).expect("third upgrade");
    assert_eq!(outcomes, vec![UpgradeOutcome { upgraded: false, new_db_id: 3 }]);
}

// Which cluster it is.

#[test]
fn query_result_to_identity_maps_synthetic_rows() {
    let v = by_label("16");
    let identity = query_result_to_identity(DbIdentityRow {
        server_version_num: 160_004,
        system_identifier: 0x0102_0304_0506_0708,
        catalog_version_no: v.catalog_version_no,
        pg_control_version: v.pg_control_version,
    }, &supported())
    .expect("synthetic PG 16 rows map cleanly");

    assert_eq!(identity.version, "16");
    assert_eq!(identity.header.system_identifier, 0x0102_0304_0506_0708);
    assert_eq!(identity.header.catalog_version_no, v.catalog_version_no);
    assert_eq!(identity.header.pg_control_version, v.pg_control_version);
}

#[test]
fn identity_from_scalars_parses_text_columns() {
    let v = by_label("16");
    let identity = identity_from_scalars(
        Some("160004"),
        Some("6873049345984568091"),
        Some(&v.catalog_version_no.to_string()),
        Some(&v.pg_control_version.to_string()),
        &supported(),
    )
    .expect("scalar texts map to PG 16 identity");
    assert_eq!(identity.version, "16");
    assert_eq!(identity.header.system_identifier, 6_873_049_345_984_568_091);
    assert_eq!(identity.header.catalog_version_no, v.catalog_version_no);

    let err = identity_from_scalars(None, Some("1"), Some("1"), Some("1"), &supported()).expect_err("missing version errors");
    match err {
        CommandError::Other(msg) => assert!(msg.contains("server_version_num"), "{msg}"),
        other => panic!("expected Other(server_version_num), got {other:?}"),
    }
}

#[test]
fn query_result_to_identity_maps_pg96() {
    let v = by_label("9.6");
    let identity = query_result_to_identity(DbIdentityRow {
        server_version_num: 90_600,
        system_identifier: 7,
        catalog_version_no: v.catalog_version_no,
        pg_control_version: v.pg_control_version,
    }, &supported())
    .expect("synthetic PG 9.6 rows map cleanly");
    assert_eq!(identity.version, "9.6");
    assert_eq!(identity.header.system_identifier, 7);
}

#[test]
fn query_result_to_identity_rejects_unknown_version() {
    let v = by_label("16");
    let err = query_result_to_identity(DbIdentityRow {
        server_version_num: 80_400,
        system_identifier: 1,
        catalog_version_no: v.catalog_version_no,
        pg_control_version: v.pg_control_version,
    }, &supported())
    .expect_err("unsupported version must error");
    match err {
        CommandError::Other(msg) => assert!(msg.contains("server_version_num"), "message was {msg:?}"),
        other => panic!("expected Other(server_version_num), got {other:?}"),
    }
}

#[test]
fn query_result_to_identity_rejects_unknown_catalog() {
    let err = query_result_to_identity(DbIdentityRow {
        server_version_num: 160_004,
        system_identifier: 1,
        catalog_version_no: 1,
        pg_control_version: 1300,
    }, &supported())
    .expect_err("unknown catalog version must error");
    match err {
        CommandError::Other(msg) => assert!(msg.contains("catalog_version_no"), "message was {msg:?}"),
        other => panic!("expected Other(catalog_version_no), got {other:?}"),
    }
}

#[test]
fn query_result_to_identity_rejects_control_catalog_mismatch() {
    let v = by_label("16");
    let err = query_result_to_identity(DbIdentityRow {
        server_version_num: 160_004,
        system_identifier: 1,
        catalog_version_no: v.catalog_version_no,
        pg_control_version: v.pg_control_version + 1,
    }, &supported())
    .expect_err("control/catalog mismatch must error");
    match err {
        CommandError::Other(msg) => assert!(msg.contains("control version"), "message was {msg:?}"),
        other => panic!("expected Other(control version), got {other:?}"),
    }
}

#[test]
fn query_result_to_identity_rejects_the_catalog_of_another_version() {
    let v = by_label("15");
    let err = query_result_to_identity(DbIdentityRow {
        server_version_num: 160_004,
        system_identifier: 1,
        catalog_version_no: v.catalog_version_no,
        pg_control_version: v.pg_control_version,
    }, &supported())
    .expect_err("versions 15 and 16 share a control version, but no catalog version");
    match err {
        CommandError::Other(msg) => assert_eq!(
            msg,
            "server_version_num 160004 does not match catalog_version_no 202209061 (expected version 15)"
        ),
        other => panic!("expected Other(server_version_num), got {other:?}"),
    }
}

#[test]
fn pg_version_label_from_num_handles_majors() {
    assert_eq!(pg_version_label_from_num(90_600, &supported()).as_deref(), Some("9.6"));
    assert_eq!(pg_version_label_from_num(100_000, &supported()).as_deref(), Some("10"));
    assert_eq!(pg_version_label_from_num(160_004, &supported()).as_deref(), Some("16"));
    assert_eq!(pg_version_label_from_num(180_000, &supported()).as_deref(), Some("18"));
    assert_eq!(pg_version_label_from_num(80_400, &supported()).as_deref(), None);
    assert_eq!(pg_version_label_from_num(990_000, &supported()).as_deref(), None);
}

#[test]
fn derive_conninfo_none_without_db_config() {
    let cfg = config_with_stanza(Some("demo"));
    assert_eq!(
        derive_conninfo_with_url(&cfg, None),
        None,
        "no pg1-host and no DATABASE_URL means control-file path"
    );
}

#[test]
fn derive_conninfo_database_url_wins() {
    let cfg = config_with_stanza(Some("demo"));
    assert_eq!(
        derive_conninfo_with_url(&cfg, Some("host=/tmp dbname=postgres")).as_deref(),
        Some("host=/tmp dbname=postgres"),
    );
    assert_eq!(derive_conninfo_with_url(&cfg, Some("")), None);
}

#[test]
fn derive_conninfo_builds_from_pg1_options() {
    let mut cfg = config_with_stanza(Some("demo"));
    cfg.options.insert("pg1-host", None, OptionValue::String("db.example".to_owned()));
    cfg.options.insert("pg1-port", None, OptionValue::Integer(5433));
    cfg.options.insert("pg1-database", None, OptionValue::String("postgres".to_owned()));
    let conninfo = derive_conninfo_with_url(&cfg, None).expect("pg1-host present -> conninfo");
    assert!(conninfo.contains("host=db.example"), "conninfo was {conninfo:?}");
    assert!(conninfo.contains("port=5433"), "conninfo was {conninfo:?}");
    assert!(conninfo.contains("dbname=postgres"), "conninfo was {conninfo:?}");
}

#[test]
fn derive_conninfo_appends_connect_timeout_from_db_timeout() {
    let mut cfg = config_with_stanza(Some("demo"));
    cfg.options.insert("pg1-host", None, OptionValue::String("db.example".to_owned()));
    cfg.options.insert("db-timeout", None, OptionValue::Time(30_000));
    let conninfo = derive_conninfo_with_url(&cfg, None).expect("conninfo");
    assert!(conninfo.contains("connect_timeout=30"), "conninfo was {conninfo:?}");

    cfg.options.insert("db-timeout", None, OptionValue::Time(250));
    let conninfo = derive_conninfo_with_url(&cfg, None).expect("conninfo");
    assert!(conninfo.contains("connect_timeout=1"), "conninfo was {conninfo:?}");
}

#[test]
fn derive_conninfo_appends_keepalive_params() {
    let mut cfg = config_with_stanza(Some("demo"));
    cfg.options.insert("pg1-host", None, OptionValue::String("db.example".to_owned()));
    cfg.options.insert("tcp-keep-alive-idle", None, OptionValue::Integer(60));
    cfg.options.insert("tcp-keep-alive-interval", None, OptionValue::Integer(10));
    cfg.options.insert("tcp-keep-alive-count", None, OptionValue::Integer(5));
    let conninfo = derive_conninfo_with_url(&cfg, None).expect("conninfo");
    assert!(conninfo.contains("keepalives=1"), "conninfo was {conninfo:?}");
    assert!(conninfo.contains("keepalives_idle=60"), "conninfo was {conninfo:?}");
    assert!(conninfo.contains("keepalives_interval=10"), "conninfo was {conninfo:?}");
    assert!(conninfo.contains("keepalives_count=5"), "conninfo was {conninfo:?}");
}

#[test]
fn derive_conninfo_keepalive_partial_still_enables() {
    let mut cfg = config_with_stanza(Some("demo"));
    cfg.options.insert("pg1-host", None, OptionValue::String("db.example".to_owned()));
    cfg.options.insert("tcp-keep-alive-idle", None, OptionValue::Integer(120));
    let conninfo = derive_conninfo_with_url(&cfg, None).expect("conninfo");
    assert!(conninfo.contains("keepalives=1"), "conninfo was {conninfo:?}");
    assert!(conninfo.contains("keepalives_idle=120"), "conninfo was {conninfo:?}");
    assert!(!conninfo.contains("keepalives_interval"), "conninfo was {conninfo:?}");
    assert!(!conninfo.contains("keepalives_count"), "conninfo was {conninfo:?}");
}

#[test]
fn derive_conninfo_no_keepalive_or_timeout_when_unset() {
    let mut cfg = config_with_stanza(Some("demo"));
    cfg.options.insert("pg1-host", None, OptionValue::String("db.example".to_owned()));
    let conninfo = derive_conninfo_with_url(&cfg, None).expect("conninfo");
    assert!(!conninfo.contains("keepalives"), "conninfo was {conninfo:?}");
    assert!(!conninfo.contains("connect_timeout"), "conninfo was {conninfo:?}");
}

#[test]
fn derive_conninfo_database_url_unchanged_by_timeout_and_keepalive() {
    let mut cfg = config_with_stanza(Some("demo"));
    cfg.options.insert("db-timeout", None, OptionValue::Time(30_000));
    cfg.options.insert("tcp-keep-alive-idle", None, OptionValue::Integer(60));
    assert_eq!(
        derive_conninfo_with_url(&cfg, Some("host=/tmp dbname=postgres")).as_deref(),
        Some("host=/tmp dbname=postgres"),
    );
}

#[test]
fn the_whole_conninfo() {
    let mut cfg = config_with_stanza(Some("demo"));
    cfg.options.insert("pg1-host", None, OptionValue::String("db.example".to_owned()));
    cfg.options.insert("pg1-port", None, OptionValue::Integer(5433));
    cfg.options.insert("db-timeout", None, OptionValue::Time(1_001));
    cfg.options.insert("tcp-keep-alive-count", None, OptionValue::Integer(5));
    assert_eq!(
        derive_conninfo_with_url(&cfg, None).as_deref(),
        Some("host=db.example port=5433 connect_timeout=2 keepalives=1 keepalives_count=5")
    );
}

#[test]
fn a_worker_is_asked_before_a_server() {
    let mut cfg = config_with_stanza(Some("demo"));
    assert_eq!(identity_source(&cfg, None, None), IdentitySource::ControlFile);
    cfg.options.insert("pg1-host", None, OptionValue::String("db.example".to_owned()));
    assert_eq!(
        identity_source(&cfg, None, None),
        IdentitySource::Server { conninfo: "host=db.example".to_owned() }
    );
    assert_eq!(
        identity_source(&cfg, Some("db.example".to_owned()), Some("host=/tmp")),
        IdentitySource::Worker { host: "db.example".to_owned() }
    );
}

#[test]
fn rows_hold_the_same_columns() {
    let text = |s: &str| Some(s.to_owned());
    let control = vec![vec![text("7"), text("202307071"), text("1300")]];
    let identity = identity_from_rows(&vec![vec![text("160004")]], &control, &supported()).unwrap();
    assert_eq!((identity.version.as_str(), identity.header.system_identifier), ("16", 7));
    let message = other(identity_from_rows(&Vec::new(), &control, &supported()).unwrap_err());
    assert!(message.contains("server_version_num"), "{message}");
    let message = other(identity_from_rows(&vec![vec![text("160004")]], &vec![Vec::new()], &supported()).unwrap_err());
    assert!(message.contains("system_identifier"), "{message}");
}

#[test]
fn an_unknown_control_file_is_refused() {
    let unknown = VersionInterface { label: "19".to_owned(), pg_control_version: 1900, catalog_version_no: 1 };
    let message = other(read_cluster_identity(&pg_control(7, &unknown)).unwrap_err());
    assert!(message.contains("1900"), "{message}");
}
