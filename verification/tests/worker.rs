use pgbr::config::{CommandError, ConfigCommandRole, LoadedConfig, OptionValue, Options};
use pgbr::protocol::{ParamValue, Request};
use pgbr::worker::{configured_worker, is_worker, route, worker_root, Route, WorkerHandler};

fn worker_config(command: &str, role: ConfigCommandRole, pg_path: Option<&str>) -> LoadedConfig {
    let mut options = Options::new();
    if let Some(path) = pg_path {
        options.insert("pg-path", Some(1), OptionValue::Path(path.to_owned()));
    }
    LoadedConfig { command: command.to_owned(), command_role: role, stanza: None, options, params: Vec::new() }
}

fn config_with(opts: Vec<((&str, Option<u32>), OptionValue)>) -> LoadedConfig {
    let mut config = worker_config("remote", ConfigCommandRole::Remote, None);
    for ((name, group), value) in opts {
        config.options.insert(name, group, value);
    }
    config
}

fn text(s: &str) -> ParamValue {
    ParamValue::Text(s.to_owned())
}

fn request(cmd: &str, param: Vec<ParamValue>) -> Request {
    Request { cmd: cmd.to_owned(), param }
}

#[test]
fn worker_unknown_command_errs() {
    match route(&request("bogus-verb", Vec::new())) {
        Route::Refused(reply) => {
            assert!(reply.message.contains("unsupported protocol command"), "message was {:?}", reply.message);
            assert!(reply.message.contains("bogus-verb"), "message was {:?}", reply.message);
        }
        other => panic!("expected a refusal, got {other:?}"),
    }
}

#[test]
fn worker_routes_db_commands_to_db_handler() {
    assert_eq!(route(&request("db-query", vec![text("SELECT 1")])), Route::Database);
    assert_eq!(route(&request("db-close", Vec::new())), Route::Database);
}

#[test]
fn storage_commands_go_to_the_storage() {
    assert_eq!(route(&request("storage-exists", vec![text("file.txt")])), Route::Storage);
    assert!(matches!(route(&request("storage", Vec::new())), Route::Refused(_)));
}

#[test]
fn dispatch_routes_remote_to_worker() {
    let cfg = worker_config("remote", ConfigCommandRole::Remote, Some("/srv/pg"));
    assert!(is_worker(&cfg));

    let local = worker_config("backup", ConfigCommandRole::Local, Some("/srv/pg"));
    assert!(is_worker(&local));

    let main = worker_config("info", ConfigCommandRole::Main, None);
    assert!(!is_worker(&main));
}

#[test]
fn run_worker_stdio_without_root_is_missing_option() {
    let cfg = worker_config("remote", ConfigCommandRole::Remote, None);
    match configured_worker(&cfg) {
        Err(CommandError::MissingOption { option }) => assert!(option.contains("path"), "option was {option:?}"),
        _ => panic!("expected MissingOption"),
    }
}

#[test]
fn a_configured_worker_serves_its_root() {
    let handler = configured_worker(&worker_config("remote", ConfigCommandRole::Remote, Some("/srv/pg"))).ok().unwrap();
    assert_eq!(handler.root(), "/srv/pg");
    assert_eq!(handler.stanza(), None);
}

#[test]
fn record_greeting_records_stanza_from_noop_param() {
    let mut handler = WorkerHandler::new("/srv/pg");
    assert_eq!(handler.stanza(), None, "fresh handler has no stanza");

    let req = request("noOp", vec![text("stanza=demo")]);
    assert!(handler.record_greeting(&req), "noOp with stanza= is a recognised greeting");
    assert_eq!(handler.stanza(), Some("demo"));
}

#[test]
fn record_greeting_ignores_non_greeting_requests() {
    let mut handler = WorkerHandler::new("/srv/pg");

    assert!(!handler.record_greeting(&request("noOp", Vec::new())));
    assert_eq!(handler.stanza(), None);

    assert!(!handler.record_greeting(&request("storage-exists", vec![text("nope.txt")])));
    assert_eq!(handler.stanza(), None);
}

#[test]
fn a_later_greeting_replaces_the_stanza_and_others_keep_it() {
    let mut handler = WorkerHandler::new("/srv/pg");
    handler.record_greeting(&request("noOp", vec![text("stanza=first")]));
    handler.record_greeting(&request("noOp", Vec::new()));
    assert_eq!(handler.stanza(), Some("first"));
    handler.record_greeting(&request("noOp", vec![text("stanza=second")]));
    assert_eq!(handler.stanza(), Some("second"));
}

#[test]
fn parse_stanza_param_picks_first_stanza_token() {
    assert_eq!(WorkerHandler::parse_stanza_param(&[text("stanza=demo")]), Some("demo".to_owned()));
    assert_eq!(WorkerHandler::parse_stanza_param(&[text("stanza=")]), None);
    assert_eq!(WorkerHandler::parse_stanza_param(&[text("other=value")]), None);
    assert_eq!(
        WorkerHandler::parse_stanza_param(&[text("stanza=first"), text("stanza=second")]),
        Some("first".to_owned())
    );
    assert_eq!(
        WorkerHandler::parse_stanza_param(&[ParamValue::Integer(42), text("stanza=after-skip")]),
        Some("after-skip".to_owned())
    );
}

#[test]
fn worker_root_picks_repo1_path_from_grouped_key() {
    let cfg = config_with(vec![(("repo-path", Some(1)), OptionValue::Path("/var/lib/pgbackrest".to_owned()))]);
    assert_eq!(worker_root(&cfg).unwrap(), "/var/lib/pgbackrest");
}

#[test]
fn worker_root_prefers_pg_path_over_repo_path() {
    let cfg = config_with(vec![
        (("pg-path", Some(1)), OptionValue::Path("/srv/pg".to_owned())),
        (("repo-path", Some(1)), OptionValue::Path("/srv/repo".to_owned())),
    ]);
    assert_eq!(worker_root(&cfg).unwrap(), "/srv/pg");
}

#[test]
fn worker_root_errors_when_neither_pg_nor_repo_path_set() {
    match worker_root(&config_with(vec![])).expect_err("empty options must error") {
        CommandError::MissingOption { option } => assert!(option.contains("path"), "option was {option:?}"),
        other => panic!("expected MissingOption, got {other:?}"),
    }
}

#[test]
fn worker_root_ignores_ungrouped_or_empty_values() {
    let cfg_ungrouped = config_with(vec![(("pg-path", None), OptionValue::Path("/ungrouped".to_owned()))]);
    assert!(matches!(worker_root(&cfg_ungrouped), Err(CommandError::MissingOption { .. })));

    let cfg_empty = config_with(vec![(("repo-path", Some(1)), OptionValue::Path(String::new()))]);
    assert!(matches!(worker_root(&cfg_empty), Err(CommandError::MissingOption { .. })));
}
