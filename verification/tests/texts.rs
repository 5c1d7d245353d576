use std::collections::BTreeMap;

use pgbr::config::{read_if_there, CommandError, LoadedConfig, ConfigCommandRole, OptionValue, Options, StorageError};
use pgbr::history::{largest_id, same_history};
use pgbr::info::DbHistoryEntry;
use pgbr::paths::{
    archive_dir, archive_info_path, backup_dir, backup_file_path, backup_info_path, backup_root, bundle_object_path,
    file_name, first_component, manifest_path,
};
use pgbr::text::{
    digit_front, ends_with, join_text, parse_i64, parse_unsigned, print_signed, print_unsigned, replace_char,
    rsplit_once, split_text, starts_with, strip_prefix, text_eq, trim,
};
use pgbr::textmap::{text_before, TextMap};

#[test]
fn pieces_join_to_the_text() {
    for text in ["", "a", "a/b", "/a//b/", "é/ü"] {
        let pieces = split_text(text, '/');
        assert_eq!(join_text(&pieces, pieces.len(), "/"), text);
        assert!(pieces.iter().all(|p| !p.contains('/')));
    }
    assert_eq!(split_text("a//b", '/'), vec!["a".to_owned(), String::new(), "b".to_owned()]);
}

#[test]
fn numbers_read_back() {
    for n in [0, 1, 9, 10, 4_294_967_296, u64::MAX] {
        assert_eq!(print_unsigned(n), n.to_string());
        assert_eq!(parse_unsigned(&print_unsigned(n), u64::MAX), Some(n));
    }
    for n in [i64::MIN, -10, -1, 0, 42, i64::MAX] {
        assert_eq!(print_signed(n), n.to_string());
        assert_eq!(parse_i64(&print_signed(n)), Some(n));
    }
}

#[test]
fn only_numbers_in_range_are_read() {
    for text in ["", "+", "-", "1a", " 1", "9223372036854775808", "--1"] {
        assert_eq!(parse_i64(text), None, "{text:?}");
    }
    assert_eq!(parse_i64("+7"), Some(7));
    assert_eq!(parse_unsigned("-0", u64::MAX), None);
    assert_eq!(parse_unsigned("256", 255), None);
    assert_eq!(parse_unsigned("0255", 255), Some(255));
}

#[test]
fn texts_are_compared_and_cut() {
    assert!(text_eq("é", "é") && !text_eq("é", "e"));
    assert!(starts_with("archive.info", "archive") && !starts_with("arc", "archive"));
    assert!(ends_with("file.gz", ".gz") && !ends_with("gz", ".gz"));
    assert_eq!(strip_prefix("stanza=demo", "stanza="), Some("demo"));
    assert_eq!(strip_prefix("demo", "stanza="), None);
    assert_eq!(rsplit_once("a-b-c", "-"), Some(("a-b", "c")));
    assert_eq!(rsplit_once("abc", "-"), None);
    assert_eq!(replace_char("a-b-c", '-', "_"), "a_b_c");
    assert_eq!(trim(" \t a b \n"), "a b");
    assert_eq!(digit_front("16beta1"), "16");
}

#[test]
fn a_map_is_ordered_and_keeps_the_latest_value() {
    let map = TextMap::new().insert("b".to_owned(), 1).insert("a".to_owned(), 2).insert("b".to_owned(), 3);
    assert_eq!(map.len(), 2);
    assert_eq!((map.key_at(0).as_str(), *map.value_at(0)), ("a", 2));
    assert_eq!((map.key_at(1).as_str(), *map.value_at(1)), ("b", 3));
    assert_eq!(map.get("c"), None);
    assert_eq!(map.find("b"), Some(1));
    assert!(text_before("a", "ab") && text_before("Z", "a") && !text_before("a", "a"));
}

#[test]
fn options_keep_the_latest_value_of_a_name_and_an_index() {
    let mut options = Options::new();
    options.insert("repo-path", Some(1), OptionValue::Path("/a".to_owned()));
    options.insert("repo-path", Some(2), OptionValue::Path("/b".to_owned()));
    options.insert("repo-path", Some(1), OptionValue::Path("/c".to_owned()));
    assert!(matches!(options.get("repo-path", Some(1)), Some(OptionValue::Path(p)) if p == "/c"));
    assert!(matches!(options.get("repo-path", Some(2)), Some(OptionValue::Path(p)) if p == "/b"));
    assert!(options.get("repo-path", None).is_none());
    let config = LoadedConfig {
        command: "info".to_owned(),
        command_role: ConfigCommandRole::Main,
        stanza: None,
        options,
        params: Vec::new(),
    };
    assert_eq!(
        pgbr::config::require_stanza(&config),
        Err(CommandError::MissingOption { option: "stanza".to_owned() })
    );
}

#[test]
fn only_a_missing_file_reads_as_nothing() {
    assert_eq!(read_if_there(Ok(vec![1])), Ok(Some(vec![1])));
    assert_eq!(read_if_there(Err(StorageError::NotFound { path: "a".to_owned() })), Ok(None));
    let denied = StorageError::Backend { message: "permission denied".to_owned() };
    assert_eq!(read_if_there(Err(denied.clone())), Err(CommandError::Storage(denied)));
}

#[test]
fn everything_has_its_place_in_a_repository() {
    assert_eq!(archive_dir("demo"), "archive/demo");
    assert_eq!(archive_info_path("demo"), "archive/demo/archive.info");
    assert_eq!(backup_dir("demo"), "backup/demo");
    assert_eq!(backup_info_path("demo"), "backup/demo/backup.info");
    assert_eq!(backup_root("demo", "L"), "backup/demo/L");
    assert_eq!(manifest_path("demo", "L"), "backup/demo/L/backup.manifest");
    assert_eq!(backup_file_path("demo", "L", "a/b"), "backup/demo/L/a/b");
    assert_eq!(bundle_object_path("demo", "L", 7), "backup/demo/L/bundle/7");
    assert_eq!(file_name("a/b/").as_deref(), Some("b"));
    assert_eq!(file_name("/"), None);
    assert_eq!(first_component("a/b").as_deref(), Some("a"));
}

#[test]
fn histories_are_compared_by_what_they_record() {
    let entry = |db_id: u64, version: &str| DbHistoryEntry { db_id, db_version: version.to_owned() };
    let history = |entries: &[(u32, u64, &str)]| {
        let mut map = BTreeMap::new();
        for (n, id, version) in entries {
            map.insert(*n, entry(*id, version));
        }
        map
    };
    let a = history(&[(1, 5, "14"), (4, 6, "15")]);
    assert!(same_history(&a, &history(&[(4, 6, "15"), (1, 5, "14")])));
    assert!(!same_history(&a, &history(&[(1, 5, "14")])));
    assert!(!same_history(&a, &history(&[(1, 5, "14"), (4, 6, "16")])));
    assert!(!same_history(&a, &history(&[(1, 5, "14"), (3, 6, "15")])));
    assert_eq!(largest_id(&a), Some(4));
    assert_eq!(largest_id(&BTreeMap::new()), None);
}
