//! Which backup a restore takes.
use vstd::prelude::*;

use crate::textmap;
use crate::restore::time;
use crate::restore::recovery;
use crate::config;
use crate::config::{other_error, string_option, CommandError, LoadedConfig, OptionValue};
use crate::info::{BackupEntry, InfoBackup};
use crate::restore::recovery::{recovery_type, RecoveryType, TargetKind};
use crate::restore::time::civil_seconds;
use crate::text::{cat3, text_eq};
use crate::textmap::TextMap;

verus! {

/// The integer that the JSON object written by `text` holds under `key`: what
/// `serde_json` reads there, where it fits an `i64`.
pub uninterp spec fn json_integer_field(text: Seq<char>, key: Seq<char>) -> Option<int>;

/// Reads `text` with `serde_json::from_str` and hands out the integer under `key`.
/// Text that is no JSON, a missing key and a value that is no `i64` give none. The
/// result is claimed to depend on the two texts alone; how JSON is read is left to
/// `serde_json`.
#[verifier::external_body]
fn json_integer(text: &str, key: &str) -> (r: Option<i64>)
    ensures
        json_integer_field(text@, key@) == (match r {
            Some(v) => Some(v as int),
            None => None,
        }),
{
    let value: serde_json::Value = serde_json::from_str(text).ok()?;
    value.get(key)?.as_i64()
}

/// When a backup stopped, as its metadata records it.
pub open spec fn stop_of(entry: BackupEntry) -> Option<int> {
    json_integer_field(entry.metadata@, "backup-timestamp-stop"@)
}

/// When a backup stopped, as its metadata records it.
pub fn entry_timestamp_stop(entry: &BackupEntry) -> (r: Option<i64>)
    ensures
        stop_of(*entry) == (match r {
            Some(v) => Some(v as int),
            None => None,
        }),
{
    json_integer(entry.metadata.as_str(), "backup-timestamp-stop")
}

/// The stop times as numbers.
pub open spec fn stop_views(stops: Seq<Option<i64>>) -> Seq<Option<int>> {
    Seq::new(
        stops.len(),
        |i: int|
            match stops[i] {
                Some(v) => Some(v as int),
                None => None,
            },
    )
}

/// The last of the first `n` backups that stopped at or before `target`.
pub open spec fn last_stopped(stops: Seq<Option<int>>, target: int, n: int) -> Option<int>
    decreases n,
{
    if n <= 0 {
        None
    } else if stops[n - 1] matches Some(v) && v <= target {
        Some(n - 1)
    } else {
        last_stopped(stops, target, n - 1)
    }
}

/// The backup to take for a point in time: the last that stopped at or before it,
/// else the first there is.
pub open spec fn pick(stops: Seq<Option<int>>, target: int) -> Option<int> {
    match last_stopped(stops, target, stops.len() as int) {
        Some(i) => Some(i),
        None => if stops.len() > 0 {
            Some(0int)
        } else {
            None
        },
    }
}

/// The backup to take for a point in time, by the times at which the backups
/// stopped, in the order of their labels.
pub fn pick_by_time(stops: &Vec<Option<i64>>, target: i128) -> (r: Option<usize>)
    ensures
        pick(stop_views(stops@), target as int) == (match r {
            Some(i) => Some(i as int),
            None => None,
        }),
        r matches Some(i) ==> i < stops.len(),
{
    let ghost model = stop_views(stops@);
    let mut i: usize = stops.len();
    while i > 0
        invariant
            i <= stops.len(),
            model == stop_views(stops@),
            last_stopped(model, target as int, model.len() as int) == last_stopped(model, target as int, i as int),
        decreases i,
    {
        i -= 1;
        if let Some(v) = stops[i] {
            if v as i128 <= target {
                return Some(i);
            }
        }
    }
    if stops.len() > 0 {
        Some(0)
    } else {
        None
    }
}

/// Whether two lists of backups have the same labels and metadata.
pub open spec fn same_backups(a: TextMap<BackupEntry>, b: TextMap<BackupEntry>) -> bool {
    &&& a.keys() == b.keys()
    &&& a.vals().len() == b.vals().len()
    &&& forall|i: int| 0 <= i < a.vals().len() ==> (#[trigger] a.vals()[i]).metadata@ == b.vals()[i].metadata@
}

/// Such lists have the same stop times.
pub proof fn lemma_same_stops(a: TextMap<BackupEntry>, b: TextMap<BackupEntry>)
    requires
        same_backups(a, b),
    ensures
        stops_of(a) == stops_of(b),
{
    assert forall|i: int| 0 <= i < a.vals().len() implies stop_of(a.vals()[i]) == stop_of(b.vals()[i]) by {
        assert(a.vals()[i].metadata@ == b.vals()[i].metadata@);
    }
    assert(stops_of(a) =~= stops_of(b));
}

/// The stop times of the current backups, in the order of their labels.
pub open spec fn stops_of(current: TextMap<BackupEntry>) -> Seq<Option<int>> {
    Seq::new(current.vals().len(), |i: int| stop_of(current.vals()[i]))
}

fn current_stops(current: &TextMap<BackupEntry>) -> (r: Vec<Option<i64>>)
    ensures
        stop_views(r@) == stops_of(*current),
        r.len() == current.keys().len(),
{
    let mut out: Vec<Option<i64>> = Vec::new();
    let n: usize = current.len();
    let mut i: usize = 0;
    while i < n
        invariant
            i <= n,
            n == current.vals().len(),
            out.len() == i,
            forall|k: int| 0 <= k < i ==> #[trigger] stop_views(out@)[k] == stops_of(*current)[k],
        decreases n - i,
    {
        let ghost before = stop_views(out@);
        out.push(entry_timestamp_stop(current.value_at(i)));
        proof {
            assert forall|k: int| 0 <= k < i + 1 implies #[trigger] stop_views(out@)[k] == stops_of(*current)[k] by {
                if k < i {
                    assert(stop_views(out@)[k] == before[k]);
                }
            }
        }
        i += 1;
    }
    assert(stop_views(out@) =~= stops_of(*current));
    out
}

/// The label of the backup to take for a point in time; none where there are no
/// backups.
pub fn select_backup_by_time(info: &InfoBackup, target: i128) -> (r: Option<String>)
    ensures
        match pick(stops_of(info.current), target as int) {
            Some(i) => r matches Some(label) && label@ == info.current.keys()[i],
            None => r is None,
        },
{
    match pick_by_time(&current_stops(&info.current), target) {
        Some(i) => Some(info.current.key_at(i).clone()),
        None => None,
    }
}

/// The label given by the option `set`, where one was.
pub fn requested_set(config: &LoadedConfig) -> (r: Option<&str>)
    ensures
        crate::config::opt_view(r) == config::string_of(config.option("set"@, None)),
{
    match config.options.get("set", None) {
        Some(OptionValue::String(label)) => Some(label.as_str()),
        _ => None,
    }
}

/// The point in time that the options ask for: `repo-target-time` where it can be
/// read, else the target of a recovery to a point in time.
pub open spec fn target_time_of(config: LoadedConfig) -> Option<int> {
    let explicit = match config::text_of(config.option("repo-target-time"@, None)) {
        Some(raw) => time::epoch_of(raw),
        None => None,
    };
    match explicit {
        Some(t) => Some(t),
        None => if recovery::recovery_type_of(config) == RecoveryType::Target(TargetKind::Time) {
            match config::text_of(config.option("target"@, None)) {
                Some(raw) => time::epoch_of(raw),
                None => None,
            }
        } else {
            None
        },
    }
}

/// The point in time that the options ask for.
pub fn backup_set_target_time(config: &LoadedConfig) -> (r: Option<i128>)
    ensures
        target_time_of(*config) == (match r {
            Some(t) => Some(t as int),
            None => None,
        }),
{
    if let Some(raw) = string_option(config, "repo-target-time") {
        if let Some(t) = civil_seconds(raw) {
            return Some(t);
        }
    }
    if recovery_type(config) == RecoveryType::Target(TargetKind::Time) {
        if let Some(raw) = string_option(config, "target") {
            return civil_seconds(raw);
        }
    }
    None
}

/// The place of the backup that the options select among the current ones.
pub open spec fn selected(config: LoadedConfig, current: TextMap<BackupEntry>) -> Option<int> {
    let set = config::string_of(config.option("set"@, None));
    if set is Some && set != Some("latest"@) {
        textmap::position(current.keys(), set.unwrap())
    } else {
        match target_time_of(config) {
            Some(t) => pick(stops_of(current), t),
            None => if current.keys().len() > 0 {
                Some(current.keys().len() - 1)
            } else {
                None
            },
        }
    }
}

/// Why the options select no backup.
pub open spec fn selection_error(config: LoadedConfig) -> Seq<char> {
    let set = config::string_of(config.option("set"@, None));
    if set is Some && set != Some("latest"@) {
        "backup set "@ + set.unwrap() + " is not present in the repository"@
    } else {
        "no backups to restore"@
    }
}

/// The backup that the options select: its place among the current ones.
pub fn select_backup(config: &LoadedConfig, info: &InfoBackup) -> (r: Result<usize, CommandError>)
    ensures
        match selected(*config, info.current) {
            Some(i) => r matches Ok(k) && k == i && k < info.current.keys().len() && k < info.current.vals().len(),
            None => r matches Err(e) && e.is_other(selection_error(*config)),
        },
{
    let n: usize = info.current.len();
    if let Some(label) = requested_set(config) {
        if !text_eq(label, "latest") {
            return match info.current.find(label) {
                Some(i) => Ok(i),
                None => Err(CommandError::Other(cat3("backup set ", label, " is not present in the repository"))),
            };
        }
    }
    if let Some(target) = backup_set_target_time(config) {
        return match pick_by_time(&current_stops(&info.current), target) {
            Some(i) => Ok(i),
            None => Err(other_error("no backups to restore")),
        };
    }
    if n == 0 {
        Err(other_error("no backups to restore"))
    } else {
        Ok(n - 1)
    }
}

/// Without a set and without a point in time the latest backup is taken: no label
/// comes after its label.
pub proof fn law_latest_by_default(config: LoadedConfig, current: TextMap<BackupEntry>, other: int)
    requires
        current.wf(),
        0 <= other < current.keys().len(),
        config::string_of(config.option("set"@, None)) is None || config::string_of(config.option("set"@, None)) == Some("latest"@),
        target_time_of(config) is None,
    ensures
        selected(config, current) matches Some(i) && 0 <= i < current.keys().len() && (other == i || textmap::text_lt(
            current.keys()[other],
            current.keys()[i],
        )),
{
}

/// For a point in time the backup taken is the latest that stopped at or before
/// it; where none did, it is the first there is.
pub proof fn law_pick_is_latest_stopped(stops: Seq<Option<int>>, target: int)
    requires
        stops.len() > 0,
    ensures
        pick(stops, target) matches Some(i) && 0 <= i < stops.len() && {
            ||| (stops[i] matches Some(v) && v <= target) && (forall|j: int|
                i < j < stops.len() ==> !(#[trigger] stops[j] matches Some(v) && v <= target))
            ||| i == 0 && (forall|j: int| 0 <= j < stops.len() ==> !(#[trigger] stops[j] matches Some(v) && v <= target))
        },
{
    lemma_last_stopped(stops, target, stops.len() as int);
}

proof fn lemma_last_stopped(stops: Seq<Option<int>>, target: int, n: int)
    requires
        0 <= n <= stops.len(),
    ensures
        match last_stopped(stops, target, n) {
            Some(i) => 0 <= i < n && (stops[i] matches Some(v) && v <= target) && forall|j: int|
                i < j < n ==> !(#[trigger] stops[j] matches Some(v) && v <= target),
            None => forall|j: int| 0 <= j < n ==> !(#[trigger] stops[j] matches Some(v) && v <= target),
        },
    decreases n,
{
    if n > 0 {
        lemma_last_stopped(stops, target, n - 1);
    }
}

/// A set that was asked for is taken if and only if it is current.
pub proof fn law_set_is_taken(config: LoadedConfig, current: TextMap<BackupEntry>, label: Seq<char>)
    requires
        current.wf(),
        config::string_of(config.option("set"@, None)) == Some(label),
        label != "latest"@,
    ensures
        match selected(config, current) {
            Some(i) => 0 <= i < current.keys().len() && current.keys()[i] == label,
            None => !current.keys().contains(label),
        },
{
    if current.keys().contains(label) {
        let i = choose|i: int| 0 <= i < current.keys().len() && current.keys()[i] == label;
        textmap::lemma_position(current.keys(), label, i);
    }
}

/// A set is asked for by free text under `set`, and by nothing else.
pub proof fn law_set_is_read(config: &LoadedConfig, r: Option<&str>)
    requires
        call_ensures(requested_set, (config,), r),
    ensures
        match config.option("set"@, None) {
            Some(OptionValue::String(s)) => r matches Some(t) && t@ == s@,
            _ => r is None,
        },
{
}

/// Whether the metadata of the backup at place `i` says that it stopped at or before
/// `target`.
pub open spec fn stopped_by(info: &InfoBackup, i: int, target: int) -> bool {
    json_integer_field(info.current.vals()[i].metadata@, "backup-timestamp-stop"@) matches Some(v) && v <= target
}

/// A restore to a point in time takes, of all current backups, the most recent one that
/// stopped at or before that point; where none did, the first one.
pub proof fn law_point_in_time_takes_the_last_stopped(
    config: &LoadedConfig,
    info: &InfoBackup,
    set: Option<&str>,
    target: Option<i128>,
    r: Result<usize, CommandError>,
)
    requires
        info.current.wf(),
        call_ensures(requested_set, (config,), set),
        call_ensures(backup_set_target_time, (config,), target),
        call_ensures(select_backup, (config, info), r),
        set matches Some(label) ==> label@ == "latest"@,
        target is Some,
    ensures
        info.current.vals().len() == 0 ==> r is Err,
        info.current.vals().len() > 0 ==> {
            &&& r is Ok
            &&& r.unwrap() < info.current.vals().len()
            &&& stopped_by(info, r.unwrap() as int, target.unwrap() as int) || r.unwrap() == 0
            &&& forall|j: int|
                r.unwrap() < j < info.current.vals().len() ==> !#[trigger] stopped_by(info, j, target.unwrap() as int)
        },
{
    let stops = stops_of(info.current);
    let t = target.unwrap() as int;
    assert(stops.len() == info.current.vals().len());
    assert(forall|i: int|
        0 <= i < stops.len() ==> #[trigger] stopped_by(info, i, t) == (stops[i] is Some && stops[i].unwrap() <= t));
    if stops.len() > 0 {
        law_pick_is_latest_stopped(stops, t);
        assert(selected(*config, info.current) == pick(stops, t));
    }
}

/// Where a set is asked for it is the one that is taken, and an error where it is not
/// current; without a set and a point in time the backup with the last label is taken.
pub proof fn law_set_or_latest(
    config: &LoadedConfig,
    info: &InfoBackup,
    set: Option<&str>,
    target: Option<i128>,
    r: Result<usize, CommandError>,
)
    requires
        info.current.wf(),
        call_ensures(requested_set, (config,), set),
        call_ensures(backup_set_target_time, (config,), target),
        call_ensures(select_backup, (config, info), r),
    ensures
        ({
            let keys = info.current.keys();
            let named = set is Some && set.unwrap()@ != "latest"@;
            &&& named ==> match r {
                Ok(k) => k < keys.len() && keys[k as int] == set.unwrap()@,
                Err(e) => (forall|i: int| 0 <= i < keys.len() ==> #[trigger] keys[i] != set.unwrap()@) && e.is_other(
                    "backup set "@ + set.unwrap()@ + " is not present in the repository"@,
                ),
            }
            &&& !named && target is None ==> match r {
                Ok(k) => k + 1 == keys.len(),
                Err(e) => keys.len() == 0 && e.is_other("no backups to restore"@),
            }
        }),
{
    let keys = info.current.keys();
    if set is Some && set.unwrap()@ != "latest"@ {
        law_set_is_taken(*config, info.current, set.unwrap()@);
        if r is Err {
            assert forall|i: int| 0 <= i < keys.len() implies #[trigger] keys[i] != set.unwrap()@ by {
                if keys[i] == set.unwrap()@ {
                    assert(keys.contains(set.unwrap()@));
                }
            }
        }
    }
}

/// The label that is picked by time is that of the backup that is picked, and it is the
/// last whose stop lies at or before the target; an earlier one is never better.
pub proof fn law_label_by_time(info: &InfoBackup, target: i128, r: Option<String>)
    requires
        info.current.wf(),
        call_ensures(select_backup_by_time, (info, target), r),
    ensures
        match r {
            None => info.current.keys().len() == 0,
            Some(label) => exists|k: int|
                0 <= k < info.current.keys().len() && #[trigger] info.current.keys()[k] == label@ && (stopped_by(
                    info,
                    k,
                    target as int,
                ) || k == 0) && (forall|j: int|
                    k < j < info.current.keys().len() ==> !#[trigger] stopped_by(info, j, target as int)),
        },
{
    let stops = stops_of(info.current);
    let n = info.current.keys().len() as int;
    assert(stops.len() == n);
    assert(forall|i: int|
        0 <= i < stops.len() ==> #[trigger] stopped_by(info, i, target as int) == (stops[i] is Some && stops[i].unwrap()
            <= target));
    if n > 0 {
        law_pick_is_latest_stopped(stops, target as int);
        let k = pick(stops, target as int).unwrap();
        assert(info.current.keys()[k] == r.unwrap()@);
    }
}

/// A point in time is asked for by `repo-target-time`, else by the target of a recovery
/// of type `time`; what is written there is read as a timestamp.
pub proof fn law_point_in_time_is_read(
    config: &LoadedConfig,
    explicit: Option<&str>,
    kind: Option<&str>,
    target: Option<&str>,
    r: Option<i128>,
)
    requires
        call_ensures(string_option, (config, "repo-target-time"), explicit),
        call_ensures(crate::config::id_or_string_option, (config, "type"), kind),
        call_ensures(string_option, (config, "target"), target),
        call_ensures(backup_set_target_time, (config,), r),
    ensures
        ({
            let given = match explicit {
                Some(raw) => time::epoch_of(raw@),
                None => None,
            };
            let aimed = kind is Some && kind.unwrap()@ == "time"@ && target is Some;
            match r {
                Some(v) => given == Some(v as int) || (given is None && aimed && time::epoch_of(target.unwrap()@) == Some(v as int)),
                None => given is None && (aimed ==> time::epoch_of(target.unwrap()@) is None),
            }
        }),
{
    if let Some(k) = kind {
        if k@ != "time"@ {
            assert(recovery::type_named(k@) != RecoveryType::Target(TargetKind::Time));
        }
        reveal_strlit("time");
        reveal_strlit("none");
        reveal_strlit("immediate");
        reveal_strlit("standby");
        assert("none"@[0] == 'n' && "time"@[0] == 't');
        assert("time"@.len() == 4 && "immediate"@.len() == 9 && "standby"@.len() == 7);
    }
}

/// Of the stops that are not behind the target the last is picked; where there is none, the
/// first backup; without backups, nothing.
pub proof fn law_last_stop_is_picked(stops: &Vec<Option<i64>>, target: i128, r: Option<usize>, j: int)
    requires
        call_ensures(pick_by_time, (stops, target), r),
    ensures
        r is Some <==> stops.len() > 0,
        r is Some ==> r.unwrap() < stops.len(),
        r is Some && r.unwrap() > 0 ==> (stops[r.unwrap() as int] matches Some(v) && v <= target),
        r is Some && r.unwrap() < j < stops.len() ==> !(stops[j] matches Some(v) && v <= target),
{
    let views = stop_views(stops@);
    assert(views.len() == stops.len());
    if views.len() > 0 {
        law_pick_is_latest_stopped(views, target as int);
        let i = r.unwrap() as int;
        assert(views[i] is Some <==> stops[i] is Some);
        if i < j < stops.len() {
            assert(views[j] is Some <==> stops[j] is Some);
        }
    }
}

/// A backup stopped when its metadata says so.
pub proof fn law_stop_is_read(entry: &BackupEntry, r: Option<i64>)
    requires
        call_ensures(entry_timestamp_stop, (entry,), r),
    ensures
        r is Some <==> json_integer_field(entry.metadata@, "backup-timestamp-stop"@) is Some,
        r is Some ==> json_integer_field(entry.metadata@, "backup-timestamp-stop"@) == Some(r.unwrap() as int),
{
}

}
