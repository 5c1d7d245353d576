//! The recovery configuration that a restore leaves behind.
use vstd::prelude::*;

use crate::text;
use crate::config;
use crate::config::{
    hash_option, id_or_string_option, read_if_there, string_option, switched_on, CommandError, LoadedConfig, OptionValue,
    PairsView, StorageError,
};
use crate::text::{digit_front, parse_unsigned, replace_char, text_eq};
use crate::textmap::TextMap;

verus! {

/// The first major version that is configured by settings and a signal file
/// rather than by `recovery.conf`.
pub const PG_VERSION_RECOVERY_GUC: u32 = 12;

/// What kind of target recovery stops at.
#[derive(Debug, Clone, Copy, PartialEq, Eq, Structural)]
pub enum TargetKind {
    Time,
    Name,
    Lsn,
    Xid,
}

/// How the restored cluster recovers.
#[derive(Debug, Clone, Copy, PartialEq, Eq, Structural)]
pub enum RecoveryType {
    /// No recovery file is written.
    NoRecovery,
    /// Up to the first consistent point.
    Immediate,
    /// As a standby.
    Standby,
    /// Up to a target.
    Target(TargetKind),
    /// To the end of the archive.
    Default,
}

/// The ending of the `recovery_target_…` setting for a kind.
pub open spec fn kind_suffix(kind: TargetKind) -> Seq<char> {
    match kind {
        TargetKind::Time => "time"@,
        TargetKind::Name => "name"@,
        TargetKind::Lsn => "lsn"@,
        TargetKind::Xid => "xid"@,
    }
}

impl TargetKind {
    /// The ending of the `recovery_target_…` setting for this kind.
    pub fn guc_suffix(self) -> (r: &'static str)
        ensures
            r@ == kind_suffix(self),
    {
        match self {
            TargetKind::Time => "time",
            TargetKind::Name => "name",
            TargetKind::Lsn => "lsn",
            TargetKind::Xid => "xid",
        }
    }

    /// Whether recovery can be told to stop just before a target of this kind.
    pub fn supports_inclusive(self) -> (r: bool)
        ensures
            r == (self != TargetKind::Name),
    {
        match self {
            TargetKind::Name => false,
            _ => true,
        }
    }
}

/// The recovery type that the word `raw` stands for.
pub open spec fn type_named(raw: Seq<char>) -> RecoveryType {
    if raw == "none"@ {
        RecoveryType::NoRecovery
    } else if raw == "immediate"@ {
        RecoveryType::Immediate
    } else if raw == "standby"@ {
        RecoveryType::Standby
    } else if raw == "time"@ {
        RecoveryType::Target(TargetKind::Time)
    } else if raw == "name"@ {
        RecoveryType::Target(TargetKind::Name)
    } else if raw == "lsn"@ {
        RecoveryType::Target(TargetKind::Lsn)
    } else if raw == "xid"@ {
        RecoveryType::Target(TargetKind::Xid)
    } else {
        RecoveryType::Default
    }
}

/// The recovery type that the option `type` asks for.
pub open spec fn recovery_type_of(config: LoadedConfig) -> RecoveryType {
    match config::id_or_string_of(config.option("type"@, None)) {
        Some(raw) => type_named(raw),
        None => RecoveryType::Default,
    }
}

/// The recovery type that the option `type` asks for.
pub fn recovery_type(config: &LoadedConfig) -> (r: RecoveryType)
    ensures
        r == recovery_type_of(*config),
{
    let raw = match id_or_string_option(config, "type") {
        Some(raw) => raw,
        None => return RecoveryType::Default,
    };
    if text_eq(raw, "none") {
        RecoveryType::NoRecovery
    } else if text_eq(raw, "immediate") {
        RecoveryType::Immediate
    } else if text_eq(raw, "standby") {
        RecoveryType::Standby
    } else if text_eq(raw, "time") {
        RecoveryType::Target(TargetKind::Time)
    } else if text_eq(raw, "name") {
        RecoveryType::Target(TargetKind::Name)
    } else if text_eq(raw, "lsn") {
        RecoveryType::Target(TargetKind::Lsn)
    } else if text_eq(raw, "xid") {
        RecoveryType::Target(TargetKind::Xid)
    } else {
        RecoveryType::Default
    }
}

/// What happens when the target is reached; anything unknown pauses.
pub open spec fn action_of(config: LoadedConfig) -> Seq<char> {
    match config::id_or_string_of(config.option("target-action"@, None)) {
        Some(raw) => if raw == "promote"@ || raw == "shutdown"@ {
            raw
        } else {
            "pause"@
        },
        None => "pause"@,
    }
}

/// What happens when the target is reached.
pub fn target_action(config: &LoadedConfig) -> (r: &'static str)
    ensures
        r@ == action_of(*config),
{
    match id_or_string_option(config, "target-action") {
        Some(raw) => {
            if text_eq(raw, "promote") {
                "promote"
            } else if text_eq(raw, "shutdown") {
                "shutdown"
            } else {
                "pause"
            }
        },
        None => "pause",
    }
}

/// Whether recovery stops just before the target.
pub fn target_exclusive(config: &LoadedConfig) -> (r: bool)
    ensures
        r == (config.option("target-exclusive"@, None) == Some(OptionValue::Boolean(true))),
{
    switched_on(config, "target-exclusive")
}

/// The timeline to recover along, where one was given.
pub fn target_timeline(config: &LoadedConfig) -> (r: Option<&str>)
    ensures
        config::opt_view(r) == config::text_of(config.option("target-timeline"@, None)),
{
    string_option(config, "target-timeline")
}

/// The version to take in place of the recorded one, where one was given.
pub fn pg_version_force(config: &LoadedConfig) -> (r: Option<&str>)
    ensures
        config::opt_view(r) == config::text_of(config.option("pg-version-force"@, None)),
{
    string_option(config, "pg-version-force")
}

/// Whether the restored cluster is to archive nothing.
pub fn archive_mode_off(config: &LoadedConfig) -> (r: bool)
    ensures
        r == (config::id_or_string_of(config.option("archive-mode"@, None)) == Some("off"@)),
{
    match id_or_string_option(config, "archive-mode") {
        Some(v) => text_eq(v, "off"),
        None => false,
    }
}

/// The extra recovery settings, where any were given.
pub fn recovery_options(config: &LoadedConfig) -> (r: Option<&TextMap<String>>)
    ensures
        config::opt_map(r) == config::hash_of(config.option("recovery-option"@, None)),
{
    hash_option(config, "recovery-option")
}

/// The command that fetches one archived segment.
pub open spec fn fetch_command(stanza: Seq<char>) -> Seq<char> {
    "pgbackrest --stanza="@ + stanza + " archive-get %f \"%p\""@
}

/// The command that fetches one archived segment.
pub fn restore_command(stanza: &str) -> (r: String)
    ensures
        r@ == fetch_command(stanza@),
{
    crate::text::cat3("pgbackrest --stanza=", stanza, " archive-get %f \"%p\"")
}

/// The name of a setting, given with dashes or with underscores.
pub open spec fn setting_name(key: Seq<char>) -> Seq<char> {
    text::replaced(key, '-', '_')
}

/// The name of a setting, given with dashes or with underscores.
pub fn normalise_recovery_key(key: &str) -> (r: String)
    ensures
        r@ == setting_name(key@),
{
    proof {
        reveal_strlit("_");
    }
    replace_char(key, '-', "_")
}

/// Whether one of `keys` names the setting `guc`.
pub open spec fn names_setting(keys: Seq<Seq<char>>, guc: Seq<char>) -> bool {
    exists|i: int| 0 <= i < keys.len() && #[trigger] setting_name(keys[i]) == guc
}

/// Whether the extra settings name the setting `guc`.
pub open spec fn overridden(options: Option<PairsView>, guc: Seq<char>) -> bool {
    match options {
        Some(map) => names_setting(map.keys, guc),
        None => false,
    }
}

/// Whether the extra settings name the setting `guc`.
pub fn user_overrides(options: Option<&TextMap<String>>, guc: &str) -> (r: bool)
    ensures
        r == overridden(config::opt_map(options), guc@),
{
    let map = match options {
        Some(map) => map,
        None => return false,
    };
    let n: usize = map.len();
    let mut i: usize = 0;
    while i < n
        invariant
            i <= n,
            n == map.keys().len(),
            config::opt_map(options) == Some(config::pairs_of(*map)),
            forall|k: int| 0 <= k < i ==> #[trigger] setting_name(map.keys()[k]) != guc@,
        decreases n - i,
    {
        if text_eq(normalise_recovery_key(map.key_at(i).as_str()).as_str(), guc) {
            return true;
        }
        i += 1;
    }
    false
}

/// One setting on a line of its own: `key = 'value'`.
pub open spec fn setting_line(key: Seq<char>, value: Seq<char>) -> Seq<char> {
    key + " = '"@ + value + "'\n"@
}

fn push_setting(out: &mut String, key: &str, value: &str)
    ensures
        final(out)@ == old(out)@ + setting_line(key@, value@),
{
    out.append(key);
    out.append(" = '");
    out.append(value);
    out.append("'\n");
    assert(out@ =~= old(out)@ + setting_line(key@, value@));
}

/// The settings beyond the command and the type.
pub struct RecoverySettings<'a> {
    /// The target to stop at.
    pub target: Option<&'a str>,
    /// Whether to stop just before it.
    pub exclusive: bool,
    /// What happens there.
    pub action: &'a str,
    /// The timeline to follow.
    pub timeline: Option<&'a str>,
    /// Extra settings; they win over the settings of the same name.
    pub recovery_options: Option<&'a TextMap<String>>,
    /// Whether the cluster is to archive nothing.
    pub archive_mode_off: bool,
}

/// The contents of [`RecoverySettings`].
pub struct RecoveryView {
    pub target: Option<Seq<char>>,
    pub exclusive: bool,
    pub action: Seq<char>,
    pub timeline: Option<Seq<char>>,
    pub options: Option<PairsView>,
    pub archive_mode_off: bool,
}

impl<'a> View for RecoverySettings<'a> {
    type V = RecoveryView;

    open spec fn view(&self) -> RecoveryView {
        RecoveryView {
            target: config::opt_view(self.target),
            exclusive: self.exclusive,
            action: self.action@,
            timeline: config::opt_view(self.timeline),
            options: config::opt_map(self.recovery_options),
            archive_mode_off: self.archive_mode_off,
        }
    }
}

/// A setting that restore itself gives, on its line, unless the extra settings name
/// it: theirs is then the only one.
pub open spec fn built_in(s: RecoveryView, key: Seq<char>, value: Seq<char>) -> Seq<char> {
    if overridden(s.options, key) {
        Seq::<char>::empty()
    } else {
        setting_line(key, value)
    }
}

fn push_built_in(out: &mut String, settings: &RecoverySettings<'_>, key: &str, value: &str)
    ensures
        final(out)@ == old(out)@ + built_in(settings@, key@, value@),
{
    if !user_overrides(settings.recovery_options, key) {
        push_setting(out, key, value);
    } else {
        assert(out@ =~= old(out)@ + built_in(settings@, key@, value@));
    }
}

/// The line with the fetch command.
pub open spec fn command_part(stanza: Seq<char>, s: RecoveryView) -> Seq<char> {
    built_in(s, "restore_command"@, fetch_command(stanza))
}

/// The lines that say where recovery stops.
pub open spec fn target_part(db_major: u32, ty: RecoveryType, s: RecoveryView) -> Seq<char> {
    match ty {
        RecoveryType::Immediate => built_in(s, "recovery_target"@, "immediate"@),
        RecoveryType::Standby => if db_major < PG_VERSION_RECOVERY_GUC {
            built_in(s, "standby_mode"@, "on"@)
        } else {
            Seq::<char>::empty()
        },
        RecoveryType::Target(kind) => match s.target {
            Some(value) => built_in(s, "recovery_target_"@ + kind_suffix(kind), value) + (if s.exclusive && kind
                != TargetKind::Name {
                built_in(s, "recovery_target_inclusive"@, "false"@)
            } else {
                Seq::<char>::empty()
            }),
            None => Seq::<char>::empty(),
        },
        _ => Seq::<char>::empty(),
    }
}

/// The line that says what happens at the target, unless recovery pauses there.
pub open spec fn action_part(s: RecoveryView) -> Seq<char> {
    if s.action == "pause"@ {
        Seq::<char>::empty()
    } else {
        built_in(s, "recovery_target_action"@, s.action)
    }
}

/// The line with the timeline. Before settings-driven recovery `current` cannot
/// be written; from there on an immediate stop is pinned to it.
pub open spec fn timeline_part(db_major: u32, ty: RecoveryType, s: RecoveryView) -> Seq<char> {
    match s.timeline {
        Some(value) => if db_major >= PG_VERSION_RECOVERY_GUC || value != "current"@ {
            built_in(s, "recovery_target_timeline"@, value)
        } else {
            Seq::<char>::empty()
        },
        None => if ty == RecoveryType::Immediate && db_major >= PG_VERSION_RECOVERY_GUC {
            built_in(s, "recovery_target_timeline"@, "current"@)
        } else {
            Seq::<char>::empty()
        },
    }
}

/// The line that turns archiving off, unless the extra settings name it.
pub open spec fn archive_part(s: RecoveryView) -> Seq<char> {
    if s.archive_mode_off && !overridden(s.options, "archive_mode"@) {
        "archive_mode = off\n"@
    } else {
        Seq::<char>::empty()
    }
}

/// The first `n` extra settings, one per line, in the order of their keys.
pub open spec fn option_lines(map: PairsView, n: int) -> Seq<char>
    decreases n,
{
    if n <= 0 {
        Seq::<char>::empty()
    } else {
        option_lines(map, n - 1) + setting_line(setting_name(map.keys[n - 1]), map.vals[n - 1])
    }
}

/// The extra settings, one per line.
pub open spec fn options_part(s: RecoveryView) -> Seq<char> {
    match s.options {
        Some(map) => option_lines(map, map.keys.len() as int),
        None => Seq::<char>::empty(),
    }
}

/// The recovery settings; empty where there is to be no recovery.
pub open spec fn recovery_text(db_major: u32, stanza: Seq<char>, ty: RecoveryType, s: RecoveryView) -> Seq<char> {
    if ty == RecoveryType::NoRecovery {
        Seq::<char>::empty()
    } else {
        "# Recovery settings generated by pgBackRest restore\n"@ + command_part(stanza, s) + target_part(db_major, ty, s)
            + action_part(s) + timeline_part(db_major, ty, s) + archive_part(s) + options_part(s)
    }
}

/// The recovery settings; empty where there is to be no recovery.
pub fn recovery_block(db_major: u32, stanza: &str, ty: RecoveryType, settings: RecoverySettings<'_>) -> (r: String)
    ensures
        r@ == recovery_text(db_major, stanza@, ty, settings@),
{
    if ty == RecoveryType::NoRecovery {
        return String::new();
    }
    let ghost s = settings@;
    let mut out = "# Recovery settings generated by pgBackRest restore\n".to_owned();
    let ghost t0 = out@;
    push_built_in(&mut out, &settings, "restore_command", restore_command(stanza).as_str());
    assert(out@ =~= t0 + command_part(stanza@, s));
    let ghost t1 = out@;
    match ty {
        RecoveryType::Immediate => {
            push_built_in(&mut out, &settings, "recovery_target", "immediate");
        },
        RecoveryType::Standby => {
            if db_major < PG_VERSION_RECOVERY_GUC {
                push_built_in(&mut out, &settings, "standby_mode", "on");
            }
        },
        RecoveryType::Target(kind) => {
            if let Some(value) = settings.target {
                let mut key = "recovery_target_".to_owned();
                key.append(kind.guc_suffix());
                push_built_in(&mut out, &settings, key.as_str(), value);
                if settings.exclusive && kind.supports_inclusive() {
                    push_built_in(&mut out, &settings, "recovery_target_inclusive", "false");
                }
            }
        },
        RecoveryType::Default => {},
        RecoveryType::NoRecovery => {},
    }
    assert(out@ =~= t1 + target_part(db_major, ty, s));
    let ghost t2 = out@;
    if !text_eq(settings.action, "pause") {
        push_built_in(&mut out, &settings, "recovery_target_action", settings.action);
    }
    assert(out@ =~= t2 + action_part(s));
    let ghost t3 = out@;
    match settings.timeline {
        Some(value) => {
            if db_major >= PG_VERSION_RECOVERY_GUC || !text_eq(value, "current") {
                push_built_in(&mut out, &settings, "recovery_target_timeline", value);
            }
        },
        None => {
            if ty == RecoveryType::Immediate && db_major >= PG_VERSION_RECOVERY_GUC {
                push_built_in(&mut out, &settings, "recovery_target_timeline", "current");
            }
        },
    }
    assert(out@ =~= t3 + timeline_part(db_major, ty, s));
    let ghost t4 = out@;
    if settings.archive_mode_off && !user_overrides(settings.recovery_options, "archive_mode") {
        out.append("archive_mode = off\n");
    }
    assert(out@ =~= t4 + archive_part(s));
    let ghost t5 = out@;
    if let Some(map) = settings.recovery_options {
        let n: usize = map.len();
        let mut i: usize = 0;
        assert(out@ =~= t5 + option_lines(config::pairs_of(*map), 0));
        while i < n
            invariant
                i <= n,
                n == map.keys().len(),
                n == map.vals().len(),
                out@ == t5 + option_lines(config::pairs_of(*map), i as int),
            decreases n - i,
        {
            let key = normalise_recovery_key(map.key_at(i).as_str());
            push_setting(&mut out, key.as_str(), map.value_at(i).as_str());
            assert(out@ =~= t5 + option_lines(config::pairs_of(*map), i as int + 1));
            i += 1;
        }
    }
    assert(out@ =~= t5 + options_part(s));
    out
}

/// The major version that a version text begins with; a text without one is
/// taken for the first version that is configured by settings.
pub open spec fn major_of(db_version: Seq<char>) -> int {
    match text::within(text::unsigned_decimal(text::leading_digits(db_version)), 0, u32::MAX as int) {
        Some(n) => n,
        None => PG_VERSION_RECOVERY_GUC as int,
    }
}

/// The major version that a version text begins with.
pub fn db_major_version(db_version: &str) -> (r: u32)
    ensures
        r == major_of(db_version@),
{
    match parse_unsigned(digit_front(db_version), u32::MAX as u64) {
        Some(n) => n as u32,
        None => PG_VERSION_RECOVERY_GUC,
    }
}

/// The settings that the options ask for.
pub open spec fn settings_of(config: LoadedConfig) -> RecoveryView {
    RecoveryView {
        target: config::text_of(config.option("target"@, None)),
        exclusive: config.option("target-exclusive"@, None) == Some(OptionValue::Boolean(true)),
        action: action_of(config),
        timeline: config::text_of(config.option("target-timeline"@, None)),
        options: config::hash_of(config.option("recovery-option"@, None)),
        archive_mode_off: config::id_or_string_of(config.option("archive-mode"@, None)) == Some("off"@),
    }
}

/// The major version that decides the format: the forced one, else the recorded.
pub open spec fn effective_major(db_version: Seq<char>, config: LoadedConfig) -> int {
    match config::text_of(config.option("pg-version-force"@, None)) {
        Some(forced) => major_of(forced),
        None => major_of(db_version),
    }
}

/// The recovery files to write, each as its path and its contents.
pub open spec fn files_of(db_version: Seq<char>, stanza: Seq<char>, config: LoadedConfig) -> Seq<(Seq<char>, Seq<char>)> {
    let ty = recovery_type_of(config);
    let major = effective_major(db_version, config);
    let block = recovery_text(major as u32, stanza, ty, settings_of(config));
    if ty == RecoveryType::NoRecovery {
        seq![]
    } else if major < PG_VERSION_RECOVERY_GUC {
        seq![("recovery.conf"@, block)]
    } else {
        seq![
            ("postgresql.auto.conf"@, block),
            (
                if ty == RecoveryType::Standby {
                    "standby.signal"@
                } else {
                    "recovery.signal"@
                },
                Seq::<char>::empty(),
            ),
        ]
    }
}

/// A file to write: its path and its contents.
#[derive(Debug, Clone, PartialEq, Eq)]
pub struct RecoveryFile {
    pub path: String,
    pub contents: String,
}

/// The views of a list of files to write.
pub open spec fn file_views(v: Seq<RecoveryFile>) -> Seq<(Seq<char>, Seq<char>)> {
    Seq::new(v.len(), |i: int| (v[i].path@, v[i].contents@))
}

/// The recovery files to write, in order. Settings that go into
/// `postgresql.auto.conf` are to be appended to what it already holds.
pub fn recovery_files(db_version: &str, stanza: &str, config: &LoadedConfig) -> (r: Vec<RecoveryFile>)
    ensures
        file_views(r@) == files_of(db_version@, stanza@, *config),
{
    let ty = recovery_type(config);
    let mut out: Vec<RecoveryFile> = Vec::new();
    if ty == RecoveryType::NoRecovery {
        assert(file_views(out@) =~= seq![]);
        return out;
    }
    let db_major: u32 = match pg_version_force(config) {
        Some(forced) => db_major_version(forced),
        None => db_major_version(db_version),
    };
    let settings = RecoverySettings {
        target: string_option(config, "target"),
        exclusive: target_exclusive(config),
        action: target_action(config),
        timeline: target_timeline(config),
        recovery_options: recovery_options(config),
        archive_mode_off: archive_mode_off(config),
    };
    assert(settings@ == settings_of(*config));
    let block = recovery_block(db_major, stanza, ty, settings);
    if db_major < PG_VERSION_RECOVERY_GUC {
        out.push(RecoveryFile { path: "recovery.conf".to_owned(), contents: block });
    } else {
        let signal = if ty == RecoveryType::Standby {
            "standby.signal"
        } else {
            "recovery.signal"
        };
        out.push(RecoveryFile { path: "postgresql.auto.conf".to_owned(), contents: block });
        out.push(RecoveryFile { path: signal.to_owned(), contents: String::new() });
    }
    assert(file_views(out@) =~= files_of(db_version@, stanza@, *config));
    out
}

/// What a settings file holds after `block` was appended to it: what it held,
/// ended by a newline, an empty line, the block. An empty file holds the block.
pub open spec fn appended(existing: Seq<u8>, block: Seq<u8>) -> Seq<u8> {
    if existing.len() == 0 {
        block
    } else if existing.last() == 10u8 {
        existing.push(10u8) + block
    } else {
        existing.push(10u8).push(10u8) + block
    }
}

/// What a settings file holds after `block` was appended to `existing`.
pub fn append_to_existing(existing: Vec<u8>, block: &str) -> (r: Vec<u8>)
    ensures
        r@ == appended(existing@, vstd::utf8::encode_utf8(block@)),
{
    let mut out = existing;
    let ghost before = out@;
    if out.len() > 0 {
        if out[out.len() - 1] != 10u8 {
            out.push(10u8);
        }
        out.push(10u8);
    }
    let bytes = block.as_bytes();
    let n: usize = bytes.len();
    let ghost base = out@;
    let mut i: usize = 0;
    while i < n
        invariant
            i <= n,
            n == bytes@.len(),
            out@ == base + bytes@.take(i as int),
        decreases n - i,
    {
        out.push(bytes[i]);
        i += 1;
        assert(out@ =~= base + bytes@.take(i as int));
    }
    assert(bytes@.take(n as int) =~= bytes@);
    assert(out@ =~= appended(before, vstd::utf8::encode_utf8(block@)));
    out
}

impl RecoveryFile {
    /// Whether the contents are appended to what the file already holds.
    pub open spec fn extends_file(self) -> bool {
        self.path@ == "postgresql.auto.conf"@
    }

    /// Whether the contents are appended to what the file already holds.
    pub fn appends(&self) -> (r: bool)
        ensures
            r == self.extends_file(),
    {
        text_eq(self.path.as_str(), "postgresql.auto.conf")
    }

    /// The bytes to write, `existing` being what reading the file gave; only a file
    /// that is appended to needs to have been read.
    pub fn bytes(&self, existing: Result<Vec<u8>, StorageError>) -> (r: Result<Vec<u8>, CommandError>)
        ensures
            ({
                let block = vstd::utf8::encode_utf8(self.contents@);
                if !self.extends_file() {
                    r matches Ok(b) && b@ == block
                } else {
                    match existing {
                        Ok(old_bytes) => r matches Ok(b) && b@ == appended(old_bytes@, block),
                        Err(StorageError::NotFound { .. }) => r matches Ok(b) && b@ == block,
                        Err(StorageError::Backend { message }) => r == Err::<Vec<u8>, CommandError>(
                            CommandError::Storage(StorageError::Backend { message }),
                        ),
                    }
                }
            }),
    {
        let before = if self.appends() {
            match read_if_there(existing) {
                Ok(Some(bytes)) => bytes,
                Ok(None) => Vec::new(),
                Err(e) => return Err(e),
            }
        } else {
            Vec::new()
        };
        Ok(append_to_existing(before, self.contents.as_str()))
    }
}

/// Where there is to be no recovery, nothing is written.
pub proof fn law_no_recovery_no_files(db_version: Seq<char>, stanza: Seq<char>, config: LoadedConfig)
    ensures
        files_of(db_version, stanza, config).len() == 0 <==> recovery_type_of(config) == RecoveryType::NoRecovery,
{
}

/// A version before settings-driven recovery gets one file, a later one two, and
/// the second of them is an empty signal file.
pub proof fn law_format_follows_version(db_version: Seq<char>, stanza: Seq<char>, config: LoadedConfig)
    requires
        recovery_type_of(config) != RecoveryType::NoRecovery,
    ensures
        effective_major(db_version, config) < PG_VERSION_RECOVERY_GUC ==> files_of(db_version, stanza, config).len() == 1
            && files_of(db_version, stanza, config)[0].0 == "recovery.conf"@,
        effective_major(db_version, config) >= PG_VERSION_RECOVERY_GUC ==> files_of(db_version, stanza, config).len()
            == 2 && files_of(db_version, stanza, config)[0].0 == "postgresql.auto.conf"@ && files_of(
            db_version,
            stanza,
            config,
        )[1].1.len() == 0,
{
}

/// Whether `all` is `front`, then `line`, then `back`.
pub open spec fn around(all: Seq<char>, front: Seq<char>, line: Seq<char>, back: Seq<char>) -> bool {
    all == front + line + back
}

/// An extra setting wins: whatever setting the extra ones name, restore's own line
/// for it is gone, and the extra one's line stands in the text.
pub proof fn law_extra_setting_wins(
    db_major: u32,
    stanza: Seq<char>,
    ty: RecoveryType,
    map: PairsView,
    s: RecoveryView,
    i: int,
)
    requires
        ty != RecoveryType::NoRecovery,
        s.options == Some(map),
        0 <= i < map.keys.len(),
    ensures
        forall|value: Seq<char>|
            #[trigger] built_in(s, setting_name(map.keys[i]), value) == Seq::<char>::empty(),
        setting_name(map.keys[i]) == "archive_mode"@ ==> archive_part(s) == Seq::<char>::empty(),
        exists|front: Seq<char>, back: Seq<char>|
            #[trigger] around(
                recovery_text(db_major, stanza, ty, s),
                front,
                setting_line(setting_name(map.keys[i]), map.vals[i]),
                back,
            ),
{
    assert(names_setting(map.keys, setting_name(map.keys[i])));
    let n = map.keys.len() as int;
    let line = setting_line(setting_name(map.keys[i]), map.vals[i]);
    lemma_option_line(map, i, n);
    let (front, back) = choose|front: Seq<char>, back: Seq<char>|
        #[trigger] around(option_lines(map, n), front, line, back);
    let all = recovery_text(db_major, stanza, ty, s);
    let head = all.take(all.len() - options_part(s).len());
    assert(all =~= head + options_part(s));
    assert(all =~= (head + front) + line + back);
    assert(around(all, head + front, line, back));
}

proof fn lemma_option_line(map: PairsView, i: int, n: int)
    requires
        0 <= i < n,
    ensures
        exists|front: Seq<char>, back: Seq<char>|
            #[trigger] around(option_lines(map, n), front, setting_line(setting_name(map.keys[i]), map.vals[i]), back),
    decreases n,
{
    let line = setting_line(setting_name(map.keys[i]), map.vals[i]);
    if i == n - 1 {
        let front = option_lines(map, n - 1);
        assert(option_lines(map, n) =~= front + line + Seq::<char>::empty());
        assert(around(option_lines(map, n), front, line, Seq::<char>::empty()));
    } else {
        lemma_option_line(map, i, n - 1);
        let (front, back) = choose|front: Seq<char>, back: Seq<char>|
            #[trigger] around(option_lines(map, n - 1), front, line, back);
        let last = setting_line(setting_name(map.keys[n - 1]), map.vals[n - 1]);
        assert(option_lines(map, n) =~= front + line + (back + last));
        assert(around(option_lines(map, n), front, line, back + last));
    }
}

/// Appending settings keeps what the file held in front of them.
pub proof fn law_append_keeps(existing: Seq<u8>, block: Seq<u8>)
    ensures
        appended(existing, block).len() >= existing.len() + block.len(),
        appended(existing, block).take(existing.len() as int) == existing,
        appended(existing, block).skip(appended(existing, block).len() - block.len()) == block,
{
    let r = appended(existing, block);
    assert(r.take(existing.len() as int) =~= existing);
    assert(r.skip(r.len() - block.len()) =~= block);
}

/// Each word that the type of a recovery is asked for by has its own meaning; any other
/// word and no word ask for recovery to the end of the archive.
pub proof fn law_recovery_words(config: &LoadedConfig, word: Option<&str>, r: RecoveryType)
    requires
        call_ensures(id_or_string_option, (config, "type"), word),
        call_ensures(recovery_type, (config,), r),
    ensures
        r == RecoveryType::NoRecovery <==> word is Some && word.unwrap()@ == "none"@,
        r == RecoveryType::Immediate <==> word is Some && word.unwrap()@ == "immediate"@,
        r == RecoveryType::Standby <==> word is Some && word.unwrap()@ == "standby"@,
        r == RecoveryType::Target(TargetKind::Time) <==> word is Some && word.unwrap()@ == "time"@,
        r == RecoveryType::Target(TargetKind::Name) <==> word is Some && word.unwrap()@ == "name"@,
        r == RecoveryType::Target(TargetKind::Lsn) <==> word is Some && word.unwrap()@ == "lsn"@,
        r == RecoveryType::Target(TargetKind::Xid) <==> word is Some && word.unwrap()@ == "xid"@,
{
    reveal_strlit("none");
    reveal_strlit("immediate");
    reveal_strlit("standby");
    reveal_strlit("time");
    reveal_strlit("name");
    reveal_strlit("lsn");
    reveal_strlit("xid");
    assert("none"@.len() == 4 && "immediate"@.len() == 9 && "standby"@.len() == 7);
    assert("time"@.len() == 4 && "name"@.len() == 4 && "lsn"@.len() == 3 && "xid"@.len() == 3);
    assert("none"@[0] == 'n' && "none"@[1] == 'o');
    assert("time"@[0] == 't' && "name"@[0] == 'n' && "name"@[1] == 'a');
    assert("lsn"@[0] == 'l' && "xid"@[0] == 'x');
}

/// The settings that are read from the options: what happens at the target is a pause
/// unless it was asked to promote or to shut down; the others are what was given.
pub proof fn law_recovery_options_read(
    config: &LoadedConfig,
    action: (Option<&str>, &str),
    exclusive: (bool, bool),
    timeline: (Option<&str>, Option<&str>),
    forced: (Option<&str>, Option<&str>),
    archive: (Option<&str>, bool),
)
    requires
        call_ensures(id_or_string_option, (config, "target-action"), action.0),
        call_ensures(target_action, (config,), action.1),
        call_ensures(switched_on, (config, "target-exclusive"), exclusive.0),
        call_ensures(target_exclusive, (config,), exclusive.1),
        call_ensures(string_option, (config, "target-timeline"), timeline.0),
        call_ensures(target_timeline, (config,), timeline.1),
        call_ensures(string_option, (config, "pg-version-force"), forced.0),
        call_ensures(pg_version_force, (config,), forced.1),
        call_ensures(id_or_string_option, (config, "archive-mode"), archive.0),
        call_ensures(archive_mode_off, (config,), archive.1),
    ensures
        action.1@ == "promote"@ || action.1@ == "shutdown"@ || action.1@ == "pause"@,
        action.0 is Some && action.0.unwrap()@ == "promote"@ ==> action.1@ == "promote"@,
        action.0 is Some && action.0.unwrap()@ == "shutdown"@ ==> action.1@ == "shutdown"@,
        action.0 is None || (action.0.unwrap()@ != "promote"@ && action.0.unwrap()@ != "shutdown"@) ==> action.1@ == "pause"@,
        exclusive.0 == exclusive.1,
        config::opt_view(timeline.0) == config::opt_view(timeline.1),
        config::opt_view(forced.0) == config::opt_view(forced.1),
        archive.1 <==> archive.0 is Some && archive.0.unwrap()@ == "off"@,
{
}

/// The ending of the setting for each kind of target, and that all kinds but a name can
/// be stopped just before.
pub proof fn law_target_kinds(kind: TargetKind, suffix: &str, before: bool)
    requires
        call_ensures(TargetKind::guc_suffix, (kind,), suffix),
        call_ensures(TargetKind::supports_inclusive, (kind,), before),
    ensures
        kind == TargetKind::Time ==> suffix@ == "time"@ && before,
        kind == TargetKind::Name ==> suffix@ == "name"@ && !before,
        kind == TargetKind::Lsn ==> suffix@ == "lsn"@ && before,
        kind == TargetKind::Xid ==> suffix@ == "xid"@ && before,
{
}

/// An extra setting overrides a setting of the same name, dashes counting as underscores.
pub proof fn law_dashes_are_underscores(options: Option<&TextMap<String>>, guc: &str, r: bool, key: &str, name: String)
    requires
        call_ensures(user_overrides, (options, guc), r),
        call_ensures(normalise_recovery_key, (key,), name),
    ensures
        options is None ==> !r,
        options is Some ==> (r <==> exists|i: int|
            0 <= i < options.unwrap().keys().len() && (#[trigger] options.unwrap().keys()[i]).len() == guc@.len() && forall|k: int|
                0 <= k < guc@.len() ==> #[trigger] guc@[k] == (if options.unwrap().keys()[i][k] == '-' {
                    '_'
                } else {
                    options.unwrap().keys()[i][k]
                })),
        name@.len() == key@.len(),
        forall|k: int|
            0 <= k < key@.len() ==> #[trigger] name@[k] == (if key@[k] == '-' {
                '_'
            } else {
                key@[k]
            }),
{
    if let Some(map) = options {
        let keys = map.keys();
        if r {
            let i = choose|i: int| 0 <= i < keys.len() && #[trigger] setting_name(keys[i]) == guc@;
            assert(keys[i].len() == guc@.len());
            assert(0 <= i < options.unwrap().keys().len());
        }
        if exists|i: int|
            0 <= i < keys.len() && (#[trigger] keys[i]).len() == guc@.len() && forall|k: int|
                0 <= k < guc@.len() ==> #[trigger] guc@[k] == (if keys[i][k] == '-' {
                    '_'
                } else {
                    keys[i][k]
                }) {
            let i = choose|i: int|
                0 <= i < keys.len() && (#[trigger] keys[i]).len() == guc@.len() && forall|k: int|
                    0 <= k < guc@.len() ==> #[trigger] guc@[k] == (if keys[i][k] == '-' {
                        '_'
                    } else {
                        keys[i][k]
                    });
            assert(setting_name(keys[i]) =~= guc@);
        }
    }
}

/// A setting that is written unless it is overridden.
pub open spec fn unless(overridden: bool, line: Seq<char>) -> Seq<char> {
    if overridden {
        Seq::<char>::empty()
    } else {
        line
    }
}

/// The recovery settings line by line. After the heading come the command that fetches
/// segments; where recovery stops: at once, or at the target that was given, and just
/// before that where it was asked for and the target is not a name; before version 12 that
/// the cluster is a standby; what happens at the target unless it is a pause; the timeline
/// that was given, `current` only from version 12 on, where it also stands for an immediate
/// stop without a timeline; that nothing is archived where that was asked for. A line is
/// left out where an extra setting overrides it, and the extra settings end the text.
pub proof fn law_settings_line_by_line(
    major: u32,
    stanza: &str,
    ty: RecoveryType,
    s: RecoverySettings<'_>,
    key: &str,
    over: (bool, bool, bool, bool, bool, bool, bool, bool),
    r: String,
)
    requires
        call_ensures(recovery_block, (major, stanza, ty, s), r),
        ty matches RecoveryType::Target(kind) ==> key@ == "recovery_target_"@ + (match kind {
            TargetKind::Time => "time"@,
            TargetKind::Name => "name"@,
            TargetKind::Lsn => "lsn"@,
            TargetKind::Xid => "xid"@,
        }),
        call_ensures(user_overrides, (s.recovery_options, "restore_command"), over.0),
        call_ensures(user_overrides, (s.recovery_options, "recovery_target"), over.1),
        call_ensures(user_overrides, (s.recovery_options, "standby_mode"), over.2),
        call_ensures(user_overrides, (s.recovery_options, key), over.3),
        call_ensures(user_overrides, (s.recovery_options, "recovery_target_inclusive"), over.4),
        call_ensures(user_overrides, (s.recovery_options, "recovery_target_action"), over.5),
        call_ensures(user_overrides, (s.recovery_options, "recovery_target_timeline"), over.6),
        call_ensures(user_overrides, (s.recovery_options, "archive_mode"), over.7),
    ensures
        ty == RecoveryType::NoRecovery ==> r@.len() == 0,
        ty != RecoveryType::NoRecovery ==> ({
            let none = Seq::<char>::empty();
            let command = unless(
                over.0,
                "restore_command"@ + " = '"@ + ("pgbackrest --stanza="@ + stanza@ + " archive-get %f \"%p\""@) + "'\n"@,
            );
            let stop = match ty {
                RecoveryType::Immediate => unless(over.1, "recovery_target"@ + " = '"@ + "immediate"@ + "'\n"@),
                RecoveryType::Standby => if major < 12 {
                    unless(over.2, "standby_mode"@ + " = '"@ + "on"@ + "'\n"@)
                } else {
                    none
                },
                RecoveryType::Target(kind) => match s.target {
                    Some(target) => unless(over.3, key@ + " = '"@ + target@ + "'\n"@) + (if s.exclusive && kind != TargetKind::Name {
                        unless(over.4, "recovery_target_inclusive"@ + " = '"@ + "false"@ + "'\n"@)
                    } else {
                        none
                    }),
                    None => none,
                },
                _ => none,
            };
            let action = if s.action@ == "pause"@ {
                none
            } else {
                unless(over.5, "recovery_target_action"@ + " = '"@ + s.action@ + "'\n"@)
            };
            let timeline = match s.timeline {
                Some(t) => if t@ == "current"@ && major < 12 {
                    none
                } else {
                    unless(over.6, "recovery_target_timeline"@ + " = '"@ + t@ + "'\n"@)
                },
                None => if ty == RecoveryType::Immediate && major >= 12 {
                    unless(over.6, "recovery_target_timeline"@ + " = '"@ + "current"@ + "'\n"@)
                } else {
                    none
                },
            };
            let archive = if s.archive_mode_off {
                unless(over.7, "archive_mode = off\n"@)
            } else {
                none
            };
            let extra = match s.recovery_options {
                Some(map) => option_lines(config::pairs_of(*map), map.keys().len() as int),
                None => none,
            };
            r@ == "# Recovery settings generated by pgBackRest restore\n"@ + command + stop + action + timeline + archive + extra
        }),
{
    let none = Seq::<char>::empty();
    assert(none + none =~= none);
}

/// The extra settings stand one per line, in the order of their keys, each under its name
/// with underscores.
pub proof fn law_extra_settings_in_order(map: PairsView, n: int)
    requires
        0 <= n < map.keys.len(),
    ensures
        option_lines(map, 0) == Seq::<char>::empty(),
        option_lines(map, n + 1) == option_lines(map, n) + (Seq::new(
            map.keys[n].len(),
            |k: int|
                if map.keys[n][k] == '-' {
                    '_'
                } else {
                    map.keys[n][k]
                },
        ) + " = '"@ + map.vals[n] + "'\n"@),
{
    assert(setting_name(map.keys[n]) =~= Seq::new(
        map.keys[n].len(),
        |k: int|
            if map.keys[n][k] == '-' {
                '_'
            } else {
                map.keys[n][k]
            },
    ));
}

/// The major version of a cluster is the number that its version begins with; where it
/// begins with none that fits, it is taken for version 12.
pub proof fn law_major_version(version: &str, digits: Seq<char>, rest: Seq<char>, r: u32)
    requires
        call_ensures(db_major_version, (version,), r),
        version@ == digits + rest,
        text::all_digits(digits),
        rest.len() > 0 ==> !('0' <= rest[0] <= '9'),
    ensures
        digits.len() > 0 && text::digits_value(digits) <= u32::MAX ==> r == text::digits_value(digits),
        digits.len() == 0 || text::digits_value(digits) > u32::MAX ==> r == 12,
{
    lemma_digits_in_front(digits, rest);
    assert(version@ == digits + rest);
    if digits.len() > 0 {
        assert(text::is_digit(digits[0]));
    }
}

proof fn lemma_digits_in_front(digits: Seq<char>, rest: Seq<char>)
    requires
        text::all_digits(digits),
        rest.len() > 0 ==> !('0' <= rest[0] <= '9'),
    ensures
        text::leading_digits(digits + rest) == digits,
    decreases digits.len(),
{
    let s = digits + rest;
    if digits.len() > 0 {
        let tail = digits.drop_first();
        assert(text::is_digit(digits[0]));
        assert forall|i: int| 0 <= i < tail.len() implies text::is_digit(#[trigger] tail[i]) by {
            assert(text::is_digit(digits[i + 1]));
        }
        lemma_digits_in_front(tail, rest);
        assert(s.drop_first() =~= tail + rest);
        assert(seq![digits[0]] + tail =~= digits);
    } else {
        assert(s =~= rest);
        assert(digits =~= Seq::<char>::empty());
    }
}

/// The files of a recovery: none where there is to be none; before version 12 the settings
/// as `recovery.conf`; from then on the settings in `postgresql.auto.conf` and an empty
/// signal file, `standby.signal` for a standby and `recovery.signal` else. A forced version
/// counts in place of the recorded one. The settings are those that the options ask for.
pub proof fn law_recovery_files(
    version: &str,
    stanza: &str,
    config: &LoadedConfig,
    forced: Option<&str>,
    major: u32,
    ty: RecoveryType,
    s: RecoverySettings<'_>,
    block: String,
    r: Vec<RecoveryFile>,
)
    requires
        call_ensures(recovery_files, (version, stanza, config), r),
        call_ensures(recovery_type, (config,), ty),
        call_ensures(string_option, (config, "pg-version-force"), forced),
        forced is Some ==> call_ensures(db_major_version, (forced.unwrap(),), major),
        forced is None ==> call_ensures(db_major_version, (version,), major),
        call_ensures(string_option, (config, "target"), s.target),
        call_ensures(switched_on, (config, "target-exclusive"), s.exclusive),
        call_ensures(target_action, (config,), s.action),
        call_ensures(string_option, (config, "target-timeline"), s.timeline),
        call_ensures(hash_option, (config, "recovery-option"), s.recovery_options),
        call_ensures(archive_mode_off, (config,), s.archive_mode_off),
        call_ensures(recovery_block, (major, stanza, ty, s), block),
    ensures
        ty == RecoveryType::NoRecovery ==> r.len() == 0,
        ty != RecoveryType::NoRecovery && major < 12 ==> r.len() == 1 && r[0].path@ == "recovery.conf"@ && r[0].contents@ == block@,
        ty != RecoveryType::NoRecovery && major >= 12 ==> {
            &&& r.len() == 2
            &&& r[0].path@ == "postgresql.auto.conf"@
            &&& r[0].contents@ == block@
            &&& r[1].contents@.len() == 0
            &&& ty == RecoveryType::Standby ==> r[1].path@ == "standby.signal"@
            &&& ty != RecoveryType::Standby ==> r[1].path@ == "recovery.signal"@
        },
{
    let views = file_views(r@);
    assert(views.len() == r.len());
    assert(s@ == settings_of(*config));
    assert(r.len() > 0 ==> views[0] == (r[0].path@, r[0].contents@));
    assert(r.len() > 1 ==> views[1] == (r[1].path@, r[1].contents@));
}

/// Settings are appended behind an empty line: after one newline where the file ends in
/// one, after two where it does not; an empty file holds nothing else. Only
/// `postgresql.auto.conf` is appended to; any other recovery file holds its contents alone.
pub proof fn law_appended_behind_an_empty_line(
    existing: Vec<u8>,
    block: &str,
    r: Vec<u8>,
    file: &RecoveryFile,
    read: Result<Vec<u8>, StorageError>,
    extends: bool,
    written: Result<Vec<u8>, CommandError>,
)
    requires
        call_ensures(append_to_existing, (existing, block), r),
        block@ == file.contents@,
        call_ensures(RecoveryFile::appends, (file,), extends),
        call_ensures(RecoveryFile::bytes, (file, read), written),
    ensures
        ({
            let bytes = vstd::utf8::encode_utf8(block@);
            &&& existing@.len() == 0 ==> r@ == bytes
            &&& existing@.len() > 0 && existing@.last() == 0x0a ==> r@ == existing@ + seq![0x0au8] + bytes
            &&& existing@.len() > 0 && existing@.last() != 0x0a ==> r@ == existing@ + seq![0x0au8, 0x0au8] + bytes
            &&& extends <==> file.path@ == "postgresql.auto.conf"@
            &&& !extends ==> written is Ok && written->Ok_0@ == bytes
            &&& extends && read == Ok::<Vec<u8>, StorageError>(existing) ==> written is Ok && written->Ok_0@ == r@
            &&& extends && read is Err && read->Err_0 is NotFound ==> written is Ok && written->Ok_0@ == bytes
            &&& extends && read is Err && !(read->Err_0 is NotFound) ==> written is Err && written->Err_0 == CommandError::Storage(
                read->Err_0,
            )
        }),
{
    let bytes = vstd::utf8::encode_utf8(block@);
    assert(existing@.push(10u8) + bytes =~= existing@ + seq![0x0au8] + bytes);
    assert(existing@.push(10u8).push(10u8) + bytes =~= existing@ + seq![0x0au8, 0x0au8] + bytes);
}

/// The command that fetches a segment names the stanza, and the extra settings are those of
/// the option for them.
pub proof fn law_fetching_segments(
    stanza: &str,
    r: String,
    config: &LoadedConfig,
    v: Option<&OptionValue>,
    extra: Option<&TextMap<String>>,
)
    requires
        call_ensures(restore_command, (stanza,), r),
        call_ensures(config::Options::get, (&config.options, "recovery-option", None::<u32>), v),
        call_ensures(recovery_options, (config,), extra),
    ensures
        r@ == "pgbackrest --stanza="@ + stanza@ + " archive-get %f \"%p\""@,
        match v {
            Some(OptionValue::Hash(m)) => extra is Some && extra.unwrap().keys() == m.keys() && text::texts(extra.unwrap().vals())
                == text::texts(m.vals()),
            _ => extra is None,
        },
{
}

}
