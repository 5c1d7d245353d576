//! Where a stanza command learns which cluster it is for.
use vstd::prelude::*;

use crate::text;
use crate::config;
use crate::config::{LoadedConfig, OptionValue};
use crate::text::{join_text, print_signed, print_unsigned};

verus! {

/// The text that a connection is told of a value: a text that is not empty, or a
/// number.
pub open spec fn value_text(v: OptionValue) -> Option<Seq<char>> {
    match v {
        OptionValue::String(s) => if s@.len() > 0 {
            Some(s@)
        } else {
            None
        },
        OptionValue::Path(s) => if s@.len() > 0 {
            Some(s@)
        } else {
            None
        },
        OptionValue::StringId(s) => if s@.len() > 0 {
            Some(s@)
        } else {
            None
        },
        OptionValue::Integer(n) => Some(text::signed_text(n as int)),
        _ => None,
    }
}

/// The option that holds a field of the first cluster: that of its group, else the
/// one without a group, else the one under its flat name.
pub open spec fn field_option(config: LoadedConfig, field: Seq<char>) -> Option<OptionValue> {
    let grouped = config.option("pg-"@ + field, Some(1));
    let plain = config.option("pg-"@ + field, None);
    if grouped is Some {
        grouped
    } else if plain is Some {
        plain
    } else {
        config.option("pg1-"@ + field, None)
    }
}

/// A field of the first cluster.
pub open spec fn field_text(config: LoadedConfig, field: Seq<char>) -> Option<Seq<char>> {
    match field_option(config, field) {
        Some(v) => value_text(v),
        None => None,
    }
}

/// A duration without a group index, in milliseconds.
pub open spec fn time_of(v: Option<OptionValue>) -> Option<u64> {
    match v {
        Some(OptionValue::Time(ms)) => Some(ms),
        _ => None,
    }
}

/// A number where it is positive.
pub open spec fn positive_of(v: Option<OptionValue>) -> Option<i64> {
    match v {
        Some(OptionValue::Integer(n)) => if n > 0 {
            Some(n)
        } else {
            None
        },
        _ => None,
    }
}

/// The duration under `name`, in milliseconds.
pub fn time_opt(config: &LoadedConfig, name: &str) -> (r: Option<u64>)
    ensures
        r == time_of(config.option(name@, None)),
{
    match config.options.get(name, None) {
        Some(OptionValue::Time(ms)) => Some(*ms),
        _ => None,
    }
}

/// The number under `name`, where it is positive.
pub fn integer_opt(config: &LoadedConfig, name: &str) -> (r: Option<i64>)
    ensures
        r == positive_of(config.option(name@, None)),
{
    match config.options.get(name, None) {
        Some(OptionValue::Integer(n)) => if *n > 0 {
            Some(*n)
        } else {
            None
        },
        _ => None,
    }
}

fn printed_value(v: &OptionValue) -> (r: Option<String>)
    ensures
        config::opt_text(r) == value_text(*v),
{
    let text = match v {
        OptionValue::String(s) => s.as_str(),
        OptionValue::Path(s) => s.as_str(),
        OptionValue::StringId(s) => s.as_str(),
        OptionValue::Integer(n) => return Some(print_signed(*n)),
        _ => return None,
    };
    if text.is_empty() {
        None
    } else {
        Some(text.to_owned())
    }
}

fn field_value(config: &LoadedConfig, field: &str) -> (r: Option<String>)
    ensures
        config::opt_text(r) == field_text(*config, field@),
{
    let mut base = "pg-".to_owned();
    base.append(field);
    if let Some(v) = config.options.get(base.as_str(), Some(1)) {
        return printed_value(v);
    }
    if let Some(v) = config.options.get(base.as_str(), None) {
        return printed_value(v);
    }
    let mut flat = "pg1-".to_owned();
    flat.append(field);
    match config.options.get(flat.as_str(), None) {
        Some(v) => printed_value(v),
        None => None,
    }
}

/// A duration in whole seconds, rounded up and at least one.
pub open spec fn whole_seconds(ms: int) -> int {
    if ms <= 0 {
        1
    } else {
        (ms + 999) / 1000
    }
}

/// A named part, where there is a value for it.
pub open spec fn part(name: Seq<char>, v: Option<Seq<char>>) -> Seq<Seq<char>> {
    match v {
        Some(s) => seq![name + s],
        None => Seq::<Seq<char>>::empty(),
    }
}

/// A number as a text, where there is one.
pub open spec fn number_text(v: Option<i64>) -> Option<Seq<char>> {
    match v {
        Some(n) => Some(text::signed_text(n as int)),
        None => None,
    }
}

/// Where the first cluster can be reached: its host, else its socket directory.
pub open spec fn host_text(config: LoadedConfig) -> Option<Seq<char>> {
    match field_text(config, "host"@) {
        Some(h) => Some(h),
        None => field_text(config, "socket-path"@),
    }
}

/// The parts on how long to wait for a connection.
pub open spec fn timeout_parts(config: LoadedConfig) -> Seq<Seq<char>> {
    match time_of(config.option("db-timeout"@, None)) {
        Some(ms) => seq!["connect_timeout="@ + text::decimal(whole_seconds(ms as int) as nat)],
        None => Seq::<Seq<char>>::empty(),
    }
}

/// The parts on how to keep a connection alive: any setting turns it on.
pub open spec fn keepalive_parts(config: LoadedConfig) -> Seq<Seq<char>> {
    let idle = positive_of(config.option("tcp-keep-alive-idle"@, None));
    let interval = positive_of(config.option("tcp-keep-alive-interval"@, None));
    let count = positive_of(config.option("tcp-keep-alive-count"@, None));
    if idle is None && interval is None && count is None {
        Seq::<Seq<char>>::empty()
    } else {
        seq!["keepalives=1"@] + part("keepalives_idle="@, number_text(idle)) + part(
            "keepalives_interval="@,
            number_text(interval),
        ) + part("keepalives_count="@, number_text(count))
    }
}

/// The parts of a connection to the host `host`.
pub open spec fn conninfo_parts(config: LoadedConfig, host: Seq<char>) -> Seq<Seq<char>> {
    seq!["host="@ + host] + part("port="@, field_text(config, "port"@)) + part(
        "dbname="@,
        field_text(config, "database"@),
    ) + part("user="@, field_text(config, "user"@)) + timeout_parts(config) + keepalive_parts(config)
}

/// How the first cluster is connected to: as the URL says where one is given, else
/// as the options say where they name a host or a socket directory.
pub open spec fn conninfo_of(config: LoadedConfig, database_url: Option<Seq<char>>) -> Option<Seq<char>> {
    match crate::stanza::cipher::filled(database_url) {
        Some(url) => Some(url),
        None => match host_text(config) {
            Some(host) => Some(text::joined(conninfo_parts(config, host), ' ')),
            None => None,
        },
    }
}

fn push_part(parts: &mut Vec<String>, name: &str, v: Option<String>)
    ensures
        text::texts(final(parts)@) == text::texts(old(parts)@) + part(name@, config::opt_text(v)),
{
    match v {
        Some(s) => {
            let mut p = name.to_owned();
            p.append(s.as_str());
            parts.push(p);
        },
        None => {},
    }
    assert(text::texts(parts@) =~= text::texts(old(parts)@) + part(name@, config::opt_text(v)));
}

fn printed_number(v: Option<i64>) -> (r: Option<String>)
    ensures
        config::opt_text(r) == number_text(v),
{
    match v {
        Some(n) => Some(print_signed(n)),
        None => None,
    }
}

fn push_timeout(parts: &mut Vec<String>, config: &LoadedConfig)
    ensures
        text::texts(final(parts)@) == text::texts(old(parts)@) + timeout_parts(*config),
{
    let timeout = match time_opt(config, "db-timeout") {
        Some(ms) => {
            let secs: u64 = if ms == 0 {
                1
            } else if ms % 1000 == 0 {
                ms / 1000
            } else {
                ms / 1000 + 1
            };
            assert(secs == whole_seconds(ms as int));
            Some(print_unsigned(secs))
        },
        None => None,
    };
    push_part(parts, "connect_timeout=", timeout);
}

fn push_keepalives(parts: &mut Vec<String>, config: &LoadedConfig)
    ensures
        text::texts(final(parts)@) == text::texts(old(parts)@) + keepalive_parts(*config),
{
    let ghost before = text::texts(parts@);
    let idle = integer_opt(config, "tcp-keep-alive-idle");
    let interval = integer_opt(config, "tcp-keep-alive-interval");
    let count = integer_opt(config, "tcp-keep-alive-count");
    if idle.is_some() || interval.is_some() || count.is_some() {
        parts.push("keepalives=1".to_owned());
        assert(text::texts(parts@) =~= before + seq!["keepalives=1"@]);
        push_part(parts, "keepalives_idle=", printed_number(idle));
        push_part(parts, "keepalives_interval=", printed_number(interval));
        push_part(parts, "keepalives_count=", printed_number(count));
    }
    assert(text::texts(parts@) =~= before + keepalive_parts(*config));
}

/// How the first cluster is connected to, as the options and the environment's URL
/// say; none where they describe no server.
pub fn derive_conninfo_with_url(config: &LoadedConfig, database_url: Option<&str>) -> (r: Option<String>)
    ensures
        config::opt_text(r) == conninfo_of(*config, config::opt_view(database_url)),
{
    if let Some(url) = database_url {
        if !url.is_empty() {
            return Some(url.to_owned());
        }
    }
    let host = match field_value(config, "host") {
        Some(h) => h,
        None => match field_value(config, "socket-path") {
            Some(h) => h,
            None => return None,
        },
    };
    let ghost host_view = host@;
    let mut parts: Vec<String> = Vec::new();
    push_part(&mut parts, "host=", Some(host));
    assert(text::texts(parts@) =~= seq!["host="@ + host_view]);
    push_part(&mut parts, "port=", field_value(config, "port"));
    push_part(&mut parts, "dbname=", field_value(config, "database"));
    push_part(&mut parts, "user=", field_value(config, "user"));
    push_timeout(&mut parts, config);
    push_keepalives(&mut parts, config);
    proof {
        reveal_strlit(" ");
        assert(text::texts(parts@).take(parts.len() as int) =~= text::texts(parts@));
    }
    Some(join_text(&parts, parts.len(), " "))
}

/// Where the cluster's identity is read.
#[derive(Debug, Clone, PartialEq, Eq)]
pub enum IdentitySource {
    /// From a worker on the cluster's host.
    Worker { host: String },
    /// From a server.
    Server { conninfo: String },
    /// From the control file.
    ControlFile,
}

/// Where the cluster's identity is read: from a worker where the cluster is on
/// another host, else from the server where one can be connected to, else from the
/// control file.
pub fn identity_source(config: &LoadedConfig, pg_host: Option<String>, database_url: Option<&str>) -> (r: IdentitySource)
    ensures
        match (pg_host, conninfo_of(*config, config::opt_view(database_url))) {
            (Some(host), _) => r == (IdentitySource::Worker { host }),
            (None, Some(c)) => r matches IdentitySource::Server { conninfo } && conninfo@ == c,
            (None, None) => r is ControlFile,
        },
{
    match pg_host {
        Some(host) => IdentitySource::Worker { host },
        None => match derive_conninfo_with_url(config, database_url) {
            Some(conninfo) => IdentitySource::Server { conninfo },
            None => IdentitySource::ControlFile,
        },
    }
}

/// A URL that is not empty is used as it stands, whatever the options say.
pub proof fn law_url_wins(config: LoadedConfig, url: Seq<char>)
    requires
        url.len() > 0,
    ensures
        conninfo_of(config, Some(url)) == Some(url),
{
}

/// Waiting is bounded: no duration becomes zero seconds, which would mean to wait
/// forever, and none becomes shorter.
pub proof fn law_timeout_is_kept(ms: u64)
    ensures
        whole_seconds(ms as int) >= 1,
        whole_seconds(ms as int) * 1000 >= ms,
        ms > 0 ==> (whole_seconds(ms as int) - 1) * 1000 < ms,
{
}

/// A URL that is not empty is what is connected by. Without one the options must name a
/// host or else a socket directory, and the connection is told, in this order and with a
/// blank between: the host, and where they are given the port, the database, the user, the
/// time to wait, and how the connection is kept alive.
pub proof fn law_connection_parts(
    config: &LoadedConfig,
    url: Option<&str>,
    timeout: Option<u64>,
    keep: (Option<i64>, Option<i64>, Option<i64>),
    r: Option<String>,
)
    requires
        call_ensures(derive_conninfo_with_url, (config, url), r),
        call_ensures(time_opt, (config, "db-timeout"), timeout),
        call_ensures(integer_opt, (config, "tcp-keep-alive-idle"), keep.0),
        call_ensures(integer_opt, (config, "tcp-keep-alive-interval"), keep.1),
        call_ensures(integer_opt, (config, "tcp-keep-alive-count"), keep.2),
    ensures
        url is Some && url.unwrap()@.len() > 0 ==> r is Some && r.unwrap()@ == url.unwrap()@,
        !(url is Some && url.unwrap()@.len() > 0) ==> {
            let host = match field_text(*config, "host"@) {
                Some(h) => Some(h),
                None => field_text(*config, "socket-path"@),
            };
            let none = Seq::<Seq<char>>::empty();
            let one = |name: Seq<char>, v: Option<Seq<char>>|
                if v is Some {
                    seq![name + v.unwrap()]
                } else {
                    none
                };
            let count = |name: Seq<char>, v: Option<i64>|
                if v is Some {
                    seq![name + text::signed_text(v.unwrap() as int)]
                } else {
                    none
                };
            let alive = if keep.0 is Some || keep.1 is Some || keep.2 is Some {
                seq!["keepalives=1"@] + count("keepalives_idle="@, keep.0) + count("keepalives_interval="@, keep.1) + count(
                    "keepalives_count="@,
                    keep.2,
                )
            } else {
                none
            };
            let wait = if timeout is Some {
                let ms = timeout.unwrap() as int;
                seq!["connect_timeout="@ + text::decimal((if ms == 0 {
                    1
                } else if ms % 1000 == 0 {
                    ms / 1000
                } else {
                    ms / 1000 + 1
                }) as nat)]
            } else {
                none
            };
            &&& r is Some <==> host is Some
            &&& r is Some ==> r.unwrap()@ == text::joined(
                seq!["host="@ + host.unwrap()] + one("port="@, field_text(*config, "port"@)) + one(
                    "dbname="@,
                    field_text(*config, "database"@),
                ) + one("user="@, field_text(*config, "user"@)) + wait + alive,
                ' ',
            )
        },
{
    if let Some(ms) = timeout {
        assert(whole_seconds(ms as int) == (if ms == 0 {
            1
        } else if ms % 1000 == 0 {
            ms as int / 1000
        } else {
            ms as int / 1000 + 1
        }));
    }
}

/// Where a field of the first cluster comes from: its group, else the ungrouped option,
/// else the flat name; the first that is given decides, even where it is empty. A number is
/// written in decimal, an empty text counts as none.
pub proof fn law_field_of_the_first_cluster(
    config: &LoadedConfig,
    field: Seq<char>,
    name: &str,
    flat: &str,
    grouped: Option<&OptionValue>,
    plain: Option<&OptionValue>,
    last: Option<&OptionValue>,
)
    requires
        name@ == "pg-"@ + field,
        flat@ == "pg1-"@ + field,
        call_ensures(config::Options::get, (&config.options, name, Some(1u32)), grouped),
        call_ensures(config::Options::get, (&config.options, name, None::<u32>), plain),
        call_ensures(config::Options::get, (&config.options, flat, None::<u32>), last),
    ensures
        ({
            let v = if grouped is Some {
                grouped
            } else if plain is Some {
                plain
            } else {
                last
            };
            let written = match v {
                Some(OptionValue::String(s)) => s@,
                Some(OptionValue::Path(s)) => s@,
                Some(OptionValue::StringId(s)) => s@,
                Some(OptionValue::Integer(n)) => text::signed_text(*n as int),
                _ => Seq::<char>::empty(),
            };
            &&& v matches Some(OptionValue::Integer(n)) ==> field_text(*config, field) == Some(written)
            &&& !(v matches Some(OptionValue::Integer(_))) ==> (field_text(*config, field) is Some <==> written.len() > 0)
            &&& field_text(*config, field) is Some ==> field_text(*config, field) == Some(written)
        }),
{
}

/// Durations and positive numbers are read as given, and as none where they were given as
/// anything else.
pub proof fn law_connection_numbers(config: &LoadedConfig, name: &str, v: Option<&OptionValue>, time: Option<u64>, number: Option<i64>)
    requires
        call_ensures(config::Options::get, (&config.options, name, None::<u32>), v),
        call_ensures(time_opt, (config, name), time),
        call_ensures(integer_opt, (config, name), number),
    ensures
        match v {
            Some(OptionValue::Time(ms)) => time == Some(*ms) && number is None,
            Some(OptionValue::Integer(n)) => time is None && (if *n > 0 {
                number == Some(*n)
            } else {
                number is None
            }),
            _ => time is None && number is None,
        },
{
}

/// A cluster on another host is asked through a worker there; else a server that can be
/// connected to is asked; else the control file is read.
pub proof fn law_who_is_asked(config: &LoadedConfig, host: Option<String>, url: Option<&str>, conninfo: Option<String>, r: IdentitySource)
    requires
        call_ensures(derive_conninfo_with_url, (config, url), conninfo),
        call_ensures(identity_source, (config, host, url), r),
    ensures
        host is Some ==> r is Worker && r->host@ == host.unwrap()@,
        host is None && conninfo is Some ==> r is Server && r->conninfo@ == conninfo.unwrap()@,
        host is None && conninfo is None ==> r is ControlFile,
{
}

}
