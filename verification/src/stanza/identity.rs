//! Which cluster a stanza is for, as a running server or a control file tells it.
use vstd::prelude::*;

use crate::text;
use crate::config;
use crate::config::{other_error, CommandError};
use crate::text::{parse_unsigned, print_unsigned, text_eq, trim};

verus! {

/// Where the control file lies below a cluster's directory.
pub const PG_CONTROL_PATH: &'static str = "global/pg_control";

/// Asks a server for its version as a number.
pub const SQL_SERVER_VERSION_NUM: &'static str =
    "select (select setting from pg_catalog.pg_settings where name = 'server_version_num')::int4";

/// Asks a server for its identifier, its catalog version and its control version.
pub const SQL_PG_CONTROL_SYSTEM: &'static str =
    "select system_identifier::text, catalog_version_no::text, pg_control_version::text from pg_catalog.pg_control_system()";

/// What the head of a control file holds.
#[derive(Debug, Clone, Copy, PartialEq, Eq, Structural)]
pub struct PgControlHeader {
    pub system_identifier: u64,
    pub pg_control_version: u32,
    pub catalog_version_no: u32,
}

/// Which cluster a stanza is for.
#[derive(Debug, PartialEq, Eq)]
pub struct ClusterIdentity {
    pub header: PgControlHeader,
    /// The version, such as `16` or `9.6`.
    pub version: String,
}

/// A supported version.
#[derive(Debug, Clone, PartialEq, Eq)]
pub struct VersionInterface {
    /// The version, such as `16` or `9.6`.
    pub label: String,
    pub pg_control_version: u32,
    pub catalog_version_no: u32,
}

/// What a server tells of itself.
#[derive(Debug, Clone, Copy, PartialEq, Eq, Structural)]
pub struct DbIdentityRow {
    /// The version as a number, such as `160004` or `90600`.
    pub server_version_num: u32,
    pub system_identifier: u64,
    pub catalog_version_no: u32,
    pub pg_control_version: u32,
}

/// The version that a version number stands for: from 10 on its first part, before
/// that the first two.
pub open spec fn version_text(num: u32) -> Seq<char> {
    if num < 100_000 {
        text::decimal((num / 10_000) as nat) + "."@ + text::decimal((num % 10_000 / 100) as nat)
    } else {
        text::decimal((num / 10_000) as nat)
    }
}

/// Whether a version is supported.
pub open spec fn supports(versions: Seq<VersionInterface>, label: Seq<char>) -> bool {
    exists|i: int| 0 <= i < versions.len() && (#[trigger] versions[i]).label@ == label
}

/// The first supported version from place `i` on with the catalog version `no`.
pub open spec fn catalog_place(versions: Seq<VersionInterface>, no: u32, i: int) -> Option<int>
    decreases versions.len() - i,
{
    if i < 0 || i >= versions.len() {
        None
    } else if versions[i].catalog_version_no == no {
        Some(i)
    } else {
        catalog_place(versions, no, i + 1)
    }
}

/// The supported version that a version number stands for.
pub fn pg_version_label_from_num(server_version_num: u32, versions: &Vec<VersionInterface>) -> (r: Option<String>)
    ensures
        if supports(versions@, version_text(server_version_num)) {
            r matches Some(l) && l@ == version_text(server_version_num)
        } else {
            r is None
        },
{
    let mut label = print_unsigned((server_version_num / 10_000) as u64);
    if server_version_num < 100_000 {
        label.append(".");
        label.append(print_unsigned((server_version_num % 10_000 / 100) as u64).as_str());
    }
    assert(label@ =~= version_text(server_version_num));
    let n: usize = versions.len();
    let mut i: usize = 0;
    while i < n
        invariant
            i <= n,
            n == versions.len(),
            label@ == version_text(server_version_num),
            forall|k: int| 0 <= k < i ==> (#[trigger] versions[k]).label@ != label@,
        decreases n - i,
    {
        if text_eq(versions[i].label.as_str(), label.as_str()) {
            return Some(label);
        }
        i += 1;
    }
    None
}

/// The version of a server does not depend on its minor version.
pub proof fn law_minor_version_is_dropped(num: u32)
    ensures
        num < 100_000 ==> version_text(num) == version_text((num - num % 100) as u32),
        num >= 100_000 ==> version_text(num) == version_text((num - num % 10_000) as u32),
{
}

fn find_catalog(versions: &Vec<VersionInterface>, no: u32) -> (r: Option<usize>)
    ensures
        match r {
            Some(i) => i < versions.len() && catalog_place(versions@, no, 0) == Some(i as int),
            None => catalog_place(versions@, no, 0) is None,
        },
{
    let n: usize = versions.len();
    let mut i: usize = 0;
    while i < n
        invariant
            i <= n,
            n == versions.len(),
            catalog_place(versions@, no, 0) == catalog_place(versions@, no, i as int),
        decreases n - i,
    {
        if versions[i].catalog_version_no == no {
            return Some(i);
        }
        i += 1;
    }
    None
}

/// Why what a server tells of itself is refused; none where it is not.
pub open spec fn row_error(row: DbIdentityRow, versions: Seq<VersionInterface>) -> Option<Seq<char>> {
    if !supports(versions, version_text(row.server_version_num)) {
        Some("unsupported server_version_num "@ + text::decimal(row.server_version_num as nat))
    } else {
        match catalog_place(versions, row.catalog_version_no, 0) {
            None => Some(
                "unknown catalog_version_no "@ + text::decimal(row.catalog_version_no as nat)
                    + " reported by pg_control_system()"@,
            ),
            Some(i) => if versions[i].pg_control_version != row.pg_control_version {
                Some(
                    "pg_control_system() control version "@ + text::decimal(row.pg_control_version as nat)
                        + " does not match catalog_version_no "@ + text::decimal(row.catalog_version_no as nat)
                        + " (expected "@ + text::decimal(versions[i].pg_control_version as nat) + ")"@,
                )
            } else if versions[i].label@ != version_text(row.server_version_num) {
                Some(
                    "server_version_num "@ + text::decimal(row.server_version_num as nat)
                        + " does not match catalog_version_no "@ + text::decimal(row.catalog_version_no as nat)
                        + " (expected version "@ + versions[i].label@ + ")"@,
                )
            } else {
                None
            },
        }
    }
}

/// The cluster that a server tells of.
pub open spec fn tells_of(identity: ClusterIdentity, row: DbIdentityRow) -> bool {
    &&& identity.header.system_identifier == row.system_identifier
    &&& identity.header.pg_control_version == row.pg_control_version
    &&& identity.header.catalog_version_no == row.catalog_version_no
    &&& identity.version@ == version_text(row.server_version_num)
}

/// The cluster that a server tells of: its version must be supported, its catalog
/// version known, and its control version and its version those that go with that.
pub fn query_result_to_identity(row: DbIdentityRow, versions: &Vec<VersionInterface>) -> (r: Result<
    ClusterIdentity,
    CommandError,
>)
    ensures
        match row_error(row, versions@) {
            Some(m) => r matches Err(e) && e.is_other(m),
            None => r matches Ok(identity) && tells_of(identity, row),
        },
{
    let version = match pg_version_label_from_num(row.server_version_num, versions) {
        Some(v) => v,
        None => {
            let mut m = "unsupported server_version_num ".to_owned();
            m.append(print_unsigned(row.server_version_num as u64).as_str());
            return Err(CommandError::Other(m));
        },
    };
    let place: usize = match find_catalog(versions, row.catalog_version_no) {
        Some(i) => i,
        None => {
            let mut m = "unknown catalog_version_no ".to_owned();
            m.append(print_unsigned(row.catalog_version_no as u64).as_str());
            m.append(" reported by pg_control_system()");
            return Err(CommandError::Other(m));
        },
    };
    if versions[place].pg_control_version != row.pg_control_version {
        let mut m = "pg_control_system() control version ".to_owned();
        m.append(print_unsigned(row.pg_control_version as u64).as_str());
        m.append(" does not match catalog_version_no ");
        m.append(print_unsigned(row.catalog_version_no as u64).as_str());
        m.append(" (expected ");
        m.append(print_unsigned(versions[place].pg_control_version as u64).as_str());
        m.append(")");
        return Err(CommandError::Other(m));
    }
    if !text_eq(versions[place].label.as_str(), version.as_str()) {
        let mut m = "server_version_num ".to_owned();
        m.append(print_unsigned(row.server_version_num as u64).as_str());
        m.append(" does not match catalog_version_no ");
        m.append(print_unsigned(row.catalog_version_no as u64).as_str());
        m.append(" (expected version ");
        m.append(versions[place].label.as_str());
        m.append(")");
        return Err(CommandError::Other(m));
    }
    Ok(
        ClusterIdentity {
            header: PgControlHeader {
                system_identifier: row.system_identifier,
                pg_control_version: row.pg_control_version,
                catalog_version_no: row.catalog_version_no,
            },
            version,
        },
    )
}

/// The number that a column holds, of at most `limit`.
pub open spec fn column_number(v: Option<Seq<char>>, limit: int) -> Option<int> {
    match v {
        Some(s) => text::within(text::unsigned_decimal(text::trimmed(s)), 0, limit),
        None => None,
    }
}

fn read_column(v: Option<&str>, limit: u64) -> (r: Option<u64>)
    ensures
        column_number(config::opt_view(v), limit as int) == (match r {
            Some(n) => Some(n as int),
            None => None,
        }),
{
    match v {
        Some(s) => parse_unsigned(trim(s), limit),
        None => None,
    }
}

/// What four columns tell of a server, where they hold numbers.
pub open spec fn row_of(
    server_version_num: Option<Seq<char>>,
    system_identifier: Option<Seq<char>>,
    catalog_version_no: Option<Seq<char>>,
    pg_control_version: Option<Seq<char>>,
) -> Result<DbIdentityRow, Seq<char>> {
    match (
        column_number(server_version_num, u32::MAX as int),
        column_number(system_identifier, u64::MAX as int),
        column_number(catalog_version_no, u32::MAX as int),
        column_number(pg_control_version, u32::MAX as int),
    ) {
        (None, _, _, _) => Err("could not read server_version_num from pg_settings"@),
        (Some(_), None, _, _) => Err("could not read system_identifier from pg_control_system()"@),
        (Some(_), Some(_), None, _) => Err("could not read catalog_version_no from pg_control_system()"@),
        (Some(_), Some(_), Some(_), None) => Err("could not read pg_control_version from pg_control_system()"@),
        (Some(num), Some(id), Some(catalog), Some(control)) => Ok(
            DbIdentityRow {
                server_version_num: num as u32,
                system_identifier: id as u64,
                catalog_version_no: catalog as u32,
                pg_control_version: control as u32,
            },
        ),
    }
}

/// The cluster that the four columns of a server's answers tell of.
pub fn identity_from_scalars(
    server_version_num: Option<&str>,
    system_identifier: Option<&str>,
    catalog_version_no: Option<&str>,
    pg_control_version: Option<&str>,
    versions: &Vec<VersionInterface>,
) -> (r: Result<ClusterIdentity, CommandError>)
    ensures
        match row_of(
            config::opt_view(server_version_num),
            config::opt_view(system_identifier),
            config::opt_view(catalog_version_no),
            config::opt_view(pg_control_version),
        ) {
            Err(m) => r matches Err(e) && e.is_other(m),
            Ok(row) => match row_error(row, versions@) {
                Some(m) => r matches Err(e) && e.is_other(m),
                None => r matches Ok(identity) && tells_of(identity, row),
            },
        },
{
    let num: u64 = match read_column(server_version_num, u32::MAX as u64) {
        Some(n) => n,
        None => return Err(other_error("could not read server_version_num from pg_settings")),
    };
    let id: u64 = match read_column(system_identifier, u64::MAX) {
        Some(n) => n,
        None => return Err(other_error("could not read system_identifier from pg_control_system()")),
    };
    let catalog: u64 = match read_column(catalog_version_no, u32::MAX as u64) {
        Some(n) => n,
        None => return Err(other_error("could not read catalog_version_no from pg_control_system()")),
    };
    let control: u64 = match read_column(pg_control_version, u32::MAX as u64) {
        Some(n) => n,
        None => return Err(other_error("could not read pg_control_version from pg_control_system()")),
    };
    query_result_to_identity(
        DbIdentityRow {
            server_version_num: num as u32,
            system_identifier: id,
            catalog_version_no: catalog as u32,
            pg_control_version: control as u32,
        },
        versions,
    )
}

/// The text at place `c` of the first row of an answer.
pub open spec fn first_row_text(rows: Seq<Vec<Option<String>>>, c: int) -> Option<Seq<char>> {
    if rows.len() > 0 && 0 <= c < rows[0].len() {
        crate::config::opt_text(rows[0][c])
    } else {
        None
    }
}

fn first_row_value(rows: &Vec<Vec<Option<String>>>, c: usize) -> (r: Option<&str>)
    ensures
        config::opt_view(r) == first_row_text(rows@, c as int),
{
    if rows.len() == 0 {
        return None;
    }
    let row = &rows[0];
    if c >= row.len() {
        return None;
    }
    match &row[c] {
        Some(s) => Some(s.as_str()),
        None => None,
    }
}

/// The cluster that the rows of a server's two answers tell of.
pub fn identity_from_rows(
    version_rows: &Vec<Vec<Option<String>>>,
    control_rows: &Vec<Vec<Option<String>>>,
    versions: &Vec<VersionInterface>,
) -> (r: Result<ClusterIdentity, CommandError>)
    ensures
        match row_of(
            first_row_text(version_rows@, 0),
            first_row_text(control_rows@, 0),
            first_row_text(control_rows@, 1),
            first_row_text(control_rows@, 2),
        ) {
            Err(m) => r matches Err(e) && e.is_other(m),
            Ok(row) => match row_error(row, versions@) {
                Some(m) => r matches Err(e) && e.is_other(m),
                None => r matches Ok(identity) && tells_of(identity, row),
            },
        },
{
    identity_from_scalars(
        first_row_value(version_rows, 0),
        first_row_value(control_rows, 0),
        first_row_value(control_rows, 1),
        first_row_value(control_rows, 2),
        versions,
    )
}

/// The error for a control file of a version that is not supported.
pub open spec fn control_error(header: PgControlHeader) -> Seq<char> {
    "unsupported PG control version "@ + text::decimal(header.pg_control_version as nat) + "/"@ + text::decimal(
        header.catalog_version_no as nat,
    ) + " in global/pg_control"@
}

/// The cluster that a control file tells of, with the version found for it.
pub fn identity_from_control(header: PgControlHeader, version: Option<String>) -> (r: Result<ClusterIdentity, CommandError>)
    ensures
        match version {
            Some(v) => r matches Ok(identity) && identity.header == header && identity.version == v,
            None => r matches Err(e) && e.is_other(control_error(header)),
        },
{
    match version {
        Some(version) => Ok(ClusterIdentity { header, version }),
        None => {
            let mut m = "unsupported PG control version ".to_owned();
            m.append(print_unsigned(header.pg_control_version as u64).as_str());
            m.append("/");
            m.append(print_unsigned(header.catalog_version_no as u64).as_str());
            m.append(" in global/pg_control");
            Err(CommandError::Other(m))
        },
    }
}

/// A cluster that a server tells of is of a supported version, and its catalog and
/// control versions are those of that version.
pub proof fn law_accepted_rows_are_consistent(row: DbIdentityRow, versions: Seq<VersionInterface>)
    requires
        row_error(row, versions) is None,
    ensures
        exists|i: int|
            0 <= i < versions.len() && (#[trigger] versions[i]).label@ == version_text(row.server_version_num)
                && versions[i].catalog_version_no == row.catalog_version_no && versions[i].pg_control_version
                == row.pg_control_version,
{
    lemma_catalog_place(versions, row.catalog_version_no, 0);
}

proof fn lemma_catalog_place(versions: Seq<VersionInterface>, no: u32, i: int)
    requires
        0 <= i,
    ensures
        catalog_place(versions, no, i) matches Some(k) ==> i <= k < versions.len() && versions[k].catalog_version_no == no,
    decreases versions.len() - i,
{
    if i < versions.len() && versions[i].catalog_version_no != no {
        lemma_catalog_place(versions, no, i + 1);
    }
}

/// The version that a number stands for: `major` from `major * 10000 + minor` on from ten
/// on, `a.b` from `a * 10000 + b * 100 + minor` before; it must be a supported one.
pub proof fn law_version_numbers(num: u32, a: nat, b: nat, minor: nat, versions: &Vec<VersionInterface>, r: Option<String>)
    requires
        call_ensures(pg_version_label_from_num, (num, versions), r),
        a < 10 ==> num == a * 10_000 + b * 100 + minor && b < 100 && minor < 100,
        a >= 10 ==> num == a * 10_000 + minor && minor < 10_000,
    ensures
        ({
            let label = if a < 10 {
                text::decimal(a) + "."@ + text::decimal(b)
            } else {
                text::decimal(a)
            };
            &&& r is Some <==> exists|i: int| 0 <= i < versions.len() && (#[trigger] versions[i]).label@ == label
            &&& r is Some ==> r.unwrap()@ == label
        }),
{
    if a < 10 {
        assert(num < 100_000);
        assert(num / 10_000 == a);
        assert(num % 10_000 == b * 100 + minor);
        assert(num % 10_000 / 100 == b);
    } else {
        assert(num >= 100_000);
        assert(num / 10_000 == a);
    }
    let label = version_text(num);
    if exists|i: int| 0 <= i < versions.len() && (#[trigger] versions[i]).label@ == label {
        let i = choose|i: int| 0 <= i < versions.len() && (#[trigger] versions[i]).label@ == label;
        assert(versions@[i].label@ == label);
    }
    if supports(versions@, label) {
        let i = choose|i: int| 0 <= i < versions.len() && (#[trigger] versions@[i]).label@ == label;
        assert(versions[i].label@ == label);
    }
}

/// A server is believed where its version is supported and the first supported version
/// with its catalog version is that version and has its control version; then the cluster
/// is the one it tells of. Else the error says which of these fails, in this order.
pub proof fn law_servers_are_believed(
    row: DbIdentityRow,
    versions: &Vec<VersionInterface>,
    label: Option<String>,
    k: int,
    r: Result<ClusterIdentity, CommandError>,
)
    requires
        call_ensures(pg_version_label_from_num, (row.server_version_num, versions), label),
        call_ensures(query_result_to_identity, (row, versions), r),
        0 <= k <= versions.len(),
        forall|j: int| 0 <= j < k ==> (#[trigger] versions[j]).catalog_version_no != row.catalog_version_no,
        k < versions.len() ==> versions[k].catalog_version_no == row.catalog_version_no,
    ensures
        r is Ok <==> label is Some && k < versions.len() && versions[k].pg_control_version == row.pg_control_version
            && versions[k].label@ == label.unwrap()@,
        r is Ok ==> {
            &&& r->Ok_0.version@ == label.unwrap()@
            &&& r->Ok_0.header.system_identifier == row.system_identifier
            &&& r->Ok_0.header.catalog_version_no == row.catalog_version_no
            &&& r->Ok_0.header.pg_control_version == row.pg_control_version
        },
        label is None ==> r->Err_0.is_other("unsupported server_version_num "@ + text::decimal(row.server_version_num as nat)),
        label is Some && k == versions.len() ==> r->Err_0.is_other(
            "unknown catalog_version_no "@ + text::decimal(row.catalog_version_no as nat)
                + " reported by pg_control_system()"@,
        ),
        label is Some && k < versions.len() && versions[k].pg_control_version != row.pg_control_version ==> r->Err_0.is_other(
            "pg_control_system() control version "@ + text::decimal(row.pg_control_version as nat)
                + " does not match catalog_version_no "@ + text::decimal(row.catalog_version_no as nat) + " (expected "@
                + text::decimal(versions[k].pg_control_version as nat) + ")"@,
        ),
        label is Some && k < versions.len() && versions[k].pg_control_version == row.pg_control_version && versions[k].label@
            != label.unwrap()@ ==> r->Err_0.is_other(
            "server_version_num "@ + text::decimal(row.server_version_num as nat) + " does not match catalog_version_no "@
                + text::decimal(row.catalog_version_no as nat) + " (expected version "@ + versions[k].label@ + ")"@,
        ),
{
    lemma_first_catalog(versions@, row.catalog_version_no, 0, k);
}

proof fn lemma_first_catalog(versions: Seq<VersionInterface>, no: u32, i: int, k: int)
    requires
        0 <= i <= k <= versions.len(),
        forall|j: int| i <= j < k ==> (#[trigger] versions[j]).catalog_version_no != no,
        k < versions.len() ==> versions[k].catalog_version_no == no,
    ensures
        catalog_place(versions, no, i) == (if k < versions.len() {
            Some(k)
        } else {
            None
        }),
    decreases k - i,
{
    if i < k {
        lemma_first_catalog(versions, no, i + 1, k);
    }
}

/// The columns of a server's answers are read as numbers, white space around them aside,
/// from the first row: the version from the first answer, the rest from the second. The
/// first that cannot be read decides the error.
pub proof fn law_columns_are_read(
    columns: (Option<&str>, Option<&str>, Option<&str>, Option<&str>),
    version_rows: &Vec<Vec<Option<String>>>,
    control_rows: &Vec<Vec<Option<String>>>,
    versions: &Vec<VersionInterface>,
    row: DbIdentityRow,
    told: Result<ClusterIdentity, CommandError>,
    r: Result<ClusterIdentity, CommandError>,
    rows: Result<ClusterIdentity, CommandError>,
)
    requires
        call_ensures(identity_from_scalars, (columns.0, columns.1, columns.2, columns.3, versions), r),
        call_ensures(identity_from_rows, (version_rows, control_rows, versions), rows),
        call_ensures(query_result_to_identity, (row, versions), told),
        config::opt_view(columns.0) == first_row_text(version_rows@, 0),
        config::opt_view(columns.1) == first_row_text(control_rows@, 0),
        config::opt_view(columns.2) == first_row_text(control_rows@, 1),
        config::opt_view(columns.3) == first_row_text(control_rows@, 2),
    ensures
        ({
            let n = |c: Option<&str>|
                match c {
                    Some(s) => text::unsigned_decimal(text::trimmed(s@)),
                    None => None,
                };
            let fits = |c: Option<&str>, limit: int| n(c) is Some && n(c).unwrap() <= limit;
            let (a, b, c, d) = (
                fits(columns.0, u32::MAX as int),
                fits(columns.1, u64::MAX as int),
                fits(columns.2, u32::MAX as int),
                fits(columns.3, u32::MAX as int),
            );
            &&& !a ==> r->Err_0.is_other("could not read server_version_num from pg_settings"@) && r is Err
            &&& a && !b ==> r->Err_0.is_other("could not read system_identifier from pg_control_system()"@) && r is Err
            &&& a && b && !c ==> r->Err_0.is_other("could not read catalog_version_no from pg_control_system()"@) && r is Err
            &&& a && b && c && !d ==> r->Err_0.is_other("could not read pg_control_version from pg_control_system()"@) && r is Err
            &&& a && b && c && d && n(columns.0) == Some(row.server_version_num as int) && n(columns.1) == Some(
                row.system_identifier as int,
            ) && n(columns.2) == Some(row.catalog_version_no as int) && n(columns.3) == Some(row.pg_control_version as int) ==> {
                &&& r is Ok <==> told is Ok
                &&& r is Ok ==> r->Ok_0.header == told->Ok_0.header && r->Ok_0.version@ == told->Ok_0.version@
            }
            &&& rows is Ok <==> r is Ok
            &&& rows is Ok ==> rows->Ok_0.header == r->Ok_0.header && rows->Ok_0.version@ == r->Ok_0.version@
        }),
{
    lemma_unsigned_is_not_negative(columns.0);
    lemma_unsigned_is_not_negative(columns.1);
    lemma_unsigned_is_not_negative(columns.2);
    lemma_unsigned_is_not_negative(columns.3);
}

proof fn lemma_unsigned_is_not_negative(v: Option<&str>)
    ensures
        v matches Some(s) ==> (text::unsigned_decimal(text::trimmed(s@)) matches Some(n) ==> n >= 0),
{
}

/// A control file is believed with the version that was found for it; without one the
/// error gives its control and its catalog version.
pub proof fn law_control_files(header: PgControlHeader, version: Option<String>, r: Result<ClusterIdentity, CommandError>)
    requires
        call_ensures(identity_from_control, (header, version), r),
    ensures
        r is Ok <==> version is Some,
        r is Ok ==> r->Ok_0.header == header && r->Ok_0.version@ == version.unwrap()@,
        r is Err ==> r->Err_0.is_other(
            "unsupported PG control version "@ + text::decimal(header.pg_control_version as nat) + "/"@ + text::decimal(
                header.catalog_version_no as nat,
            ) + " in global/pg_control"@,
        ),
{
}

/// The questions that a server is asked, and where the control file lies.
pub proof fn law_questions()
    ensures
        PG_CONTROL_PATH@ == "global/pg_control"@,
        SQL_SERVER_VERSION_NUM@
            == "select (select setting from pg_catalog.pg_settings where name = 'server_version_num')::int4"@,
        SQL_PG_CONTROL_SYSTEM@
            == "select system_identifier::text, catalog_version_no::text, pg_control_version::text from pg_catalog.pg_control_system()"@,
{
}

/// Of the rows of an answer the first is read, column by column; where there is none, the
/// version is what cannot be read.
pub proof fn law_first_row_is_read(
    version_rows: &Vec<Vec<Option<String>>>,
    control_rows: &Vec<Vec<Option<String>>>,
    versions: &Vec<VersionInterface>,
    columns: (Option<&str>, Option<&str>, Option<&str>, Option<&str>),
    r: Result<ClusterIdentity, CommandError>,
    rows: Result<ClusterIdentity, CommandError>,
)
    requires
        call_ensures(identity_from_scalars, (columns.0, columns.1, columns.2, columns.3, versions), r),
        call_ensures(identity_from_rows, (version_rows, control_rows, versions), rows),
    ensures
        ({
            let holds = |c: Option<&str>, v: Option<String>| (c is Some <==> v is Some) && (c is Some ==> c.unwrap()@ == v.unwrap()@);
            &&& version_rows.len() == 0 ==> rows is Err && rows->Err_0.is_other(
                "could not read server_version_num from pg_settings"@,
            )
            &&& version_rows.len() > 0 && version_rows[0].len() > 0 && control_rows.len() > 0 && control_rows[0].len() > 2 && holds(
                columns.0,
                version_rows[0][0],
            ) && holds(columns.1, control_rows[0][0]) && holds(columns.2, control_rows[0][1]) && holds(
                columns.3,
                control_rows[0][2],
            ) ==> {
                &&& rows is Ok <==> r is Ok
                &&& rows is Ok ==> rows->Ok_0.header == r->Ok_0.header && rows->Ok_0.version@ == r->Ok_0.version@
            }
        }),
{
}

}
