//! The worker role: a process that serves another one's requests.
use vstd::prelude::*;

use crate::text;
use crate::config;
use crate::config::{missing_option, CommandError, ConfigCommandRole, LoadedConfig, OptionValue};
use crate::protocol::{ErrResponse, ParamValue, Request};
use crate::text::{cat3, starts_with, strip_prefix, text_eq};

verus! {

/// The error number of a request that no handler takes.
pub const WORKER_ERR_CODE: u32 = 1;

/// The stanza that a greeting's parameter declares: what follows `stanza=`, where
/// anything does.
pub open spec fn declared(p: ParamValue) -> Option<Seq<char>> {
    match p.text() {
        Some(token) => if text::has_prefix(token, "stanza="@) && token.len() > "stanza="@.len() {
            Some(token.skip("stanza="@.len() as int))
        } else {
            None
        },
        None => None,
    }
}

/// The stanza that the first declaring parameter from `i` on declares.
pub open spec fn stanza_from(param: Seq<ParamValue>, i: int) -> Option<Seq<char>>
    decreases param.len() - i,
{
    if i < 0 || i >= param.len() {
        None
    } else if declared(param[i]) is Some {
        declared(param[i])
    } else {
        stanza_from(param, i + 1)
    }
}

/// Which handler takes a request.
#[derive(Debug, Clone, PartialEq, Eq)]
pub enum Route {
    /// The one for the storage.
    Storage,
    /// The one for the database.
    Database,
    /// None: the request is refused with this reply.
    Refused(ErrResponse),
}

/// Serves requests below a directory, and remembers the stanza that its caller
/// declared.
pub struct WorkerHandler {
    /// The directory that is served.
    root: String,
    /// The declared stanza.
    stanza: Option<String>,
}

impl WorkerHandler {
    /// The directory that is served.
    pub closed spec fn root_view(self) -> Seq<char> {
        self.root@
    }

    /// The declared stanza.
    pub closed spec fn stanza_view(self) -> Option<Seq<char>> {
        config::opt_text(self.stanza)
    }

    /// A handler that serves `root`; no stanza has been declared to it.
    pub fn new(root: &str) -> (r: Self)
        ensures
            r.root_view() == root@,
            r.stanza_view() is None,
    {
        WorkerHandler { root: root.to_owned(), stanza: None }
    }

    /// The directory that is served.
    pub fn root(&self) -> (r: &str)
        ensures
            r@ == self.root_view(),
    {
        self.root.as_str()
    }

    /// The stanza that the caller declared.
    pub fn stanza(&self) -> (r: Option<&str>)
        ensures
            config::opt_view(r) == self.stanza_view(),
    {
        match &self.stanza {
            Some(s) => Some(s.as_str()),
            None => None,
        }
    }

    /// The stanza that a greeting's parameters declare: the first that one does.
    pub fn parse_stanza_param(param: &[ParamValue]) -> (r: Option<String>)
        ensures
            config::opt_text(r) == stanza_from(param@, 0),
    {
        let n: usize = param.len();
        let mut i: usize = 0;
        while i < n
            invariant
                i <= n,
                n == param@.len(),
                stanza_from(param@, 0) == stanza_from(param@, i as int),
            decreases n - i,
        {
            if let ParamValue::Text(token) = &param[i] {
                if let Some(name) = strip_prefix(token.as_str(), "stanza=") {
                    if !name.is_empty() {
                        return Some(name.to_owned());
                    }
                }
            }
            i += 1;
        }
        None
    }

    /// Remembers the stanza that `req` declares, where it is a greeting that
    /// declares one; says whether it was.
    pub fn record_greeting(&mut self, req: &Request) -> (r: bool)
        ensures
            r == (req.cmd@ == "noOp"@ && stanza_from(req.param@, 0) is Some),
            final(self).stanza_view() == (if r {
                stanza_from(req.param@, 0)
            } else {
                old(self).stanza_view()
            }),
            final(self).root_view() == old(self).root_view(),
    {
        if !text_eq(req.cmd.as_str(), "noOp") {
            return false;
        }
        match Self::parse_stanza_param(req.param.as_slice()) {
            Some(stanza) => {
                self.stanza = Some(stanza);
                true
            },
            None => false,
        }
    }
}

/// Whether `route` is the refusal of `cmd`.
pub open spec fn refuses(route: Route, cmd: Seq<char>) -> bool {
    route matches Route::Refused(e) && e.err == WORKER_ERR_CODE && e.message@
        == "worker: unsupported protocol command `"@ + cmd + "`"@ && e.stack is None
}

/// Which handler takes a request: the storage's takes the commands that begin with
/// `storage-`, the database's those that begin with `db-`, the rest is refused.
pub fn route(req: &Request) -> (r: Route)
    ensures
        r == Route::Storage <==> text::has_prefix(req.cmd@, "storage-"@),
        r == Route::Database <==> !text::has_prefix(req.cmd@, "storage-"@) && text::has_prefix(req.cmd@, "db-"@),
        refuses(r, req.cmd@) <==> !text::has_prefix(req.cmd@, "storage-"@) && !text::has_prefix(req.cmd@, "db-"@),
{
    if starts_with(req.cmd.as_str(), "storage-") {
        Route::Storage
    } else if starts_with(req.cmd.as_str(), "db-") {
        Route::Database
    } else {
        Route::Refused(
            ErrResponse {
                err: WORKER_ERR_CODE,
                message: cat3("worker: unsupported protocol command `", req.cmd.as_str(), "`"),
                stack: None,
            },
        )
    }
}

/// A path given for the first group, where it is not empty.
pub open spec fn served_path(config: LoadedConfig, name: Seq<char>) -> Option<Seq<char>> {
    match config::path_or_string_of(config.option(name, Some(1u32))) {
        Some(p) => if p.len() > 0 {
            Some(p)
        } else {
            None
        },
        None => None,
    }
}

fn given_path<'a>(config: &'a LoadedConfig, name: &str) -> (r: Option<&'a str>)
    ensures
        config::opt_view(r) == served_path(*config, name@),
{
    let p = match config.options.get(name, Some(1)) {
        Some(OptionValue::Path(p)) => p.as_str(),
        Some(OptionValue::String(p)) => p.as_str(),
        _ => return None,
    };
    if p.is_empty() {
        None
    } else {
        Some(p)
    }
}

/// The directory that a worker serves: that of the cluster, else that of the
/// repository.
pub fn worker_root(config: &LoadedConfig) -> (r: Result<String, CommandError>)
    ensures
        match (served_path(*config, "pg-path"@), served_path(*config, "repo-path"@)) {
            (Some(p), _) => r matches Ok(t) && t@ == p,
            (None, Some(p)) => r matches Ok(t) && t@ == p,
            (None, None) => r matches Err(e) && e.is_missing("pg1-path or repo1-path"@),
        },
{
    if let Some(p) = given_path(config, "pg-path") {
        return Ok(p.to_owned());
    }
    if let Some(p) = given_path(config, "repo-path") {
        return Ok(p.to_owned());
    }
    Err(missing_option("pg1-path or repo1-path"))
}

/// Whether the configuration is that of a worker: by its command or by its role.
pub fn is_worker(config: &LoadedConfig) -> (r: bool)
    ensures
        r == (config.command@ == "local"@ || config.command@ == "remote"@ || config.command_role
            == ConfigCommandRole::Local || config.command_role == ConfigCommandRole::Remote),
{
    text_eq(config.command.as_str(), "local") || text_eq(config.command.as_str(), "remote") || config.command_role
        == ConfigCommandRole::Local || config.command_role == ConfigCommandRole::Remote
}

/// The handler that serves the configured directory.
pub fn configured_worker(config: &LoadedConfig) -> (r: Result<WorkerHandler, CommandError>)
    ensures
        match (served_path(*config, "pg-path"@), served_path(*config, "repo-path"@)) {
            (Some(p), _) => r matches Ok(h) && h.root_view() == p && h.stanza_view() is None,
            (None, Some(p)) => r matches Ok(h) && h.root_view() == p && h.stanza_view() is None,
            (None, None) => r matches Err(e) && e.is_missing("pg1-path or repo1-path"@),
        },
{
    match worker_root(config) {
        Ok(root) => Ok(WorkerHandler::new(root.as_str())),
        Err(e) => Err(e),
    }
}

/// The first declaration wins: what stands behind it does not count, and what
/// stands before it declares nothing.
pub proof fn law_first_declaration_wins(param: Seq<ParamValue>, k: int)
    requires
        0 <= k < param.len(),
        declared(param[k]) is Some,
        forall|j: int| 0 <= j < k ==> declared(#[trigger] param[j]) is None,
    ensures
        stanza_from(param, 0) == declared(param[k]),
{
    lemma_stanza_from(param, 0, k);
}

proof fn lemma_stanza_from(param: Seq<ParamValue>, i: int, k: int)
    requires
        0 <= i <= k < param.len(),
        declared(param[k]) is Some,
        forall|j: int| i <= j < k ==> declared(#[trigger] param[j]) is None,
    ensures
        stanza_from(param, i) == declared(param[k]),
    decreases k - i,
{
    if i < k {
        lemma_stanza_from(param, i + 1, k);
    }
}

/// A request goes to the storage where its command begins with `storage-`, to the database
/// where it begins with `db-`; any other is refused, and the refusal names the command.
pub proof fn law_requests_are_routed(req: &Request, rest: Seq<char>, r: Route)
    requires
        call_ensures(route, (req,), r),
    ensures
        req.cmd@ == "storage-"@ + rest ==> r is Storage,
        req.cmd@ == "db-"@ + rest ==> r is Database,
        r is Storage ==> req.cmd@.len() >= 8 && req.cmd@.take(8) == "storage-"@,
        r is Database ==> req.cmd@.len() >= 3 && req.cmd@.take(3) == "db-"@,
        r matches Route::Refused(e) ==> e.err == 1 && e.stack is None && e.message@ == "worker: unsupported protocol command `"@
            + req.cmd@ + "`"@,
{
    reveal_strlit("storage-");
    reveal_strlit("db-");
    text::law_prefix_and_suffix(req.cmd@, "storage-"@);
    text::law_prefix_and_suffix(req.cmd@, "db-"@);
    if req.cmd@ == "db-"@ + rest {
        assert(req.cmd@[0] == 'd');
        if text::has_prefix(req.cmd@, "storage-"@) {
            assert(req.cmd@.take(8)[0] == 's');
        }
    }
}

/// A greeting declares the stanza that follows the first `stanza=` with something behind
/// it; parameters of another form declare nothing.
pub proof fn law_declared_stanza(param: &[ParamValue], r: Option<String>)
    requires
        call_ensures(WorkerHandler::parse_stanza_param, (param,), r),
    ensures
        r matches Some(s) ==> s@.len() > 0 && exists|i: int|
            0 <= i < param@.len() && (#[trigger] param@[i]) is Text && param@[i]->Text_0@ == "stanza="@ + s@ && forall|j: int|
                0 <= j < i && #[trigger] param@[j] is Text ==> param@[j]->Text_0@.len() <= 7 || param@[j]->Text_0@.take(7)
                    != "stanza="@,
        r is None ==> forall|j: int|
            0 <= j < param@.len() && #[trigger] param@[j] is Text ==> param@[j]->Text_0@.len() <= 7 || param@[j]->Text_0@.take(7)
                != "stanza="@,
{
    reveal_strlit("stanza=");
    lemma_declared_from(param@, 0);
    assert forall|j: int| 0 <= j < param@.len() && #[trigger] param@[j] is Text implies (declared(param@[j]) is None <==> (
    param@[j]->Text_0@.len() <= 7 || param@[j]->Text_0@.take(7) != "stanza="@)) by {}
    if let Some(s) = r {
        let i = choose|i: int|
            0 <= i < param@.len() && declared(#[trigger] param@[i]) == Some(s@) && forall|j: int|
                0 <= j < i ==> declared(#[trigger] param@[j]) is None;
        let token = param@[i]->Text_0@;
        assert(token =~= token.take(7) + token.skip(7));
        assert(param@[i] is Text);
    }
}

proof fn lemma_declared_from(param: Seq<ParamValue>, i: int)
    requires
        0 <= i,
    ensures
        match stanza_from(param, i) {
            Some(s) => exists|k: int|
                i <= k < param.len() && declared(#[trigger] param[k]) == Some(s) && forall|j: int|
                    i <= j < k ==> declared(#[trigger] param[j]) is None,
            None => forall|j: int| i <= j < param.len() ==> declared(#[trigger] param[j]) is None,
        },
    decreases param.len() - i,
{
    if i < param.len() {
        if declared(param[i]) is Some {
            assert(declared(param[i]) == stanza_from(param, i));
        } else {
            lemma_declared_from(param, i + 1);
        }
    }
}

/// A worker serves the directory of the cluster, and where none was given that of the
/// repository, both of the first group and not empty; without either it does not start.
pub proof fn law_served_directory(
    config: &LoadedConfig,
    pg: Option<&OptionValue>,
    repo: Option<&OptionValue>,
    root: Result<String, CommandError>,
    handler: Result<WorkerHandler, CommandError>,
)
    requires
        call_ensures(config::Options::get, (&config.options, "pg-path", Some(1u32)), pg),
        call_ensures(config::Options::get, (&config.options, "repo-path", Some(1u32)), repo),
        call_ensures(worker_root, (config,), root),
        call_ensures(configured_worker, (config,), handler),
    ensures
        ({
            let first = match pg {
                Some(OptionValue::Path(p)) => p@,
                Some(OptionValue::String(p)) => p@,
                _ => Seq::<char>::empty(),
            };
            let second = match repo {
                Some(OptionValue::Path(p)) => p@,
                Some(OptionValue::String(p)) => p@,
                _ => Seq::<char>::empty(),
            };
            &&& first.len() > 0 ==> root is Ok && root->Ok_0@ == first
            &&& first.len() == 0 && second.len() > 0 ==> root is Ok && root->Ok_0@ == second
            &&& first.len() == 0 && second.len() == 0 ==> root is Err && root->Err_0.is_missing("pg1-path or repo1-path"@)
            &&& handler is Ok <==> root is Ok
            &&& handler is Err ==> handler->Err_0.is_missing("pg1-path or repo1-path"@)
            &&& handler is Ok ==> handler->Ok_0.root_view() == root->Ok_0@ && handler->Ok_0.stanza_view() is None
        }),
{
}

/// A process is a worker by its command or by its role.
pub proof fn law_who_is_a_worker(config: &LoadedConfig, r: bool)
    requires
        call_ensures(is_worker, (config,), r),
    ensures
        config.command@ == "local"@ ==> r,
        config.command@ == "remote"@ ==> r,
        config.command_role == ConfigCommandRole::Local ==> r,
        config.command_role == ConfigCommandRole::Remote ==> r,
        r ==> config.command@ == "local"@ || config.command@ == "remote"@ || (config.command_role != ConfigCommandRole::Main
            && config.command_role != ConfigCommandRole::Async),
{
}

/// A greeting that declares a stanza has it remembered; any other request changes nothing.
pub proof fn law_greeting_is_remembered(
    server: &mut WorkerHandler,
    req: &Request,
    r: bool,
    param: &[ParamValue],
    declared: Option<String>,
)
    requires
        call_ensures(WorkerHandler::record_greeting, (server, req), r),
        param@ == req.param@,
        call_ensures(WorkerHandler::parse_stanza_param, (param,), declared),
    ensures
        r <==> req.cmd@ == "noOp"@ && declared is Some,
        r ==> final(server).stanza_view() is Some && final(server).stanza_view().unwrap() == declared.unwrap()@,
        !r ==> final(server).stanza_view() == old(server).stanza_view(),
        final(server).root_view() == old(server).root_view(),
{
}

/// A handler tells the directory it was made for, and no stanza before a greeting.
pub proof fn law_new_handler(dir: &str, h: WorkerHandler, root: &str, stanza: Option<&str>)
    requires
        call_ensures(WorkerHandler::new, (dir,), h),
        call_ensures(WorkerHandler::root, (&h,), root),
        call_ensures(WorkerHandler::stanza, (&h,), stanza),
    ensures
        root@ == dir@,
        stanza is None,
{
}

}
