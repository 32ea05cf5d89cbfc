//! Installing the language server in the extension's sandbox, as a sequence of decisions.
//!
//! The work itself (asking npm for versions, installing packages, looking at the file
//! system, reporting status to Zed) is done by the caller. The caller starts from
//! `InstallState::start`, performs `state.action()`, reports what came of it with
//! `install_step`, and repeats until the action is `Finish`.
use vstd::prelude::*;
use crate::text::opt_string_view;
use crate::server::{ANGULAR_LANGUAGE_SERVER_PACKAGE_NAME, SERVER_PATH, TYPESCRIPT_PACKAGE_NAME};

verus! {

/// Where the installation stands; each state waits for the answer to one request.
#[derive(Debug, PartialEq)]
pub enum InstallState {
    /// Reporting "checking for update" to Zed, with the requested versions.
    ReportingStatus { als: String, ts: String },
    /// Asking npm for the latest language-server version; `ts` is the requested TypeScript.
    FetchingLatestServer { ts: String },
    /// Asking npm for the latest TypeScript version; `als` is the target language server.
    FetchingLatestTypescript { als: String },
    /// Asking which language-server version is installed, for these targets.
    QueryingServer { als: String, ts: String },
    /// Asking which TypeScript version is installed, knowing the installed server.
    QueryingTypescript { als: String, ts: String, als_installed: Option<String> },
    /// Both installed versions match the targets; checking that the server file is there.
    CheckingExisting { als: String, ts: String },
    /// Installing the language server at `als`, to be followed by TypeScript at `ts`.
    InstallingServer { als: String, ts: String },
    /// Installing TypeScript at `ts`.
    InstallingTypescript { ts: String },
    /// Checking that the installed package holds the server file.
    Verifying,
    /// Done: the server's relative path, or why it could not be installed.
    Finished(Result<String, String>),
}

/// What the caller is asked to do next.
#[derive(Debug, PartialEq)]
pub enum InstallAction {
    /// Report "checking for update" as the installation status.
    ReportCheckingForUpdate,
    /// Ask npm for the latest version of this package.
    FetchLatestVersion(String),
    /// Ask which version of this package is installed.
    QueryInstalledVersion(String),
    /// Tell whether the server file `SERVER_PATH` exists.
    CheckServerFile,
    /// Install this package at this version.
    Install { package: String, version: String },
    /// Stop, with this outcome.
    Finish(Result<String, String>),
}

/// What came of the last action.
#[derive(Debug, PartialEq)]
pub enum InstallEvent {
    StatusReported,
    LatestVersion(Result<String, String>),
    InstalledVersion(Result<Option<String>, String>),
    ServerFile(bool),
    Installed(Result<(), String>),
}

/// The mathematical value of an `InstallState`.
pub enum StateView {
    ReportingStatus { als: Seq<char>, ts: Seq<char> },
    FetchingLatestServer { ts: Seq<char> },
    FetchingLatestTypescript { als: Seq<char> },
    QueryingServer { als: Seq<char>, ts: Seq<char> },
    QueryingTypescript { als: Seq<char>, ts: Seq<char>, als_installed: Option<Seq<char>> },
    CheckingExisting { als: Seq<char>, ts: Seq<char> },
    InstallingServer { als: Seq<char>, ts: Seq<char> },
    InstallingTypescript { ts: Seq<char> },
    Verifying,
    Finished(Result<Seq<char>, Seq<char>>),
}

/// The mathematical value of an `InstallAction`.
pub enum ActionView {
    ReportCheckingForUpdate,
    FetchLatestVersion(Seq<char>),
    QueryInstalledVersion(Seq<char>),
    CheckServerFile,
    Install { package: Seq<char>, version: Seq<char> },
    Finish(Result<Seq<char>, Seq<char>>),
}

/// The mathematical value of an `InstallEvent`.
pub enum EventView {
    StatusReported,
    LatestVersion(Result<Seq<char>, Seq<char>>),
    InstalledVersion(Result<Option<Seq<char>>, Seq<char>>),
    ServerFile(bool),
    Installed(Result<(), Seq<char>>),
}

/// The texts of a result of strings.
pub open spec fn result_view(r: Result<String, String>) -> Result<Seq<char>, Seq<char>> {
    match r {
        Ok(s) => Ok(s@),
        Err(e) => Err(e@),
    }
}

impl View for InstallState {
    type V = StateView;

    open spec fn view(&self) -> StateView {
        match self {
            InstallState::ReportingStatus { als, ts } => StateView::ReportingStatus {
                als: als@,
                ts: ts@,
            },
            InstallState::FetchingLatestServer { ts } => StateView::FetchingLatestServer {
                ts: ts@,
            },
            InstallState::FetchingLatestTypescript { als } => StateView::FetchingLatestTypescript {
                als: als@,
            },
            InstallState::QueryingServer { als, ts } => StateView::QueryingServer {
                als: als@,
                ts: ts@,
            },
            InstallState::QueryingTypescript { als, ts, als_installed } => {
                StateView::QueryingTypescript {
                    als: als@,
                    ts: ts@,
                    als_installed: opt_string_view(*als_installed),
                }
            },
            InstallState::CheckingExisting { als, ts } => StateView::CheckingExisting {
                als: als@,
                ts: ts@,
            },
            InstallState::InstallingServer { als, ts } => StateView::InstallingServer {
                als: als@,
                ts: ts@,
            },
            InstallState::InstallingTypescript { ts } => StateView::InstallingTypescript {
                ts: ts@,
            },
            InstallState::Verifying => StateView::Verifying,
            InstallState::Finished(r) => StateView::Finished(result_view(*r)),
        }
    }
}

impl View for InstallAction {
    type V = ActionView;

    open spec fn view(&self) -> ActionView {
        match self {
            InstallAction::ReportCheckingForUpdate => ActionView::ReportCheckingForUpdate,
            InstallAction::FetchLatestVersion(p) => ActionView::FetchLatestVersion(p@),
            InstallAction::QueryInstalledVersion(p) => ActionView::QueryInstalledVersion(p@),
            InstallAction::CheckServerFile => ActionView::CheckServerFile,
            InstallAction::Install { package, version } => ActionView::Install {
                package: package@,
                version: version@,
            },
            InstallAction::Finish(r) => ActionView::Finish(result_view(*r)),
        }
    }
}

impl View for InstallEvent {
    type V = EventView;

    open spec fn view(&self) -> EventView {
        match self {
            InstallEvent::StatusReported => EventView::StatusReported,
            InstallEvent::LatestVersion(r) => EventView::LatestVersion(result_view(*r)),
            InstallEvent::InstalledVersion(r) => EventView::InstalledVersion(
                match r {
                    Ok(o) => Ok(opt_string_view(*o)),
                    Err(e) => Err(e@),
                },
            ),
            InstallEvent::ServerFile(b) => EventView::ServerFile(*b),
            InstallEvent::Installed(r) => EventView::Installed(
                match r {
                    Ok(()) => Ok(()),
                    Err(e) => Err(e@),
                },
            ),
        }
    }
}

/// The request a state waits on.
pub open spec fn spec_action(s: StateView) -> ActionView {
    match s {
        StateView::ReportingStatus { .. } => ActionView::ReportCheckingForUpdate,
        StateView::FetchingLatestServer { .. } => ActionView::FetchLatestVersion(
            ANGULAR_LANGUAGE_SERVER_PACKAGE_NAME@,
        ),
        StateView::FetchingLatestTypescript { .. } => ActionView::FetchLatestVersion(
            TYPESCRIPT_PACKAGE_NAME@,
        ),
        StateView::QueryingServer { .. } => ActionView::QueryInstalledVersion(
            ANGULAR_LANGUAGE_SERVER_PACKAGE_NAME@,
        ),
        StateView::QueryingTypescript { .. } => ActionView::QueryInstalledVersion(
            TYPESCRIPT_PACKAGE_NAME@,
        ),
        StateView::CheckingExisting { .. } => ActionView::CheckServerFile,
        StateView::InstallingServer { als, .. } => ActionView::Install {
            package: ANGULAR_LANGUAGE_SERVER_PACKAGE_NAME@,
            version: als,
        },
        StateView::InstallingTypescript { ts } => ActionView::Install {
            package: TYPESCRIPT_PACKAGE_NAME@,
            version: ts,
        },
        StateView::Verifying => ActionView::CheckServerFile,
        StateView::Finished(r) => ActionView::Finish(r),
    }
}

/// The state once the language-server target `als` is known: the TypeScript target is
/// fetched when it reads `"latest"`, else the installed versions are queried.
pub open spec fn after_server_target(als: Seq<char>, ts: Seq<char>) -> StateView {
    if ts == "latest"@ {
        StateView::FetchingLatestTypescript { als }
    } else {
        StateView::QueryingServer { als, ts }
    }
}

/// Why installing `package` failed.
pub open spec fn install_failure(package: Seq<char>, error: Seq<char>) -> Seq<char> {
    "Failed to install package '"@ + package + "': "@ + error
}

/// Why the installed server cannot be used.
pub open spec fn missing_server_message() -> Seq<char> {
    "Installed package '"@ + ANGULAR_LANGUAGE_SERVER_PACKAGE_NAME@ + "' did not contain expected path '"@
        + SERVER_PATH@ + "'"@
}

/// One step of the installation: the state that follows `s` once `e` is reported.
///
/// A version requested as `"latest"` is resolved through npm first. Both packages are left
/// alone when the installed versions match the targets and the server file exists;
/// otherwise the language server, then TypeScript, are installed. The outcome is the
/// server's relative path once its file is found. Every failure ends the installation with
/// its message. An event that does not answer the pending request leaves the state as it
/// is, and a finished installation stays finished.
pub open spec fn spec_step(s: StateView, e: EventView) -> StateView {
    match (s, e) {
        (StateView::ReportingStatus { als, ts }, EventView::StatusReported) => if als
            == "latest"@ {
            StateView::FetchingLatestServer { ts }
        } else {
            after_server_target(als, ts)
        },
        (StateView::FetchingLatestServer { ts }, EventView::LatestVersion(r)) => match r {
            Ok(v) => after_server_target(v, ts),
            Err(err) => StateView::Finished(Err(err)),
        },
        (StateView::FetchingLatestTypescript { als }, EventView::LatestVersion(r)) => match r {
            Ok(v) => StateView::QueryingServer { als, ts: v },
            Err(err) => StateView::Finished(Err(err)),
        },
        (StateView::QueryingServer { als, ts }, EventView::InstalledVersion(r)) => match r {
            Ok(o) => StateView::QueryingTypescript { als, ts, als_installed: o },
            Err(err) => StateView::Finished(Err(err)),
        },
        (
            StateView::QueryingTypescript { als, ts, als_installed },
            EventView::InstalledVersion(r),
        ) => match r {
            Ok(o) => if als_installed == Some(als) && o == Some(ts) {
                StateView::CheckingExisting { als, ts }
            } else {
                StateView::InstallingServer { als, ts }
            },
            Err(err) => StateView::Finished(Err(err)),
        },
        (StateView::CheckingExisting { als, ts }, EventView::ServerFile(exists)) => if exists {
            StateView::Verifying
        } else {
            StateView::InstallingServer { als, ts }
        },
        (StateView::InstallingServer { ts, .. }, EventView::Installed(r)) => match r {
            Ok(()) => StateView::InstallingTypescript { ts },
            Err(err) => StateView::Finished(
                Err(install_failure(ANGULAR_LANGUAGE_SERVER_PACKAGE_NAME@, err)),
            ),
        },
        (StateView::InstallingTypescript { .. }, EventView::Installed(r)) => match r {
            Ok(()) => StateView::Verifying,
            Err(err) => StateView::Finished(Err(install_failure(TYPESCRIPT_PACKAGE_NAME@, err))),
        },
        (StateView::Verifying, EventView::ServerFile(exists)) => if exists {
            StateView::Finished(Ok(SERVER_PATH@))
        } else {
            StateView::Finished(Err(missing_server_message()))
        },
        _ => s,
    }
}

/// Whether `s` reads `"latest"`.
fn is_latest(s: &String) -> (r: bool)
    ensures
        r == (s@ == "latest"@),
{
    let latest = "latest".to_owned();
    *s == latest
}

/// Whether an installed version is exactly the target.
fn installed_matches(installed: &Option<String>, target: &String) -> (r: bool)
    ensures
        r == (opt_string_view(*installed) == Some(target@)),
{
    match installed {
        Some(v) => *v == *target,
        None => false,
    }
}

/// `"Failed to install package '<package>': <error>"`.
fn install_failure_message(package: &str, error: &String) -> (r: String)
    ensures
        r@ == install_failure(package@, error@),
{
    let mut r = "Failed to install package '".to_owned();
    r.append(package);
    r.append("': ");
    r.append(error.as_str());
    r
}

/// The message for an installed package that lacks the server file.
fn missing_server() -> (r: String)
    ensures
        r@ == missing_server_message(),
{
    let mut r = "Installed package '".to_owned();
    r.append(ANGULAR_LANGUAGE_SERVER_PACKAGE_NAME);
    r.append("' did not contain expected path '");
    r.append(SERVER_PATH);
    r.append("'");
    r
}

/// The state once the language-server target is known.
fn after_server(als: String, ts: String) -> (r: InstallState)
    ensures
        r@ == after_server_target(als@, ts@),
{
    if is_latest(&ts) {
        InstallState::FetchingLatestTypescript { als }
    } else {
        InstallState::QueryingServer { als, ts }
    }
}

impl InstallState {
    /// The first state of an installation of the language server at `als_version` and
    /// TypeScript at `ts_version` (either may read `"latest"`).
    pub fn start(als_version: &str, ts_version: &str) -> (r: InstallState)
        ensures
            r@ == (StateView::ReportingStatus { als: als_version@, ts: ts_version@ }),
    {
        InstallState::ReportingStatus { als: als_version.to_owned(), ts: ts_version.to_owned() }
    }

    /// The request this state waits on.
    pub fn action(&self) -> (a: InstallAction)
        ensures
            a@ == spec_action(self@),
    {
        match self {
            InstallState::ReportingStatus { .. } => InstallAction::ReportCheckingForUpdate,
            InstallState::FetchingLatestServer { .. } => InstallAction::FetchLatestVersion(
                ANGULAR_LANGUAGE_SERVER_PACKAGE_NAME.to_owned(),
            ),
            InstallState::FetchingLatestTypescript { .. } => InstallAction::FetchLatestVersion(
                TYPESCRIPT_PACKAGE_NAME.to_owned(),
            ),
            InstallState::QueryingServer { .. } => InstallAction::QueryInstalledVersion(
                ANGULAR_LANGUAGE_SERVER_PACKAGE_NAME.to_owned(),
            ),
            InstallState::QueryingTypescript { .. } => InstallAction::QueryInstalledVersion(
                TYPESCRIPT_PACKAGE_NAME.to_owned(),
            ),
            InstallState::CheckingExisting { .. } => InstallAction::CheckServerFile,
            InstallState::InstallingServer { als, .. } => InstallAction::Install {
                package: ANGULAR_LANGUAGE_SERVER_PACKAGE_NAME.to_owned(),
                version: als.clone(),
            },
            InstallState::InstallingTypescript { ts } => InstallAction::Install {
                package: TYPESCRIPT_PACKAGE_NAME.to_owned(),
                version: ts.clone(),
            },
            InstallState::Verifying => InstallAction::CheckServerFile,
            InstallState::Finished(r) => InstallAction::Finish(
                match r {
                    Ok(p) => Ok(p.clone()),
                    Err(e) => Err(e.clone()),
                },
            ),
        }
    }
}

/// Advances the installation by one step (see `spec_step`).
pub fn install_step(state: InstallState, event: InstallEvent) -> (next: InstallState)
    ensures
        next@ == spec_step(state@, event@),
{
    match (state, event) {
        (InstallState::ReportingStatus { als, ts }, InstallEvent::StatusReported) => {
            if is_latest(&als) {
                InstallState::FetchingLatestServer { ts }
            } else {
                after_server(als, ts)
            }
        },
        (InstallState::FetchingLatestServer { ts }, InstallEvent::LatestVersion(r)) => match r {
            Ok(v) => after_server(v, ts),
            Err(err) => InstallState::Finished(Err(err)),
        },
        (InstallState::FetchingLatestTypescript { als }, InstallEvent::LatestVersion(r)) => {
            match r {
                Ok(v) => InstallState::QueryingServer { als, ts: v },
                Err(err) => InstallState::Finished(Err(err)),
            }
        },
        (InstallState::QueryingServer { als, ts }, InstallEvent::InstalledVersion(r)) => {
            match r {
                Ok(o) => InstallState::QueryingTypescript { als, ts, als_installed: o },
                Err(err) => InstallState::Finished(Err(err)),
            }
        },
        (
            InstallState::QueryingTypescript { als, ts, als_installed },
            InstallEvent::InstalledVersion(r),
        ) => match r {
            Ok(o) => {
                if installed_matches(&als_installed, &als) && installed_matches(&o, &ts) {
                    InstallState::CheckingExisting { als, ts }
                } else {
                    InstallState::InstallingServer { als, ts }
                }
            },
            Err(err) => InstallState::Finished(Err(err)),
        },
        (InstallState::CheckingExisting { als, ts }, InstallEvent::ServerFile(exists)) => {
            if exists {
                InstallState::Verifying
            } else {
                InstallState::InstallingServer { als, ts }
            }
        },
        (InstallState::InstallingServer { ts, .. }, InstallEvent::Installed(r)) => match r {
            Ok(()) => InstallState::InstallingTypescript { ts },
            Err(err) => InstallState::Finished(
                Err(install_failure_message(ANGULAR_LANGUAGE_SERVER_PACKAGE_NAME, &err)),
            ),
        },
        (InstallState::InstallingTypescript { .. }, InstallEvent::Installed(r)) => match r {
            Ok(()) => InstallState::Verifying,
            Err(err) => InstallState::Finished(
                Err(install_failure_message(TYPESCRIPT_PACKAGE_NAME, &err)),
            ),
        },
        (InstallState::Verifying, InstallEvent::ServerFile(exists)) => {
            if exists {
                InstallState::Finished(Ok(SERVER_PATH.to_owned()))
            } else {
                InstallState::Finished(Err(missing_server()))
            }
        },
        (state, _) => state,
    }
}

} // verus!

verus! {

/// How far along the installation a state is.
pub open spec fn stage(s: StateView) -> nat {
    match s {
        StateView::ReportingStatus { .. } => 0,
        StateView::FetchingLatestServer { .. } => 1,
        StateView::FetchingLatestTypescript { .. } => 2,
        StateView::QueryingServer { .. } => 3,
        StateView::QueryingTypescript { .. } => 4,
        StateView::CheckingExisting { .. } => 5,
        StateView::InstallingServer { .. } => 6,
        StateView::InstallingTypescript { .. } => 7,
        StateView::Verifying => 8,
        StateView::Finished(_) => 9,
    }
}

/// Whether `e` answers the request that `s` waits on.
pub open spec fn answers(s: StateView, e: EventView) -> bool {
    match (spec_action(s), e) {
        (ActionView::ReportCheckingForUpdate, EventView::StatusReported) => true,
        (ActionView::FetchLatestVersion(_), EventView::LatestVersion(_)) => true,
        (ActionView::QueryInstalledVersion(_), EventView::InstalledVersion(_)) => true,
        (ActionView::CheckServerFile, EventView::ServerFile(_)) => true,
        (ActionView::Install { .. }, EventView::Installed(_)) => true,
        _ => false,
    }
}

/// Every answered request moves the installation strictly forward, and nothing else moves
/// it: so an installation whose requests are all answered finishes after at most nine of
/// them, and once finished it stays finished.
pub proof fn lemma_install_progress(s: StateView, e: EventView)
    ensures
        answers(s, e) && !(s is Finished) ==> stage(spec_step(s, e)) > stage(s),
        !answers(s, e) || s is Finished ==> spec_step(s, e) == s,
        stage(s) <= 9,
{
}

/// The installation succeeds only by finding the server file after installing or after
/// finding both packages up to date, and its outcome is then the server's relative path.
pub proof fn lemma_install_success_only_when_verified(s: StateView, e: EventView)
    requires
        !(s is Finished),
        spec_step(s, e) matches StateView::Finished(Ok(_)),
    ensures
        s is Verifying,
        e == EventView::ServerFile(true),
        spec_step(s, e) == StateView::Finished(Ok(SERVER_PATH@)),
{
}

/// Packages are installed only when needed: the installation reaches the install step
/// only when an installed version differs from its target, or when both match but the
/// server file is missing.
pub proof fn lemma_install_only_when_needed(s: StateView, e: EventView)
    requires
        spec_step(s, e) is InstallingServer,
        !(s is InstallingServer),
    ensures
        match s {
            StateView::QueryingTypescript { als, ts, als_installed } => match e {
                EventView::InstalledVersion(Ok(o)) => !(als_installed == Some(als) && o == Some(
                    ts,
                )),
                _ => false,
            },
            StateView::CheckingExisting { .. } => e == EventView::ServerFile(false),
            _ => false,
        },
{
}

/// The versions a state carries agree with the requested ones, wherever a request names a
/// concrete version rather than `"latest"`.
pub open spec fn keeps_requested(als_req: Seq<char>, ts_req: Seq<char>, s: StateView) -> bool {
    let als_ok = |v: Seq<char>| als_req != "latest"@ ==> v == als_req;
    let ts_ok = |v: Seq<char>| ts_req != "latest"@ ==> v == ts_req;
    match s {
        StateView::ReportingStatus { als, ts } => als == als_req && ts == ts_req,
        StateView::FetchingLatestServer { ts } => als_req == "latest"@ && ts == ts_req,
        StateView::FetchingLatestTypescript { als } => als_ok(als) && ts_req == "latest"@,
        StateView::QueryingServer { als, ts } => als_ok(als) && ts_ok(ts),
        StateView::QueryingTypescript { als, ts, .. } => als_ok(als) && ts_ok(ts),
        StateView::CheckingExisting { als, ts } => als_ok(als) && ts_ok(ts),
        StateView::InstallingServer { als, ts } => als_ok(als) && ts_ok(ts),
        StateView::InstallingTypescript { ts } => ts_ok(ts),
        _ => true,
    }
}

/// A concrete version asked for is the version installed: starting from the requested
/// versions, every step keeps the versions it carries equal to them (unless a request reads
/// `"latest"`), so every install request of a run names the requested version.
pub proof fn lemma_install_keeps_requested(
    als_req: Seq<char>,
    ts_req: Seq<char>,
    s: StateView,
    e: EventView,
)
    ensures
        keeps_requested(
            als_req,
            ts_req,
            StateView::ReportingStatus { als: als_req, ts: ts_req },
        ),
        keeps_requested(als_req, ts_req, s) ==> keeps_requested(als_req, ts_req, spec_step(s, e)),
        keeps_requested(als_req, ts_req, s) ==> match spec_action(s) {
            ActionView::Install { package, version } => (package
                == ANGULAR_LANGUAGE_SERVER_PACKAGE_NAME@ && als_req != "latest"@ ==> version
                == als_req) && (package == TYPESCRIPT_PACKAGE_NAME@ && ts_req != "latest"@
                ==> version == ts_req),
            _ => true,
        },
{
    reveal_strlit("@angular/language-server");
    reveal_strlit("typescript");
}

} // verus!

verus! {

/// The update decision, once both installed versions are known: when the installed
/// language server is exactly `als` and the installed TypeScript exactly `ts`, nothing is
/// installed, and a present server file finishes the run with the server's path (a missing
/// one has both packages installed again). When either differs (or is not installed), the
/// language server is installed at `als` and then TypeScript at `ts`, whichever of the two
/// was stale, and the server file is looked for once both are in.
pub proof fn lemma_install_update_decision(
    als: Seq<char>,
    ts: Seq<char>,
    als_installed: Option<Seq<char>>,
    ts_installed: Option<Seq<char>>,
)
    ensures
        ({
            let s = StateView::QueryingTypescript { als, ts, als_installed };
            let n = spec_step(s, EventView::InstalledVersion(Ok(ts_installed)));
            &&& (als_installed == Some(als) && ts_installed == Some(ts)) ==> {
                &&& n == StateView::CheckingExisting { als, ts }
                &&& spec_action(n) == ActionView::CheckServerFile
                &&& spec_step(n, EventView::ServerFile(true)) == StateView::Verifying
                &&& spec_step(spec_step(n, EventView::ServerFile(true)), EventView::ServerFile(true))
                    == StateView::Finished(Ok(SERVER_PATH@))
                &&& spec_step(n, EventView::ServerFile(false)) == StateView::InstallingServer {
                    als,
                    ts,
                }
            }
            &&& !(als_installed == Some(als) && ts_installed == Some(ts)) ==> {
                &&& n == StateView::InstallingServer { als, ts }
                &&& spec_action(n) == (ActionView::Install {
                    package: ANGULAR_LANGUAGE_SERVER_PACKAGE_NAME@,
                    version: als,
                })
                &&& spec_action(spec_step(n, EventView::Installed(Ok(())))) == (ActionView::Install {
                    package: TYPESCRIPT_PACKAGE_NAME@,
                    version: ts,
                })
                &&& spec_step(
                    spec_step(n, EventView::Installed(Ok(()))),
                    EventView::Installed(Ok(())),
                ) == StateView::Verifying
            }
        }),
{
}

} // verus!
