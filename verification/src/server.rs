//! The configuration of the database server under test, and the judgement of how it starts.
use vstd::prelude::*;
use vstd::string::StringExecFns;

use crate::options::{EncryptionConfig, Options};
use crate::text::{decimal, decimal_text, is_numeral, law_decimal_is_the_numeral};

verus! {

/// The configuration of the databases of a server.
#[derive(Debug, PartialEq, Eq)]
pub struct DbConfig {
    /// The directory of the extensions to load.
    pub extensions_path: Option<String>,
    /// The settings of the replicator, if there is one.
    pub bottomless_replication: Option<Options>,
    /// The limit on the size of the log.
    pub max_log_size: u64,
    /// The limit on the age of the log, in seconds.
    pub max_log_duration_secs: Option<u64>,
    /// The soft limit on the heap, in megabytes.
    pub soft_heap_limit_mb: Option<usize>,
    /// The hard limit on the heap, in megabytes.
    pub hard_heap_limit_mb: Option<usize>,
    /// The limit on the size of a response.
    pub max_response_size: u64,
    /// The limit on the size of all responses together.
    pub max_total_response_size: u64,
    /// The command to run for a snapshot.
    pub snapshot_exec: Option<String>,
    /// The time between two checkpoints, in seconds.
    pub checkpoint_interval_secs: Option<u64>,
    /// Whether a snapshot is made at shutdown.
    pub snapshot_at_shutdown: bool,
    /// How the databases are encrypted, if they are.
    pub encryption_config: Option<EncryptionConfig>,
    /// How many requests run at the same time.
    pub max_concurrent_requests: u64,
    /// How long a connection may take to be made, in seconds.
    pub connection_creation_timeout_secs: Option<u64>,
    /// Whether requests are let through without throttling.
    pub disable_intelligent_throttling: bool,
}

/// The configuration of the API for users.
#[derive(Debug, PartialEq, Eq)]
pub struct UserApiConfig {
    /// The listener for web socket connections.
    pub hrana_ws_acceptor: Option<usize>,
    /// The listener for HTTP connections.
    pub http_acceptor: Option<usize>,
    /// Whether the HTTP console is served.
    pub enable_http_console: bool,
    /// The URL of this server.
    pub self_url: Option<String>,
    /// The URL of the primary.
    pub primary_url: Option<String>,
    /// Whether users have to authenticate.
    pub auth_required: bool,
}

/// The configuration of a server. A listener stands in it by its number in the registry; what is
/// not named here is left to the server's own defaults.
#[derive(Debug, PartialEq, Eq)]
pub struct ServerConfig {
    /// The configuration of the databases.
    pub db_config: DbConfig,
    /// Whether the admin API is served.
    pub admin_api: bool,
    /// Whether the server does without namespaces.
    pub disable_namespaces: bool,
    /// The configuration of the API for users.
    pub user_api_config: UserApiConfig,
    /// The directory of the databases.
    pub path: String,
    /// Whether the default namespace is left out.
    pub disable_default_namespace: bool,
    /// How many namespaces are active at most.
    pub max_active_namespaces: usize,
    /// Whether heartbeats are sent.
    pub heartbeat: bool,
    /// How long the server stays up without requests, in seconds.
    pub idle_shutdown_timeout_secs: Option<u64>,
    /// How long the server stays up before its first request, in seconds.
    pub initial_idle_shutdown_timeout_secs: Option<u64>,
    /// Whether replicas are served.
    pub rpc_server: bool,
    /// Whether the server is a replica.
    pub rpc_client: bool,
}

/// The configuration of a server that keeps its databases in `path`, replicates them as `options`
/// say, and listens for HTTP connections on the listener with number `listener`.
pub fn configure_server(options: &Options, listener: usize, path: &str) -> (server: ServerConfig)
    ensures
        server.db_config == (DbConfig {
            extensions_path: None,
            bottomless_replication: Some(*options),
            max_log_size: (200 * 4046) as u64,
            max_log_duration_secs: None,
            soft_heap_limit_mb: None,
            hard_heap_limit_mb: None,
            max_response_size: (10000000 * 4096) as u64,
            max_total_response_size: (10000000 * 4096) as u64,
            snapshot_exec: None,
            checkpoint_interval_secs: Some(3),
            snapshot_at_shutdown: false,
            encryption_config: None,
            max_concurrent_requests: 128,
            connection_creation_timeout_secs: None,
            disable_intelligent_throttling: false,
        }),
        server.user_api_config == (UserApiConfig {
            hrana_ws_acceptor: None,
            http_acceptor: Some(listener),
            enable_http_console: false,
            self_url: None,
            primary_url: None,
            auth_required: false,
        }),
        server.path@ == path@,
        server == (ServerConfig {
            db_config: server.db_config,
            admin_api: false,
            disable_namespaces: true,
            user_api_config: server.user_api_config,
            path: server.path,
            disable_default_namespace: false,
            max_active_namespaces: 100,
            heartbeat: false,
            idle_shutdown_timeout_secs: None,
            initial_idle_shutdown_timeout_secs: None,
            rpc_server: false,
            rpc_client: false,
        }),
{
    ServerConfig {
        db_config: DbConfig {
            extensions_path: None,
            bottomless_replication: Some(options.clone()),
            max_log_size: 200 * 4046,
            max_log_duration_secs: None,
            soft_heap_limit_mb: None,
            hard_heap_limit_mb: None,
            max_response_size: 10000000 * 4096,
            max_total_response_size: 10000000 * 4096,
            snapshot_exec: None,
            checkpoint_interval_secs: Some(3),
            snapshot_at_shutdown: false,
            encryption_config: None,
            max_concurrent_requests: 128,
            connection_creation_timeout_secs: None,
            disable_intelligent_throttling: false,
        },
        admin_api: false,
        disable_namespaces: true,
        user_api_config: UserApiConfig {
            hrana_ws_acceptor: None,
            http_acceptor: Some(listener),
            enable_http_console: false,
            self_url: None,
            primary_url: None,
            auth_required: false,
        },
        path: path.to_owned(),
        disable_default_namespace: false,
        max_active_namespaces: 100,
        heartbeat: false,
        idle_shutdown_timeout_secs: None,
        initial_idle_shutdown_timeout_secs: None,
        rpc_server: false,
        rpc_client: false,
    }
}

/// The report that the server failed in the step `step` with the error `error`.
pub open spec fn step_report(step: nat, error: Seq<char>) -> Seq<char> {
    "Failed step "@ + decimal(step) + ": "@ + error
}

/// A report gives the number of the step in decimal, and the whole error.
pub proof fn law_report_names_the_step(step: nat, error: Seq<char>)
    ensures
        exists|digits: Seq<char>| #[trigger]
            is_numeral(digits, step as int) && step_report(step, error) == "Failed step "@ + digits
                + ": "@ + error,
{
    law_decimal_is_the_numeral(step);
    assert(is_numeral(decimal(step), step as int));
}

/// The report that the server failed in a step of a test.
pub fn failed_step(step: u32, error: &str) -> (s: String)
    ensures
        s@ == step_report(step as nat, error@),
{
    let digits = decimal_text(step as u64);
    let mut s = "Failed step ".to_owned();
    s.append(digits.as_str());
    s.append(": ");
    s.append(error);
    s
}

/// How the start of a server ended.
#[derive(Debug, Clone, Copy, PartialEq, Eq, Structural)]
pub enum StartOutcome {
    /// The server ran, and ended without an error.
    Started,
    /// The server gave an error.
    Failed,
    /// The server had done neither when the time was over.
    TimedOut,
}

/// What is wrong with the start of a server that cannot reach its object store.
#[derive(Debug, Clone, Copy, PartialEq, Eq, Structural)]
pub enum StartProblem {
    /// The server started nonetheless.
    Started,
    /// The server hung.
    Hung,
    /// The server failed, but not quickly enough.
    Slow,
}

/// The time that a failure may take, in milliseconds.
pub const FAILURE_LIMIT_MILLIS: u128 = 60_000;

/// The judgement of the start of a server that cannot reach its object store.
pub open spec fn start_verdict(outcome: StartOutcome, elapsed_millis: u128) -> Result<
    (),
    StartProblem,
> {
    match outcome {
        StartOutcome::Started => Err(StartProblem::Started),
        StartOutcome::TimedOut => Err(StartProblem::Hung),
        StartOutcome::Failed => if elapsed_millis < 60_000 {
            Ok(())
        } else {
            Err(StartProblem::Slow)
        },
    }
}

/// Only a failure within a minute is right: a server that starts, or hangs, is wrong at any time,
/// and it is never right to take longer.
pub proof fn law_only_quick_failures_are_right(
    outcome: StartOutcome,
    elapsed_millis: u128,
    longer: u128,
)
    requires
        elapsed_millis <= longer,
    ensures
        start_verdict(outcome, elapsed_millis) is Ok <==> outcome is Failed && elapsed_millis
            < 60 * 1000,
        start_verdict(outcome, longer) is Ok ==> start_verdict(outcome, elapsed_millis) is Ok,
        start_verdict(outcome, elapsed_millis) == Err::<(), StartProblem>(StartProblem::Started)
            <==> outcome is Started,
        start_verdict(outcome, elapsed_millis) == Err::<(), StartProblem>(StartProblem::Hung)
            <==> outcome is TimedOut,
{
}

/// Judges the start of a server that cannot reach its object store: it has to fail, and quickly.
pub fn judge_interrupted_start(outcome: StartOutcome, elapsed_millis: u128) -> (r: Result<
    (),
    StartProblem,
>)
    ensures
        r == start_verdict(outcome, elapsed_millis),
{
    match outcome {
        StartOutcome::Started => Err(StartProblem::Started),
        StartOutcome::TimedOut => Err(StartProblem::Hung),
        StartOutcome::Failed => if elapsed_millis < FAILURE_LIMIT_MILLIS {
            Ok(())
        } else {
            Err(StartProblem::Slow)
        },
    }
}

/// What is wrong with a request that was to time out.
#[derive(Debug, Clone, Copy, PartialEq, Eq, Structural)]
pub enum TimeoutProblem {
    /// The request was answered.
    Answered,
    /// The request failed, but not quickly enough.
    Slow,
}

/// The judgement of a request that never gets an answer.
pub open spec fn timeout_verdict(failed: bool, elapsed_millis: u128) -> Result<
    (),
    TimeoutProblem,
> {
    if !failed {
        Err(TimeoutProblem::Answered)
    } else if elapsed_millis < 60_000 {
        Ok(())
    } else {
        Err(TimeoutProblem::Slow)
    }
}

/// A request is judged as the start of a server is that failed, or started, in the same time.
pub proof fn law_timeouts_are_quick_failures(failed: bool, elapsed_millis: u128)
    ensures
        timeout_verdict(failed, elapsed_millis) is Ok <==> failed && elapsed_millis < 60 * 1000,
        timeout_verdict(failed, elapsed_millis) == Err::<(), TimeoutProblem>(
            TimeoutProblem::Answered,
        ) <==> !failed,
        timeout_verdict(failed, elapsed_millis) is Ok <==> start_verdict(
            if failed {
                StartOutcome::Failed
            } else {
                StartOutcome::Started
            },
            elapsed_millis,
        ) is Ok,
{
}

/// Judges a request that never gets an answer: it has to fail, and quickly.
pub fn judge_timeout(failed: bool, elapsed_millis: u128) -> (r: Result<(), TimeoutProblem>)
    ensures
        r == timeout_verdict(failed, elapsed_millis),
{
    if !failed {
        Err(TimeoutProblem::Answered)
    } else if elapsed_millis < FAILURE_LIMIT_MILLIS {
        Ok(())
    } else {
        Err(TimeoutProblem::Slow)
    }
}

} // verus!
