//! The command line, as plain values. Parsing the arguments into these
//! values is the program's job; the library reads them.
use vstd::prelude::*;
use crate::target::RepoArg;

verus! {

/// The program's arguments.
#[derive(Debug, Clone)]
pub struct App {
    pub command: Command,
}

#[derive(Debug, Clone)]
pub enum Command {
    /// Authentication and credential management (UI cookies; optional password creds).
    Auth(AuthCommand),
    /// Token minting helpers.
    Token(TokenCommand),
    /// Forgejo Actions: workflows, runs, jobs, logs, artifacts, cancel/rerun.
    Actions(ActionsCommand),
    /// Pull requests: create, list, and view.
    Pr(PullRequestCommand),
    /// Smoke test for Actions access.
    SmokeTest(SmokeTestCommand),
    /// Legacy alias for `fj-ex auth login`.
    Login(LoginCommand),
}

#[derive(Debug, Clone)]
pub enum AuthCommand {
    /// Log in with a password or a Forgejo/SSO browser session.
    Login(LoginCommand),
    /// Check login status against the host.
    Status(AuthStatusCommand),
    /// List all stored logins.
    List(AuthListCommand),
    /// Show stored login info for a host.
    Show(AuthShowCommand),
    /// Delete stored login info for a host.
    Logout(AuthLogoutCommand),
    /// Clear stored UI cookies for a host (keeps creds).
    ClearCookies(AuthClearCookiesCommand),
    /// Create a package token suitable for Forgejo NuGet auth.
    NugetApiKey(AuthNugetApiKeyCommand),
}

#[derive(Debug, Clone)]
pub enum TokenCommand {
    /// Mint a new token.
    Mint(TokenMintCommand),
    /// List tokens for the authenticated user.
    List(TokenListCommand),
}

#[derive(Debug, Clone)]
pub enum TokenMintCommand {
    /// Mint a package token suitable for Forgejo NuGet auth.
    Nuget(AuthNugetApiKeyCommand),
}

#[derive(Debug, Clone)]
pub struct TokenListCommand {
    pub target: TargetArgs,
    /// Page number (1-based).
    pub page: u32,
    /// Items per page.
    pub limit: u32,
    /// Always print the header row.
    pub header: bool,
    /// Never print the header row.
    pub no_header: bool,
    /// Print JSON output.
    pub json: bool,
}

/// `--host`, `--repo` and `--remote`.
#[derive(Debug, Clone)]
pub struct TargetArgs {
    /// Forgejo host or base URL.
    pub host: Option<String>,
    /// Repo to operate on (owner/name or host/owner/name).
    pub repo: Option<RepoArg>,
    /// Local git remote used to infer host/repo.
    pub remote: Option<String>,
}

#[derive(Debug, Clone)]
pub struct LoginCommand {
    pub target: TargetArgs,
    /// Import a browser session instead of logging in with a password.
    pub web: bool,
    /// Credentials as user:pass.
    pub userpass: Option<String>,
    /// Username to login with (falls back to FJ_USER).
    pub username: Option<String>,
    /// Password to login with.
    pub password: Option<String>,
    /// Read password from stdin (first line).
    pub password_stdin: bool,
    /// Two-factor passcode.
    pub otp: Option<String>,
    /// Read the two-factor passcode from stdin (the second line after a
    /// password read from stdin).
    pub otp_stdin: bool,
}

#[derive(Debug, Clone)]
pub struct AuthStatusCommand {
    pub target: TargetArgs,
    /// Don't re-login if the cookie session is invalid.
    pub no_relogin: bool,
    /// Print JSON output.
    pub json: bool,
}

#[derive(Debug, Clone)]
pub struct AuthListCommand {
    /// Print JSON output.
    pub json: bool,
}

#[derive(Debug, Clone)]
pub struct AuthShowCommand {
    pub target: TargetArgs,
    /// Print JSON output.
    pub json: bool,
    /// Include the plaintext password in output.
    pub unsafe_show_password: bool,
}

#[derive(Debug, Clone)]
pub struct AuthLogoutCommand {
    pub target: TargetArgs,
}

#[derive(Debug, Clone)]
pub struct AuthClearCookiesCommand {
    pub target: TargetArgs,
}

#[derive(Debug, Clone)]
pub struct AuthNugetApiKeyCommand {
    pub target: TargetArgs,
    /// Owner/org segment for the NuGet registry URL (default: current username).
    pub owner: Option<String>,
    /// Access token name (default: fj-ex-nuget-<timestamp>).
    pub token_name: Option<String>,
    /// Create a read-only package token.
    pub read_only: bool,
    /// Print JSON output.
    pub json: bool,
}

#[derive(Debug, Clone)]
pub struct ActionsCommand {
    pub target: TargetArgs,
    pub command: ActionsSubcommand,
}

#[derive(Debug, Clone)]
pub struct PullRequestCommand {
    pub target: TargetArgs,
    pub command: PullRequestSubcommand,
}

#[derive(Debug, Clone)]
pub enum PullRequestSubcommand {
    /// Create a pull request.
    Create {
        title: String,
        body: Option<String>,
        /// A file to read the body from, or `-` for stdin.
        body_file: Option<String>,
        head: Option<String>,
        base: Option<String>,
        draft: bool,
        json: bool,
    },
    /// List pull requests.
    List {
        state: PullRequestState,
        head: Option<String>,
        page: u32,
        limit: u32,
        header: bool,
        no_header: bool,
        json: bool,
    },
    /// View one pull request by number (at least 1).
    View { number: u64, json: bool },
}

/// The state filter of pull request lists.
#[derive(Debug, Clone, Copy, PartialEq, Eq, Structural)]
pub enum PullRequestState {
    Open,
    Closed,
    All,
}

/// The value Forgejo's API uses for a pull request state.
pub open spec fn spec_state_api_value(s: PullRequestState) -> Seq<char> {
    match s {
        PullRequestState::Open => "open"@,
        PullRequestState::Closed => "closed"@,
        PullRequestState::All => "all"@,
    }
}

impl PullRequestState {
    /// The value Forgejo's API uses for this state.
    pub fn as_api_value(self) -> (r: &'static str)
        ensures
            r@ == spec_state_api_value(self),
    {
        match self {
            PullRequestState::Open => "open",
            PullRequestState::Closed => "closed",
            PullRequestState::All => "all",
        }
    }
}

/// Distinct states have distinct API values.
pub proof fn lemma_state_api_values_distinct(a: PullRequestState, b: PullRequestState)
    requires
        a != b,
    ensures
        spec_state_api_value(a) != spec_state_api_value(b),
{
    reveal_strlit("open");
    reveal_strlit("closed");
    reveal_strlit("all");
    assert("open"@.len() == 4 && "closed"@.len() == 6 && "all"@.len() == 3);
}

#[derive(Debug, Clone)]
pub enum ActionsSubcommand {
    /// List available workflows for the repo.
    Workflows { page: u32, limit: u32, json: bool },
    /// List workflow runs for the repo.
    Runs {
        workflow: Option<String>,
        status: Option<String>,
        latest: bool,
        page: u32,
        limit: u32,
        show_url: bool,
        header: bool,
        no_header: bool,
        json: bool,
    },
    /// List jobs for a run.
    Jobs {
        run_index: Option<u64>,
        latest: bool,
        workflow: Option<String>,
        watch: bool,
        watch_interval: u64,
        header: bool,
        no_header: bool,
        json: bool,
    },
    /// Download and print logs.
    Logs { command: ActionsLogsSubcommand },
    /// List or download run artifacts.
    Artifacts { command: ActionsArtifactsSubcommand },
    /// Trigger a workflow via workflow_dispatch.
    Trigger { workflow: String, git_ref: String, input: Vec<String>, dry_run: bool, json: bool },
    /// Runner registration tokens and queued jobs.
    Runners { command: ActionsRunnersSubcommand },
    /// Smoke test for Actions access.
    SmokeTest(ActionsSmokeTestCommand),
    /// Cancel a run.
    Cancel {
        run_index: Option<u64>,
        latest: bool,
        workflow: Option<String>,
        dry_run: bool,
        json: bool,
    },
    /// Rerun a run (or a single job within a run).
    Rerun {
        run_index: Option<u64>,
        latest: bool,
        workflow: Option<String>,
        job_index: Option<u32>,
        failed_only: bool,
        dry_run: bool,
        json: bool,
    },
}

#[derive(Debug, Clone)]
pub enum ActionsLogsSubcommand {
    /// Download logs for all jobs in a run.
    Run {
        run_index: Option<u64>,
        latest: bool,
        workflow: Option<String>,
        out_dir: Option<String>,
        max_jobs: Option<u32>,
    },
    /// Download logs for a single job in a run.
    Job {
        run_index: Option<u64>,
        latest: bool,
        workflow: Option<String>,
        job_index: u32,
        attempt: Option<u32>,
        out_file: Option<String>,
    },
}

#[derive(Debug, Clone)]
pub enum ActionsArtifactsSubcommand {
    /// List artifacts for a run.
    List {
        run_index: Option<u64>,
        latest: bool,
        workflow: Option<String>,
        header: bool,
        no_header: bool,
        json: bool,
    },
    /// Download a single artifact from a run.
    Get {
        run_index: Option<u64>,
        latest: bool,
        workflow: Option<String>,
        artifact: String,
        out_file: String,
    },
}

#[derive(Debug, Clone)]
pub struct ActionsSmokeTestCommand {
    /// Max bytes to download per job log.
    pub log_download_max_bytes: u64,
    /// Base directory for smoke test log downloads.
    pub out_dir: Option<String>,
}

#[derive(Debug, Clone)]
pub struct SmokeTestCommand {
    pub target: TargetArgs,
    pub opts: ActionsSmokeTestCommand,
}

#[derive(Debug, Clone, Copy, PartialEq, Eq, Structural)]
pub enum RunnerScope {
    Global,
    Org,
    Repo,
    User,
}

#[derive(Debug, Clone)]
pub enum ActionsRunnersSubcommand {
    /// Print a runner registration token.
    Token { scope: Option<RunnerScope>, org: Option<String>, json: bool },
    /// List runner jobs.
    Jobs {
        scope: Option<RunnerScope>,
        org: Option<String>,
        label: Vec<String>,
        waiting: bool,
        header: bool,
        no_header: bool,
        json: bool,
    },
}

} // verus!
