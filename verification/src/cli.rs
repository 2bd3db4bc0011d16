//! The command tree of the command-line interface, as plain data.
use vstd::prelude::*;

use crate::models::Float32Bits;

verus! {

/// How results are printed.
#[derive(Clone, Copy, Debug, PartialEq, Eq, Structural)]
pub enum OutputFormat {
    Text,
    Json,
}

/// A shell that completions can be generated for.
#[derive(Clone, Copy, Debug, PartialEq, Eq, Structural)]
pub enum Shell {
    Bash,
    Elvish,
    Fish,
    PowerShell,
    Zsh,
}

/// The parsed command line.
pub struct Cli {
    /// API base URL given on the command line or in the environment.
    pub api_url: Option<String>,
    /// API key given on the command line or in the environment.
    pub api_key: Option<String>,
    /// NATS server URL given on the command line or in the environment.
    pub nats_url: Option<String>,
    /// Output format.
    pub format: OutputFormat,
    pub command: Command,
}

/// A top-level command.
pub enum Command {
    /// Authenticate with Archipelag.io.
    Auth { command: AuthCommand },
    /// Show account info and credit balance.
    Account,
    /// Chat with an AI model.
    Chat {
        prompt: String,
        system: Option<String>,
        max_tokens: Option<u32>,
        /// Sampling temperature.
        temperature: Option<Float32Bits>,
        workload: String,
        no_stream: bool,
    },
    /// Manage compute jobs.
    Jobs { command: JobsCommand },
    /// Browse available workloads.
    Workloads { command: WorkloadsCommand },
    /// View Islands (compute hosts) on the network.
    Hosts { command: HostsCommand },
    /// Manage API keys.
    ApiKeys { command: ApiKeysCommand },
    /// View market rates and pricing.
    Market { command: MarketCommand },
    /// Subscribe to NATS subjects.
    Nats { command: NatsCommand },
    /// Generate shell completions.
    Completion { shell: Shell },
}

pub enum AuthCommand {
    /// Save an API key, given or entered interactively.
    Login { key: Option<String> },
    /// Show current auth status.
    Status,
    /// Remove saved credentials.
    Logout,
}

pub enum JobsCommand {
    List { limit: u32, offset: u32 },
    Submit { workload: String, input: String, stream: bool },
    Get { id: String },
    Stream { id: String },
    Cancel { id: String },
}

pub enum WorkloadsCommand {
    List,
    Get { slug: String },
}

pub enum HostsCommand {
    List,
    Get { id: String },
}

pub enum ApiKeysCommand {
    List,
    Create { name: String },
    Delete { id: String },
}

pub enum MarketCommand {
    Rates { workload: Option<String> },
    History { slug: String },
}

pub enum NatsCommand {
    /// Subscribe to a subject; `max` 0 means no limit.
    Subscribe { subject: String, max: u64 },
}

/// Whether a command talks to the API and so needs an API key: all but
/// `auth` (which manages the key itself) and `completion`.
pub open spec fn needs_client(c: Command) -> bool {
    !(c is Auth || c is Completion)
}

/// Whether a command needs an API client.
pub fn needs_api_client(command: &Command) -> (res: bool)
    ensures
        res == needs_client(*command),
{
    match command {
        Command::Auth { .. } => false,
        Command::Completion { .. } => false,
        _ => true,
    }
}

} // verus!
