//! The command line, as it was read.
use crate::config::AddressText;
use crate::scalar::Scalar;
use vstd::prelude::*;

verus! {

#[derive(Clone, Copy, Debug, PartialEq, Eq, Structural)]
pub enum CommandKind {
    Run,
    OncePing,
    OnceBandwidth,
    ConfigCheck,
}

#[derive(Clone, Copy, Debug, PartialEq, Eq, Structural)]
pub enum ConsoleMode {
    Auto,
    Human,
    Jsonl,
    Off,
}

#[derive(Clone, Copy, Debug, PartialEq, Eq, Structural)]
pub enum Verbosity {
    Error,
    Warn,
    Info,
    Debug,
    Trace,
}

#[derive(Clone, Copy, Debug, PartialEq, Eq, Structural)]
pub enum ProviderKind {
    Mlab,
    Direct,
}

#[allow(inconsistent_fields)]
#[derive(Clone, Copy, Debug, PartialEq, Eq, Structural)]
pub enum Commands {
    /// Run continuous monitoring in the foreground.
    Run,
    /// Run one measurement and exit.
    Once { command: OnceCommand },
    /// Inspect configuration without performing measurements.
    Config { command: ConfigCommand },
}

#[derive(Clone, Copy, Debug, PartialEq, Eq, Structural)]
pub enum OnceCommand {
    Ping,
    Bandwidth,
}

#[derive(Clone, Copy, Debug, PartialEq, Eq, Structural)]
pub enum ConfigCommand {
    Check,
}

pub struct Cli {
    pub options: Options,
    pub command: Commands,
}

impl Cli {
    pub open spec fn kind(self) -> CommandKind {
        match self.command {
            Commands::Run => CommandKind::Run,
            Commands::Once { command: OnceCommand::Ping } => CommandKind::OncePing,
            Commands::Once { command: OnceCommand::Bandwidth } => CommandKind::OnceBandwidth,
            Commands::Config { command: ConfigCommand::Check } => CommandKind::ConfigCheck,
        }
    }

    pub fn command_kind(&self) -> (kind: CommandKind)
        ensures
            kind == self.kind(),
    {
        match self.command {
            Commands::Run => CommandKind::Run,
            Commands::Once { command: OnceCommand::Ping } => CommandKind::OncePing,
            Commands::Once { command: OnceCommand::Bandwidth } => CommandKind::OnceBandwidth,
            Commands::Config { command: ConfigCommand::Check } => CommandKind::ConfigCheck,
        }
    }
}

/// What was given on the command line besides the command.
pub struct Options {
    pub config: Option<String>,
    pub console: Option<ConsoleMode>,
    pub interfaces: Vec<String>,
    pub ping_targets: Vec<AddressText>,
    pub ping_interval: Option<String>,
    pub ping_timeout: Option<String>,
    pub output: Option<String>,
    pub output_dir: Option<String>,
    pub state_file: Option<String>,
    pub verbosity: Option<Verbosity>,
    pub ndt_provider: Option<ProviderKind>,
    pub mlab_locate_url: Option<String>,
    pub ndt_target: Option<AddressText>,
    pub ndt_download_url: Option<String>,
    pub ndt_upload_url: Option<String>,
    pub ndt_tls_server_name: Option<AddressText>,
    pub ndt_ca_cert: Option<String>,
    pub allow_insecure_ndt: bool,
    pub bandwidth_daily_max: Option<u32>,
    pub bandwidth_min_spacing: Option<String>,
    pub bandwidth_slot_jitter_pct: Option<u8>,
    pub bandwidth_timeout: Option<String>,
    pub bandwidth_shutdown_margin: Option<String>,
    pub loss_window_rounds: Option<u32>,
    pub loss_min_samples: Option<u32>,
    pub loss_threshold_pct: Option<Scalar>,
    pub rtt_threshold_ms: Option<Scalar>,
    pub recovery_loss_pct: Option<Scalar>,
    pub recovery_rounds: Option<u32>,
    pub pending_trigger_ttl: Option<String>,
    pub cooldown_initial: Option<String>,
    pub cooldown_max: Option<String>,
    pub accept_mlab_policy: bool,
    pub no_bandwidth: bool,
}

impl Options {
    /// Nothing is set.
    pub open spec fn nothing(given: Options) -> bool {
        &&& given.config is None
        &&& given.console is None
        &&& given.interfaces@.len() == 0
        &&& given.ping_targets@.len() == 0
        &&& given.ping_interval is None
        &&& given.ping_timeout is None
        &&& given.output is None
        &&& given.output_dir is None
        &&& given.state_file is None
        &&& given.verbosity is None
        &&& given.ndt_provider is None
        &&& given.mlab_locate_url is None
        &&& given.ndt_target is None
        &&& given.ndt_download_url is None
        &&& given.ndt_upload_url is None
        &&& given.ndt_tls_server_name is None
        &&& given.ndt_ca_cert is None
        &&& !given.allow_insecure_ndt
        &&& given.bandwidth_daily_max is None
        &&& given.bandwidth_min_spacing is None
        &&& given.bandwidth_slot_jitter_pct is None
        &&& given.bandwidth_timeout is None
        &&& given.bandwidth_shutdown_margin is None
        &&& given.loss_window_rounds is None
        &&& given.loss_min_samples is None
        &&& given.loss_threshold_pct is None
        &&& given.rtt_threshold_ms is None
        &&& given.recovery_loss_pct is None
        &&& given.recovery_rounds is None
        &&& given.pending_trigger_ttl is None
        &&& given.cooldown_initial is None
        &&& given.cooldown_max is None
        &&& !given.accept_mlab_policy
        &&& !given.no_bandwidth
    }
}

impl Default for Options {
    fn default() -> (given: Self)
        ensures
            Options::nothing(given),
    {
        Options {
            config: None,
            console: None,
            interfaces: Vec::new(),
            ping_targets: Vec::new(),
            ping_interval: None,
            ping_timeout: None,
            output: None,
            output_dir: None,
            state_file: None,
            verbosity: None,
            ndt_provider: None,
            mlab_locate_url: None,
            ndt_target: None,
            ndt_download_url: None,
            ndt_upload_url: None,
            ndt_tls_server_name: None,
            ndt_ca_cert: None,
            allow_insecure_ndt: false,
            bandwidth_daily_max: None,
            bandwidth_min_spacing: None,
            bandwidth_slot_jitter_pct: None,
            bandwidth_timeout: None,
            bandwidth_shutdown_margin: None,
            loss_window_rounds: None,
            loss_min_samples: None,
            loss_threshold_pct: None,
            rtt_threshold_ms: None,
            recovery_loss_pct: None,
            recovery_rounds: None,
            pending_trigger_ttl: None,
            cooldown_initial: None,
            cooldown_max: None,
            accept_mlab_policy: false,
            no_bandwidth: false,
        }
    }
}

} // verus!
