//! The configuration in words.
use super::{Address, DirectConfig, MlabConfig, OutputTarget, ProviderConfig, ResolvedConfig};
use crate::cli::{CommandKind, ConsoleMode, Verbosity};
use crate::endpoint::redacted;
use crate::scheduler::rules::flag_text;
use crate::text::{dec, decimal, join_texts, joined_texts};
use vstd::prelude::*;
use vstd::string::StringExecFns;

verus! {

/// The thresholds of the trigger as they are written.
pub struct ThresholdTexts {
    pub loss_threshold_pct: String,
    pub rtt_threshold_ms: Option<String>,
    pub recovery_loss_pct: String,
}

/// A text with a line behind it that gives a key its value.
pub open spec fn with_line(text: Seq<char>, key: Seq<char>, value: Seq<char>) -> Seq<char> {
    text + key + "="@ + value + "\n"@
}

fn add_line(text: &mut String, key: &str, value: &str)
    ensures
        final(text)@ == with_line(old(text)@, key@, value@),
{
    text.append(key);
    text.append("=");
    text.append(value);
    text.append("\n");
}

pub open spec fn console_text(mode: ConsoleMode) -> Seq<char> {
    match mode {
        ConsoleMode::Auto => "auto"@,
        ConsoleMode::Human => "human"@,
        ConsoleMode::Jsonl => "jsonl"@,
        ConsoleMode::Off => "off"@,
    }
}

pub fn enum_name(mode: ConsoleMode) -> (name: &'static str)
    ensures
        name@ == console_text(mode),
{
    match mode {
        ConsoleMode::Auto => "auto",
        ConsoleMode::Human => "human",
        ConsoleMode::Jsonl => "jsonl",
        ConsoleMode::Off => "off",
    }
}

pub open spec fn command_text(command: CommandKind) -> Seq<char> {
    match command {
        CommandKind::Run => "run"@,
        CommandKind::OncePing => "once-ping"@,
        CommandKind::OnceBandwidth => "once-bandwidth"@,
        CommandKind::ConfigCheck => "config-check"@,
    }
}

pub fn command_name(command: CommandKind) -> (name: &'static str)
    ensures
        name@ == command_text(command),
{
    match command {
        CommandKind::Run => "run",
        CommandKind::OncePing => "once-ping",
        CommandKind::OnceBandwidth => "once-bandwidth",
        CommandKind::ConfigCheck => "config-check",
    }
}

pub open spec fn verbosity_text(verbosity: Verbosity) -> Seq<char> {
    match verbosity {
        Verbosity::Error => "error"@,
        Verbosity::Warn => "warn"@,
        Verbosity::Info => "info"@,
        Verbosity::Debug => "debug"@,
        Verbosity::Trace => "trace"@,
    }
}

pub fn verbosity_name(verbosity: Verbosity) -> (name: &'static str)
    ensures
        name@ == verbosity_text(verbosity),
{
    match verbosity {
        Verbosity::Error => "error",
        Verbosity::Warn => "warn",
        Verbosity::Info => "info",
        Verbosity::Debug => "debug",
        Verbosity::Trace => "trace",
    }
}

fn flag_name(flag: bool) -> (name: &'static str)
    ensures
        name@ == flag_text(flag),
{
    if flag {
        "true"
    } else {
        "false"
    }
}

pub open spec fn text_or(text: Option<String>, default: Seq<char>) -> Seq<char> {
    match text {
        Some(given) => given@,
        None => default,
    }
}

fn name_or<'a>(text: &'a Option<String>, default: &'a str) -> (name: &'a str)
    ensures
        name@ == text_or(*text, default@),
{
    match text {
        Some(given) => given.as_str(),
        None => default,
    }
}

pub open spec fn output_text(output: OutputTarget) -> Seq<char> {
    match output {
        OutputTarget::File(path) => "file:"@ + path@,
        OutputTarget::Directory(path) => "directory:"@ + path@,
        OutputTarget::AutomaticFile(path) => "automatic-file:"@ + path@,
        OutputTarget::AutomaticDirectory(path) => "automatic-directory:"@ + path@,
    }
}

fn output_name(output: &OutputTarget) -> (text: String)
    ensures
        text@ == output_text(*output),
{
    match output {
        OutputTarget::File(path) => "file:".to_owned().concat(path),
        OutputTarget::Directory(path) => "directory:".to_owned().concat(path),
        OutputTarget::AutomaticFile(path) => "automatic-file:".to_owned().concat(path),
        OutputTarget::AutomaticDirectory(path) => "automatic-directory:".to_owned().concat(path),
    }
}

pub open spec fn interfaces_text(config: ResolvedConfig) -> Seq<char> {
    if config.interfaces@.len() == 0 {
        "default-route"@
    } else {
        joined_texts(config.interfaces@, ","@)
    }
}

pub open spec fn targets_text(targets: Seq<Address>) -> Seq<char> {
    joined_texts(targets.map_values(|target: Address| target.text), ","@)
}

pub open spec fn provider_text(provider: ProviderConfig) -> Seq<char> {
    match provider {
        ProviderConfig::Mlab(_) => "mlab"@,
        ProviderConfig::Direct(_) => "direct"@,
    }
}

pub open spec fn mlab_lines(text: Seq<char>, mlab: MlabConfig) -> Seq<char> {
    let text = with_line(text, "mlab.locate_url"@, redacted(mlab.locate_url@));
    let text = with_line(text, "mlab.policy_accepted"@, flag_text(mlab.policy_accepted));
    let text = with_line(text, "mlab.acceptable_use"@, "https://www.measurementlab.net/aup/"@);
    let text = with_line(text, "mlab.privacy"@, "https://www.measurementlab.net/privacy/"@);
    text
}

pub open spec fn direct_lines(text: Seq<char>, direct: DirectConfig) -> Seq<char> {
    let text = with_line(text, "direct.target"@, text_or(direct.target, "explicit-urls"@));
    let text = with_line(text, "direct.download_url"@, redacted(direct.download_url@));
    let text = with_line(text, "direct.upload_url"@, redacted(direct.upload_url@));
    let text = with_line(text, "direct.tls_server_name"@, text_or(direct.tls_server_name, "default"@));
    let text = with_line(text, "direct.ca_cert"@, text_or(direct.ca_cert, "system-roots"@));
    let text = with_line(text, "direct.allow_insecure"@, flag_text(direct.allow_insecure));
    text
}

pub open spec fn general_lines(text: Seq<char>, config: ResolvedConfig) -> Seq<char> {
    let text = with_line(text, "configuration"@, "valid"@);
    let text = with_line(text, "command"@, command_text(config.command));
    let text = with_line(text, "console"@, console_text(config.console));
    let text = with_line(text, "verbosity"@, verbosity_text(config.verbosity));
    let text = with_line(text, "interfaces"@, interfaces_text(config));
    let text = with_line(text, "output"@, output_text(config.output));
    let text = with_line(text, "state_file"@, config.state_file@);
    let text = with_line(text, "ping.targets"@, targets_text(config.ping.targets@));
    let text = with_line(text, "ping.interval"@, config.ping.interval.text_spec());
    let text = with_line(text, "ping.timeout"@, config.ping.timeout.text_spec());
    let text = with_line(text, "bandwidth.provider"@, provider_text(config.bandwidth.provider));
    let text = with_line(text, "bandwidth.provider_id"@, config.bandwidth.provider_id@);
    let text = with_line(text, "bandwidth.automatic_enabled"@, flag_text(config.bandwidth.automatic_enabled));
    let text = with_line(text, "bandwidth.daily_max"@, dec(config.bandwidth.daily_max as nat));
    let text = with_line(text, "bandwidth.min_spacing"@, config.bandwidth.min_spacing.text_spec());
    let text = with_line(text, "bandwidth.slot_jitter_pct"@, dec(config.bandwidth.slot_jitter_pct as nat));
    let text = with_line(text, "bandwidth.whole_test_timeout"@, config.bandwidth.whole_test_timeout.text_spec());
    let text = with_line(text, "bandwidth.shutdown_margin"@, config.bandwidth.shutdown_margin.text_spec());
    text
}

pub open spec fn trigger_lines(text: Seq<char>, config: ResolvedConfig, texts: ThresholdTexts) -> Seq<char> {
    let trigger = config.bandwidth.trigger;
    let rtt = text_or(texts.rtt_threshold_ms, "disabled"@);
    let text = with_line(text, "trigger.window_rounds"@, dec(trigger.window_rounds as nat));
    let text = with_line(text, "trigger.min_samples"@, dec(trigger.min_samples as nat));
    let text = with_line(text, "trigger.loss_threshold_pct"@, texts.loss_threshold_pct@);
    let text = with_line(text, "trigger.rtt_threshold_ms"@, rtt);
    let text = with_line(text, "trigger.recovery_loss_pct"@, texts.recovery_loss_pct@);
    let text = with_line(text, "trigger.recovery_rounds"@, dec(trigger.recovery_rounds as nat));
    let text = with_line(text, "trigger.pending_ttl"@, trigger.pending_ttl.text_spec());
    let text = with_line(text, "cooldown.initial"@, config.bandwidth.cooldown.initial.text_spec());
    let text = with_line(text, "cooldown.max"@, config.bandwidth.cooldown.max.text_spec());
    text
}

/// The configuration, one setting on a line.
pub open spec fn summary_text(config: ResolvedConfig, texts: ThresholdTexts) -> Seq<char> {
    let text = trigger_lines(general_lines(Seq::empty(), config), config, texts);
    match config.bandwidth.provider {
        ProviderConfig::Mlab(mlab) => mlab_lines(text, mlab),
        ProviderConfig::Direct(direct) => direct_lines(text, direct),
    }
}

impl ResolvedConfig {
    fn interfaces_text(&self) -> (text: String)
        ensures
            text@ == interfaces_text(*self),
    {
        if self.interfaces.len() == 0 {
            "default-route".to_owned()
        } else {
            join_texts(&self.interfaces, ",")
        }
    }

    fn target_texts(&self) -> (texts: Vec<String>)
        ensures
            texts@ == self.ping.targets@.map_values(|target: Address| target.text),
    {
        let mut texts: Vec<String> = Vec::new();
        let mut i: usize = 0;
        while i < self.ping.targets.len()
            invariant
                i <= self.ping.targets@.len(),
                texts@.len() == i,
                forall|k: int| 0 <= k < i ==> #[trigger] texts@[k] == self.ping.targets@[k].text,
            decreases self.ping.targets@.len() - i,
        {
            texts.push(self.ping.targets[i].text.clone());
            i += 1;
        }
        proof {
            assert(texts@ =~= self.ping.targets@.map_values(|target: Address| target.text));
        }
        texts
    }

    fn general_summary(&self) -> (text: String)
        ensures
            text@ == general_lines(Seq::empty(), *self),
    {
        let provider_text = match &self.bandwidth.provider {
            ProviderConfig::Mlab(_) => "mlab",
            ProviderConfig::Direct(_) => "direct",
        };
        let mut text = String::new();
        add_line(&mut text, "configuration", "valid");
        add_line(&mut text, "command", command_name(self.command));
        add_line(&mut text, "console", enum_name(self.console));
        add_line(&mut text, "verbosity", verbosity_name(self.verbosity));
        add_line(&mut text, "interfaces", &self.interfaces_text());
        add_line(&mut text, "output", &output_name(&self.output));
        add_line(&mut text, "state_file", &self.state_file);
        add_line(&mut text, "ping.targets", &join_texts(&self.target_texts(), ","));
        add_line(&mut text, "ping.interval", &self.ping.interval.text());
        add_line(&mut text, "ping.timeout", &self.ping.timeout.text());
        add_line(&mut text, "bandwidth.provider", provider_text);
        add_line(&mut text, "bandwidth.provider_id", &self.bandwidth.provider_id);
        add_line(&mut text, "bandwidth.automatic_enabled", flag_name(self.bandwidth.automatic_enabled));
        add_line(&mut text, "bandwidth.daily_max", &decimal(self.bandwidth.daily_max as u128));
        add_line(&mut text, "bandwidth.min_spacing", &self.bandwidth.min_spacing.text());
        add_line(&mut text, "bandwidth.slot_jitter_pct", &decimal(self.bandwidth.slot_jitter_pct as u128));
        add_line(&mut text, "bandwidth.whole_test_timeout", &self.bandwidth.whole_test_timeout.text());
        add_line(&mut text, "bandwidth.shutdown_margin", &self.bandwidth.shutdown_margin.text());
        text
    }

    fn trigger_summary(&self, text: String, texts: &ThresholdTexts) -> (extended: String)
        ensures
            extended@ == trigger_lines(text@, *self, *texts),
    {
        let trigger = &self.bandwidth.trigger;
        let rtt = name_or(&texts.rtt_threshold_ms, "disabled");
        let mut text = text;
        add_line(&mut text, "trigger.window_rounds", &decimal(trigger.window_rounds as u128));
        add_line(&mut text, "trigger.min_samples", &decimal(trigger.min_samples as u128));
        add_line(&mut text, "trigger.loss_threshold_pct", &texts.loss_threshold_pct);
        add_line(&mut text, "trigger.rtt_threshold_ms", rtt);
        add_line(&mut text, "trigger.recovery_loss_pct", &texts.recovery_loss_pct);
        add_line(&mut text, "trigger.recovery_rounds", &decimal(trigger.recovery_rounds as u128));
        add_line(&mut text, "trigger.pending_ttl", &trigger.pending_ttl.text());
        add_line(&mut text, "cooldown.initial", &self.bandwidth.cooldown.initial.text());
        add_line(&mut text, "cooldown.max", &self.bandwidth.cooldown.max.text());
        text
    }

    /// The configuration in words. `texts` are the thresholds as they are written.
    pub fn summary(&self, texts: &ThresholdTexts) -> (text: String)
        ensures
            text@ == summary_text(*self, *texts),
    {
        let mut text = self.trigger_summary(self.general_summary(), texts);
        match &self.bandwidth.provider {
            ProviderConfig::Mlab(mlab) => {
                add_line(&mut text, "mlab.locate_url", &mlab.locate_url.redact());
                add_line(&mut text, "mlab.policy_accepted", flag_name(mlab.policy_accepted));
                add_line(&mut text, "mlab.acceptable_use", "https://www.measurementlab.net/aup/");
                add_line(&mut text, "mlab.privacy", "https://www.measurementlab.net/privacy/");
            },
            ProviderConfig::Direct(direct) => {
                add_line(&mut text, "direct.target", name_or(&direct.target, "explicit-urls"));
                add_line(&mut text, "direct.download_url", &direct.download_url.redact());
                add_line(&mut text, "direct.upload_url", &direct.upload_url.redact());
                add_line(&mut text, "direct.tls_server_name", name_or(&direct.tls_server_name, "default"));
                add_line(&mut text, "direct.ca_cert", name_or(&direct.ca_cert, "system-roots"));
                add_line(&mut text, "direct.allow_insecure", flag_name(direct.allow_insecure));
            },
        }
        text
    }
}

} // verus!
