//! What the command line and the configuration file come to.
pub mod bandwidth;
pub mod direct;
pub mod direct_laws;
pub mod environment;
pub mod laws;
pub mod resolve;
pub mod summary;
pub mod summary_laws;

pub use self::resolve::resolve;

use crate::cli::{CommandKind, ConsoleMode, ProviderKind, Verbosity};
use crate::endpoint::Url;
use crate::model::IpAddr;
use crate::scalar::Scalar;
use crate::text::{quote, quoted};
use crate::time::{Duration, MAX_DURATION_NANOS};
use vstd::prelude::*;
use vstd::string::StringExecFns;

verus! {

/// Why a configuration is refused.
#[derive(Debug, PartialEq, Eq)]
pub struct ConfigError {
    pub message: String,
}

pub(crate) fn error(message: &str) -> (error: ConfigError)
    ensures
        error.message@ == message@,
{
    ConfigError { message: message.to_owned() }
}

/// An address, and how it is written.
#[derive(Debug, PartialEq, Eq)]
pub struct Address {
    pub ip: IpAddr,
    pub text: String,
}

impl Clone for Address {
    fn clone(&self) -> (copy: Self)
        ensures
            copy == *self,
    {
        Address { ip: self.ip, text: self.text.clone() }
    }
}

/// A text that was given, and the address that it names if it names one.
#[derive(Debug, PartialEq, Eq)]
pub struct AddressText {
    pub text: String,
    pub address: Option<Address>,
}

/// Where the program runs. Directories are given by their paths.
pub struct ResolveContext {
    pub stdout_is_terminal: bool,
    pub current_dir: String,
    pub state_dir: String,
    pub data_dir: String,
}

pub struct ResolvedConfig {
    pub command: CommandKind,
    pub console: ConsoleMode,
    pub verbosity: Verbosity,
    pub interfaces: Vec<String>,
    pub output: OutputTarget,
    pub state_file: String,
    pub shutdown_grace: Duration,
    pub ping: PingConfig,
    pub bandwidth: BandwidthConfig,
}

/// Where measurements are written: a file, a directory of segments, or the same in a place that
/// is made where it does not exist.
#[derive(Debug, PartialEq, Eq)]
pub enum OutputTarget {
    File(String),
    Directory(String),
    AutomaticFile(String),
    AutomaticDirectory(String),
}

pub struct PingConfig {
    pub targets: Vec<Address>,
    pub interval: Duration,
    pub timeout: Duration,
}

pub struct BandwidthConfig {
    pub provider: ProviderConfig,
    pub provider_id: String,
    pub automatic_enabled: bool,
    pub daily_max: u32,
    pub min_spacing: Duration,
    pub slot_jitter_pct: u8,
    pub whole_test_timeout: Duration,
    pub shutdown_margin: Duration,
    pub trigger: TriggerConfig,
    pub cooldown: CooldownConfig,
    pub force_limits: bool,
}

pub enum ProviderConfig {
    Mlab(MlabConfig),
    Direct(DirectConfig),
}

pub struct MlabConfig {
    pub locate_url: Url,
    pub policy_accepted: bool,
}

pub struct DirectConfig {
    pub target: Option<String>,
    pub download_url: Url,
    pub upload_url: Url,
    pub tls_server_name: Option<String>,
    pub ca_cert: Option<String>,
    pub allow_insecure: bool,
}

#[derive(Clone, Copy, Debug, PartialEq, Eq, Structural)]
pub struct TriggerConfig {
    pub window_rounds: u32,
    pub min_samples: u32,
    pub loss_threshold_pct: Scalar,
    pub rtt_threshold_ms: Option<Scalar>,
    pub recovery_loss_pct: Scalar,
    pub recovery_rounds: u32,
    pub pending_ttl: Duration,
}

#[derive(Clone, Copy, Debug, PartialEq, Eq, Structural)]
pub struct CooldownConfig {
    pub initial: Duration,
    pub max: Duration,
}

/// The configuration file, as it was read.
pub struct FileConfig {
    pub console: Option<ConsoleMode>,
    pub verbosity: Option<Verbosity>,
    pub interfaces: Option<Vec<String>>,
    pub output: Option<String>,
    pub output_dir: Option<String>,
    pub state_file: Option<String>,
    pub ping: FilePing,
    pub bandwidth: FileBandwidth,
}

pub struct FilePing {
    pub targets: Option<Vec<AddressText>>,
    pub interval: Option<String>,
    pub timeout: Option<String>,
}

pub struct FileBandwidth {
    pub provider: Option<ProviderKind>,
    pub daily_max: Option<u32>,
    pub min_spacing: Option<String>,
    pub slot_jitter_pct: Option<u8>,
    pub whole_test_timeout: Option<String>,
    pub shutdown_margin: Option<String>,
    pub accept_mlab_policy: Option<bool>,
    pub trigger: FileTrigger,
    pub cooldown: FileCooldown,
    pub mlab: FileMlab,
    pub direct: FileDirect,
}

pub struct FileTrigger {
    pub window_rounds: Option<u32>,
    pub min_samples: Option<u32>,
    pub loss_threshold_pct: Option<Scalar>,
    pub rtt_threshold_ms: Option<Scalar>,
    pub recovery_loss_pct: Option<Scalar>,
    pub recovery_rounds: Option<u32>,
    pub pending_ttl: Option<String>,
}

pub struct FileCooldown {
    pub initial: Option<String>,
    pub max: Option<String>,
}

pub struct FileMlab {
    pub locate_url: Option<String>,
}

pub struct FileDirect {
    pub target: Option<AddressText>,
    pub download_url: Option<String>,
    pub upload_url: Option<String>,
    pub tls_server_name: Option<AddressText>,
    pub ca_cert: Option<String>,
    pub allow_insecure: Option<bool>,
}

impl FileTrigger {
    /// Nothing is set.
    pub open spec fn nothing(given: FileTrigger) -> bool {
        &&& given.window_rounds is None
        &&& given.min_samples is None
        &&& given.loss_threshold_pct is None
        &&& given.rtt_threshold_ms is None
        &&& given.recovery_loss_pct is None
        &&& given.recovery_rounds is None
        &&& given.pending_ttl is None
    }
}

impl Default for FileTrigger {
    fn default() -> (given: Self)
        ensures
            FileTrigger::nothing(given),
    {
        FileTrigger {
            window_rounds: None,
            min_samples: None,
            loss_threshold_pct: None,
            rtt_threshold_ms: None,
            recovery_loss_pct: None,
            recovery_rounds: None,
            pending_ttl: None,
        }
    }
}

impl FileCooldown {
    /// Nothing is set.
    pub open spec fn nothing(given: FileCooldown) -> bool {
        &&& given.initial is None
        &&& given.max is None
    }
}

impl Default for FileCooldown {
    fn default() -> (given: Self)
        ensures
            FileCooldown::nothing(given),
    {
        FileCooldown {
            initial: None,
            max: None,
        }
    }
}

impl FileMlab {
    /// Nothing is set.
    pub open spec fn nothing(given: FileMlab) -> bool {
        &&& given.locate_url is None
    }
}

impl Default for FileMlab {
    fn default() -> (given: Self)
        ensures
            FileMlab::nothing(given),
    {
        FileMlab {
            locate_url: None,
        }
    }
}

impl FileDirect {
    /// Nothing is set.
    pub open spec fn nothing(given: FileDirect) -> bool {
        &&& given.target is None
        &&& given.download_url is None
        &&& given.upload_url is None
        &&& given.tls_server_name is None
        &&& given.ca_cert is None
        &&& given.allow_insecure is None
    }
}

impl Default for FileDirect {
    fn default() -> (given: Self)
        ensures
            FileDirect::nothing(given),
    {
        FileDirect {
            target: None,
            download_url: None,
            upload_url: None,
            tls_server_name: None,
            ca_cert: None,
            allow_insecure: None,
        }
    }
}

impl FilePing {
    /// Nothing is set.
    pub open spec fn nothing(given: FilePing) -> bool {
        &&& given.targets is None
        &&& given.interval is None
        &&& given.timeout is None
    }
}

impl Default for FilePing {
    fn default() -> (given: Self)
        ensures
            FilePing::nothing(given),
    {
        FilePing {
            targets: None,
            interval: None,
            timeout: None,
        }
    }
}

impl FileBandwidth {
    /// Nothing is set.
    pub open spec fn nothing(given: FileBandwidth) -> bool {
        &&& given.provider is None
        &&& given.daily_max is None
        &&& given.min_spacing is None
        &&& given.slot_jitter_pct is None
        &&& given.whole_test_timeout is None
        &&& given.shutdown_margin is None
        &&& given.accept_mlab_policy is None
        &&& FileTrigger::nothing(given.trigger)
        &&& FileCooldown::nothing(given.cooldown)
        &&& FileMlab::nothing(given.mlab)
        &&& FileDirect::nothing(given.direct)
    }
}

impl Default for FileBandwidth {
    fn default() -> (given: Self)
        ensures
            FileBandwidth::nothing(given),
    {
        FileBandwidth {
            provider: None,
            daily_max: None,
            min_spacing: None,
            slot_jitter_pct: None,
            whole_test_timeout: None,
            shutdown_margin: None,
            accept_mlab_policy: None,
            trigger: FileTrigger::default(),
            cooldown: FileCooldown::default(),
            mlab: FileMlab::default(),
            direct: FileDirect::default(),
        }
    }
}

impl FileConfig {
    /// Nothing is set.
    pub open spec fn nothing(given: FileConfig) -> bool {
        &&& given.console is None
        &&& given.verbosity is None
        &&& given.interfaces is None
        &&& given.output is None
        &&& given.output_dir is None
        &&& given.state_file is None
        &&& FilePing::nothing(given.ping)
        &&& FileBandwidth::nothing(given.bandwidth)
    }
}

impl Default for FileConfig {
    fn default() -> (given: Self)
        ensures
            FileConfig::nothing(given),
    {
        FileConfig {
            console: None,
            verbosity: None,
            interfaces: None,
            output: None,
            output_dir: None,
            state_file: None,
            ping: FilePing::default(),
            bandwidth: FileBandwidth::default(),
        }
    }
}

/// The first of two settings that is given.
pub open spec fn first_of<T>(first: Option<T>, second: Option<T>) -> Option<T> {
    match first {
        Some(value) => Some(value),
        None => second,
    }
}

/// The first of two settings that is given, or what holds without them.
pub open spec fn setting<T>(first: Option<T>, second: Option<T>, default: T) -> T {
    match first_of(first, second) {
        Some(value) => value,
        None => default,
    }
}

/// The text of the first of two settings that is given, or what holds without them.
pub open spec fn text_setting(first: Option<String>, second: Option<String>, default: Seq<char>)
    -> Seq<char> {
    match first_of(first, second) {
        Some(text) => text@,
        None => default,
    }
}

pub(crate) fn setting_of<T: Copy>(first: Option<T>, second: Option<T>, default: T) -> (value: T)
    ensures
        value == setting(first, second, default),
{
    match first {
        Some(value) => value,
        None => match second {
            Some(value) => value,
            None => default,
        },
    }
}

pub(crate) fn text_of<'a>(
    first: &'a Option<String>,
    second: &'a Option<String>,
    default: &'a str,
) -> (text: &'a str)
    ensures
        text@ == text_setting(*first, *second, default@),
{
    match first {
        Some(text) => text.as_str(),
        None => match second {
            Some(text) => text.as_str(),
            None => default,
        },
    }
}

pub(crate) fn first_text(first: &Option<String>, second: &Option<String>) -> (text: Option<String>)
    ensures
        text == first_of(*first, *second),
{
    match first {
        Some(text) => Some(text.clone()),
        None => crate::text::clone_text(second),
    }
}

/// What a duration setting comes to: a span of time that is not zero, or why it is none.
pub open spec fn span(name: Seq<char>, value: Seq<char>) -> Result<Duration, Seq<char>> {
    match Duration::named(value) {
        Err(reason) => Err("invalid "@ + name + " "@ + quoted(value) + ": "@ + reason),
        Ok(duration) => if duration.nanos == 0 {
            Err(name + " must be greater than zero"@)
        } else {
            Ok(duration)
        },
    }
}

pub open spec fn span_view(result: Result<Duration, ConfigError>) -> Result<Duration, Seq<char>> {
    match result {
        Ok(duration) => Ok(duration),
        Err(error) => Err(error.message@),
    }
}

/// What a duration setting comes to, given what its text names.
pub fn checked_duration(
    name: &str,
    value: &str,
    named: Result<Duration, String>,
) -> (duration: Result<Duration, ConfigError>)
    ensures
        span_view(duration) == (match named {
            Err(reason) => Err::<Duration, Seq<char>>(
                "invalid "@ + name@ + " "@ + quoted(value@) + ": "@ + reason@,
            ),
            Ok(given) => if given.nanos == 0 {
                Err(name@ + " must be greater than zero"@)
            } else {
                Ok(given)
            },
        }),
        duration is Ok ==> named == Ok::<Duration, String>(duration->Ok_0),
{
    match named {
        Err(reason) => Err(
            ConfigError {
                message: "invalid ".to_owned().concat(name).concat(" ").concat(
                    &quote(value),
                ).concat(": ").concat(&reason),
            },
        ),
        Ok(given) => {
            if given.nanos == 0 {
                Err(ConfigError { message: name.to_owned().concat(" must be greater than zero") })
            } else {
                Ok(given)
            }
        },
    }
}

/// Reads a duration setting.
pub fn parse_duration(name: &str, value: &str) -> (duration: Result<Duration, ConfigError>)
    ensures
        span_view(duration) == span(name@, value@),
        duration is Ok ==> 0 < duration->Ok_0.nanos <= MAX_DURATION_NANOS,
{
    checked_duration(name, value, Duration::parse(value))
}

/// A count that has to be more than zero.
pub open spec fn count_fault(name: Seq<char>, value: u32) -> Option<Seq<char>> {
    if value == 0 {
        Some(name + " must be greater than zero"@)
    } else {
        None
    }
}

pub fn positive_u32(name: &str, value: u32) -> (checked: Result<u32, ConfigError>)
    ensures
        match checked {
            Ok(kept) => kept == value && count_fault(name@, value) is None,
            Err(error) => count_fault(name@, value) == Some(error.message@),
        },
{
    if value == 0 {
        Err(ConfigError { message: name.to_owned().concat(" must be greater than zero") })
    } else {
        Ok(value)
    }
}

/// A share that has to lie between nothing and everything.
pub open spec fn share_fault(name: Seq<char>, value: Scalar) -> Option<Seq<char>> {
    if value.percentage() {
        None
    } else {
        Some(name + " must be between 0 and 100 percent"@)
    }
}

pub fn percentage(name: &str, value: Scalar) -> (checked: Result<Scalar, ConfigError>)
    ensures
        match checked {
            Ok(kept) => kept == value && share_fault(name@, value) is None,
            Err(error) => share_fault(name@, value) == Some(error.message@),
        },
{
    if value.is_percentage() {
        Ok(value)
    } else {
        Err(ConfigError { message: name.to_owned().concat(" must be between 0 and 100 percent") })
    }
}

/// A threshold that has to be finite and more than zero where it is given.
pub open spec fn threshold_fault(name: Seq<char>, value: Option<Scalar>) -> Option<Seq<char>> {
    match value {
        Some(given) => if given.finite_positive() {
            None
        } else {
            Some(name + " must be greater than zero"@)
        },
        None => None,
    }
}

pub fn optional_positive_f64(name: &str, value: Option<Scalar>) -> (checked: Result<
    Option<Scalar>,
    ConfigError,
>)
    ensures
        match checked {
            Ok(kept) => kept == value && threshold_fault(name@, value) is None,
            Err(error) => threshold_fault(name@, value) == Some(error.message@),
        },
{
    match value {
        Some(given) => {
            if given.is_finite_positive() {
                Ok(Some(given))
            } else {
                Err(ConfigError { message: name.to_owned().concat(" must be greater than zero") })
            }
        },
        None => Ok(None),
    }
}

/// A path that does not depend on the current directory.
pub open spec fn absolute(path: Seq<char>) -> bool {
    path.len() > 0 && path[0] == '/'
}

/// A path below a directory; one that is absolute stands alone.
pub open spec fn path_below(directory: Seq<char>, path: Seq<char>) -> Seq<char> {
    if absolute(path) {
        path
    } else if directory.len() == 0 || directory.last() == '/' {
        directory + path
    } else {
        directory + "/"@ + path
    }
}

/// A path below a directory.
pub fn make_absolute(path: &str, directory: &str) -> (joined: String)
    ensures
        joined@ == path_below(directory@, path@),
{
    let chars = crate::text::chars_of(path);
    if chars.len() > 0 && chars[0] == '/' {
        return path.to_owned();
    }
    let base = crate::text::chars_of(directory);
    if base.len() == 0 || base[base.len() - 1] == '/' {
        directory.to_owned().concat(path)
    } else {
        directory.to_owned().concat("/").concat(path)
    }
}

} // verus!
