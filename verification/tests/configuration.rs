use netband::cli::{Cli, CommandKind, Commands, ConfigCommand, ConsoleMode, OnceCommand, Options};
use netband::cli::ProviderKind as ProviderChoice;
use netband::config::direct::{direct_provider_id, endpoint_identity, parse_http_url, parse_ndt_url, valid_dns_name};
use netband::config::environment::{PathFacts, check_interfaces, validate_certificate, validate_directory};
use netband::config::resolve::resolve;
use netband::config::summary::ThresholdTexts;
use netband::config::{
    Address, AddressText, ConfigError, DirectConfig, FileConfig, OutputTarget, ProviderConfig, ResolveContext,
    ResolvedConfig, parse_duration,
};
use netband::endpoint::Url;
use netband::model::{IpAddr, Scalar};
use netband::time::Duration;

fn scalar(value: f64) -> Scalar {
    let bits = value.to_bits() as i64;
    Scalar { key: if bits >= 0 { bits } else { bits ^ i64::MAX } }
}

fn context() -> ResolveContext {
    ResolveContext {
        stdout_is_terminal: true,
        current_dir: "/work".into(),
        state_dir: "/state".into(),
        data_dir: "/data".into(),
    }
}

fn options() -> Options {
    Options { accept_mlab_policy: true, ..Options::default() }
}

fn run(options: Options) -> Result<ResolvedConfig, ConfigError> {
    resolve(&Cli { options, command: Commands::Run }, &FileConfig::default(), &context())
}

fn message(options: Options) -> String {
    match run(options) {
        Ok(_) => panic!("the options are refused"),
        Err(error) => error.message,
    }
}

#[test]
fn defaults_probe_three_targets_and_allow_four_tests_a_day() {
    let config = run(options()).ok().unwrap();
    assert_eq!(config.command, CommandKind::Run);
    assert!(config.interfaces.is_empty());
    let targets: Vec<&str> = config.ping.targets.iter().map(|target| target.text.as_str()).collect();
    assert_eq!(targets, ["1.1.1.1", "8.8.8.8", "9.9.9.9"]);
    assert_eq!(config.ping.interval, Duration::from_secs(5));
    assert_eq!(config.ping.timeout, Duration::from_secs(2));
    assert_eq!(config.output, OutputTarget::AutomaticDirectory("/data/journals/run".into()));
    assert_eq!(config.state_file, "/state/scheduler.json");
    assert_eq!(config.shutdown_grace, Duration::from_secs(15));
    assert_eq!(config.bandwidth.provider_id, "mlab");
    assert_eq!(config.bandwidth.daily_max, 4);
    assert_eq!(config.bandwidth.min_spacing, Duration::from_secs(36 * 60));
    assert_eq!(config.bandwidth.whole_test_timeout, Duration::from_secs(55));
    assert!(config.bandwidth.automatic_enabled);
    assert!(!config.bandwidth.force_limits);
}

#[test]
fn bandwidth_tests_are_off_without_the_policy_or_when_asked() {
    assert!(!run(Options::default()).ok().unwrap().bandwidth.automatic_enabled);
    let off = Options { no_bandwidth: true, ..options() };
    assert!(!run(off).ok().unwrap().bandwidth.automatic_enabled);
}

#[test]
fn commands_that_run_once_write_a_file_of_their_own() {
    for (command, kind) in [
        (OnceCommand::Ping, CommandKind::OncePing),
        (OnceCommand::Bandwidth, CommandKind::OnceBandwidth),
    ] {
        let cli = Cli { options: options(), command: Commands::Once { command } };
        assert_eq!(cli.command_kind(), kind);
        let config = resolve(&cli, &FileConfig::default(), &context()).ok().unwrap();
        assert_eq!(config.output, OutputTarget::AutomaticFile("/data/journals/once".into()));
    }
    let check = Cli {
        options: options(),
        command: Commands::Config { command: ConfigCommand::Check },
    };
    assert_eq!(check.command_kind(), CommandKind::ConfigCheck);
}

#[test]
fn the_command_line_comes_before_the_file() {
    let mut file = FileConfig::default();
    file.ping.interval = Some("9s".into());
    file.ping.timeout = Some("1s".into());
    file.output_dir = Some("from-file".into());
    file.console = Some(ConsoleMode::Jsonl);
    let cli = Cli {
        options: Options {
            ping_interval: Some("7s".into()),
            output: Some("results.csv".into()),
            ..options()
        },
        command: Commands::Run,
    };
    let config = resolve(&cli, &file, &context()).ok().unwrap();
    assert_eq!(config.ping.interval, Duration::from_secs(7));
    assert_eq!(config.ping.timeout, Duration::from_secs(1));
    assert_eq!(config.output, OutputTarget::File("/work/results.csv".into()));
    assert_eq!(config.console, ConsoleMode::Jsonl);
}

#[test]
fn what_is_wrong_is_said() {
    assert_eq!(
        message(Options { ping_interval: Some("0s".into()), ..options() }),
        "ping interval must be greater than zero"
    );
    assert!(
        message(Options { ping_timeout: Some("soon".into()), ..options() })
            .starts_with("invalid ping timeout \"soon\": ")
    );
    assert_eq!(
        message(Options { bandwidth_daily_max: Some(5), ..options() }),
        "M-Lab permits at most 4 bandwidth runs per UTC day"
    );
    assert_eq!(
        message(Options { bandwidth_min_spacing: Some("35m".into()), ..options() }),
        "M-Lab bandwidth minimum spacing must be at least 36m"
    );
    assert_eq!(
        message(Options { recovery_loss_pct: Some(scalar(60.0)), ..options() }),
        "recovery loss threshold must be below the trigger loss threshold"
    );
    assert_eq!(
        message(Options { bandwidth_slot_jitter_pct: Some(101), ..options() }),
        "bandwidth slot jitter must be between 0 and 100 percent"
    );
    assert_eq!(
        message(Options { interfaces: vec!["eth0".into(), "eth0".into()], ..options() }),
        "duplicate interface: eth0"
    );
    assert_eq!(
        message(Options {
            ping_targets: vec![AddressText { text: "nowhere".into(), address: None }],
            ..options()
        }),
        "invalid ping target IP: nowhere"
    );
    assert_eq!(
        message(Options { ndt_download_url: Some("wss://a/".into()), ..options() }),
        "direct NDT options require --ndt-provider direct"
    );
}

fn direct() -> Options {
    Options { ndt_provider: Some(ProviderChoice::Direct), ..Options::default() }
}

fn host(text: &str) -> Option<AddressText> {
    Some(AddressText { text: text.into(), address: None })
}

#[test]
fn direct_targets_have_two_endpoints() {
    let config = run(Options { ndt_target: host("ndt.example.net"), ..direct() }).ok().unwrap();
    let ProviderConfig::Direct(provider) = &config.bandwidth.provider else {
        panic!("the provider is direct");
    };
    assert_eq!(provider.download_url.text, "wss://ndt.example.net/ndt/v7/download");
    assert_eq!(provider.upload_url.text, "wss://ndt.example.net/ndt/v7/upload");
    assert_eq!(config.bandwidth.provider_id.len(), "direct:".len() + 16);
    let six = AddressText {
        text: "2001:db8::1".into(),
        address: Some(Address {
            ip: IpAddr::V6(0x2001_0db8_0000_0000_0000_0000_0000_0001),
            text: "2001:db8::1".into(),
        }),
    };
    let config = run(Options { ndt_target: Some(six), ..direct() }).ok().unwrap();
    let ProviderConfig::Direct(provider) = &config.bandwidth.provider else {
        panic!("the provider is direct");
    };
    assert_eq!(provider.download_url.text, "wss://[2001:db8::1]/ndt/v7/download");
    assert_eq!(
        message(direct()),
        "direct provider requires a target or download/upload URL pair"
    );
    assert_eq!(
        message(Options { ndt_download_url: Some("wss://a/d".into()), ..direct() }),
        "direct download and upload URLs must be supplied together"
    );
    assert_eq!(
        message(Options {
            ndt_target: host("a"),
            ndt_download_url: Some("wss://a/d".into()),
            ndt_upload_url: Some("wss://a/u".into()),
            ..direct()
        }),
        "direct target and explicit download/upload URLs are mutually exclusive"
    );
    assert_eq!(
        message(Options { accept_mlab_policy: true, ndt_target: host("a"), ..direct() }),
        "M-Lab policy acknowledgement does not apply to direct provider"
    );
}

#[test]
fn direct_tests_fit_between_two_starts_and_into_the_day() {
    let spaced = |spacing: &str, most: u32| Options {
        ndt_target: host("ndt.example.net"),
        bandwidth_min_spacing: Some(spacing.into()),
        bandwidth_daily_max: Some(most),
        ..direct()
    };
    let config = run(spaced("70s", 1_234)).ok().unwrap().bandwidth;
    assert_eq!(config.min_spacing, Duration::from_secs(70));
    assert_eq!(config.daily_max, 1_234);
    assert_eq!(
        message(spaced("70s", 1_235)),
        "daily maximum 1235 cannot fit in 24h with 1m 10s minimum spacing"
    );
    assert_eq!(
        message(spaced("69s", 1)),
        "direct bandwidth minimum spacing must be at least 1m 10s"
    );
    assert_eq!(
        message(Options {
            bandwidth_timeout: Some("1s".into()),
            bandwidth_shutdown_margin: Some("1s".into()),
            ..spaced("59s", 1)
        }),
        "direct bandwidth minimum spacing must be at least 1m"
    );
}

#[test]
fn the_first_cooldown_is_no_longer_than_the_last() {
    let equal = Options {
        cooldown_initial: Some("16m".into()),
        cooldown_max: Some("960s".into()),
        ..options()
    };
    assert!(run(equal).is_ok());
    assert_eq!(
        message(Options { cooldown_initial: Some("17m".into()), ..options() }),
        "initial cooldown cannot exceed maximum cooldown"
    );
}

#[test]
fn endpoints_are_secure_unless_allowed() {
    assert_eq!(
        parse_ndt_url("direct download URL", "ws://a/d", false).err().unwrap().message,
        "direct download URL uses ws://; pass --allow-insecure-ndt only for a trusted private network"
    );
    assert!(parse_ndt_url("direct download URL", "ws://a/d", true).is_ok());
    assert_eq!(
        parse_ndt_url("direct download URL", "https://a/d", true).err().unwrap().message,
        "direct download URL must use wss:// or ws://"
    );
    assert_eq!(
        parse_ndt_url("direct download URL", "wss://user@a/d", true).err().unwrap().message,
        "invalid direct download URL: credentials and fragments are not allowed"
    );
    assert_eq!(
        parse_http_url("M-Lab Locate URL", "ftp://a/").err().unwrap().message,
        "M-Lab Locate URL must be an http(s) URL"
    );
    assert_eq!(
        parse_http_url("M-Lab Locate URL", "nothing").err().unwrap().message,
        "invalid M-Lab Locate URL"
    );
}

#[test]
fn providers_are_told_apart_by_their_endpoints() {
    let a = parse_ndt_url("url", "wss://HOST/d", false).ok().unwrap();
    let b = parse_ndt_url("url", "wss://host:443/d", false).ok().unwrap();
    let c = parse_ndt_url("url", "wss://host:444/d", false).ok().unwrap();
    assert_eq!(endpoint_identity(&a), "wss://host:443/d");
    let id = |url: &Url, name: Option<&str>| {
        direct_provider_id(&DirectConfig {
            target: None,
            download_url: url.clone(),
            upload_url: url.clone(),
            tls_server_name: name.map(str::to_owned),
            ca_cert: None,
            allow_insecure: false,
        })
    };
    assert_eq!(id(&a, None), id(&b, None));
    assert_ne!(id(&a, None), id(&c, None));
    assert_ne!(id(&a, None), id(&a, Some("name")));
    assert_eq!(id(&a, Some("NAME")), id(&a, Some("name")));
}

#[test]
fn names_follow_the_rules_of_dns() {
    assert!(valid_dns_name(&host("ndt.example.net").unwrap()));
    assert!(valid_dns_name(&host("a-b.c").unwrap()));
    assert!(!valid_dns_name(&host("").unwrap()));
    assert!(!valid_dns_name(&host("-a.net").unwrap()));
    assert!(!valid_dns_name(&host("a..b").unwrap()));
    assert!(!valid_dns_name(&host("a_b.net").unwrap()));
    assert!(!valid_dns_name(&host(&"a".repeat(64)).unwrap()));
}

#[test]
fn durations_are_named_in_errors() {
    assert_eq!(parse_duration("ping interval", "250ms"), Ok(Duration::from_millis(250)));
    assert_eq!(
        parse_duration("ping interval", "0ms").unwrap_err().message,
        "ping interval must be greater than zero"
    );
}

#[test]
fn the_environment_is_checked() {
    let facts = |is_directory: bool, is_file: bool, read_only: bool| {
        Ok(PathFacts { is_directory, is_file, read_only })
    };
    assert!(validate_directory("output", "/out", &facts(true, false, false)).is_ok());
    assert_eq!(
        validate_directory("output", "/out", &facts(false, true, false)).unwrap_err().message,
        "output path is not a directory: /out"
    );
    assert_eq!(
        validate_directory("output", "/out", &facts(true, false, true)).unwrap_err().message,
        "output directory is read-only: /out"
    );
    assert_eq!(
        validate_directory("output", "/out", &Err("gone".into())).unwrap_err().message,
        "output directory /out is not accessible: gone"
    );
    assert!(validate_certificate("ca.pem", &facts(false, true, false)).is_ok());
    assert_eq!(
        validate_certificate("ca.pem", &facts(true, false, false)).unwrap_err().message,
        "NDT CA certificate is not a file: ca.pem"
    );
    let names = |values: &[&str]| -> Vec<String> {
        values.iter().map(|value| (*value).to_owned()).collect()
    };
    let mut config = run(options()).ok().unwrap();
    config.interfaces = names(&["a"]);
    assert!(check_interfaces(&config, &names(&["a", "b"])).is_ok());
    config.interfaces = names(&["a", "c"]);
    assert_eq!(
        check_interfaces(&config, &names(&["a", "b"])).unwrap_err().message,
        "network interface does not exist: c"
    );
}

#[test]
fn the_summary_gives_each_setting_a_line() {
    let config = run(options()).ok().unwrap();
    let summary = config.summary(&ThresholdTexts {
        loss_threshold_pct: "20".into(),
        rtt_threshold_ms: None,
        recovery_loss_pct: "5".into(),
    });
    let lines: Vec<&str> = summary.lines().collect();
    assert!(lines.contains(&"mlab.policy_accepted=true"));
    assert!(lines.contains(&"mlab.acceptable_use=https://www.measurementlab.net/aup/"));
    assert!(lines.iter().all(|line| line.contains('=')));
}
