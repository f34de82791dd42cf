//! The whole configuration.
use super::bandwidth::BandwidthSettings;
use super::direct::{blank, is_blank};
use super::{
    Address, AddressText, ConfigError, FileBandwidth, FileConfig, OutputTarget, PingConfig,
    ResolveContext, ResolvedConfig, error, first_of, make_absolute, parse_duration, path_below,
    setting, setting_of, span, text_of, text_setting,
};
use crate::cli::{Cli, CommandKind, ConsoleMode, Options, Verbosity};
use crate::model::IpAddr;
use crate::text::{clone_texts, same_text};
use vstd::prelude::*;
use vstd::string::StringExecFns;

verus! {

/// How measurements are shown where nothing is said of it: one-off commands show them to people.
pub open spec fn default_console(command: CommandKind) -> ConsoleMode {
    match command {
        CommandKind::Run | CommandKind::ConfigCheck => ConsoleMode::Auto,
        CommandKind::OncePing | CommandKind::OnceBandwidth => ConsoleMode::Human,
    }
}

/// How measurements are shown: people see them where there are people to see them.
pub open spec fn console_mode(requested: ConsoleMode, terminal: bool) -> ConsoleMode {
    match requested {
        ConsoleMode::Auto => if terminal {
            ConsoleMode::Human
        } else {
            ConsoleMode::Off
        },
        other => other,
    }
}

/// The interfaces that are configured.
pub open spec fn chosen_interfaces(options: Options, file: FileConfig) -> Seq<String> {
    if options.interfaces@.len() > 0 {
        options.interfaces@
    } else {
        match file.interfaces {
            Some(names) => names@,
            None => Seq::empty(),
        }
    }
}

/// The name is not the first of its kind.
pub open spec fn repeated(names: Seq<String>, i: int) -> bool {
    exists|k: int| 0 <= k < i && (#[trigger] names[k])@ == names[i]@
}

/// What is wrong with the first interface names.
pub open spec fn interfaces_fault(names: Seq<String>, n: nat) -> Option<Seq<char>>
    decreases n,
{
    if n == 0 {
        None
    } else {
        let before = interfaces_fault(names, (n - 1) as nat);
        if before is Some {
            before
        } else if blank(names[n - 1]@) {
            Some("network interface name cannot be empty"@)
        } else if repeated(names, n - 1) {
            Some("duplicate interface: "@ + names[n - 1]@)
        } else {
            None
        }
    }
}

proof fn lemma_interfaces_fault_persists(names: Seq<String>, n: nat, m: nat)
    requires
        n <= m,
        interfaces_fault(names, n) is Some,
    ensures
        interfaces_fault(names, m) == interfaces_fault(names, n),
    decreases m,
{
    if n < m {
        lemma_interfaces_fault_persists(names, n, (m - 1) as nat);
    }
}

/// Interfaces have names, and no two the same.
pub fn validate_interfaces(names: &Vec<String>) -> (checked: Result<(), ConfigError>)
    ensures
        match checked {
            Ok(()) => interfaces_fault(names@, names@.len()) is None,
            Err(error) => interfaces_fault(names@, names@.len()) == Some(error.message@),
        },
{
    let mut i: usize = 0;
    while i < names.len()
        invariant
            i <= names@.len(),
            interfaces_fault(names@, i as nat) is None,
        decreases names@.len() - i,
    {
        let ghost fault = interfaces_fault(names@, (i + 1) as nat);
        proof {
            if fault is Some {
                lemma_interfaces_fault_persists(names@, (i + 1) as nat, names@.len());
            }
        }
        if is_blank(&names[i]) {
            return Err(error("network interface name cannot be empty"));
        }
        let mut k: usize = 0;
        while k < i
            invariant
                k <= i < names@.len(),
                forall|j: int| 0 <= j < k ==> (#[trigger] names@[j])@ != names@[i as int]@,
                !blank(names@[i as int]@),
                interfaces_fault(names@, i as nat) is None,
                fault == interfaces_fault(names@, (i + 1) as nat),
                fault is Some ==> interfaces_fault(names@, names@.len()) == fault,
            decreases i - k,
        {
            if same_text(&names[k], &names[i]) {
                proof {
                    assert(repeated(names@, i as int));
                }
                return Err(
                    ConfigError { message: "duplicate interface: ".to_owned().concat(&names[i]) },
                );
            }
            k += 1;
        }
        i += 1;
    }
    Ok(())
}

/// The ping targets that are given, if any are.
pub open spec fn given_targets(options: Options, file: FileConfig) -> Option<Seq<AddressText>> {
    if options.ping_targets@.len() > 0 {
        Some(options.ping_targets@)
    } else {
        match file.ping.targets {
            Some(targets) => Some(targets@),
            None => None,
        }
    }
}

/// The targets that are pinged where none is given.
pub open spec fn default_targets(targets: Seq<Address>) -> bool {
    &&& targets.len() == 3
    &&& targets[0].ip == IpAddr::V4(0x0101_0101) && targets[0].text@ == "1.1.1.1"@
    &&& targets[1].ip == IpAddr::V4(0x0808_0808) && targets[1].text@ == "8.8.8.8"@
    &&& targets[2].ip == IpAddr::V4(0x0909_0909) && targets[2].text@ == "9.9.9.9"@
}

/// The first of the targets that is no address.
pub open spec fn first_invalid(targets: Seq<AddressText>) -> Option<AddressText>
    decreases targets.len(),
{
    if targets.len() == 0 {
        None
    } else if targets[0].address is None {
        Some(targets[0])
    } else {
        first_invalid(targets.drop_first())
    }
}

/// The address of a target is that of one before it.
pub open spec fn repeated_target(targets: Seq<AddressText>, i: int) -> bool {
    exists|k: int|
        0 <= k < i && (#[trigger] targets[k]).address is Some && targets[k].address->0.ip
            == targets[i].address->0.ip
}

/// The first of the first targets that is there twice.
pub open spec fn first_repeated(targets: Seq<AddressText>, n: nat) -> Option<AddressText>
    decreases n,
{
    if n == 0 {
        None
    } else if first_repeated(targets, (n - 1) as nat) is Some {
        first_repeated(targets, (n - 1) as nat)
    } else if repeated_target(targets, n - 1) {
        Some(targets[n - 1])
    } else {
        None
    }
}

/// What is wrong with the ping targets that are given.
pub open spec fn targets_fault(targets: Seq<AddressText>) -> Option<Seq<char>> {
    if targets.len() == 0 {
        Some("at least one ping target is required"@)
    } else if first_invalid(targets) is Some {
        Some("invalid ping target IP: "@ + first_invalid(targets)->0.text@)
    } else if first_repeated(targets, targets.len()) is Some {
        Some(
            "duplicate ping target: "@ + first_repeated(
                targets,
                targets.len(),
            )->0.address->0.text@,
        )
    } else {
        None
    }
}

proof fn lemma_repeated_persists(targets: Seq<AddressText>, n: nat, m: nat)
    requires
        n <= m,
        first_repeated(targets, n) is Some,
    ensures
        first_repeated(targets, m) == first_repeated(targets, n),
    decreases m,
{
    if n < m {
        lemma_repeated_persists(targets, n, (m - 1) as nat);
    }
}

/// The addresses of the ping targets that are given: each names one, and no two the same.
pub fn resolve_targets(targets: &Vec<AddressText>) -> (addresses: Result<Vec<Address>, ConfigError>)
    ensures
        match addresses {
            Ok(addresses) => {
                &&& targets_fault(targets@) is None
                &&& addresses@.len() == targets@.len()
                &&& forall|i: int|
                    0 <= i < targets@.len() ==> (#[trigger] targets@[i]).address == Some(
                        addresses@[i],
                    )
            },
            Err(error) => targets_fault(targets@) == Some(error.message@),
        },
{
    if targets.len() == 0 {
        return Err(error("at least one ping target is required"));
    }
    let mut addresses: Vec<Address> = Vec::new();
    let mut i: usize = 0;
    proof {
        assert(targets@.skip(0) == targets@);
    }
    while i < targets.len()
        invariant
            i <= targets@.len(),
            targets@.len() > 0,
            addresses@.len() == i,
            first_invalid(targets@) == first_invalid(targets@.skip(i as int)),
            forall|k: int|
                0 <= k < i ==> (#[trigger] targets@[k]).address == Some(addresses@[k]),
        decreases targets@.len() - i,
    {
        proof {
            assert(targets@.skip(i as int)[0] == targets@[i as int]);
            assert(targets@.skip(i as int).drop_first() == targets@.skip(i + 1));
        }
        match &targets[i].address {
            Some(address) => {
                addresses.push(address.clone());
            },
            None => {
                return Err(
                    ConfigError {
                        message: "invalid ping target IP: ".to_owned().concat(&targets[i].text),
                    },
                );
            },
        }
        i += 1;
    }
    let mut j: usize = 0;
    while j < addresses.len()
        invariant
            j <= addresses@.len(),
            addresses@.len() == targets@.len(),
            targets@.len() > 0,
            first_invalid(targets@) is None,
            first_repeated(targets@, j as nat) is None,
            forall|k: int|
                0 <= k < targets@.len() ==> (#[trigger] targets@[k]).address == Some(
                    addresses@[k],
                ),
        decreases addresses@.len() - j,
    {
        let ghost found = first_repeated(targets@, (j + 1) as nat);
        proof {
            if found is Some {
                lemma_repeated_persists(targets@, (j + 1) as nat, targets@.len());
            }
            assert(targets@[j as int].address == Some(addresses@[j as int]));
        }
        let mut k: usize = 0;
        while k < j
            invariant
                k <= j < addresses@.len(),
                addresses@.len() == targets@.len(),
                targets@.len() > 0,
                first_invalid(targets@) is None,
                first_repeated(targets@, j as nat) is None,
                found == first_repeated(targets@, (j + 1) as nat),
                found is Some ==> first_repeated(targets@, targets@.len()) == found,
                forall|n: int|
                    0 <= n < targets@.len() ==> (#[trigger] targets@[n]).address == Some(
                        addresses@[n],
                    ),
                forall|n: int| 0 <= n < k ==> (#[trigger] addresses@[n]).ip != addresses@[j as int].ip,
            decreases j - k,
        {
            if addresses[k].ip == addresses[j].ip {
                proof {
                    assert(targets@[k as int].address == Some(addresses@[k as int]));
                    assert(targets@[j as int].address == Some(addresses@[j as int]));
                    assert(repeated_target(targets@, j as int));
                }
                return Err(
                    ConfigError {
                        message: "duplicate ping target: ".to_owned().concat(&addresses[j].text),
                    },
                );
            }
            k += 1;
        }
        proof {
            assert(!repeated_target(targets@, j as int)) by {
                if repeated_target(targets@, j as int) {
                    let n = choose|n: int|
                        0 <= n < j && (#[trigger] targets@[n]).address is Some
                            && targets@[n].address->0.ip == targets@[j as int].address->0.ip;
                    assert(addresses@[n].ip != addresses@[j as int].ip);
                }
            }
        }
        j += 1;
    }
    Ok(addresses)
}

/// Where measurements are written, from the most to the least specific of the settings. Without
/// any, a place in the data directory is taken: one-off commands write a file, a monitor writes
/// segments.
pub open spec fn output_is(
    options: Options,
    file: FileConfig,
    context: ResolveContext,
    command: CommandKind,
    output: OutputTarget,
) -> bool {
    let here = context.current_dir@;
    if options.output is Some {
        output matches OutputTarget::File(path) && path@ == path_below(here, options.output->0@)
    } else if options.output_dir is Some {
        output matches OutputTarget::Directory(path) && path@ == path_below(
            here,
            options.output_dir->0@,
        )
    } else if file.output is Some {
        output matches OutputTarget::File(path) && path@ == path_below(here, file.output->0@)
    } else if file.output_dir is Some {
        output matches OutputTarget::Directory(path) && path@ == path_below(
            here,
            file.output_dir->0@,
        )
    } else {
        match command {
            CommandKind::OncePing | CommandKind::OnceBandwidth => {
                output matches OutputTarget::AutomaticFile(path) && path@ == path_below(
                    context.data_dir@,
                    "journals/once"@,
                )
            },
            CommandKind::Run | CommandKind::ConfigCheck => {
                output matches OutputTarget::AutomaticDirectory(path) && path@ == path_below(
                    context.data_dir@,
                    "journals/run"@,
                )
            },
        }
    }
}

/// What is wrong with where measurements are to be written.
pub open spec fn output_fault(options: Options, file: FileConfig) -> Option<Seq<char>> {
    if options.output is None && options.output_dir is None && file.output is Some
        && file.output_dir is Some {
        Some("config cannot set both output and output_dir"@)
    } else {
        None
    }
}

/// Decides where measurements are written.
pub fn resolve_output(
    options: &Options,
    file: &FileConfig,
    context: &ResolveContext,
    command: CommandKind,
) -> (output: Result<OutputTarget, ConfigError>)
    ensures
        match output {
            Ok(output) => output_fault(*options, *file) is None && output_is(
                *options,
                *file,
                *context,
                command,
                output,
            ),
            Err(error) => output_fault(*options, *file) == Some(error.message@),
        },
{
    if options.output.is_none() && options.output_dir.is_none() && file.output.is_some()
        && file.output_dir.is_some() {
        return Err(error("config cannot set both output and output_dir"));
    }
    if let Some(path) = &options.output {
        return Ok(OutputTarget::File(make_absolute(path, &context.current_dir)));
    }
    if let Some(path) = &options.output_dir {
        return Ok(OutputTarget::Directory(make_absolute(path, &context.current_dir)));
    }
    if let Some(path) = &file.output {
        return Ok(OutputTarget::File(make_absolute(path, &context.current_dir)));
    }
    if let Some(path) = &file.output_dir {
        return Ok(OutputTarget::Directory(make_absolute(path, &context.current_dir)));
    }
    match command {
        CommandKind::OncePing | CommandKind::OnceBandwidth => Ok(
            OutputTarget::AutomaticFile(make_absolute("journals/once", &context.data_dir)),
        ),
        CommandKind::Run | CommandKind::ConfigCheck => Ok(
            OutputTarget::AutomaticDirectory(make_absolute("journals/run", &context.data_dir)),
        ),
    }
}

/// Where the state of the scheduler is kept.
pub open spec fn state_path(options: Options, file: FileConfig, context: ResolveContext) -> Seq<
    char,
> {
    path_below(
        context.current_dir@,
        match first_of(options.state_file, file.state_file) {
            Some(path) => path@,
            None => path_below(context.state_dir@, "scheduler.json"@),
        },
    )
}

pub open spec fn interval_text(options: Options, file: FileConfig) -> Seq<char> {
    text_setting(options.ping_interval, file.ping.interval, "5s"@)
}

pub open spec fn timeout_text(options: Options, file: FileConfig) -> Seq<char> {
    text_setting(options.ping_timeout, file.ping.timeout, "2s"@)
}

pub open spec fn bandwidth_settings<'a>(options: &'a Options, file: &'a FileBandwidth)
    -> BandwidthSettings<'a> {
    BandwidthSettings { options, file }
}

/// The first thing that is wrong with the command line and the file.
pub open spec fn config_fault(options: Options, file: FileConfig) -> Option<Seq<char>> {
    let names = chosen_interfaces(options, file);
    let targets = given_targets(options, file);
    let interval = span("ping interval"@, interval_text(options, file));
    let timeout = span("ping timeout"@, timeout_text(options, file));
    if interfaces_fault(names, names.len()) is Some {
        interfaces_fault(names, names.len())
    } else if targets is Some && targets_fault(targets->0) is Some {
        targets_fault(targets->0)
    } else if interval is Err {
        Some(interval->Err_0)
    } else if timeout is Err {
        Some(timeout->Err_0)
    } else if output_fault(options, file) is Some {
        output_fault(options, file)
    } else {
        bandwidth_settings(&options, &file.bandwidth).fault()
    }
}

/// The configuration that the command line and the file come to.
pub open spec fn configures(
    cli: Cli,
    file: FileConfig,
    context: ResolveContext,
    config: ResolvedConfig,
) -> bool {
    let options = cli.options;
    &&& config.command == cli.kind()
    &&& config.console == console_mode(
        setting(options.console, file.console, default_console(cli.kind())),
        context.stdout_is_terminal,
    )
    &&& config.verbosity == setting(options.verbosity, file.verbosity, Verbosity::Info)
    &&& config.interfaces@ == chosen_interfaces(options, file)
    &&& output_is(options, file, context, cli.kind(), config.output)
    &&& config.state_file@ == state_path(options, file, context)
    &&& config.shutdown_grace == config.bandwidth.shutdown_margin
    &&& match given_targets(options, file) {
        Some(targets) => {
            &&& config.ping.targets@.len() == targets.len()
            &&& forall|i: int|
                0 <= i < targets.len() ==> (#[trigger] targets[i]).address == Some(
                    config.ping.targets@[i],
                )
        },
        None => default_targets(config.ping.targets@),
    }
    &&& span("ping interval"@, interval_text(options, file)) == Ok::<
        crate::time::Duration,
        Seq<char>,
    >(config.ping.interval)
    &&& span("ping timeout"@, timeout_text(options, file)) == Ok::<
        crate::time::Duration,
        Seq<char>,
    >(config.ping.timeout)
    &&& bandwidth_settings(&options, &file.bandwidth).describes(
        context.current_dir@,
        config.bandwidth,
    )
}

fn builtin_targets() -> (targets: Vec<Address>)
    ensures
        default_targets(targets@),
{
    let mut targets: Vec<Address> = Vec::new();
    targets.push(Address { ip: IpAddr::V4(0x0101_0101), text: "1.1.1.1".to_owned() });
    targets.push(Address { ip: IpAddr::V4(0x0808_0808), text: "8.8.8.8".to_owned() });
    targets.push(Address { ip: IpAddr::V4(0x0909_0909), text: "9.9.9.9".to_owned() });
    targets
}

/// Makes the configuration of the command line and the file, or says what is wrong with them.
/// What the command line says comes before what the file says.
pub fn resolve(cli: &Cli, file: &FileConfig, context: &ResolveContext) -> (config: Result<
    ResolvedConfig,
    ConfigError,
>)
    ensures
        match config {
            Ok(config) => config_fault(cli.options, *file) is None && configures(
                *cli,
                *file,
                *context,
                config,
            ),
            Err(error) => config_fault(cli.options, *file) == Some(error.message@),
        },
{
    let options = &cli.options;
    let command = cli.command_kind();
    let usual = match command {
        CommandKind::Run | CommandKind::ConfigCheck => ConsoleMode::Auto,
        CommandKind::OncePing | CommandKind::OnceBandwidth => ConsoleMode::Human,
    };
    let console = match setting_of(options.console, file.console, usual) {
        ConsoleMode::Auto => if context.stdout_is_terminal {
            ConsoleMode::Human
        } else {
            ConsoleMode::Off
        },
        other => other,
    };
    let interfaces = if options.interfaces.len() > 0 {
        clone_texts(&options.interfaces)
    } else {
        match &file.interfaces {
            Some(names) => clone_texts(names),
            None => Vec::new(),
        }
    };
    match validate_interfaces(&interfaces) {
        Ok(()) => {},
        Err(error) => {
            return Err(error);
        },
    }
    let resolved = if options.ping_targets.len() > 0 {
        resolve_targets(&options.ping_targets)
    } else {
        match &file.ping.targets {
            Some(targets) => resolve_targets(targets),
            None => Ok(builtin_targets()),
        }
    };
    let targets = match resolved {
        Ok(targets) => targets,
        Err(error) => {
            return Err(error);
        },
    };
    let interval = match parse_duration(
        "ping interval",
        text_of(&options.ping_interval, &file.ping.interval, "5s"),
    ) {
        Ok(interval) => interval,
        Err(error) => {
            return Err(error);
        },
    };
    let timeout = match parse_duration(
        "ping timeout",
        text_of(&options.ping_timeout, &file.ping.timeout, "2s"),
    ) {
        Ok(timeout) => timeout,
        Err(error) => {
            return Err(error);
        },
    };
    let output = match resolve_output(options, file, context, command) {
        Ok(output) => output,
        Err(error) => {
            return Err(error);
        },
    };
    let state_default = make_absolute("scheduler.json", &context.state_dir);
    let state_file = make_absolute(
        text_of(&options.state_file, &file.state_file, &state_default),
        &context.current_dir,
    );
    let settings = BandwidthSettings { options, file: &file.bandwidth };
    let bandwidth = match settings.resolve(context) {
        Ok(bandwidth) => bandwidth,
        Err(error) => {
            return Err(error);
        },
    };
    Ok(
        ResolvedConfig {
            command,
            console,
            verbosity: setting_of(options.verbosity, file.verbosity, Verbosity::Info),
            interfaces,
            output,
            state_file,
            shutdown_grace: bandwidth.shutdown_margin,
            ping: PingConfig { targets, interval, timeout },
            bandwidth,
        },
    )
}

} // verus!
