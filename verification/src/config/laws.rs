//! What a configuration is made of, and when it is refused.
use super::resolve::resolve;
use super::{AddressText, ConfigError, FileBandwidth, FileConfig, ResolveContext, ResolvedConfig};
use crate::cli::{
    Cli, CommandKind, Commands, ConsoleMode, OnceCommand, Options, ProviderKind, Verbosity,
};
use crate::endpoint::{UrlView, parsed_url};
use crate::model::IpAddr;
use crate::scalar::Scalar;
use crate::time::{countable, human_duration};
use vstd::prelude::*;

verus! {

/// What the command line says counts; what the file says counts where the command line says
/// nothing; where neither says anything, the value is the usual one.
pub open spec fn decided<T>(
    command_line: Option<T>,
    file: Option<T>,
    usual: T,
    value: T,
) -> bool {
    &&& command_line is Some ==> value == command_line->0
    &&& command_line is None && file is Some ==> value == file->0
    &&& command_line is None && file is None ==> value == usual
}

/// The text that counts among a command line's, a file's and the usual one.
pub open spec fn words(command_line: Option<String>, file: Option<String>, usual: Seq<char>) -> Seq<
    char,
> {
    if command_line is Some {
        command_line->0@
    } else if file is Some {
        file->0@
    } else {
        usual
    }
}

/// The text is read as a span of time of this many nanoseconds, and it is not zero.
pub open spec fn lasts(text: Seq<char>, nanos: int) -> bool {
    &&& human_duration(text) is Ok
    &&& nanos == human_duration(text)->Ok_0.0 * 1_000_000_000 + human_duration(text)->Ok_0.1
    &&& nanos > 0
}

/// How many nanoseconds a text is read as.
pub open spec fn nanos_of(text: Seq<char>) -> int {
    human_duration(text)->Ok_0.0 * 1_000_000_000 + human_duration(text)->Ok_0.1
}

/// The text can be read as a span of time that is not zero.
pub open spec fn sound_span(text: Seq<char>) -> bool {
    countable(text) && human_duration(text) is Ok && nanos_of(text) > 0
}

/// A path from the root stands as it is, and any other is continued from a directory.
pub open spec fn leads_to(directory: Seq<char>, path: Seq<char>, whole: Seq<char>) -> bool {
    if path.len() > 0 && path[0] == '/' {
        whole == path
    } else {
        &&& whole.len() >= directory.len() + path.len()
        &&& whole.take(directory.len() as int) == directory
        &&& whole.skip(whole.len() - path.len()) == path
        &&& whole.len() == directory.len() + path.len() + (if directory.len() == 0
            || directory.last() == '/' {
            0int
        } else {
            1
        })
        &&& directory.len() > 0 ==> whole[whole.len() - path.len() - 1] == '/'
    }
}

/// The command is what the command line asks for.
pub open spec fn asked(command: Commands, kind: CommandKind) -> bool {
    &&& kind == CommandKind::Run <==> command is Run
    &&& kind == CommandKind::OncePing <==> command is Once && command->Once_command
        == OnceCommand::Ping
    &&& kind == CommandKind::OnceBandwidth <==> command is Once && command->Once_command
        == OnceCommand::Bandwidth
    &&& kind == CommandKind::ConfigCheck <==> command is Config
}

/// The names of the interfaces that are to be used.
pub open spec fn names_given(options: Options, file: FileConfig) -> Seq<String> {
    if options.interfaces@.len() > 0 {
        options.interfaces@
    } else if file.interfaces is Some {
        file.interfaces->0@
    } else {
        Seq::empty()
    }
}

/// The targets that are to be pinged, where any is named.
pub open spec fn targets_given(options: Options, file: FileConfig) -> Option<Seq<AddressText>> {
    if options.ping_targets@.len() > 0 {
        Some(options.ping_targets@)
    } else if file.ping.targets is Some {
        Some(file.ping.targets->0@)
    } else {
        None
    }
}

pub(crate) proof fn lemma_leads_to(directory: Seq<char>, path: Seq<char>)
    ensures
        leads_to(directory, path, super::path_below(directory, path)),
{
    let whole = super::path_below(directory, path);
    reveal_strlit("/");
    if !(path.len() > 0 && path[0] == '/') {
        assert(whole.take(directory.len() as int) =~= directory);
        assert(whole.skip(whole.len() - path.len()) =~= path);
    }
}

/// What the command line says counts before what the file says, and that before what is usual:
/// the command, how it is shown, the interfaces, the targets and how often they are pinged, and
/// where things are written.
pub proof fn law_command_line_comes_first(
    cli: Cli,
    file: FileConfig,
    context: ResolveContext,
    config: ResolvedConfig,
)
    requires
        call_ensures(resolve, (&cli, &file, &context), Ok::<ResolvedConfig, ConfigError>(config)),
    ensures
        asked(cli.command, config.command),
        decided(cli.options.verbosity, file.verbosity, Verbosity::Info, config.verbosity),
        config.interfaces@ == names_given(cli.options, file),
        lasts(
            words(cli.options.ping_interval, file.ping.interval, "5s"@),
            config.ping.interval.nanos as int,
        ),
        lasts(
            words(cli.options.ping_timeout, file.ping.timeout, "2s"@),
            config.ping.timeout.nanos as int,
        ),
        targets_given(cli.options, file) matches Some(given) ==> {
            &&& config.ping.targets@.len() == given.len()
            &&& given.len() > 0
            &&& forall|i: int|
                0 <= i < given.len() ==> (#[trigger] given[i]).address == Some(
                    config.ping.targets@[i],
                )
        },
        targets_given(cli.options, file) is None ==> {
            &&& config.ping.targets@.len() == 3
            &&& config.ping.targets@[0].text@ == "1.1.1.1"@
            &&& config.ping.targets@[1].text@ == "8.8.8.8"@
            &&& config.ping.targets@[2].text@ == "9.9.9.9"@
            &&& config.ping.targets@[0].ip == IpAddr::V4(0x0101_0101)
            &&& config.ping.targets@[1].ip == IpAddr::V4(0x0808_0808)
            &&& config.ping.targets@[2].ip == IpAddr::V4(0x0909_0909)
        },
        config.shutdown_grace == config.bandwidth.shutdown_margin,
{
}

/// Without a word on it, a command that is run once is shown to people, and a monitor only where
/// there is a terminal. What is asked for is done.
pub proof fn law_people_see_what_is_for_them(
    cli: Cli,
    file: FileConfig,
    context: ResolveContext,
    config: ResolvedConfig,
    said: Option<ConsoleMode>,
)
    requires
        call_ensures(resolve, (&cli, &file, &context), Ok::<ResolvedConfig, ConfigError>(config)),
        said == (if cli.options.console is Some {
            cli.options.console
        } else {
            file.console
        }),
    ensures
        said is Some && said->0 != ConsoleMode::Auto ==> config.console == said->0,
        said is None && cli.command is Once ==> config.console == ConsoleMode::Human,
        said == Some(ConsoleMode::Auto) || (said is None && !(cli.command is Once)) ==> {
            &&& context.stdout_is_terminal ==> config.console == ConsoleMode::Human
            &&& !context.stdout_is_terminal ==> config.console == ConsoleMode::Off
        },
{
}

/// Measurements are written where the command line says, else where the file says, else into the
/// data directory. The scheduler's state is kept where it is said, else in the state directory.
pub proof fn law_output_goes_where_it_is_sent(
    cli: Cli,
    file: FileConfig,
    context: ResolveContext,
    config: ResolvedConfig,
)
    requires
        call_ensures(resolve, (&cli, &file, &context), Ok::<ResolvedConfig, ConfigError>(config)),
    ensures
        cli.options.output is Some ==> config.output is File && leads_to(
            context.current_dir@,
            cli.options.output->0@,
            config.output->File_0@,
        ),
        cli.options.output is None && cli.options.output_dir is Some ==> config.output is Directory
            && leads_to(
            context.current_dir@,
            cli.options.output_dir->0@,
            config.output->Directory_0@,
        ),
        cli.options.output is None && cli.options.output_dir is None && file.output is Some
            ==> config.output is File && file.output_dir is None && leads_to(
            context.current_dir@,
            file.output->0@,
            config.output->File_0@,
        ),
        cli.options.output is None && cli.options.output_dir is None && file.output is None
            && file.output_dir is Some ==> config.output is Directory && leads_to(
            context.current_dir@,
            file.output_dir->0@,
            config.output->Directory_0@,
        ),
        cli.options.output is None && cli.options.output_dir is None && file.output is None
            && file.output_dir is None ==> {
            &&& cli.command is Once ==> config.output is AutomaticFile && leads_to(
                context.data_dir@,
                "journals/once"@,
                config.output->AutomaticFile_0@,
            )
            &&& !(cli.command is Once) ==> config.output is AutomaticDirectory && leads_to(
                context.data_dir@,
                "journals/run"@,
                config.output->AutomaticDirectory_0@,
            )
        },
        cli.options.state_file is Some ==> leads_to(
            context.current_dir@,
            cli.options.state_file->0@,
            config.state_file@,
        ),
        cli.options.state_file is None && file.state_file is Some ==> leads_to(
            context.current_dir@,
            file.state_file->0@,
            config.state_file@,
        ),
        cli.options.state_file is None && file.state_file is None ==> exists|below: Seq<char>|
            {
                &&& #[trigger] leads_to(context.state_dir@, "scheduler.json"@, below)
                &&& leads_to(context.current_dir@, below, config.state_file@)
            },
{
    let here = context.current_dir@;
    if cli.options.output is Some {
        lemma_leads_to(here, cli.options.output->0@);
    } else if cli.options.output_dir is Some {
        lemma_leads_to(here, cli.options.output_dir->0@);
    } else if file.output is Some {
        lemma_leads_to(here, file.output->0@);
    } else if file.output_dir is Some {
        lemma_leads_to(here, file.output_dir->0@);
    } else {
        lemma_leads_to(context.data_dir@, "journals/once"@);
        lemma_leads_to(context.data_dir@, "journals/run"@);
    }
    if cli.options.state_file is Some {
        lemma_leads_to(here, cli.options.state_file->0@);
    } else if file.state_file is Some {
        lemma_leads_to(here, file.state_file->0@);
    } else {
        let below = super::path_below(context.state_dir@, "scheduler.json"@);
        lemma_leads_to(context.state_dir@, "scheduler.json"@);
        lemma_leads_to(here, below);
    }
}

/// The limits on tests, and what sets one off, are those of the command line, else of the file,
/// else four tests in a day, thirty-six minutes apart, and so on.
pub proof fn law_limits_are_the_settings(
    cli: Cli,
    file: FileConfig,
    context: ResolveContext,
    config: ResolvedConfig,
)
    requires
        call_ensures(resolve, (&cli, &file, &context), Ok::<ResolvedConfig, ConfigError>(config)),
    ensures
        decided(
            cli.options.bandwidth_daily_max,
            file.bandwidth.daily_max,
            4u32,
            config.bandwidth.daily_max,
        ),
        decided(
            cli.options.bandwidth_slot_jitter_pct,
            file.bandwidth.slot_jitter_pct,
            50u8,
            config.bandwidth.slot_jitter_pct,
        ),
        lasts(
            words(cli.options.bandwidth_min_spacing, file.bandwidth.min_spacing, "36m"@),
            config.bandwidth.min_spacing.nanos as int,
        ),
        lasts(
            words(cli.options.bandwidth_timeout, file.bandwidth.whole_test_timeout, "55s"@),
            config.bandwidth.whole_test_timeout.nanos as int,
        ),
        lasts(
            words(cli.options.bandwidth_shutdown_margin, file.bandwidth.shutdown_margin, "15s"@),
            config.bandwidth.shutdown_margin.nanos as int,
        ),
        !config.bandwidth.force_limits,
        decided(
            cli.options.loss_window_rounds,
            file.bandwidth.trigger.window_rounds,
            6u32,
            config.bandwidth.trigger.window_rounds,
        ),
        decided(
            cli.options.loss_min_samples,
            file.bandwidth.trigger.min_samples,
            6u32,
            config.bandwidth.trigger.min_samples,
        ),
        decided(
            cli.options.loss_threshold_pct,
            file.bandwidth.trigger.loss_threshold_pct,
            Scalar { key: 0x4049_0000_0000_0000 },
            config.bandwidth.trigger.loss_threshold_pct,
        ),
        decided(
            cli.options.recovery_loss_pct,
            file.bandwidth.trigger.recovery_loss_pct,
            Scalar { key: 0x4024_0000_0000_0000 },
            config.bandwidth.trigger.recovery_loss_pct,
        ),
        decided(
            cli.options.recovery_rounds,
            file.bandwidth.trigger.recovery_rounds,
            3u32,
            config.bandwidth.trigger.recovery_rounds,
        ),
        cli.options.rtt_threshold_ms is Some ==> config.bandwidth.trigger.rtt_threshold_ms
            == cli.options.rtt_threshold_ms,
        cli.options.rtt_threshold_ms is None ==> config.bandwidth.trigger.rtt_threshold_ms
            == file.bandwidth.trigger.rtt_threshold_ms,
        lasts(
            words(cli.options.pending_trigger_ttl, file.bandwidth.trigger.pending_ttl, "30m"@),
            config.bandwidth.trigger.pending_ttl.nanos as int,
        ),
        lasts(
            words(cli.options.cooldown_initial, file.bandwidth.cooldown.initial, "60s"@),
            config.bandwidth.cooldown.initial.nanos as int,
        ),
        lasts(
            words(cli.options.cooldown_max, file.bandwidth.cooldown.max, "16m"@),
            config.bandwidth.cooldown.max.nanos as int,
        ),
{
}

/// Tests run with the provider that is asked for, and on their own only where they are wanted:
/// never with M-Lab before its policy is accepted, and never where they are switched off.
pub proof fn law_tests_run_where_they_are_wanted(
    cli: Cli,
    file: FileConfig,
    context: ResolveContext,
    config: ResolvedConfig,
)
    requires
        call_ensures(resolve, (&cli, &file, &context), Ok::<ResolvedConfig, ConfigError>(config)),
    ensures
        config.bandwidth.provider is Direct <==> cli.options.ndt_provider == Some(
            ProviderKind::Direct,
        ) || (cli.options.ndt_provider is None && file.bandwidth.provider == Some(
            ProviderKind::Direct,
        )),
        config.bandwidth.provider is Mlab ==> {
            &&& config.bandwidth.provider_id@ == "mlab"@
            &&& config.bandwidth.provider->Mlab_0.policy_accepted <==> (
            cli.options.accept_mlab_policy || file.bandwidth.accept_mlab_policy == Some(true))
            &&& parsed_url(
                words(
                    cli.options.mlab_locate_url,
                    file.bandwidth.mlab.locate_url,
                    "https://locate.measurementlab.net/v2/nearest/ndt/ndt7"@,
                ),
            ) == Some(config.bandwidth.provider->Mlab_0.locate_url@)
        },
        config.bandwidth.automatic_enabled <==> {
            &&& config.bandwidth.daily_max >= 1
            &&& !cli.options.no_bandwidth
            &&& config.bandwidth.provider is Mlab
                ==> config.bandwidth.provider->Mlab_0.policy_accepted
        },
{
}

/// A reading from nothing to one hundred, negative zero among them.
pub open spec fn sound_share(share: Scalar) -> bool {
    share.key == -1 || 0 <= share.key <= 0x4059_0000_0000_0000
}

/// One share is less than another, where the two zeros are one.
pub open spec fn smaller_share(one: Scalar, other: Scalar) -> bool {
    one.key < other.key && !(one.key == -1 && other.key == 0)
}

/// The value that counts among a command line's, a file's and the usual one.
pub open spec fn counts<T>(command_line: Option<T>, file: Option<T>, usual: T) -> T {
    if command_line is Some {
        command_line->0
    } else if file is Some {
        file->0
    } else {
        usual
    }
}

/// The names are words, and all different.
pub open spec fn sound_names(names: Seq<String>) -> bool {
    &&& forall|i: int|
        0 <= i < names.len() ==> !super::direct::blank((#[trigger] names[i])@)
    &&& forall|i: int, k: int|
        0 <= k < i < names.len() ==> (#[trigger] names[k])@ != (#[trigger] names[i])@
}

/// The targets are addresses, all different, and there is one.
pub open spec fn sound_targets(targets: Seq<AddressText>) -> bool {
    &&& targets.len() > 0
    &&& forall|i: int| 0 <= i < targets.len() ==> (#[trigger] targets[i]).address is Some
    &&& forall|i: int, k: int|
        0 <= k < i < targets.len() ==> (#[trigger] targets[k]).address->0.ip != (
        #[trigger] targets[i]).address->0.ip
}

/// The limits on tests can be kept.
pub open spec fn sound_limits(options: Options, file: FileBandwidth) -> bool {
    &&& sound_span(words(options.bandwidth_min_spacing, file.min_spacing, "36m"@))
    &&& counts(options.bandwidth_slot_jitter_pct, file.slot_jitter_pct, 50) <= 100
    &&& sound_span(words(options.bandwidth_timeout, file.whole_test_timeout, "55s"@))
    &&& sound_span(words(options.bandwidth_shutdown_margin, file.shutdown_margin, "15s"@))
}

/// What sets a test off, and what ends a degradation, can be told.
pub open spec fn sound_triggers(options: Options, file: FileBandwidth) -> bool {
    let loss = counts(
        options.loss_threshold_pct,
        file.trigger.loss_threshold_pct,
        Scalar { key: 0x4049_0000_0000_0000 },
    );
    let calm = counts(
        options.recovery_loss_pct,
        file.trigger.recovery_loss_pct,
        Scalar { key: 0x4024_0000_0000_0000 },
    );
    let slow = if options.rtt_threshold_ms is Some {
        options.rtt_threshold_ms
    } else {
        file.trigger.rtt_threshold_ms
    };
    &&& counts(options.loss_window_rounds, file.trigger.window_rounds, 6) > 0
    &&& counts(options.loss_min_samples, file.trigger.min_samples, 6) > 0
    &&& counts(options.recovery_rounds, file.trigger.recovery_rounds, 3) > 0
    &&& sound_share(loss)
    &&& sound_share(calm)
    &&& smaller_share(calm, loss)
    &&& slow is Some ==> 0 < slow->0.key < 0x7ff0_0000_0000_0000
    &&& sound_span(words(options.pending_trigger_ttl, file.trigger.pending_ttl, "30m"@))
}

/// Cooldowns have a beginning and an end.
pub open spec fn sound_cooldowns(options: Options, file: FileBandwidth) -> bool {
    let initial = words(options.cooldown_initial, file.cooldown.initial, "60s"@);
    let most = words(options.cooldown_max, file.cooldown.max, "16m"@);
    sound_span(initial) && sound_span(most) && nanos_of(initial) <= nanos_of(most)
}

/// A web address without credentials and fragment.
pub open spec fn sound_address(parsed: Option<UrlView>) -> bool {
    &&& parsed is Some
    &&& parsed->0.scheme == "http"@ || parsed->0.scheme == "https"@
    &&& parsed->0.host is Some
    &&& parsed->0.username.len() == 0
    &&& parsed->0.password is None
    &&& parsed->0.fragment is None
}

/// M-Lab's terms can be kept, and nothing is said that is meant for another provider.
pub open spec fn sound_for_mlab(options: Options, file: FileBandwidth) -> bool {
    &&& counts(options.bandwidth_daily_max, file.daily_max, 4) <= 4
    &&& nanos_of(words(options.bandwidth_min_spacing, file.min_spacing, "36m"@)) >= 36 * 60
        * 1_000_000_000
    &&& sound_address(
        parsed_url(
            words(
                options.mlab_locate_url,
                file.mlab.locate_url,
                "https://locate.measurementlab.net/v2/nearest/ndt/ndt7"@,
            ),
        ),
    )
    &&& options.ndt_target is None && file.direct.target is None
    &&& options.ndt_download_url is None && file.direct.download_url is None
    &&& options.ndt_upload_url is None && file.direct.upload_url is None
    &&& options.ndt_tls_server_name is None && file.direct.tls_server_name is None
    &&& options.ndt_ca_cert is None && file.direct.ca_cert is None
    &&& !options.allow_insecure_ndt && file.direct.allow_insecure != Some(true)
}

/// The provider is not M-Lab.
pub open spec fn asks_direct(options: Options, file: FileBandwidth) -> bool {
    counts(options.ndt_provider, file.provider, ProviderKind::Mlab) == ProviderKind::Direct
}

proof fn lemma_names_are_sound(names: Seq<String>, n: nat)
    requires
        n <= names.len(),
    ensures
        super::resolve::interfaces_fault(names, n) is None <==> sound_names(names.take(n as int)),
    decreases n,
{
    if n > 0 {
        let before = names.take(n - 1);
        let now = names.take(n as int);
        lemma_names_are_sound(names, (n - 1) as nat);
        assert(forall|i: int| 0 <= i < n - 1 ==> before[i] == now[i]);
        assert(now[n - 1] == names[n - 1]);
        if sound_names(now) {
            assert forall|i: int| 0 <= i < before.len() implies !super::direct::blank(
                (#[trigger] before[i])@,
            ) by {
                assert(!super::direct::blank(now[i]@));
            }
            assert forall|i: int, k: int| 0 <= k < i < before.len() implies (
            #[trigger] before[k])@ != (#[trigger] before[i])@ by {
                assert(now[k]@ != now[i]@);
            }
            assert forall|k: int| 0 <= k < n - 1 implies (#[trigger] names[k])@
                != names[n - 1]@ by {
                assert(now[k]@ != now[n - 1]@);
            }
            assert(!super::resolve::repeated(names, n - 1));
            assert(!super::direct::blank(now[n - 1]@));
        } else if sound_names(before) && !super::direct::blank(names[n - 1]@) {
            if !super::resolve::repeated(names, n - 1) {
                assert forall|i: int| 0 <= i < now.len() implies !super::direct::blank(
                    (#[trigger] now[i])@,
                ) by {
                    if i < n - 1 {
                        assert(!super::direct::blank(before[i]@));
                    }
                }
                assert forall|i: int, k: int| 0 <= k < i < now.len() implies (
                #[trigger] now[k])@ != (#[trigger] now[i])@ by {
                    if i < n - 1 {
                        assert(before[k]@ != before[i]@);
                    } else {
                        assert(names[k]@ != names[n - 1]@);
                    }
                }
            }
        }
    }
}

proof fn lemma_targets_are_addresses(targets: Seq<AddressText>)
    ensures
        super::resolve::first_invalid(targets) is None <==> (forall|i: int|
            0 <= i < targets.len() ==> (#[trigger] targets[i]).address is Some),
    decreases targets.len(),
{
    if targets.len() > 0 {
        let rest = targets.drop_first();
        lemma_targets_are_addresses(rest);
        assert(forall|i: int| 0 <= i < rest.len() ==> #[trigger] rest[i] == targets[i + 1]);
        if forall|i: int| 0 <= i < rest.len() ==> (#[trigger] rest[i]).address is Some {
            assert forall|i: int| 0 < i < targets.len() implies (
            #[trigger] targets[i]).address is Some by {
                assert(rest[i - 1].address is Some);
            }
        }
    }
}

proof fn lemma_targets_differ(targets: Seq<AddressText>, n: nat)
    requires
        n <= targets.len(),
        forall|i: int| 0 <= i < targets.len() ==> (#[trigger] targets[i]).address is Some,
    ensures
        super::resolve::first_repeated(targets, n) is None <==> (forall|i: int, k: int|
            0 <= k < i < n ==> (#[trigger] targets[k]).address->0.ip != (
            #[trigger] targets[i]).address->0.ip),
    decreases n,
{
    if n > 0 {
        lemma_targets_differ(targets, (n - 1) as nat);
    }
}

/// Settings for M-Lab are taken if and only if every one of them is sound: the interfaces are
/// named and different, the targets are different addresses, every span can be read, every limit
/// and threshold lies where it has to, and only one place is named to write to.
pub proof fn law_sound_settings_are_taken(
    cli: Cli,
    file: FileConfig,
    context: ResolveContext,
    result: Result<ResolvedConfig, ConfigError>,
)
    requires
        call_ensures(resolve, (&cli, &file, &context), result),
        !asks_direct(cli.options, file.bandwidth),
    ensures
        result is Ok <==> {
            &&& sound_names(names_given(cli.options, file))
            &&& targets_given(cli.options, file) is Some ==> sound_targets(
                targets_given(cli.options, file)->0,
            )
            &&& sound_span(words(cli.options.ping_interval, file.ping.interval, "5s"@))
            &&& sound_span(words(cli.options.ping_timeout, file.ping.timeout, "2s"@))
            &&& cli.options.output is Some || cli.options.output_dir is Some || file.output is None
                || file.output_dir is None
            &&& sound_limits(cli.options, file.bandwidth)
            &&& sound_triggers(cli.options, file.bandwidth)
            &&& sound_cooldowns(cli.options, file.bandwidth)
            &&& sound_for_mlab(cli.options, file.bandwidth)
        },
{
    let names = names_given(cli.options, file);
    lemma_names_are_sound(names, names.len());
    assert(names.take(names.len() as int) == names);
    if targets_given(cli.options, file) is Some {
        let targets = targets_given(cli.options, file)->0;
        lemma_targets_are_addresses(targets);
        if super::resolve::first_invalid(targets) is None {
            lemma_targets_differ(targets, targets.len());
        }
    }
}

} // verus!
