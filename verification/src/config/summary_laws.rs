//! What the summary of a configuration holds.
use super::summary::{
    ThresholdTexts, command_text, console_text, direct_lines, general_lines, interfaces_text,
    mlab_lines, output_text, provider_text, targets_text, trigger_lines, verbosity_text, with_line,
};
use super::{Address, OutputTarget, ResolvedConfig};
use crate::cli::{CommandKind, ConsoleMode, Verbosity};
use crate::endpoint::redacted;
use crate::scheduler::rules::flag_text;
use crate::text::{dec, joined_texts};
use crate::time::{Duration, human_text};
use vstd::prelude::*;

verus! {

/// Lines that each give a key its value.
pub open spec fn settings_text(settings: Seq<(Seq<char>, Seq<char>)>) -> Seq<char>
    decreases settings.len(),
{
    if settings.len() == 0 {
        Seq::empty()
    } else {
        let (key, value) = settings[0];
        (key + "="@ + value + "\n"@) + settings_text(settings.skip(1))
    }
}

/// A span of time as people write it.
pub open spec fn span_words(span: Duration) -> Seq<char> {
    human_text(
        (if span.nanos / 1_000_000_000 > u64::MAX {
            u64::MAX as int
        } else {
            span.nanos as int / 1_000_000_000
        }) as u64,
        (span.nanos as int % 1_000_000_000) as u32,
    )
}

pub open spec fn flag_words(flag: bool) -> Seq<char> {
    if !flag {
        "false"@
    } else {
        "true"@
    }
}

pub open spec fn given_or(text: Option<String>, otherwise: Seq<char>) -> Seq<char> {
    if text is Some {
        text->0@
    } else {
        otherwise
    }
}

pub open spec fn command_words(command: CommandKind) -> Seq<char> {
    if command == CommandKind::Run {
        "run"@
    } else if command == CommandKind::ConfigCheck {
        "config-check"@
    } else if command == CommandKind::OncePing {
        "once-ping"@
    } else {
        "once-bandwidth"@
    }
}

pub open spec fn console_words(mode: ConsoleMode) -> Seq<char> {
    if mode == ConsoleMode::Off {
        "off"@
    } else if mode == ConsoleMode::Jsonl {
        "jsonl"@
    } else if mode == ConsoleMode::Human {
        "human"@
    } else {
        "auto"@
    }
}

pub open spec fn verbosity_words(verbosity: Verbosity) -> Seq<char> {
    if verbosity == Verbosity::Trace {
        "trace"@
    } else if verbosity == Verbosity::Debug {
        "debug"@
    } else if verbosity == Verbosity::Info {
        "info"@
    } else if verbosity == Verbosity::Warn {
        "warn"@
    } else {
        "error"@
    }
}

pub open spec fn output_words(output: OutputTarget) -> Seq<char> {
    if output is AutomaticDirectory {
        "automatic-directory:"@ + output->AutomaticDirectory_0@
    } else if output is AutomaticFile {
        "automatic-file:"@ + output->AutomaticFile_0@
    } else if output is Directory {
        "directory:"@ + output->Directory_0@
    } else {
        "file:"@ + output->File_0@
    }
}

pub open spec fn interface_list(config: ResolvedConfig) -> Seq<char> {
    if config.interfaces@.len() > 0 {
        joined_texts(config.interfaces@, ","@)
    } else {
        "default-route"@
    }
}

pub open spec fn target_list(config: ResolvedConfig) -> Seq<char> {
    joined_texts(config.ping.targets@.map_values(|target: Address| target.text), ","@)
}

pub open spec fn provider_words(config: ResolvedConfig) -> Seq<char> {
    if config.bandwidth.provider is Direct {
        "direct"@
    } else {
        "mlab"@
    }
}

/// What is set for all commands.
pub open spec fn general_settings(config: ResolvedConfig) -> Seq<(Seq<char>, Seq<char>)> {
    seq![
        ("configuration"@, "valid"@),
        ("command"@, command_words(config.command)),
        ("console"@, console_words(config.console)),
        ("verbosity"@, verbosity_words(config.verbosity)),
        ("interfaces"@, interface_list(config)),
        ("output"@, output_words(config.output)),
        ("state_file"@, config.state_file@),
        ("ping.targets"@, target_list(config)),
        ("ping.interval"@, span_words(config.ping.interval)),
        ("ping.timeout"@, span_words(config.ping.timeout)),
    ]
}

/// What is set for bandwidth tests, whatever the provider.
pub open spec fn bandwidth_settings(config: ResolvedConfig) -> Seq<(Seq<char>, Seq<char>)> {
    seq![
        ("bandwidth.provider"@, provider_words(config)),
        ("bandwidth.provider_id"@, config.bandwidth.provider_id@),
        ("bandwidth.automatic_enabled"@, flag_words(config.bandwidth.automatic_enabled)),
        ("bandwidth.daily_max"@, dec(config.bandwidth.daily_max as nat)),
        ("bandwidth.min_spacing"@, span_words(config.bandwidth.min_spacing)),
        ("bandwidth.slot_jitter_pct"@, dec(config.bandwidth.slot_jitter_pct as nat)),
        ("bandwidth.whole_test_timeout"@, span_words(config.bandwidth.whole_test_timeout)),
        ("bandwidth.shutdown_margin"@, span_words(config.bandwidth.shutdown_margin)),
    ]
}

/// What sets a test off, and how long one that was refused is put off.
pub open spec fn trigger_settings(
    config: ResolvedConfig,
    texts: ThresholdTexts) -> Seq<(Seq<char>, Seq<char>,
)> {
    seq![
        ("trigger.window_rounds"@, dec(config.bandwidth.trigger.window_rounds as nat)),
        ("trigger.min_samples"@, dec(config.bandwidth.trigger.min_samples as nat)),
        ("trigger.loss_threshold_pct"@, texts.loss_threshold_pct@),
        ("trigger.rtt_threshold_ms"@, given_or(texts.rtt_threshold_ms, "disabled"@)),
        ("trigger.recovery_loss_pct"@, texts.recovery_loss_pct@),
        ("trigger.recovery_rounds"@, dec(config.bandwidth.trigger.recovery_rounds as nat)),
        ("trigger.pending_ttl"@, span_words(config.bandwidth.trigger.pending_ttl)),
        ("cooldown.initial"@, span_words(config.bandwidth.cooldown.initial)),
        ("cooldown.max"@, span_words(config.bandwidth.cooldown.max)),
    ]
}

/// What is set for M-Lab.
pub open spec fn mlab_settings(config: ResolvedConfig) -> Seq<(Seq<char>, Seq<char>)> {
    seq![
        ("mlab.locate_url"@, redacted(config.bandwidth.provider->Mlab_0.locate_url@)),
        ("mlab.policy_accepted"@, flag_words(config.bandwidth.provider->Mlab_0.policy_accepted)),
        ("mlab.acceptable_use"@, "https://www.measurementlab.net/aup/"@),
        ("mlab.privacy"@, "https://www.measurementlab.net/privacy/"@),
    ]
}

/// What is set for a direct provider.
pub open spec fn direct_settings(config: ResolvedConfig) -> Seq<(Seq<char>, Seq<char>)> {
    seq![
        ("direct.target"@, given_or(config.bandwidth.provider->Direct_0.target, "explicit-urls"@)),
        ("direct.download_url"@, redacted(config.bandwidth.provider->Direct_0.download_url@)),
        ("direct.upload_url"@, redacted(config.bandwidth.provider->Direct_0.upload_url@)),
        (
            "direct.tls_server_name"@,
            given_or(config.bandwidth.provider->Direct_0.tls_server_name, "default"@),
        ),
        ("direct.ca_cert"@, given_or(config.bandwidth.provider->Direct_0.ca_cert, "system-roots"@)),
        ("direct.allow_insecure"@, flag_words(config.bandwidth.provider->Direct_0.allow_insecure)),
    ]
}

proof fn lemma_settings_join(one: Seq<(Seq<char>, Seq<char>)>, other: Seq<(Seq<char>, Seq<char>)>)
    ensures
        settings_text(one + other) == settings_text(one) + settings_text(other),
    decreases one.len(),
{
    if one.len() == 0 {
        assert(one + other =~= other);
        assert(settings_text(one) + settings_text(other) =~= settings_text(other));
    } else {
        lemma_settings_join(one.skip(1), other);
        assert((one + other).skip(1) =~= one.skip(1) + other);
        let (key, value) = one[0];
        assert(settings_text(one + other) =~= settings_text(one) + settings_text(other));
    }
}

/// One setting more is one line more.
proof fn lemma_line(
    start: Seq<char>,
    text: Seq<char>,
    settings: Seq<(Seq<char>, Seq<char>)>,
    key: Seq<char>,
    value: Seq<char>,
)
    requires
        text == start + settings_text(settings),
    ensures
        with_line(text, key, value) == start + settings_text(settings.push((key, value))),
{
    let last = seq![(key, value)];
    lemma_settings_join(settings, last);
    assert(settings + last =~= settings.push((key, value)));
    assert(last.skip(1) =~= Seq::<(Seq<char>, Seq<char>)>::empty());
    assert(settings_text(last) =~= key + "="@ + value + "\n"@) by {
        assert(settings_text(last.skip(1)) =~= Seq::<char>::empty());
    }
    assert(with_line(text, key, value) =~= start + settings_text(settings.push((key, value))));
}

proof fn lemma_next_line(
    start: Seq<char>,
    text: Seq<char>,
    settings: Seq<(Seq<char>, Seq<char>)>,
    i: int,
) -> (longer: Seq<char>)
    requires
        0 <= i < settings.len(),
        text == start + settings_text(settings.take(i)),
    ensures
        longer == with_line(text, settings[i].0, settings[i].1),
        longer == start + settings_text(settings.take(i + 1)),
{
    lemma_line(start, text, settings.take(i), settings[i].0, settings[i].1);
    assert(settings.take(i).push(settings[i]) =~= settings.take(i + 1));
    with_line(text, settings[i].0, settings[i].1)
}

/// A text with the settings of all commands behind it.
spec fn first_lines(text: Seq<char>, config: ResolvedConfig) -> Seq<char> {
    let text = with_line(text, "configuration"@, "valid"@);
    let text = with_line(text, "command"@, command_words(config.command));
    let text = with_line(text, "console"@, console_words(config.console));
    let text = with_line(text, "verbosity"@, verbosity_words(config.verbosity));
    let text = with_line(text, "interfaces"@, interface_list(config));
    let text = with_line(text, "output"@, output_words(config.output));
    let text = with_line(text, "state_file"@, config.state_file@);
    let text = with_line(text, "ping.targets"@, target_list(config));
    let text = with_line(text, "ping.interval"@, span_words(config.ping.interval));
    let text = with_line(text, "ping.timeout"@, span_words(config.ping.timeout));
    text
}

/// A text with the settings of bandwidth tests behind it.
spec fn test_lines(text: Seq<char>, config: ResolvedConfig) -> Seq<char> {
    let text = with_line(text, "bandwidth.provider"@, provider_words(config));
    let text = with_line(text, "bandwidth.provider_id"@, config.bandwidth.provider_id@);
    let text = with_line(
        text,
        "bandwidth.automatic_enabled"@,
        flag_words(config.bandwidth.automatic_enabled),
    );
    let text = with_line(text, "bandwidth.daily_max"@, dec(config.bandwidth.daily_max as nat));
    let text = with_line(text, "bandwidth.min_spacing"@, span_words(config.bandwidth.min_spacing));
    let text = with_line(
        text,
        "bandwidth.slot_jitter_pct"@,
        dec(config.bandwidth.slot_jitter_pct as nat),
    );
    let text = with_line(
        text,
        "bandwidth.whole_test_timeout"@,
        span_words(config.bandwidth.whole_test_timeout),
    );
    let text = with_line(
        text,
        "bandwidth.shutdown_margin"@,
        span_words(config.bandwidth.shutdown_margin),
    );
    text
}

proof fn lemma_first(text: Seq<char>, config: ResolvedConfig)
    ensures
        first_lines(text, config) == text + settings_text(general_settings(config)),
{
    let all = general_settings(config);
    assert(text =~= text + settings_text(all.take(0)));
    let t1 = lemma_next_line(text, text, all, 0);
    let t2 = lemma_next_line(text, t1, all, 1);
    let t3 = lemma_next_line(text, t2, all, 2);
    let t4 = lemma_next_line(text, t3, all, 3);
    let t5 = lemma_next_line(text, t4, all, 4);
    let t6 = lemma_next_line(text, t5, all, 5);
    let t7 = lemma_next_line(text, t6, all, 6);
    let t8 = lemma_next_line(text, t7, all, 7);
    let t9 = lemma_next_line(text, t8, all, 8);
    let t10 = lemma_next_line(text, t9, all, 9);
    assert(all.take(10) =~= all);
}

proof fn lemma_tests(text: Seq<char>, config: ResolvedConfig)
    ensures
        test_lines(text, config) == text + settings_text(bandwidth_settings(config)),
{
    let all = bandwidth_settings(config);
    assert(text =~= text + settings_text(all.take(0)));
    let t1 = lemma_next_line(text, text, all, 0);
    let t2 = lemma_next_line(text, t1, all, 1);
    let t3 = lemma_next_line(text, t2, all, 2);
    let t4 = lemma_next_line(text, t3, all, 3);
    let t5 = lemma_next_line(text, t4, all, 4);
    let t6 = lemma_next_line(text, t5, all, 5);
    let t7 = lemma_next_line(text, t6, all, 6);
    let t8 = lemma_next_line(text, t7, all, 7);
    assert(all.take(8) =~= all);
}

proof fn lemma_values(config: ResolvedConfig)
    ensures
        command_text(config.command) == command_words(config.command),
        console_text(config.console) == console_words(config.console),
        verbosity_text(config.verbosity) == verbosity_words(config.verbosity),
        interfaces_text(config) == interface_list(config),
        output_text(config.output) == output_words(config.output),
        targets_text(config.ping.targets@) == target_list(config),
        provider_text(config.bandwidth.provider) == provider_words(config),
        forall|flag: bool| #[trigger] flag_text(flag) == flag_words(flag),
        forall|span: Duration| #[trigger] span.text_spec() == span_words(span),
{
}

proof fn lemma_general_is_both(text: Seq<char>, config: ResolvedConfig)
    ensures
        general_lines(text, config) == test_lines(first_lines(text, config), config),
{
    lemma_values(config);
}

proof fn lemma_general(text: Seq<char>, config: ResolvedConfig)
    ensures
        general_lines(text, config) == text + settings_text(
            general_settings(config) + bandwidth_settings(config),
        ),
{
    let first = first_lines(text, config);
    lemma_first(text, config);
    lemma_tests(first, config);
    lemma_settings_join(general_settings(config), bandwidth_settings(config));
    lemma_values(config);
    lemma_general_is_both(text, config);
    assert(test_lines(first, config) =~= text + settings_text(
        general_settings(config) + bandwidth_settings(config),
    ));
}

proof fn lemma_trigger(text: Seq<char>, config: ResolvedConfig, texts: ThresholdTexts)
    ensures
        trigger_lines(text, config, texts) == text + settings_text(trigger_settings(config, texts)),
{
    let all = trigger_settings(config, texts);
    assert(text =~= text + settings_text(all.take(0)));
    let t1 = lemma_next_line(text, text, all, 0);
    let t2 = lemma_next_line(text, t1, all, 1);
    let t3 = lemma_next_line(text, t2, all, 2);
    let t4 = lemma_next_line(text, t3, all, 3);
    let t5 = lemma_next_line(text, t4, all, 4);
    let t6 = lemma_next_line(text, t5, all, 5);
    let t7 = lemma_next_line(text, t6, all, 6);
    let t8 = lemma_next_line(text, t7, all, 7);
    let t9 = lemma_next_line(text, t8, all, 8);
    assert(all.take(9) =~= all);
}

proof fn lemma_mlab(text: Seq<char>, config: ResolvedConfig)
    ensures
        mlab_lines(text, config.bandwidth.provider->Mlab_0) == text + settings_text(
            mlab_settings(config),
        ),
{
    let all = mlab_settings(config);
    assert(text =~= text + settings_text(all.take(0)));
    let t1 = lemma_next_line(text, text, all, 0);
    let t2 = lemma_next_line(text, t1, all, 1);
    let t3 = lemma_next_line(text, t2, all, 2);
    let t4 = lemma_next_line(text, t3, all, 3);
    assert(all.take(4) =~= all);
}

proof fn lemma_direct(text: Seq<char>, config: ResolvedConfig)
    ensures
        direct_lines(text, config.bandwidth.provider->Direct_0) == text + settings_text(
            direct_settings(config),
        ),
{
    let all = direct_settings(config);
    assert(text =~= text + settings_text(all.take(0)));
    let t1 = lemma_next_line(text, text, all, 0);
    let t2 = lemma_next_line(text, t1, all, 1);
    let t3 = lemma_next_line(text, t2, all, 2);
    let t4 = lemma_next_line(text, t3, all, 3);
    let t5 = lemma_next_line(text, t4, all, 4);
    let t6 = lemma_next_line(text, t5, all, 5);
    assert(all.take(6) =~= all);
}

/// The summary gives every setting its line, in order, each with the value that is configured.
pub proof fn law_summary_gives_every_setting(
    config: ResolvedConfig,
    texts: ThresholdTexts,
    text: String,
)
    requires
        call_ensures(ResolvedConfig::summary, (&config, &texts), text),
    ensures
        config.bandwidth.provider is Mlab ==> text@ == settings_text(
            general_settings(config) + bandwidth_settings(config) + trigger_settings(config, texts)
                + mlab_settings(config),
        ),
        config.bandwidth.provider is Direct ==> text@ == settings_text(
            general_settings(config) + bandwidth_settings(config) + trigger_settings(config, texts)
                + direct_settings(config),
        ),
{
    let general = general_settings(config) + bandwidth_settings(config);
    let trigger = trigger_settings(config, texts);
    lemma_general(Seq::empty(), config);
    let first = general_lines(Seq::empty(), config);
    assert(first =~= settings_text(general));
    lemma_trigger(first, config, texts);
    let second = trigger_lines(first, config, texts);
    lemma_settings_join(general, trigger);
    if config.bandwidth.provider is Mlab {
        lemma_mlab(second, config);
        lemma_settings_join(general + trigger, mlab_settings(config));
    } else {
        lemma_direct(second, config);
        lemma_settings_join(general + trigger, direct_settings(config));
    }
}

} // verus!
