//! How bandwidth tests are to run.
use super::direct::{
    DirectSettings, direct_provider_id, direct_settings, http_url_fault, parse_http_url,
    provider_name, resolve_direct,
};
use super::{
    BandwidthConfig, ConfigError, CooldownConfig, FileBandwidth, MlabConfig, ProviderConfig,
    ResolveContext, TriggerConfig, count_fault, error, first_of, optional_positive_f64,
    parse_duration, percentage, positive_u32, setting, setting_of, share_fault, span, text_of,
    text_setting, threshold_fault,
};
use crate::cli::{Options, ProviderKind};
use crate::endpoint::parsed_url;
use crate::scalar::{FIFTY_KEY, Scalar, TEN_KEY};
use crate::text::{dec, decimal, text_view};
use crate::time::{Duration, MAX_DURATION_NANOS};
use vstd::prelude::*;
use vstd::string::StringExecFns;

verus! {

/// The settings for bandwidth tests: the command line, and the file behind it.
pub struct BandwidthSettings<'a> {
    pub options: &'a Options,
    pub file: &'a FileBandwidth,
}

impl<'a> BandwidthSettings<'a> {
    pub open spec fn kind(self) -> ProviderKind {
        setting(self.options.ndt_provider, self.file.provider, ProviderKind::Mlab)
    }

    pub open spec fn daily_max(self) -> u32 {
        setting(self.options.bandwidth_daily_max, self.file.daily_max, 4)
    }

    pub open spec fn min_spacing_text(self) -> Seq<char> {
        text_setting(self.options.bandwidth_min_spacing, self.file.min_spacing, "36m"@)
    }

    pub open spec fn min_spacing(self) -> Result<Duration, Seq<char>> {
        span("bandwidth minimum spacing"@, self.min_spacing_text())
    }

    pub open spec fn slot_jitter_pct(self) -> u8 {
        setting(self.options.bandwidth_slot_jitter_pct, self.file.slot_jitter_pct, 50)
    }

    pub open spec fn timeout_text(self) -> Seq<char> {
        text_setting(self.options.bandwidth_timeout, self.file.whole_test_timeout, "55s"@)
    }

    pub open spec fn whole_test_timeout(self) -> Result<Duration, Seq<char>> {
        span("bandwidth timeout"@, self.timeout_text())
    }

    pub open spec fn margin_text(self) -> Seq<char> {
        text_setting(self.options.bandwidth_shutdown_margin, self.file.shutdown_margin, "15s"@)
    }

    pub open spec fn shutdown_margin(self) -> Result<Duration, Seq<char>> {
        span("bandwidth shutdown margin"@, self.margin_text())
    }

    pub open spec fn window_rounds(self) -> u32 {
        setting(self.options.loss_window_rounds, self.file.trigger.window_rounds, 6)
    }

    pub open spec fn min_samples(self) -> u32 {
        setting(self.options.loss_min_samples, self.file.trigger.min_samples, 6)
    }

    pub open spec fn loss_threshold_pct(self) -> Scalar {
        setting(
            self.options.loss_threshold_pct,
            self.file.trigger.loss_threshold_pct,
            Scalar { key: FIFTY_KEY },
        )
    }

    pub open spec fn rtt_threshold_ms(self) -> Option<Scalar> {
        first_of(self.options.rtt_threshold_ms, self.file.trigger.rtt_threshold_ms)
    }

    pub open spec fn recovery_loss_pct(self) -> Scalar {
        setting(
            self.options.recovery_loss_pct,
            self.file.trigger.recovery_loss_pct,
            Scalar { key: TEN_KEY },
        )
    }

    pub open spec fn recovery_rounds(self) -> u32 {
        setting(self.options.recovery_rounds, self.file.trigger.recovery_rounds, 3)
    }

    pub open spec fn ttl_text(self) -> Seq<char> {
        text_setting(self.options.pending_trigger_ttl, self.file.trigger.pending_ttl, "30m"@)
    }

    pub open spec fn pending_ttl(self) -> Result<Duration, Seq<char>> {
        span("pending trigger lifetime"@, self.ttl_text())
    }

    pub open spec fn initial_text(self) -> Seq<char> {
        text_setting(self.options.cooldown_initial, self.file.cooldown.initial, "60s"@)
    }

    pub open spec fn cooldown_initial(self) -> Result<Duration, Seq<char>> {
        span("initial cooldown"@, self.initial_text())
    }

    pub open spec fn maximum_text(self) -> Seq<char> {
        text_setting(self.options.cooldown_max, self.file.cooldown.max, "16m"@)
    }

    pub open spec fn cooldown_max(self) -> Result<Duration, Seq<char>> {
        span("maximum cooldown"@, self.maximum_text())
    }

    /// What is wrong with the limits on tests.
    pub open spec fn limit_fault(self) -> Option<Seq<char>> {
        if self.min_spacing() is Err {
            Some(self.min_spacing()->Err_0)
        } else if self.slot_jitter_pct() > 100 {
            Some("bandwidth slot jitter must be between 0 and 100 percent"@)
        } else if self.whole_test_timeout() is Err {
            Some(self.whole_test_timeout()->Err_0)
        } else if self.shutdown_margin() is Err {
            Some(self.shutdown_margin()->Err_0)
        } else {
            None
        }
    }

    /// What is wrong with the settings for triggers.
    pub open spec fn trigger_fault(self) -> Option<Seq<char>> {
        if count_fault("loss window rounds"@, self.window_rounds()) is Some {
            count_fault("loss window rounds"@, self.window_rounds())
        } else if count_fault("loss minimum samples"@, self.min_samples()) is Some {
            count_fault("loss minimum samples"@, self.min_samples())
        } else if share_fault("loss threshold"@, self.loss_threshold_pct()) is Some {
            share_fault("loss threshold"@, self.loss_threshold_pct())
        } else if threshold_fault("RTT threshold"@, self.rtt_threshold_ms()) is Some {
            threshold_fault("RTT threshold"@, self.rtt_threshold_ms())
        } else if share_fault("recovery loss threshold"@, self.recovery_loss_pct()) is Some {
            share_fault("recovery loss threshold"@, self.recovery_loss_pct())
        } else if count_fault("recovery rounds"@, self.recovery_rounds()) is Some {
            count_fault("recovery rounds"@, self.recovery_rounds())
        } else if self.pending_ttl() is Err {
            Some(self.pending_ttl()->Err_0)
        } else if self.recovery_loss_pct().at_least(self.loss_threshold_pct()) {
            Some("recovery loss threshold must be below the trigger loss threshold"@)
        } else {
            None
        }
    }

    /// What is wrong with the settings for cooldowns.
    pub open spec fn cooldown_fault(self) -> Option<Seq<char>> {
        if self.cooldown_initial() is Err {
            Some(self.cooldown_initial()->Err_0)
        } else if self.cooldown_max() is Err {
            Some(self.cooldown_max()->Err_0)
        } else if self.cooldown_initial()->Ok_0.nanos > self.cooldown_max()->Ok_0.nanos {
            Some("initial cooldown cannot exceed maximum cooldown"@)
        } else {
            None
        }
    }

    /// A setting is given that only direct providers have.
    pub open spec fn names_direct(self) -> bool {
        let o = self.options;
        let f = self.file.direct;
        ||| o.ndt_target is Some
        ||| o.ndt_download_url is Some
        ||| o.ndt_upload_url is Some
        ||| o.ndt_tls_server_name is Some
        ||| o.ndt_ca_cert is Some
        ||| o.allow_insecure_ndt
        ||| f.target is Some
        ||| f.download_url is Some
        ||| f.upload_url is Some
        ||| f.tls_server_name is Some
        ||| f.ca_cert is Some
        ||| f.allow_insecure == Some(true)
    }

    pub open spec fn locate_override(self) -> Option<String> {
        first_of(self.options.mlab_locate_url, self.file.mlab.locate_url)
    }

    pub open spec fn locate_url(self) -> Seq<char> {
        match self.locate_override() {
            Some(url) => url@,
            None => "https://locate.measurementlab.net/v2/nearest/ndt/ndt7"@,
        }
    }

    pub open spec fn policy_accepted(self) -> bool {
        self.options.accept_mlab_policy || self.file.accept_mlab_policy == Some(true)
    }

    /// What is wrong with the settings for M-Lab.
    pub open spec fn mlab_fault(self) -> Option<Seq<char>> {
        if self.names_direct() {
            Some("direct NDT options require --ndt-provider direct"@)
        } else if self.daily_max() > 4 {
            Some("M-Lab permits at most 4 bandwidth runs per UTC day"@)
        } else if self.min_spacing()->Ok_0.nanos < 2_160_000_000_000 {
            Some("M-Lab bandwidth minimum spacing must be at least 36m"@)
        } else {
            http_url_fault("M-Lab Locate URL"@, parsed_url(self.locate_url()))
        }
    }

    pub open spec fn direct(self) -> DirectSettings {
        direct_settings(*self.options, self.file.direct)
    }

    /// The shortest spacing that a whole test and its end fit into.
    pub open spec fn direct_minimum(self) -> Duration {
        let whole = self.whole_test_timeout()->Ok_0.nanos + self.shutdown_margin()->Ok_0.nanos;
        if whole > 60_000_000_000 {
            Duration { nanos: whole as u128 }
        } else {
            Duration { nanos: 60_000_000_000 }
        }
    }

    /// What is wrong with the settings for a direct provider.
    pub open spec fn direct_fault(self) -> Option<Seq<char>> {
        if self.locate_override() is Some {
            Some("M-Lab Locate URL does not apply to the direct provider"@)
        } else if self.policy_accepted() {
            Some("M-Lab policy acknowledgement does not apply to direct provider"@)
        } else if self.direct().fault() is Some {
            self.direct().fault()
        } else if self.whole_test_timeout()->Ok_0.nanos + self.shutdown_margin()->Ok_0.nanos
            > MAX_DURATION_NANOS {
            Some("bandwidth timeout plus shutdown margin is too large"@)
        } else if self.min_spacing()->Ok_0.nanos < self.direct_minimum().nanos {
            Some(
                "direct bandwidth minimum spacing must be at least "@
                    + self.direct_minimum().text_spec(),
            )
        } else if self.daily_max() > 86_400u64 / self.min_spacing()->Ok_0.secs_capped() {
            Some(
                "daily maximum "@ + dec(self.daily_max() as nat) + " cannot fit in 24h with "@
                    + self.min_spacing()->Ok_0.text_spec() + " minimum spacing"@,
            )
        } else {
            None
        }
    }

    /// The first thing that is wrong with the settings.
    pub open spec fn fault(self) -> Option<Seq<char>> {
        if self.limit_fault() is Some {
            self.limit_fault()
        } else if self.trigger_fault() is Some {
            self.trigger_fault()
        } else if self.cooldown_fault() is Some {
            self.cooldown_fault()
        } else {
            match self.kind() {
                ProviderKind::Mlab => self.mlab_fault(),
                ProviderKind::Direct => self.direct_fault(),
            }
        }
    }

    /// The trigger settings are these.
    pub open spec fn trigger(self) -> TriggerConfig {
        TriggerConfig {
            window_rounds: self.window_rounds(),
            min_samples: self.min_samples(),
            loss_threshold_pct: self.loss_threshold_pct(),
            rtt_threshold_ms: self.rtt_threshold_ms(),
            recovery_loss_pct: self.recovery_loss_pct(),
            recovery_rounds: self.recovery_rounds(),
            pending_ttl: self.pending_ttl()->Ok_0,
        }
    }

    /// The configuration that the settings describe.
    pub open spec fn describes(self, directory: Seq<char>, config: BandwidthConfig) -> bool {
        &&& config.daily_max == self.daily_max()
        &&& config.min_spacing == self.min_spacing()->Ok_0
        &&& config.slot_jitter_pct == self.slot_jitter_pct()
        &&& config.whole_test_timeout == self.whole_test_timeout()->Ok_0
        &&& config.shutdown_margin == self.shutdown_margin()->Ok_0
        &&& config.trigger == self.trigger()
        &&& config.cooldown == (CooldownConfig {
            initial: self.cooldown_initial()->Ok_0,
            max: self.cooldown_max()->Ok_0,
        })
        &&& !config.force_limits
        &&& config.automatic_enabled == (self.daily_max() > 0 && !self.options.no_bandwidth && (
        self.kind() == ProviderKind::Direct || self.policy_accepted()))
        &&& match (self.kind(), config.provider) {
            (ProviderKind::Mlab, ProviderConfig::Mlab(mlab)) => {
                &&& config.provider_id@ == "mlab"@
                &&& parsed_url(self.locate_url()) == Some(mlab.locate_url@)
                &&& mlab.policy_accepted == self.policy_accepted()
            },
            (ProviderKind::Direct, ProviderConfig::Direct(direct)) => {
                &&& self.direct().describes(directory, direct)
                &&& config.provider_id@ == provider_name(
                    direct.download_url@,
                    direct.upload_url@,
                    text_view(direct.tls_server_name),
                )
            },
            _ => false,
        }
    }

    fn resolve_trigger(&self) -> (trigger: Result<TriggerConfig, ConfigError>)
        ensures
            match trigger {
                Ok(trigger) => self.trigger_fault() is None && trigger == self.trigger(),
                Err(error) => self.trigger_fault() == Some(error.message@),
            },
    {
        let options = self.options;
        let file = &self.file.trigger;
        let window_rounds: u32 = match positive_u32(
            "loss window rounds",
            setting_of(options.loss_window_rounds, file.window_rounds, 6),
        ) {
            Ok(value) => value,
            Err(error) => {
                return Err(error);
            },
        };
        let min_samples: u32 = match positive_u32(
            "loss minimum samples",
            setting_of(options.loss_min_samples, file.min_samples, 6),
        ) {
            Ok(value) => value,
            Err(error) => {
                return Err(error);
            },
        };
        let loss_threshold_pct = match percentage(
            "loss threshold",
            setting_of(
                options.loss_threshold_pct,
                file.loss_threshold_pct,
                Scalar { key: FIFTY_KEY },
            ),
        ) {
            Ok(value) => value,
            Err(error) => {
                return Err(error);
            },
        };
        let rtt_given = match options.rtt_threshold_ms {
            Some(value) => Some(value),
            None => file.rtt_threshold_ms,
        };
        let rtt_threshold_ms = match optional_positive_f64("RTT threshold", rtt_given) {
            Ok(value) => value,
            Err(error) => {
                return Err(error);
            },
        };
        let recovery_loss_pct = match percentage(
            "recovery loss threshold",
            setting_of(options.recovery_loss_pct, file.recovery_loss_pct, Scalar { key: TEN_KEY }),
        ) {
            Ok(value) => value,
            Err(error) => {
                return Err(error);
            },
        };
        let recovery_rounds: u32 = match positive_u32(
            "recovery rounds",
            setting_of(options.recovery_rounds, file.recovery_rounds, 3),
        ) {
            Ok(value) => value,
            Err(error) => {
                return Err(error);
            },
        };
        let pending_ttl = match parse_duration(
            "pending trigger lifetime",
            text_of(&options.pending_trigger_ttl, &file.pending_ttl, "30m"),
        ) {
            Ok(value) => value,
            Err(error) => {
                return Err(error);
            },
        };
        if recovery_loss_pct.is_at_least(loss_threshold_pct) {
            return Err(
                error("recovery loss threshold must be below the trigger loss threshold"),
            );
        }
        Ok(
            TriggerConfig {
                window_rounds,
                min_samples,
                loss_threshold_pct,
                rtt_threshold_ms,
                recovery_loss_pct,
                recovery_rounds,
                pending_ttl,
            },
        )
    }

    fn resolve_cooldown(&self) -> (cooldown: Result<CooldownConfig, ConfigError>)
        ensures
            match cooldown {
                Ok(cooldown) => {
                    &&& self.cooldown_fault() is None
                    &&& cooldown.initial == self.cooldown_initial()->Ok_0
                    &&& cooldown.max == self.cooldown_max()->Ok_0
                },
                Err(error) => self.cooldown_fault() == Some(error.message@),
            },
    {
        let file = &self.file.cooldown;
        let initial = match parse_duration(
            "initial cooldown",
            text_of(&self.options.cooldown_initial, &file.initial, "60s"),
        ) {
            Ok(value) => value,
            Err(error) => {
                return Err(error);
            },
        };
        let max = match parse_duration(
            "maximum cooldown",
            text_of(&self.options.cooldown_max, &file.max, "16m"),
        ) {
            Ok(value) => value,
            Err(error) => {
                return Err(error);
            },
        };
        if initial.nanos > max.nanos {
            return Err(error("initial cooldown cannot exceed maximum cooldown"));
        }
        Ok(CooldownConfig { initial, max })
    }

    fn accepts_policy(&self) -> (accepted: bool)
        ensures
            accepted == self.policy_accepted(),
    {
        self.options.accept_mlab_policy || match self.file.accept_mlab_policy {
            Some(accepted) => accepted,
            None => false,
        }
    }

    fn has_direct_options(&self) -> (given: bool)
        ensures
            given == self.names_direct(),
    {
        let o = self.options;
        let f = &self.file.direct;
        o.ndt_target.is_some() || o.ndt_download_url.is_some() || o.ndt_upload_url.is_some()
            || o.ndt_tls_server_name.is_some() || o.ndt_ca_cert.is_some() || o.allow_insecure_ndt
            || f.target.is_some() || f.download_url.is_some() || f.upload_url.is_some()
            || f.tls_server_name.is_some() || f.ca_cert.is_some() || match f.allow_insecure {
            Some(allowed) => allowed,
            None => false,
        }
    }

    fn resolve_mlab(&self, daily_max: u32, min_spacing: Duration) -> (config: Result<
        MlabConfig,
        ConfigError,
    >)
        requires
            daily_max == self.daily_max(),
            self.min_spacing() == Ok::<Duration, Seq<char>>(min_spacing),
        ensures
            match config {
                Ok(mlab) => {
                    &&& self.mlab_fault() is None
                    &&& parsed_url(self.locate_url()) == Some(mlab.locate_url@)
                    &&& mlab.policy_accepted == self.policy_accepted()
                },
                Err(error) => self.mlab_fault() == Some(error.message@),
            },
    {
        if self.has_direct_options() {
            return Err(error("direct NDT options require --ndt-provider direct"));
        }
        if daily_max > 4 {
            return Err(error("M-Lab permits at most 4 bandwidth runs per UTC day"));
        }
        if min_spacing.nanos < 2_160_000_000_000 {
            return Err(error("M-Lab bandwidth minimum spacing must be at least 36m"));
        }
        let address = text_of(
            &self.options.mlab_locate_url,
            &self.file.mlab.locate_url,
            "https://locate.measurementlab.net/v2/nearest/ndt/ndt7",
        );
        let locate_url = match parse_http_url("M-Lab Locate URL", address) {
            Ok(url) => url,
            Err(error) => {
                return Err(error);
            },
        };
        Ok(MlabConfig { locate_url, policy_accepted: self.accepts_policy() })
    }

    fn resolve_direct_provider(
        &self,
        context: &ResolveContext,
        daily_max: u32,
        min_spacing: Duration,
        whole_test_timeout: Duration,
        shutdown_margin: Duration,
    ) -> (config: Result<super::DirectConfig, ConfigError>)
        requires
            daily_max == self.daily_max(),
            self.min_spacing() == Ok::<Duration, Seq<char>>(min_spacing),
            self.whole_test_timeout() == Ok::<Duration, Seq<char>>(whole_test_timeout),
            self.shutdown_margin() == Ok::<Duration, Seq<char>>(shutdown_margin),
            min_spacing.nanos <= MAX_DURATION_NANOS,
            whole_test_timeout.nanos <= MAX_DURATION_NANOS,
            shutdown_margin.nanos <= MAX_DURATION_NANOS,
        ensures
            match config {
                Ok(direct) => {
                    &&& self.direct_fault() is None
                    &&& self.direct().describes(context.current_dir@, direct)
                },
                Err(error) => self.direct_fault() == Some(error.message@),
            },
    {
        if self.options.mlab_locate_url.is_some() || self.file.mlab.locate_url.is_some() {
            return Err(error("M-Lab Locate URL does not apply to the direct provider"));
        }
        if self.accepts_policy() {
            return Err(error("M-Lab policy acknowledgement does not apply to direct provider"));
        }
        let direct = match resolve_direct(self.options, &self.file.direct, context) {
            Ok(direct) => direct,
            Err(error) => {
                return Err(error);
            },
        };
        let whole: u128 = whole_test_timeout.nanos + shutdown_margin.nanos;
        if whole > MAX_DURATION_NANOS {
            return Err(error("bandwidth timeout plus shutdown margin is too large"));
        }
        let minimum = if whole > 60_000_000_000 {
            Duration { nanos: whole }
        } else {
            Duration { nanos: 60_000_000_000 }
        };
        if min_spacing.nanos < minimum.nanos {
            return Err(
                ConfigError {
                    message: "direct bandwidth minimum spacing must be at least ".to_owned().concat(
                        &minimum.text(),
                    ),
                },
            );
        }
        let capacity: u64 = 86_400 / min_spacing.as_secs();
        if daily_max as u64 > capacity {
            return Err(
                ConfigError {
                    message: "daily maximum ".to_owned().concat(
                        &decimal(daily_max as u128),
                    ).concat(" cannot fit in 24h with ").concat(&min_spacing.text()).concat(
                        " minimum spacing",
                    ),
                },
            );
        }
        Ok(direct)
    }

    /// Checks the settings and makes the configuration of them.
    pub fn resolve(&self, context: &ResolveContext) -> (config: Result<BandwidthConfig, ConfigError>)
        ensures
            match config {
                Ok(config) => self.fault() is None && self.describes(
                    context.current_dir@,
                    config,
                ),
                Err(error) => self.fault() == Some(error.message@),
            },
    {
        let kind = setting_of(self.options.ndt_provider, self.file.provider, ProviderKind::Mlab);
        let daily_max: u32 = setting_of(self.options.bandwidth_daily_max, self.file.daily_max, 4);
        let min_spacing = match parse_duration(
            "bandwidth minimum spacing",
            text_of(&self.options.bandwidth_min_spacing, &self.file.min_spacing, "36m"),
        ) {
            Ok(value) => value,
            Err(error) => {
                return Err(error);
            },
        };
        let slot_jitter_pct: u8 = setting_of(
            self.options.bandwidth_slot_jitter_pct,
            self.file.slot_jitter_pct,
            50,
        );
        if slot_jitter_pct > 100 {
            return Err(error("bandwidth slot jitter must be between 0 and 100 percent"));
        }
        let whole_test_timeout = match parse_duration(
            "bandwidth timeout",
            text_of(&self.options.bandwidth_timeout, &self.file.whole_test_timeout, "55s"),
        ) {
            Ok(value) => value,
            Err(error) => {
                return Err(error);
            },
        };
        let shutdown_margin = match parse_duration(
            "bandwidth shutdown margin",
            text_of(&self.options.bandwidth_shutdown_margin, &self.file.shutdown_margin, "15s"),
        ) {
            Ok(value) => value,
            Err(error) => {
                return Err(error);
            },
        };
        let trigger = match self.resolve_trigger() {
            Ok(trigger) => trigger,
            Err(error) => {
                return Err(error);
            },
        };
        let cooldown = match self.resolve_cooldown() {
            Ok(cooldown) => cooldown,
            Err(error) => {
                return Err(error);
            },
        };
        let wanted: bool = daily_max > 0 && !self.options.no_bandwidth;
        let (provider, provider_id, automatic_enabled) = match kind {
            ProviderKind::Mlab => match self.resolve_mlab(daily_max, min_spacing) {
                Ok(mlab) => {
                    let accepted: bool = mlab.policy_accepted;
                    (ProviderConfig::Mlab(mlab), "mlab".to_owned(), wanted && accepted)
                },
                Err(error) => {
                    return Err(error);
                },
            },
            ProviderKind::Direct => match self.resolve_direct_provider(
                context,
                daily_max,
                min_spacing,
                whole_test_timeout,
                shutdown_margin,
            ) {
                Ok(direct) => {
                    let id = direct_provider_id(&direct);
                    (ProviderConfig::Direct(direct), id, wanted)
                },
                Err(error) => {
                    return Err(error);
                },
            },
        };
        Ok(
            BandwidthConfig {
                provider,
                provider_id,
                automatic_enabled,
                daily_max,
                min_spacing,
                slot_jitter_pct,
                whole_test_timeout,
                shutdown_margin,
                trigger,
                cooldown,
                force_limits: false,
            },
        )
    }
}

/// A configuration for M-Lab keeps to its terms: at most four tests a day, at least thirty-six
/// minutes apart, and none on its own before the policy is accepted.
pub proof fn law_mlab_terms_are_kept(
    settings: BandwidthSettings,
    directory: Seq<char>,
    config: BandwidthConfig,
)
    requires
        settings.fault() is None,
        settings.describes(directory, config),
        config.provider is Mlab,
    ensures
        config.daily_max <= 4,
        config.min_spacing.nanos >= 36 * 60 * 1_000_000_000,
        !config.force_limits,
        config.automatic_enabled ==> config.provider->Mlab_0.policy_accepted,
{
}

/// With a direct provider a whole test and its end fit between two starts, and the tests of a
/// day fit into the day.
pub proof fn law_direct_tests_fit_the_day(
    settings: BandwidthSettings,
    directory: Seq<char>,
    config: BandwidthConfig,
)
    requires
        settings.fault() is None,
        settings.describes(directory, config),
        config.provider is Direct,
    ensures
        config.whole_test_timeout.nanos + config.shutdown_margin.nanos <= config.min_spacing.nanos,
        config.min_spacing.nanos >= 60 * 1_000_000_000,
        config.daily_max * config.min_spacing.secs_capped() <= 86_400,
{
    let most = config.daily_max as int;
    let apart = config.min_spacing.secs_capped() as int;
    assert(most * apart <= 86_400) by (nonlinear_arith)
        requires
            0 <= most <= 86_400int / apart,
            apart > 0,
    ;
}

/// No transfer with a direct provider goes unencrypted without leave.
pub proof fn law_plain_transfers_need_leave(
    settings: BandwidthSettings,
    directory: Seq<char>,
    config: BandwidthConfig,
)
    requires
        settings.fault() is None,
        settings.describes(directory, config),
        config.provider is Direct,
        !config.provider->Direct_0.allow_insecure,
    ensures
        config.provider->Direct_0.download_url@.scheme != "ws"@,
        config.provider->Direct_0.upload_url@.scheme != "ws"@,
{
}

/// Recovery is told apart from trouble, and cooldowns grow within their limits.
pub proof fn law_thresholds_are_in_order(
    settings: BandwidthSettings,
    directory: Seq<char>,
    config: BandwidthConfig,
)
    requires
        settings.fault() is None,
        settings.describes(directory, config),
    ensures
        !config.trigger.recovery_loss_pct.at_least(config.trigger.loss_threshold_pct),
        config.trigger.window_rounds > 0,
        config.trigger.min_samples > 0,
        config.trigger.recovery_rounds > 0,
        config.cooldown.initial.nanos <= config.cooldown.max.nanos,
        config.slot_jitter_pct <= 100,
{
}

} // verus!
