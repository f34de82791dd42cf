//! The words that an event's values are written in.
use crate::model::{
    ErrorKind, EventKind, LoadPhase, Outcome, ProviderKind, RequestStage, TriggerReason,
};
use crate::names::{
    error_kind_name, event_kind_name, outcome_name, phase_name, provider_name, stage_name,
    trigger_name,
};
use vstd::prelude::*;

verus! {

/// Each kind of event is written by its name.
pub proof fn law_kinds_are_written_by_name(value: EventKind, name: &'static str)
    requires
        call_ensures(event_kind_name, (value,), name),
    ensures
        value == EventKind::RunStarted ==> name@ == "run_started"@,
        value == EventKind::RunFinished ==> name@ == "run_finished"@,
        value == EventKind::PingProbe ==> name@ == "ping_probe"@,
        value == EventKind::Bandwidth ==> name@ == "bandwidth"@,
        value == EventKind::RequestFailure ==> name@ == "request_failure"@,
        value == EventKind::Scheduler ==> name@ == "scheduler"@,
{
}

/// Each outcome is written by its name.
pub proof fn law_outcomes_are_written_by_name(value: Outcome, name: &'static str)
    requires
        call_ensures(outcome_name, (value,), name),
    ensures
        value == Outcome::Started ==> name@ == "started"@,
        value == Outcome::Success ==> name@ == "success"@,
        value == Outcome::Partial ==> name@ == "partial"@,
        value == Outcome::Timeout ==> name@ == "timeout"@,
        value == Outcome::Unreachable ==> name@ == "unreachable"@,
        value == Outcome::PermissionDenied ==> name@ == "permission_denied"@,
        value == Outcome::Cancelled ==> name@ == "cancelled"@,
        value == Outcome::Error ==> name@ == "error"@,
        value == Outcome::NoCapacity ==> name@ == "no_capacity"@,
        value == Outcome::RateLimited ==> name@ == "rate_limited"@,
        value == Outcome::Scheduled ==> name@ == "scheduled"@,
        value == Outcome::Rescheduled ==> name@ == "rescheduled"@,
        value == Outcome::Deferred ==> name@ == "deferred"@,
        value == Outcome::Suppressed ==> name@ == "suppressed"@,
        value == Outcome::Expired ==> name@ == "expired"@,
{
}

/// Each reason for a test is written by its name.
pub proof fn law_triggers_are_written_by_name(value: TriggerReason, name: &'static str)
    requires
        call_ensures(trigger_name, (value,), name),
    ensures
        value == TriggerReason::Scheduled ==> name@ == "scheduled"@,
        value == TriggerReason::PingLoss ==> name@ == "ping_loss"@,
        value == TriggerReason::PingRtt ==> name@ == "ping_rtt"@,
        value == TriggerReason::Manual ==> name@ == "manual"@,
{
}

/// Each phase of a test is written by its name.
pub proof fn law_phases_are_written_by_name(value: LoadPhase, name: &'static str)
    requires
        call_ensures(phase_name, (value,), name),
    ensures
        value == LoadPhase::Setup ==> name@ == "setup"@,
        value == LoadPhase::Download ==> name@ == "download"@,
        value == LoadPhase::Upload ==> name@ == "upload"@,
{
}

/// Each kind of provider is written by its name.
pub proof fn law_providers_are_written_by_name(value: ProviderKind, name: &'static str)
    requires
        call_ensures(provider_name, (value,), name),
    ensures
        value == ProviderKind::Mlab ==> name@ == "mlab"@,
        value == ProviderKind::Direct ==> name@ == "direct"@,
{
}

/// Each stage of a request is written by its name.
pub proof fn law_stages_are_written_by_name(value: RequestStage, name: &'static str)
    requires
        call_ensures(stage_name, (value,), name),
    ensures
        value == RequestStage::Locate ==> name@ == "locate"@,
        value == RequestStage::Dns ==> name@ == "dns"@,
        value == RequestStage::Connect ==> name@ == "connect"@,
        value == RequestStage::Tls ==> name@ == "tls"@,
        value == RequestStage::WebsocketHandshake ==> name@ == "websocket_handshake"@,
        value == RequestStage::Download ==> name@ == "download"@,
        value == RequestStage::Upload ==> name@ == "upload"@,
{
}

/// Each kind of error is written by its name.
pub proof fn law_errors_are_written_by_name(value: ErrorKind, name: &'static str)
    requires
        call_ensures(error_kind_name, (value,), name),
    ensures
        value == ErrorKind::IcmpTimeout ==> name@ == "icmp_timeout"@,
        value == ErrorKind::IcmpUnreachable ==> name@ == "icmp_unreachable"@,
        value == ErrorKind::PermissionDenied ==> name@ == "permission_denied"@,
        value == ErrorKind::Dns ==> name@ == "dns"@,
        value == ErrorKind::Connect ==> name@ == "connect"@,
        value == ErrorKind::Tls ==> name@ == "tls"@,
        value == ErrorKind::HttpStatus ==> name@ == "http_status"@,
        value == ErrorKind::WebsocketHandshake ==> name@ == "websocket_handshake"@,
        value == ErrorKind::DownloadFailed ==> name@ == "download_failed"@,
        value == ErrorKind::UploadFailed ==> name@ == "upload_failed"@,
        value == ErrorKind::ProviderCooldown ==> name@ == "provider_cooldown"@,
        value == ErrorKind::DailyCap ==> name@ == "daily_cap"@,
        value == ErrorKind::Cancelled ==> name@ == "cancelled"@,
        value == ErrorKind::Timeout ==> name@ == "timeout"@,
        value == ErrorKind::Io ==> name@ == "io"@,
        value == ErrorKind::Protocol ==> name@ == "protocol"@,
        value == ErrorKind::Internal ==> name@ == "internal"@,
{
}

} // verus!
