//! How the values of an event are written.
use crate::model::{
    ErrorKind, EventKind, LoadPhase, Outcome, ProviderKind, RequestStage, TriggerReason,
};
use vstd::prelude::*;

verus! {

/// What an event records, as it is written.
pub open spec fn event_kind_text(value: EventKind) -> Seq<char> {
    match value {
        EventKind::RunStarted => "run_started"@,
        EventKind::RunFinished => "run_finished"@,
        EventKind::PingProbe => "ping_probe"@,
        EventKind::Bandwidth => "bandwidth"@,
        EventKind::RequestFailure => "request_failure"@,
        EventKind::Scheduler => "scheduler"@,
    }
}

pub fn event_kind_name(value: EventKind) -> (name: &'static str)
    ensures
        name@ == event_kind_text(value),
{
    match value {
        EventKind::RunStarted => "run_started",
        EventKind::RunFinished => "run_finished",
        EventKind::PingProbe => "ping_probe",
        EventKind::Bandwidth => "bandwidth",
        EventKind::RequestFailure => "request_failure",
        EventKind::Scheduler => "scheduler",
    }
}

/// How the recorded work ended, as it is written.
pub open spec fn outcome_text(value: Outcome) -> Seq<char> {
    match value {
        Outcome::Started => "started"@,
        Outcome::Success => "success"@,
        Outcome::Partial => "partial"@,
        Outcome::Timeout => "timeout"@,
        Outcome::Unreachable => "unreachable"@,
        Outcome::PermissionDenied => "permission_denied"@,
        Outcome::Cancelled => "cancelled"@,
        Outcome::Error => "error"@,
        Outcome::NoCapacity => "no_capacity"@,
        Outcome::RateLimited => "rate_limited"@,
        Outcome::Scheduled => "scheduled"@,
        Outcome::Rescheduled => "rescheduled"@,
        Outcome::Deferred => "deferred"@,
        Outcome::Suppressed => "suppressed"@,
        Outcome::Expired => "expired"@,
    }
}

pub fn outcome_name(value: Outcome) -> (name: &'static str)
    ensures
        name@ == outcome_text(value),
{
    match value {
        Outcome::Started => "started",
        Outcome::Success => "success",
        Outcome::Partial => "partial",
        Outcome::Timeout => "timeout",
        Outcome::Unreachable => "unreachable",
        Outcome::PermissionDenied => "permission_denied",
        Outcome::Cancelled => "cancelled",
        Outcome::Error => "error",
        Outcome::NoCapacity => "no_capacity",
        Outcome::RateLimited => "rate_limited",
        Outcome::Scheduled => "scheduled",
        Outcome::Rescheduled => "rescheduled",
        Outcome::Deferred => "deferred",
        Outcome::Suppressed => "suppressed",
        Outcome::Expired => "expired",
    }
}

/// Why a bandwidth test was asked for, as it is written.
pub open spec fn trigger_text(value: TriggerReason) -> Seq<char> {
    match value {
        TriggerReason::Scheduled => "scheduled"@,
        TriggerReason::PingLoss => "ping_loss"@,
        TriggerReason::PingRtt => "ping_rtt"@,
        TriggerReason::Manual => "manual"@,
    }
}

pub fn trigger_name(value: TriggerReason) -> (name: &'static str)
    ensures
        name@ == trigger_text(value),
{
    match value {
        TriggerReason::Scheduled => "scheduled",
        TriggerReason::PingLoss => "ping_loss",
        TriggerReason::PingRtt => "ping_rtt",
        TriggerReason::Manual => "manual",
    }
}

/// The bandwidth phase that was active, as it is written.
pub open spec fn phase_text(value: LoadPhase) -> Seq<char> {
    match value {
        LoadPhase::Setup => "setup"@,
        LoadPhase::Download => "download"@,
        LoadPhase::Upload => "upload"@,
    }
}

pub fn phase_name(value: LoadPhase) -> (name: &'static str)
    ensures
        name@ == phase_text(value),
{
    match value {
        LoadPhase::Setup => "setup",
        LoadPhase::Download => "download",
        LoadPhase::Upload => "upload",
    }
}

/// The kind of bandwidth provider, as it is written.
pub open spec fn provider_text(value: ProviderKind) -> Seq<char> {
    match value {
        ProviderKind::Mlab => "mlab"@,
        ProviderKind::Direct => "direct"@,
    }
}

pub fn provider_name(value: ProviderKind) -> (name: &'static str)
    ensures
        name@ == provider_text(value),
{
    match value {
        ProviderKind::Mlab => "mlab",
        ProviderKind::Direct => "direct",
    }
}

/// How far a request had come, as it is written.
pub open spec fn stage_text(value: RequestStage) -> Seq<char> {
    match value {
        RequestStage::Locate => "locate"@,
        RequestStage::Dns => "dns"@,
        RequestStage::Connect => "connect"@,
        RequestStage::Tls => "tls"@,
        RequestStage::WebsocketHandshake => "websocket_handshake"@,
        RequestStage::Download => "download"@,
        RequestStage::Upload => "upload"@,
    }
}

pub fn stage_name(value: RequestStage) -> (name: &'static str)
    ensures
        name@ == stage_text(value),
{
    match value {
        RequestStage::Locate => "locate",
        RequestStage::Dns => "dns",
        RequestStage::Connect => "connect",
        RequestStage::Tls => "tls",
        RequestStage::WebsocketHandshake => "websocket_handshake",
        RequestStage::Download => "download",
        RequestStage::Upload => "upload",
    }
}

/// The class of a failure, as it is written.
pub open spec fn error_kind_text(value: ErrorKind) -> Seq<char> {
    match value {
        ErrorKind::IcmpTimeout => "icmp_timeout"@,
        ErrorKind::IcmpUnreachable => "icmp_unreachable"@,
        ErrorKind::PermissionDenied => "permission_denied"@,
        ErrorKind::Dns => "dns"@,
        ErrorKind::Connect => "connect"@,
        ErrorKind::Tls => "tls"@,
        ErrorKind::HttpStatus => "http_status"@,
        ErrorKind::WebsocketHandshake => "websocket_handshake"@,
        ErrorKind::DownloadFailed => "download_failed"@,
        ErrorKind::UploadFailed => "upload_failed"@,
        ErrorKind::ProviderCooldown => "provider_cooldown"@,
        ErrorKind::DailyCap => "daily_cap"@,
        ErrorKind::Cancelled => "cancelled"@,
        ErrorKind::Timeout => "timeout"@,
        ErrorKind::Io => "io"@,
        ErrorKind::Protocol => "protocol"@,
        ErrorKind::Internal => "internal"@,
    }
}

pub fn error_kind_name(value: ErrorKind) -> (name: &'static str)
    ensures
        name@ == error_kind_text(value),
{
    match value {
        ErrorKind::IcmpTimeout => "icmp_timeout",
        ErrorKind::IcmpUnreachable => "icmp_unreachable",
        ErrorKind::PermissionDenied => "permission_denied",
        ErrorKind::Dns => "dns",
        ErrorKind::Connect => "connect",
        ErrorKind::Tls => "tls",
        ErrorKind::HttpStatus => "http_status",
        ErrorKind::WebsocketHandshake => "websocket_handshake",
        ErrorKind::DownloadFailed => "download_failed",
        ErrorKind::UploadFailed => "upload_failed",
        ErrorKind::ProviderCooldown => "provider_cooldown",
        ErrorKind::DailyCap => "daily_cap",
        ErrorKind::Cancelled => "cancelled",
        ErrorKind::Timeout => "timeout",
        ErrorKind::Io => "io",
        ErrorKind::Protocol => "protocol",
        ErrorKind::Internal => "internal",
    }
}

} // verus!
