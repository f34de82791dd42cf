//! What holds of the journal's layout: every value stands under its own name.
use super::columns::{
    column_names, encode_batch, event_line, joined_lines, lays_out, lays_out_all, row_tells, views,
};
use super::encode::{csv_row, reads_back};
use crate::model::{
    ErrorKind, EventKind, IpAddr, LoadPhase, MeasurementEvent, Outcome, ProviderKind, RequestStage,
    TriggerReason, id_text, sanitized_copy,
};
use crate::scalar::Scalar;
use crate::text::dec;
use crate::time::Timestamp;
use vstd::prelude::*;

verus! {

/// A text, or nothing.
pub open spec fn tells_text(value: Option<String>, cell: String) -> bool {
    match value {
        Some(text) => cell@ == text@,
        None => cell@.len() == 0,
    }
}

/// A time of day, or nothing.
pub open spec fn tells_time(value: Option<Timestamp>, cell: String) -> bool {
    match value {
        Some(at) => cell@ == at.text_spec(),
        None => cell@.len() == 0,
    }
}

/// A number in decimal digits.
pub open spec fn byte_digits(number: u8) -> Seq<char> {
    dec(number as nat)
}

/// A number in decimal digits, or nothing.
pub open spec fn tells_byte(value: Option<u8>, cell: String) -> bool {
    match value {
        Some(number) => cell@ == dec(number as nat),
        None => cell@.len() == 0,
    }
}

/// A number in decimal digits, or nothing.
pub open spec fn tells_short(value: Option<u16>, cell: String) -> bool {
    match value {
        Some(number) => cell@ == dec(number as nat),
        None => cell@.len() == 0,
    }
}

/// A number in decimal digits, or nothing.
pub open spec fn tells_number(value: Option<u32>, cell: String) -> bool {
    match value {
        Some(number) => cell@ == dec(number as nat),
        None => cell@.len() == 0,
    }
}

/// A number in decimal digits, or nothing.
pub open spec fn tells_long(value: Option<u64>, cell: String) -> bool {
    match value {
        Some(number) => cell@ == dec(number as nat),
        None => cell@.len() == 0,
    }
}

/// A number in decimal digits, with a minus sign before it where it is negative, or nothing.
pub open spec fn tells_signed(value: Option<i32>, cell: String) -> bool {
    match value {
        Some(number) => {
            &&& number >= 0 ==> cell@ == dec(number as nat)
            &&& number < 0 ==> cell@ == seq!['-'] + dec((-number) as nat)
        },
        None => cell@.len() == 0,
    }
}

/// A reading as it is shown, or nothing.
pub open spec fn tells_reading<F: Fn(Scalar) -> String>(
    show: F,
    value: Option<Scalar>,
    cell: String,
) -> bool {
    match value {
        Some(reading) => call_ensures(show, (reading,), cell),
        None => cell@.len() == 0,
    }
}

/// An address as it is shown, or nothing.
pub open spec fn tells_address<G: Fn(IpAddr) -> String>(
    show: G,
    value: Option<IpAddr>,
    cell: String,
) -> bool {
    match value {
        Some(ip) => call_ensures(show, (ip,), cell),
        None => cell@.len() == 0,
    }
}

/// The first of some addresses that is there.
pub open spec fn first_there(addresses: Seq<Option<IpAddr>>) -> Option<IpAddr>
    decreases addresses.len(),
{
    if addresses.len() == 0 {
        None
    } else if addresses[0] is Some {
        addresses[0]
    } else {
        first_there(addresses.drop_first())
    }
}

/// What an event records, in a word.
pub open spec fn kind_word(value: EventKind) -> Seq<char> {
    match value {
        EventKind::RunStarted => "run_started"@,
        EventKind::RunFinished => "run_finished"@,
        EventKind::PingProbe => "ping_probe"@,
        EventKind::Bandwidth => "bandwidth"@,
        EventKind::RequestFailure => "request_failure"@,
        EventKind::Scheduler => "scheduler"@,
    }
}

/// How the recorded work ended, in a word.
pub open spec fn outcome_word(value: Outcome) -> Seq<char> {
    match value {
        Outcome::Started => "started"@,
        Outcome::Success => "success"@,
        Outcome::Partial => "partial"@,
        Outcome::Timeout => "timeout"@,
        Outcome::Unreachable => "unreachable"@,
        Outcome::PermissionDenied => "permission_denied"@,
        Outcome::Cancelled => "cancelled"@,
        Outcome::Error => "error"@,
        Outcome::NoCapacity => "no_capacity"@,
        Outcome::RateLimited => "rate_limited"@,
        Outcome::Scheduled => "scheduled"@,
        Outcome::Rescheduled => "rescheduled"@,
        Outcome::Deferred => "deferred"@,
        Outcome::Suppressed => "suppressed"@,
        Outcome::Expired => "expired"@,
    }
}

/// Why a test was asked for, in a word.
pub open spec fn trigger_word(value: TriggerReason) -> Seq<char> {
    match value {
        TriggerReason::Scheduled => "scheduled"@,
        TriggerReason::PingLoss => "ping_loss"@,
        TriggerReason::PingRtt => "ping_rtt"@,
        TriggerReason::Manual => "manual"@,
    }
}

/// What a test was doing, in a word.
pub open spec fn phase_word(value: LoadPhase) -> Seq<char> {
    match value {
        LoadPhase::Setup => "setup"@,
        LoadPhase::Download => "download"@,
        LoadPhase::Upload => "upload"@,
    }
}

/// The kind of a provider, in a word.
pub open spec fn provider_word(value: ProviderKind) -> Seq<char> {
    match value {
        ProviderKind::Mlab => "mlab"@,
        ProviderKind::Direct => "direct"@,
    }
}

/// How far a request had come, in a word.
pub open spec fn stage_word(value: RequestStage) -> Seq<char> {
    match value {
        RequestStage::Locate => "locate"@,
        RequestStage::Dns => "dns"@,
        RequestStage::Connect => "connect"@,
        RequestStage::Tls => "tls"@,
        RequestStage::WebsocketHandshake => "websocket_handshake"@,
        RequestStage::Download => "download"@,
        RequestStage::Upload => "upload"@,
    }
}

/// What went wrong, in a word.
pub open spec fn error_word(value: ErrorKind) -> Seq<char> {
    match value {
        ErrorKind::IcmpTimeout => "icmp_timeout"@,
        ErrorKind::IcmpUnreachable => "icmp_unreachable"@,
        ErrorKind::PermissionDenied => "permission_denied"@,
        ErrorKind::Dns => "dns"@,
        ErrorKind::Connect => "connect"@,
        ErrorKind::Tls => "tls"@,
        ErrorKind::HttpStatus => "http_status"@,
        ErrorKind::WebsocketHandshake => "websocket_handshake"@,
        ErrorKind::DownloadFailed => "download_failed"@,
        ErrorKind::UploadFailed => "upload_failed"@,
        ErrorKind::ProviderCooldown => "provider_cooldown"@,
        ErrorKind::DailyCap => "daily_cap"@,
        ErrorKind::Cancelled => "cancelled"@,
        ErrorKind::Timeout => "timeout"@,
        ErrorKind::Io => "io"@,
        ErrorKind::Protocol => "protocol"@,
        ErrorKind::Internal => "internal"@,
    }
}

/// The cell tells what the column with this name is for.
pub open spec fn tells_column<F: Fn(Scalar) -> String, G: Fn(IpAddr) -> String>(
    name: Seq<char>,
    event: MeasurementEvent,
    show: F,
    address: G,
    cell: String,
) -> bool {
    &&& name == "schema_version"@ ==> cell@ == byte_digits(event.schema_version)
    &&& name == "run_id"@ ==> cell@ == id_text(event.run_id.value)
    &&& name == "event_id"@ ==> cell@ == id_text(event.event_id.value)
    &&& name == "scheduled_at_utc"@ ==> tells_time(event.scheduled_at_utc, cell)
    &&& name == "started_at_utc"@ ==> tells_time(event.started_at_utc, cell)
    &&& name == "finished_at_utc"@ ==> tells_time(event.finished_at_utc, cell)
    &&& name == "interface"@ ==> tells_text(event.interface, cell)
    &&& name == "local_ip"@ ==> tells_address(
            address,
            first_there(
                seq![
                    event.ping_local_ip,
                    event.request_local_ip,
                    event.upload_local_ip,
                    event.download_local_ip,
                ],
            ),
            cell,
        )
    &&& name == "connection_details"@ ==> tells_text(event.connection_details, cell)
    &&& name == "event_kind"@ ==> cell@ == kind_word(event.event_kind)
    &&& name == "trigger_reason"@ ==> (match event.trigger_reason {
            Some(reason) => cell@ == trigger_word(reason),
            None => cell@.len() == 0,
        })
    &&& name == "load_phase"@ ==> (match event.load_phase {
            Some(phase) => cell@ == phase_word(phase),
            None => cell@.len() == 0,
        })
    &&& name == "load_run_id"@ ==> (match event.load_run_id {
            Some(run_id) => cell@ == id_text(run_id.value),
            None => cell@.len() == 0,
        })
    &&& name == "target"@ ==> tells_text(event.ping_target_ip, cell)
    &&& name == "sequence"@ ==> tells_short(event.ping_sequence, cell)
    &&& name == "outcome"@ ==> cell@ == outcome_word(event.outcome)
    &&& name == "duration_ms"@ ==> tells_reading(show, event.elapsed_ms, cell)
    &&& name == "rtt_ms"@ ==> tells_reading(show, event.ping_rtt_ms, cell)
    &&& name == "packets_sent"@ ==> tells_number(event.ping_packets_sent, cell)
    &&& name == "packets_received"@ ==> tells_number(event.ping_packets_received, cell)
    &&& name == "packet_loss_pct"@ ==> (match event.ping_packets_received {
            Some(0) => cell@ == "100.0"@,
            Some(_) => cell@ == "0.0"@,
            None => cell@.len() == 0,
        })
    &&& name == "icmp_type"@ ==> tells_byte(event.ping_icmp_type, cell)
    &&& name == "icmp_code"@ ==> tells_byte(event.ping_icmp_code, cell)
    &&& name == "provider_id"@ ==> tells_text(event.provider_id, cell)
    &&& name == "provider_kind"@ ==> (match event.provider_kind {
            Some(kind) => cell@ == provider_word(kind),
            None => cell@.len() == 0,
        })
    &&& name == "server"@ ==> tells_text(event.server_name, cell)
    &&& name == "remote_ip"@ ==> tells_address(
            address,
            first_there(
                seq![
                    event.request_remote_ip,
                    event.upload_remote_ip,
                    event.download_remote_ip,
                ],
            ),
            cell,
        )
    &&& name == "request_stage"@ ==> (match event.request_stage {
            Some(stage) => cell@ == stage_word(stage),
            None => cell@.len() == 0,
        })
    &&& name == "request_attempt"@ ==> tells_number(event.request_attempt, cell)
    &&& name == "http_status"@ ==> tells_short(event.request_http_status, cell)
    &&& name == "retry_after_ms"@ ==> tells_long(event.request_retry_after_ms, cell)
    &&& name == "rate_limit_until_utc"@ ==> tells_time(
            if event.scheduler_not_before_utc is Some {
                event.scheduler_not_before_utc
            } else {
                event.request_retry_at_utc
            },
            cell,
        )
    &&& name == "daily_bandwidth_starts"@ ==> tells_number(event.provider_daily_starts, cell)
    &&& name == "download_mbps"@ ==> tells_reading(show, event.download_mbps, cell)
    &&& name == "upload_mbps"@ ==> tells_reading(show, event.upload_mbps, cell)
    &&& name == "upload_bytes"@ ==> tells_long(event.upload_bytes, cell)
    &&& name == "download_bytes"@ ==> tells_long(event.download_bytes, cell)
    &&& name == "download_duration_ms"@
        ==> tells_reading(show, event.download_measurement_duration_ms, cell)
    &&& name == "upload_duration_ms"@
        ==> tells_reading(show, event.upload_measurement_duration_ms, cell)
    &&& name == "download_local_ip"@ ==> tells_address(address, event.download_local_ip, cell)
    &&& name == "upload_local_ip"@ ==> tells_address(address, event.upload_local_ip, cell)
    &&& name == "download_remote_ip"@ ==> tells_address(address, event.download_remote_ip, cell)
    &&& name == "upload_remote_ip"@ ==> tells_address(address, event.upload_remote_ip, cell)
    &&& name == "download_tcp_min_rtt_ms"@
        ==> tells_reading(show, event.download_server_tcp_min_rtt_ms, cell)
    &&& name == "download_tcp_rtt_ms"@
        ==> tells_reading(show, event.download_server_tcp_rtt_ms, cell)
    &&& name == "download_tcp_retransmitted_bytes"@
        ==> tells_long(event.download_server_tcp_retransmitted_bytes, cell)
    &&& name == "upload_tcp_min_rtt_ms"@
        ==> tells_reading(show, event.upload_server_tcp_min_rtt_ms, cell)
    &&& name == "upload_tcp_rtt_ms"@ ==> tells_reading(show, event.upload_server_tcp_rtt_ms, cell)
    &&& name == "upload_tcp_retransmitted_bytes"@
        ==> tells_long(event.upload_server_tcp_retransmitted_bytes, cell)
    &&& name == "os_error_code"@ ==> tells_signed(event.os_error_code, cell)
    &&& name == "error_kind"@ ==> (match event.error_kind {
            Some(kind) => cell@ == error_word(kind),
            None => cell@.len() == 0,
        })
    &&& name == "error_message"@ ==> tells_text(event.message, cell)
}

/// A number that tells the names of the columns apart.
spec fn mark(name: Seq<char>) -> int {
    name.len() + 64 * (name[1] as int) + 8192 * (name[5] as int)
}

/// The place of the column whose name has this mark.
spec fn marked_place(mark: int) -> int {
    if mark == 800974 {
        0
    } else if mark == 826694 {
        1
    } else if mark == 785800 {
        2
    } else if mark == 964816 {
        3
    } else if mark == 834830 {
        4
    } else if mark == 858703 {
        5
    } else if mark == 842633 {
        6
    } else if mark == 785352 {
        7
    } else if mark == 818130 {
        8
    } else if mark == 785802 {
        9
    } else if mark == 834702 {
        10
    } else if mark == 924618 {
        11
    } else if mark == 941003 {
        12
    } else if mark == 956486 {
        13
    } else if mark == 907592 {
        14
    } else if mark == 900423 {
        15
    } else if mark == 867659 {
        16
    } else if mark == 949510 {
        17
    } else if mark == 956492 {
        18
    } else if mark == 956496 {
        19
    } else if mark == 956495 {
        20
    } else if mark == 956617 {
        21
    } else if mark == 817353 {
        22
    } else if mark == 826507 {
        23
    } else if mark == 826509 {
        24
    } else if mark == 940358 {
        25
    } else if mark == 833865 {
        26
    } else if mark == 948557 {
        27
    } else if mark == 948559 {
        28
    } else if mark == 949515 {
        29
    } else if mark == 784718 {
        30
    } else if mark == 890964 {
        31
    } else if mark == 784470 {
        32
    } else if mark == 916429 {
        33
    } else if mark == 826379 {
        34
    } else if mark == 826380 {
        35
    } else if mark == 916430 {
        36
    } else if mark == 916436 {
        37
    } else if mark == 826386 {
        38
    } else if mark == 916433 {
        39
    } else if mark == 826383 {
        40
    } else if mark == 916434 {
        41
    } else if mark == 826384 {
        42
    } else if mark == 916439 {
        43
    } else if mark == 916435 {
        44
    } else if mark == 916448 {
        45
    } else if mark == 826389 {
        46
    } else if mark == 826385 {
        47
    } else if mark == 826398 {
        48
    } else if mark == 941261 {
        49
    } else if mark == 785546 {
        50
    } else if mark == 785549 {
        51
    } else {
        -1
    }
}

#[verifier::rlimit(60)]
proof fn lemma_names_are_told_apart()
    ensures
        column_names().len() == 52,
        forall|i: int|
            0 <= i < 52 ==> marked_place(mark(#[trigger] column_names()[i])) == i,
{
    let names = column_names();
    assert(names[0] == "schema_version"@ && marked_place(mark("schema_version"@)) == 0) by {
        reveal_strlit("schema_version");
    }
    assert(names[1] == "run_id"@ && marked_place(mark("run_id"@)) == 1) by {
        reveal_strlit("run_id");
    }
    assert(names[2] == "event_id"@ && marked_place(mark("event_id"@)) == 2) by {
        reveal_strlit("event_id");
    }
    assert(names[3] == "scheduled_at_utc"@ && marked_place(mark("scheduled_at_utc"@)) == 3) by {
        reveal_strlit("scheduled_at_utc");
    }
    assert(names[4] == "started_at_utc"@ && marked_place(mark("started_at_utc"@)) == 4) by {
        reveal_strlit("started_at_utc");
    }
    assert(names[5] == "finished_at_utc"@ && marked_place(mark("finished_at_utc"@)) == 5) by {
        reveal_strlit("finished_at_utc");
    }
    assert(names[6] == "interface"@ && marked_place(mark("interface"@)) == 6) by {
        reveal_strlit("interface");
    }
    assert(names[7] == "local_ip"@ && marked_place(mark("local_ip"@)) == 7) by {
        reveal_strlit("local_ip");
    }
    assert(names[8] == "connection_details"@ && marked_place(mark("connection_details"@)) == 8) by {
        reveal_strlit("connection_details");
    }
    assert(names[9] == "event_kind"@ && marked_place(mark("event_kind"@)) == 9) by {
        reveal_strlit("event_kind");
    }
    assert(names[10] == "trigger_reason"@ && marked_place(mark("trigger_reason"@)) == 10) by {
        reveal_strlit("trigger_reason");
    }
    assert(names[11] == "load_phase"@ && marked_place(mark("load_phase"@)) == 11) by {
        reveal_strlit("load_phase");
    }
    assert(names[12] == "load_run_id"@ && marked_place(mark("load_run_id"@)) == 12) by {
        reveal_strlit("load_run_id");
    }
    assert(names[13] == "target"@ && marked_place(mark("target"@)) == 13) by {
        reveal_strlit("target");
    }
    assert(names[14] == "sequence"@ && marked_place(mark("sequence"@)) == 14) by {
        reveal_strlit("sequence");
    }
    assert(names[15] == "outcome"@ && marked_place(mark("outcome"@)) == 15) by {
        reveal_strlit("outcome");
    }
    assert(names[16] == "duration_ms"@ && marked_place(mark("duration_ms"@)) == 16) by {
        reveal_strlit("duration_ms");
    }
    assert(names[17] == "rtt_ms"@ && marked_place(mark("rtt_ms"@)) == 17) by {
        reveal_strlit("rtt_ms");
    }
    assert(names[18] == "packets_sent"@ && marked_place(mark("packets_sent"@)) == 18) by {
        reveal_strlit("packets_sent");
    }
    assert(names[19] == "packets_received"@ && marked_place(mark("packets_received"@)) == 19) by {
        reveal_strlit("packets_received");
    }
    assert(names[20] == "packet_loss_pct"@ && marked_place(mark("packet_loss_pct"@)) == 20) by {
        reveal_strlit("packet_loss_pct");
    }
    assert(names[21] == "icmp_type"@ && marked_place(mark("icmp_type"@)) == 21) by {
        reveal_strlit("icmp_type");
    }
    assert(names[22] == "icmp_code"@ && marked_place(mark("icmp_code"@)) == 22) by {
        reveal_strlit("icmp_code");
    }
    assert(names[23] == "provider_id"@ && marked_place(mark("provider_id"@)) == 23) by {
        reveal_strlit("provider_id");
    }
    assert(names[24] == "provider_kind"@ && marked_place(mark("provider_kind"@)) == 24) by {
        reveal_strlit("provider_kind");
    }
    assert(names[25] == "server"@ && marked_place(mark("server"@)) == 25) by {
        reveal_strlit("server");
    }
    assert(names[26] == "remote_ip"@ && marked_place(mark("remote_ip"@)) == 26) by {
        reveal_strlit("remote_ip");
    }
    assert(names[27] == "request_stage"@ && marked_place(mark("request_stage"@)) == 27) by {
        reveal_strlit("request_stage");
    }
    assert(names[28] == "request_attempt"@ && marked_place(mark("request_attempt"@)) == 28) by {
        reveal_strlit("request_attempt");
    }
    assert(names[29] == "http_status"@ && marked_place(mark("http_status"@)) == 29) by {
        reveal_strlit("http_status");
    }
    assert(names[30] == "retry_after_ms"@ && marked_place(mark("retry_after_ms"@)) == 30) by {
        reveal_strlit("retry_after_ms");
    }
    assert(names[31] == "rate_limit_until_utc"@
        && marked_place(mark("rate_limit_until_utc"@)) == 31) by {
        reveal_strlit("rate_limit_until_utc");
    }
    assert(names[32] == "daily_bandwidth_starts"@
        && marked_place(mark("daily_bandwidth_starts"@)) == 32) by {
        reveal_strlit("daily_bandwidth_starts");
    }
    assert(names[33] == "download_mbps"@ && marked_place(mark("download_mbps"@)) == 33) by {
        reveal_strlit("download_mbps");
    }
    assert(names[34] == "upload_mbps"@ && marked_place(mark("upload_mbps"@)) == 34) by {
        reveal_strlit("upload_mbps");
    }
    assert(names[35] == "upload_bytes"@ && marked_place(mark("upload_bytes"@)) == 35) by {
        reveal_strlit("upload_bytes");
    }
    assert(names[36] == "download_bytes"@ && marked_place(mark("download_bytes"@)) == 36) by {
        reveal_strlit("download_bytes");
    }
    assert(names[37] == "download_duration_ms"@
        && marked_place(mark("download_duration_ms"@)) == 37) by {
        reveal_strlit("download_duration_ms");
    }
    assert(names[38] == "upload_duration_ms"@
        && marked_place(mark("upload_duration_ms"@)) == 38) by {
        reveal_strlit("upload_duration_ms");
    }
    assert(names[39] == "download_local_ip"@ && marked_place(mark("download_local_ip"@)) == 39) by {
        reveal_strlit("download_local_ip");
    }
    assert(names[40] == "upload_local_ip"@ && marked_place(mark("upload_local_ip"@)) == 40) by {
        reveal_strlit("upload_local_ip");
    }
    assert(names[41] == "download_remote_ip"@
        && marked_place(mark("download_remote_ip"@)) == 41) by {
        reveal_strlit("download_remote_ip");
    }
    assert(names[42] == "upload_remote_ip"@ && marked_place(mark("upload_remote_ip"@)) == 42) by {
        reveal_strlit("upload_remote_ip");
    }
    assert(names[43] == "download_tcp_min_rtt_ms"@
        && marked_place(mark("download_tcp_min_rtt_ms"@)) == 43) by {
        reveal_strlit("download_tcp_min_rtt_ms");
    }
    assert(names[44] == "download_tcp_rtt_ms"@
        && marked_place(mark("download_tcp_rtt_ms"@)) == 44) by {
        reveal_strlit("download_tcp_rtt_ms");
    }
    assert(names[45] == "download_tcp_retransmitted_bytes"@
        && marked_place(mark("download_tcp_retransmitted_bytes"@)) == 45) by {
        reveal_strlit("download_tcp_retransmitted_bytes");
    }
    assert(names[46] == "upload_tcp_min_rtt_ms"@
        && marked_place(mark("upload_tcp_min_rtt_ms"@)) == 46) by {
        reveal_strlit("upload_tcp_min_rtt_ms");
    }
    assert(names[47] == "upload_tcp_rtt_ms"@ && marked_place(mark("upload_tcp_rtt_ms"@)) == 47) by {
        reveal_strlit("upload_tcp_rtt_ms");
    }
    assert(names[48] == "upload_tcp_retransmitted_bytes"@
        && marked_place(mark("upload_tcp_retransmitted_bytes"@)) == 48) by {
        reveal_strlit("upload_tcp_retransmitted_bytes");
    }
    assert(names[49] == "os_error_code"@ && marked_place(mark("os_error_code"@)) == 49) by {
        reveal_strlit("os_error_code");
    }
    assert(names[50] == "error_kind"@ && marked_place(mark("error_kind"@)) == 50) by {
        reveal_strlit("error_kind");
    }
    assert(names[51] == "error_message"@ && marked_place(mark("error_message"@)) == 51) by {
        reveal_strlit("error_message");
    }
    assert forall|i: int| 0 <= i < 52 implies marked_place(mark(#[trigger] names[i])) == i by {
        if i == 0 {
        } else if i == 1 {
        } else if i == 2 {
        } else if i == 3 {
        } else if i == 4 {
        } else if i == 5 {
        } else if i == 6 {
        } else if i == 7 {
        } else if i == 8 {
        } else if i == 9 {
        } else if i == 10 {
        } else if i == 11 {
        } else if i == 12 {
        } else if i == 13 {
        } else if i == 14 {
        } else if i == 15 {
        } else if i == 16 {
        } else if i == 17 {
        } else if i == 18 {
        } else if i == 19 {
        } else if i == 20 {
        } else if i == 21 {
        } else if i == 22 {
        } else if i == 23 {
        } else if i == 24 {
        } else if i == 25 {
        } else if i == 26 {
        } else if i == 27 {
        } else if i == 28 {
        } else if i == 29 {
        } else if i == 30 {
        } else if i == 31 {
        } else if i == 32 {
        } else if i == 33 {
        } else if i == 34 {
        } else if i == 35 {
        } else if i == 36 {
        } else if i == 37 {
        } else if i == 38 {
        } else if i == 39 {
        } else if i == 40 {
        } else if i == 41 {
        } else if i == 42 {
        } else if i == 43 {
        } else if i == 44 {
        } else if i == 45 {
        } else if i == 46 {
        } else if i == 47 {
        } else if i == 48 {
        } else if i == 49 {
        } else if i == 50 {
        } else if i == 51 {
        }
    }
}

/// The columns stand in this order, and no two have the same name.
pub proof fn law_columns_stand_in_order()
    ensures
        column_names().len() == 52,
        column_names().no_duplicates(),
        column_names()[0] == "schema_version"@,
        column_names()[1] == "run_id"@,
        column_names()[2] == "event_id"@,
        column_names()[3] == "scheduled_at_utc"@,
        column_names()[4] == "started_at_utc"@,
        column_names()[5] == "finished_at_utc"@,
        column_names()[6] == "interface"@,
        column_names()[7] == "local_ip"@,
        column_names()[8] == "connection_details"@,
        column_names()[9] == "event_kind"@,
        column_names()[10] == "trigger_reason"@,
        column_names()[11] == "load_phase"@,
        column_names()[12] == "load_run_id"@,
        column_names()[13] == "target"@,
        column_names()[14] == "sequence"@,
        column_names()[15] == "outcome"@,
        column_names()[16] == "duration_ms"@,
        column_names()[17] == "rtt_ms"@,
        column_names()[18] == "packets_sent"@,
        column_names()[19] == "packets_received"@,
        column_names()[20] == "packet_loss_pct"@,
        column_names()[21] == "icmp_type"@,
        column_names()[22] == "icmp_code"@,
        column_names()[23] == "provider_id"@,
        column_names()[24] == "provider_kind"@,
        column_names()[25] == "server"@,
        column_names()[26] == "remote_ip"@,
        column_names()[27] == "request_stage"@,
        column_names()[28] == "request_attempt"@,
        column_names()[29] == "http_status"@,
        column_names()[30] == "retry_after_ms"@,
        column_names()[31] == "rate_limit_until_utc"@,
        column_names()[32] == "daily_bandwidth_starts"@,
        column_names()[33] == "download_mbps"@,
        column_names()[34] == "upload_mbps"@,
        column_names()[35] == "upload_bytes"@,
        column_names()[36] == "download_bytes"@,
        column_names()[37] == "download_duration_ms"@,
        column_names()[38] == "upload_duration_ms"@,
        column_names()[39] == "download_local_ip"@,
        column_names()[40] == "upload_local_ip"@,
        column_names()[41] == "download_remote_ip"@,
        column_names()[42] == "upload_remote_ip"@,
        column_names()[43] == "download_tcp_min_rtt_ms"@,
        column_names()[44] == "download_tcp_rtt_ms"@,
        column_names()[45] == "download_tcp_retransmitted_bytes"@,
        column_names()[46] == "upload_tcp_min_rtt_ms"@,
        column_names()[47] == "upload_tcp_rtt_ms"@,
        column_names()[48] == "upload_tcp_retransmitted_bytes"@,
        column_names()[49] == "os_error_code"@,
        column_names()[50] == "error_kind"@,
        column_names()[51] == "error_message"@,
{
    lemma_names_are_told_apart();
    assert forall|i: int, j: int| 0 <= i < 52 && 0 <= j < 52 && i != j implies column_names()[i]
        != column_names()[j] by {
        assert(marked_place(mark(column_names()[i])) == i);
        assert(marked_place(mark(column_names()[j])) == j);
    }
}

proof fn lemma_first_there(event: MeasurementEvent)
    ensures
        first_there(
            seq![
                event.ping_local_ip,
                event.request_local_ip,
                event.upload_local_ip,
                event.download_local_ip,
            ],
        ) == super::columns::local_ip(event),
        first_there(
            seq![event.request_remote_ip, event.upload_remote_ip, event.download_remote_ip],
        ) == super::columns::remote_ip(event),
{
    reveal_with_fuel(first_there, 5);
}

#[verifier::spinoff_prover]
#[verifier::rlimit(60)]
proof fn lemma_cell_tells<F: Fn(Scalar) -> String, G: Fn(IpAddr) -> String>(
    row: Seq<String>,
    event: MeasurementEvent,
    show: F,
    address: G,
    i: int,
)
    requires
        row_tells(row, event, show, address),
        0 <= i < 52,
    ensures
        tells_column(column_names()[i], event, show, address, row[i]),
{
    law_columns_stand_in_order();
    lemma_first_there(event);
    reveal_strlit("-");
    assert("-"@ =~= seq!['-']);
    let names = column_names();
    assert(names[i] == "schema_version"@ ==> i == 0) by {
        assert(names[0] == "schema_version"@);
    }
    assert(names[i] == "run_id"@ ==> i == 1) by {
        assert(names[1] == "run_id"@);
    }
    assert(names[i] == "event_id"@ ==> i == 2) by {
        assert(names[2] == "event_id"@);
    }
    assert(names[i] == "scheduled_at_utc"@ ==> i == 3) by {
        assert(names[3] == "scheduled_at_utc"@);
    }
    assert(names[i] == "started_at_utc"@ ==> i == 4) by {
        assert(names[4] == "started_at_utc"@);
    }
    assert(names[i] == "finished_at_utc"@ ==> i == 5) by {
        assert(names[5] == "finished_at_utc"@);
    }
    assert(names[i] == "interface"@ ==> i == 6) by {
        assert(names[6] == "interface"@);
    }
    assert(names[i] == "local_ip"@ ==> i == 7) by {
        assert(names[7] == "local_ip"@);
    }
    assert(names[i] == "connection_details"@ ==> i == 8) by {
        assert(names[8] == "connection_details"@);
    }
    assert(names[i] == "event_kind"@ ==> i == 9) by {
        assert(names[9] == "event_kind"@);
    }
    assert(names[i] == "trigger_reason"@ ==> i == 10) by {
        assert(names[10] == "trigger_reason"@);
    }
    assert(names[i] == "load_phase"@ ==> i == 11) by {
        assert(names[11] == "load_phase"@);
    }
    assert(names[i] == "load_run_id"@ ==> i == 12) by {
        assert(names[12] == "load_run_id"@);
    }
    assert(names[i] == "target"@ ==> i == 13) by {
        assert(names[13] == "target"@);
    }
    assert(names[i] == "sequence"@ ==> i == 14) by {
        assert(names[14] == "sequence"@);
    }
    assert(names[i] == "outcome"@ ==> i == 15) by {
        assert(names[15] == "outcome"@);
    }
    assert(names[i] == "duration_ms"@ ==> i == 16) by {
        assert(names[16] == "duration_ms"@);
    }
    assert(names[i] == "rtt_ms"@ ==> i == 17) by {
        assert(names[17] == "rtt_ms"@);
    }
    assert(names[i] == "packets_sent"@ ==> i == 18) by {
        assert(names[18] == "packets_sent"@);
    }
    assert(names[i] == "packets_received"@ ==> i == 19) by {
        assert(names[19] == "packets_received"@);
    }
    assert(names[i] == "packet_loss_pct"@ ==> i == 20) by {
        assert(names[20] == "packet_loss_pct"@);
    }
    assert(names[i] == "icmp_type"@ ==> i == 21) by {
        assert(names[21] == "icmp_type"@);
    }
    assert(names[i] == "icmp_code"@ ==> i == 22) by {
        assert(names[22] == "icmp_code"@);
    }
    assert(names[i] == "provider_id"@ ==> i == 23) by {
        assert(names[23] == "provider_id"@);
    }
    assert(names[i] == "provider_kind"@ ==> i == 24) by {
        assert(names[24] == "provider_kind"@);
    }
    assert(names[i] == "server"@ ==> i == 25) by {
        assert(names[25] == "server"@);
    }
    assert(names[i] == "remote_ip"@ ==> i == 26) by {
        assert(names[26] == "remote_ip"@);
    }
    assert(names[i] == "request_stage"@ ==> i == 27) by {
        assert(names[27] == "request_stage"@);
    }
    assert(names[i] == "request_attempt"@ ==> i == 28) by {
        assert(names[28] == "request_attempt"@);
    }
    assert(names[i] == "http_status"@ ==> i == 29) by {
        assert(names[29] == "http_status"@);
    }
    assert(names[i] == "retry_after_ms"@ ==> i == 30) by {
        assert(names[30] == "retry_after_ms"@);
    }
    assert(names[i] == "rate_limit_until_utc"@ ==> i == 31) by {
        assert(names[31] == "rate_limit_until_utc"@);
    }
    assert(names[i] == "daily_bandwidth_starts"@ ==> i == 32) by {
        assert(names[32] == "daily_bandwidth_starts"@);
    }
    assert(names[i] == "download_mbps"@ ==> i == 33) by {
        assert(names[33] == "download_mbps"@);
    }
    assert(names[i] == "upload_mbps"@ ==> i == 34) by {
        assert(names[34] == "upload_mbps"@);
    }
    assert(names[i] == "upload_bytes"@ ==> i == 35) by {
        assert(names[35] == "upload_bytes"@);
    }
    assert(names[i] == "download_bytes"@ ==> i == 36) by {
        assert(names[36] == "download_bytes"@);
    }
    assert(names[i] == "download_duration_ms"@ ==> i == 37) by {
        assert(names[37] == "download_duration_ms"@);
    }
    assert(names[i] == "upload_duration_ms"@ ==> i == 38) by {
        assert(names[38] == "upload_duration_ms"@);
    }
    assert(names[i] == "download_local_ip"@ ==> i == 39) by {
        assert(names[39] == "download_local_ip"@);
    }
    assert(names[i] == "upload_local_ip"@ ==> i == 40) by {
        assert(names[40] == "upload_local_ip"@);
    }
    assert(names[i] == "download_remote_ip"@ ==> i == 41) by {
        assert(names[41] == "download_remote_ip"@);
    }
    assert(names[i] == "upload_remote_ip"@ ==> i == 42) by {
        assert(names[42] == "upload_remote_ip"@);
    }
    assert(names[i] == "download_tcp_min_rtt_ms"@ ==> i == 43) by {
        assert(names[43] == "download_tcp_min_rtt_ms"@);
    }
    assert(names[i] == "download_tcp_rtt_ms"@ ==> i == 44) by {
        assert(names[44] == "download_tcp_rtt_ms"@);
    }
    assert(names[i] == "download_tcp_retransmitted_bytes"@ ==> i == 45) by {
        assert(names[45] == "download_tcp_retransmitted_bytes"@);
    }
    assert(names[i] == "upload_tcp_min_rtt_ms"@ ==> i == 46) by {
        assert(names[46] == "upload_tcp_min_rtt_ms"@);
    }
    assert(names[i] == "upload_tcp_rtt_ms"@ ==> i == 47) by {
        assert(names[47] == "upload_tcp_rtt_ms"@);
    }
    assert(names[i] == "upload_tcp_retransmitted_bytes"@ ==> i == 48) by {
        assert(names[48] == "upload_tcp_retransmitted_bytes"@);
    }
    assert(names[i] == "os_error_code"@ ==> i == 49) by {
        assert(names[49] == "os_error_code"@);
    }
    assert(names[i] == "error_kind"@ ==> i == 50) by {
        assert(names[50] == "error_kind"@);
    }
    assert(names[i] == "error_message"@ ==> i == 51) by {
        assert(names[51] == "error_message"@);
    }
}

/// Every cell of a row tells what the name of its column says: the cell under a name is the value
/// of that name, for every name of the header, and there are no other cells.
pub proof fn law_every_value_stands_under_its_name<
    F: Fn(Scalar) -> String,
    G: Fn(IpAddr) -> String,
>(row: Seq<String>, event: MeasurementEvent, show: F, address: G)
    requires
        row_tells(row, event, show, address),
    ensures
        row.len() == column_names().len(),
        forall|i: int|
            0 <= i < row.len() ==> tells_column(
                column_names()[i],
                event,
                show,
                address,
                #[trigger] row[i],
            ),
{
    law_columns_stand_in_order();
    assert forall|i: int| 0 <= i < row.len() implies tells_column(
        column_names()[i],
        event,
        show,
        address,
        #[trigger] row[i],
    ) by {
        lemma_cell_tells(row, event, show, address, i);
    }
}

/// What is written of an event is a row that is read back cell by cell, and each of its cells tells
/// what the name above it says of the event without its secrets.
pub proof fn law_line_tells_the_event<F: Fn(Scalar) -> String, G: Fn(IpAddr) -> String>(
    event: MeasurementEvent,
    show: F,
    address: G,
    line: String,
) -> (found: (MeasurementEvent, Seq<String>))
    requires
        call_ensures(event_line::<F, G>, (&event, &show, &address), line),
    ensures
        ({
            let (clean, row) = found;
            &&& sanitized_copy(event, clean)
            &&& row.len() == column_names().len()
            &&& line@ == csv_row(views(row))
            &&& reads_back(line@, views(row))
            &&& forall|i: int|
                0 <= i < row.len() ==> tells_column(
                    column_names()[i],
                    clean,
                    show,
                    address,
                    #[trigger] row[i],
                )
        }),
{
    assert(lays_out(line@, event, show, address));
    let (clean, row) = choose|clean: MeasurementEvent, row: Seq<String>|
        {
            &&& #[trigger] sanitized_copy(event, clean)
            &&& #[trigger] row_tells(row, clean, show, address)
            &&& line@ == csv_row(views(row))
            &&& reads_back(line@, views(row))
        };
    law_every_value_stands_under_its_name(row, clean, show, address);
    (clean, row)
}

proof fn lemma_lines_have_places(lines: Seq<Seq<char>>) -> (starts: Seq<int>)
    ensures
        starts.len() == lines.len() + 1,
        starts[0] == 0,
        starts[lines.len() as int] == joined_lines(lines).len(),
        forall|i: int|
            0 <= i < lines.len() ==> 0 <= #[trigger] starts[i] <= starts[i + 1]
                <= joined_lines(lines).len() && joined_lines(lines).subrange(
                starts[i],
                starts[i + 1],
            ) == lines[i],
    decreases lines.len(),
{
    if lines.len() == 0 {
        seq![0]
    } else {
        let fewer = lines.drop_last();
        let before = lemma_lines_have_places(fewer);
        let all = joined_lines(lines);
        let starts = before.push(all.len() as int);
        let last = lines.len() - 1;
        assert forall|i: int| 0 <= i < lines.len() implies 0 <= #[trigger] starts[i] <= starts[i
            + 1] <= all.len() && all.subrange(starts[i], starts[i + 1]) == lines[i] by {
            if i < last {
                assert(before[i] == starts[i] && before[i + 1] == starts[i + 1]);
                assert(all.subrange(starts[i], starts[i + 1]) =~= joined_lines(fewer).subrange(
                    before[i],
                    before[i + 1],
                ));
                assert(fewer[i] == lines[i]);
            } else {
                assert(all.subrange(starts[i], starts[i + 1]) =~= lines[i]);
            }
        }
        starts
    }
}

/// A batch holds a line for each of its events, in their order, and nothing before, between or
/// behind them.
pub proof fn law_batch_holds_a_line_for_every_event<
    F: Fn(Scalar) -> String,
    G: Fn(IpAddr) -> String,
>(events: Vec<MeasurementEvent>, show: F, address: G, text: String) -> (starts: Seq<int>)
    requires
        call_ensures(encode_batch::<F, G>, (&events, &show, &address), text),
    ensures
        starts.len() == events@.len() + 1,
        starts[0] == 0,
        starts[events@.len() as int] == text@.len(),
        forall|i: int|
            0 <= i < events@.len() ==> 0 <= #[trigger] starts[i] <= starts[i + 1] <= text@.len()
                && lays_out(text@.subrange(starts[i], starts[i + 1]), events@[i], show, address),
{
    assert(lays_out_all(text@, events@, show, address));
    let lines = choose|lines: Seq<Seq<char>>|
        {
            &&& lines.len() == events@.len()
            &&& text@ == #[trigger] joined_lines(lines)
            &&& forall|i: int|
                0 <= i < lines.len() ==> lays_out(#[trigger] lines[i], events@[i], show, address)
        };
    let starts = lemma_lines_have_places(lines);
    assert forall|i: int| 0 <= i < events@.len() implies 0 <= #[trigger] starts[i] <= starts[i + 1]
        <= text@.len() && lays_out(
        text@.subrange(starts[i], starts[i + 1]),
        events@[i],
        show,
        address,
    ) by {
        assert(lays_out(lines[i], events@[i], show, address));
    }
    starts
}

} // verus!
