//! The journal's columns: what is written of an event, and how a row is laid out.
use super::encode::{csv_row, encode_row, reads_back};
use crate::model::{
    ErrorKind, IpAddr, LoadPhase, MeasurementEvent, ProviderKind, RequestStage, RunId,
    TriggerReason, id_text, sanitized_copy,
};
use crate::names::{
    error_kind_name, error_kind_text, event_kind_name, event_kind_text, outcome_name, outcome_text,
    phase_name, phase_text, provider_name, provider_text, stage_name, stage_text, trigger_name,
    trigger_text,
};
use crate::scalar::Scalar;
use crate::text::{dec, decimal, lemma_dec_starts_with_a_digit};
use crate::time::{Timestamp, timestamp_text};
use vstd::prelude::*;
use vstd::string::StringExecFns;

verus! {

/// How many columns a row has.
pub const COLUMNS: usize = 52;

/// The names of the columns.
pub open spec fn column_names() -> Seq<Seq<char>> {
    seq![
        "schema_version"@,
        "run_id"@,
        "event_id"@,
        "scheduled_at_utc"@,
        "started_at_utc"@,
        "finished_at_utc"@,
        "interface"@,
        "local_ip"@,
        "connection_details"@,
        "event_kind"@,
        "trigger_reason"@,
        "load_phase"@,
        "load_run_id"@,
        "target"@,
        "sequence"@,
        "outcome"@,
        "duration_ms"@,
        "rtt_ms"@,
        "packets_sent"@,
        "packets_received"@,
        "packet_loss_pct"@,
        "icmp_type"@,
        "icmp_code"@,
        "provider_id"@,
        "provider_kind"@,
        "server"@,
        "remote_ip"@,
        "request_stage"@,
        "request_attempt"@,
        "http_status"@,
        "retry_after_ms"@,
        "rate_limit_until_utc"@,
        "daily_bandwidth_starts"@,
        "download_mbps"@,
        "upload_mbps"@,
        "upload_bytes"@,
        "download_bytes"@,
        "download_duration_ms"@,
        "upload_duration_ms"@,
        "download_local_ip"@,
        "upload_local_ip"@,
        "download_remote_ip"@,
        "upload_remote_ip"@,
        "download_tcp_min_rtt_ms"@,
        "download_tcp_rtt_ms"@,
        "download_tcp_retransmitted_bytes"@,
        "upload_tcp_min_rtt_ms"@,
        "upload_tcp_rtt_ms"@,
        "upload_tcp_retransmitted_bytes"@,
        "os_error_code"@,
        "error_kind"@,
        "error_message"@,
    ]
}

/// What texts say.
pub open spec fn views(texts: Seq<String>) -> Seq<Seq<char>> {
    texts.map_values(|text: String| text@)
}

/// The names of the columns.
pub fn csv_fields() -> (names: Vec<String>)
    ensures
        views(names@) == column_names(),
        names@.len() == COLUMNS,
{
    let mut names: Vec<String> = Vec::new();
    names.push("schema_version".to_owned());
    names.push("run_id".to_owned());
    names.push("event_id".to_owned());
    names.push("scheduled_at_utc".to_owned());
    names.push("started_at_utc".to_owned());
    names.push("finished_at_utc".to_owned());
    names.push("interface".to_owned());
    names.push("local_ip".to_owned());
    names.push("connection_details".to_owned());
    names.push("event_kind".to_owned());
    names.push("trigger_reason".to_owned());
    names.push("load_phase".to_owned());
    names.push("load_run_id".to_owned());
    names.push("target".to_owned());
    names.push("sequence".to_owned());
    names.push("outcome".to_owned());
    names.push("duration_ms".to_owned());
    names.push("rtt_ms".to_owned());
    names.push("packets_sent".to_owned());
    names.push("packets_received".to_owned());
    names.push("packet_loss_pct".to_owned());
    names.push("icmp_type".to_owned());
    names.push("icmp_code".to_owned());
    names.push("provider_id".to_owned());
    names.push("provider_kind".to_owned());
    names.push("server".to_owned());
    names.push("remote_ip".to_owned());
    names.push("request_stage".to_owned());
    names.push("request_attempt".to_owned());
    names.push("http_status".to_owned());
    names.push("retry_after_ms".to_owned());
    names.push("rate_limit_until_utc".to_owned());
    names.push("daily_bandwidth_starts".to_owned());
    names.push("download_mbps".to_owned());
    names.push("upload_mbps".to_owned());
    names.push("upload_bytes".to_owned());
    names.push("download_bytes".to_owned());
    names.push("download_duration_ms".to_owned());
    names.push("upload_duration_ms".to_owned());
    names.push("download_local_ip".to_owned());
    names.push("upload_local_ip".to_owned());
    names.push("download_remote_ip".to_owned());
    names.push("upload_remote_ip".to_owned());
    names.push("download_tcp_min_rtt_ms".to_owned());
    names.push("download_tcp_rtt_ms".to_owned());
    names.push("download_tcp_retransmitted_bytes".to_owned());
    names.push("upload_tcp_min_rtt_ms".to_owned());
    names.push("upload_tcp_rtt_ms".to_owned());
    names.push("upload_tcp_retransmitted_bytes".to_owned());
    names.push("os_error_code".to_owned());
    names.push("error_kind".to_owned());
    names.push("error_message".to_owned());
    proof {
        assert(views(names@) =~= column_names());
    }
    names
}

/// A text, or nothing.
pub open spec fn text_cell(text: Option<String>) -> Seq<char> {
    match text {
        Some(text) => text@,
        None => Seq::empty(),
    }
}

fn show_text(text: &Option<String>) -> (cell: String)
    ensures
        cell@ == text_cell(*text),
{
    match text {
        Some(text) => text.clone(),
        None => String::new(),
    }
}

/// A time of day, or nothing.
pub open spec fn time_cell(at: Option<Timestamp>) -> Seq<char> {
    match at {
        Some(at) => at.text_spec(),
        None => Seq::empty(),
    }
}

fn show_time(at: Option<Timestamp>) -> (cell: String)
    ensures
        cell@ == time_cell(at),
{
    match at {
        Some(at) => timestamp_text(at),
        None => String::new(),
    }
}

/// A run, or nothing.
pub open spec fn run_cell(run_id: Option<RunId>) -> Seq<char> {
    match run_id {
        Some(run_id) => id_text(run_id.value),
        None => Seq::empty(),
    }
}

fn show_run(run_id: Option<RunId>) -> (cell: String)
    ensures
        cell@ == run_cell(run_id),
{
    match run_id {
        Some(run_id) => run_id.text(),
        None => String::new(),
    }
}

/// A number, or nothing.
pub open spec fn u8_cell(number: Option<u8>) -> Seq<char> {
    match number {
        Some(number) => dec(number as nat),
        None => Seq::empty(),
    }
}

fn show_u8(number: Option<u8>) -> (cell: String)
    ensures
        cell@ == u8_cell(number),
{
    match number {
        Some(number) => decimal(number as u128),
        None => String::new(),
    }
}

/// A number, or nothing.
pub open spec fn u16_cell(number: Option<u16>) -> Seq<char> {
    match number {
        Some(number) => dec(number as nat),
        None => Seq::empty(),
    }
}

fn show_u16(number: Option<u16>) -> (cell: String)
    ensures
        cell@ == u16_cell(number),
{
    match number {
        Some(number) => decimal(number as u128),
        None => String::new(),
    }
}

/// A number, or nothing.
pub open spec fn u32_cell(number: Option<u32>) -> Seq<char> {
    match number {
        Some(number) => dec(number as nat),
        None => Seq::empty(),
    }
}

fn show_u32(number: Option<u32>) -> (cell: String)
    ensures
        cell@ == u32_cell(number),
{
    match number {
        Some(number) => decimal(number as u128),
        None => String::new(),
    }
}

/// A number, or nothing.
pub open spec fn u64_cell(number: Option<u64>) -> Seq<char> {
    match number {
        Some(number) => dec(number as nat),
        None => Seq::empty(),
    }
}

fn show_u64(number: Option<u64>) -> (cell: String)
    ensures
        cell@ == u64_cell(number),
{
    match number {
        Some(number) => decimal(number as u128),
        None => String::new(),
    }
}

/// A number that may be negative, or nothing.
pub open spec fn i32_cell(number: Option<i32>) -> Seq<char> {
    match number {
        Some(number) => if number < 0 {
            "-"@ + dec((-number) as nat)
        } else {
            dec(number as nat)
        },
        None => Seq::empty(),
    }
}

fn show_i32(number: Option<i32>) -> (cell: String)
    ensures
        cell@ == i32_cell(number),
{
    match number {
        Some(number) => if number < 0 {
            "-".to_owned().concat(&decimal((-(number as i64)) as u128))
        } else {
            decimal(number as u128)
        },
        None => String::new(),
    }
}

/// The share of a probe's packets that were lost, in percent: all, or none.
pub open spec fn loss_cell(received: Option<u32>) -> Seq<char> {
    match received {
        Some(count) => if count > 0 {
            "0.0"@
        } else {
            "100.0"@
        },
        None => Seq::empty(),
    }
}

fn show_loss(received: Option<u32>) -> (cell: String)
    ensures
        cell@ == loss_cell(received),
{
    match received {
        Some(count) => if count > 0 {
            "0.0".to_owned()
        } else {
            "100.0".to_owned()
        },
        None => String::new(),
    }
}

/// A number as the given function writes it, or nothing.
pub open spec fn scalar_cell<F: Fn(Scalar) -> String>(
    show: F,
    value: Option<Scalar>,
    cell: String,
) -> bool {
    match value {
        Some(value) => call_ensures(show, (value,), cell),
        None => cell@.len() == 0,
    }
}

fn show_scalar<F: Fn(Scalar) -> String>(show: &F, value: Option<Scalar>) -> (cell: String)
    requires
        forall|v: Scalar| #[trigger] call_requires(*show, (v,)),
    ensures
        scalar_cell(*show, value, cell),
{
    match value {
        Some(value) => show(value),
        None => String::new(),
    }
}

/// An address as the given function writes it, or nothing.
pub open spec fn address_cell<G: Fn(IpAddr) -> String>(
    show: G,
    value: Option<IpAddr>,
    cell: String,
) -> bool {
    match value {
        Some(value) => call_ensures(show, (value,), cell),
        None => cell@.len() == 0,
    }
}

fn show_address<G: Fn(IpAddr) -> String>(show: &G, value: Option<IpAddr>) -> (cell: String)
    requires
        forall|v: IpAddr| #[trigger] call_requires(*show, (v,)),
    ensures
        address_cell(*show, value, cell),
{
    match value {
        Some(value) => show(value),
        None => String::new(),
    }
}

pub open spec fn trigger_cell(value: Option<TriggerReason>) -> Seq<char> {
    match value {
        Some(value) => trigger_text(value),
        None => Seq::empty(),
    }
}

fn show_trigger(value: Option<TriggerReason>) -> (cell: String)
    ensures
        cell@ == trigger_cell(value),
{
    match value {
        Some(value) => trigger_name(value).to_owned(),
        None => String::new(),
    }
}

pub open spec fn phase_cell(value: Option<LoadPhase>) -> Seq<char> {
    match value {
        Some(value) => phase_text(value),
        None => Seq::empty(),
    }
}

fn show_phase(value: Option<LoadPhase>) -> (cell: String)
    ensures
        cell@ == phase_cell(value),
{
    match value {
        Some(value) => phase_name(value).to_owned(),
        None => String::new(),
    }
}

pub open spec fn provider_cell(value: Option<ProviderKind>) -> Seq<char> {
    match value {
        Some(value) => provider_text(value),
        None => Seq::empty(),
    }
}

fn show_provider(value: Option<ProviderKind>) -> (cell: String)
    ensures
        cell@ == provider_cell(value),
{
    match value {
        Some(value) => provider_name(value).to_owned(),
        None => String::new(),
    }
}

pub open spec fn stage_cell(value: Option<RequestStage>) -> Seq<char> {
    match value {
        Some(value) => stage_text(value),
        None => Seq::empty(),
    }
}

fn show_stage(value: Option<RequestStage>) -> (cell: String)
    ensures
        cell@ == stage_cell(value),
{
    match value {
        Some(value) => stage_name(value).to_owned(),
        None => String::new(),
    }
}

pub open spec fn error_kind_cell(value: Option<ErrorKind>) -> Seq<char> {
    match value {
        Some(value) => error_kind_text(value),
        None => Seq::empty(),
    }
}

fn show_error_kind(value: Option<ErrorKind>) -> (cell: String)
    ensures
        cell@ == error_kind_cell(value),
{
    match value {
        Some(value) => error_kind_name(value).to_owned(),
        None => String::new(),
    }
}

/// The first of two addresses that is there.
pub open spec fn first_ip(first: Option<IpAddr>, second: Option<IpAddr>) -> Option<IpAddr> {
    match first {
        Some(address) => Some(address),
        None => second,
    }
}

fn first_ip_of(first: Option<IpAddr>, second: Option<IpAddr>) -> (address: Option<IpAddr>)
    ensures
        address == first_ip(first, second),
{
    match first {
        Some(address) => Some(address),
        None => second,
    }
}

/// Where the probe, the request or the transfer left from. A test tells of its upload, or else of
/// its download.
pub open spec fn local_ip(event: MeasurementEvent) -> Option<IpAddr> {
    first_ip(
        event.ping_local_ip,
        first_ip(
            event.request_local_ip,
            first_ip(event.upload_local_ip, event.download_local_ip),
        ),
    )
}

fn local_ip_of(event: &MeasurementEvent) -> (address: Option<IpAddr>)
    ensures
        address == local_ip(*event),
{
    first_ip_of(
        event.ping_local_ip,
        first_ip_of(
            event.request_local_ip,
            first_ip_of(event.upload_local_ip, event.download_local_ip),
        ),
    )
}

/// Where the request or the transfer went. A test tells of its upload, or else of its download.
pub open spec fn remote_ip(event: MeasurementEvent) -> Option<IpAddr> {
    first_ip(
        event.request_remote_ip,
        first_ip(event.upload_remote_ip, event.download_remote_ip),
    )
}

fn remote_ip_of(event: &MeasurementEvent) -> (address: Option<IpAddr>)
    ensures
        address == remote_ip(*event),
{
    first_ip_of(
        event.request_remote_ip,
        first_ip_of(event.upload_remote_ip, event.download_remote_ip),
    )
}

/// When the provider may be asked again.
pub open spec fn retry_time(event: MeasurementEvent) -> Option<Timestamp> {
    match event.scheduler_not_before_utc {
        Some(at) => Some(at),
        None => event.request_retry_at_utc,
    }
}

fn retry_time_of(event: &MeasurementEvent) -> (at: Option<Timestamp>)
    ensures
        at == retry_time(*event),
{
    match event.scheduler_not_before_utc {
        Some(at) => Some(at),
        None => event.request_retry_at_utc,
    }
}

/// The row tells of an event.
pub open spec fn row_tells<F: Fn(Scalar) -> String, G: Fn(IpAddr) -> String>(
    row: Seq<String>,
    event: MeasurementEvent,
    show: F,
    address: G,
) -> bool {
    &&& row.len() == COLUMNS
    &&& row[0]@ == u8_cell(Some(event.schema_version))
    &&& row[1]@ == id_text(event.run_id.value)
    &&& row[2]@ == id_text(event.event_id.value)
    &&& row[3]@ == time_cell(event.scheduled_at_utc)
    &&& row[4]@ == time_cell(event.started_at_utc)
    &&& row[5]@ == time_cell(event.finished_at_utc)
    &&& row[6]@ == text_cell(event.interface)
    &&& address_cell(address, local_ip(event), row[7])
    &&& row[8]@ == text_cell(event.connection_details)
    &&& row[9]@ == event_kind_text(event.event_kind)
    &&& row[10]@ == trigger_cell(event.trigger_reason)
    &&& row[11]@ == phase_cell(event.load_phase)
    &&& row[12]@ == run_cell(event.load_run_id)
    &&& row[13]@ == text_cell(event.ping_target_ip)
    &&& row[14]@ == u16_cell(event.ping_sequence)
    &&& row[15]@ == outcome_text(event.outcome)
    &&& scalar_cell(show, event.elapsed_ms, row[16])
    &&& scalar_cell(show, event.ping_rtt_ms, row[17])
    &&& row[18]@ == u32_cell(event.ping_packets_sent)
    &&& row[19]@ == u32_cell(event.ping_packets_received)
    &&& row[20]@ == loss_cell(event.ping_packets_received)
    &&& row[21]@ == u8_cell(event.ping_icmp_type)
    &&& row[22]@ == u8_cell(event.ping_icmp_code)
    &&& row[23]@ == text_cell(event.provider_id)
    &&& row[24]@ == provider_cell(event.provider_kind)
    &&& row[25]@ == text_cell(event.server_name)
    &&& address_cell(address, remote_ip(event), row[26])
    &&& row[27]@ == stage_cell(event.request_stage)
    &&& row[28]@ == u32_cell(event.request_attempt)
    &&& row[29]@ == u16_cell(event.request_http_status)
    &&& row[30]@ == u64_cell(event.request_retry_after_ms)
    &&& row[31]@ == time_cell(retry_time(event))
    &&& row[32]@ == u32_cell(event.provider_daily_starts)
    &&& scalar_cell(show, event.download_mbps, row[33])
    &&& scalar_cell(show, event.upload_mbps, row[34])
    &&& row[35]@ == u64_cell(event.upload_bytes)
    &&& row[36]@ == u64_cell(event.download_bytes)
    &&& scalar_cell(show, event.download_measurement_duration_ms, row[37])
    &&& scalar_cell(show, event.upload_measurement_duration_ms, row[38])
    &&& address_cell(address, event.download_local_ip, row[39])
    &&& address_cell(address, event.upload_local_ip, row[40])
    &&& address_cell(address, event.download_remote_ip, row[41])
    &&& address_cell(address, event.upload_remote_ip, row[42])
    &&& scalar_cell(show, event.download_server_tcp_min_rtt_ms, row[43])
    &&& scalar_cell(show, event.download_server_tcp_rtt_ms, row[44])
    &&& row[45]@ == u64_cell(event.download_server_tcp_retransmitted_bytes)
    &&& scalar_cell(show, event.upload_server_tcp_min_rtt_ms, row[46])
    &&& scalar_cell(show, event.upload_server_tcp_rtt_ms, row[47])
    &&& row[48]@ == u64_cell(event.upload_server_tcp_retransmitted_bytes)
    &&& row[49]@ == i32_cell(event.os_error_code)
    &&& row[50]@ == error_kind_cell(event.error_kind)
    &&& row[51]@ == text_cell(event.message)
}

/// The row of an event that holds no secrets.
fn row_of<F: Fn(Scalar) -> String, G: Fn(IpAddr) -> String>(
    event: &MeasurementEvent,
    show: &F,
    address: &G,
) -> (row: Vec<String>)
    requires
        forall|v: Scalar| #[trigger] call_requires(*show, (v,)),
        forall|v: IpAddr| #[trigger] call_requires(*address, (v,)),
    ensures
        row_tells(row@, *event, *show, *address),
{
    vec![
        show_u8(Some(event.schema_version)),
        event.run_id.text(),
        event.event_id.text(),
        show_time(event.scheduled_at_utc),
        show_time(event.started_at_utc),
        show_time(event.finished_at_utc),
        show_text(&event.interface),
        show_address(address, local_ip_of(event)),
        show_text(&event.connection_details),
        event_kind_name(event.event_kind).to_owned(),
        show_trigger(event.trigger_reason),
        show_phase(event.load_phase),
        show_run(event.load_run_id),
        show_text(&event.ping_target_ip),
        show_u16(event.ping_sequence),
        outcome_name(event.outcome).to_owned(),
        show_scalar(show, event.elapsed_ms),
        show_scalar(show, event.ping_rtt_ms),
        show_u32(event.ping_packets_sent),
        show_u32(event.ping_packets_received),
        show_loss(event.ping_packets_received),
        show_u8(event.ping_icmp_type),
        show_u8(event.ping_icmp_code),
        show_text(&event.provider_id),
        show_provider(event.provider_kind),
        show_text(&event.server_name),
        show_address(address, remote_ip_of(event)),
        show_stage(event.request_stage),
        show_u32(event.request_attempt),
        show_u16(event.request_http_status),
        show_u64(event.request_retry_after_ms),
        show_time(retry_time_of(event)),
        show_u32(event.provider_daily_starts),
        show_scalar(show, event.download_mbps),
        show_scalar(show, event.upload_mbps),
        show_u64(event.upload_bytes),
        show_u64(event.download_bytes),
        show_scalar(show, event.download_measurement_duration_ms),
        show_scalar(show, event.upload_measurement_duration_ms),
        show_address(address, event.download_local_ip),
        show_address(address, event.upload_local_ip),
        show_address(address, event.download_remote_ip),
        show_address(address, event.upload_remote_ip),
        show_scalar(show, event.download_server_tcp_min_rtt_ms),
        show_scalar(show, event.download_server_tcp_rtt_ms),
        show_u64(event.download_server_tcp_retransmitted_bytes),
        show_scalar(show, event.upload_server_tcp_min_rtt_ms),
        show_scalar(show, event.upload_server_tcp_rtt_ms),
        show_u64(event.upload_server_tcp_retransmitted_bytes),
        show_i32(event.os_error_code),
        show_error_kind(event.error_kind),
        show_text(&event.message),
    ]
}

/// The row of an event, as it is laid out in the journal: without secrets. It is read back as it
/// was written.
pub open spec fn lays_out<F: Fn(Scalar) -> String, G: Fn(IpAddr) -> String>(
    line: Seq<char>,
    event: MeasurementEvent,
    show: F,
    address: G,
) -> bool {
    exists|clean: MeasurementEvent, row: Seq<String>|
        {
            &&& #[trigger] sanitized_copy(event, clean)
            &&& #[trigger] row_tells(row, clean, show, address)
            &&& line == csv_row(views(row))
            &&& reads_back(line, views(row))
        }
}

/// Lays out the row of an event. `show` writes a number and `address` an address.
pub fn event_line<F: Fn(Scalar) -> String, G: Fn(IpAddr) -> String>(
    event: &MeasurementEvent,
    show: &F,
    address: &G,
) -> (line: String)
    requires
        forall|v: Scalar| #[trigger] call_requires(*show, (v,)),
        forall|v: IpAddr| #[trigger] call_requires(*address, (v,)),
    ensures
        lays_out(line@, *event, *show, *address),
{
    let clean = event.sanitized();
    let row = row_of(&clean, show, address);
    let line = encode_row(&row);
    proof {
        assert(row_tells(row@, clean, *show, *address));
        lemma_dec_starts_with_a_digit(clean.schema_version as nat);
        assert(views(row@)[0] == dec(clean.schema_version as nat));
        assert(line@ == csv_row(views(row@)));
    }
    line
}

/// The first line of a journal.
pub open spec fn header_line() -> Seq<char> {
    csv_row(column_names())
}

/// The first line of a journal.
pub fn csv_header_line() -> (line: String)
    ensures
        line@ == header_line(),
        reads_back(line@, column_names()),
{
    proof {
        reveal_strlit("schema_version");
        assert(column_names()[0] == "schema_version"@);
    }
    encode_row(&csv_fields())
}

/// The lines of some events, one after the other.
pub open spec fn joined_lines(lines: Seq<Seq<char>>) -> Seq<char>
    decreases lines.len(),
{
    if lines.len() == 0 {
        Seq::empty()
    } else {
        joined_lines(lines.drop_last()) + lines.last()
    }
}

/// The text holds the rows of the events in order.
pub open spec fn lays_out_all<F: Fn(Scalar) -> String, G: Fn(IpAddr) -> String>(
    text: Seq<char>,
    events: Seq<MeasurementEvent>,
    show: F,
    address: G,
) -> bool {
    exists|lines: Seq<Seq<char>>|
        {
            &&& lines.len() == events.len()
            &&& text == #[trigger] joined_lines(lines)
            &&& forall|i: int|
                0 <= i < lines.len() ==> lays_out(#[trigger] lines[i], events[i], show, address)
        }
}

/// Lays out the rows of events in order.
pub fn encode_batch<F: Fn(Scalar) -> String, G: Fn(IpAddr) -> String>(
    events: &Vec<MeasurementEvent>,
    show: &F,
    address: &G,
) -> (text: String)
    requires
        forall|v: Scalar| #[trigger] call_requires(*show, (v,)),
        forall|v: IpAddr| #[trigger] call_requires(*address, (v,)),
    ensures
        lays_out_all(text@, events@, *show, *address),
{
    let mut text = String::new();
    let ghost mut lines: Seq<Seq<char>> = Seq::empty();
    let mut i: usize = 0;
    while i < events.len()
        invariant
            i <= events@.len(),
            lines.len() == i,
            text@ == joined_lines(lines),
            forall|v: Scalar| #[trigger] call_requires(*show, (v,)),
            forall|v: IpAddr| #[trigger] call_requires(*address, (v,)),
            forall|k: int|
                0 <= k < i ==> lays_out(#[trigger] lines[k], events@[k], *show, *address),
        decreases events@.len() - i,
    {
        let line = event_line(&events[i], show, address);
        text = text.concat(&line);
        proof {
            let before = lines;
            lines = before.push(line@);
            assert(lines.drop_last() == before);
        }
        i += 1;
    }
    text
}

} // verus!
