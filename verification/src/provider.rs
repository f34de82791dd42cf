//! Where bandwidth tests run.
use crate::config::{BandwidthConfig, DirectConfig, ProviderConfig};
use crate::endpoint::{Url, UrlView, parse_url, parsed_url};
use crate::model::{ErrorKind, IpAddr, Outcome, ProviderKind, RequestStage};
use crate::sanitize::{is_whitespace, whitespace};
use crate::string_map::{StringMap, lookup};
use crate::text::{chars_of, clone_text, same_text, string_of, text_view};
use crate::time::{Duration, Timestamp, add_duration, later};
use vstd::prelude::*;
use vstd::string::StringExecFns;

verus! {

/// How the program names itself to servers.
pub const USER_AGENT: &'static str = "netband/0.1.0";

/// An NDT7 server that a test may run against.
pub struct EndpointCandidate {
    pub download_url: Url,
    pub upload_url: Url,
    pub logical_server: String,
    pub provider_id: String,
    pub provider_kind: ProviderKind,
    pub tls_server_name: Option<String>,
    pub ca_cert: Option<String>,
    pub allow_insecure: bool,
}

pub struct CandidateView {
    pub download_url: UrlView,
    pub upload_url: UrlView,
    pub logical_server: Seq<char>,
    pub provider_id: Seq<char>,
    pub provider_kind: ProviderKind,
    pub tls_server_name: Option<Seq<char>>,
    pub ca_cert: Option<Seq<char>>,
    pub allow_insecure: bool,
}

impl View for EndpointCandidate {
    type V = CandidateView;

    open spec fn view(&self) -> CandidateView {
        CandidateView {
            download_url: self.download_url@,
            upload_url: self.upload_url@,
            logical_server: self.logical_server@,
            provider_id: self.provider_id@,
            provider_kind: self.provider_kind,
            tls_server_name: text_view(self.tls_server_name),
            ca_cert: text_view(self.ca_cert),
            allow_insecure: self.allow_insecure,
        }
    }
}

/// How far a failure reaches.
#[derive(Clone, Copy, Debug, PartialEq, Eq, Structural)]
pub enum FailureDisposition {
    /// Nothing more is asked of the provider.
    ProviderWide,
    /// Another server may do.
    TryNextTarget,
    /// The test goes on as far as it can.
    Terminal,
}

/// When a server wants to be asked again.
#[derive(Clone, Copy, Debug, PartialEq, Eq, Structural)]
pub struct RetryAfter {
    pub delay: Duration,
    pub deadline: Timestamp,
}

/// A request that failed.
#[derive(Debug, PartialEq, Eq)]
pub struct RequestFailure {
    pub started_at_utc: Timestamp,
    pub finished_at_utc: Timestamp,
    pub stage: RequestStage,
    pub outcome: Outcome,
    pub error_kind: ErrorKind,
    pub message: String,
    pub server_name: Option<String>,
    pub request_url: Option<String>,
    pub local_ip: Option<IpAddr>,
    pub remote_ip: Option<IpAddr>,
    pub os_error_code: Option<i32>,
    pub attempt: u32,
    pub http_status: Option<u16>,
    pub retry_after: Option<RetryAfter>,
    pub disposition: FailureDisposition,
}

pub struct FailureView {
    pub started_at_utc: Timestamp,
    pub finished_at_utc: Timestamp,
    pub stage: RequestStage,
    pub outcome: Outcome,
    pub error_kind: ErrorKind,
    pub message: Seq<char>,
    pub server_name: Option<Seq<char>>,
    pub request_url: Option<Seq<char>>,
    pub local_ip: Option<IpAddr>,
    pub remote_ip: Option<IpAddr>,
    pub os_error_code: Option<i32>,
    pub attempt: u32,
    pub http_status: Option<u16>,
    pub retry_after: Option<RetryAfter>,
    pub disposition: FailureDisposition,
}

impl View for RequestFailure {
    type V = FailureView;

    open spec fn view(&self) -> FailureView {
        FailureView {
            started_at_utc: self.started_at_utc,
            finished_at_utc: self.finished_at_utc,
            stage: self.stage,
            outcome: self.outcome,
            error_kind: self.error_kind,
            message: self.message@,
            server_name: text_view(self.server_name),
            request_url: text_view(self.request_url),
            local_ip: self.local_ip,
            remote_ip: self.remote_ip,
            os_error_code: self.os_error_code,
            attempt: self.attempt,
            http_status: self.http_status,
            retry_after: self.retry_after,
            disposition: self.disposition,
        }
    }
}

/// A failure of which little is known.
pub open spec fn plain_failure(
    stage: RequestStage,
    error_kind: ErrorKind,
    message: Seq<char>,
    request_url: Option<Seq<char>>,
    attempt: u32,
    now: Timestamp,
) -> FailureView {
    FailureView {
        started_at_utc: now,
        finished_at_utc: now,
        stage,
        outcome: Outcome::Error,
        error_kind,
        message,
        server_name: None,
        request_url,
        local_ip: None,
        remote_ip: None,
        os_error_code: None,
        attempt,
        http_status: None,
        retry_after: None,
        disposition: FailureDisposition::Terminal,
    }
}

impl RequestFailure {
    pub fn simple(
        stage: RequestStage,
        error_kind: ErrorKind,
        message: String,
        request_url: Option<String>,
        attempt: u32,
        now: Timestamp,
    ) -> (failure: Self)
        ensures
            failure@ == plain_failure(
                stage,
                error_kind,
                message@,
                text_view(request_url),
                attempt,
                now,
            ),
    {
        RequestFailure {
            started_at_utc: now,
            finished_at_utc: now,
            stage,
            outcome: Outcome::Error,
            error_kind,
            message,
            server_name: None,
            request_url,
            local_ip: None,
            remote_ip: None,
            os_error_code: None,
            attempt,
            http_status: None,
            retry_after: None,
            disposition: FailureDisposition::Terminal,
        }
    }
}

impl Clone for RequestFailure {
    fn clone(&self) -> (copy: Self)
        ensures
            copy == *self,
    {
        RequestFailure {
            started_at_utc: self.started_at_utc,
            finished_at_utc: self.finished_at_utc,
            stage: self.stage,
            outcome: self.outcome,
            error_kind: self.error_kind,
            message: self.message.clone(),
            server_name: clone_text(&self.server_name),
            request_url: clone_text(&self.request_url),
            local_ip: self.local_ip,
            remote_ip: self.remote_ip,
            os_error_code: self.os_error_code,
            attempt: self.attempt,
            http_status: self.http_status,
            retry_after: self.retry_after,
            disposition: self.disposition,
        }
    }
}

pub open spec fn failure_views(failures: Seq<RequestFailure>) -> Seq<FailureView> {
    failures.map_values(|failure: RequestFailure| failure@)
}

pub open spec fn candidate_views(candidates: Seq<EndpointCandidate>) -> Seq<CandidateView> {
    candidates.map_values(|candidate: EndpointCandidate| candidate@)
}

pub open spec fn failure_view(failure: Option<RequestFailure>) -> Option<FailureView> {
    match failure {
        Some(f) => Some(f@),
        None => None,
    }
}

/// The servers that a test may run against, and what went wrong in finding them. Where there is a
/// terminal failure no test can run.
pub struct EndpointResolution {
    pub candidates: Vec<EndpointCandidate>,
    pub failures: Vec<RequestFailure>,
    pub terminal: Option<RequestFailure>,
}

#[verifier::ext_equal]
pub struct ResolutionView {
    pub candidates: Seq<CandidateView>,
    pub failures: Seq<FailureView>,
    pub terminal: Option<FailureView>,
}

impl View for EndpointResolution {
    type V = ResolutionView;

    open spec fn view(&self) -> ResolutionView {
        ResolutionView {
            candidates: candidate_views(self.candidates@),
            failures: failure_views(self.failures@),
            terminal: failure_view(self.terminal),
        }
    }
}

/// A resolution that has come to nothing.
pub open spec fn failed_resolution(failure: FailureView) -> ResolutionView {
    ResolutionView {
        candidates: Seq::empty(),
        failures: Seq::empty(),
        terminal: Some(failure),
    }
}

fn terminal_resolution(failure: RequestFailure) -> (resolution: EndpointResolution)
    ensures
        resolution@ == failed_resolution(failure@),
{
    let resolution = EndpointResolution {
        candidates: Vec::new(),
        failures: Vec::new(),
        terminal: Some(failure),
    };
    proof {
        assert(candidate_views(resolution.candidates@) =~= Seq::empty());
        assert(failure_views(resolution.failures@) =~= Seq::empty());
    }
    resolution
}

/// The one server of a direct provider.
pub open spec fn direct_candidate(config: BandwidthConfig, direct: DirectConfig) -> CandidateView {
    CandidateView {
        download_url: direct.download_url@,
        upload_url: direct.upload_url@,
        logical_server: match direct.tls_server_name {
            Some(name) => name@,
            None => match direct.download_url.host {
                Some(host) => host@,
                None => "unknown"@,
            },
        },
        provider_id: config.provider_id@,
        provider_kind: ProviderKind::Direct,
        tls_server_name: text_view(direct.tls_server_name),
        ca_cert: text_view(direct.ca_cert),
        allow_insecure: direct.allow_insecure,
    }
}

fn resolve_direct(config: &BandwidthConfig, direct: &DirectConfig) -> (resolution:
    EndpointResolution)
    ensures
        resolution@ == (ResolutionView {
            candidates: seq![direct_candidate(*config, *direct)],
            failures: Seq::empty(),
            terminal: None,
        }),
{
    let logical_server = match &direct.tls_server_name {
        Some(name) => name.clone(),
        None => match &direct.download_url.host {
            Some(host) => host.clone(),
            None => "unknown".to_owned(),
        },
    };
    let mut candidates: Vec<EndpointCandidate> = Vec::new();
    candidates.push(
        EndpointCandidate {
            download_url: direct.download_url.clone(),
            upload_url: direct.upload_url.clone(),
            logical_server,
            provider_id: config.provider_id.clone(),
            provider_kind: ProviderKind::Direct,
            tls_server_name: clone_text(&direct.tls_server_name),
            ca_cert: clone_text(&direct.ca_cert),
            allow_insecure: direct.allow_insecure,
        },
    );
    let resolution = EndpointResolution { candidates, failures: Vec::new(), terminal: None };
    proof {
        assert(candidate_views(resolution.candidates@) =~= seq![
            direct_candidate(*config, *direct),
        ]);
        assert(failure_views(resolution.failures@) =~= Seq::empty());
    }
    resolution
}

/// How the servers of a provider are found.
pub enum ResolutionPlan {
    /// They are known, or none may be asked for.
    Known(EndpointResolution),
    /// M-Lab has to be asked for servers near here.
    AskLocate,
}

/// What resolving comes to without asking anyone.
pub open spec fn known_resolution(config: BandwidthConfig, now: Timestamp) -> Option<
    ResolutionView,
> {
    match config.provider {
        ProviderConfig::Direct(direct) => Some(
            ResolutionView {
                candidates: seq![direct_candidate(config, direct)],
                failures: Seq::empty(),
                terminal: None,
            },
        ),
        ProviderConfig::Mlab(mlab) => if mlab.policy_accepted {
            None
        } else {
            Some(
                failed_resolution(
                    plain_failure(
                        RequestStage::Locate,
                        ErrorKind::PermissionDenied,
                        "M-Lab bandwidth requires explicit policy acceptance"@,
                        Some(mlab.locate_url.text@),
                        0,
                        now,
                    ),
                ),
            )
        },
    }
}

/// Decides how the servers of a provider are found. M-Lab is not asked before its policy was
/// accepted.
pub fn plan_resolution(config: &BandwidthConfig, now: Timestamp) -> (plan: ResolutionPlan)
    ensures
        match plan {
            ResolutionPlan::Known(resolution) => known_resolution(*config, now) == Some(
                resolution@,
            ),
            ResolutionPlan::AskLocate => known_resolution(*config, now) is None,
        },
{
    match &config.provider {
        ProviderConfig::Direct(direct) => ResolutionPlan::Known(resolve_direct(config, direct)),
        ProviderConfig::Mlab(mlab) => {
            if mlab.policy_accepted {
                ResolutionPlan::AskLocate
            } else {
                ResolutionPlan::Known(
                    terminal_resolution(
                        RequestFailure::simple(
                            RequestStage::Locate,
                            ErrorKind::PermissionDenied,
                            "M-Lab bandwidth requires explicit policy acceptance".to_owned(),
                            Some(mlab.locate_url.text.clone()),
                            0,
                            now,
                        ),
                    ),
                )
            }
        },
    }
}

/// The failures of a resolution, told from when it began.
pub open spec fn stamped(resolution: ResolutionView, started_at: Timestamp) -> ResolutionView {
    ResolutionView {
        failures: resolution.failures.map_values(
            |failure: FailureView| FailureView { started_at_utc: started_at, ..failure },
        ),
        terminal: match resolution.terminal {
            Some(failure) => Some(FailureView { started_at_utc: started_at, ..failure }),
            None => None,
        },
        ..resolution
    }
}

/// Notes when a resolution began in all of its failures.
pub fn stamp_resolution(resolution: EndpointResolution, started_at: Timestamp) -> (result:
    EndpointResolution)
    ensures
        result@ == stamped(resolution@, started_at),
{
    let mut result = resolution;
    let ghost before = result.failures@;
    let mut i: usize = 0;
    while i < result.failures.len()
        invariant
            i <= before.len(),
            result.failures@.len() == before.len(),
            result.candidates == resolution.candidates,
            result.terminal == resolution.terminal,
            forall|k: int|
                0 <= k < i ==> (#[trigger] result.failures@[k])@ == (FailureView {
                    started_at_utc: started_at,
                    ..before[k]@
                }),
            forall|k: int| i <= k < before.len() ==> #[trigger] result.failures@[k] == before[k],
        decreases before.len() - i,
    {
        let mut failure = result.failures[i].clone();
        failure.started_at_utc = started_at;
        result.failures.set(i, failure);
        i += 1;
    }
    if result.terminal.is_some() {
        let mut failure = result.terminal.unwrap();
        failure.started_at_utc = started_at;
        result.terminal = Some(failure);
    }
    proof {
        assert(result@.failures =~= stamped(resolution@, started_at).failures);
    }
    result
}

/// A text without the white space around it.
pub open spec fn trimmed(text: Seq<char>) -> Seq<char>
    decreases text.len(),
{
    if text.len() > 0 && whitespace(text[0]) {
        trimmed(text.drop_first())
    } else if text.len() > 0 && whitespace(text.last()) {
        trimmed(text.drop_last())
    } else {
        text
    }
}

pub fn trim(text: &str) -> (result: String)
    ensures
        result@ == trimmed(text@),
{
    let mut chars = chars_of(text);
    while chars.len() > 0 && is_whitespace(chars[0])
        invariant
            trimmed(text@) == trimmed(chars@),
        decreases chars@.len(),
    {
        let ghost before = chars@;
        chars.remove(0);
        proof {
            assert(chars@ =~= before.drop_first());
        }
    }
    while chars.len() > 0 && is_whitespace(chars[chars.len() - 1])
        invariant
            trimmed(text@) == trimmed(chars@),
            chars@.len() > 0 ==> !whitespace(chars@[0]),
        decreases chars@.len(),
    {
        chars.pop();
    }
    string_of(&chars)
}

/// A text of one or more decimal digits.
pub open spec fn all_digits(text: Seq<char>) -> bool {
    text.len() > 0 && forall|i: int|
        0 <= i < text.len() ==> '0' <= #[trigger] text[i] && text[i] <= '9'
}

/// The number that decimal digits stand for.
pub open spec fn number(text: Seq<char>) -> nat
    decreases text.len(),
{
    if text.len() == 0 {
        0
    } else {
        (number(text.drop_last()) * 10 + (text.last() as int - '0' as int)) as nat
    }
}

fn is_all_digits(chars: &Vec<char>) -> (yes: bool)
    ensures
        yes == all_digits(chars@),
{
    if chars.len() == 0 {
        return false;
    }
    let mut i: usize = 0;
    while i < chars.len()
        invariant
            i <= chars@.len(),
            forall|k: int| 0 <= k < i ==> '0' <= #[trigger] chars@[k] && chars@[k] <= '9',
        decreases chars@.len() - i,
    {
        let c: char = chars[i];
        if !('0' <= c && c <= '9') {
            return false;
        }
        i += 1;
    }
    true
}

proof fn lemma_number_grows(text: Seq<char>, n: int)
    requires
        all_digits(text),
        0 <= n <= text.len(),
    ensures
        number(text.take(n)) <= number(text),
    decreases text.len() - n,
{
    if n < text.len() {
        lemma_number_grows(text, n + 1);
        assert(text.take(n + 1).drop_last() == text.take(n));
        assert('0' <= text[n]);
    } else {
        assert(text.take(n) == text);
    }
}

fn parse_number(chars: &Vec<char>) -> (value: Option<u64>)
    requires
        all_digits(chars@),
    ensures
        match value {
            Some(v) => v == number(chars@),
            None => number(chars@) > u64::MAX,
        },
{
    let mut value: u64 = 0;
    let mut i: usize = 0;
    while i < chars.len()
        invariant
            all_digits(chars@),
            i <= chars@.len(),
            value == number(chars@.take(i as int)),
        decreases chars@.len() - i,
    {
        let c: char = chars[i];
        proof {
            assert('0' <= chars@[i as int] && chars@[i as int] <= '9');
            assert(chars@.take(i + 1).drop_last() == chars@.take(i as int));
            lemma_number_grows(chars@, i + 1);
        }
        let digit: u64 = (c as u8 - 48) as u64;
        match value.checked_mul(10) {
            None => {
                return None;
            },
            Some(tens) => match tens.checked_add(digit) {
                None => {
                    return None;
                },
                Some(sum) => {
                    value = sum;
                },
            },
        }
        i += 1;
    }
    proof {
        assert(chars@.take(chars@.len() as int) == chars@);
    }
    Some(value)
}

/// What date `httpdate` reads in a text, in seconds from the epoch.
pub uninterp spec fn http_date(text: Seq<char>) -> Option<u64>;

/// `httpdate::parse_http_date`: the date that a text names, if it names one, is a function of the
/// text. It lies in the years up to 9999.
#[verifier::external_body]
fn parse_http_date(text: &str) -> (date: Option<u64>)
    ensures
        date == http_date(text@),
        date is Some ==> date->0 <= 253_402_300_799,
{
    let date = httpdate::parse_http_date(text).ok()?;
    date.duration_since(std::time::UNIX_EPOCH).ok().map(|since| since.as_secs())
}

/// The wait until a date, from an instant.
pub open spec fn wait_until(deadline: Timestamp, received_at: Timestamp) -> Duration {
    if deadline.nanos > received_at.nanos {
        Duration { nanos: (deadline.nanos - received_at.nanos) as u128 }
    } else {
        Duration { nanos: 0 }
    }
}

/// What a date asks for.
pub open spec fn dated_retry(date: Option<u64>, received_at: Timestamp) -> Option<RetryAfter> {
    match date {
        Some(secs) => {
            let deadline = Timestamp { nanos: (secs * 1_000_000_000) as i128 };
            Some(RetryAfter { delay: wait_until(deadline, received_at), deadline })
        },
        None => None,
    }
}

/// What a server that is busy asks for: a number of seconds or a date. A delay beyond all dates
/// is kept and ends with the last date.
pub open spec fn retry_after_of(
    value: Seq<char>,
    received_at: Timestamp,
    date: Option<u64>,
) -> Option<RetryAfter> {
    let text = trimmed(value);
    if all_digits(text) {
        if number(text) <= u64::MAX {
            let delay = Duration { nanos: (number(text) * 1_000_000_000) as u128 };
            Some(RetryAfter { delay, deadline: later(received_at, delay) })
        } else {
            None
        }
    } else {
        dated_retry(date, received_at)
    }
}

/// What a date asks for, given what date it is.
pub fn retry_at_date(date: Option<u64>, received_at: Timestamp) -> (retry: Option<RetryAfter>)
    requires
        received_at.valid(),
    ensures
        retry == dated_retry(date, received_at),
{
    match date {
        Some(secs) => {
            let deadline = Timestamp { nanos: secs as i128 * 1_000_000_000 };
            let delay = if deadline.nanos > received_at.nanos {
                Duration { nanos: (deadline.nanos - received_at.nanos) as u128 }
            } else {
                Duration { nanos: 0 }
            };
            Some(RetryAfter { delay, deadline })
        },
        None => None,
    }
}

/// Reads what a server that is busy asks for.
pub fn parse_retry_after_value(value: &str, received_at: Timestamp) -> (retry: Option<RetryAfter>)
    requires
        received_at.valid(),
    ensures
        retry == retry_after_of(value@, received_at, http_date(trimmed(value@))),
{
    let text = trim(value);
    let chars = chars_of(&text);
    if is_all_digits(&chars) {
        return match parse_number(&chars) {
            Some(secs) => {
                let delay = Duration::from_secs(secs);
                Some(RetryAfter { delay, deadline: add_duration(received_at, delay) })
            },
            None => None,
        };
    }
    retry_at_date(parse_http_date(&text), received_at)
}

/// A header that asks to wait: its text, where that can be read.
pub struct RetryHeader {
    pub text: Option<String>,
}

/// What a header asks for.
pub open spec fn header_retry(header: Option<RetryHeader>, received_at: Timestamp) -> Option<
    RetryAfter,
> {
    match header {
        Some(RetryHeader { text: Some(text) }) => retry_after_of(
            text@,
            received_at,
            http_date(trimmed(text@)),
        ),
        _ => None,
    }
}

/// Reads what a header asks for.
pub fn parse_retry_after(header: &Option<RetryHeader>, received_at: Timestamp) -> (retry: Option<
    RetryAfter,
>)
    requires
        received_at.valid(),
    ensures
        retry == header_retry(*header, received_at),
{
    match header {
        Some(header) => match &header.text {
            Some(text) => parse_retry_after_value(text, received_at),
            None => None,
        },
        None => None,
    }
}

/// What is said of a header that asks to wait.
pub open spec fn retry_detail_text(present: bool, parsed: bool) -> Seq<char> {
    if !present {
        "Retry-After missing"@
    } else if parsed {
        "Retry-After parsed"@
    } else {
        "Retry-After malformed"@
    }
}

pub fn retry_detail(present: bool, parsed: bool) -> (text: &'static str)
    ensures
        text@ == retry_detail_text(present, parsed),
{
    if !present {
        "Retry-After missing"
    } else if parsed {
        "Retry-After parsed"
    } else {
        "Retry-After malformed"
    }
}

/// What a status other than success says.
pub open spec fn locate_status(status: u16, asked_to_wait: bool) -> (Outcome, Seq<char>) {
    if status == 204 {
        (Outcome::NoCapacity, "Locate returned no capacity"@)
    } else if status == 429 {
        (Outcome::RateLimited, "Locate rate limit"@)
    } else if status == 503 && asked_to_wait {
        (Outcome::RateLimited, "Locate service requested a retry delay"@)
    } else if status == 503 {
        (Outcome::Error, "Locate service unavailable"@)
    } else {
        (Outcome::Error, "Locate returned an unexpected status"@)
    }
}

/// The failure that a status other than success is, given when the server wants to be asked
/// again.
pub open spec fn status_failure(
    status: u16,
    header_present: bool,
    retry_after: Option<RetryAfter>,
    received_at: Timestamp,
    locate_url: Seq<char>,
) -> FailureView {
    let (outcome, message) = locate_status(status, retry_after is Some);
    FailureView {
        outcome,
        error_kind: ErrorKind::HttpStatus,
        message: message + "; "@ + retry_detail_text(header_present, retry_after is Some),
        http_status: Some(status),
        retry_after,
        disposition: FailureDisposition::ProviderWide,
        ..plain_failure(
            RequestStage::Locate,
            ErrorKind::HttpStatus,
            Seq::empty(),
            Some(locate_url),
            1,
            received_at,
        )
    }
}

/// Tells of a status other than success.
pub fn locate_status_failure(
    status: u16,
    header_present: bool,
    retry_after: Option<RetryAfter>,
    received_at: Timestamp,
    locate_url: &Url,
) -> (failure: Option<RequestFailure>)
    ensures
        failure_view(failure) == (if status == 200 {
            None
        } else {
            Some(
                status_failure(
                    status,
                    header_present,
                    retry_after,
                    received_at,
                    locate_url.text@,
                ),
            )
        }),
{
    if status == 200 {
        return None;
    }
    let waiting: bool = retry_after.is_some();
    let (outcome, message) = if status == 204 {
        (Outcome::NoCapacity, "Locate returned no capacity")
    } else if status == 429 {
        (Outcome::RateLimited, "Locate rate limit")
    } else if status == 503 && waiting {
        (Outcome::RateLimited, "Locate service requested a retry delay")
    } else if status == 503 {
        (Outcome::Error, "Locate service unavailable")
    } else {
        (Outcome::Error, "Locate returned an unexpected status")
    };
    let text = message.to_owned().concat("; ").concat(retry_detail(header_present, waiting));
    let mut failure = RequestFailure::simple(
        RequestStage::Locate,
        ErrorKind::HttpStatus,
        text,
        Some(locate_url.text.clone()),
        1,
        received_at,
    );
    failure.outcome = outcome;
    failure.http_status = Some(status);
    failure.retry_after = retry_after;
    failure.disposition = FailureDisposition::ProviderWide;
    Some(failure)
}

/// Why M-Lab could not be asked, or its answer not be read.
pub enum LocateError {
    Bind(String),
    Client(String),
    Send { timeout: bool, message: String },
    Body(String),
}

/// The failure that M-Lab could not be asked, or its answer not be read.
pub open spec fn locate_failure_view(error: LocateError, locate_url: Seq<char>, now: Timestamp)
    -> FailureView {
    let (kind, message) = match error {
        LocateError::Bind(message) => (ErrorKind::Connect, message@),
        LocateError::Client(message) => (
            ErrorKind::Connect,
            "cannot configure Locate client: "@ + message@,
        ),
        LocateError::Send { timeout, message } => (
            if timeout {
                ErrorKind::Connect
            } else {
                ErrorKind::Io
            },
            "Locate request failed: "@ + message@,
        ),
        LocateError::Body(message) => (
            ErrorKind::Protocol,
            "cannot read Locate response: "@ + message@,
        ),
    };
    plain_failure(RequestStage::Locate, kind, message, Some(locate_url), 1, now)
}

/// A resolution in which M-Lab could not be asked, or its answer not be read.
pub fn locate_failure(error: LocateError, locate_url: &Url, now: Timestamp) -> (resolution:
    EndpointResolution)
    ensures
        resolution@ == failed_resolution(locate_failure_view(error, locate_url.text@, now)),
{
    let (kind, message) = match error {
        LocateError::Bind(message) => (ErrorKind::Connect, message),
        LocateError::Client(message) => (
            ErrorKind::Connect,
            "cannot configure Locate client: ".to_owned().concat(&message),
        ),
        LocateError::Send { timeout, message } => (
            if timeout {
                ErrorKind::Connect
            } else {
                ErrorKind::Io
            },
            "Locate request failed: ".to_owned().concat(&message),
        ),
        LocateError::Body(message) => (
            ErrorKind::Protocol,
            "cannot read Locate response: ".to_owned().concat(&message),
        ),
    };
    terminal_resolution(
        RequestFailure::simple(
            RequestStage::Locate,
            kind,
            message,
            Some(locate_url.text.clone()),
            1,
            now,
        ),
    )
}

/// A server that M-Lab named, with its URLs by what they are for.
pub struct LocateResult {
    pub machine: String,
    pub urls: StringMap<String>,
}

/// What is wrong with a server that M-Lab named.
pub enum CandidateFault {
    MissingDownload,
    MissingUpload,
    Insecure,
}

/// The endpoints of a server that M-Lab named: both have to be there, and to be secure.
pub open spec fn located(result: LocateResult) -> Result<(UrlView, UrlView), CandidateFault> {
    let download = lookup(result.urls.entries(), "wss:///ndt/v7/download"@);
    let upload = lookup(result.urls.entries(), "wss:///ndt/v7/upload"@);
    if download is None {
        Err(CandidateFault::MissingDownload)
    } else if upload is None {
        Err(CandidateFault::MissingUpload)
    } else {
        match (parsed_url(download->0@), parsed_url(upload->0@)) {
            (Some(d), Some(u)) => if d.scheme == "wss"@ && u.scheme == "wss"@ {
                Ok((d, u))
            } else {
                Err(CandidateFault::Insecure)
            },
            _ => Err(CandidateFault::Insecure),
        }
    }
}

/// A server of M-Lab that a test may run against.
pub open spec fn mlab_candidate(
    machine: Seq<char>,
    provider_id: Seq<char>,
    urls: (UrlView, UrlView),
) -> CandidateView {
    CandidateView {
        download_url: urls.0,
        upload_url: urls.1,
        logical_server: machine,
        provider_id,
        provider_kind: ProviderKind::Mlab,
        tls_server_name: None,
        ca_cert: None,
        allow_insecure: false,
    }
}

/// The failure that a server which M-Lab named cannot be used.
pub open spec fn candidate_failure(
    machine: Seq<char>,
    fault: CandidateFault,
    attempt: u32,
    locate_url: Seq<char>,
    now: Timestamp,
) -> FailureView {
    let message = match fault {
        CandidateFault::MissingDownload => {
            "Locate candidate is missing "@ + "wss:///ndt/v7/download"@
        },
        CandidateFault::MissingUpload => "Locate candidate is missing "@ + "wss:///ndt/v7/upload"@,
        CandidateFault::Insecure => "Locate candidate has invalid or insecure NDT7 URLs"@,
    };
    FailureView {
        server_name: Some(machine),
        disposition: match fault {
            CandidateFault::Insecure => FailureDisposition::Terminal,
            _ => FailureDisposition::TryNextTarget,
        },
        ..plain_failure(
            RequestStage::Locate,
            ErrorKind::Protocol,
            message,
            Some(locate_url),
            attempt,
            now,
        )
    }
}

/// The servers among the first `n` that a test may run against.
pub open spec fn located_candidates(results: Seq<LocateResult>, n: nat, provider_id: Seq<char>)
    -> Seq<CandidateView>
    decreases n,
{
    if n == 0 {
        Seq::empty()
    } else {
        let before = located_candidates(results, (n - 1) as nat, provider_id);
        match located(results[n - 1]) {
            Ok(urls) => before.push(mlab_candidate(results[n - 1].machine@, provider_id, urls)),
            Err(_) => before,
        }
    }
}

/// The failures of the servers among the first `n` that cannot be used.
pub open spec fn located_failures(
    results: Seq<LocateResult>,
    n: nat,
    locate_url: Seq<char>,
    now: Timestamp,
) -> Seq<FailureView>
    decreases n,
{
    if n == 0 {
        Seq::empty()
    } else {
        let before = located_failures(results, (n - 1) as nat, locate_url, now);
        match located(results[n - 1]) {
            Ok(_) => before,
            Err(fault) => before.push(
                candidate_failure(results[n - 1].machine@, fault, n as u32, locate_url, now),
            ),
        }
    }
}

/// What M-Lab's answer comes to.
pub open spec fn locate_resolution(
    answer: Result<Seq<LocateResult>, Seq<char>>,
    provider_id: Seq<char>,
    locate_url: Seq<char>,
    now: Timestamp,
) -> ResolutionView {
    match answer {
        Err(message) => failed_resolution(
            plain_failure(
                RequestStage::Locate,
                ErrorKind::Protocol,
                "invalid Locate response: "@ + message,
                Some(locate_url),
                1,
                now,
            ),
        ),
        Ok(results) => {
            let candidates = located_candidates(results, results.len(), provider_id);
            ResolutionView {
                candidates,
                failures: located_failures(results, results.len(), locate_url, now),
                terminal: if candidates.len() == 0 {
                    Some(
                        plain_failure(
                            RequestStage::Locate,
                            ErrorKind::Protocol,
                            "Locate returned no usable secure NDT7 targets"@,
                            Some(locate_url),
                            1,
                            now,
                        ),
                    )
                } else {
                    None
                },
            }
        },
    }
}

/// The endpoints of a server that M-Lab named.
fn locate_urls(result: &LocateResult) -> (urls: Result<(Url, Url), CandidateFault>)
    ensures
        match urls {
            Ok((download, upload)) => located(*result) == Ok::<
                (UrlView, UrlView),
                CandidateFault,
            >((download@, upload@)),
            Err(fault) => located(*result) == Err::<(UrlView, UrlView), CandidateFault>(fault),
        },
{
    let download = match result.urls.get("wss:///ndt/v7/download") {
        Some(download) => download,
        None => {
            return Err(CandidateFault::MissingDownload);
        },
    };
    let upload = match result.urls.get("wss:///ndt/v7/upload") {
        Some(upload) => upload,
        None => {
            return Err(CandidateFault::MissingUpload);
        },
    };
    match (parse_url(download), parse_url(upload)) {
        (Some(download), Some(upload)) => {
            if same_text(&download.scheme, "wss") && same_text(&upload.scheme, "wss") {
                Ok((download, upload))
            } else {
                Err(CandidateFault::Insecure)
            }
        },
        _ => Err(CandidateFault::Insecure),
    }
}

fn unusable_candidate(
    machine: &str,
    fault: CandidateFault,
    attempt: u32,
    locate_url: &Url,
    now: Timestamp,
) -> (failure: RequestFailure)
    ensures
        failure@ == candidate_failure(machine@, fault, attempt, locate_url.text@, now),
{
    let message = match fault {
        CandidateFault::MissingDownload => "Locate candidate is missing ".to_owned().concat(
            "wss:///ndt/v7/download",
        ),
        CandidateFault::MissingUpload => "Locate candidate is missing ".to_owned().concat(
            "wss:///ndt/v7/upload",
        ),
        CandidateFault::Insecure => {
            "Locate candidate has invalid or insecure NDT7 URLs".to_owned()
        },
    };
    let mut failure = RequestFailure::simple(
        RequestStage::Locate,
        ErrorKind::Protocol,
        message,
        Some(locate_url.text.clone()),
        attempt,
        now,
    );
    failure.server_name = Some(machine.to_owned());
    failure.disposition = match fault {
        CandidateFault::Insecure => FailureDisposition::Terminal,
        _ => FailureDisposition::TryNextTarget,
    };
    failure
}

pub open spec fn answer_view(answer: Result<Vec<LocateResult>, String>) -> Result<
    Seq<LocateResult>,
    Seq<char>,
> {
    match answer {
        Ok(results) => Ok(results@),
        Err(message) => Err(message@),
    }
}

/// Takes the servers from M-Lab's answer, which was parsed.
pub fn parse_locate_candidates(
    answer: &Result<Vec<LocateResult>, String>,
    provider_id: &str,
    locate_url: &Url,
    now: Timestamp,
) -> (resolution: EndpointResolution)
    requires
        answer is Ok ==> answer->Ok_0@.len() < u32::MAX,
    ensures
        resolution@ == locate_resolution(
            answer_view(*answer),
            provider_id@,
            locate_url.text@,
            now,
        ),
{
    let results = match answer {
        Ok(results) => results,
        Err(message) => {
            return terminal_resolution(
                RequestFailure::simple(
                    RequestStage::Locate,
                    ErrorKind::Protocol,
                    "invalid Locate response: ".to_owned().concat(message),
                    Some(locate_url.text.clone()),
                    1,
                    now,
                ),
            );
        },
    };
    let mut candidates: Vec<EndpointCandidate> = Vec::new();
    let mut failures: Vec<RequestFailure> = Vec::new();
    let mut i: usize = 0;
    proof {
        assert(candidate_views(candidates@) =~= Seq::empty());
        assert(failure_views(failures@) =~= Seq::empty());
    }
    while i < results.len()
        invariant
            i <= results@.len(),
            results@.len() < u32::MAX,
            candidate_views(candidates@) == located_candidates(results@, i as nat, provider_id@),
            failure_views(failures@) == located_failures(
                results@,
                i as nat,
                locate_url.text@,
                now,
            ),
        decreases results@.len() - i,
    {
        let result = &results[i];
        match locate_urls(result) {
            Ok((download_url, upload_url)) => {
                let ghost before = candidates@;
                candidates.push(
                    EndpointCandidate {
                        download_url,
                        upload_url,
                        logical_server: result.machine.clone(),
                        provider_id: provider_id.to_owned(),
                        provider_kind: ProviderKind::Mlab,
                        tls_server_name: None,
                        ca_cert: None,
                        allow_insecure: false,
                    },
                );
                proof {
                    assert(candidate_views(candidates@) =~= candidate_views(before).push(
                        candidates@.last()@,
                    ));
                }
            },
            Err(fault) => {
                let ghost before = failures@;
                failures.push(
                    unusable_candidate(&result.machine, fault, i as u32 + 1, locate_url, now),
                );
                proof {
                    assert(failure_views(failures@) =~= failure_views(before).push(
                        failures@.last()@,
                    ));
                }
            },
        }
        i += 1;
    }
    let terminal = if candidates.len() == 0 {
        Some(
            RequestFailure::simple(
                RequestStage::Locate,
                ErrorKind::Protocol,
                "Locate returned no usable secure NDT7 targets".to_owned(),
                Some(locate_url.text.clone()),
                1,
                now,
            ),
        )
    } else {
        None
    };
    proof {
        assert(candidate_views(candidates@).len() == candidates@.len());
    }
    EndpointResolution { candidates, failures, terminal }
}

/// Every server that M-Lab names is either one that a test may run against, with encrypted
/// endpoints, or accounted for by a failure.
pub proof fn law_located_servers_are_secure_or_accounted_for(
    results: Seq<LocateResult>,
    n: nat,
    provider_id: Seq<char>,
    locate_url: Seq<char>,
    now: Timestamp,
)
    requires
        n <= results.len(),
    ensures
        located_candidates(results, n, provider_id).len() + located_failures(
            results,
            n,
            locate_url,
            now,
        ).len() == n,
        forall|i: int|
            0 <= i < located_candidates(results, n, provider_id).len() ==> {
                let candidate = #[trigger] located_candidates(results, n, provider_id)[i];
                candidate.download_url.scheme == "wss"@ && candidate.upload_url.scheme == "wss"@
                    && !candidate.allow_insecure
            },
    decreases n,
{
    if n > 0 {
        law_located_servers_are_secure_or_accounted_for(
            results,
            (n - 1) as nat,
            provider_id,
            locate_url,
            now,
        );
    }
}

/// What M-Lab replied: the status, when it wants to be asked again, when that came in, and what
/// the answer was parsed to.
pub struct LocateReply {
    pub status: u16,
    pub header: Option<RetryHeader>,
    pub received_at: Timestamp,
    pub answer: Result<Vec<LocateResult>, String>,
}

/// What asking M-Lab comes to. Its answer counts only with the status of success.
pub open spec fn asked_resolution(
    asked: Result<LocateReply, LocateError>,
    provider_id: Seq<char>,
    locate_url: Seq<char>,
    now: Timestamp,
) -> ResolutionView {
    match asked {
        Err(error) => failed_resolution(locate_failure_view(error, locate_url, now)),
        Ok(reply) => if reply.status == 200 {
            locate_resolution(answer_view(reply.answer), provider_id, locate_url, now)
        } else {
            failed_resolution(
                status_failure(
                    reply.status,
                    reply.header is Some,
                    header_retry(reply.header, reply.received_at),
                    reply.received_at,
                    locate_url,
                ),
            )
        },
    }
}

/// Takes in what asking M-Lab came to. Its failures are told from when the asking began.
pub fn resolve_mlab(
    asked: Result<LocateReply, LocateError>,
    provider_id: &str,
    locate_url: &Url,
    started_at: Timestamp,
    now: Timestamp,
) -> (resolution: EndpointResolution)
    requires
        asked matches Ok(reply) ==> reply.received_at.valid() && (reply.answer is Ok
            ==> reply.answer->Ok_0@.len() < u32::MAX),
    ensures
        resolution@ == stamped(
            asked_resolution(asked, provider_id@, locate_url.text@, now),
            started_at,
        ),
{
    let resolution = match asked {
        Err(error) => locate_failure(error, locate_url, now),
        Ok(reply) => {
            let retry_after = parse_retry_after(&reply.header, reply.received_at);
            match locate_status_failure(
                reply.status,
                reply.header.is_some(),
                retry_after,
                reply.received_at,
                locate_url,
            ) {
                Some(failure) => terminal_resolution(failure),
                None => parse_locate_candidates(&reply.answer, provider_id, locate_url, now),
            }
        },
    };
    stamp_resolution(resolution, started_at)
}

/// A provider is found to have servers, or there is a failure that says why it has none, and never
/// both.
pub proof fn law_servers_are_found_or_missed(
    config: BandwidthConfig,
    asked: Result<LocateReply, LocateError>,
    provider_id: Seq<char>,
    locate_url: Seq<char>,
    started_at: Timestamp,
    now: Timestamp,
)
    ensures
        ({
            let found = stamped(
                asked_resolution(asked, provider_id, locate_url, now),
                started_at,
            );
            found.terminal is None <==> found.candidates.len() > 0
        }),
        known_resolution(config, now) matches Some(found) ==> (found.terminal is None
            <==> found.candidates.len() > 0),
{
}

/// The delay leads from the receipt to the deadline, or to the last instant that can be told; a
/// deadline that is past gives no delay.
pub proof fn law_retry_deadline_is_the_delay_away(
    value: Seq<char>,
    received_at: Timestamp,
    date: Option<u64>,
)
    requires
        received_at.valid(),
        retry_after_of(value, received_at, date) is Some,
    ensures
        ({
            let retry = retry_after_of(value, received_at, date)->0;
            &&& retry.delay.nanos > 0 ==> retry.deadline == later(received_at, retry.delay)
                || retry.deadline.nanos == received_at.nanos + retry.delay.nanos
            &&& retry.delay.nanos == 0 ==> retry.deadline.nanos <= received_at.nanos
        }),
{
}

} // verus!
