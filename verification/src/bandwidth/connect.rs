//! Reaching a server.
use crate::endpoint::{Url, UrlView};
use crate::interfaces::InterfaceAddress;
use crate::model::{ErrorKind, IpAddr, Outcome, ProviderKind, RequestStage};
use crate::ping::source::{one_family, same_family};
use crate::provider::{
    FailureDisposition, FailureView, RequestFailure, RetryAfter, RetryHeader, failure_view,
    failure_views, header_retry, parse_retry_after, plain_failure, retry_detail,
    retry_detail_text,
};
use crate::text::{clone_text, dec, decimal, same_text, text_view};
use crate::time::Timestamp;
use vstd::prelude::*;
use vstd::string::StringExecFns;

verus! {

/// The protocol that is spoken over a WebSocket.
pub const NDT7_SUBPROTOCOL: &'static str = "net.measurementlab.ndt.v7";
/// The largest message that is taken.
pub const MAX_MESSAGE_SIZE: usize = 16_777_216;
/// How many addresses of a server are tried.
pub const MAX_RESOLVED_ADDRESSES: usize = 8;

/// An address with a port.
#[derive(Clone, Copy, Debug, PartialEq, Eq, Structural)]
pub struct SocketAddress {
    pub ip: IpAddr,
    pub port: u16,
}

/// The first addresses that are there, each once.
pub open spec fn distinct_addresses(resolved: Seq<SocketAddress>, n: nat) -> Seq<SocketAddress>
    decreases n,
{
    if n == 0 {
        Seq::empty()
    } else {
        let before = distinct_addresses(resolved, (n - 1) as nat);
        if before.len() < MAX_RESOLVED_ADDRESSES && !before.contains(resolved[n - 1]) {
            before.push(resolved[n - 1])
        } else {
            before
        }
    }
}

/// Picks the addresses to try from what a name was resolved to.
pub fn pick_addresses(resolved: &Vec<SocketAddress>) -> (picked: Result<Vec<SocketAddress>, String>)
    ensures
        match picked {
            Ok(addresses) => resolved@.len() > 0 && addresses@ == distinct_addresses(
                resolved@,
                resolved@.len(),
            ),
            Err(message) => resolved@.len() == 0 && message@
                == "DNS resolution returned no addresses"@,
        },
{
    let mut addresses: Vec<SocketAddress> = Vec::new();
    let mut i: usize = 0;
    while i < resolved.len()
        invariant
            i <= resolved@.len(),
            addresses@ == distinct_addresses(resolved@, i as nat),
            i > 0 ==> addresses@.len() > 0,
        decreases resolved@.len() - i,
    {
        let address = resolved[i];
        let mut known: bool = false;
        let mut k: usize = 0;
        while k < addresses.len() && !known
            invariant
                k <= addresses@.len(),
                known ==> addresses@.contains(address),
                !known ==> forall|j: int| 0 <= j < k ==> addresses@[j] != address,
            decreases addresses@.len() - k,
        {
            if addresses[k] == address {
                known = true;
                proof {
                    assert(addresses@[k as int] == address);
                }
            }
            k += 1;
        }
        proof {
            assert(known == addresses@.contains(address));
            if addresses@.len() == 0 {
                assert(!addresses@.contains(address));
            }
        }
        if !known && addresses.len() < MAX_RESOLVED_ADDRESSES {
            addresses.push(address);
        }
        i += 1;
    }
    if addresses.len() == 0 {
        Err("DNS resolution returned no addresses".to_owned())
    } else {
        Ok(addresses)
    }
}

/// Picking keeps each address once, and no more than are tried.
pub proof fn law_picked_addresses_are_distinct(resolved: Seq<SocketAddress>, n: nat)
    requires
        n <= resolved.len(),
    ensures
        distinct_addresses(resolved, n).len() <= MAX_RESOLVED_ADDRESSES,
        distinct_addresses(resolved, n).no_duplicates(),
    decreases n,
{
    if n > 0 {
        law_picked_addresses_are_distinct(resolved, (n - 1) as nat);
        let before = distinct_addresses(resolved, (n - 1) as nat);
        let after = distinct_addresses(resolved, n);
        if after != before {
            assert forall|i: int, j: int| 0 <= i < j < after.len() implies after[i] != after[j] by {
                if j == before.len() {
                    assert(before.contains(before[i]));
                }
            }
        }
    }
}

/// The address that stands for the local end where the system does not name it.
pub open spec fn unnamed_local(remote: IpAddr) -> IpAddr {
    match remote {
        IpAddr::V4(_) => IpAddr::V4(0),
        IpAddr::V6(_) => IpAddr::V6(0),
    }
}

pub fn local_address(named: Option<IpAddr>, remote: IpAddr) -> (local: IpAddr)
    ensures
        local == (match named {
            Some(address) => address,
            None => unnamed_local(remote),
        }),
{
    match named {
        Some(address) => address,
        None => match remote {
            IpAddr::V4(_) => IpAddr::V4(0),
            IpAddr::V6(_) => IpAddr::V6(0),
        },
    }
}

/// An address of an interface that a connection to a server can come from.
pub open spec fn suits(entry: InterfaceAddress, interface: Seq<char>, remote: IpAddr) -> bool {
    entry.name@ == interface && one_family(entry.address, remote)
}

/// The address that a connection through an interface comes from: the first of the server's
/// family.
pub fn source_on(
    entries: &Vec<InterfaceAddress>,
    interface: &str,
    remote: IpAddr,
) -> (source: Result<IpAddr, String>)
    ensures
        match source {
            Ok(address) => exists|at: int|
                {
                    &&& 0 <= at < entries@.len()
                    &&& #[trigger] suits(entries@[at], interface@, remote)
                    &&& entries@[at].address == address
                    &&& forall|i: int|
                        0 <= i < at ==> !#[trigger] suits(entries@[i], interface@, remote)
                },
            Err(message) => {
                &&& forall|i: int|
                    0 <= i < entries@.len() ==> !#[trigger] suits(entries@[i], interface@, remote)
                &&& message@ == "interface "@ + interface@ + " has no matching source address"@
            },
        },
{
    let mut i: usize = 0;
    while i < entries.len()
        invariant
            i <= entries@.len(),
            forall|k: int| 0 <= k < i ==> !#[trigger] suits(entries@[k], interface@, remote),
        decreases entries@.len() - i,
    {
        if same_text(&entries[i].name, interface) && same_family(entries[i].address, remote) {
            proof {
                assert(suits(entries@[i as int], interface@, remote));
            }
            return Ok(entries[i].address);
        }
        i += 1;
    }
    Err("interface ".to_owned().concat(interface).concat(" has no matching source address"))
}

/// How bytes travel to a server.
#[derive(Debug, PartialEq, Eq)]
pub enum Transport {
    Plain,
    Tls { server_name: String },
}

/// How bytes are to travel to a server. They are encrypted unless that was expressly waived.
pub fn choose_transport(
    url: &Url,
    allow_insecure: bool,
    tls_server_name: &Option<String>,
) -> (transport: Result<Transport, String>)
    ensures
        match transport {
            Ok(Transport::Plain) => url.scheme@ == "ws"@ && allow_insecure,
            Ok(Transport::Tls { server_name }) => {
                &&& url.scheme@ == "wss"@
                &&& (tls_server_name is Some || url.host is Some)
                &&& server_name@ == (match *tls_server_name {
                    Some(name) => name@,
                    None => url.host->0@,
                })
            },
            Err(message) => if url.scheme@ == "wss"@ {
                tls_server_name is None && url.host is None && message@
                    == "TLS endpoint has no server name"@
            } else {
                !(url.scheme@ == "ws"@ && allow_insecure) && message@
                    == "unsupported WebSocket scheme: "@ + url.scheme@
            },
        },
{
    proof {
        reveal_strlit("ws");
        reveal_strlit("wss");
    }
    if same_text(&url.scheme, "ws") && allow_insecure {
        return Ok(Transport::Plain);
    }
    if same_text(&url.scheme, "wss") {
        let name = match tls_server_name {
            Some(name) => Some(name.clone()),
            None => clone_text(&url.host),
        };
        return match name {
            Some(server_name) => Ok(Transport::Tls { server_name }),
            None => Err("TLS endpoint has no server name".to_owned()),
        };
    }
    Err("unsupported WebSocket scheme: ".to_owned().concat(&url.scheme))
}

/// The host that is asked for where a server is reached under another name.
pub open spec fn host_header_text(server_name: Seq<char>, port: Option<u16>) -> Seq<char> {
    match port {
        Some(number) => if number != 443 {
            server_name + ":"@ + dec(number as nat)
        } else {
            server_name
        },
        None => server_name,
    }
}

pub fn host_header(server_name: &str, port: Option<u16>) -> (host: String)
    ensures
        host@ == host_header_text(server_name@, port),
{
    match port {
        Some(number) => {
            if number != 443 {
                server_name.to_owned().concat(":").concat(&decimal(number as u128))
            } else {
                server_name.to_owned()
            }
        },
        None => server_name.to_owned(),
    }
}

/// What a server's answer to a handshake means. M-Lab has other servers where one is full.
pub fn classify_handshake_status(provider_kind: ProviderKind, http_status: Option<u16>) -> (class: (
    Outcome,
    FailureDisposition,
))
    ensures
        class == handshake_class(provider_kind, http_status),
{
    match http_status {
        Some(429) => (Outcome::RateLimited, FailureDisposition::ProviderWide),
        Some(503) => {
            if provider_kind == ProviderKind::Mlab {
                (Outcome::NoCapacity, FailureDisposition::TryNextTarget)
            } else {
                (Outcome::NoCapacity, FailureDisposition::Terminal)
            }
        },
        _ => (Outcome::Error, FailureDisposition::Terminal),
    }
}

/// What a server's answer to a handshake means.
pub open spec fn handshake_class(provider_kind: ProviderKind, http_status: Option<u16>) -> (
    Outcome,
    FailureDisposition,
) {
    if http_status == Some(429u16) {
        (Outcome::RateLimited, FailureDisposition::ProviderWide)
    } else if http_status == Some(503u16) {
        if provider_kind == ProviderKind::Mlab {
            (Outcome::NoCapacity, FailureDisposition::TryNextTarget)
        } else {
            (Outcome::NoCapacity, FailureDisposition::Terminal)
        }
    } else {
        (Outcome::Error, FailureDisposition::Terminal)
    }
}

/// What came of a handshake.
pub enum HandshakeReply {
    Accepted { protocol: Option<String> },
    Refused { status: u16, header: Option<RetryHeader> },
    Failed { message: String },
}

/// What happened on the way to a server.
pub enum ConnectEvent {
    NoHost,
    Unresolved { message: String },
    Unreachable { remote_ip: IpAddr, message: String, os_error_code: Option<i32> },
    TlsFailed { remote_ip: IpAddr, local_ip: IpAddr, message: String },
    RequestInvalid { message: String },
    Handshake { remote_ip: IpAddr, local_ip: IpAddr, reply: HandshakeReply },
}

/// How to go on towards a server.
#[derive(Clone, Copy, Debug, PartialEq, Eq, Structural)]
pub enum ConnectVerdict {
    Connected,
    TryNextAddress,
    GiveUp,
}

/// What is noted of what happened, and how to go on.
pub struct ConnectStep {
    pub failure: Option<RequestFailure>,
    pub verdict: ConnectVerdict,
}

/// The failure of a handshake.
pub open spec fn handshake_failure_view(
    provider_kind: ProviderKind,
    url: Seq<char>,
    attempt: u32,
    now: Timestamp,
    remote_ip: IpAddr,
    local_ip: IpAddr,
    http_status: Option<u16>,
    retry_after: Option<RetryAfter>,
    message: Seq<char>,
) -> FailureView {
    let (outcome, disposition) = handshake_class(provider_kind, http_status);
    FailureView {
        outcome,
        local_ip: Some(local_ip),
        remote_ip: Some(remote_ip),
        http_status,
        retry_after,
        disposition,
        ..plain_failure(
            RequestStage::WebsocketHandshake,
            ErrorKind::WebsocketHandshake,
            message,
            Some(url),
            attempt,
            now,
        )
    }
}

/// What is noted of what happened on the way to a server, and how to go on: another address is
/// tried where this one could not be reached or broke off, and none where the server answered.
pub open spec fn connect_result(
    provider_kind: ProviderKind,
    url: Seq<char>,
    attempt: u32,
    now: Timestamp,
    event: ConnectEvent,
) -> (Option<FailureView>, ConnectVerdict) {
    match event {
        ConnectEvent::NoHost => (
            Some(
                plain_failure(
                    RequestStage::Dns,
                    ErrorKind::Dns,
                    "NDT7 URL has no host"@,
                    Some(url),
                    attempt,
                    now,
                ),
            ),
            ConnectVerdict::GiveUp,
        ),
        ConnectEvent::Unresolved { message } => (
            Some(
                plain_failure(
                    RequestStage::Dns,
                    ErrorKind::Dns,
                    message@,
                    Some(url),
                    attempt,
                    now,
                ),
            ),
            ConnectVerdict::GiveUp,
        ),
        ConnectEvent::Unreachable { remote_ip, message, os_error_code } => (
            Some(
                FailureView {
                    remote_ip: Some(remote_ip),
                    os_error_code,
                    ..plain_failure(
                        RequestStage::Connect,
                        ErrorKind::Connect,
                        "TCP connect failed: "@ + message@,
                        Some(url),
                        attempt,
                        now,
                    )
                },
            ),
            ConnectVerdict::TryNextAddress,
        ),
        ConnectEvent::TlsFailed { remote_ip, local_ip, message } => (
            Some(
                FailureView {
                    local_ip: Some(local_ip),
                    remote_ip: Some(remote_ip),
                    ..plain_failure(
                        RequestStage::Tls,
                        ErrorKind::Tls,
                        message@,
                        Some(url),
                        attempt,
                        now,
                    )
                },
            ),
            ConnectVerdict::TryNextAddress,
        ),
        ConnectEvent::RequestInvalid { message } => (
            Some(
                plain_failure(
                    RequestStage::WebsocketHandshake,
                    ErrorKind::WebsocketHandshake,
                    message@,
                    Some(url),
                    attempt,
                    now,
                ),
            ),
            ConnectVerdict::GiveUp,
        ),
        ConnectEvent::Handshake { remote_ip, local_ip, reply } => match reply {
            HandshakeReply::Accepted { protocol } => if text_view(protocol) == Some(
                "net.measurementlab.ndt.v7"@,
            ) {
                (None, ConnectVerdict::Connected)
            } else {
                (
                    Some(
                        handshake_failure_view(
                            provider_kind,
                            url,
                            attempt,
                            now,
                            remote_ip,
                            local_ip,
                            None,
                            None,
                            "server did not select the NDT7 WebSocket subprotocol"@,
                        ),
                    ),
                    ConnectVerdict::GiveUp,
                )
            },
            HandshakeReply::Refused { status, header } => {
                let retry = header_retry(header, now);
                (
                    Some(
                        handshake_failure_view(
                            provider_kind,
                            url,
                            attempt,
                            now,
                            remote_ip,
                            local_ip,
                            Some(status),
                            retry,
                            "WebSocket handshake returned HTTP "@ + dec(status as nat) + "; "@
                                + retry_detail_text(header is Some, retry is Some),
                        ),
                    ),
                    ConnectVerdict::GiveUp,
                )
            },
            HandshakeReply::Failed { message } => (
                Some(
                    handshake_failure_view(
                        provider_kind,
                        url,
                        attempt,
                        now,
                        remote_ip,
                        local_ip,
                        None,
                        None,
                        "WebSocket handshake failed: "@ + message@,
                    ),
                ),
                ConnectVerdict::TryNextAddress,
            ),
        },
    }
}

fn handshake_failure(
    provider_kind: ProviderKind,
    url: &Url,
    attempt: u32,
    now: Timestamp,
    remote_ip: IpAddr,
    local_ip: IpAddr,
    http_status: Option<u16>,
    retry_after: Option<RetryAfter>,
    message: String,
) -> (failure: RequestFailure)
    ensures
        failure@ == handshake_failure_view(
            provider_kind,
            url.text@,
            attempt,
            now,
            remote_ip,
            local_ip,
            http_status,
            retry_after,
            message@,
        ),
{
    let (outcome, disposition) = classify_handshake_status(provider_kind, http_status);
    let mut failure = RequestFailure::simple(
        RequestStage::WebsocketHandshake,
        ErrorKind::WebsocketHandshake,
        message,
        Some(url.text.clone()),
        attempt,
        now,
    );
    failure.outcome = outcome;
    failure.local_ip = Some(local_ip);
    failure.remote_ip = Some(remote_ip);
    failure.http_status = http_status;
    failure.retry_after = retry_after;
    failure.disposition = disposition;
    failure
}

/// Takes in what happened on the way to a server.
pub fn connect_step(
    provider_kind: ProviderKind,
    url: &Url,
    attempt: u32,
    now: Timestamp,
    event: ConnectEvent,
) -> (step: ConnectStep)
    requires
        now.valid(),
    ensures
        (failure_view(step.failure), step.verdict) == connect_result(
            provider_kind,
            url.text@,
            attempt,
            now,
            event,
        ),
{
    match event {
        ConnectEvent::NoHost => ConnectStep {
            failure: Some(
                RequestFailure::simple(
                    RequestStage::Dns,
                    ErrorKind::Dns,
                    "NDT7 URL has no host".to_owned(),
                    Some(url.text.clone()),
                    attempt,
                    now,
                ),
            ),
            verdict: ConnectVerdict::GiveUp,
        },
        ConnectEvent::Unresolved { message } => ConnectStep {
            failure: Some(
                RequestFailure::simple(
                    RequestStage::Dns,
                    ErrorKind::Dns,
                    message,
                    Some(url.text.clone()),
                    attempt,
                    now,
                ),
            ),
            verdict: ConnectVerdict::GiveUp,
        },
        ConnectEvent::Unreachable { remote_ip, message, os_error_code } => {
            let mut failure = RequestFailure::simple(
                RequestStage::Connect,
                ErrorKind::Connect,
                "TCP connect failed: ".to_owned().concat(&message),
                Some(url.text.clone()),
                attempt,
                now,
            );
            failure.remote_ip = Some(remote_ip);
            failure.os_error_code = os_error_code;
            ConnectStep { failure: Some(failure), verdict: ConnectVerdict::TryNextAddress }
        },
        ConnectEvent::TlsFailed { remote_ip, local_ip, message } => {
            let mut failure = RequestFailure::simple(
                RequestStage::Tls,
                ErrorKind::Tls,
                message,
                Some(url.text.clone()),
                attempt,
                now,
            );
            failure.local_ip = Some(local_ip);
            failure.remote_ip = Some(remote_ip);
            ConnectStep { failure: Some(failure), verdict: ConnectVerdict::TryNextAddress }
        },
        ConnectEvent::RequestInvalid { message } => ConnectStep {
            failure: Some(
                RequestFailure::simple(
                    RequestStage::WebsocketHandshake,
                    ErrorKind::WebsocketHandshake,
                    message,
                    Some(url.text.clone()),
                    attempt,
                    now,
                ),
            ),
            verdict: ConnectVerdict::GiveUp,
        },
        ConnectEvent::Handshake { remote_ip, local_ip, reply } => match reply {
            HandshakeReply::Accepted { protocol } => {
                let agreed: bool = match &protocol {
                    Some(name) => same_text(name, "net.measurementlab.ndt.v7"),
                    None => false,
                };
                if agreed {
                    ConnectStep { failure: None, verdict: ConnectVerdict::Connected }
                } else {
                    ConnectStep {
                        failure: Some(
                            handshake_failure(
                                provider_kind,
                                url,
                                attempt,
                                now,
                                remote_ip,
                                local_ip,
                                None,
                                None,
                                "server did not select the NDT7 WebSocket subprotocol".to_owned(),
                            ),
                        ),
                        verdict: ConnectVerdict::GiveUp,
                    }
                }
            },
            HandshakeReply::Refused { status, header } => {
                let retry = parse_retry_after(&header, now);
                let message = "WebSocket handshake returned HTTP ".to_owned().concat(
                    &decimal(status as u128),
                ).concat("; ").concat(retry_detail(header.is_some(), retry.is_some()));
                ConnectStep {
                    failure: Some(
                        handshake_failure(
                            provider_kind,
                            url,
                            attempt,
                            now,
                            remote_ip,
                            local_ip,
                            Some(status),
                            retry,
                            message,
                        ),
                    ),
                    verdict: ConnectVerdict::GiveUp,
                }
            },
            HandshakeReply::Failed { message } => ConnectStep {
                failure: Some(
                    handshake_failure(
                        provider_kind,
                        url,
                        attempt,
                        now,
                        remote_ip,
                        local_ip,
                        None,
                        None,
                        "WebSocket handshake failed: ".to_owned().concat(&message),
                    ),
                ),
                verdict: ConnectVerdict::TryNextAddress,
            },
        },
    }
}

/// The host and the port that a URL leads to, if it names a host. Without a port it is the one of
/// encrypted connections.
pub open spec fn target_of(url: UrlView) -> Option<(Seq<char>, u16)> {
    match url.host {
        Some(host) => Some((
            host,
            match url.known_port {
                Some(port) => port,
                None => 443,
            },
        )),
        None => None,
    }
}

/// The host and the port that a URL leads to.
pub fn connect_target(url: &Url) -> (target: Option<(&str, u16)>)
    ensures
        match target {
            Some((host, port)) => target_of(url@) == Some((host@, port)),
            None => target_of(url@) is None,
        },
{
    match &url.host {
        Some(host) => Some((
            host.as_str(),
            match url.known_port {
                Some(port) => port,
                None => 443,
            },
        )),
        None => None,
    }
}

/// What is done next towards a server.
#[derive(Clone, Copy, Debug, PartialEq, Eq, Structural)]
pub enum ConnectNext {
    /// This address is tried.
    Try(SocketAddress),
    Connected,
    /// No connection comes about.
    Failed,
}

/// A way to a server: the addresses that it may be reached at, which of them it is now, and what
/// failed so far.
pub struct Connecting {
    pub addresses: Vec<SocketAddress>,
    pub at: usize,
    pub failures: Vec<RequestFailure>,
}

/// What is done next after an address was tried. The addresses are tried in order, each once.
pub open spec fn after_address(
    addresses: Seq<SocketAddress>,
    at: int,
    verdict: ConnectVerdict,
) -> ConnectNext {
    match verdict {
        ConnectVerdict::Connected => ConnectNext::Connected,
        ConnectVerdict::GiveUp => ConnectNext::Failed,
        ConnectVerdict::TryNextAddress => if at + 1 < addresses.len() {
            ConnectNext::Try(addresses[at + 1])
        } else {
            ConnectNext::Failed
        },
    }
}

/// The failures with what an event adds to them.
pub open spec fn noted(failures: Seq<FailureView>, failure: Option<FailureView>) -> Seq<
    FailureView,
> {
    match failure {
        Some(failure) => failures.push(failure),
        None => failures,
    }
}

impl Connecting {
    /// An address is being tried.
    pub open spec fn tries(&self) -> bool {
        self.at < self.addresses@.len() <= u32::MAX
    }

    /// Begins with the first address, if the server has any.
    pub fn begin(addresses: Vec<SocketAddress>) -> (begun: (Self, ConnectNext))
        requires
            addresses@.len() <= u32::MAX,
        ensures
            begun.0.addresses == addresses,
            begun.0.at == 0,
            begun.0.failures@.len() == 0,
            begun.1 == (if addresses@.len() > 0 {
                ConnectNext::Try(addresses@[0])
            } else {
                ConnectNext::Failed
            }),
    {
        let next = if addresses.len() > 0 {
            ConnectNext::Try(addresses[0])
        } else {
            ConnectNext::Failed
        };
        (Connecting { addresses, at: 0, failures: Vec::new() }, next)
    }

    /// Takes in what came of the address that was tried. It is noted under its number.
    pub fn tried(
        &mut self,
        provider_kind: ProviderKind,
        url: &Url,
        now: Timestamp,
        event: ConnectEvent,
    ) -> (next: ConnectNext)
        requires
            old(self).tries(),
            now.valid(),
        ensures
            final(self).addresses == old(self).addresses,
            ({
                let (failure, verdict) = connect_result(
                    provider_kind,
                    url.text@,
                    (old(self).at + 1) as u32,
                    now,
                    event,
                );
                &&& failure_views(final(self).failures@) == noted(
                    failure_views(old(self).failures@),
                    failure,
                )
                &&& next == after_address(old(self).addresses@, old(self).at as int, verdict)
            }),
            next is Try ==> final(self).tries() && final(self).at == old(self).at + 1,
            next !is Try ==> final(self).at == old(self).at,
    {
        let count: usize = self.addresses.len();
        let attempt: u32 = (self.at + 1) as u32;
        let step = connect_step(provider_kind, url, attempt, now, event);
        let ghost before = self.failures@;
        if let Some(failure) = step.failure {
            self.failures.push(failure);
        }
        proof {
            assert(failure_views(self.failures@) =~= noted(
                failure_views(before),
                failure_view(step.failure),
            ));
        }
        match step.verdict {
            ConnectVerdict::Connected => ConnectNext::Connected,
            ConnectVerdict::GiveUp => ConnectNext::Failed,
            ConnectVerdict::TryNextAddress => if self.at + 1 < count {
                self.at = self.at + 1;
                ConnectNext::Try(self.addresses[self.at])
            } else {
                ConnectNext::Failed
            },
        }
    }
}

/// What happened to an address, and when.
pub struct Trial {
    pub event: ConnectEvent,
    pub now: Timestamp,
}

/// What is done next, and what failed, after addresses were tried from one of them on.
pub open spec fn connect_course(
    provider_kind: ProviderKind,
    url: Seq<char>,
    addresses: Seq<SocketAddress>,
    at: int,
    trials: Seq<Trial>,
) -> (ConnectNext, Seq<FailureView>)
    decreases trials.len(),
{
    if trials.len() == 0 {
        (ConnectNext::Try(addresses[at]), Seq::empty())
    } else {
        let (failure, verdict) = connect_result(
            provider_kind,
            url,
            (at + 1) as u32,
            trials[0].now,
            trials[0].event,
        );
        let next = after_address(addresses, at, verdict);
        if next is Try {
            let rest = connect_course(provider_kind, url, addresses, at + 1, trials.drop_first());
            (rest.0, noted(Seq::empty(), failure) + rest.1)
        } else {
            (next, noted(Seq::empty(), failure))
        }
    }
}

/// Whatever happens, a way to a server ends after as many trials as it has addresses; and where no
/// connection comes about, there is a failure that says why.
pub proof fn law_connecting_ends(
    provider_kind: ProviderKind,
    url: Seq<char>,
    addresses: Seq<SocketAddress>,
    at: int,
    trials: Seq<Trial>,
)
    requires
        0 <= at < addresses.len(),
        trials.len() >= addresses.len() - at,
    ensures
        connect_course(provider_kind, url, addresses, at, trials).0 !is Try,
        connect_course(provider_kind, url, addresses, at, trials).0 == ConnectNext::Failed
            ==> connect_course(provider_kind, url, addresses, at, trials).1.len() > 0,
        connect_course(provider_kind, url, addresses, at, trials).1.len() <= addresses.len() - at,
    decreases trials.len(),
{
    let (failure, verdict) = connect_result(
        provider_kind,
        url,
        (at + 1) as u32,
        trials[0].now,
        trials[0].event,
    );
    if after_address(addresses, at, verdict) is Try {
        law_connecting_ends(provider_kind, url, addresses, at + 1, trials.drop_first());
    }
}

} // verus!
