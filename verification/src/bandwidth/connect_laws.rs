//! What holds of reaching a server, told by its addresses and its answers.
use super::connect::{
    ConnectEvent, ConnectNext, ConnectStep, ConnectVerdict, HandshakeReply, SocketAddress,
    Transport, after_address, choose_transport, classify_handshake_status, connect_step,
    distinct_addresses, host_header, law_picked_addresses_are_distinct, local_address,
    pick_addresses, source_on,
};
use crate::endpoint::Url;
use crate::interfaces::InterfaceAddress;
use crate::model::{IpAddr, Outcome, ProviderKind};
use crate::provider::{FailureDisposition, header_retry};
use crate::text::{dec, text_view};
use crate::time::Timestamp;
use vstd::prelude::*;

verus! {

/// The addresses that a server is tried at are those its name was resolved to, each once and in
/// order, beginning with the first; only where there are more than eight are any left out.
pub proof fn law_every_address_is_tried(
    resolved: Vec<SocketAddress>,
    picked: Result<Vec<SocketAddress>, String>,
)
    requires
        call_ensures(pick_addresses, (&resolved,), picked),
    ensures
        picked is Ok <==> resolved@.len() > 0,
        picked matches Ok(addresses) ==> {
            &&& addresses@.no_duplicates()
            &&& addresses@.len() <= 8
            &&& addresses@[0] == resolved@[0]
            &&& forall|k: int|
                0 <= k < addresses@.len() ==> resolved@.contains(#[trigger] addresses@[k])
            &&& addresses@.len() < 8 ==> forall|i: int|
                0 <= i < resolved@.len() ==> addresses@.contains(#[trigger] resolved@[i])
            &&& forall|j: int, k: int|
                0 <= j < k < addresses@.len() ==> exists|i: int|
                    0 <= i < resolved@.len() && #[trigger] resolved@[i] == #[trigger] addresses@[j]
                        && forall|h: int| 0 <= h <= i ==> resolved@[h] != #[trigger] addresses@[k]
        },
{
    if picked is Ok {
        law_picked_addresses_are_distinct(resolved@, resolved@.len());
        lemma_picked(resolved@, resolved@.len());
    }
}

proof fn lemma_picked(resolved: Seq<SocketAddress>, n: nat)
    requires
        n <= resolved.len(),
    ensures
        ({
            let picked = distinct_addresses(resolved, n);
            &&& n > 0 ==> picked.len() > 0 && picked[0] == resolved[0]
            &&& picked.len() <= 8
            &&& forall|k: int|
                0 <= k < picked.len() ==> exists|i: int|
                    0 <= i < n && #[trigger] resolved[i] == #[trigger] picked[k]
            &&& picked.len() < 8 ==> forall|i: int|
                0 <= i < n ==> picked.contains(#[trigger] resolved[i])
            &&& forall|j: int, k: int|
                0 <= j < k < picked.len() ==> exists|i: int|
                    0 <= i < n && #[trigger] resolved[i] == #[trigger] picked[j] && forall|h: int|
                        0 <= h <= i ==> resolved[h] != #[trigger] picked[k]
        }),
    decreases n,
{
    if n > 0 {
        let m = (n - 1) as nat;
        lemma_picked(resolved, m);
        let before = distinct_addresses(resolved, m);
        let after = distinct_addresses(resolved, n);
        assert forall|k: int| 0 <= k < after.len() implies exists|i: int|
            0 <= i < n && #[trigger] resolved[i] == #[trigger] after[k] by {
            if k < before.len() {
                assert(after[k] == before[k]);
            } else {
                assert(resolved[n - 1] == after[k]);
            }
        }
        if after.len() < 8 {
            assert forall|i: int| 0 <= i < n implies after.contains(#[trigger] resolved[i]) by {
                if i < m {
                    assert(before.contains(resolved[i]));
                    let k = choose|k: int| 0 <= k < before.len() && before[k] == resolved[i];
                    assert(after[k] == resolved[i]);
                } else if before.contains(resolved[i]) {
                    assert(after == before);
                } else {
                    assert(after[after.len() - 1] == resolved[i]);
                }
            }
        }
        assert forall|j: int, k: int| 0 <= j < k < after.len() implies exists|i: int|
            0 <= i < n && #[trigger] resolved[i] == #[trigger] after[j] && forall|h: int|
                0 <= h <= i ==> resolved[h] != #[trigger] after[k] by {
            assert(after[j] == before[j]);
            if k < before.len() {
                assert(after[k] == before[k]);
                let i = choose|i: int|
                    0 <= i < m && #[trigger] resolved[i] == before[j] && forall|h: int|
                        0 <= h <= i ==> resolved[h] != before[k];
                assert(resolved[i] == after[j]);
            } else {
                let i = choose|i: int| 0 <= i < m && #[trigger] resolved[i] == before[j];
                assert(before.len() < 8);
                assert forall|h: int| 0 <= h <= i implies resolved[h] != after[k] by {
                    assert(before.contains(resolved[h]));
                }
                assert(resolved[i] == after[j]);
            }
        }
    }
}

/// A server that answers with too many requests ends the test for its provider. One without
/// capacity is passed over where the provider has others, as M-Lab does, and ends the test
/// otherwise. Anything else is an error that ends it.
pub proof fn law_answers_are_told_apart(
    kind: ProviderKind,
    status: Option<u16>,
    class: (Outcome, FailureDisposition),
)
    requires
        call_ensures(classify_handshake_status, (kind, status), class),
    ensures
        class.0 is RateLimited <==> status == Some(429u16),
        class.0 is NoCapacity <==> status == Some(503u16),
        class.0 is RateLimited || class.0 is NoCapacity || class.0 is Error,
        class.1 is ProviderWide <==> status == Some(429u16),
        class.1 is TryNextTarget <==> status == Some(503u16) && kind is Mlab,
{
}

/// The handshake was accepted, in the protocol that tests speak.
pub open spec fn accepted(event: ConnectEvent) -> bool {
    event matches ConnectEvent::Handshake { reply, .. } && reply matches HandshakeReply::Accepted {
        protocol,
    } && text_view(protocol) == Some("net.measurementlab.ndt.v7"@)
}

/// What happened leaves hope for another address: this one could not be reached, or broke off.
pub open spec fn leaves_hope(event: ConnectEvent) -> bool {
    ||| event is Unreachable
    ||| event is TlsFailed
    ||| event matches ConnectEvent::Handshake { reply, .. } && reply is Failed
}

/// A connection comes about exactly if the handshake was accepted in the right protocol, and then
/// nothing is noted. Another address is tried exactly where this one could not be reached or broke
/// off. Whatever else happens is noted with how far it had come, under the number of the attempt.
pub proof fn law_connection_needs_the_protocol(
    kind: ProviderKind,
    url: Url,
    attempt: u32,
    now: Timestamp,
    event: ConnectEvent,
    step: ConnectStep,
)
    requires
        call_ensures(connect_step, (kind, &url, attempt, now, event), step),
    ensures
        step.verdict is Connected <==> accepted(event),
        step.verdict is TryNextAddress <==> leaves_hope(event),
        step.failure is None <==> accepted(event),
        step.failure matches Some(failure) ==> {
            &&& failure.attempt == attempt
            &&& text_view(failure.request_url) == Some(url.text@)
            &&& failure.started_at_utc == now
            &&& failure.finished_at_utc == now
            &&& event is NoHost || event is Unresolved ==> failure.stage is Dns
                && failure.error_kind is Dns && failure.outcome is Error
            &&& event matches ConnectEvent::Unreachable { remote_ip, os_error_code, message } ==> {
                &&& failure.stage is Connect
                &&& failure.error_kind is Connect
                &&& failure.outcome is Error
                &&& failure.remote_ip == Some(remote_ip)
                &&& failure.local_ip is None
                &&& failure.os_error_code == os_error_code
                &&& failure.message@ == "TCP connect failed: "@ + message@
            }
            &&& event matches ConnectEvent::TlsFailed { remote_ip, local_ip, message } ==> {
                &&& failure.stage is Tls
                &&& failure.error_kind is Tls
                &&& failure.outcome is Error
                &&& failure.remote_ip == Some(remote_ip)
                &&& failure.local_ip == Some(local_ip)
                &&& failure.message@ == message@
            }
            &&& event is RequestInvalid ==> failure.stage is WebsocketHandshake
                && failure.outcome is Error
            &&& event matches ConnectEvent::Handshake { remote_ip, local_ip, reply } ==> {
                &&& failure.stage is WebsocketHandshake
                &&& failure.error_kind is WebsocketHandshake
                &&& failure.remote_ip == Some(remote_ip)
                &&& failure.local_ip == Some(local_ip)
                &&& reply matches HandshakeReply::Refused { status, header } ==> {
                    &&& failure.http_status == Some(status)
                    &&& failure.retry_after == header_retry(header, now)
                    &&& failure.outcome is RateLimited <==> status == 429
                    &&& failure.outcome is NoCapacity <==> status == 503
                    &&& failure.disposition is ProviderWide <==> status == 429
                    &&& failure.disposition is TryNextTarget <==> status == 503 && kind is Mlab
                }
                &&& !(reply is Refused) ==> failure.http_status is None && failure.outcome is Error
                    && failure.disposition is Terminal
            }
        },
{
    if step.failure is Some {
        assert(crate::provider::failure_view(step.failure) == Some(step.failure->0@));
    }
}

/// The addresses are tried in order until one connects, the server gave its answer, or none is
/// left.
pub proof fn law_addresses_are_tried_in_order(
    addresses: Seq<SocketAddress>,
    at: int,
    verdict: ConnectVerdict,
)
    requires
        0 <= at < addresses.len(),
    ensures
        ({
            let next = after_address(addresses, at, verdict);
            &&& next is Connected <==> verdict is Connected
            &&& next is Try <==> verdict is TryNextAddress && at + 1 < addresses.len()
            &&& next matches ConnectNext::Try(address) ==> address == addresses[at + 1]
        }),
{
}

/// Bytes travel in the clear only to an address that says so, and only with leave. Otherwise they
/// are encrypted for the name that was configured, or for the host.
pub proof fn law_bytes_are_encrypted_without_leave(
    url: Url,
    allow_insecure: bool,
    tls_server_name: Option<String>,
    transport: Result<Transport, String>,
)
    requires
        call_ensures(choose_transport, (&url, allow_insecure, &tls_server_name), transport),
    ensures
        transport matches Ok(Transport::Plain) ==> url.scheme@ == "ws"@ && allow_insecure,
        url.scheme@ == "ws"@ && allow_insecure ==> transport is Ok && transport->Ok_0 is Plain,
        url.scheme@ == "ws"@ && !allow_insecure ==> transport is Err,
        url.scheme@ == "wss"@ && (tls_server_name is Some || url.host is Some) ==> {
            &&& transport is Ok
            &&& transport->Ok_0 is Tls
            &&& tls_server_name matches Some(name) ==> transport->Ok_0->server_name@ == name@
            &&& tls_server_name is None ==> transport->Ok_0->server_name@ == url.host->0@
        },
        url.scheme@ == "wss"@ && tls_server_name is None && url.host is None ==> transport is Err,
        url.scheme@ != "ws"@ && url.scheme@ != "wss"@ ==> transport is Err,
{
    reveal_strlit("ws");
    reveal_strlit("wss");
    assert("ws"@.len() != "wss"@.len());
}

/// A server is asked for under its name, with its port where that is not the usual one.
pub proof fn law_host_is_named_with_its_port(server_name: &str, port: Option<u16>, host: String)
    requires
        call_ensures(host_header, (server_name, port), host),
    ensures
        port is None || port == Some(443u16) ==> host@ == server_name@,
        port matches Some(number) ==> number != 443 ==> host@ == server_name@ + ":"@ + dec(
            number as nat,
        ),
{
}

/// The local end of a connection is the one that the system names, or an unspecified address of
/// the family of the other end.
pub proof fn law_local_end_is_of_the_family(named: Option<IpAddr>, remote: IpAddr, local: IpAddr)
    requires
        call_ensures(local_address, (named, remote), local),
    ensures
        named matches Some(address) ==> local == address,
        named is None ==> (local is V4 <==> remote is V4),
        named is None && remote is V4 ==> local == IpAddr::V4(0),
        named is None && remote is V6 ==> local == IpAddr::V6(0),
{
}

/// A connection through an interface comes from the interface's first address of the server's
/// family, and does not come about where it has none.
pub proof fn law_connection_leaves_from_its_interface(
    entries: Vec<InterfaceAddress>,
    interface: &str,
    remote: IpAddr,
    source: Result<IpAddr, String>,
)
    requires
        call_ensures(source_on, (&entries, interface, remote), source),
    ensures
        source is Ok <==> exists|i: int|
            0 <= i < entries@.len() && (#[trigger] entries@[i]).name@ == interface@
                && (entries@[i].address is V4) == (remote is V4),
        source matches Ok(address) ==> exists|i: int|
            {
                &&& 0 <= i < entries@.len()
                &&& (#[trigger] entries@[i]).name@ == interface@
                &&& entries@[i].address == address
                &&& (address is V4) == (remote is V4)
                &&& forall|k: int|
                    0 <= k < i ==> !((#[trigger] entries@[k]).name@ == interface@ && (
                    entries@[k].address is V4) == (remote is V4))
            },
{
    if source is Ok {
        let address = source->Ok_0;
        let at = choose|at: int|
            {
                &&& 0 <= at < entries@.len()
                &&& #[trigger] super::connect::suits(entries@[at], interface@, remote)
                &&& entries@[at].address == address
                &&& forall|i: int|
                    0 <= i < at ==> !#[trigger] super::connect::suits(
                        entries@[i],
                        interface@,
                        remote,
                    )
            };
        assert(entries@[at].name@ == interface@);
        assert forall|k: int| 0 <= k < at implies !((#[trigger] entries@[k]).name@ == interface@ && (
        entries@[k].address is V4) == (remote is V4)) by {
            assert(!super::connect::suits(entries@[k], interface@, remote));
        }
    } else {
        assert forall|i: int| 0 <= i < entries@.len() implies !((#[trigger] entries@[i]).name@
            == interface@ && (entries@[i].address is V4) == (remote is V4)) by {
            assert(!super::connect::suits(entries@[i], interface@, remote));
        }
    }
}

} // verus!
