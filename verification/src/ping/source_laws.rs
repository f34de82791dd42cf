//! Where a probe leaves from.
use super::source::{
    SourceChoice, SourceEntry, TransportFailure, best_entry, fits, is_link_local, listed,
    map_transport_failure, probe_scope, resolve_source, running, same_reach,
};
use super::{FailureModel, ProbeFailure};
use crate::config::Address;
use crate::model::IpAddr;
use vstd::prelude::*;

verus! {

/// The first ten bits of an address of version six are those of a link's own addresses.
pub open spec fn on_link_only(address: IpAddr) -> bool {
    address is V6 && 0xfe80_0000_0000_0000_0000_0000_0000_0000 <= address->V6_0
        <= 0xfebf_ffff_ffff_ffff_ffff_ffff_ffff_ffff
}

/// An address of this host alone.
pub open spec fn on_host_only(address: IpAddr) -> bool {
    address is V4 && 0x7f00_0000 <= address->V4_0 <= 0x7fff_ffff
}

/// Two addresses of one family reach equally far.
pub open spec fn reach_alike(one: IpAddr, other: IpAddr) -> bool {
    on_link_only(one) == on_link_only(other) && on_host_only(one) == on_host_only(other)
}

/// The entry is of the interface and of the family of the target.
pub open spec fn could_reach(entry: SourceEntry, interface: Seq<char>, target: IpAddr) -> bool {
    entry.name@ == interface && (entry.address is V4 <==> target is V4)
}

/// The failure is the system's, and says this.
pub open spec fn says_failure(failure: ProbeFailure, message: Seq<char>) -> bool {
    failure@ == (FailureModel::Io { os_error_code: None, message })
}

/// An address of version six whose first bits are `1111 1110 10` holds on one link only.
pub proof fn law_link_addresses_are_told(address: IpAddr, yes: bool)
    requires
        call_ensures(is_link_local, (address,), yes),
    ensures
        yes <==> on_link_only(address),
{
}

/// A probe on an interface leaves from an address of that interface and of the target's family:
/// from the first that reaches as far as the target, or else from the first of all. An interface
/// that is not there, not up, or without such an address is told of.
pub proof fn law_probe_leaves_from_its_interface(
    target: Address,
    interface: &str,
    entries: Vec<SourceEntry>,
    choice: SourceChoice,
) -> (at: int)
    requires
        call_ensures(
            resolve_source,
            (&target, Some(interface), &Ok::<Vec<SourceEntry>, ProbeFailure>(entries)),
            choice,
        ),
    ensures
        !(choice is AskRoute),
        choice is Use ==> {
            &&& 0 <= at < entries@.len()
            &&& choice->Use_0.address == entries@[at].address
            &&& choice->Use_0.index == entries@[at].index
            &&& could_reach(entries@[at], interface@, target.ip)
            &&& forall|k: int|
                0 <= k < at && could_reach(#[trigger] entries@[k], interface@, target.ip)
                    ==> !reach_alike(entries@[k].address, target.ip)
            &&& !reach_alike(entries@[at].address, target.ip) ==> forall|k: int|
                0 <= k < entries@.len() && could_reach(#[trigger] entries@[k], interface@, target.ip)
                    ==> at <= k && !reach_alike(entries@[k].address, target.ip)
            &&& exists|k: int|
                0 <= k < entries@.len() && (#[trigger] entries@[k]).name@ == interface@
                    && entries@[k].up
        },
        choice is Fail ==> {
            ||| (forall|k: int| 0 <= k < entries@.len() ==> (#[trigger] entries@[k]).name@
                != interface@) && says_failure(
                choice->Fail_0,
                "network interface does not exist: "@ + interface@,
            )
            ||| (forall|k: int|
                0 <= k < entries@.len() && (#[trigger] entries@[k]).name@ == interface@
                    ==> !entries@[k].up) && says_failure(
                choice->Fail_0,
                "network interface is not up: "@ + interface@,
            )
            ||| (forall|k: int|
                0 <= k < entries@.len() ==> !could_reach(
                    #[trigger] entries@[k],
                    interface@,
                    target.ip,
                )) && says_failure(
                choice->Fail_0,
                "network interface "@ + interface@ + " has no address matching target "@
                    + target.text@,
            )
        },
{
    assert forall|k: int| 0 <= k < entries@.len() implies could_reach(
        #[trigger] entries@[k],
        interface@,
        target.ip,
    ) == fits(entries@[k], interface@, target.ip) by {}
    assert forall|k: int|
        0 <= k < entries@.len() && fits(
            #[trigger] entries@[k],
            interface@,
            target.ip,
        ) implies same_reach(entries@[k].address, target.ip) == reach_alike(
        entries@[k].address,
        target.ip,
    ) by {}
    if choice is Use {
        let at = choose|i: int|
            #[trigger] best_entry(entries@, interface@, target.ip, i) && choice->Use_0
                == super::source::offered(entries@[i]);
        assert(running(entries@, interface@));
        at
    } else {
        assert(!listed(entries@, interface@) ==> forall|k: int|
            0 <= k < entries@.len() ==> (#[trigger] entries@[k]).name@ != interface@);
        assert(!running(entries@, interface@) ==> forall|k: int|
            0 <= k < entries@.len() && (#[trigger] entries@[k]).name@ == interface@
                ==> !entries@[k].up);
        0
    }
}

/// Without an interface the system routes a probe, unless its target holds on one link only.
pub proof fn law_probe_without_interface_is_routed(
    target: Address,
    entries: Result<Vec<SourceEntry>, ProbeFailure>,
    choice: SourceChoice,
)
    requires
        call_ensures(resolve_source, (&target, None::<&str>, &entries), choice),
    ensures
        choice is AskRoute <==> !on_link_only(target.ip),
        choice is Fail <==> on_link_only(target.ip),
        choice is Fail ==> says_failure(
            choice->Fail_0,
            "an interface is required for an IPv6 link-local ping target"@,
        ),
{
}

/// Where the interfaces cannot be listed, a probe on one of them fails for the same reason.
pub proof fn law_listing_failure_fails_the_probe(
    target: Address,
    interface: &str,
    failure: ProbeFailure,
    choice: SourceChoice,
)
    requires
        call_ensures(
            resolve_source,
            (&target, Some(interface), &Err::<Vec<SourceEntry>, ProbeFailure>(failure)),
            choice,
        ),
    ensures
        choice is Fail,
        choice->Fail_0@ == failure@,
{
}

/// A probe is bound to a link exactly where its target holds on one link only and the link has a
/// number.
pub proof fn law_probe_is_bound_to_its_link(target: IpAddr, index: Option<u32>, scope: Option<u32>)
    requires
        call_ensures(probe_scope, (target, index), scope),
    ensures
        scope is Some <==> on_link_only(target) && index is Some && index->0 > 0,
        scope is Some ==> scope == index,
{
}

/// A probe that timed out, or whose answer was no longer awaited, was sent; one that the system
/// refused, or that was called off, was not.
pub proof fn law_transport_failures_are_told(
    failure: TransportFailure,
    mapped: (ProbeFailure, bool),
)
    requires
        call_ensures(map_transport_failure, (failure,), mapped),
    ensures
        mapped.1 <==> failure is Timeout || failure is ReceiverStopped,
        failure is Timeout <==> mapped.0 is Timeout,
        failure is ClientDestroyed <==> mapped.0 is Cancelled,
        mapped.0 is PermissionDenied <==> failure is Io && failure->permission_denied,
        failure is Other <==> mapped.0 is Protocol,
        mapped.0 is Io <==> failure is ReceiverStopped || (failure is Io
            && !failure->permission_denied),
{
}

} // verus!
