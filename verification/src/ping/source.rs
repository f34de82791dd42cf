//! Where a probe leaves from, and what the transport's failures mean.
use super::{FailureModel, ProbeAttemptResult, ProbeBinding, ProbeFailure};
use crate::config::Address;
use crate::model::IpAddr;
use crate::text::{name_view, same_text};
use vstd::prelude::*;
use vstd::string::StringExecFns;

verus! {

/// An address of an interface, as the system lists it.
#[derive(Debug, PartialEq, Eq)]
pub struct SourceEntry {
    pub name: String,
    pub up: bool,
    pub address: IpAddr,
    pub index: Option<u32>,
}

/// Where a probe leaves from.
#[derive(Clone, Copy, Debug, PartialEq, Eq, Structural)]
pub struct SourceSelection {
    pub address: IpAddr,
    pub index: Option<u32>,
}

/// An address that holds on one link only: fe80::/10.
pub open spec fn link_local(address: IpAddr) -> bool {
    match address {
        IpAddr::V4(_) => false,
        IpAddr::V6(value) => value / 0x40_0000_0000_0000_0000_0000_0000_0000 == 0x3fa,
    }
}

pub fn is_link_local(address: IpAddr) -> (yes: bool)
    ensures
        yes == link_local(address),
{
    match address {
        IpAddr::V4(_) => false,
        IpAddr::V6(value) => value / 0x40_0000_0000_0000_0000_0000_0000_0000 == 0x3fa,
    }
}

/// An address of this host alone: 127.0.0.0/8.
pub open spec fn loopback_v4(address: u32) -> bool {
    address / 0x100_0000 == 127
}

/// Whether two addresses are of one family.
pub open spec fn one_family(left: IpAddr, right: IpAddr) -> bool {
    left is V4 <==> right is V4
}

pub fn same_family(left: IpAddr, right: IpAddr) -> (same: bool)
    ensures
        same == one_family(left, right),
{
    match (left, right) {
        (IpAddr::V4(_), IpAddr::V4(_)) => true,
        (IpAddr::V6(_), IpAddr::V6(_)) => true,
        _ => false,
    }
}

/// Whether a source has the reach of a target: both or neither on the link alone, or on this
/// host alone.
pub open spec fn same_reach(source: IpAddr, target: IpAddr) -> bool {
    match (source, target) {
        (IpAddr::V6(_), IpAddr::V6(_)) => link_local(source) == link_local(target),
        (IpAddr::V4(s), IpAddr::V4(t)) => loopback_v4(s) == loopback_v4(t),
        _ => false,
    }
}

/// How well a source fits a target: zero if it has the same reach.
pub fn source_rank(source: IpAddr, target: IpAddr) -> (rank: u8)
    ensures
        rank == (if same_reach(source, target) {
            0u8
        } else {
            1u8
        }),
{
    let same: bool = match (source, target) {
        (IpAddr::V6(_), IpAddr::V6(_)) => is_link_local(source) == is_link_local(target),
        (IpAddr::V4(s), IpAddr::V4(t)) => (s / 0x100_0000 == 127) == (t / 0x100_0000 == 127),
        _ => false,
    };
    if same {
        0
    } else {
        1
    }
}

/// What is known of where a probe leaves from.
pub enum SourceChoice {
    /// From an address of the interface.
    Use(SourceSelection),
    /// From where the system routes: it has to be asked.
    AskRoute,
    Fail(ProbeFailure),
}

/// The source that an entry offers.
pub open spec fn offered(entry: SourceEntry) -> SourceSelection {
    SourceSelection { address: entry.address, index: entry.index }
}

/// An entry of an interface with an address of the target's family.
pub open spec fn fits(entry: SourceEntry, interface: Seq<char>, target: IpAddr) -> bool {
    entry.name@ == interface && one_family(entry.address, target)
}

/// The entry that is taken: the first with the same reach, or else the first that fits.
pub open spec fn best_entry(
    entries: Seq<SourceEntry>,
    interface: Seq<char>,
    target: IpAddr,
    i: int,
) -> bool {
    &&& 0 <= i < entries.len()
    &&& fits(entries[i], interface, target)
    &&& forall|k: int|
        0 <= k < i && fits(#[trigger] entries[k], interface, target) ==> !same_reach(
            entries[k].address,
            target,
        )
    &&& !same_reach(entries[i].address, target) ==> forall|k: int|
        0 <= k < entries.len() && fits(#[trigger] entries[k], interface, target) ==> i <= k
            && !same_reach(entries[k].address, target)
}

/// Whether the system lists an interface.
pub open spec fn listed(entries: Seq<SourceEntry>, interface: Seq<char>) -> bool {
    exists|i: int| 0 <= i < entries.len() && (#[trigger] entries[i]).name@ == interface
}

/// Whether an interface is up.
pub open spec fn running(entries: Seq<SourceEntry>, interface: Seq<char>) -> bool {
    exists|i: int|
        0 <= i < entries.len() && (#[trigger] entries[i]).name@ == interface && entries[i].up
}

/// An input or output failure with no number of the system's.
pub open spec fn plain_io(message: Seq<char>) -> FailureModel {
    FailureModel::Io { os_error_code: None, message }
}

/// Where a probe on an interface leaves from.
pub open spec fn source_on(
    choice: SourceChoice,
    target: Address,
    interface: Seq<char>,
    entries: Seq<SourceEntry>,
) -> bool {
    if !listed(entries, interface) {
        &&& choice is Fail
        &&& choice->Fail_0@ == plain_io("network interface does not exist: "@ + interface)
    } else if !running(entries, interface) {
        &&& choice is Fail
        &&& choice->Fail_0@ == plain_io("network interface is not up: "@ + interface)
    } else {
        match choice {
            SourceChoice::Use(selection) => exists|i: int|
                #[trigger] best_entry(entries, interface, target.ip, i) && selection == offered(
                    entries[i],
                ),
            SourceChoice::AskRoute => false,
            SourceChoice::Fail(failure) => {
                &&& forall|i: int|
                    0 <= i < entries.len() ==> !fits(#[trigger] entries[i], interface, target.ip)
                &&& failure@ == plain_io(
                    "network interface "@ + interface + " has no address matching target "@
                        + target.text@,
                )
            },
        }
    }
}

/// Where a probe leaves from: an address of the interface that was named, or what the system
/// routes. Without an interface no probe can leave for an address that holds on one link only.
pub open spec fn source_for(
    choice: SourceChoice,
    target: Address,
    interface: Option<Seq<char>>,
    entries: Result<Seq<SourceEntry>, FailureModel>,
) -> bool {
    match interface {
        Some(name) => match entries {
            Ok(entries) => source_on(choice, target, name, entries),
            Err(failure) => choice is Fail && choice->Fail_0@ == failure,
        },
        None => if link_local(target.ip) {
            &&& choice is Fail
            &&& choice->Fail_0@ == plain_io(
                "an interface is required for an IPv6 link-local ping target"@,
            )
        } else {
            choice is AskRoute
        },
    }
}

/// What listing the interfaces gave.
pub open spec fn entries_model(entries: Result<Vec<SourceEntry>, ProbeFailure>) -> Result<
    Seq<SourceEntry>,
    FailureModel,
> {
    match entries {
        Ok(entries) => Ok(entries@),
        Err(failure) => Err(failure@),
    }
}

fn pick_source(target: &Address, interface: &str, entries: &Vec<SourceEntry>) -> (choice:
    SourceChoice)
    ensures
        source_on(choice, *target, interface@, entries@),
{
    let mut known: bool = false;
    let mut up: bool = false;
    let mut best: Option<usize> = None;
    let mut exact: bool = false;
    let mut i: usize = 0;
    while i < entries.len()
        invariant
            i <= entries@.len(),
            known <==> exists|k: int| 0 <= k < i && (#[trigger] entries@[k]).name@ == interface@,
            up <==> exists|k: int|
                0 <= k < i && (#[trigger] entries@[k]).name@ == interface@ && entries@[k].up,
            best is None ==> !exact && forall|k: int|
                0 <= k < i ==> !fits(#[trigger] entries@[k], interface@, target.ip),
            best is Some ==> {
                &&& best->0 < i
                &&& fits(entries@[best->0 as int], interface@, target.ip)
                &&& exact == same_reach(entries@[best->0 as int].address, target.ip)
                &&& forall|k: int|
                    0 <= k < best->0 && fits(#[trigger] entries@[k], interface@, target.ip)
                        ==> !same_reach(entries@[k].address, target.ip)
                &&& !exact ==> forall|k: int|
                    0 <= k < i && fits(#[trigger] entries@[k], interface@, target.ip) ==> best->0
                        <= k && !same_reach(entries@[k].address, target.ip)
            },
        decreases entries@.len() - i,
    {
        let entry = &entries[i];
        if same_text(&entry.name, interface) {
            known = true;
            if entry.up {
                up = true;
            }
            if same_family(entry.address, target.ip) && !exact {
                let rank: u8 = source_rank(entry.address, target.ip);
                if rank == 0 {
                    best = Some(i);
                    exact = true;
                } else if best.is_none() {
                    best = Some(i);
                }
            }
        }
        i += 1;
    }
    if !known {
        return SourceChoice::Fail(
            ProbeFailure::Io {
                os_error_code: None,
                message: "network interface does not exist: ".to_owned().concat(interface),
            },
        );
    }
    if !up {
        return SourceChoice::Fail(
            ProbeFailure::Io {
                os_error_code: None,
                message: "network interface is not up: ".to_owned().concat(interface),
            },
        );
    }
    match best {
        Some(at) => {
            let selection = SourceSelection {
                address: entries[at].address,
                index: entries[at].index,
            };
            proof {
                assert(best_entry(entries@, interface@, target.ip, at as int));
            }
            SourceChoice::Use(selection)
        },
        None => SourceChoice::Fail(
            ProbeFailure::Io {
                os_error_code: None,
                message: "network interface ".to_owned().concat(interface).concat(
                    " has no address matching target ",
                ).concat(&target.text),
            },
        ),
    }
}

/// Decides where a probe leaves from.
pub fn resolve_source(
    target: &Address,
    interface: Option<&str>,
    entries: &Result<Vec<SourceEntry>, ProbeFailure>,
) -> (choice: SourceChoice)
    ensures
        source_for(choice, *target, name_view(interface), entries_model(*entries)),
{
    match interface {
        Some(name) => match entries {
            Ok(entries) => pick_source(target, name, entries),
            Err(failure) => SourceChoice::Fail(failure.clone()),
        },
        None => if is_link_local(target.ip) {
            SourceChoice::Fail(
                ProbeFailure::Io {
                    os_error_code: None,
                    message: "an interface is required for an IPv6 link-local ping target".to_owned(),
                },
            )
        } else {
            SourceChoice::AskRoute
        },
    }
}

/// An address of the interface that is up and has the target's reach is never passed over for
/// one that lacks it.
pub proof fn law_source_has_the_reach_of_the_target(
    choice: SourceChoice,
    target: Address,
    interface: Seq<char>,
    entries: Seq<SourceEntry>,
    i: int,
)
    requires
        source_on(choice, target, interface, entries),
        running(entries, interface),
        0 <= i < entries.len(),
        fits(entries[i], interface, target.ip),
        same_reach(entries[i].address, target.ip),
    ensures
        choice is Use,
        one_family(choice->Use_0.address, target.ip),
        same_reach(choice->Use_0.address, target.ip),
{
    assert(entries[i].name@ == interface);
    assert(listed(entries, interface));
}

/// The link that a probe is bound to: the index of the interface, where the target holds on one
/// link only.
pub fn probe_scope(target: IpAddr, index: Option<u32>) -> (scope: Option<u32>)
    ensures
        scope == (match index {
            Some(value) => if value != 0 && link_local(target) {
                Some(value)
            } else {
                None
            },
            None => None,
        }),
{
    match index {
        Some(value) => if value != 0 && is_link_local(target) {
            Some(value)
        } else {
            None
        },
        None => None,
    }
}

/// What an error of the system means for a probe.
pub fn io_failure(permission_denied: bool, os_error_code: Option<i32>, message: String) -> (failure:
    ProbeFailure)
    ensures
        failure@ == (if permission_denied {
            FailureModel::PermissionDenied { os_error_code, message: message@ }
        } else {
            FailureModel::Io { os_error_code, message: message@ }
        }),
{
    if permission_denied {
        ProbeFailure::PermissionDenied { os_error_code, message }
    } else {
        ProbeFailure::Io { os_error_code, message }
    }
}

/// How the transport failed.
pub enum TransportFailure {
    Timeout,
    Io { permission_denied: bool, os_error_code: Option<i32>, message: String },
    ReceiverStopped,
    ClientDestroyed,
    Other { message: String },
}

/// What a failure of the transport means for a probe, and whether the probe was sent.
pub open spec fn transport_fault(failure: TransportFailure) -> (FailureModel, bool) {
    match failure {
        TransportFailure::Timeout => (FailureModel::Timeout, true),
        TransportFailure::Io { permission_denied, os_error_code, message } => (
            if permission_denied {
                FailureModel::PermissionDenied { os_error_code, message: message@ }
            } else {
                FailureModel::Io { os_error_code, message: message@ }
            },
            false,
        ),
        TransportFailure::ReceiverStopped => {
            (plain_io("ICMP receive task stopped before a reply arrived"@), true)
        },
        TransportFailure::ClientDestroyed => (FailureModel::Cancelled, false),
        TransportFailure::Other { message } => {
            (FailureModel::Protocol { message: message@ }, false)
        },
    }
}

/// What a failure of the transport means for a probe, and whether the probe was sent.
pub fn map_transport_failure(failure: TransportFailure) -> (mapped: (ProbeFailure, bool))
    ensures
        (mapped.0@, mapped.1) == transport_fault(failure),
{
    match failure {
        TransportFailure::Timeout => (ProbeFailure::Timeout, true),
        TransportFailure::Io { permission_denied, os_error_code, message } => {
            (io_failure(permission_denied, os_error_code, message), false)
        },
        TransportFailure::ReceiverStopped => (
            ProbeFailure::Io {
                os_error_code: None,
                message: "ICMP receive task stopped before a reply arrived".to_owned(),
            },
            true,
        ),
        TransportFailure::ClientDestroyed => (ProbeFailure::Cancelled, false),
        TransportFailure::Other { message } => (ProbeFailure::Protocol { message }, false),
    }
}

/// A probe of a target that the transport does not know.
pub fn unconfigured_probe() -> (attempt: ProbeAttemptResult)
    ensures
        attempt.binding.interface is None,
        attempt.binding.source_ip is None,
        !attempt.sent,
        attempt.result is Err,
        attempt.result->Err_0@ == (FailureModel::Protocol {
            message: "target was not configured in the ICMP transport"@,
        }),
{
    ProbeAttemptResult {
        binding: ProbeBinding { interface: None, source_ip: None },
        sent: false,
        result: Err(
            ProbeFailure::Protocol {
                message: "target was not configured in the ICMP transport".to_owned(),
            },
        ),
    }
}

} // verus!
