//! What looking interfaces up comes to, and whose turn it is.
use crate::interfaces::{
    FairInterfaceSelector, InterfaceAddress, InterfaceError, ResolvedInterface, any_named, any_up,
    comes_first, fairness_of, listed, offered, offers, resolve_all, resolve_from,
};
use crate::model::IpAddr;
use vstd::prelude::*;

verus! {

/// The entry is of an interface that is up.
pub open spec fn of_live(entry: InterfaceAddress, name: Seq<char>) -> bool {
    entry.name@ == name && entry.up
}

/// An address that a connection can leave from.
pub open spec fn leaves_from(address: IpAddr) -> bool {
    match address {
        IpAddr::V4(bits) => bits != 0,
        IpAddr::V6(bits) => bits != 0,
    }
}

/// Where an address stands among all: those of version four before those of version six, and by
/// number among their own.
pub open spec fn stands_at(address: IpAddr) -> int {
    match address {
        IpAddr::V4(bits) => bits as int,
        IpAddr::V6(bits) => 0x1_0000_0000 + bits,
    }
}

/// The addresses are those that the interface can be left from, each once and in order.
pub open spec fn lists_addresses(
    entries: Seq<InterfaceAddress>,
    name: Seq<char>,
    addresses: Seq<IpAddr>,
) -> bool {
    &&& forall|i: int|
        0 <= i < entries.len() && of_live(#[trigger] entries[i], name) && leaves_from(
            entries[i].address,
        ) ==> addresses.contains(entries[i].address)
    &&& forall|k: int|
        0 <= k < addresses.len() ==> leaves_from(#[trigger] addresses[k]) && exists|i: int|
            0 <= i < entries.len() && of_live(#[trigger] entries[i], name) && entries[i].address
                == addresses[k]
    &&& forall|j: int, k: int|
        0 <= j < k < addresses.len() ==> stands_at(#[trigger] addresses[j]) < stands_at(
            #[trigger] addresses[k],
        )
}

/// An interface is missing where no entry names it, down where none that names it is up, and
/// without an address where none that is up has one to leave from. Otherwise it is found with all
/// such addresses, each once and in order. What is said of it names it.
pub proof fn law_interface_is_found_with_its_addresses(
    name: &str,
    entries: Vec<InterfaceAddress>,
    result: Result<ResolvedInterface, InterfaceError>,
)
    requires
        call_ensures(resolve_from, (name, &entries), result),
    ensures
        (result is Err && result->Err_0 is Missing) <==> forall|i: int|
            0 <= i < entries@.len() ==> (#[trigger] entries@[i]).name@ != name@,
        (result is Err && result->Err_0 is Down) <==> {
            &&& exists|i: int| 0 <= i < entries@.len() && (#[trigger] entries@[i]).name@ == name@
            &&& forall|i: int| 0 <= i < entries@.len() ==> !of_live(#[trigger] entries@[i], name@)
        },
        (result is Err && result->Err_0 is Addressless) <==> {
            &&& exists|i: int| 0 <= i < entries@.len() && of_live(#[trigger] entries@[i], name@)
            &&& forall|i: int|
                0 <= i < entries@.len() && of_live(#[trigger] entries@[i], name@) ==> !leaves_from(
                    entries@[i].address,
                )
        },
        result is Ok ==> result->Ok_0.name@ == name@ && lists_addresses(
            entries@,
            name@,
            result->Ok_0.addresses@,
        ),
        result is Err ==> match result->Err_0 {
            InterfaceError::Inspect { .. } => false,
            InterfaceError::Missing { name: told } => told@ == name@,
            InterfaceError::Down { name: told } => told@ == name@,
            InterfaceError::Addressless { name: told } => told@ == name@,
        },
{
    let count = entries@.len() as int;
    if forall|i: int| 0 <= i < entries@.len() ==> (#[trigger] entries@[i]).name@ != name@ {
        assert(!any_named(entries@, name@));
    } else {
        let i = choose|i: int| 0 <= i < entries@.len() && (#[trigger] entries@[i]).name@ == name@;
        assert(any_named(entries@, name@));
        if forall|i: int| 0 <= i < entries@.len() ==> !of_live(#[trigger] entries@[i], name@) {
            assert(!any_up(entries@, name@)) by {
                if any_up(entries@, name@) {
                    let k = choose|k: int|
                        0 <= k < entries@.len() && (#[trigger] entries@[k]).name@ == name@
                            && entries@[k].up;
                    assert(of_live(entries@[k], name@));
                }
            }
        } else {
            let k = choose|k: int| 0 <= k < entries@.len() && of_live(#[trigger] entries@[k], name@);
            assert(entries@[k].name@ == name@ && entries@[k].up);
            assert(any_up(entries@, name@));
            if forall|a: IpAddr| !offered(entries@, count, name@, a) {
                assert forall|i: int|
                    0 <= i < count && of_live(#[trigger] entries@[i], name@) implies !leaves_from(
                    entries@[i].address,
                ) by {
                    if leaves_from(entries@[i].address) {
                        assert(offers(entries@[i], name@, entries@[i].address));
                        assert(offered(entries@, count, name@, entries@[i].address));
                    }
                }
            } else {
                let a = choose|a: IpAddr| offered(entries@, count, name@, a);
                let j = choose|j: int| 0 <= j < count && offers(#[trigger] entries@[j], name@, a);
                assert(of_live(entries@[j], name@) && leaves_from(entries@[j].address));
                let addresses = result->Ok_0.addresses@;
                assert forall|i: int|
                    0 <= i < count && of_live(#[trigger] entries@[i], name@) && leaves_from(
                        entries@[i].address,
                    ) implies addresses.contains(entries@[i].address) by {
                    assert(offers(entries@[i], name@, entries@[i].address));
                    assert(offered(entries@, count, name@, entries@[i].address));
                }
                assert forall|k: int| 0 <= k < addresses.len() implies leaves_from(
                    #[trigger] addresses[k],
                ) && exists|i: int|
                    0 <= i < count && of_live(#[trigger] entries@[i], name@) && entries@[i].address
                        == addresses[k] by {
                    assert(addresses.contains(addresses[k]));
                    assert(offered(entries@, count, name@, addresses[k]));
                    let i = choose|i: int|
                        0 <= i < count && offers(#[trigger] entries@[i], name@, addresses[k]);
                    assert(of_live(entries@[i], name@) && entries@[i].address == addresses[k]);
                }
            }
        }
    }
}

/// All interfaces are looked up in one discovery and come out in the order of their names. One
/// that cannot be used fails them all, and so does a discovery that fails.
pub proof fn law_all_interfaces_are_found_or_none(
    names: Vec<String>,
    discovered: Result<Vec<InterfaceAddress>, String>,
    result: Result<Vec<ResolvedInterface>, InterfaceError>,
)
    requires
        call_ensures(resolve_all, (&names, &discovered), result),
    ensures
        discovered is Err ==> result is Err && result->Err_0 is Inspect
            && result->Err_0->Inspect_message@ == discovered->Err_0@,
        discovered is Ok && result is Ok ==> {
            &&& result->Ok_0@.len() == names@.len()
            &&& forall|i: int|
                0 <= i < names@.len() ==> (#[trigger] result->Ok_0@[i]).name@ == names@[i]@
                    && result->Ok_0@[i].addresses@.len() > 0
        },
        discovered is Ok && (exists|i: int|
            0 <= i < names@.len() && !any_up(discovered->Ok_0@, (#[trigger] names@[i])@))
            ==> result is Err,
{
    if discovered is Ok && result is Ok {
        let entries = discovered->Ok_0@;
        assert forall|i: int| 0 <= i < names@.len() implies (
        #[trigger] result->Ok_0@[i]).name@ == names@[i]@ && result->Ok_0@[i].addresses@.len()
            > 0 by {
            let found = result->Ok_0@[i];
            assert(crate::interfaces::resolves(entries, names@[i]@, Ok(found)));
            let a = choose|a: IpAddr| offered(entries, entries.len() as int, names@[i]@, a);
            assert(found.addresses@.contains(a));
        }
        if exists|i: int| 0 <= i < names@.len() && !any_up(entries, (#[trigger] names@[i])@) {
            let i = choose|i: int| 0 <= i < names@.len() && !any_up(entries, (#[trigger] names@[i])@);
            assert(crate::interfaces::resolves(entries, names@[i]@, Ok(result->Ok_0@[i])));
        }
    }
}

/// When an interface had its last turn, where zero stands for never.
pub open spec fn latest_turn(selector: FairInterfaceSelector, i: int) -> int {
    match fairness_of(selector.state(), selector.order()[i]@).last_turn {
        Some(turn) => turn as int,
        None => 0,
    }
}

/// How many turns an interface had.
pub open spec fn turns_had(selector: FairInterfaceSelector, i: int) -> int {
    fairness_of(selector.state(), selector.order()[i]@).attempts as int
}

/// The eligible interface with the fewest turns is chosen. Of several, the one whose last turn is
/// longest ago is, and of those the one that is configured first. None is chosen only where none
/// is eligible.
pub proof fn law_longest_waiting_interface_is_chosen(
    selector: FairInterfaceSelector,
    eligible: Vec<String>,
    choice: Option<&str>,
) -> (at: int)
    requires
        call_ensures(FairInterfaceSelector::select, (&selector, &eligible), choice),
    ensures
        choice is None ==> forall|i: int, k: int|
            0 <= i < selector.order().len() && 0 <= k < eligible@.len()
                ==> (#[trigger] selector.order()[i])@ != (#[trigger] eligible@[k])@,
        choice is Some ==> {
            &&& 0 <= at < selector.order().len()
            &&& choice->0@ == selector.order()[at]@
            &&& exists|k: int| 0 <= k < eligible@.len() && (#[trigger] eligible@[k])@ == choice->0@
            &&& forall|j: int, k: int|
                0 <= j < selector.order().len() && 0 <= k < eligible@.len() && (
                #[trigger] selector.order()[j])@ == (#[trigger] eligible@[k])@ ==> {
                    &&& turns_had(selector, at) <= turns_had(selector, j)
                    &&& turns_had(selector, at) == turns_had(selector, j) ==> latest_turn(
                        selector,
                        at,
                    ) <= latest_turn(selector, j)
                    &&& turns_had(selector, at) == turns_had(selector, j) && latest_turn(
                        selector,
                        at,
                    ) == latest_turn(selector, j) ==> at <= j
                }
        },
{
    if choice is None {
        assert(selector.none_of(eligible@));
        assert forall|i: int, k: int|
            0 <= i < selector.order().len() && 0 <= k < eligible@.len() implies (
        #[trigger] selector.order()[i])@ != (#[trigger] eligible@[k])@ by {
            assert(!listed(eligible@, selector.order()[i]@));
        }
        0
    } else {
        let at = choose|i: int|
            #[trigger] selector.is_choice(eligible@, i) && choice->0@ == selector.order()[i]@;
        assert forall|j: int, k: int|
            0 <= j < selector.order().len() && 0 <= k < eligible@.len() && (
            #[trigger] selector.order()[j])@ == (#[trigger] eligible@[k])@ implies {
            &&& turns_had(selector, at) <= turns_had(selector, j)
            &&& turns_had(selector, at) == turns_had(selector, j) ==> latest_turn(selector, at)
                <= latest_turn(selector, j)
            &&& turns_had(selector, at) == turns_had(selector, j) && latest_turn(selector, at)
                == latest_turn(selector, j) ==> at <= j
        } by {
            assert(listed(eligible@, selector.order()[j]@));
            if j != at {
                assert(comes_first(
                    fairness_of(selector.state(), selector.order()[at]@),
                    at,
                    fairness_of(selector.state(), selector.order()[j]@),
                    j,
                ));
            }
        }
        at
    }
}

/// A turn counts for the interface that had it, and for no other; it is the latest of all.
pub proof fn law_turn_counts_once(
    before: FairInterfaceSelector,
    interface: Seq<char>,
    after: FairInterfaceSelector,
    i: int,
)
    requires
        before.well_formed(),
        crate::interfaces::gives_turn(before, interface, after),
        0 <= i < before.order().len(),
        turns_had(before, i) < u64::MAX,
        before.turn() < u64::MAX,
    ensures
        after.order() == before.order(),
        before.order()[i]@ == interface ==> turns_had(after, i) == turns_had(before, i) + 1
            && latest_turn(after, i) == before.turn() + 1 && after.turn() == before.turn() + 1,
        before.order()[i]@ != interface ==> turns_had(after, i) == turns_had(before, i)
            && latest_turn(after, i) == latest_turn(before, i),
{
    let name = before.order()[i]@;
    if name == interface {
        assert(listed(before.order(), interface));
        crate::interfaces::law_configured_name_takes_one_turn(before, interface, after);
        crate::string_map::lemma_stored(
            before.state(),
            interface,
            crate::interfaces::FairnessState {
                attempts: crate::interfaces::one_more(
                    fairness_of(before.state(), interface).attempts,
                ),
                last_turn: Some(after.turn()),
            },
        );
    } else if listed(before.order(), interface) {
        crate::interfaces::law_configured_name_takes_one_turn(before, interface, after);
    }
}

} // verus!
