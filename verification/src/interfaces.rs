//! Network interfaces: which addresses they offer, and whose turn it is.
use crate::model::IpAddr;
use crate::string_map::{StringMap, ascending, lemma_stored, lookup, stored};
use crate::text::same_text;
use vstd::prelude::*;
use vstd::string::StringExecFns;

verus! {

/// An address of an interface, and whether the interface is up.
#[derive(Debug, PartialEq, Eq)]
pub struct InterfaceAddress {
    pub name: String,
    pub up: bool,
    pub address: IpAddr,
}

/// An interface with the addresses that it offers.
#[derive(Debug, PartialEq, Eq)]
pub struct ResolvedInterface {
    pub name: String,
    pub addresses: Vec<IpAddr>,
}

#[derive(Debug, PartialEq, Eq)]
pub enum InterfaceError {
    Inspect { message: String },
    Missing { name: String },
    Down { name: String },
    Addressless { name: String },
}

impl InterfaceError {
    pub open spec fn text(self) -> Seq<char> {
        match self {
            InterfaceError::Inspect { message } => {
                "cannot inspect network interfaces: "@ + message@
            },
            InterfaceError::Missing { name } => "network interface does not exist: "@ + name@,
            InterfaceError::Down { name } => "network interface is not up: "@ + name@,
            InterfaceError::Addressless { name } => {
                "network interface has no usable source address: "@ + name@
            },
        }
    }

    /// The error in words.
    pub fn message(&self) -> (text: String)
        ensures
            text@ == self.text(),
    {
        match self {
            InterfaceError::Inspect { message } => {
                "cannot inspect network interfaces: ".to_owned().concat(message)
            },
            InterfaceError::Missing { name } => {
                "network interface does not exist: ".to_owned().concat(name)
            },
            InterfaceError::Down { name } => {
                "network interface is not up: ".to_owned().concat(name)
            },
            InterfaceError::Addressless { name } => {
                "network interface has no usable source address: ".to_owned().concat(name)
            },
        }
    }
}

/// Looks an interface up.
pub trait InterfaceResolver {
    fn resolve(&self, name: &str) -> Result<ResolvedInterface, InterfaceError>;
}

/// The order of addresses: those of version four first, then by number.
pub open spec fn ip_before(a: IpAddr, b: IpAddr) -> bool {
    match (a, b) {
        (IpAddr::V4(x), IpAddr::V4(y)) => x < y,
        (IpAddr::V6(x), IpAddr::V6(y)) => x < y,
        (IpAddr::V4(_), IpAddr::V6(_)) => true,
        (IpAddr::V6(_), IpAddr::V4(_)) => false,
    }
}

fn is_ip_before(a: IpAddr, b: IpAddr) -> (before: bool)
    ensures
        before == ip_before(a, b),
{
    match (a, b) {
        (IpAddr::V4(x), IpAddr::V4(y)) => x < y,
        (IpAddr::V6(x), IpAddr::V6(y)) => x < y,
        (IpAddr::V4(_), IpAddr::V6(_)) => true,
        (IpAddr::V6(_), IpAddr::V4(_)) => false,
    }
}

/// The address that stands for no address.
pub open spec fn unspecified(address: IpAddr) -> bool {
    address == IpAddr::V4(0) || address == IpAddr::V6(0)
}

/// The entry offers an address of the named interface.
pub open spec fn offers(entry: InterfaceAddress, name: Seq<char>, address: IpAddr) -> bool {
    entry.name@ == name && entry.up && entry.address == address && !unspecified(address)
}

/// Addresses in order, each once.
pub open spec fn ip_ascending(addresses: Seq<IpAddr>) -> bool {
    forall|i: int, j: int|
        0 <= i < j < addresses.len() ==> ip_before(#[trigger] addresses[i], #[trigger] addresses[j])
}

/// Some of the first `n` entries offers the address.
pub open spec fn offered(
    entries: Seq<InterfaceAddress>,
    n: int,
    name: Seq<char>,
    address: IpAddr,
) -> bool {
    exists|i: int| 0 <= i < n && offers(#[trigger] entries[i], name, address)
}

pub open spec fn any_named(entries: Seq<InterfaceAddress>, name: Seq<char>) -> bool {
    exists|i: int| 0 <= i < entries.len() && (#[trigger] entries[i]).name@ == name
}

pub open spec fn any_up(entries: Seq<InterfaceAddress>, name: Seq<char>) -> bool {
    exists|i: int|
        0 <= i < entries.len() && (#[trigger] entries[i]).name@ == name && entries[i].up
}

/// What looking an interface up among the discovered addresses comes to: it has to exist, to be
/// up and to offer an address. Its addresses are those it offers while up, in order, each once.
pub open spec fn resolves(
    entries: Seq<InterfaceAddress>,
    name: Seq<char>,
    result: Result<ResolvedInterface, InterfaceError>,
) -> bool {
    if !any_named(entries, name) {
        result matches Err(InterfaceError::Missing { name: n }) && n@ == name
    } else if !any_up(entries, name) {
        result matches Err(InterfaceError::Down { name: n }) && n@ == name
    } else if forall|a: IpAddr| !offered(entries, entries.len() as int, name, a) {
        result matches Err(InterfaceError::Addressless { name: n }) && n@ == name
    } else {
        &&& result matches Ok(resolved)
        &&& resolved.name@ == name
        &&& ip_ascending(resolved.addresses@)
        &&& forall|a: IpAddr|
            #[trigger] resolved.addresses@.contains(a) <==> offered(
                entries,
                entries.len() as int,
                name,
                a,
            )
    }
}

/// Puts an address in its place, unless it is there.
fn insert_address(addresses: &mut Vec<IpAddr>, address: IpAddr)
    requires
        ip_ascending(old(addresses)@),
    ensures
        ip_ascending(final(addresses)@),
        forall|a: IpAddr|
            #[trigger] final(addresses)@.contains(a) <==> (a == address || old(
                addresses,
            )@.contains(a)),
{
    let ghost before = addresses@;
    let mut at: usize = 0;
    while at < addresses.len() && is_ip_before(addresses[at], address)
        invariant
            at <= addresses@.len(),
            addresses@ == before,
            forall|k: int| 0 <= k < at ==> ip_before(#[trigger] addresses@[k], address),
        decreases addresses@.len() - at,
    {
        at += 1;
    }
    if at < addresses.len() && addresses[at] == address {
        proof {
            assert(addresses@[at as int] == address);
        }
        return;
    }
    addresses.insert(at, address);
    proof {
        let after = addresses@;
        assert forall|a: IpAddr| #[trigger] after.contains(a) <==> (a == address
            || before.contains(a)) by {
            if before.contains(a) {
                let k = choose|k: int| 0 <= k < before.len() && before[k] == a;
                if k < at {
                    assert(after[k] == a);
                } else {
                    assert(after[k + 1] == a);
                }
            }
            if a == address {
                assert(after[at as int] == a);
            }
            if after.contains(a) && a != address {
                let k = choose|k: int| 0 <= k < after.len() && after[k] == a;
                if k < at {
                    assert(before[k] == a);
                } else {
                    assert(before[k - 1] == a);
                }
            }
        }
        assert forall|i: int, j: int| 0 <= i < j < after.len() implies ip_before(
            #[trigger] after[i],
            #[trigger] after[j],
        ) by {
            let x = if i < at {
                i
            } else {
                i - 1
            };
            let y = if j < at {
                j
            } else {
                j - 1
            };
            if i != at {
                assert(after[i] == before[x]);
            }
            if j != at {
                assert(after[j] == before[y]);
            }
            if i == at && y > at {
                assert(ip_before(before[at as int], before[y]));
            }
        }
    }
}

/// Looks an interface up among the addresses that were discovered.
pub fn resolve_from(name: &str, entries: &Vec<InterfaceAddress>) -> (result: Result<
    ResolvedInterface,
    InterfaceError,
>)
    ensures
        resolves(entries@, name@, result),
{
    let mut named: bool = false;
    let mut up: bool = false;
    let mut addresses: Vec<IpAddr> = Vec::new();
    let mut i: usize = 0;
    while i < entries.len()
        invariant
            i <= entries@.len(),
            named ==> any_named(entries@, name@),
            up ==> any_up(entries@, name@),
            !named ==> forall|k: int| 0 <= k < i ==> (#[trigger] entries@[k]).name@ != name@,
            !up ==> forall|k: int|
                0 <= k < i ==> !((#[trigger] entries@[k]).name@ == name@ && entries@[k].up),
            ip_ascending(addresses@),
            forall|a: IpAddr|
                #[trigger] addresses@.contains(a) <==> offered(entries@, i as int, name@, a),
        decreases entries@.len() - i,
    {
        let entry = &entries[i];
        let ghost before = addresses@;
        let ours: bool = same_text(&entry.name, name);
        let mut taken: bool = false;
        if ours {
            named = true;
            if entry.up {
                up = true;
                if entry.address != IpAddr::V4(0) && entry.address != IpAddr::V6(0) {
                    insert_address(&mut addresses, entry.address);
                    taken = true;
                }
            }
        }
        proof {
            assert forall|a: IpAddr|
                #[trigger] addresses@.contains(a) <==> offered(entries@, i + 1, name@, a) by {
                assert(before.contains(a) <==> offered(entries@, i as int, name@, a));
                if offered(entries@, i + 1, name@, a) {
                    let k = choose|k: int|
                        0 <= k < i + 1 && offers(#[trigger] entries@[k], name@, a);
                    if k < i {
                        assert(offered(entries@, i as int, name@, a));
                    }
                }
                if taken && a == entry.address {
                    assert(offers(entries@[i as int], name@, a));
                }
                if before.contains(a) {
                    let k = choose|k: int| 0 <= k < i && offers(#[trigger] entries@[k], name@, a);
                    assert(offers(entries@[k], name@, a));
                }
            }
        }
        i += 1;
    }
    if !named {
        return Err(InterfaceError::Missing { name: name.to_owned() });
    }
    if !up {
        return Err(InterfaceError::Down { name: name.to_owned() });
    }
    if addresses.len() == 0 {
        proof {
            assert forall|a: IpAddr| !offered(entries@, entries@.len() as int, name@, a) by {
                assert(!addresses@.contains(a));
            }
        }
        return Err(InterfaceError::Addressless { name: name.to_owned() });
    }
    proof {
        assert(addresses@.contains(addresses@[0]));
        assert(offered(entries@, entries@.len() as int, name@, addresses@[0]));
    }
    Ok(ResolvedInterface { name: name.to_owned(), addresses })
}

/// Looks up all configured interfaces in one discovery. Without any, nothing is discovered; the
/// first that cannot be used fails them all.
pub fn resolve_configured_with<F: FnOnce() -> Result<Vec<InterfaceAddress>, String>>(
    names: &Vec<String>,
    discover: F,
) -> (result: Result<Vec<ResolvedInterface>, InterfaceError>)
    requires
        names@.len() > 0 ==> call_requires(discover, ()),
    ensures
        names@.len() == 0 ==> (result matches Ok(found) && found@.len() == 0),
        names@.len() > 0 ==> exists|discovered: Result<Vec<InterfaceAddress>, String>|
            call_ensures(discover, (), discovered) && #[trigger] resolves_all(
                discovered,
                names@,
                result,
            ),
{
    if names.len() == 0 {
        return Ok(Vec::new());
    }
    let discovered = discover();
    let result = resolve_all(names, &discovered);
    proof {
        assert(resolves_all(discovered, names@, result));
    }
    result
}

/// What looking all configured interfaces up in one discovery comes to.
pub open spec fn resolves_all(
    discovered: Result<Vec<InterfaceAddress>, String>,
    names: Seq<String>,
    result: Result<Vec<ResolvedInterface>, InterfaceError>,
) -> bool {
    match discovered {
        Err(cause) => result matches Err(InterfaceError::Inspect { message }) && message@ == cause@,
        Ok(entries) => match result {
            Ok(found) => {
                &&& found@.len() == names.len()
                &&& forall|i: int|
                    0 <= i < names.len() ==> resolves(
                        entries@,
                        names[i]@,
                        Ok(#[trigger] found@[i]),
                    )
            },
            Err(error) => exists|i: int|
                0 <= i < names.len() && resolves(entries@, (#[trigger] names[i])@, Err(error))
                    && first_failure(entries@, names, i),
        },
    }
}

/// The interfaces before the one with this index can be used.
pub open spec fn first_failure(entries: Seq<InterfaceAddress>, names: Seq<String>, i: int) -> bool {
    forall|k: int| 0 <= k < i ==> usable(entries, (#[trigger] names[k])@)
}

/// The interface can be used.
pub open spec fn usable(entries: Seq<InterfaceAddress>, name: Seq<char>) -> bool {
    any_named(entries, name) && any_up(entries, name) && exists|a: IpAddr|
        offered(entries, entries.len() as int, name, a)
}

/// Looks all configured interfaces up in a discovery.
pub fn resolve_all(
    names: &Vec<String>,
    discovered: &Result<Vec<InterfaceAddress>, String>,
) -> (result: Result<Vec<ResolvedInterface>, InterfaceError>)
    ensures
        resolves_all(*discovered, names@, result),
{
    let entries = match discovered {
        Err(cause) => {
            return Err(InterfaceError::Inspect { message: cause.clone() });
        },
        Ok(entries) => entries,
    };
    let mut found: Vec<ResolvedInterface> = Vec::new();
    let mut i: usize = 0;
    while i < names.len()
        invariant
            *discovered == Ok::<Vec<InterfaceAddress>, String>(*entries),
            i <= names@.len(),
            found@.len() == i,
            forall|k: int|
                0 <= k < i ==> resolves(entries@, names@[k]@, Ok(#[trigger] found@[k])),
            first_failure(entries@, names@, i as int),
        decreases names@.len() - i,
    {
        match resolve_from(&names[i], entries) {
            Ok(resolved) => {
                found.push(resolved);
            },
            Err(error) => {
                proof {
                    assert(resolves(entries@, names@[i as int]@, Err(error)));
                }
                return Err(error);
            },
        }
        i += 1;
    }
    Ok(found)
}

/// How often an interface had its turn, and when last.
#[derive(Clone, Copy, Debug, PartialEq, Eq, Structural)]
pub struct FairnessState {
    pub attempts: u64,
    pub last_turn: Option<u64>,
}

/// Gives every interface its turn.
pub struct FairInterfaceSelector {
    order: Vec<String>,
    state: StringMap<FairnessState>,
    turn: u64,
}

pub open spec fn rested() -> FairnessState {
    FairnessState { attempts: 0, last_turn: None }
}

/// The state of interfaces that had no turn yet.
pub open spec fn all_rested(names: Seq<String>) -> Seq<(Seq<char>, FairnessState)>
    decreases names.len(),
{
    if names.len() == 0 {
        Seq::empty()
    } else {
        stored(all_rested(names.drop_last()), names.last()@, rested())
    }
}

/// The state that is kept of a name.
pub open spec fn fairness_of(state: Seq<(Seq<char>, FairnessState)>, name: Seq<char>)
    -> FairnessState {
    match lookup(state, name) {
        Some(held) => held,
        None => rested(),
    }
}

pub open spec fn last_turn_of(state: FairnessState) -> u64 {
    match state.last_turn {
        Some(turn) => turn,
        None => 0,
    }
}

/// The interface comes first: it had fewer turns, or as many and its last is longer ago, or also
/// that is the same and it is configured earlier.
pub open spec fn comes_first(a: FairnessState, i: int, b: FairnessState, j: int) -> bool {
    a.attempts < b.attempts || (a.attempts == b.attempts && (last_turn_of(a) < last_turn_of(b) || (
    last_turn_of(a) == last_turn_of(b) && i < j)))
}

pub open spec fn listed(names: Seq<String>, name: Seq<char>) -> bool {
    exists|i: int| 0 <= i < names.len() && (#[trigger] names[i])@ == name
}

fn is_listed(names: &Vec<String>, name: &str) -> (found: bool)
    ensures
        found == listed(names@, name@),
{
    let mut i: usize = 0;
    while i < names.len()
        invariant
            i <= names@.len(),
            forall|k: int| 0 <= k < i ==> (#[trigger] names@[k])@ != name@,
        decreases names@.len() - i,
    {
        if same_text(&names[i], name) {
            return true;
        }
        i += 1;
    }
    false
}

/// A number of turns with one more.
pub open spec fn one_more(attempts: u64) -> u64 {
    if attempts == u64::MAX {
        u64::MAX
    } else {
        (attempts + 1) as u64
    }
}

/// An interface has its turn. A name that is not configured takes none.
pub open spec fn gives_turn(
    before: FairInterfaceSelector,
    interface: Seq<char>,
    after: FairInterfaceSelector,
) -> bool {
    &&& after.order() == before.order()
    &&& if listed(before.order(), interface) {
        &&& after.turn() == if before.turn() == u64::MAX {
            0
        } else {
            (before.turn() + 1) as u64
        }
        &&& after.state() == stored(
            before.state(),
            interface,
            FairnessState {
                attempts: one_more(fairness_of(before.state(), interface).attempts),
                last_turn: Some(after.turn()),
            },
        )
    } else {
        &&& after.turn() == before.turn()
        &&& after.state() == before.state()
    }
}

proof fn lemma_all_rested(names: Seq<String>)
    ensures
        ascending(all_rested(names)),
        forall|name: Seq<char>|
            #[trigger] lookup(all_rested(names), name) == if listed(names, name) {
                Some(rested())
            } else {
                None
            },
    decreases names.len(),
{
    if names.len() > 0 {
        let rest = names.drop_last();
        lemma_all_rested(rest);
        lemma_stored(all_rested(rest), names.last()@, rested());
        assert forall|name: Seq<char>| #[trigger]
            lookup(all_rested(names), name) == if listed(names, name) {
                Some(rested())
            } else {
                None
            } by {
            if listed(rest, name) {
                let i = choose|i: int| 0 <= i < rest.len() && (#[trigger] rest[i])@ == name;
                assert(names[i]@ == name);
            }
            if names.last()@ == name {
                assert(names[names.len() - 1]@ == name);
            } else if listed(names, name) {
                let i = choose|i: int| 0 <= i < names.len() && (#[trigger] names[i])@ == name;
                assert(rest[i]@ == name);
            }
            assert(lookup(all_rested(rest), name) == if listed(rest, name) {
                Some(rested())
            } else {
                None
            });
        }
    }
}

impl FairInterfaceSelector {
    /// The interfaces as they were configured.
    pub closed spec fn order(&self) -> Seq<String> {
        self.order@
    }

    pub closed spec fn state(&self) -> Seq<(Seq<char>, FairnessState)> {
        self.state.entries()
    }

    pub closed spec fn turn(&self) -> u64 {
        self.turn
    }

    /// What is kept is kept of the configured interfaces, and of no others.
    pub open spec fn well_formed(&self) -> bool {
        &&& ascending(self.state())
        &&& forall|name: Seq<char>|
            #[trigger] lookup(self.state(), name) is Some <==> listed(self.order(), name)
    }

    #[verifier::type_invariant]
    spec fn type_inv(self) -> bool {
        self.well_formed()
    }

    /// The configured interface with this index is the one whose turn it is.
    pub open spec fn is_choice(&self, eligible: Seq<String>, i: int) -> bool {
        &&& 0 <= i < self.order().len()
        &&& listed(eligible, self.order()[i]@)
        &&& forall|j: int|
            0 <= j < self.order().len() && j != i && listed(
                eligible,
                (#[trigger] self.order()[j])@,
            ) ==> comes_first(
                fairness_of(self.state(), self.order()[i]@),
                i,
                fairness_of(self.state(), self.order()[j]@),
                j,
            )
    }

    /// None of the configured interfaces is eligible.
    pub open spec fn none_of(&self, eligible: Seq<String>) -> bool {
        forall|i: int|
            0 <= i < self.order().len() ==> !listed(eligible, (#[trigger] self.order()[i])@)
    }

    pub fn new(interfaces: &Vec<String>) -> (selector: Self)
        ensures
            selector.order() == interfaces@,
            selector.state() == all_rested(interfaces@),
            selector.turn() == 0,
            selector.well_formed(),
    {
        let mut order: Vec<String> = Vec::new();
        let mut state: StringMap<FairnessState> = StringMap::new();
        let mut i: usize = 0;
        while i < interfaces.len()
            invariant
                i <= interfaces@.len(),
                order@ == interfaces@.take(i as int),
                state.entries() == all_rested(interfaces@.take(i as int)),
            decreases interfaces@.len() - i,
        {
            proof {
                assert(interfaces@.take(i + 1).drop_last() == interfaces@.take(i as int));
                assert(interfaces@.take(i + 1) == interfaces@.take(i as int).push(
                    interfaces@[i as int],
                ));
            }
            order.push(interfaces[i].clone());
            state.put(interfaces[i].clone(), FairnessState { attempts: 0, last_turn: None });
            i += 1;
        }
        proof {
            assert(interfaces@.take(interfaces@.len() as int) == interfaces@);
            lemma_all_rested(interfaces@);
        }
        FairInterfaceSelector { order, state, turn: 0 }
    }

    fn fairness(&self, name: &str) -> (state: FairnessState)
        ensures
            state == fairness_of(self.state(), name@),
    {
        match self.state.get(name) {
            Some(state) => *state,
            None => FairnessState { attempts: 0, last_turn: None },
        }
    }

    /// The eligible interface whose turn it is.
    pub fn select(&self, eligible: &Vec<String>) -> (choice: Option<&str>)
        ensures
            match choice {
                None => self.none_of(eligible@),
                Some(name) => exists|i: int|
                    #[trigger] self.is_choice(eligible@, i) && name@ == self.order()[i]@,
            },
    {
        let mut best: Option<usize> = None;
        let mut i: usize = 0;
        while i < self.order.len()
            invariant
                i <= self.order@.len(),
                match best {
                    None => forall|k: int|
                        0 <= k < i ==> !listed(eligible@, (#[trigger] self.order@[k])@),
                    Some(b) => {
                        &&& b < i
                        &&& listed(eligible@, self.order@[b as int]@)
                        &&& forall|k: int|
                            0 <= k < i && k != b && listed(
                                eligible@,
                                (#[trigger] self.order@[k])@,
                            ) ==> comes_first(
                                fairness_of(self.state(), self.order@[b as int]@),
                                b as int,
                                fairness_of(self.state(), self.order@[k]@),
                                k,
                            )
                    },
                },
            decreases self.order@.len() - i,
        {
            if is_listed(eligible, &self.order[i]) {
                let candidate = self.fairness(&self.order[i]);
                let better: bool = match best {
                    None => true,
                    Some(b) => {
                        let held = self.fairness(&self.order[b]);
                        let recent: u64 = match candidate.last_turn {
                            Some(turn) => turn,
                            None => 0,
                        };
                        let held_recent: u64 = match held.last_turn {
                            Some(turn) => turn,
                            None => 0,
                        };
                        candidate.attempts < held.attempts || (candidate.attempts == held.attempts
                            && recent < held_recent)
                    },
                };
                if better {
                    best = Some(i);
                }
            }
            i += 1;
        }
        match best {
            None => None,
            Some(b) => {
                proof {
                    assert(self.is_choice(eligible@, b as int));
                }
                Some(&self.order[b])
            },
        }
    }

    /// Notes that an interface had its turn. A name that is not configured takes none.
    pub fn record_attempt(&mut self, interface: &str)
        ensures
            gives_turn(*old(self), interface@, *final(self)),
            final(self).well_formed(),
    {
        proof {
            use_type_invariant(&*self);
        }
        let held = match self.state.get(interface) {
            Some(state) => *state,
            None => {
                return;
            },
        };
        let ghost before = *self;
        let mut taken = FairInterfaceSelector {
            order: Vec::new(),
            state: StringMap::new(),
            turn: 0,
        };
        std::mem::swap(&mut taken, self);
        let FairInterfaceSelector { order, mut state, turn } = taken;
        let turn: u64 = turn.wrapping_add(1);
        let next = FairnessState {
            attempts: held.attempts.saturating_add(1),
            last_turn: Some(turn),
        };
        state.put(interface.to_owned(), next);
        proof {
            lemma_stored(before.state(), interface@, next);
        }
        *self = FairInterfaceSelector { order, state, turn };
    }

    /// How many turns an interface had.
    pub fn attempts(&self, interface: &str) -> (attempts: u64)
        ensures
            attempts == fairness_of(self.state(), interface@).attempts,
    {
        self.fairness(interface).attempts
    }
}

/// Where the eligible interfaces are at most one turn apart, giving the chosen one its turn keeps
/// them so.
pub proof fn law_turns_stay_level(
    selector: FairInterfaceSelector,
    eligible: Seq<String>,
    chosen: int,
    turn: u64,
    a: int,
    b: int,
)
    requires
        ascending(selector.state()),
        selector.is_choice(eligible, chosen),
        fairness_of(selector.state(), selector.order()[chosen]@).attempts < u64::MAX,
        0 <= a < selector.order().len(),
        0 <= b < selector.order().len(),
        listed(eligible, selector.order()[a]@),
        listed(eligible, selector.order()[b]@),
        fairness_of(selector.state(), selector.order()[a]@).attempts <= fairness_of(
            selector.state(),
            selector.order()[b]@,
        ).attempts + 1,
    ensures
        ({
            let held = fairness_of(selector.state(), selector.order()[chosen]@);
            let after = stored(
                selector.state(),
                selector.order()[chosen]@,
                FairnessState { attempts: (held.attempts + 1) as u64, last_turn: Some(turn) },
            );
            fairness_of(after, selector.order()[a]@).attempts <= fairness_of(
                after,
                selector.order()[b]@,
            ).attempts + 1
        }),
{
    let name = selector.order()[chosen]@;
    let held = fairness_of(selector.state(), name);
    let next = FairnessState { attempts: (held.attempts + 1) as u64, last_turn: Some(turn) };
    lemma_stored(selector.state(), name, next);
}

/// A name that is not configured takes no turn: what is kept of every name, and whose turn it is
/// among any interfaces, stays as it was. Such a name never had a turn.
pub proof fn law_unconfigured_name_takes_no_turn(
    before: FairInterfaceSelector,
    interface: Seq<char>,
    after: FairInterfaceSelector,
)
    requires
        before.well_formed(),
        gives_turn(before, interface, after),
        !listed(before.order(), interface),
    ensures
        fairness_of(after.state(), interface) == rested(),
        forall|name: Seq<char>| #[trigger]
            fairness_of(after.state(), name) == fairness_of(before.state(), name),
        forall|eligible: Seq<String>, i: int| #[trigger]
            after.is_choice(eligible, i) == before.is_choice(eligible, i),
        after.turn() == before.turn(),
{
    assert(lookup(before.state(), interface) is None);
    assert forall|eligible: Seq<String>, i: int| #[trigger]
        after.is_choice(eligible, i) == before.is_choice(eligible, i) by {}
}

/// No interface had a turn that is still to come.
pub open spec fn timely(selector: FairInterfaceSelector) -> bool {
    forall|name: Seq<char>| #[trigger]
        last_turn_of(fairness_of(selector.state(), name)) <= selector.turn()
}

/// A configured name takes one turn and becomes the one that had its turn last. The others keep
/// their turns, and so the order in which they had them. The number of turns stops at the largest
/// one that can be counted.
pub proof fn law_configured_name_takes_one_turn(
    before: FairInterfaceSelector,
    interface: Seq<char>,
    after: FairInterfaceSelector,
)
    requires
        before.well_formed(),
        gives_turn(before, interface, after),
        listed(before.order(), interface),
    ensures
        fairness_of(after.state(), interface).attempts == one_more(
            fairness_of(before.state(), interface).attempts,
        ),
        forall|name: Seq<char>|
            name != interface ==> #[trigger] fairness_of(after.state(), name) == fairness_of(
                before.state(),
                name,
            ),
        timely(before) && before.turn() < u64::MAX ==> {
            &&& timely(after)
            &&& forall|name: Seq<char>|
                name != interface ==> #[trigger] last_turn_of(fairness_of(after.state(), name))
                    < last_turn_of(fairness_of(after.state(), interface))
        },
        after.well_formed(),
{
    let next = FairnessState {
        attempts: one_more(fairness_of(before.state(), interface).attempts),
        last_turn: Some(after.turn()),
    };
    lemma_stored(before.state(), interface, next);
    assert forall|name: Seq<char>| name != interface implies #[trigger] fairness_of(
        after.state(),
        name,
    ) == fairness_of(before.state(), name) by {
        assert(lookup(after.state(), name) == lookup(before.state(), name));
    }
    assert(fairness_of(after.state(), interface) == next);
    if timely(before) && before.turn() < u64::MAX {
        assert forall|name: Seq<char>| #[trigger]
            last_turn_of(fairness_of(after.state(), name)) <= after.turn() by {
            assert(last_turn_of(fairness_of(before.state(), name)) <= before.turn());
        }
        assert forall|name: Seq<char>| name != interface implies #[trigger] last_turn_of(
            fairness_of(after.state(), name),
        ) < last_turn_of(fairness_of(after.state(), interface)) by {
            assert(last_turn_of(fairness_of(before.state(), name)) <= before.turn());
        }
    }
    assert forall|name: Seq<char>| #[trigger]
        lookup(after.state(), name) is Some <==> listed(after.order(), name) by {
        assert(lookup(before.state(), name) is Some <==> listed(before.order(), name));
    }
}

/// Each name is configured once.
pub open spec fn distinct(names: Seq<String>) -> bool {
    forall|i: int, j: int|
        0 <= i < j < names.len() ==> (#[trigger] names[i])@ != (#[trigger] names[j])@
}

/// Where the eligible interfaces are configured.
pub open spec fn eligible_places(names: Seq<String>, eligible: Seq<String>) -> Seq<int>
    decreases names.len(),
{
    if names.len() == 0 {
        Seq::empty()
    } else {
        let before = eligible_places(names.drop_last(), eligible);
        if listed(eligible, names.last()@) {
            before.push(names.len() - 1)
        } else {
            before
        }
    }
}

proof fn lemma_eligible_places(names: Seq<String>, eligible: Seq<String>)
    ensures
        ({
            let places = eligible_places(names, eligible);
            &&& forall|r: int|
                0 <= r < places.len() ==> 0 <= #[trigger] places[r] < names.len() && listed(
                    eligible,
                    names[places[r]]@,
                )
            &&& forall|r: int, q: int|
                0 <= r < q < places.len() ==> #[trigger] places[r] < #[trigger] places[q]
            &&& forall|i: int|
                0 <= i < names.len() && listed(eligible, (#[trigger] names[i])@)
                    ==> places.contains(i)
        }),
    decreases names.len(),
{
    if names.len() > 0 {
        let rest = names.drop_last();
        lemma_eligible_places(rest, eligible);
        let before = eligible_places(rest, eligible);
        let places = eligible_places(names, eligible);
        assert forall|r: int| 0 <= r < places.len() implies 0 <= #[trigger] places[r]
            < names.len() && listed(eligible, names[places[r]]@) by {
            if r < before.len() {
                assert(places[r] == before[r]);
                assert(rest[before[r]] == names[before[r]]);
            }
        }
        assert forall|r: int, q: int| 0 <= r < q < places.len() implies #[trigger] places[r]
            < #[trigger] places[q] by {
            assert(places[r] == before[r]);
            if q < before.len() {
                assert(places[q] == before[q]);
            }
        }
        assert forall|i: int|
            0 <= i < names.len() && listed(eligible, (#[trigger] names[i])@) implies places.contains(
            i,
        ) by {
            if i < rest.len() {
                assert(rest[i] == names[i]);
                let r = choose|r: int| 0 <= r < before.len() && before[r] == i;
                assert(places[r] == i);
            } else {
                assert(places[places.len() - 1] == i);
            }
        }
    }
}

/// The turns are given one after the other to the eligible interface whose turn it is: `states`
/// are the selectors before each turn and after the last, `choices` the interfaces that had one.
pub open spec fn turns_given(
    states: Seq<FairInterfaceSelector>,
    choices: Seq<int>,
    eligible: Seq<String>,
) -> bool {
    &&& states.len() == choices.len() + 1
    &&& forall|j: int|
        0 <= j < choices.len() ==> {
            &&& states[j].is_choice(eligible, #[trigger] choices[j])
            &&& gives_turn(states[j], states[j].order()[choices[j]]@, states[j + 1])
        }
}

/// What is kept of the eligible interface at place `r` of `n` after `k` turns: those before the
/// place that is next had one more round.
spec fn standing(k: int, n: int, r: int) -> FairnessState {
    let whole = k / n;
    if r < k % n {
        FairnessState { attempts: (whole + 1) as u64, last_turn: Some((whole * n + r + 1) as u64) }
    } else if whole == 0 {
        rested()
    } else {
        FairnessState {
            attempts: whole as u64,
            last_turn: Some(((whole - 1) * n + r + 1) as u64),
        }
    }
}

proof fn lemma_next_turn(k: int, n: int)
    requires
        0 <= k,
        0 < n,
    ensures
        k == (k / n) * n + k % n,
        0 <= k % n < n,
        0 <= k / n <= k,
        0 <= (k / n) * n <= k,
        k / n >= 1 ==> ((k / n) - 1) * n >= 0 && ((k / n) - 1) * n + n == (k / n) * n,
        k % n + 1 < n ==> (k + 1) / n == k / n && (k + 1) % n == k % n + 1,
        k % n + 1 == n ==> (k + 1) / n == k / n + 1 && (k + 1) % n == 0,
{
    let q = k / n;
    let m = k % n;
    vstd::arithmetic::div_mod::lemma_fundamental_div_mod(k, n);
    vstd::arithmetic::mul::lemma_mul_is_commutative(n, q);
    assert(0 <= q <= k && 0 <= q * n) by (nonlinear_arith)
        requires
            k == q * n + m,
            0 <= m < n,
            0 <= k,
    ;
    assert((q - 1) * n + n == q * n) by (nonlinear_arith);
    if q >= 1 {
        assert((q - 1) * n >= 0) by (nonlinear_arith)
            requires
                q >= 1,
                n > 0,
        ;
    }
    if m + 1 < n {
        vstd::arithmetic::div_mod::lemma_fundamental_div_mod_converse(k + 1, n, q, m + 1);
    } else {
        assert((q + 1) * n == q * n + n) by (nonlinear_arith);
        vstd::arithmetic::div_mod::lemma_fundamental_div_mod_converse(k + 1, n, q + 1, 0);
    }
}

spec fn standing_after(
    selector: FairInterfaceSelector,
    names: Seq<String>,
    eligible: Seq<String>,
    k: int,
) -> bool {
    let places = eligible_places(names, eligible);
    &&& selector.order() == names
    &&& selector.well_formed()
    &&& selector.turn() == k
    &&& forall|r: int|
        0 <= r < places.len() ==> fairness_of(
            selector.state(),
            names[#[trigger] places[r]]@,
        ) == standing(k, places.len() as int, r)
    &&& forall|i: int|
        0 <= i < names.len() && !listed(eligible, (#[trigger] names[i])@) ==> fairness_of(
            selector.state(),
            names[i]@,
        ) == rested()
}

proof fn lemma_choice_is_next(
    selector: FairInterfaceSelector,
    names: Seq<String>,
    eligible: Seq<String>,
    k: int,
    chosen: int,
)
    requires
        standing_after(selector, names, eligible, k),
        0 <= k < u64::MAX,
        selector.is_choice(eligible, chosen),
    ensures
        ({
            let places = eligible_places(names, eligible);
            places.len() > 0 && chosen == places[k % places.len() as int]
        }),
{
    let places = eligible_places(names, eligible);
    let n = places.len() as int;
    lemma_eligible_places(names, eligible);
    assert(names[chosen] == selector.order()[chosen]);
    assert(places.contains(chosen));
    let r = choose|r: int| 0 <= r < places.len() && places[r] == chosen;
    assert(n > 0);
    lemma_next_turn(k, n);
    let m = k % n;
    if r != m {
        let other = places[m];
        assert(selector.order()[other] == names[other]);
        assert(listed(eligible, selector.order()[other]@));
        assert(comes_first(standing(k, n, r), chosen, standing(k, n, m), other));
        if r > m {
            assert(places[m] < places[r]);
        }
        assert(false);
    }
}

proof fn lemma_turn_keeps_standing(
    before: FairInterfaceSelector,
    after: FairInterfaceSelector,
    names: Seq<String>,
    eligible: Seq<String>,
    k: int,
    chosen: int,
)
    requires
        distinct(names),
        standing_after(before, names, eligible, k),
        0 <= k < u64::MAX,
        before.is_choice(eligible, chosen),
        gives_turn(before, names[chosen]@, after),
    ensures
        standing_after(after, names, eligible, k + 1),
{
    let places = eligible_places(names, eligible);
    let n = places.len() as int;
    lemma_choice_is_next(before, names, eligible, k, chosen);
    lemma_eligible_places(names, eligible);
    lemma_next_turn(k, n);
    let m = k % n;
    let name = names[chosen]@;
    assert(before.order()[chosen] == names[chosen]);
    assert(listed(before.order(), name));
    law_configured_name_takes_one_turn(before, name, after);
    assert(places[m] == chosen);
    assert(fairness_of(before.state(), names[places[m]]@) == standing(k, n, m));
    assert forall|r: int| 0 <= r < places.len() implies fairness_of(
        after.state(),
        names[#[trigger] places[r]]@,
    ) == standing(k + 1, n, r) by {
        if r == m {
            lemma_stored(
                before.state(),
                name,
                FairnessState {
                    attempts: one_more(fairness_of(before.state(), name).attempts),
                    last_turn: Some(after.turn()),
                },
            );
            assert((k / n + 1 - 1) * n == (k / n) * n);
        } else {
            if r < m {
                assert(places[r] < places[m]);
            } else {
                assert(places[m] < places[r]);
            }
            assert(names[places[r]]@ != name);
            assert((k / n + 1 - 1) * n == (k / n) * n);
        }
    }
    assert forall|i: int|
        0 <= i < names.len() && !listed(eligible, (#[trigger] names[i])@) implies fairness_of(
        after.state(),
        names[i]@,
    ) == rested() by {
        assert(names[i]@ != name);
    }
}

proof fn lemma_turns_keep_standing(
    states: Seq<FairInterfaceSelector>,
    choices: Seq<int>,
    eligible: Seq<String>,
    names: Seq<String>,
    k: int,
)
    requires
        distinct(names),
        turns_given(states, choices, eligible),
        states[0].order() == names,
        states[0].state() == all_rested(names),
        states[0].turn() == 0,
        0 <= k <= choices.len() <= u64::MAX,
    ensures
        standing_after(states[k], names, eligible, k),
    decreases k,
{
    let places = eligible_places(names, eligible);
    let n = places.len() as int;
    lemma_all_rested(names);
    if k == 0 {
        lemma_eligible_places(names, eligible);
        if n > 0 {
            lemma_next_turn(0, n);
        }
        assert forall|r: int| 0 <= r < places.len() implies fairness_of(
            states[0].state(),
            names[#[trigger] places[r]]@,
        ) == standing(0, n, r) by {
            assert(lookup(states[0].state(), names[places[r]]@) == Some(rested())) by {
                assert(listed(names, names[places[r]]@));
            }
        }
        assert forall|i: int|
            0 <= i < names.len() && !listed(eligible, (#[trigger] names[i])@) implies fairness_of(
            states[0].state(),
            names[i]@,
        ) == rested() by {
            assert(lookup(states[0].state(), names[i]@) == Some(rested())) by {
                assert(listed(names, names[i]@));
            }
        }
    } else {
        lemma_turns_keep_standing(states, choices, eligible, names, k - 1);
        assert(states[k - 1].is_choice(eligible, choices[k - 1]));
        lemma_turn_keeps_standing(
            states[k - 1],
            states[k],
            names,
            eligible,
            k - 1,
            choices[k - 1],
        );
    }
}

/// The turns go round: from the beginning, the eligible interfaces have theirs in the order in
/// which they are configured, again and again. So after any number of turns each of them had as
/// many as the others or one more, and no other interface had one.
pub proof fn law_turns_rotate(
    states: Seq<FairInterfaceSelector>,
    choices: Seq<int>,
    eligible: Seq<String>,
    names: Seq<String>,
)
    requires
        distinct(names),
        turns_given(states, choices, eligible),
        states[0].order() == names,
        states[0].state() == all_rested(names),
        states[0].turn() == 0,
        choices.len() <= u64::MAX,
        eligible_places(names, eligible).len() > 0,
    ensures
        ({
            let places = eligible_places(names, eligible);
            let n = places.len() as int;
            let k = choices.len() as int;
            &&& forall|j: int|
                0 <= j < k ==> #[trigger] choices[j] == places[j % n]
            &&& forall|r: int|
                0 <= r < n ==> fairness_of(
                    states[k].state(),
                    names[#[trigger] places[r]]@,
                ).attempts == k / n + if r < k % n {
                    1int
                } else {
                    0
                }
            &&& forall|i: int|
                0 <= i < names.len() && !listed(eligible, (#[trigger] names[i])@)
                    ==> fairness_of(states[k].state(), names[i]@).attempts == 0
        }),
{
    let places = eligible_places(names, eligible);
    let n = places.len() as int;
    let k = choices.len() as int;
    assert forall|j: int| 0 <= j < k implies #[trigger] choices[j] == places[j % n] by {
        lemma_turns_keep_standing(states, choices, eligible, names, j);
        lemma_choice_is_next(states[j], names, eligible, j, choices[j]);
    }
    lemma_turns_keep_standing(states, choices, eligible, names, k);
    lemma_next_turn(k, n);
    assert(k / n + 1 <= u64::MAX || k % n == 0) by (nonlinear_arith)
        requires
            k == (k / n) * n + k % n,
            0 <= k % n < n,
            0 <= k <= u64::MAX,
    ;
}

} // verus!
