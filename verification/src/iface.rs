//! What is known of a network interface, and how one is picked.

use crate::addr::{IpAddr, Ipv4Addr, MacAddr};
use vstd::prelude::*;

verus! {

/// A network interface as the host describes it.
#[derive(Clone, Debug, PartialEq, Eq)]
pub struct Interface {
    /// The name by which the host knows the interface.
    pub name: String,
    /// Its hardware address, if it has one.
    pub mac: Option<MacAddr>,
    /// The protocol addresses assigned to it, in the host's order.
    pub ips: Vec<IpAddr>,
    /// Whether it is up.
    pub up: bool,
    /// Whether it is a loopback interface.
    pub loopback: bool,
}

impl Interface {
    pub open spec fn spec_is_up(&self) -> bool {
        self.up
    }

    #[verifier::when_used_as_spec(spec_is_up)]
    pub fn is_up(&self) -> (yes: bool)
        ensures
            yes == self.up,
    {
        self.up
    }

    pub open spec fn spec_is_loopback(&self) -> bool {
        self.loopback
    }

    #[verifier::when_used_as_spec(spec_is_loopback)]
    pub fn is_loopback(&self) -> (yes: bool)
        ensures
            yes == self.loopback,
    {
        self.loopback
    }

    /// An interface that can carry the traffic: up, and no loopback.
    pub open spec fn spec_is_usable(&self) -> bool {
        !self.loopback && self.up
    }

    #[verifier::when_used_as_spec(spec_is_usable)]
    pub fn is_usable(&self) -> (yes: bool)
        ensures
            yes == self.spec_is_usable(),
    {
        !self.loopback && self.up
    }
}

/// The first of `interfaces` that satisfies the predicate, if any.
pub fn get<'a, P: Fn(&Interface) -> bool>(interfaces: &'a Vec<Interface>, predicate: P) -> (found:
    Option<&'a Interface>)
    requires
        forall|i: int|
            0 <= i < interfaces.len() ==> call_requires(predicate, (&#[trigger] interfaces[i],)),
    ensures
        match found {
            Some(iface) => exists|i: int|
                0 <= i < interfaces.len() && *iface == #[trigger] interfaces[i] && call_ensures(
                    predicate,
                    (&interfaces[i],),
                    true,
                ) && forall|j: int|
                    0 <= j < i ==> call_ensures(predicate, (&#[trigger] interfaces[j],), false),
            None => forall|j: int|
                0 <= j < interfaces.len() ==> call_ensures(
                    predicate,
                    (&#[trigger] interfaces[j],),
                    false,
                ),
        },
{
    let mut i: usize = 0;
    while i < interfaces.len()
        invariant
            i <= interfaces.len(),
            forall|k: int|
                0 <= k < interfaces.len() ==> call_requires(
                    predicate,
                    (&#[trigger] interfaces[k],),
                ),
            forall|j: int|
                0 <= j < i ==> call_ensures(predicate, (&#[trigger] interfaces[j],), false),
        decreases interfaces.len() - i,
    {
        if predicate(&interfaces[i]) {
            return Some(&interfaces[i]);
        }
        i += 1;
    }
    None
}

/// The position of the first interface that is `wanted`, or the number of
/// interfaces if none is.
pub open spec fn first_wanted(interfaces: Seq<Interface>, wanted: spec_fn(Interface) -> bool) -> int
    decreases interfaces.len(),
{
    if interfaces.len() == 0 {
        0
    } else if wanted(interfaces[0]) {
        0
    } else {
        1 + first_wanted(interfaces.skip(1), wanted)
    }
}

/// The first interface that is `wanted`, if any.
pub open spec fn pick(interfaces: Seq<Interface>, wanted: spec_fn(Interface) -> bool) -> Option<
    Interface,
> {
    let i = first_wanted(interfaces, wanted);
    if i < interfaces.len() {
        Some(interfaces[i])
    } else {
        None
    }
}

/// If no interface before position `i` is wanted, the first wanted one stands
/// at `i` where that one is wanted, and nowhere where `i` is the end.
pub proof fn lemma_first_wanted(
    interfaces: Seq<Interface>,
    wanted: spec_fn(Interface) -> bool,
    i: int,
)
    requires
        0 <= i <= interfaces.len(),
        forall|j: int| 0 <= j < i ==> !wanted(#[trigger] interfaces[j]),
        i < interfaces.len() ==> wanted(interfaces[i]),
    ensures
        first_wanted(interfaces, wanted) == i,
    decreases i,
{
    if i > 0 {
        let rest = interfaces.skip(1);
        assert forall|j: int| 0 <= j < i - 1 implies !wanted(#[trigger] rest[j]) by {
            assert(rest[j] == interfaces[j + 1]);
        }
        if i < interfaces.len() {
            assert(rest[i - 1] == interfaces[i]);
        }
        lemma_first_wanted(rest, wanted, i - 1);
    }
}

/// The first of `interfaces` that is up and no loopback, if any.
pub fn get_usable<'a>(interfaces: &'a Vec<Interface>) -> (found: Option<&'a Interface>)
    ensures
        found.is_some() == pick(interfaces@, |i: Interface| i.spec_is_usable()).is_some(),
        found matches Some(iface) ==> Some(*iface) == pick(
            interfaces@,
            |i: Interface| i.spec_is_usable(),
        ),
{
    let usable = |iface: &Interface| -> (yes: bool)
        ensures
            yes == iface.spec_is_usable(),
        { iface.is_usable() };
    let ghost wanted = |i: Interface| i.spec_is_usable();
    let found = get(interfaces, usable);
    proof {
        match found {
            Some(iface) => {
                let i = choose|i: int|
                    0 <= i < interfaces.len() && *iface == #[trigger] interfaces[i] && call_ensures(
                        usable,
                        (&interfaces[i],),
                        true,
                    ) && forall|j: int|
                        0 <= j < i ==> call_ensures(usable, (&#[trigger] interfaces[j],), false);
                lemma_first_wanted(interfaces@, wanted, i);
            },
            None => {
                lemma_first_wanted(interfaces@, wanted, interfaces@.len() as int);
            },
        }
    }
    found
}

/// The hardware address of the interface, if it has one.
pub fn get_mac_addr(iface: &Interface) -> (mac: Option<MacAddr>)
    ensures
        mac == iface.mac,
{
    iface.mac
}

/// The first protocol address of the interface that satisfies the predicate,
/// if any.
pub fn get_ip_addr<P: Fn(IpAddr) -> bool>(iface: &Interface, predicate: P) -> (found: Option<IpAddr>)
    requires
        forall|i: int| 0 <= i < iface.ips.len() ==> call_requires(predicate, (#[trigger] iface.ips[i],)),
    ensures
        match found {
            Some(ip) => exists|i: int|
                0 <= i < iface.ips.len() && ip == #[trigger] iface.ips[i] && call_ensures(
                    predicate,
                    (iface.ips[i],),
                    true,
                ) && forall|j: int|
                    0 <= j < i ==> call_ensures(predicate, (#[trigger] iface.ips[j],), false),
            None => forall|j: int|
                0 <= j < iface.ips.len() ==> call_ensures(
                    predicate,
                    (#[trigger] iface.ips[j],),
                    false,
                ),
        },
{
    let mut i: usize = 0;
    while i < iface.ips.len()
        invariant
            i <= iface.ips.len(),
            forall|k: int|
                0 <= k < iface.ips.len() ==> call_requires(predicate, (#[trigger] iface.ips[k],)),
            forall|j: int| 0 <= j < i ==> call_ensures(predicate, (#[trigger] iface.ips[j],), false),
        decreases iface.ips.len() - i,
    {
        let ip = iface.ips[i];
        if predicate(ip) {
            return Some(ip);
        }
        i += 1;
    }
    None
}

/// The first IPv4 address among `ips`, if there is one.
pub open spec fn first_ipv4(ips: Seq<IpAddr>) -> Option<Ipv4Addr>
    decreases ips.len(),
{
    if ips.len() == 0 {
        None
    } else {
        match ips[0] {
            IpAddr::V4(ip) => Some(ip),
            IpAddr::V6(_) => first_ipv4(ips.skip(1)),
        }
    }
}

/// If no address before position `i` is an IPv4 address, the first IPv4
/// address is the one at `i`, or there is none where `i` is the end.
proof fn lemma_first_ipv4(ips: Seq<IpAddr>, i: int)
    requires
        0 <= i <= ips.len(),
        forall|j: int| 0 <= j < i ==> !((#[trigger] ips[j]) is V4),
    ensures
        i < ips.len() && ips[i] is V4 ==> first_ipv4(ips) == Some(ips[i]->V4_0),
        i == ips.len() ==> first_ipv4(ips) is None,
    decreases i,
{
    if i > 0 {
        let rest = ips.skip(1);
        assert forall|j: int| 0 <= j < i - 1 implies !((#[trigger] rest[j]) is V4) by {
            assert(rest[j] == ips[j + 1]);
        }
        if i < ips.len() {
            assert(rest[i - 1] == ips[i]);
        }
        assert(!(ips[0] is V4));
        lemma_first_ipv4(rest, i - 1);
    }
}

/// The first IPv4 address assigned to the interface, if there is one.
pub fn get_ipv4_addr(iface: &Interface) -> (found: Option<Ipv4Addr>)
    ensures
        found == first_ipv4(iface.ips@),
{
    let is_ipv4 = |ip: IpAddr| -> (yes: bool)
        ensures
            yes == (ip is V4),
        { ip.is_ipv4() };
    let found = get_ip_addr(iface, is_ipv4);
    match found {
        Some(IpAddr::V4(ip)) => {
            proof {
                let i = choose|i: int|
                    0 <= i < iface.ips.len() && IpAddr::V4(ip) == #[trigger] iface.ips[i]
                        && call_ensures(is_ipv4, (iface.ips[i],), true) && forall|j: int|
                        0 <= j < i ==> call_ensures(is_ipv4, (#[trigger] iface.ips[j],), false);
                lemma_first_ipv4(iface.ips@, i);
            }
            Some(ip)
        },
        Some(IpAddr::V6(_)) => None,
        None => {
            proof {
                lemma_first_ipv4(iface.ips@, iface.ips@.len() as int);
            }
            None
        },
    }
}

} // verus!
