//! Host-side security posture derived from a [`CapabilityGrant`].
//!
//! Ferrous never relies on a runtime's *implicit* defaults for environment or
//! networking. Every guest context is built with an explicit policy: no
//! environment variable reaches the guest unless its name is allowlisted, and
//! no socket address is reachable unless the grant allows that exact loopback
//! port. These functions are the single source of truth for what a guest may
//! observe and reach, and are deliberately small and pure.

use std::collections::BTreeSet;
use vstd::prelude::*;
use vstd::std_specs::btree::*;
use crate::capability::CapabilityGrant;
use crate::text_map;

verus! {

broadcast use group_btree_axioms;

/// An IP address.
#[derive(Clone, Copy, Debug, PartialEq, Eq)]
pub enum IpAddress {
    /// The four octets of an IPv4 address.
    V4([u8; 4]),
    /// The eight segments of an IPv6 address.
    V6([u16; 8]),
}

/// Whether an address is a loopback address: `127.0.0.0/8` or `::1`.
pub open spec fn is_loopback(ip: IpAddress) -> bool {
    match ip {
        IpAddress::V4(octets) => octets@[0] == 127,
        IpAddress::V6(segments) => segments@ == seq![0u16, 0, 0, 0, 0, 0, 0, 1],
    }
}

impl IpAddress {
    /// Whether this is a loopback address: `127.0.0.0/8` or `::1`.
    pub fn is_loopback(&self) -> (r: bool)
        ensures
            r == is_loopback(*self),
    {
        match self {
            IpAddress::V4(octets) => octets[0] == 127,
            IpAddress::V6(segments) => {
                let r = segments[0] == 0 && segments[1] == 0 && segments[2] == 0 && segments[3] == 0
                    && segments[4] == 0 && segments[5] == 0 && segments[6] == 0 && segments[7] == 1;
                proof {
                    let wanted = seq![0u16, 0, 0, 0, 0, 0, 0, 1];
                    if r {
                        assert(segments@ =~= wanted);
                    } else if segments@ == wanted {
                        assert(wanted[7] == 1);
                        assert(false);
                    }
                }
                r
            },
        }
    }
}

/// A socket address.
#[derive(Clone, Copy, Debug, PartialEq, Eq)]
pub struct SocketAddress {
    /// The IP address.
    pub ip: IpAddress,
    /// The port.
    pub port: u16,
}

/// What a guest wants to do with a socket address.
#[derive(Clone, Copy, Debug, PartialEq, Eq, Structural)]
pub enum SocketUse {
    /// Bind a TCP socket.
    TcpBind,
    /// Connect a TCP socket.
    TcpConnect,
    /// Bind a UDP socket.
    UdpBind,
    /// Connect a UDP socket.
    UdpConnect,
    /// Send a UDP datagram.
    UdpOutgoingDatagram,
}

/// What a guest context is configured with.
#[derive(Clone, Copy, Debug, PartialEq, Eq, Structural)]
pub struct NetworkSettings {
    /// Whether names may be looked up.
    pub ip_name_lookup: bool,
    /// Whether UDP sockets may be opened.
    pub udp: bool,
    /// Whether TCP sockets may be opened.
    pub tcp: bool,
    /// Whether each address has to be permitted by the policy.
    pub check_addresses: bool,
}

/// Network posture for one command, derived from the grant's port allowlist.
#[derive(Debug, PartialEq, Eq)]
pub struct NetworkPolicy {
    /// TCP sockets may be opened (only toward allowlisted loopback ports).
    pub tcp: bool,
    /// UDP sockets may be opened. Always `false`: there is no UDP allowlist,
    /// so UDP is blanket-denied.
    pub udp: bool,
    /// Loopback TCP ports the guest may bind or connect to.
    pub allowed_ports: BTreeSet<u16>,
}

impl NetworkPolicy {
    /// Whether a policy permits the use of an address.
    pub open spec fn permitted(self, addr: SocketAddress, use_: SocketUse) -> bool {
        &&& use_ == SocketUse::TcpBind || use_ == SocketUse::TcpConnect
        &&& self.tcp
        &&& is_loopback(addr.ip)
        &&& self.allowed_ports@.contains(addr.port)
    }

    /// Derive the posture from a grant: all networking is denied unless the
    /// grant explicitly allows one or more loopback TCP ports.
    pub fn from_grant(grant: &CapabilityGrant) -> (r: Self)
        ensures
            r.tcp == !grant@.ports.is_empty(),
            !r.udp,
            r.allowed_ports@ == grant@.ports,
    {
        let allowed_ports = grant.loopback_ports().clone();
        let tcp = !allowed_ports.is_empty();
        NetworkPolicy { tcp, udp: false, allowed_ports }
    }

    /// Whether a socket address is permitted for the given use.
    ///
    /// Only TCP on loopback addresses with an allowlisted port passes; UDP and
    /// any non-loopback address are denied.
    pub fn permits(&self, addr: SocketAddress, use_: SocketUse) -> (r: bool)
        ensures
            r == self.permitted(addr, use_),
    {
        match use_ {
            SocketUse::TcpBind | SocketUse::TcpConnect => {
                self.tcp && addr.ip.is_loopback() && self.allowed_ports.contains(&addr.port)
            },
            _ => false,
        }
    }

    /// The settings of a guest context, turning every allowance into an
    /// explicit one and closing name lookup, UDP, and unallowlisted TCP.
    pub fn apply(&self) -> (r: NetworkSettings)
        ensures
            r == (NetworkSettings {
                ip_name_lookup: false,
                udp: self.udp,
                tcp: self.tcp,
                check_addresses: self.tcp,
            }),
    {
        NetworkSettings {
            ip_name_lookup: false,
            udp: self.udp,
            tcp: self.tcp,
            check_addresses: self.tcp,
        }
    }
}

/// The variables of a list of names that have a value, with their values.
pub open spec fn with_values(names: Seq<Seq<char>>, answers: Seq<Option<Seq<char>>>) -> Seq<
    (Seq<char>, Seq<char>),
>
    decreases names.len(),
{
    if names.len() == 0 || answers.len() == 0 {
        Seq::empty()
    } else {
        let rest = with_values(names.drop_last(), answers.drop_last());
        match answers.last() {
            Some(value) => rest.push((names.last(), value)),
            None => rest,
        }
    }
}

/// What a list of variables denotes.
pub open spec fn variable_models(list: Seq<(String, String)>) -> Seq<(Seq<char>, Seq<char>)> {
    Seq::new(list.len(), |i: int| (list[i].0@, list[i].1@))
}

/// Whether an answer is one that a provider can give for a name.
pub open spec fn can_answer<F: Fn(&str) -> Option<String>>(
    provider: &F,
    name: Seq<char>,
    answer: Option<Seq<char>>,
) -> bool {
    exists|asked: &str, given: Option<String>|
        asked@ == name && crate::text::optional(given) == answer && #[trigger] call_ensures(
            *provider,
            (asked,),
            given,
        )
}

/// Select exactly the environment variables the grant allowlists, resolved
/// through `provider` (normally the host process environment).
///
/// Names the provider cannot resolve are silently dropped; names that are not
/// allowlisted are never queried. The result is sorted for determinism.
pub fn selected_environment<F: Fn(&str) -> Option<String>>(
    grant: &CapabilityGrant,
    provider: &F,
) -> (r: Vec<(String, String)>)
    requires
        forall|name: &str|
            grant@.environment.contains(name@) ==> #[trigger] call_requires(*provider, (name,)),
    ensures
        exists|answers: Seq<Option<Seq<char>>>|
            {
                &&& answers.len() == text_map::ordered_names(grant@.environment).len()
                &&& forall|i: int|
                    0 <= i < answers.len() ==> can_answer(
                        provider,
                        text_map::ordered_names(grant@.environment)[i],
                        #[trigger] answers[i],
                    )
                &&& variable_models(r@) == #[trigger] with_values(
                    text_map::ordered_names(grant@.environment),
                    answers,
                )
            },
{
    let allowed = grant.environment_names();
    let count = allowed.len();
    let ghost names = text_map::keys_of(allowed.pairs());
    proof {
        let as_map = Map::new(
            |name: Seq<char>| grant@.environment.contains(name),
            |name: Seq<char>| (),
        );
        assert(allowed@ =~= as_map);
        assert(allowed@.dom() =~= grant@.environment);
        assert(names == text_map::ordered_names(grant@.environment));
    }
    let mut r: Vec<(String, String)> = Vec::new();
    let ghost mut answers: Seq<Option<Seq<char>>> = Seq::empty();
    let mut i: usize = 0;
    assert(names.take(0) =~= Seq::empty());
    assert(variable_models(r@) =~= Seq::empty());
    while i < count
        invariant
            i <= count,
            count == names.len(),
            names == text_map::keys_of(allowed.pairs()),
            forall|name: &str|
                grant@.environment.contains(name@) ==> #[trigger] call_requires(
                    *provider,
                    (name,),
                ),
            allowed@.dom() == grant@.environment,
            answers.len() == i,
            forall|j: int|
                0 <= j < i ==> can_answer(provider, names[j], #[trigger] answers[j]),
            variable_models(r@) == with_values(names.take(i as int), answers),
        decreases count - i,
    {
        let (name, _) = allowed.entry(i);
        let value = provider(name);
        let ghost answer = crate::text::optional(value);
        let ghost before = variable_models(r@);
        let ghost old_answers = answers;
        proof {
            assert(can_answer(provider, names[i as int], answer));
            answers = answers.push(answer);
            assert(answers.drop_last() =~= old_answers);
            assert(names.take(i + 1).drop_last() =~= names.take(i as int));
            assert(names.take(i + 1).last() == name@);
        }
        if let Some(value) = value {
            r.push((name.to_owned(), value));
            assert(variable_models(r@) =~= before.push((name@, value@)));
        }
        i = i + 1;
    }
    assert(names.take(i as int) =~= names);
    r
}

proof fn lemma_with_values_names(names: Seq<Seq<char>>, answers: Seq<Option<Seq<char>>>)
    ensures
        forall|i: int|
            0 <= i < with_values(names, answers).len() ==> names.contains(
                #[trigger] with_values(names, answers)[i].0,
            ),
    decreases names.len(),
{
    if names.len() > 0 && answers.len() > 0 {
        let rest = with_values(names.drop_last(), answers.drop_last());
        lemma_with_values_names(names.drop_last(), answers.drop_last());
        assert forall|i: int| 0 <= i < with_values(names, answers).len() implies names.contains(
            #[trigger] with_values(names, answers)[i].0,
        ) by {
            if i < rest.len() {
                let name = rest[i].0;
                assert(names.drop_last().contains(name));
                let j = choose|j: int|
                    0 <= j < names.drop_last().len() && names.drop_last()[j] == name;
                assert(names[j] == name);
            } else {
                assert(names[names.len() - 1] == names.last());
            }
        }
    }
}

/// Only allowlisted variables are ever selected, whatever is answered for
/// them.
pub proof fn only_listed_names_are_selected(
    names: Seq<Seq<char>>,
    answers: Seq<Option<Seq<char>>>,
    name: Seq<char>,
    value: Seq<char>,
)
    requires
        with_values(names, answers).contains((name, value)),
    ensures
        names.contains(name),
{
    lemma_with_values_names(names, answers);
    let selected = with_values(names, answers);
    let i = choose|i: int| 0 <= i < selected.len() && selected[i] == (name, value);
    assert(names.contains(selected[i].0));
}

/// A grant without ports permits nothing, and no grant permits UDP or an
/// address that is not a loopback address.
pub proof fn networking_is_denied_by_default(
    policy: NetworkPolicy,
    addr: SocketAddress,
    use_: SocketUse,
)
    requires
        !policy.tcp || policy.allowed_ports@.is_empty() || !is_loopback(addr.ip) || (use_
            != SocketUse::TcpBind && use_ != SocketUse::TcpConnect),
    ensures
        !policy.permitted(addr, use_),
{
}

} // verus!
