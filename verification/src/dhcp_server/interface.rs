//! Bringing the address of the server's interface in line with the configuration.
//!
//! The addresses of all interfaces are walked through one by one. Those of the server's interface
//! that are not the configured one are deleted on the way, and once the walk has ended it is known
//! whether the configured one is to be added.

use crate::net::IpAddr;
use vstd::prelude::*;

verus! {

/// One thing that the system tells about an address.
#[derive(Debug, PartialEq, Eq)]
pub enum AddressAttribute {
    /// The address itself.
    Address(IpAddr),
    /// The name of the interface that has the address.
    Label(String),
    /// Anything else.
    Other,
}

/// What the system tells about one address of one interface.
#[derive(Debug, PartialEq, Eq)]
pub struct AddressMessage {
    pub prefix_len: u8,
    pub attributes: Vec<AddressAttribute>,
}

/// What happens to an address.
#[derive(Clone, Copy, Debug, PartialEq, Eq, Structural)]
pub enum AddressVerdict {
    /// It belongs to another interface, and is passed over.
    Ignore,
    /// It is the configured one, and stays.
    Keep,
    /// It belongs to the interface but is not the configured one, and is deleted.
    Delete,
}

/// The address that an interface is to have.
pub struct AddressGoal {
    pub link_name: Seq<char>,
    pub ip: IpAddr,
    pub prefix_length: u8,
}

impl AddressGoal {
    /// The address belongs to the interface.
    pub open spec fn on_link(self, addr: AddressMessage) -> bool {
        exists|i: int|
            0 <= i < addr.attributes@.len() && (#[trigger] addr.attributes@[i] matches
                AddressAttribute::Label(label) && label@ == self.link_name)
    }

    /// The address is the configured one, whatever its interface.
    pub open spec fn same_address(self, addr: AddressMessage) -> bool {
        &&& addr.prefix_len == self.prefix_length
        &&& exists|i: int|
            0 <= i < addr.attributes@.len() && #[trigger] addr.attributes@[i]
                == AddressAttribute::Address(self.ip)
    }

    /// What happens to an address.
    pub open spec fn verdict(self, addr: AddressMessage) -> AddressVerdict {
        if !self.on_link(addr) {
            AddressVerdict::Ignore
        } else if self.same_address(addr) {
            AddressVerdict::Keep
        } else {
            AddressVerdict::Delete
        }
    }

    /// The configured address is to be added after one more address was seen.
    pub open spec fn need_create_next(self, need_create: bool, addr: AddressMessage) -> bool {
        match self.verdict(addr) {
            AddressVerdict::Ignore => need_create,
            AddressVerdict::Keep => false,
            AddressVerdict::Delete => true,
        }
    }

    /// The configured address is to be added after the given addresses were seen.
    pub open spec fn need_create(self, seen: Seq<AddressMessage>) -> bool
        decreases seen.len(),
    {
        if seen.len() == 0 {
            true
        } else {
            self.need_create_next(self.need_create(seen.drop_last()), seen.last())
        }
    }
}

/// A walk through the addresses of the system.
#[derive(Debug)]
pub struct AddressWalk {
    link_name: String,
    ip: IpAddr,
    prefix_length: u8,
    need_create_ip: bool,
}

impl AddressWalk {
    /// The address that the interface is to have.
    pub closed spec fn goal(self) -> AddressGoal {
        AddressGoal {
            link_name: self.link_name@,
            ip: self.ip,
            prefix_length: self.prefix_length,
        }
    }

    /// As things stand, the configured address is to be added.
    pub closed spec fn pending(self) -> bool {
        self.need_create_ip
    }

    /// A walk that has seen no address yet.
    pub fn new(link_name: String, ip: IpAddr, prefix_length: u8) -> (walk: AddressWalk)
        ensures
            walk.goal() == (AddressGoal { link_name: link_name@, ip, prefix_length }),
            walk.pending() == walk.goal().need_create(seq![]),
    {
        AddressWalk { link_name, ip, prefix_length, need_create_ip: true }
    }

    /// Sees one address, and tells what happens to it.
    pub fn visit(&mut self, addr: &AddressMessage) -> (verdict: AddressVerdict)
        ensures
            verdict == old(self).goal().verdict(*addr),
            final(self).goal() == old(self).goal(),
            final(self).pending() == old(self).goal().need_create_next(
                old(self).pending(),
                *addr,
            ),
    {
        let ghost goal = self.goal();
        let prefix_len_equal: bool = addr.prefix_len == self.prefix_length;
        let mut link_name_equal: bool = false;
        let mut ip_equal: bool = false;
        let mut i: usize = 0;
        while i < addr.attributes.len()
            invariant
                i <= addr.attributes.len(),
                goal == self.goal(),
                link_name_equal <==> exists|j: int|
                    0 <= j < i && (#[trigger] addr.attributes@[j] matches AddressAttribute::Label(
                        label,
                    ) && label@ == goal.link_name),
                ip_equal <==> exists|j: int|
                    0 <= j < i && #[trigger] addr.attributes@[j] == AddressAttribute::Address(
                        goal.ip,
                    ),
                self.need_create_ip == old(self).need_create_ip,
            decreases addr.attributes.len() - i,
        {
            match &addr.attributes[i] {
                AddressAttribute::Address(address) => {
                    if *address == self.ip {
                        ip_equal = true;
                    }
                },
                AddressAttribute::Label(label) => {
                    if *label == self.link_name {
                        link_name_equal = true;
                    }
                },
                AddressAttribute::Other => {},
            }
            i = i + 1;
        }
        if link_name_equal {
            if ip_equal && prefix_len_equal {
                self.need_create_ip = false;
                AddressVerdict::Keep
            } else {
                self.need_create_ip = true;
                AddressVerdict::Delete
            }
        } else {
            AddressVerdict::Ignore
        }
    }

    /// Whether the configured address is to be added, once every address was seen.
    pub fn need_create(&self) -> (needed: bool)
        ensures
            needed == self.pending(),
    {
        self.need_create_ip
    }
}

/// An address counts only where one of its labels is the name of the interface. It stays, and
/// spares the configured address from being added, exactly where it has the configured prefix
/// length and one of its attributes is the configured address. Every other address of the interface
/// is deleted, and leaves the configured one to be added.
pub proof fn law_only_the_configured_address_stays(
    goal: AddressGoal,
    need_create: bool,
    addr: AddressMessage,
)
    ensures
        ({
            let labelled = exists|i: int|
                0 <= i < addr.attributes@.len() && (#[trigger] addr.attributes@[i] matches
                    AddressAttribute::Label(label) && label@ == goal.link_name);
            let addressed = exists|i: int|
                0 <= i < addr.attributes@.len() && #[trigger] addr.attributes@[i]
                    == AddressAttribute::Address(goal.ip);
            let configured = addressed && addr.prefix_len == goal.prefix_length;
            &&& goal.verdict(addr) == AddressVerdict::Ignore <==> !labelled
            &&& goal.verdict(addr) == AddressVerdict::Keep <==> labelled && configured
            &&& goal.verdict(addr) == AddressVerdict::Delete <==> labelled && !configured
            &&& !labelled ==> goal.need_create_next(need_create, addr) == need_create
            &&& labelled ==> goal.need_create_next(need_create, addr) == !configured
        }),
{
}

/// A walk that has seen some addresses, and then sees one more, stands as if it had seen them all
/// from the start.
pub proof fn law_walk_adds_up(goal: AddressGoal, seen: Seq<AddressMessage>, addr: AddressMessage)
    ensures
        goal.need_create(seen.push(addr)) == goal.need_create_next(goal.need_create(seen), addr),
{
    assert(seen.push(addr).drop_last() =~= seen);
}

/// Before any address was seen, the configured one is to be added.
pub proof fn law_walk_starts_in_need(goal: AddressGoal)
    ensures
        goal.need_create(Seq::empty()),
{
}

/// The last address of the interface decides: where the interface has an address, the configured
/// one is added exactly where the last one seen was not the configured one.
pub proof fn law_last_address_decides(goal: AddressGoal, seen: Seq<AddressMessage>, last: int)
    requires
        0 <= last < seen.len(),
        goal.on_link(seen[last]),
        forall|i: int| last < i < seen.len() ==> !goal.on_link(#[trigger] seen[i]),
    ensures
        goal.need_create(seen) <==> !(seen[last].prefix_len == goal.prefix_length && exists|i: int|
            0 <= i < seen[last].attributes@.len() && #[trigger] seen[last].attributes@[i]
                == AddressAttribute::Address(goal.ip)),
    decreases seen.len(),
{
    if last < seen.len() - 1 {
        assert(!goal.on_link(seen[seen.len() - 1]));
        law_last_address_decides(goal, seen.drop_last(), last);
    }
}

/// An interface without an address is given the configured one.
pub proof fn law_bare_interface_gets_address(goal: AddressGoal, seen: Seq<AddressMessage>)
    requires
        forall|i: int| 0 <= i < seen.len() ==> !goal.on_link(#[trigger] seen[i]),
    ensures
        goal.need_create(seen),
    decreases seen.len(),
{
    if seen.len() > 0 {
        assert(!goal.on_link(seen[seen.len() - 1]));
        law_bare_interface_gets_address(goal, seen.drop_last());
    }
}

/// An interface that has the configured address and no other one is left alone, so that bringing an
/// interface in line a second time changes nothing.
pub proof fn law_settled_interface_is_left_alone(
    goal: AddressGoal,
    seen: Seq<AddressMessage>,
    at: int,
)
    requires
        0 <= at < seen.len(),
        goal.on_link(seen[at]),
        forall|i: int|
            0 <= i < seen.len() && goal.on_link(#[trigger] seen[i]) ==> goal.same_address(seen[i]),
    ensures
        !goal.need_create(seen),
        forall|i: int|
            0 <= i < seen.len() ==> goal.verdict(#[trigger] seen[i]) != AddressVerdict::Delete,
    decreases seen.len(),
{
    let end = seen.len() - 1;
    assert(seen[end] == seen.last());
    if !goal.on_link(seen[end]) {
        let shorter = seen.drop_last();
        assert(shorter[at] == seen[at]);
        assert forall|i: int| 0 <= i < shorter.len() && goal.on_link(#[trigger] shorter[i]) implies
            goal.same_address(shorter[i]) by {
            assert(shorter[i] == seen[i]);
        }
        law_settled_interface_is_left_alone(goal, shorter, at);
    }
}

/// Whatever was there before, the interface ends up with the configured address: it is added, or
/// the interface has it and it was left alone.
pub proof fn law_interface_ends_up_with_address(goal: AddressGoal, seen: Seq<AddressMessage>)
    ensures
        goal.need_create(seen) || exists|i: int|
            0 <= i < seen.len() && goal.verdict(#[trigger] seen[i]) == AddressVerdict::Keep,
    decreases seen.len(),
{
    if seen.len() > 0 {
        law_interface_ends_up_with_address(goal, seen.drop_last());
        if !goal.need_create(seen) {
            if goal.verdict(seen.last()) == AddressVerdict::Keep {
                assert(goal.verdict(seen[seen.len() - 1]) == AddressVerdict::Keep);
            } else {
                let i = choose|i: int|
                    0 <= i < seen.drop_last().len() && goal.verdict(
                        #[trigger] seen.drop_last()[i],
                    ) == AddressVerdict::Keep;
                assert(goal.verdict(seen[i]) == AddressVerdict::Keep);
            }
        }
    }
}

} // verus!
