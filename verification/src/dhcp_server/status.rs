//! The lease table of the server, and the answers that it gives out of it.

use crate::clock::{Clock, LONGEST_NANOS};
use crate::dhcp_server::frame::{
    DhcpEthFrame, DhcpOptionMessageType, DhcpOptions, FrameModel, OptionModel, ADDRESS_LEASE_TIME,
    PARAMETER_REQUEST_LIST,
};
use crate::dhcp_server::host_pool::{find_free_host, get_host_id};
use crate::net::{Ipv4Addr, Ipv4Inet, MacAddr, UNSPECIFIED};
use std::collections::{HashMap, HashSet};
use std::ops::Range;
use vstd::prelude::*;

verus! {

broadcast use vstd::std_specs::hash::group_hash_axioms;

/// For how many seconds an address stays reserved for a client that has been given it.
pub const DEFAULT_RENT_TIME: u64 = 60 * 60 * 12;

/// The same time in nanoseconds.
pub const RENT_NANOS: u128 = DEFAULT_RENT_TIME as u128 * 1_000_000_000;

/// The lease time in seconds that a client is told which does not ask for it.
pub const UNASKED_LEASE_TIME: u32 = 40;

/// An address that is reserved for a client.
#[derive(Clone, Copy, Debug, PartialEq, Eq, Structural)]
pub struct Lease {
    /// The address.
    pub ip: Ipv4Addr,
    /// The moment from which on the lease can be dropped.
    pub expire: u128,
}

/// The state of the server.
pub struct ServerModel {
    /// The lease of each client.
    pub leases: Map<MacAddr, Lease>,
    /// The host ids that have been handed out.
    pub allocated: Set<u32>,
    /// The configured options by their index.
    pub options: Map<u8, OptionModel>,
    /// The address and the network of the server.
    pub server_ip: Ipv4Inet,
    /// The host ids that may be handed out.
    pub host_range: Range<u32>,
    /// What is sent to a client that lists no options.
    pub default_request_list: Seq<u8>,
}

impl ServerModel {
    /// The host range is no larger than the network, so that no two of its hosts share an address.
    pub open spec fn range_fits(self) -> bool {
        self.host_range.end - self.host_range.start <= crate::net::network_size(
            self.server_ip.network_length,
        )
    }

    /// The lease is for the address of a host that has been handed out.
    pub open spec fn backed(self, lease: Lease) -> bool {
        exists|host: u32|
            #![trigger self.allocated.contains(host)]
            self.allocated.contains(host) && lease.ip == self.server_ip.host_address(host)
    }

    /// What holds of the server at every moment.
    pub open spec fn wf(self) -> bool {
        &&& self.server_ip.wf()
        &&& self.leases.dom().finite()
        &&& forall|host: u32| #[trigger]
            self.allocated.contains(host) ==> self.host_range.start <= host < self.host_range.end
        &&& forall|client: MacAddr| #[trigger]
            self.leases.contains_key(client) ==> self.backed(self.leases[client])
        &&& self.range_fits() ==> forall|one: MacAddr, other: MacAddr| #[trigger]
            self.leases.contains_key(one) && #[trigger] self.leases.contains_key(other) && one
                != other ==> self.leases[one].ip != self.leases[other].ip
    }

    /// A server that has given out nothing yet.
    pub open spec fn fresh(
        server_ip: Ipv4Inet,
        options: Seq<OptionModel>,
        host_range: Range<u32>,
        default_request_list: Seq<u8>,
    ) -> ServerModel {
        ServerModel {
            leases: Map::empty(),
            allocated: Set::empty(),
            options: ServerModel::by_index(options),
            server_ip,
            host_range,
            default_request_list,
        }
    }

    /// The options by their index: of two with the same index, the later one counts.
    pub open spec fn by_index(options: Seq<OptionModel>) -> Map<u8, OptionModel>
        decreases options.len(),
    {
        if options.len() == 0 {
            Map::empty()
        } else {
            ServerModel::by_index(options.drop_last()).insert(
                options.last().index(),
                options.last(),
            )
        }
    }

    /// The indices that a message asks for. `None` where the message carries something else in
    /// place of the list.
    pub open spec fn requested(self, frame: FrameModel) -> Option<Seq<u8>> {
        match OptionModel::first_with(frame.options, PARAMETER_REQUEST_LIST) {
            None => Some(self.default_request_list),
            Some(OptionModel::ParameterRequestList(list)) => Some(list),
            Some(_) => None,
        }
    }

    /// The configured ones among the options that `list` asks for, in the order of the list.
    pub open spec fn configured(self, list: Seq<u8>) -> Seq<OptionModel> {
        list.filter(|index: u8| self.options.contains_key(index)).map_values(
            |index: u8| self.options[index],
        )
    }

    /// The options of an offer: what the client asked for, then the name of the server.
    pub open spec fn offer_options(self, frame: FrameModel) -> Seq<OptionModel> {
        let asked = match self.requested(frame) {
            Some(list) => self.configured(list),
            None => seq![],
        };
        asked.push(OptionModel::ServerIdentifier(self.server_ip.address))
    }

    /// The options of the answer to a request: a short lease time for a client that does not ask
    /// for one, then what the client asked for.
    pub open spec fn ack_options(self, frame: FrameModel) -> Seq<OptionModel> {
        match self.requested(frame) {
            Some(list) => {
                let unasked: Seq<OptionModel> = if list.contains(ADDRESS_LEASE_TIME) {
                    seq![]
                } else {
                    seq![OptionModel::AddressLeaseTime(UNASKED_LEASE_TIME)]
                };
                unasked + self.configured(list)
            },
            None => seq![],
        }
    }

    /// There is an address to offer to the client: its own, or one of a free host.
    pub open spec fn can_offer(self, client: MacAddr) -> bool {
        ||| self.leases.contains_key(client)
        ||| crate::dhcp_server::host_pool::has_free(self.host_range, self.allocated)
    }

    /// The server once it has lent the address of `host` to a client until `expire`.
    pub open spec fn lend(self, client: MacAddr, host: u32, expire: u128) -> ServerModel {
        ServerModel {
            leases: self.leases.insert(
                client,
                Lease { ip: self.server_ip.host_address(host), expire },
            ),
            allocated: self.allocated.insert(host),
            ..self
        }
    }

    /// `next` and `answer` are what an offer at the moment `now` leads to. A client with a lease
    /// is offered the address that it has, and nothing changes. Any other client is lent the
    /// address of the free host nearest to `seed`.
    pub open spec fn offers(
        self,
        frame: FrameModel,
        seed: u32,
        now: u128,
        next: ServerModel,
        answer: FrameModel,
    ) -> bool {
        &&& if self.leases.contains_key(frame.chaddr) {
            next == self
        } else {
            exists|host: u32| #[trigger]
                crate::dhcp_server::host_pool::nearest_free(
                    self.host_range,
                    seed,
                    self.allocated,
                    Some(host),
                ) && next == self.lend(frame.chaddr, host, (now + RENT_NANOS) as u128)
        }
        &&& answer == frame.reply(
            DhcpOptionMessageType::Offer,
            next.leases[frame.chaddr].ip,
            self.offer_options(frame),
        )
    }

    /// The server once a client has requested its address at the moment `now`: the lease of the
    /// client starts anew.
    pub open spec fn after_request(self, client: MacAddr, now: u128) -> ServerModel {
        if self.leases.contains_key(client) {
            ServerModel {
                leases: self.leases.insert(
                    client,
                    Lease { expire: (now + RENT_NANOS) as u128, ..self.leases[client] },
                ),
                ..self
            }
        } else {
            self
        }
    }

    /// The answer to a request: the address of the client is confirmed, or the client is refused
    /// where it has none.
    pub open spec fn ack(self, frame: FrameModel) -> FrameModel {
        if self.leases.contains_key(frame.chaddr) {
            frame.reply(
                DhcpOptionMessageType::Ack,
                self.leases[frame.chaddr].ip,
                self.ack_options(frame),
            )
        } else {
            frame.reply(DhcpOptionMessageType::Nak, 0, self.ack_options(frame))
        }
    }

    /// The server once the leases that have run out at the moment `now` are dropped. Their hosts
    /// stay handed out.
    pub open spec fn expired(self, now: u128) -> ServerModel {
        ServerModel {
            leases: self.leases.restrict(
                Set::new(
                    |client: MacAddr|
                        self.leases.contains_key(client) && self.leases[client].expire > now,
                ),
            ),
            ..self
        }
    }
}

// DHCP Server Status
#[derive(Debug)]
pub struct DhcpServerStatus {
    /// mac addr ip pair
    ip_map: HashMap<MacAddr, Lease>,
    /// address of the server within its network
    server_ip: Ipv4Inet,
    /// configured options by index
    options_map: HashMap<u8, DhcpOptions>,
    /// allocated host ids
    allocated_host: HashSet<u32>,
    /// host ids that may be allocated
    host_range: Range<u32>,
    /// options for a client that lists none
    default_request_list: Vec<u8>,
    /// what leases are measured by
    clock: Clock,
}

impl View for DhcpServerStatus {
    type V = ServerModel;

    closed spec fn view(&self) -> ServerModel {
        ServerModel {
            leases: self.ip_map@,
            allocated: self.allocated_host@,
            options: self.options_map@.map_values(|option: DhcpOptions| option@),
            server_ip: self.server_ip,
            host_range: self.host_range,
            default_request_list: self.default_request_list@,
        }
    }
}

impl DhcpServerStatus {
    /// The clock that leases are measured by, and with it the moment that they are counted from.
    pub closed spec fn measured_by(self) -> Clock {
        self.clock
    }

    /// A server that has given out nothing yet.
    pub fn new(
        server_ip: Ipv4Inet,
        options: Vec<DhcpOptions>,
        host_range: Range<u32>,
        default_request_list: Vec<u8>,
    ) -> (status: DhcpServerStatus)
        ensures
            status@ == ServerModel::fresh(
                server_ip,
                crate::dhcp_server::frame::option_models(options@),
                host_range,
                default_request_list@,
            ),
            server_ip.wf() ==> status@.wf(),
            status.measured_by().was_started(),
    {
        let allocated_host: HashSet<u32> = HashSet::new();
        let mut options_map: HashMap<u8, DhcpOptions> = HashMap::new();
        let ghost models = crate::dhcp_server::frame::option_models(options@);
        let mut i: usize = 0;
        assert(options_map@.map_values(|option: DhcpOptions| option@) =~= ServerModel::by_index(
            models.take(0),
        ));
        while i < options.len()
            invariant
                i <= options.len(),
                models == crate::dhcp_server::frame::option_models(options@),
                options_map@.map_values(|option: DhcpOptions| option@) == ServerModel::by_index(
                    models.take(i as int),
                ),
            decreases options.len() - i,
        {
            let ghost before = options_map@;
            let each = &options[i];
            let copy: DhcpOptions = each.clone();
            options_map.insert(each.get_index(), copy);
            proof {
                assert(models.take(i + 1).drop_last() =~= models.take(i as int));
                assert(models.take(i + 1).last() == each@);
                assert(options_map@.map_values(|option: DhcpOptions| option@)
                    =~= before.map_values(|option: DhcpOptions| option@).insert(
                    each@.index(),
                    each@,
                ));
            }
            i = i + 1;
        }
        assert(models.take(i as int) =~= models);
        let clock = Clock::start();
        DhcpServerStatus {
            host_range,
            ip_map: HashMap::new(),
            server_ip,
            options_map,
            allocated_host,
            default_request_list,
            clock,
        }
    }

    /// The present moment, as leases are measured: a reading of the server's clock.
    pub(crate) fn now(&self) -> (nanos: u128)
        ensures
            nanos <= LONGEST_NANOS,
            self.measured_by().reads(nanos),
    {
        self.clock.now()
    }

    /// The indices that a message asks for.
    fn requested_list(&self, frame: &DhcpEthFrame) -> (list: Option<Vec<u8>>)
        ensures
            self@.requested(frame@) == (match list {
                Some(list) => Some(list@),
                None => None,
            }),
    {
        match frame.options.has_option(PARAMETER_REQUEST_LIST) {
            None => {
                let list: Vec<u8> = self.default_request_list.clone();
                assert(list@ =~= self.default_request_list@);
                Some(list)
            },
            Some(DhcpOptions::ParameterRequestList(list)) => Some(list),
            Some(_) => None,
        }
    }

    /// Appends the configured ones among the options that `list` asks for, in the order of the
    /// list.
    fn push_configured(&self, list: &Vec<u8>, options: &mut Vec<DhcpOptions>)
        ensures
            crate::dhcp_server::frame::option_models(final(options)@)
                == crate::dhcp_server::frame::option_models(old(options)@) + self@.configured(
                list@,
            ),
    {
        let ghost start = crate::dhcp_server::frame::option_models(options@);
        let ghost known = |index: u8| self@.options.contains_key(index);
        let ghost value = |index: u8| self@.options[index];
        let mut i: usize = 0;
        assert(list@.take(0).filter(known).map_values(value) =~= Seq::empty()) by {
            reveal(Seq::filter);
        }
        assert(crate::dhcp_server::frame::option_models(options@) =~= start + list@.take(0).filter(
            known,
        ).map_values(value));
        while i < list.len()
            invariant
                i <= list.len(),
                known == (|index: u8| self@.options.contains_key(index)),
                value == (|index: u8| self@.options[index]),
                crate::dhcp_server::frame::option_models(options@) == start + list@.take(
                    i as int,
                ).filter(known).map_values(value),
            decreases list.len() - i,
        {
            let each_index: u8 = list[i];
            let ghost before = crate::dhcp_server::frame::option_models(options@);
            proof {
                reveal(Seq::filter);
                assert(list@.take(i + 1).drop_last() =~= list@.take(i as int));
                assert(list@.take(i + 1).last() == each_index);
            }
            if let Some(opt) = self.options_map.get(&each_index) {
                let copy: DhcpOptions = opt.clone();
                options.push(copy);
                proof {
                    assert(known(each_index));
                    assert(crate::dhcp_server::frame::option_models(options@) =~= before.push(
                        self@.options[each_index],
                    ));
                    assert(list@.take(i + 1).filter(known) =~= list@.take(i as int).filter(
                        known,
                    ).push(each_index));
                    assert(list@.take(i + 1).filter(known).map_values(value) =~= list@.take(
                        i as int,
                    ).filter(known).map_values(value).push(self@.options[each_index]));
                    assert(before.push(self@.options[each_index]) =~= start + list@.take(
                        i + 1,
                    ).filter(known).map_values(value));
                }
            } else {
                assert(!known(each_index));
                assert(list@.take(i + 1).filter(known) =~= list@.take(i as int).filter(known));
            }
            i = i + 1;
        }
        assert(list@.take(i as int) =~= list@);
    }

    /// Whether there is an address to offer to the client: its own, or one of a free host.
    pub fn can_offer(&self, client: MacAddr) -> (possible: bool)
        ensures
            possible == self@.can_offer(client),
    {
        if self.ip_map.contains_key(&client) {
            return true;
        }
        if self.host_range.start < self.host_range.end {
            find_free_host(self.host_range.start..self.host_range.end, 0, &self.allocated_host).is_some()
        } else {
            assert forall|host: u32|
                !#[trigger] crate::dhcp_server::host_pool::is_free(
                    self@.host_range,
                    self@.allocated,
                    host,
                ) by {}
            false
        }
    }

    /// Offers an address to a client at the moment `now`.
    pub fn gen_offer_at(&mut self, frame: DhcpEthFrame, seed: u32, now: u128) -> (offer:
        DhcpEthFrame)
        requires
            old(self)@.wf(),
            old(self)@.can_offer(frame.chaddr),
            old(self)@.leases.contains_key(frame.chaddr) || now + RENT_NANOS <= u128::MAX,
        ensures
            old(self)@.offers(frame@, seed, now, final(self)@, offer@),
            final(self)@.wf(),
            final(self).measured_by() == old(self).measured_by(),
    {
        let mut options: Vec<DhcpOptions> = Vec::new();
        if let Some(info_list) = self.requested_list(&frame) {
            self.push_configured(&info_list, &mut options);
        }
        options.push(DhcpOptions::ServerIdentifier(self.server_ip.address));
        assert(crate::dhcp_server::frame::option_models(options@) =~= self@.offer_options(frame@));

        // Check if IP is assigned
        let assigned: Option<Lease> = match self.ip_map.get(&frame.chaddr) {
            Some(lease) => Some(*lease),
            None => None,
        };
        let client_addr: Ipv4Addr = match assigned {
            Some(lease) => lease.ip,
            None => self.lend_host(frame.chaddr, seed, now),
        };
        frame.reply(DhcpOptionMessageType::Offer, client_addr, options)
    }

    /// get offer
    ///
    /// The seed is the checksum of the client's hardware address. Which moment the lease of a new
    /// client starts at is up to the clock.
    pub fn gen_offer(&mut self, frame: DhcpEthFrame, seed: u32) -> (offer: DhcpEthFrame)
        requires
            old(self)@.wf(),
            old(self)@.can_offer(frame.chaddr),
        ensures
            exists|now: u128|
                now <= LONGEST_NANOS && old(self).measured_by().reads(now) && #[trigger] old(
                    self,
                )@.offers(
                    frame@,
                    seed,
                    now,
                    final(self)@,
                    offer@,
                ),
            final(self)@.wf(),
            final(self).measured_by() == old(self).measured_by(),
    {
        let now: u128 = self.now();
        self.gen_offer_at(frame, seed, now)
    }

    /// Lends the free host nearest to `seed` to a client that has no lease.
    fn lend_host(&mut self, client: MacAddr, seed: u32, now: u128) -> (client_addr: Ipv4Addr)
        requires
            old(self)@.wf(),
            !old(self)@.leases.contains_key(client),
            old(self)@.can_offer(client),
            now + RENT_NANOS <= u128::MAX,
        ensures
            exists|host: u32| #[trigger]
                crate::dhcp_server::host_pool::nearest_free(
                    old(self)@.host_range,
                    seed,
                    old(self)@.allocated,
                    Some(host),
                ) && final(self)@ == old(self)@.lend(client, host, (now + RENT_NANOS) as u128),
            client_addr == final(self)@.leases[client].ip,
            final(self)@.wf(),
            final(self).measured_by() == old(self).measured_by(),
    {
        let ghost before = self@;
        let host_id = get_host_id(self.host_range.start..self.host_range.end, seed, &mut self.allocated_host);
        match host_id {
            Some(host_id) => {
                let client_addr: Ipv4Addr = self.server_ip.nth_host(host_id);
                let expire: u128 = now + RENT_NANOS;
                self.ip_map.insert(client, Lease { ip: client_addr, expire });
                proof {
                    lemma_lend_keeps_wf(before, client, host_id, expire);
                }
                client_addr
            },
            None => {
                assert(false);
                0
            },
        }
    }

    /// Answers the request of a client for its address at the moment `now`.
    pub fn gen_ack_at(&mut self, frame: DhcpEthFrame, now: u128) -> (answer: Option<DhcpEthFrame>)
        requires
            old(self)@.wf(),
            old(self)@.leases.contains_key(frame.chaddr) ==> now + RENT_NANOS <= u128::MAX,
        ensures
            answer is Some,
            answer->0@ == old(self)@.ack(frame@),
            final(self)@ == old(self)@.after_request(frame.chaddr, now),
            final(self)@.wf(),
            final(self).measured_by() == old(self).measured_by(),
    {
        let mut options: Vec<DhcpOptions> = Vec::new();
        if let Some(info_list) = self.requested_list(&frame) {
            let asked: bool = holds_index(&info_list, ADDRESS_LEASE_TIME);
            if !asked {
                options.push(DhcpOptions::AddressLeaseTime(UNASKED_LEASE_TIME));
            }
            self.push_configured(&info_list, &mut options);
        }
        assert(crate::dhcp_server::frame::option_models(options@) =~= self@.ack_options(frame@));

        let assigned: Option<Lease> = match self.ip_map.get(&frame.chaddr) {
            Some(lease) => Some(*lease),
            None => None,
        };
        match assigned {
            Some(lease) => {
                // the lease starts anew
                let ghost before = self@;
                let expire: u128 = now + RENT_NANOS;
                self.ip_map.insert(frame.chaddr, Lease { ip: lease.ip, expire });
                proof {
                    lemma_same_addresses_keep_wf(before, before.after_request(frame.chaddr, now));
                }
                Some(frame.reply(DhcpOptionMessageType::Ack, lease.ip, options))
            },
            None => Some(frame.reply(DhcpOptionMessageType::Nak, UNSPECIFIED, options)),
        }
    }

    /// Answers the request of a client for its address.
    ///
    /// Which moment the lease starts anew at is up to the clock.
    pub fn gen_ack(&mut self, frame: DhcpEthFrame) -> (answer: Option<DhcpEthFrame>)
        requires
            old(self)@.wf(),
        ensures
            answer is Some,
            answer->0@ == old(self)@.ack(frame@),
            exists|now: u128|
                now <= LONGEST_NANOS && old(self).measured_by().reads(now) && final(self)@
                    == #[trigger] old(self)@.after_request(
                    frame.chaddr,
                    now,
                ),
            final(self)@.wf(),
            final(self).measured_by() == old(self).measured_by(),
    {
        let now: u128 = self.now();
        self.gen_ack_at(frame, now)
    }

    /// Drops the leases that have run out at the moment `now`.
    pub fn expire_check_at(&mut self, now: u128)
        requires
            old(self)@.wf(),
        ensures
            final(self)@ == old(self)@.expired(now),
            final(self)@.wf(),
            final(self).measured_by() == old(self).measured_by(),
    {
        let ghost before = self@;
        let outdated: Vec<MacAddr> = self.outdated(now);
        let mut i: usize = 0;
        while i < outdated.len()
            invariant
                i <= outdated.len(),
                forall|client: MacAddr| #[trigger]
                    self.ip_map@.contains_key(client) <==> before.leases.contains_key(client)
                        && !outdated@.take(i as int).contains(client),
                forall|client: MacAddr| #[trigger]
                    self.ip_map@.contains_key(client) ==> self.ip_map@[client]
                        == before.leases[client],
                self@ == (ServerModel { leases: self.ip_map@, ..before }),
                self.measured_by() == old(self).measured_by(),
            decreases outdated.len() - i,
        {
            let client: MacAddr = outdated[i];
            self.ip_map.remove(&client);
            proof {
                assert(outdated@.take(i + 1) =~= outdated@.take(i as int).push(client));
                assert forall|other: MacAddr| outdated@.take(i + 1).contains(other) <==> (
                outdated@.take(i as int).contains(other) || other == client) by {
                    let now_taken = outdated@.take(i + 1);
                    if outdated@.take(i as int).contains(other) {
                        let k = outdated@.take(i as int).index_of(other);
                        assert(now_taken[k] == other);
                    }
                    if other == client {
                        assert(now_taken[i as int] == other);
                    }
                    if now_taken.contains(other) && other != client {
                        let k = now_taken.index_of(other);
                        assert(outdated@.take(i as int)[k] == other);
                    }
                }
            }
            i = i + 1;
        }
        proof {
            assert(outdated@.take(i as int) =~= outdated@);
            assert(self.ip_map@ =~= before.expired(now).leases);
            lemma_same_addresses_keep_wf(before, before.expired(now));
        }
    }

    /// The clients whose leases have run out at the moment `now`.
    fn outdated(&self, now: u128) -> (clients: Vec<MacAddr>)
        ensures
            forall|client: MacAddr| #[trigger]
                clients@.contains(client) <==> self@.leases.contains_key(client)
                    && self@.leases[client].expire <= now,
    {
        let mut clients: Vec<MacAddr> = Vec::new();
        for entry in entries: self.ip_map.iter()
            invariant
                forall|client: MacAddr| #[trigger]
                    clients@.contains(client) <==> exists|i: int|
                        0 <= i < entries.index() && *(#[trigger] entries.seq()[i]).0 == client
                            && entries.seq()[i].1.expire <= now,
        {
            let ghost before = clients@;
            let (client, lease) = entry;
            if lease.expire <= now {
                clients.push(*client);
            }
            proof {
                let at = entries.index() as int;
                assert(entries.seq()[at] == entry);
                assert forall|other: MacAddr| #[trigger]
                    clients@.contains(other) <==> exists|i: int|
                        0 <= i < at + 1 && *(#[trigger] entries.seq()[i]).0 == other
                            && entries.seq()[i].1.expire <= now by {
                    if lease.expire <= now {
                        assert(clients@ =~= before.push(*client));
                        assert(clients@[before.len() as int] == *client);
                        if before.contains(other) {
                            assert(clients@[before.index_of(other)] == other);
                        }
                        if clients@.contains(other) && other != *client {
                            assert(before[clients@.index_of(other)] == other);
                        }
                    }
                }
            }
        }
        clients
    }

    /// Drops the leases that have run out.
    ///
    /// Which ones have is up to the clock.
    pub fn expire_check(&mut self)
        requires
            old(self)@.wf(),
        ensures
            exists|now: u128|
                now <= LONGEST_NANOS && old(self).measured_by().reads(now) && final(self)@
                    == #[trigger] old(self)@.expired(now),
            final(self)@.wf(),
            final(self).measured_by() == old(self).measured_by(),
    {
        let now: u128 = self.now();
        self.expire_check_at(now);
    }
}

/// Whether a list of option indices holds `index`.
fn holds_index(list: &Vec<u8>, index: u8) -> (found: bool)
    ensures
        found == list@.contains(index),
{
    let mut i: usize = 0;
    while i < list.len()
        invariant
            i <= list.len(),
            forall|j: int| 0 <= j < i ==> list@[j] != index,
        decreases list.len() - i,
    {
        if list[i] == index {
            return true;
        }
        i = i + 1;
    }
    false
}

/// What holds of the server is kept as long as no lease is added and none moves to another address,
/// and the hosts, the network and the range stay the same.
pub(crate) proof fn lemma_same_addresses_keep_wf(server: ServerModel, next: ServerModel)
    requires
        server.wf(),
        next.allocated == server.allocated,
        next.server_ip == server.server_ip,
        next.host_range == server.host_range,
        forall|client: MacAddr| #[trigger]
            next.leases.contains_key(client) ==> server.leases.contains_key(client)
                && next.leases[client].ip == server.leases[client].ip,
    ensures
        next.wf(),
{
    assert(next.leases.dom().subset_of(server.leases.dom()));
    vstd::set_lib::lemma_set_subset_finite(server.leases.dom(), next.leases.dom());
    assert forall|c: MacAddr| #[trigger] next.leases.contains_key(c) implies next.backed(
        next.leases[c],
    ) by {
        assert(server.leases.contains_key(c));
        let h = choose|h: u32|
            #![trigger server.allocated.contains(h)]
            server.allocated.contains(h) && server.leases[c].ip == server.server_ip.host_address(h);
        assert(next.allocated.contains(h));
    }
    if next.range_fits() {
        assert forall|one: MacAddr, other: MacAddr| #[trigger]
            next.leases.contains_key(one) && #[trigger] next.leases.contains_key(other) && one
                != other implies next.leases[one].ip != next.leases[other].ip by {
            assert(server.leases.contains_key(one) && server.leases.contains_key(other));
        }
    }
}

/// Lending the address of a free host to a client without a lease keeps what holds of the server.
pub(crate) proof fn lemma_lend_keeps_wf(server: ServerModel, client: MacAddr, host: u32, expire: u128)
    requires
        server.wf(),
        crate::dhcp_server::host_pool::is_free(server.host_range, server.allocated, host),
        !server.leases.contains_key(client),
    ensures
        server.lend(client, host, expire).wf(),
{
    let next = server.lend(client, host, expire);
    assert forall|c: MacAddr| #[trigger] next.leases.contains_key(c) implies next.backed(
        next.leases[c],
    ) by {
        if c == client {
            assert(next.allocated.contains(host));
        } else {
            assert(server.leases.contains_key(c));
            let h = choose|h: u32|
                #![trigger server.allocated.contains(h)]
                server.allocated.contains(h) && server.leases[c].ip
                    == server.server_ip.host_address(h);
            assert(next.allocated.contains(h));
        }
    }
    if next.range_fits() {
        assert forall|c: MacAddr| #[trigger] server.leases.contains_key(c) implies server.leases[c].ip
            != server.server_ip.host_address(host) by {
            let h = choose|h: u32|
                #![trigger server.allocated.contains(h)]
                server.allocated.contains(h) && server.leases[c].ip
                    == server.server_ip.host_address(h);
            if h < host {
                crate::net::law_near_hosts_differ(server.server_ip, h, host);
            } else {
                crate::net::law_near_hosts_differ(server.server_ip, host, h);
            }
        }
        assert forall|one: MacAddr, other: MacAddr| #[trigger]
            next.leases.contains_key(one) && #[trigger] next.leases.contains_key(other) && one
                != other implies next.leases[one].ip != next.leases[other].ip by {
            if one != client {
                assert(server.leases.contains_key(one));
            }
            if other != client {
                assert(server.leases.contains_key(other));
            }
        }
    }
}

} // verus!
