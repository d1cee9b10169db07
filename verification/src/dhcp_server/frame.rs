//! DHCP messages, as the server reads and writes them.

use crate::net::{Ipv4Addr, MacAddr};
use vstd::prelude::*;

verus! {

/// Index of the option that lists the parameters which a client asks for.
pub const PARAMETER_REQUEST_LIST: u8 = 55;

/// Index of the option that names the server.
pub const SERVER_IDENTIFIER: u8 = 54;

/// Index of the option that gives the time an address is lent for.
pub const ADDRESS_LEASE_TIME: u8 = 51;

/// What a message asks for or answers.
#[derive(Clone, Copy, Debug, PartialEq, Eq, Structural)]
pub enum DhcpOptionMessageType {
    Discover,
    Offer,
    Request,
    Decline,
    Ack,
    Nak,
    Release,
    Inform,
    ForceRenew,
    LeaseQuery,
    LeaseUnassigned,
    LeaseUnknown,
    LeaseActive,
    BulkLeaseQuery,
    LeaseQueryDone,
    ActiveLeaseQuery,
    LeaseQueryStatus,
    Tls,
}

/// One option of a message.
#[derive(Debug, PartialEq, Eq)]
pub enum DhcpOptions {
    /// The indices of the options that a client asks for.
    ParameterRequestList(Vec<u8>),
    /// The address of the server.
    ServerIdentifier(Ipv4Addr),
    /// For how many seconds an address is lent.
    AddressLeaseTime(u32),
    /// Any other option, with its payload as it stands.
    Other { index: u8, payload: Vec<u8> },
}

/// What an option says.
pub enum OptionModel {
    ParameterRequestList(Seq<u8>),
    ServerIdentifier(Ipv4Addr),
    AddressLeaseTime(u32),
    Other { index: u8, payload: Seq<u8> },
}

impl OptionModel {
    /// The number that the option goes by.
    pub open spec fn index(self) -> u8 {
        match self {
            OptionModel::ParameterRequestList(_) => PARAMETER_REQUEST_LIST,
            OptionModel::ServerIdentifier(_) => SERVER_IDENTIFIER,
            OptionModel::AddressLeaseTime(_) => ADDRESS_LEASE_TIME,
            OptionModel::Other { index, .. } => index,
        }
    }

    /// The first of `options` that goes by `index`.
    pub open spec fn first_with(options: Seq<OptionModel>, index: u8) -> Option<OptionModel>
        decreases options.len(),
    {
        if options.len() == 0 {
            None
        } else if options[0].index() == index {
            Some(options[0])
        } else {
            OptionModel::first_with(options.drop_first(), index)
        }
    }
}

impl View for DhcpOptions {
    type V = OptionModel;

    open spec fn view(&self) -> OptionModel {
        match self {
            DhcpOptions::ParameterRequestList(list) => OptionModel::ParameterRequestList(list@),
            DhcpOptions::ServerIdentifier(address) => OptionModel::ServerIdentifier(*address),
            DhcpOptions::AddressLeaseTime(seconds) => OptionModel::AddressLeaseTime(*seconds),
            DhcpOptions::Other { index, payload } => OptionModel::Other {
                index: *index,
                payload: payload@,
            },
        }
    }
}

/// What each of a list of options says.
pub open spec fn option_models(options: Seq<DhcpOptions>) -> Seq<OptionModel> {
    options.map_values(|option: DhcpOptions| option@)
}

impl Clone for DhcpOptions {
    fn clone(&self) -> (copy: Self)
        ensures
            copy@ == self@,
    {
        match self {
            DhcpOptions::ParameterRequestList(list) => {
                let list: Vec<u8> = list.clone();
                DhcpOptions::ParameterRequestList(list)
            },
            DhcpOptions::ServerIdentifier(address) => DhcpOptions::ServerIdentifier(*address),
            DhcpOptions::AddressLeaseTime(seconds) => DhcpOptions::AddressLeaseTime(*seconds),
            DhcpOptions::Other { index, payload } => {
                let payload: Vec<u8> = payload.clone();
                DhcpOptions::Other { index: *index, payload }
            },
        }
    }
}

impl DhcpOptions {
    /// The number that the option goes by.
    pub fn get_index(&self) -> (index: u8)
        ensures
            index == self@.index(),
    {
        match self {
            DhcpOptions::ParameterRequestList(_) => PARAMETER_REQUEST_LIST,
            DhcpOptions::ServerIdentifier(_) => SERVER_IDENTIFIER,
            DhcpOptions::AddressLeaseTime(_) => ADDRESS_LEASE_TIME,
            DhcpOptions::Other { index, .. } => *index,
        }
    }
}

/// The options of a message.
#[derive(Clone, Debug, PartialEq, Eq)]
pub struct DhcpOptionFrame {
    pub message_type: DhcpOptionMessageType,
    pub options: Vec<DhcpOptions>,
    pub end: Vec<u8>,
}

impl DhcpOptionFrame {
    /// The first option that goes by `index`.
    pub fn has_option(&self, index: u8) -> (option: Option<DhcpOptions>)
        ensures
            OptionModel::first_with(option_models(self.options@), index) == (match option {
                Some(option) => Some(option@),
                None => None,
            }),
    {
        let ghost models = option_models(self.options@);
        let mut i: usize = 0;
        assert(models.skip(0) =~= models);
        while i < self.options.len()
            invariant
                i <= self.options.len(),
                models == option_models(self.options@),
                OptionModel::first_with(models, index) == OptionModel::first_with(
                    models.skip(i as int),
                    index,
                ),
            decreases self.options.len() - i,
        {
            assert(models.skip(i as int)[0] == self.options[i as int]@);
            if self.options[i].get_index() == index {
                return Some(self.options[i].clone());
            }
            assert(models.skip(i as int).drop_first() =~= models.skip(i + 1));
            i = i + 1;
        }
        None
    }
}

/// A DHCP message.
#[derive(Clone, Debug, PartialEq, Eq)]
pub struct DhcpEthFrame {
    pub op: u8,
    pub htype: u8,
    pub hlen: u8,
    pub hops: u8,
    pub xid: u32,
    pub secs: u16,
    pub flags: u16,
    pub ciaddr: Ipv4Addr,
    pub yiaddr: Ipv4Addr,
    pub siaddr: Ipv4Addr,
    pub giaddr: Ipv4Addr,
    pub chaddr: MacAddr,
    pub sname: Vec<u8>,
    pub file: Vec<u8>,
    pub magic_cookie: u32,
    pub options: DhcpOptionFrame,
}

/// What a message says.
pub struct FrameModel {
    pub op: u8,
    pub htype: u8,
    pub hlen: u8,
    pub hops: u8,
    pub xid: u32,
    pub secs: u16,
    pub flags: u16,
    pub ciaddr: Ipv4Addr,
    pub yiaddr: Ipv4Addr,
    pub siaddr: Ipv4Addr,
    pub giaddr: Ipv4Addr,
    pub chaddr: MacAddr,
    pub sname: Seq<u8>,
    pub file: Seq<u8>,
    pub magic_cookie: u32,
    pub message_type: DhcpOptionMessageType,
    pub options: Seq<OptionModel>,
    pub end: Seq<u8>,
}

impl View for DhcpEthFrame {
    type V = FrameModel;

    open spec fn view(&self) -> FrameModel {
        FrameModel {
            op: self.op,
            htype: self.htype,
            hlen: self.hlen,
            hops: self.hops,
            xid: self.xid,
            secs: self.secs,
            flags: self.flags,
            ciaddr: self.ciaddr,
            yiaddr: self.yiaddr,
            siaddr: self.siaddr,
            giaddr: self.giaddr,
            chaddr: self.chaddr,
            sname: self.sname@,
            file: self.file@,
            magic_cookie: self.magic_cookie,
            message_type: self.options.message_type,
            options: option_models(self.options.options@),
            end: self.options.end@,
        }
    }
}

impl FrameModel {
    /// The client asks to be answered by broadcast: the highest bit of its flags is set.
    pub open spec fn is_broadcast(self) -> bool {
        self.flags >= 0x8000
    }

    /// An answer to this message: it repeats what identifies the exchange and the client, and
    /// carries the address `yiaddr` and the given options.
    pub open spec fn reply(
        self,
        message_type: DhcpOptionMessageType,
        yiaddr: Ipv4Addr,
        options: Seq<OptionModel>,
    ) -> FrameModel {
        FrameModel {
            op: 2,
            htype: 1,
            hlen: 6,
            hops: 0,
            xid: self.xid,
            secs: self.secs,
            flags: self.flags,
            ciaddr: 0,
            yiaddr,
            siaddr: 0,
            giaddr: 0,
            chaddr: self.chaddr,
            sname: Seq::new(64, |i: int| 0u8),
            file: Seq::new(128, |i: int| 0u8),
            magic_cookie: self.magic_cookie,
            message_type,
            options,
            end: seq![255u8],
        }
    }
}

impl DhcpEthFrame {
    /// Whether the client asks to be answered by broadcast.
    pub fn is_broaddcast(&self) -> (broadcast: bool)
        ensures
            broadcast == self@.is_broadcast(),
    {
        self.flags >= 0x8000
    }

    /// An answer to this message: it repeats what identifies the exchange and the client, and
    /// carries the address `yiaddr` and the given options.
    pub(crate) fn reply(
        &self,
        message_type: DhcpOptionMessageType,
        yiaddr: Ipv4Addr,
        options: Vec<DhcpOptions>,
    ) -> (answer: DhcpEthFrame)
        ensures
            answer@ == self@.reply(message_type, yiaddr, option_models(options@)),
    {
        let answer = DhcpEthFrame {
            op: 2,
            htype: 1,
            hlen: 6,
            hops: 0,
            xid: self.xid,
            secs: self.secs,
            flags: self.flags,
            ciaddr: 0,
            yiaddr,
            siaddr: 0,
            giaddr: 0,
            chaddr: self.chaddr,
            sname: vec![0u8; 64],
            file: vec![0u8; 128],
            magic_cookie: self.magic_cookie,
            options: DhcpOptionFrame { message_type, options, end: vec![255u8] },
        };
        assert(answer.sname@ =~= Seq::new(64, |i: int| 0u8));
        assert(answer.file@ =~= Seq::new(128, |i: int| 0u8));
        assert(answer.options.end@ =~= seq![255u8]);
        answer
    }
}

/// What a message says is what stands in its fields.
pub proof fn law_message_says_its_fields(frame: DhcpEthFrame)
    ensures
        frame@.op == frame.op,
        frame@.htype == frame.htype,
        frame@.hlen == frame.hlen,
        frame@.hops == frame.hops,
        frame@.xid == frame.xid,
        frame@.secs == frame.secs,
        frame@.flags == frame.flags,
        frame@.ciaddr == frame.ciaddr,
        frame@.yiaddr == frame.yiaddr,
        frame@.siaddr == frame.siaddr,
        frame@.giaddr == frame.giaddr,
        frame@.chaddr == frame.chaddr,
        frame@.sname == frame.sname@,
        frame@.file == frame.file@,
        frame@.magic_cookie == frame.magic_cookie,
        frame@.message_type == frame.options.message_type,
        frame@.end == frame.options.end@,
        frame@.options.len() == frame.options.options@.len(),
        forall|i: int|
            0 <= i < frame.options.options@.len() ==> #[trigger] frame@.options[i]
                == frame.options.options@[i]@,
{
}

/// What an option says is what stands in it, and each kind of option has its own number.
pub proof fn law_option_says_its_fields(option: DhcpOptions)
    ensures
        match option {
            DhcpOptions::ParameterRequestList(list) => option@ == OptionModel::ParameterRequestList(
                list@,
            ) && option@.index() == 55,
            DhcpOptions::ServerIdentifier(address) => option@ == OptionModel::ServerIdentifier(
                address,
            ) && option@.index() == 54,
            DhcpOptions::AddressLeaseTime(seconds) => option@ == OptionModel::AddressLeaseTime(
                seconds,
            ) && option@.index() == 51,
            DhcpOptions::Other { index, payload } => option@ == (OptionModel::Other {
                index,
                payload: payload@,
            }) && option@.index() == index,
        },
{
}

/// The option that is looked up by its number is the first one with that number, and there is none
/// where no option has it.
pub proof fn law_lookup_finds_the_first(options: Seq<OptionModel>, index: u8)
    ensures
        forall|at: int|
            0 <= at < options.len() && (#[trigger] options[at]).index() == index && (forall|i: int|
                0 <= i < at ==> (#[trigger] options[i]).index() != index)
                ==> OptionModel::first_with(options, index) == Some(options[at]),
        (forall|i: int| 0 <= i < options.len() ==> (#[trigger] options[i]).index() != index)
            <==> OptionModel::first_with(options, index) is None,
    decreases options.len(),
{
    if options.len() > 0 {
        let rest = options.drop_first();
        law_lookup_finds_the_first(rest, index);
        assert forall|i: int| 0 <= i < rest.len() implies #[trigger] rest[i] == options[i + 1] by {}
        if options[0].index() != index {
            assert forall|at: int|
                0 <= at < options.len() && (#[trigger] options[at]).index() == index && (forall|
                    i: int,
                |
                    0 <= i < at ==> (#[trigger] options[i]).index()
                        != index) implies OptionModel::first_with(options, index)
                == Some(options[at]) by {
                assert(rest[at - 1] == options[at]);
                assert forall|i: int| 0 <= i < at - 1 implies (#[trigger] rest[i]).index()
                    != index by {
                    assert(options[i + 1].index() != index);
                }
            }
            if forall|i: int| 0 <= i < rest.len() ==> (#[trigger] rest[i]).index() != index {
                assert forall|i: int| 0 <= i < options.len() implies (
                #[trigger] options[i]).index() != index by {
                    if i > 0 {
                        assert(rest[i - 1] == options[i]);
                    }
                }
            } else {
                let i = choose|i: int|
                    0 <= i < rest.len() && (#[trigger] rest[i]).index() == index;
                assert(options[i + 1].index() == index);
            }
        }
    }
}

/// A client asks for a broadcast by the highest of the sixteen bits of its flags, and by nothing
/// else.
pub proof fn law_broadcast_is_the_highest_bit(frame: FrameModel)
    ensures
        frame.is_broadcast() <==> frame.flags & 0x8000u16 != 0,
{
    let flags = frame.flags;
    assert(flags >= 0x8000u16 <==> flags & 0x8000u16 != 0) by (bit_vector);
}

/// An answer carries what it is given, repeats the exchange and the client of the message, and says
/// nothing else.
pub proof fn law_reply_repeats_the_exchange(
    frame: FrameModel,
    message_type: DhcpOptionMessageType,
    yiaddr: Ipv4Addr,
    options: Seq<OptionModel>,
)
    ensures
        ({
            let answer = frame.reply(message_type, yiaddr, options);
            &&& answer.op == 2
            &&& answer.htype == 1
            &&& answer.hlen == 6
            &&& answer.hops == 0
            &&& answer.xid == frame.xid
            &&& answer.secs == frame.secs
            &&& answer.flags == frame.flags
            &&& answer.ciaddr == 0
            &&& answer.yiaddr == yiaddr
            &&& answer.siaddr == 0
            &&& answer.giaddr == 0
            &&& answer.chaddr == frame.chaddr
            &&& answer.sname.len() == 64
            &&& forall|i: int| 0 <= i < 64 ==> answer.sname[i] == 0
            &&& answer.file.len() == 128
            &&& forall|i: int| 0 <= i < 128 ==> answer.file[i] == 0
            &&& answer.magic_cookie == frame.magic_cookie
            &&& answer.message_type == message_type
            &&& answer.options == options
            &&& answer.end == seq![255u8]
        }),
{
}

} // verus!
