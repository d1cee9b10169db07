//! Addresses, and the arithmetic of hosts within a network.

use vstd::prelude::*;

verus! {

/// An IPv4 address, its first octet in the highest byte.
pub type Ipv4Addr = u32;

/// A hardware address, its octets in transmission order in the low six bytes.
pub type MacAddr = u64;

/// `0.0.0.0`
pub const UNSPECIFIED: Ipv4Addr = 0;

/// `255.255.255.255`
pub const BROADCAST: Ipv4Addr = 0xffff_ffff;

/// An IP address of either family, the first octet in the highest byte.
#[derive(Clone, Copy, Debug, PartialEq, Eq, Structural)]
pub enum IpAddr {
    V4(u32),
    V6(u128),
}

/// How many addresses a network with a prefix of `network_length` bits holds.
pub open spec fn network_size(network_length: u8) -> int
    recommends
        network_length <= 32,
{
    vstd::arithmetic::power2::pow2((32 - network_length) as nat) as int
}

/// The first address of the network that `address` lies in.
pub open spec fn network_base(address: Ipv4Addr, network_length: u8) -> int
    recommends
        network_length <= 32,
{
    address - address as int % network_size(network_length)
}

/// Whether `network_length` can be the prefix length of an IPv4 network.
///
/// Calls `cidr::Ipv4Inet::new`, which refuses a length above the 32 bits of an address and accepts
/// every other one, whatever the address is.
#[verifier::external_body]
fn inet_exists(address: Ipv4Addr, network_length: u8) -> (accepted: bool)
    ensures
        accepted == (network_length <= 32),
{
    cidr::Ipv4Inet::new(address.into(), network_length).is_ok()
}

/// The first address of a network.
///
/// Calls `cidr::Ipv4Inet::first`, which clears the host bits of the address.
#[verifier::external_body]
fn inet_first(address: Ipv4Addr, network_length: u8) -> (first: Ipv4Addr)
    requires
        network_length <= 32,
    ensures
        first == network_base(address, network_length),
{
    cidr::Ipv4Inet::new(address.into(), network_length).unwrap().first().address().into()
}

/// The address `step` hosts after `address` in its network, and whether the end of the network was
/// passed on the way.
///
/// Calls `cidr::Ipv4Inet::overflowing_add_u32`, which keeps the network part of the address and
/// adds to the host part modulo the size of the network.
#[verifier::external_body]
fn inet_overflowing_add(address: Ipv4Addr, network_length: u8, step: u32) -> (sum: (Ipv4Addr, bool))
    requires
        network_length <= 32,
    ensures
        sum.0 == network_base(address, network_length) + (address + step) % network_size(
            network_length,
        ),
        sum.1 == (address as int % network_size(network_length) + step >= network_size(
            network_length,
        )),
{
    let (inet, overflow) = cidr::Ipv4Inet::new(address.into(), network_length)
        .unwrap()
        .overflowing_add_u32(step);
    (inet.address().into(), overflow)
}

/// An address together with the network that it lies in.
#[derive(Clone, Copy, Debug, PartialEq, Eq, Structural)]
pub struct Ipv4Inet {
    /// The address itself.
    pub address: Ipv4Addr,
    /// How many leading bits of the address name the network.
    pub network_length: u8,
}

impl Ipv4Inet {
    /// The prefix is no longer than an address.
    pub open spec fn wf(self) -> bool {
        self.network_length <= 32
    }

    /// The address lies in the network.
    pub open spec fn holds(self, address: Ipv4Addr) -> bool {
        network_base(self.address, self.network_length) <= address < network_base(
            self.address,
            self.network_length,
        ) + network_size(self.network_length)
    }

    /// The address that host number `host` of the network has: hosts are counted from the first
    /// address on, and from there again once the network ends.
    pub open spec fn host_address(self, host: u32) -> Ipv4Addr {
        (network_base(self.address, self.network_length) + host as int % network_size(
            self.network_length,
        )) as u32
    }

    /// An address within a network, or `None` where the prefix is longer than an address.
    pub fn new(address: Ipv4Addr, network_length: u8) -> (inet: Option<Ipv4Inet>)
        ensures
            inet is Some <==> network_length <= 32,
            inet matches Some(inet) ==> inet.wf() && inet == (Ipv4Inet { address, network_length }),
    {
        if inet_exists(address, network_length) {
            Some(Ipv4Inet { address, network_length })
        } else {
            None
        }
    }

    /// The address of host number `host`.
    pub fn nth_host(&self, host: u32) -> (address: Ipv4Addr)
        requires
            self.wf(),
        ensures
            address == self.host_address(host),
            self.holds(address),
    {
        let first: Ipv4Addr = inet_first(self.address, self.network_length);
        let (address, _overflow) = inet_overflowing_add(first, self.network_length, host);
        proof {
            let size = network_size(self.network_length);
            lemma_network_size(self.network_length);
            lemma_base_is_aligned(self.address as int, size);
            lemma_drop_aligned(first as int, host as int, size);
        }
        address
    }
}

/// The address of a host lies in the network of the server, and is an address without wrapping.
pub proof fn law_host_address_is_in_network(inet: Ipv4Inet, host: u32)
    requires
        inet.wf(),
    ensures
        inet.holds(inet.host_address(host)),
        inet.host_address(host) == network_base(inet.address, inet.network_length) + host as int
            % network_size(inet.network_length),
{
    let size = network_size(inet.network_length);
    lemma_network_size(inet.network_length);
    lemma_base_fits(inet.address as int, inet.network_length);
}

/// The address of a host: the bits of the network come from the address of the server, and the
/// others count the host.
pub proof fn law_host_address_splits_at_the_prefix(inet: Ipv4Inet, host: u32)
    requires
        inet.network_length <= 32,
    ensures
        ({
            let size = vstd::arithmetic::power2::pow2((32 - inet.network_length) as nat) as int;
            &&& inet.host_address(host) as int / size == inet.address as int / size
            &&& inet.host_address(host) as int % size == host as int % size
        }),
{
    let size = network_size(inet.network_length);
    lemma_network_size(inet.network_length);
    law_host_address_is_in_network(inet, host);
    let base = network_base(inet.address, inet.network_length);
    let offset = host as int % size;
    vstd::arithmetic::div_mod::lemma_fundamental_div_mod(inet.address as int, size);
    let q = inet.address as int / size;
    assert(base == q * size) by (nonlinear_arith)
        requires
            inet.address == size * q + inet.address as int % size,
            base == inet.address - inet.address as int % size,
    ;
    vstd::arithmetic::div_mod::lemma_fundamental_div_mod_converse(base + offset, size, q, offset);
}

/// An address lies in the network exactly where its network bits are those of the server.
pub proof fn law_network_shares_its_bits(inet: Ipv4Inet, address: Ipv4Addr)
    requires
        inet.network_length <= 32,
    ensures
        ({
            let size = vstd::arithmetic::power2::pow2((32 - inet.network_length) as nat) as int;
            inet.holds(address) <==> address as int / size == inet.address as int / size
        }),
{
    let size = network_size(inet.network_length);
    lemma_network_size(inet.network_length);
    let q = inet.address as int / size;
    let p = address as int / size;
    let r = address as int % size;
    vstd::arithmetic::div_mod::lemma_fundamental_div_mod(inet.address as int, size);
    vstd::arithmetic::div_mod::lemma_fundamental_div_mod(address as int, size);
    let base = network_base(inet.address, inet.network_length);
    assert(base == q * size) by (nonlinear_arith)
        requires
            inet.address == size * q + inet.address as int % size,
            base == inet.address - inet.address as int % size,
    ;
    if p == q {
        assert(address == base + r) by (nonlinear_arith)
            requires
                address == size * p + r,
                base == q * size,
                p == q,
        ;
    }
    if inet.holds(address) {
        vstd::arithmetic::div_mod::lemma_fundamental_div_mod_converse(
            address as int,
            size,
            q,
            address - base,
        );
    }
}

/// The hosts of a network are its addresses in order, from the first one on.
pub proof fn law_hosts_count_from_base(inet: Ipv4Inet, host: u32)
    requires
        inet.wf(),
        host < network_size(inet.network_length),
    ensures
        inet.host_address(host) == network_base(inet.address, inet.network_length) + host,
{
    law_host_address_is_in_network(inet, host);
    vstd::arithmetic::div_mod::lemma_small_mod(
        host as nat,
        network_size(inet.network_length) as nat,
    );
}

/// Hosts that are less than a network apart have different addresses.
pub proof fn law_near_hosts_differ(inet: Ipv4Inet, low: u32, high: u32)
    requires
        inet.wf(),
        low < high,
        high - low < network_size(inet.network_length),
    ensures
        inet.host_address(low) != inet.host_address(high),
{
    let size = network_size(inet.network_length);
    lemma_network_size(inet.network_length);
    law_host_address_is_in_network(inet, low);
    law_host_address_is_in_network(inet, high);
    if low as int % size == high as int % size {
        vstd::arithmetic::div_mod::lemma_fundamental_div_mod(low as int, size);
        vstd::arithmetic::div_mod::lemma_fundamental_div_mod(high as int, size);
        let a = low as int / size;
        let b = high as int / size;
        assert(size * (b - a) == high - low) by (nonlinear_arith)
            requires
                low == size * a + low as int % size,
                high == size * b + high as int % size,
                low as int % size == high as int % size,
        ;
        assert(false) by (nonlinear_arith)
            requires
                0 < size * (b - a) < size,
                size > 0,
        ;
    }
}

proof fn lemma_network_size(network_length: u8)
    requires
        network_length <= 32,
    ensures
        1 <= network_size(network_length) <= 0x1_0000_0000,
        0x1_0000_0000 == network_size(network_length) * vstd::arithmetic::power2::pow2(network_length as nat),
{
    let host_bits = (32 - network_length) as nat;
    vstd::arithmetic::power2::lemma_pow2_pos(host_bits);
    vstd::arithmetic::power2::lemma_pow2_pos(network_length as nat);
    vstd::arithmetic::power2::lemma_pow2_adds(host_bits, network_length as nat);
    vstd::arithmetic::power2::lemma2_to64();
    assert(network_size(network_length) <= 0x1_0000_0000) by (nonlinear_arith)
        requires
            0x1_0000_0000 == network_size(network_length) * vstd::arithmetic::power2::pow2(network_length as nat),
            network_size(network_length) >= 1,
            vstd::arithmetic::power2::pow2(network_length as nat) >= 1,
    ;
}

/// A network that starts at or below the last address ends there or below too.
proof fn lemma_base_fits(address: int, network_length: u8)
    requires
        network_length <= 32,
        0 <= address < 0x1_0000_0000,
    ensures
        0 <= address - address % network_size(network_length),
        address - address % network_size(network_length) + network_size(network_length)
            <= 0x1_0000_0000,
{
    let size = network_size(network_length);
    let count = vstd::arithmetic::power2::pow2(network_length as nat) as int;
    lemma_network_size(network_length);
    vstd::arithmetic::div_mod::lemma_fundamental_div_mod(address, size);
    let q = address / size;
    assert(q < count) by (nonlinear_arith)
        requires
            address == size * q + address % size,
            0 <= address % size,
            address < size * count,
            size > 0,
    ;
    assert(0 <= q) by (nonlinear_arith)
        requires
            address == size * q + address % size,
            0 <= address,
            address % size < size,
            size > 0,
    ;
    assert(0 <= size * q && size * q + size <= size * count) by (nonlinear_arith)
        requires
            0 <= q < count,
            size > 0,
    ;
}

proof fn lemma_base_is_aligned(address: int, size: int)
    requires
        size > 0,
        address >= 0,
    ensures
        (address - address % size) % size == 0,
{
    vstd::arithmetic::div_mod::lemma_fundamental_div_mod(address, size);
    vstd::arithmetic::div_mod::lemma_mod_multiples_basic(address / size, size);
    assert(address - address % size == (address / size) * size) by (nonlinear_arith)
        requires
            address == size * (address / size) + address % size,
    ;
}

proof fn lemma_drop_aligned(base: int, offset: int, size: int)
    requires
        size > 0,
        base % size == 0,
    ensures
        (base + offset) % size == offset % size,
{
    vstd::arithmetic::div_mod::lemma_add_mod_noop(base, offset, size);
    vstd::arithmetic::div_mod::lemma_mod_twice(offset, size);
}

} // verus!
