//! The network that is scanned: its descriptor, and the host addresses in
//! it. Descriptors are read, and hosts are counted and found, by `ipnet`.

use vstd::prelude::*;

verus! {

/// The error with which `ipnet` refuses a descriptor.
#[verifier::external_type_specification]
#[verifier::external_body]
pub struct ExAddrParseError(ipnet::AddrParseError);

/// The address and the prefix length that `ipnet` reads from `text` as an
/// IPv4 network in CIDR notation, if it reads one.
pub uninterp spec fn cidr_value(text: Seq<char>) -> Option<(u32, u8)>;

/// `<ipnet::Ipv4Net as FromStr>::from_str`, with `Ipv4Net::addr` and
/// `Ipv4Net::prefix_len` to take the result apart: the address as a number
/// and the prefix length, which is at most 32, or the error where the text
/// is no IPv4 network.
#[verifier::external_body]
fn parse_cidr(text: &str) -> (r: Result<(u32, u8), ipnet::AddrParseError>)
    ensures
        match r {
            Ok(net) => cidr_value(text@) == Some(net) && net.1 <= 32,
            Err(_) => cidr_value(text@) is None,
        },
{
    let net: ipnet::Ipv4Net = text.parse()?;
    Ok((net.addr().into(), net.prefix_len()))
}

/// The mask of the network part of an address.
pub open spec fn net_mask(prefix_len: u8) -> u32
    recommends
        prefix_len <= 32,
{
    if prefix_len == 0 {
        0
    } else {
        u32::MAX << ((32 - prefix_len) as u32)
    }
}

/// The mask of the host part of an address.
pub open spec fn host_mask(prefix_len: u8) -> u32
    recommends
        prefix_len <= 32,
{
    if prefix_len >= 32 {
        0
    } else {
        u32::MAX >> (prefix_len as u32)
    }
}

/// The network address: the address with its host part cleared.
pub open spec fn network_address(addr: u32, prefix_len: u8) -> u32 {
    addr & net_mask(prefix_len)
}

/// The broadcast address: the address with its host part set.
pub open spec fn broadcast_address(addr: u32, prefix_len: u8) -> u32 {
    addr | host_mask(prefix_len)
}

/// The lowest host address. Below a prefix length of 31 the network address
/// is no host.
pub open spec fn first_host(addr: u32, prefix_len: u8) -> int {
    let network = network_address(addr, prefix_len);
    if prefix_len < 31 && network < u32::MAX {
        network + 1
    } else {
        network as int
    }
}

/// The highest host address. Below a prefix length of 31 the broadcast
/// address is no host.
pub open spec fn last_host(addr: u32, prefix_len: u8) -> int {
    let broadcast = broadcast_address(addr, prefix_len);
    if prefix_len < 31 && broadcast > 0 {
        broadcast - 1
    } else {
        broadcast as int
    }
}

/// How many host addresses there are.
pub open spec fn host_count(addr: u32, prefix_len: u8) -> nat {
    if first_host(addr, prefix_len) <= last_host(addr, prefix_len) {
        (last_host(addr, prefix_len) - first_host(addr, prefix_len) + 1) as nat
    } else {
        0
    }
}

/// The host address with index `n`, counted from 0 at the lowest.
pub open spec fn nth_host(addr: u32, prefix_len: u8, n: int) -> Option<u32> {
    if 0 <= n < host_count(addr, prefix_len) {
        Some((first_host(addr, prefix_len) + n) as u32)
    } else {
        None
    }
}

/// The host addresses of a network, ascending.
pub open spec fn host_addresses(addr: u32, prefix_len: u8) -> Seq<u32> {
    Seq::new(host_count(addr, prefix_len), |i: int| (first_host(addr, prefix_len) + i) as u32)
}

/// Below a prefix length of 31 the hosts are the addresses strictly between
/// the network address and the broadcast address, and there are two fewer
/// of them than the host part has values.
pub proof fn lemma_host_range(addr: u32, prefix_len: u8)
    requires
        prefix_len < 31,
    ensures
        first_host(addr, prefix_len) == network_address(addr, prefix_len) + 1,
        last_host(addr, prefix_len) == broadcast_address(addr, prefix_len) - 1,
        host_count(addr, prefix_len) == host_mask(prefix_len) - 1,
        host_count(addr, prefix_len) >= 2,
{
    let p: u32 = prefix_len as u32;
    let h: u32 = u32::MAX >> p;
    if prefix_len == 0 {
        assert(u32::MAX >> 0u32 == u32::MAX) by (bit_vector);
        assert(addr & 0u32 == 0u32) by (bit_vector);
        assert(addr | u32::MAX == u32::MAX) by (bit_vector);
    } else {
        let s: u32 = (32 - prefix_len) as u32;
        let m: u32 = u32::MAX << s;
        assert(h >= 3 && (addr & m) <= u32::MAX - 3 && (addr | h) - (addr & m) == h)
            by (bit_vector)
            requires
                1 <= p <= 30,
                s == 32 - p,
                h == u32::MAX >> p,
                m == u32::MAX << s,
        ;
    }
}

/// With a prefix length of 31 or 32 every address of the network is a host:
/// two of them, or one.
pub proof fn lemma_host_range_of_small_network(addr: u32, prefix_len: u8)
    requires
        31 <= prefix_len <= 32,
    ensures
        first_host(addr, prefix_len) == network_address(addr, prefix_len),
        last_host(addr, prefix_len) == broadcast_address(addr, prefix_len),
        host_count(addr, prefix_len) == 33 - prefix_len,
{
    if prefix_len == 31 {
        assert((addr | (u32::MAX >> 31u32)) - (addr & (u32::MAX << 1u32)) == 1) by (bit_vector);
    } else {
        assert((addr | 0u32) == addr && (addr & (u32::MAX << 0u32)) == addr) by (bit_vector);
    }
}

/// The hosts come in ascending order, so none comes twice.
pub proof fn lemma_hosts_ascending(addr: u32, prefix_len: u8, i: int, j: int)
    requires
        0 <= i < j < host_addresses(addr, prefix_len).len(),
    ensures
        host_addresses(addr, prefix_len)[i] < host_addresses(addr, prefix_len)[j],
{
}

/// Every host lies in the network, and below a prefix length of 31 it is
/// neither the network address nor the broadcast address.
pub proof fn lemma_hosts_within(addr: u32, prefix_len: u8, i: int)
    requires
        prefix_len <= 32,
        0 <= i < host_addresses(addr, prefix_len).len(),
    ensures
        network_address(addr, prefix_len) <= host_addresses(addr, prefix_len)[i]
            <= broadcast_address(addr, prefix_len),
        prefix_len < 31 ==> network_address(addr, prefix_len) < host_addresses(
            addr,
            prefix_len,
        )[i] < broadcast_address(addr, prefix_len),
{
    if prefix_len < 31 {
        lemma_host_range(addr, prefix_len);
    } else {
        lemma_host_range_of_small_network(addr, prefix_len);
    }
}

/// `Ipv4Net::hosts` and `Iterator::count` on the range it returns: the
/// number of addresses from the lowest host to the highest.
#[verifier::external_body]
fn count_hosts(addr: u32, prefix_len: u8) -> (r: usize)
    requires
        prefix_len <= 32,
    ensures
        r == host_count(addr, prefix_len),
{
    ipnet::Ipv4Net::new_assert(addr.into(), prefix_len).hosts().count()
}

/// `Ipv4Net::hosts` and `Iterator::nth` on the range it returns: the lowest
/// host address plus `n`, where there are more than `n` hosts.
#[verifier::external_body]
fn find_host(addr: u32, prefix_len: u8, n: usize) -> (r: Option<u32>)
    requires
        prefix_len <= 32,
    ensures
        r == nth_host(addr, prefix_len, n as int),
{
    ipnet::Ipv4Net::new_assert(addr.into(), prefix_len).hosts().nth(n).map(u32::from)
}

/// What `ipnet` says of a descriptor that it refuses.
pub open spec fn refusal_text() -> Seq<char> {
    "invalid IP address syntax"@
}

/// `<ipnet::AddrParseError as Display>::fmt`, through `to_string`: the
/// error in words, which are always the same.
#[verifier::external_body]
fn describe(error: &ipnet::AddrParseError) -> (r: String)
    ensures
        r@ == refusal_text(),
{
    error.to_string()
}

/// Why a scan cannot begin.
#[derive(Clone, Debug, PartialEq, Eq)]
pub enum ScanError {
    /// The network descriptor is no IPv4 network in CIDR notation. With it
    /// comes what the parser said.
    InvalidNetwork(String),
}

impl ScanError {
    /// The words that come with the error.
    pub open spec fn reason(&self) -> Seq<char> {
        match self {
            ScanError::InvalidNetwork(said) => said@,
        }
    }

    /// The error in words.
    pub fn message(&self) -> (r: String)
        ensures
            r@ == self.reason(),
    {
        match self {
            ScanError::InvalidNetwork(said) => said.clone(),
        }
    }
}

/// An IPv4 network: an address and the length of its network part.
#[derive(Clone, Copy, Debug, PartialEq, Eq)]
pub struct Network {
    addr: u32,
    prefix_len: u8,
}

impl Network {
    #[verifier::type_invariant]
    spec fn valid(self) -> bool {
        self.prefix_len <= 32
    }

    /// The address that the network was given with.
    pub closed spec fn address(&self) -> u32 {
        self.addr
    }

    /// The length of the network part, in bits.
    pub closed spec fn prefix(&self) -> u8 {
        self.prefix_len
    }

    /// The host addresses of the network, ascending.
    pub open spec fn host_sequence(&self) -> Seq<u32> {
        host_addresses(self.address(), self.prefix())
    }

    /// The network of a descriptor in CIDR notation, such as
    /// `192.168.1.0/24`. Anything else is refused.
    pub fn parse(text: &str) -> (r: Result<Network, ScanError>)
        ensures
            match r {
                Ok(net) => cidr_value(text@) == Some((net.address(), net.prefix()))
                    && net.prefix() <= 32,
                Err(e) => cidr_value(text@) is None && e.reason() == refusal_text(),
            },
    {
        match parse_cidr(text) {
            Ok((addr, prefix_len)) => Ok(Network { addr, prefix_len }),
            Err(error) => Err(ScanError::InvalidNetwork(describe(&error))),
        }
    }

    /// The network of an address and a prefix length, which is at most 32.
    pub fn new(addr: u32, prefix_len: u8) -> (r: Option<Network>)
        ensures
            match r {
                Some(net) => prefix_len <= 32 && net.address() == addr && net.prefix()
                    == prefix_len,
                None => prefix_len > 32,
            },
    {
        if prefix_len <= 32 {
            Some(Network { addr, prefix_len })
        } else {
            None
        }
    }

    /// The address that the network was given with.
    pub fn addr(&self) -> (r: u32)
        ensures
            r == self.address(),
    {
        self.addr
    }

    /// The length of the network part, in bits: at most 32.
    pub fn prefix_len(&self) -> (r: u8)
        ensures
            r == self.prefix(),
            r <= 32,
    {
        proof {
            use_type_invariant(self);
        }
        self.prefix_len
    }

    /// How many hosts the network has.
    pub fn host_count(&self) -> (r: usize)
        ensures
            r == self.host_sequence().len(),
    {
        proof {
            use_type_invariant(self);
        }
        count_hosts(self.addr, self.prefix_len)
    }

    /// The host with index `i`, counted from 0 at the lowest address.
    pub fn host(&self, i: usize) -> (r: Option<u32>)
        ensures
            match r {
                Some(ip) => i < self.host_sequence().len() && ip == self.host_sequence()[i as int],
                None => i >= self.host_sequence().len(),
            },
    {
        proof {
            use_type_invariant(self);
        }
        find_host(self.addr, self.prefix_len, i)
    }

    /// All hosts of the network, ascending.
    pub fn hosts(&self) -> (r: Vec<u32>)
        ensures
            r@ == self.host_sequence(),
    {
        let n = self.host_count();
        let mut out: Vec<u32> = Vec::new();
        let mut i: usize = 0;
        while i < n
            invariant
                i <= n == self.host_sequence().len(),
                out@ == self.host_sequence().take(i as int),
            decreases n - i,
        {
            match self.host(i) {
                Some(ip) => {
                    out.push(ip);
                    proof {
                        assert(self.host_sequence().take(i + 1) == self.host_sequence().take(
                            i as int,
                        ).push(ip));
                    }
                },
                None => {},
            }
            i += 1;
        }
        proof {
            assert(self.host_sequence().take(n as int) == self.host_sequence());
        }
        out
    }
}

} // verus!
