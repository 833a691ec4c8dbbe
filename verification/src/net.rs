//! Network addresses held as plain values: IPv4 or IPv6 octets and a port.

use vstd::prelude::*;

verus! {

/// An IP address by its octets.
#[derive(Debug, Clone, Copy, PartialEq, Eq, Hash)]
pub enum IpAddress {
    /// An IPv4 address.
    V4([u8; 4]),
    /// An IPv6 address.
    V6([u8; 16]),
}

/// A socket address: an IP address and a port.
#[derive(Debug, Clone, Copy, PartialEq, Eq, Hash)]
pub struct SocketAddress {
    /// The IP address.
    pub ip: IpAddress,
    /// The port.
    pub port: u16,
}

impl SocketAddress {
    /// An IPv4 socket address.
    pub fn v4(octets: [u8; 4], port: u16) -> (a: Self)
        ensures
            a.ip == IpAddress::V4(octets),
            a.port == port,
    {
        SocketAddress { ip: IpAddress::V4(octets), port }
    }

    /// Whether two socket addresses are the same.
    pub fn same_as(&self, other: &Self) -> (r: bool)
        ensures
            r == (*self == *other),
    {
        let same_ip = match (&self.ip, &other.ip) {
            (IpAddress::V4(a), IpAddress::V4(b)) => {
                let r = a[0] == b[0] && a[1] == b[1] && a[2] == b[2] && a[3] == b[3];
                proof {
                    broadcast use vstd::array::group_array_axioms;
                    if r {
                        assert(a@ =~= b@);
                        assert(*a == *b);
                        assert(self.ip == other.ip);
                    }
                }
                r
            },
            (IpAddress::V6(a), IpAddress::V6(b)) => {
                let mut i: usize = 0;
                let mut eq = true;
                while i < 16
                    invariant
                        i <= 16,
                        a@.len() == 16,
                        b@.len() == 16,
                        eq == (forall|j: int| 0 <= j < i ==> a@[j] == b@[j]),
                    decreases 16 - i,
                {
                    if a[i] != b[i] {
                        eq = false;
                    }
                    i = i + 1;
                }
                proof {
                    broadcast use vstd::array::group_array_axioms;
                    if eq {
                        assert(a@ =~= b@);
                        assert(*a == *b);
                        assert(self.ip == other.ip);
                    }
                }
                eq
            },
            _ => false,
        };
        same_ip && self.port == other.port
    }
}

/// One component of a multiaddress, by what it says of the endpoint.
#[derive(Debug, Clone, Copy, PartialEq, Eq)]
pub enum AddrProtocol {
    /// An IPv4 address.
    Ip4([u8; 4]),
    /// An IPv6 address.
    Ip6([u8; 16]),
    /// A TCP port.
    Tcp(u16),
    /// A UDP port.
    Udp(u16),
    /// Any other component (peer id, transport security, ...).
    Other,
}

/// The IP address the components name: the last IP component, if any.
pub open spec fn spec_last_ip(parts: Seq<AddrProtocol>) -> Option<IpAddress>
    decreases parts.len(),
{
    if parts.len() == 0 {
        None
    } else {
        match parts.last() {
            AddrProtocol::Ip4(o) => Some(IpAddress::V4(o)),
            AddrProtocol::Ip6(o) => Some(IpAddress::V6(o)),
            _ => spec_last_ip(parts.drop_last()),
        }
    }
}

/// The port the components name: the last TCP or UDP component, if any.
pub open spec fn spec_last_port(parts: Seq<AddrProtocol>) -> Option<u16>
    decreases parts.len(),
{
    if parts.len() == 0 {
        None
    } else {
        match parts.last() {
            AddrProtocol::Tcp(p) => Some(p),
            AddrProtocol::Udp(p) => Some(p),
            _ => spec_last_port(parts.drop_last()),
        }
    }
}

/// The socket address a multiaddress names: its last IP component and its
/// last port component, when it has both.
pub open spec fn spec_socket_of(parts: Seq<AddrProtocol>) -> Option<SocketAddress> {
    match (spec_last_ip(parts), spec_last_port(parts)) {
        (Some(ip), Some(port)) => Some(SocketAddress { ip, port }),
        _ => None,
    }
}

/// An IP component followed by a TCP or a UDP port names that IP and
/// port; a port component names the port whatever came before it, and a
/// later port replaces an earlier one.
pub proof fn law_ip_then_port(o4: [u8; 4], o6: [u8; 16], p: u16, parts: Seq<AddrProtocol>)
    ensures
        spec_socket_of(seq![AddrProtocol::Ip4(o4), AddrProtocol::Tcp(p)]) == Some(SocketAddress { ip: IpAddress::V4(o4), port: p }),
        spec_socket_of(seq![AddrProtocol::Ip4(o4), AddrProtocol::Udp(p)]) == Some(SocketAddress { ip: IpAddress::V4(o4), port: p }),
        spec_socket_of(seq![AddrProtocol::Ip6(o6), AddrProtocol::Tcp(p)]) == Some(SocketAddress { ip: IpAddress::V6(o6), port: p }),
        spec_socket_of(seq![AddrProtocol::Ip6(o6), AddrProtocol::Udp(p)]) == Some(SocketAddress { ip: IpAddress::V6(o6), port: p }),
        spec_last_port(parts.push(AddrProtocol::Tcp(p))) == Some(p),
        spec_last_port(parts.push(AddrProtocol::Udp(p))) == Some(p),
        spec_last_ip(parts.push(AddrProtocol::Ip4(o4))) == Some(IpAddress::V4(o4)),
        spec_last_ip(parts.push(AddrProtocol::Ip6(o6))) == Some(IpAddress::V6(o6)),
        spec_socket_of(seq![AddrProtocol::Ip4(o4)]) is None,
        spec_socket_of(seq![AddrProtocol::Tcp(p)]) is None,
{
    let a = seq![AddrProtocol::Ip4(o4), AddrProtocol::Tcp(p)];
    let b = seq![AddrProtocol::Ip4(o4), AddrProtocol::Udp(p)];
    let c = seq![AddrProtocol::Ip6(o6), AddrProtocol::Tcp(p)];
    let d = seq![AddrProtocol::Ip6(o6), AddrProtocol::Udp(p)];
    assert(a.drop_last().drop_last().len() == 0);
    assert(b.drop_last().drop_last().len() == 0);
    assert(c.drop_last().drop_last().len() == 0);
    assert(d.drop_last().drop_last().len() == 0);
    assert(spec_last_ip(a.drop_last()) == Some(IpAddress::V4(o4)));
    assert(spec_last_ip(b.drop_last()) == Some(IpAddress::V4(o4)));
    assert(spec_last_ip(c.drop_last()) == Some(IpAddress::V6(o6)));
    assert(spec_last_ip(d.drop_last()) == Some(IpAddress::V6(o6)));
    assert(parts.push(AddrProtocol::Tcp(p)).last() == AddrProtocol::Tcp(p));
    assert(parts.push(AddrProtocol::Udp(p)).last() == AddrProtocol::Udp(p));
    assert(parts.push(AddrProtocol::Ip4(o4)).last() == AddrProtocol::Ip4(o4));
    assert(parts.push(AddrProtocol::Ip6(o6)).last() == AddrProtocol::Ip6(o6));
    let e = seq![AddrProtocol::Ip4(o4)];
    let f = seq![AddrProtocol::Tcp(p)];
    assert(e.drop_last().len() == 0);
    assert(f.drop_last().len() == 0);
    assert(e.last() == AddrProtocol::Ip4(o4));
    assert(spec_last_port(e.drop_last()) is None);
    assert(spec_last_port(e) is None);
    assert(f.last() == AddrProtocol::Tcp(p));
    assert(spec_last_ip(f.drop_last()) is None);
    assert(spec_last_ip(f) is None);
}

/// The socket address named by the components of a multiaddress.
pub fn multiaddr_to_socket_addr(parts: &Vec<AddrProtocol>) -> (res: Option<SocketAddress>)
    ensures
        res == spec_socket_of(parts@),
{
    let mut ip: Option<IpAddress> = None;
    let mut port: Option<u16> = None;
    let mut i: usize = 0;
    while i < parts.len()
        invariant
            i <= parts@.len(),
            ip == spec_last_ip(parts@.take(i as int)),
            port == spec_last_port(parts@.take(i as int)),
        decreases parts@.len() - i,
    {
        assert(parts@.take(i + 1).drop_last() =~= parts@.take(i as int));
        match parts[i] {
            AddrProtocol::Ip4(o) => ip = Some(IpAddress::V4(o)),
            AddrProtocol::Ip6(o) => ip = Some(IpAddress::V6(o)),
            AddrProtocol::Tcp(p) => port = Some(p),
            AddrProtocol::Udp(p) => port = Some(p),
            AddrProtocol::Other => {},
        }
        i = i + 1;
    }
    assert(parts@.take(parts@.len() as int) =~= parts@);
    match (ip, port) {
        (Some(ip), Some(port)) => Some(SocketAddress { ip, port }),
        _ => None,
    }
}

/// The multiaddress components advertising a socket address: its IP, then
/// its port as UDP.
pub fn socket_addr_to_multiaddr(addr: &SocketAddress) -> (parts: Vec<AddrProtocol>)
    ensures
        parts@.len() == 2,
        parts@[0] == (match addr.ip { IpAddress::V4(o) => AddrProtocol::Ip4(o), IpAddress::V6(o) => AddrProtocol::Ip6(o) }),
        parts@[1] == AddrProtocol::Udp(addr.port),
{
    let mut parts: Vec<AddrProtocol> = Vec::new();
    match addr.ip {
        IpAddress::V4(o) => parts.push(AddrProtocol::Ip4(o)),
        IpAddress::V6(o) => parts.push(AddrProtocol::Ip6(o)),
    }
    parts.push(AddrProtocol::Udp(addr.port));
    parts
}

/// Advertising a socket address and reading it back gives the same address.
pub proof fn law_multiaddr_roundtrip(addr: SocketAddress, parts: Seq<AddrProtocol>)
    requires
        parts.len() == 2,
        parts[0] == (match addr.ip { IpAddress::V4(o) => AddrProtocol::Ip4(o), IpAddress::V6(o) => AddrProtocol::Ip6(o) }),
        parts[1] == AddrProtocol::Udp(addr.port),
    ensures
        spec_socket_of(parts) == Some(addr),
{
    assert(parts.drop_last().drop_last().len() == 0);
    assert(spec_last_ip(parts.drop_last()) == Some(addr.ip));
    assert(spec_last_port(parts) == Some(addr.port));
}

} // verus!
