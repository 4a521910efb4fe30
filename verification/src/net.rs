//! Socket addresses as plain values.

use vstd::prelude::*;

verus! {

/// An IP address with a port. The numbers hold the address bytes, most significant byte first.
#[derive(Clone, Copy, Debug, PartialEq, Eq, Structural)]
pub enum SocketAddr {
    V4 { ip: u32, port: u16 },
    V6 { ip: u128, port: u16, flowinfo: u32, scope_id: u32 },
}

impl SocketAddr {
    /// The address belongs to IPv6.
    pub open spec fn ipv6(self) -> bool {
        self is V6
    }

    /// The same IP address with another port, without flow information or scope.
    pub open spec fn at_port(self, port: u16) -> SocketAddr {
        match self {
            SocketAddr::V4 { ip, .. } => SocketAddr::V4 { ip, port },
            SocketAddr::V6 { ip, .. } => SocketAddr::V6 { ip, port, flowinfo: 0, scope_id: 0 },
        }
    }

    /// The same address with another port and nothing else changed.
    pub open spec fn renumbered(self, port: u16) -> SocketAddr {
        match self {
            SocketAddr::V4 { ip, .. } => SocketAddr::V4 { ip, port },
            SocketAddr::V6 { ip, flowinfo, scope_id, .. } => SocketAddr::V6 {
                ip,
                port,
                flowinfo,
                scope_id,
            },
        }
    }

    /// The port.
    pub open spec fn port_number(self) -> u16 {
        match self {
            SocketAddr::V4 { port, .. } => port,
            SocketAddr::V6 { port, .. } => port,
        }
    }

    /// The port.
    pub fn port(&self) -> (r: u16)
        ensures
            r == self.port_number(),
    {
        match self {
            SocketAddr::V4 { port, .. } => *port,
            SocketAddr::V6 { port, .. } => *port,
        }
    }

    /// Whether the address belongs to IPv6.
    pub fn is_ipv6(&self) -> (r: bool)
        ensures
            r == self.ipv6(),
    {
        match self {
            SocketAddr::V4 { .. } => false,
            SocketAddr::V6 { .. } => true,
        }
    }

    /// The same address with another port and nothing else changed.
    pub fn renumber(&self, port: u16) -> (r: SocketAddr)
        ensures
            r == self.renumbered(port),
            r.port_number() == port,
    {
        match self {
            SocketAddr::V4 { ip, .. } => SocketAddr::V4 { ip: *ip, port },
            SocketAddr::V6 { ip, flowinfo, scope_id, .. } => SocketAddr::V6 {
                ip: *ip,
                port,
                flowinfo: *flowinfo,
                scope_id: *scope_id,
            },
        }
    }

    /// The same IP address with another port, without flow information or scope.
    pub fn with_port(&self, port: u16) -> (r: SocketAddr)
        ensures
            r == self.at_port(port),
    {
        match self {
            SocketAddr::V4 { ip, .. } => SocketAddr::V4 { ip: *ip, port },
            SocketAddr::V6 { ip, .. } => SocketAddr::V6 { ip: *ip, port, flowinfo: 0, scope_id: 0 },
        }
    }
}

/// The address that stands for every local address of a family.
pub open spec fn wildcard_addr(ipv6: bool, port: u16) -> SocketAddr {
    if ipv6 {
        SocketAddr::V6 { ip: 0, port, flowinfo: 0, scope_id: 0 }
    } else {
        SocketAddr::V4 { ip: 0, port }
    }
}

/// The address that stands for every local address of a family.
pub fn wildcard(ipv6: bool, port: u16) -> (r: SocketAddr)
    ensures
        r == wildcard_addr(ipv6, port),
{
    if ipv6 {
        SocketAddr::V6 { ip: 0, port, flowinfo: 0, scope_id: 0 }
    } else {
        SocketAddr::V4 { ip: 0, port }
    }
}

/// Why a text has no address. `E` is the error of looking it up.
#[derive(Debug)]
pub enum AddressError<E> {
    /// Looking the text up failed.
    Lookup(E),
    /// Looking the text up found nothing.
    Invalid,
}

/// The first address that looking up a text has found.
pub open spec fn first_found<E>(found: Result<Vec<SocketAddr>, E>) -> Result<
    SocketAddr,
    AddressError<E>,
> {
    match found {
        Ok(addrs) => if addrs@.len() > 0 {
            Ok(addrs@[0])
        } else {
            Err(AddressError::Invalid)
        },
        Err(e) => Err(AddressError::Lookup(e)),
    }
}

/// The first address that looking up a text has found.
pub fn resolve_addr<E>(found: Result<Vec<SocketAddr>, E>) -> (r: Result<
    SocketAddr,
    AddressError<E>,
>)
    ensures
        r == first_found(found),
{
    match found {
        Ok(addrs) => if addrs.len() > 0 {
            Ok(addrs[0])
        } else {
            Err(AddressError::Invalid)
        },
        Err(e) => Err(AddressError::Lookup(e)),
    }
}

// ---- laws ----

/// Another port leaves the rest of an address alone; moving to another socket's port keeps the IP
/// address and drops what belongs to one link.
pub proof fn law_only_the_port_changes(addr: SocketAddr, port: u16)
    ensures
        addr.renumbered(port).port_number() == port,
        addr.renumbered(port).renumbered(addr.port_number()) == addr,
        addr.at_port(port).port_number() == port,
        addr.renumbered(port).ipv6() == addr.ipv6(),
        addr.at_port(port).ipv6() == addr.ipv6(),
        addr matches SocketAddr::V4 { ip, .. } ==> addr.at_port(port) == (SocketAddr::V4 {
            ip,
            port,
        }),
        addr matches SocketAddr::V6 { ip, .. } ==> addr.at_port(port) == (SocketAddr::V6 {
            ip,
            port,
            flowinfo: 0,
            scope_id: 0,
        }),
{
}

/// The address for every local address is zero, of the family asked for, on the port asked for.
pub proof fn law_wildcard_is_zero(ipv6: bool, port: u16)
    ensures
        wildcard_addr(ipv6, port).ipv6() == ipv6,
        wildcard_addr(ipv6, port).port_number() == port,
        wildcard_addr(ipv6, port) matches SocketAddr::V4 { ip, .. } ==> ip == 0,
        wildcard_addr(ipv6, port) matches SocketAddr::V6 { ip, flowinfo, scope_id, .. } ==> ip == 0
            && flowinfo == 0 && scope_id == 0,
{
}

/// The first of the addresses counts, whatever comes behind it.
pub proof fn law_first_address_counts<E>(found: Result<Vec<SocketAddr>, E>)
    ensures
        first_found(found) is Ok <==> found is Ok && found->Ok_0@.len() > 0,
        first_found(found) is Ok ==> first_found(found)->Ok_0 == found->Ok_0@[0],
        found is Err ==> first_found(found)->Err_0 == AddressError::Lookup(found->Err_0),
        found is Ok && found->Ok_0@.len() == 0 ==> first_found(found)->Err_0 is Invalid,
{
}

} // verus!
