//! Addresses and endpoints, and the wire format of an IPv4 socket address.

use crate::error::SysError;
use vstd::prelude::*;

verus! {

/// Address family of UNIX-domain sockets; recognised, not served.
pub const AF_UNIX: usize = 1;

/// Address family of IPv4 sockets.
pub const AF_INET: usize = 2;

/// Size in bytes of a socket address on the wire: family (2), port (2),
/// address (4), padding (8).
pub const SOCKADDR_IN_SIZE: usize = 16;

/// A four-octet IPv4 address, most significant octet first.
#[derive(Clone, Copy, Debug, PartialEq, Eq)]
pub struct Ipv4Address(pub [u8; 4]);

/// An internetworking address.
#[derive(Clone, Copy, Debug, PartialEq, Eq)]
pub enum IpAddress {
    /// No address assigned.
    Unspecified,
    /// An IPv4 address.
    Ipv4(Ipv4Address),
}

/// An address and a port. Port 0 means "not assigned".
#[derive(Clone, Copy, Debug, PartialEq, Eq)]
pub struct IpEndpoint {
    pub addr: IpAddress,
    pub port: u16,
}

impl Ipv4Address {
    /// Whether the address lies in the "unspecified" range `0.0.0.0/8`.
    pub open spec fn spec_is_unspecified(&self) -> bool {
        self.0[0] == 0
    }

    /// Whether the address lies in the "unspecified" range `0.0.0.0/8`.
    #[verifier::when_used_as_spec(spec_is_unspecified)]
    pub fn is_unspecified(&self) -> (r: bool)
        ensures
            r == self.spec_is_unspecified(),
    {
        self.0[0] == 0
    }
}

impl IpAddress {
    /// Whether no usable address is held.
    pub open spec fn spec_is_unspecified(&self) -> bool {
        match self {
            IpAddress::Unspecified => true,
            IpAddress::Ipv4(a) => a.spec_is_unspecified(),
        }
    }

    /// Whether no usable address is held.
    #[verifier::when_used_as_spec(spec_is_unspecified)]
    pub fn is_unspecified(&self) -> (r: bool)
        ensures
            r == self.spec_is_unspecified(),
    {
        match self {
            IpAddress::Unspecified => true,
            IpAddress::Ipv4(a) => a.is_unspecified(),
        }
    }
}

impl IpEndpoint {
    /// The endpoint of a socket that was never bound or connected.
    pub open spec fn unassigned() -> IpEndpoint {
        IpEndpoint { addr: IpAddress::Unspecified, port: 0 }
    }

    /// Whether both the address and the port are assigned.
    pub open spec fn spec_is_specified(&self) -> bool {
        !self.addr.spec_is_unspecified() && self.port != 0
    }

    /// Whether both the address and the port are assigned.
    #[verifier::when_used_as_spec(spec_is_specified)]
    pub fn is_specified(&self) -> (r: bool)
        ensures
            r == self.spec_is_specified(),
    {
        !self.addr.is_unspecified() && self.port != 0
    }
}

/// An IPv4 socket address as user programs pass it: the family, then the port
/// and the address as they stand on the wire (most significant octet first),
/// then padding.
#[derive(Clone, Copy, Debug, PartialEq, Eq)]
pub struct SockaddrIn {
    pub sin_family: u16,
    pub sin_port: [u8; 2],
    pub sin_addr: [u8; 4],
    pub sin_zero: [u8; 8],
}

/// The port that two wire octets encode.
pub open spec fn port_from_wire(b: [u8; 2]) -> u16 {
    (b[0] * 256 + b[1]) as u16
}

impl SockaddrIn {
    /// The wire form of `endpoint`, defined for IPv4 addresses.
    pub open spec fn spec_from(endpoint: IpEndpoint) -> SockaddrIn
        recommends
            endpoint.addr is Ipv4,
    {
        SockaddrIn {
            sin_family: AF_INET as u16,
            sin_port: [(endpoint.port / 256) as u8, (endpoint.port % 256) as u8],
            sin_addr: endpoint.addr->Ipv4_0.0,
            sin_zero: [0u8, 0u8, 0u8, 0u8, 0u8, 0u8, 0u8, 0u8],
        }
    }

    /// The endpoint that this address names, or the error for a family that
    /// is not IPv4.
    pub open spec fn spec_to_endpoint(self) -> Result<IpEndpoint, SysError> {
        if self.sin_family == AF_INET as u16 {
            Ok(
                IpEndpoint {
                    addr: IpAddress::Ipv4(Ipv4Address(self.sin_addr)),
                    port: port_from_wire(self.sin_port),
                },
            )
        } else {
            Err(SysError::EINVAL)
        }
    }

    /// Encodes an endpoint with an IPv4 address.
    pub fn from(endpoint: IpEndpoint) -> (sa: SockaddrIn)
        requires
            endpoint.addr is Ipv4,
        ensures
            sa == Self::spec_from(endpoint),
    {
        match endpoint.addr {
            IpAddress::Ipv4(ipv4) => SockaddrIn {
                sin_family: 2,
                sin_port: [(endpoint.port / 256) as u8, (endpoint.port % 256) as u8],
                sin_addr: ipv4.0,
                sin_zero: [0u8, 0u8, 0u8, 0u8, 0u8, 0u8, 0u8, 0u8],
            },
            IpAddress::Unspecified => SockaddrIn {
                sin_family: 2,
                sin_port: [0u8, 0u8],
                sin_addr: [0u8, 0u8, 0u8, 0u8],
                sin_zero: [0u8, 0u8, 0u8, 0u8, 0u8, 0u8, 0u8, 0u8],
            },
        }
    }

    /// Decodes the endpoint. Only the IPv4 family is accepted; a UNIX-domain
    /// address is recognised and rejected like any other family.
    pub fn to_endpoint(&self) -> (r: Result<IpEndpoint, SysError>)
        ensures
            r == self.spec_to_endpoint(),
    {
        if self.sin_family == 2 {
            let hi: u16 = self.sin_port[0] as u16;
            let lo: u16 = self.sin_port[1] as u16;
            let port: u16 = hi * 256 + lo;
            Ok(IpEndpoint { addr: IpAddress::Ipv4(Ipv4Address(self.sin_addr)), port })
        } else {
            Err(SysError::EINVAL)
        }
    }
}

/// Round trip: an endpoint with an IPv4 address that is encoded and decoded
/// again comes back unchanged, whatever its address and port.
pub proof fn lemma_sockaddr_round_trip(endpoint: IpEndpoint)
    requires
        endpoint.addr is Ipv4,
    ensures
        SockaddrIn::spec_from(endpoint).spec_to_endpoint() == Ok::<IpEndpoint, SysError>(endpoint),
{
    let sa = SockaddrIn::spec_from(endpoint);
    let p = endpoint.port;
    assert(sa.sin_port[0] == (p / 256) as u8);
    assert(sa.sin_port[1] == (p % 256) as u8);
    assert(port_from_wire(sa.sin_port) == p);
}

} // verus!
