use rcore_socket::addr::{IpAddress, IpEndpoint, Ipv4Address, SockaddrIn};
use rcore_socket::error::SysError;

fn wire(family: u16, port: [u8; 2], addr: [u8; 4]) -> SockaddrIn {
    SockaddrIn { sin_family: family, sin_port: port, sin_addr: addr, sin_zero: [0; 8] }
}

#[test]
fn decodes_port_and_address_most_significant_first() {
    let sa = wire(2, [0x1f, 0x90], [192, 168, 1, 7]);
    assert_eq!(
        sa.to_endpoint(),
        Ok(IpEndpoint { addr: IpAddress::Ipv4(Ipv4Address([192, 168, 1, 7])), port: 8080 })
    );
}

#[test]
fn encodes_port_and_address_most_significant_first() {
    let ep = IpEndpoint { addr: IpAddress::Ipv4(Ipv4Address([10, 0, 2, 15])), port: 49153 };
    let sa = SockaddrIn::from(ep);
    assert_eq!(sa.sin_family, 2);
    assert_eq!(sa.sin_port, [0xc0, 0x01]);
    assert_eq!(sa.sin_addr, [10, 0, 2, 15]);
    assert_eq!(sa.sin_zero, [0; 8]);
}

#[test]
fn unix_family_is_rejected() {
    assert_eq!(wire(1, [0, 80], [127, 0, 0, 1]).to_endpoint(), Err(SysError::EINVAL));
}

#[test]
fn unknown_family_is_rejected() {
    assert_eq!(wire(10, [0, 80], [127, 0, 0, 1]).to_endpoint(), Err(SysError::EINVAL));
    assert_eq!(wire(0, [0, 80], [127, 0, 0, 1]).to_endpoint(), Err(SysError::EINVAL));
}

#[test]
fn round_trip_keeps_every_port() {
    let addr = IpAddress::Ipv4(Ipv4Address([203, 0, 113, 254]));
    let mut port: u32 = 0;
    while port <= 65535 {
        let ep = IpEndpoint { addr, port: port as u16 };
        assert_eq!(SockaddrIn::from(ep).to_endpoint(), Ok(ep));
        port += 1;
    }
}

#[test]
fn round_trip_keeps_addresses() {
    let samples: [[u8; 4]; 6] = [
        [0, 0, 0, 0],
        [127, 0, 0, 1],
        [255, 255, 255, 255],
        [1, 2, 3, 4],
        [224, 0, 0, 1],
        [169, 254, 0, 255],
    ];
    for octets in samples.iter() {
        let ep = IpEndpoint { addr: IpAddress::Ipv4(Ipv4Address(*octets)), port: 1 };
        assert_eq!(SockaddrIn::from(ep).to_endpoint(), Ok(ep));
    }
}

#[test]
fn specified_needs_address_and_port() {
    let v4 = |a: [u8; 4], port: u16| IpEndpoint { addr: IpAddress::Ipv4(Ipv4Address(a)), port };
    assert!(v4([10, 0, 0, 1], 80).is_specified());
    assert!(!v4([10, 0, 0, 1], 0).is_specified());
    assert!(!v4([0, 0, 0, 0], 80).is_specified());
    assert!(!v4([0, 1, 2, 3], 80).is_specified());
    assert!(!IpEndpoint { addr: IpAddress::Unspecified, port: 80 }.is_specified());
    assert!(IpAddress::Unspecified.is_unspecified());
    assert!(!Ipv4Address([1, 0, 0, 0]).is_unspecified());
}
