use slv_rust::net_addr::{IpAddress, SockAddr};
use slv_rust::socks5::{
    auth_negotiation_request, credentials_request, interpret_associate_reply, interpret_auth_reply,
    interpret_credentials_reply, relay_address, relay_address_bytes, udp_associate_request, AuthNext,
    Socks5AddressType, Socks5Command, Socks5ReplyCode, Socks5UdpClient, Socks5UdpHeader,
};
use slv_rust::transparent::TransparentSocks5Proxy;
use slv_rust::error::NetworkError;

fn proxy() -> TransparentSocks5Proxy {
    TransparentSocks5Proxy::new(SockAddr::v4(127, 0, 0, 1, 9061))
}

#[test]
fn test_socks5_header_wrapping() {
    let proxy = proxy();
    let test_data = b"Hello, world!";
    let dest_addr = SockAddr::v4(192, 168, 1, 1, 8080);

    let wrapped = proxy.wrap_with_socks5_header(test_data, dest_addr).unwrap();

    assert_eq!(wrapped[0], 0);
    assert_eq!(wrapped[1], 0);
    assert_eq!(wrapped[2], 0);
    assert_eq!(wrapped[3], 1);
    assert_eq!(&wrapped[4..8], &[192, 168, 1, 1]);
    assert_eq!(u16::from_be_bytes([wrapped[8], wrapped[9]]), 8080);
    assert_eq!(&wrapped[10..], test_data);
}

#[test]
fn test_socks5_header_unwrapping() {
    let proxy = proxy();

    let mut packet = vec![0, 0, 0, 1, 192, 168, 1, 1, 0x1f, 0x90];
    packet.extend_from_slice(b"Hello, world!");

    let (payload, source_addr) = proxy.unwrap_socks5_header(&packet).unwrap();

    assert_eq!(payload.as_slice(), b"Hello, world!");
    assert_eq!(source_addr.ip, IpAddress::V4([192, 168, 1, 1]));
    assert_eq!(source_addr.port(), 8080);
}

#[test]
fn wrapping_then_unwrapping_gives_back_data_and_address_v6() {
    let proxy = proxy();
    let dest = SockAddr { ip: IpAddress::V6([0x20, 0x01, 0x0d, 0xb8, 0, 0, 0, 0, 0, 0, 0, 0, 0, 0, 0, 1]), port: 443 };
    let wrapped = proxy.wrap_with_socks5_header(&[9, 8, 7], dest).unwrap();
    assert_eq!(wrapped.len(), 22 + 3);
    assert_eq!(wrapped[3], 4);
    let (payload, from) = proxy.unwrap_socks5_header(&wrapped).unwrap();
    assert_eq!(payload, vec![9, 8, 7]);
    assert_eq!(from, dest);
}

fn decode_reason(e: NetworkError) -> String {
    match e {
        NetworkError::PacketDecode { reason } => reason,
        other => panic!("unexpected error {:?}", other),
    }
}

fn transport_reason(e: NetworkError) -> String {
    match e {
        NetworkError::Transport { reason } => reason,
        other => panic!("unexpected error {:?}", other),
    }
}

#[test]
fn unwrapping_rejects_short_and_unknown_packets() {
    let proxy = proxy();
    assert_eq!(decode_reason(proxy.unwrap_socks5_header(&[0; 9]).unwrap_err()), "SOCKS5 UDP packet too short");
    let mut v6 = vec![0, 0, 0, 4];
    v6.extend_from_slice(&[0; 10]);
    assert_eq!(decode_reason(proxy.unwrap_socks5_header(&v6).unwrap_err()), "Invalid IPv6 address in SOCKS5 packet");
    let domain = vec![0, 0, 0, 3, 1, 2, 3, 4, 5, 6];
    assert_eq!(
        decode_reason(proxy.unwrap_socks5_header(&domain).unwrap_err()),
        "Unsupported address type in SOCKS5 packet: 3"
    );
}

#[test]
fn udp_header_roundtrip_and_errors() {
    let h = Socks5UdpHeader::new(SockAddr::v4(10, 0, 0, 2, 5000));
    let mut bytes = h.to_bytes();
    assert_eq!(bytes, vec![0, 0, 0, 1, 10, 0, 0, 2, 0x13, 0x88]);
    bytes.extend_from_slice(&[1, 2, 3]);
    let (back, len) = Socks5UdpHeader::from_bytes(&bytes).unwrap();
    assert_eq!(len, 10);
    assert_eq!(back.socket_addr(), SockAddr::v4(10, 0, 0, 2, 5000));
    assert_eq!(back.fragment, 0);
    assert_eq!(transport_reason(Socks5UdpHeader::from_bytes(&[0; 5]).unwrap_err()), "SOCKS5 UDP header too short");
    assert_eq!(transport_reason(Socks5UdpHeader::from_bytes(&[0, 0, 0, 1, 1, 2]).unwrap_err()), "SOCKS5 IPv4 header too short");
    assert_eq!(transport_reason(Socks5UdpHeader::from_bytes(&[0, 0, 0, 4, 1, 2, 3, 4, 5, 6]).unwrap_err()), "SOCKS5 IPv6 header too short");
    assert_eq!(transport_reason(Socks5UdpHeader::from_bytes(&[0, 0, 0, 3, 1, 2]).unwrap_err()), "SOCKS5 domain names not supported");
    assert_eq!(transport_reason(Socks5UdpHeader::from_bytes(&[0, 0, 0, 9, 1, 2]).unwrap_err()), "Invalid SOCKS5 address type");
}

#[test]
fn negotiation_messages() {
    assert_eq!(auth_negotiation_request(false), vec![5, 1, 0]);
    assert_eq!(auth_negotiation_request(true), vec![5, 2, 0, 2]);
    assert_eq!(interpret_auth_reply(&[5, 0]).unwrap(), AuthNext::Done);
    assert_eq!(interpret_auth_reply(&[5, 2]).unwrap(), AuthNext::SendCredentials);
    assert_eq!(transport_reason(interpret_auth_reply(&[4, 0]).unwrap_err()), "Invalid SOCKS5 version in auth response");
    assert_eq!(transport_reason(interpret_auth_reply(&[5, 0xFF]).unwrap_err()), "SOCKS5 proxy rejected all authentication methods");
    assert_eq!(transport_reason(interpret_auth_reply(&[5, 1]).unwrap_err()), "SOCKS5 proxy selected unsupported auth method: 1");
    let req = credentials_request(&Some("bob".to_string()), &Some("pw".to_string())).unwrap();
    assert_eq!(req, vec![1, 3, b'b', b'o', b'b', 2, b'p', b'w']);
    assert_eq!(transport_reason(credentials_request(&None, &Some("pw".to_string())).unwrap_err()), "Username required for SOCKS5 authentication");
    assert_eq!(transport_reason(credentials_request(&Some("u".to_string()), &None).unwrap_err()), "Password required for SOCKS5 authentication");
    assert!(interpret_credentials_reply(&[1, 0]).is_ok());
    assert_eq!(transport_reason(interpret_credentials_reply(&[1, 1]).unwrap_err()), "SOCKS5 username/password authentication failed");
    assert_eq!(transport_reason(interpret_credentials_reply(&[2, 0]).unwrap_err()), "Invalid username/password auth version");
}

#[test]
fn udp_association_messages() {
    assert_eq!(udp_associate_request(), vec![5, 3, 0, 1, 127, 0, 0, 1, 0, 0]);
    assert_eq!(interpret_associate_reply(&[5, 0, 0, 1]).unwrap(), Socks5AddressType::Ipv4);
    assert_eq!(interpret_associate_reply(&[5, 0, 0, 4]).unwrap(), Socks5AddressType::Ipv6);
    assert_eq!(transport_reason(interpret_associate_reply(&[5, 7, 0, 1]).unwrap_err()), "SOCKS5 UDP associate failed with code: 7");
    assert_eq!(transport_reason(interpret_associate_reply(&[4, 0, 0, 1]).unwrap_err()), "Invalid SOCKS5 version in UDP associate response");
    assert_eq!(transport_reason(interpret_associate_reply(&[5, 0, 0, 3]).unwrap_err()), "Unsupported address type in SOCKS5 UDP associate response");
    assert_eq!(relay_address_bytes(Socks5AddressType::Ipv4), 6);
    assert_eq!(relay_address_bytes(Socks5AddressType::Ipv6), 18);
    assert_eq!(relay_address(Socks5AddressType::Ipv4, &[127, 0, 0, 1, 0x23, 0x45]), SockAddr::v4(127, 0, 0, 1, 0x2345));
    assert_eq!(Socks5Command::UdpAssociate.code(), 3);
    assert_eq!(Socks5ReplyCode::AddressTypeNotSupported.code(), 8);
    let client = Socks5UdpClient::new(SockAddr::v4(127, 0, 0, 1, 9061), Some("u".to_string()), None);
    assert!(!client.has_credentials());
    assert_eq!(client.auth_request(), vec![5, 1, 0]);
}
