//! SOCKS5 (RFC 1928) message formats: the UDP request header, the method
//! negotiation, username/password authentication (RFC 1929) and the UDP
//! association exchange, and the transparent wrapping of datagrams.

use vstd::prelude::*;
use crate::bytes_util::{be16, u16_be, read_be16, push_be16, push_slice, lemma_u16_be_roundtrip};
use crate::error::{NetworkError, NetworkErrorView, transport_error, transport_error_num};
use crate::net_addr::{IpAddress, IpView, SockAddr, SockAddrView, ip_octets, ip_view_wf};
use crate::region_handshake::bytes16_at;
use crate::text::dec;

verus! {

/// SOCKS5 command codes.
#[derive(Debug, Clone, Copy, PartialEq, Eq)]
pub enum Socks5Command {
    Connect,
    Bind,
    UdpAssociate,
}

/// SOCKS5 address types.
#[derive(Debug, Clone, Copy, PartialEq, Eq)]
pub enum Socks5AddressType {
    Ipv4,
    DomainName,
    Ipv6,
}

/// SOCKS5 authentication methods.
#[derive(Debug, Clone, Copy, PartialEq, Eq)]
pub enum Socks5AuthMethod {
    NoAuth,
    Gssapi,
    UsernamePassword,
    NoAcceptableMethods,
}

/// SOCKS5 reply codes.
#[derive(Debug, Clone, Copy, PartialEq, Eq)]
pub enum Socks5ReplyCode {
    Success,
    GeneralFailure,
    ConnectionNotAllowed,
    NetworkUnreachable,
    HostUnreachable,
    ConnectionRefused,
    TtlExpired,
    CommandNotSupported,
    AddressTypeNotSupported,
}

/// Wire value of a command.
pub open spec fn command_code(c: Socks5Command) -> u8 {
    match c {
        Socks5Command::Connect => 0x01,
        Socks5Command::Bind => 0x02,
        Socks5Command::UdpAssociate => 0x03,
    }
}

/// Wire value of an address type.
pub open spec fn address_type_code(t: Socks5AddressType) -> u8 {
    match t {
        Socks5AddressType::Ipv4 => 0x01,
        Socks5AddressType::DomainName => 0x03,
        Socks5AddressType::Ipv6 => 0x04,
    }
}

/// Wire value of an authentication method.
pub open spec fn auth_method_code(m: Socks5AuthMethod) -> u8 {
    match m {
        Socks5AuthMethod::NoAuth => 0x00,
        Socks5AuthMethod::Gssapi => 0x01,
        Socks5AuthMethod::UsernamePassword => 0x02,
        Socks5AuthMethod::NoAcceptableMethods => 0xFF,
    }
}

/// Wire value of a reply code.
pub open spec fn reply_code_value(r: Socks5ReplyCode) -> u8 {
    match r {
        Socks5ReplyCode::Success => 0x00,
        Socks5ReplyCode::GeneralFailure => 0x01,
        Socks5ReplyCode::ConnectionNotAllowed => 0x02,
        Socks5ReplyCode::NetworkUnreachable => 0x03,
        Socks5ReplyCode::HostUnreachable => 0x04,
        Socks5ReplyCode::ConnectionRefused => 0x05,
        Socks5ReplyCode::TtlExpired => 0x06,
        Socks5ReplyCode::CommandNotSupported => 0x07,
        Socks5ReplyCode::AddressTypeNotSupported => 0x08,
    }
}

impl Socks5Command {
    /// The command's wire value.
    pub fn code(&self) -> (b: u8)
        ensures
            b == command_code(*self),
    {
        match self {
            Socks5Command::Connect => 0x01,
            Socks5Command::Bind => 0x02,
            Socks5Command::UdpAssociate => 0x03,
        }
    }
}

impl Socks5AddressType {
    /// The address type's wire value.
    pub fn code(&self) -> (b: u8)
        ensures
            b == address_type_code(*self),
    {
        match self {
            Socks5AddressType::Ipv4 => 0x01,
            Socks5AddressType::DomainName => 0x03,
            Socks5AddressType::Ipv6 => 0x04,
        }
    }
}

impl Socks5AuthMethod {
    /// The method's wire value.
    pub fn code(&self) -> (b: u8)
        ensures
            b == auth_method_code(*self),
    {
        match self {
            Socks5AuthMethod::NoAuth => 0x00,
            Socks5AuthMethod::Gssapi => 0x01,
            Socks5AuthMethod::UsernamePassword => 0x02,
            Socks5AuthMethod::NoAcceptableMethods => 0xFF,
        }
    }
}

impl Socks5ReplyCode {
    /// The reply code's wire value.
    pub fn code(&self) -> (b: u8)
        ensures
            b == reply_code_value(*self),
    {
        match self {
            Socks5ReplyCode::Success => 0x00,
            Socks5ReplyCode::GeneralFailure => 0x01,
            Socks5ReplyCode::ConnectionNotAllowed => 0x02,
            Socks5ReplyCode::NetworkUnreachable => 0x03,
            Socks5ReplyCode::HostUnreachable => 0x04,
            Socks5ReplyCode::ConnectionRefused => 0x05,
            Socks5ReplyCode::TtlExpired => 0x06,
            Socks5ReplyCode::CommandNotSupported => 0x07,
            Socks5ReplyCode::AddressTypeNotSupported => 0x08,
        }
    }
}

/// An error result's model, an `Ok` value kept as it is.
pub open spec fn err_view<T>(r: Result<T, NetworkError>) -> Result<T, NetworkErrorView> {
    match r {
        Ok(v) => Ok(v),
        Err(e) => Err(e@),
    }
}

/// The header that precedes every datagram relayed by a SOCKS5 proxy.
#[derive(Debug, Clone, Copy)]
pub struct Socks5UdpHeader {
    pub fragment: u8,
    pub address_type: Socks5AddressType,
    pub address: IpAddress,
    pub port: u16,
}

/// Mathematical model of a [`Socks5UdpHeader`].
pub struct Socks5UdpHeaderView {
    pub fragment: u8,
    pub address_type: Socks5AddressType,
    pub address: IpView,
    pub port: u16,
}

impl View for Socks5UdpHeader {
    type V = Socks5UdpHeaderView;

    open spec fn view(&self) -> Socks5UdpHeaderView {
        Socks5UdpHeaderView {
            fragment: self.fragment,
            address_type: self.address_type,
            address: self.address@,
            port: self.port,
        }
    }
}

/// The address type that names an address's family.
pub open spec fn ip_address_type(ip: IpView) -> Socks5AddressType {
    match ip {
        IpView::V4(_) => Socks5AddressType::Ipv4,
        IpView::V6(_) => Socks5AddressType::Ipv6,
    }
}

/// The unfragmented header for a datagram to or from `a`.
pub open spec fn header_for(a: SockAddrView) -> Socks5UdpHeaderView {
    Socks5UdpHeaderView {
        fragment: 0,
        address_type: ip_address_type(a.ip),
        address: a.ip,
        port: a.port,
    }
}

/// Wire form of a header: two reserved zero bytes, the fragment number, the
/// address type, the address octets and the big-endian port.
pub open spec fn udp_header_bytes(h: Socks5UdpHeaderView) -> Seq<u8> {
    seq![0u8, 0u8, h.fragment, address_type_code(h.address_type)] + ip_octets(h.address) + be16(
        h.port,
    )
}

/// What [`Socks5UdpHeader::from_bytes`] reads from `d`: the header and its length.
pub open spec fn header_parse(d: Seq<u8>) -> Result<(Socks5UdpHeaderView, nat), NetworkErrorView> {
    if d.len() < 6 {
        Err(NetworkErrorView::Transport { reason: "SOCKS5 UDP header too short"@ })
    } else if d[3] == 0x01 {
        if d.len() < 10 {
            Err(NetworkErrorView::Transport { reason: "SOCKS5 IPv4 header too short"@ })
        } else {
            Ok(
                (
                    Socks5UdpHeaderView {
                        fragment: d[2],
                        address_type: Socks5AddressType::Ipv4,
                        address: IpView::V4(d.subrange(4, 8)),
                        port: u16_be(d[8], d[9]),
                    },
                    10,
                ),
            )
        }
    } else if d[3] == 0x04 {
        if d.len() < 22 {
            Err(NetworkErrorView::Transport { reason: "SOCKS5 IPv6 header too short"@ })
        } else {
            Ok(
                (
                    Socks5UdpHeaderView {
                        fragment: d[2],
                        address_type: Socks5AddressType::Ipv6,
                        address: IpView::V6(d.subrange(4, 20)),
                        port: u16_be(d[20], d[21]),
                    },
                    22,
                ),
            )
        }
    } else if d[3] == 0x03 {
        Err(NetworkErrorView::Transport { reason: "SOCKS5 domain names not supported"@ })
    } else {
        Err(NetworkErrorView::Transport { reason: "Invalid SOCKS5 address type"@ })
    }
}

/// Model of the result of [`Socks5UdpHeader::from_bytes`].
pub open spec fn header_result_view(r: Result<(Socks5UdpHeader, usize), NetworkError>) -> Result<
    (Socks5UdpHeaderView, nat),
    NetworkErrorView,
> {
    match r {
        Ok((h, n)) => Ok((h@, n as nat)),
        Err(e) => Err(e@),
    }
}

impl Socks5UdpHeader {
    /// The unfragmented header for a datagram to `socket_addr`.
    pub fn new(socket_addr: SockAddr) -> (h: Self)
        ensures
            h@ == header_for(socket_addr@),
    {
        let address_type = match socket_addr.ip {
            IpAddress::V4(_) => Socks5AddressType::Ipv4,
            IpAddress::V6(_) => Socks5AddressType::Ipv6,
        };
        Socks5UdpHeader { fragment: 0, address_type, address: socket_addr.ip, port: socket_addr.port }
    }

    /// The header's wire form.
    pub fn to_bytes(&self) -> (buf: Vec<u8>)
        ensures
            buf@ == udp_header_bytes(self@),
    {
        let mut buf: Vec<u8> = Vec::new();
        buf.push(0x00);
        buf.push(0x00);
        buf.push(self.fragment);
        buf.push(self.address_type.code());
        match &self.address {
            IpAddress::V4(o) => push_slice(&mut buf, o.as_slice()),
            IpAddress::V6(o) => push_slice(&mut buf, o.as_slice()),
        }
        push_be16(&mut buf, self.port);
        buf
    }

    /// Reads a header from the front of `data`, giving it and its length.
    pub fn from_bytes(data: &[u8]) -> (r: Result<(Self, usize), NetworkError>)
        ensures
            header_result_view(r) == header_parse(data@),
    {
        if data.len() < 6 {
            return Err(transport_error("SOCKS5 UDP header too short"));
        }
        let fragment = data[2];
        let atyp = data[3];
        if atyp == 0x01 {
            if data.len() < 10 {
                return Err(transport_error("SOCKS5 IPv4 header too short"));
            }
            let ip: [u8; 4] = [data[4], data[5], data[6], data[7]];
            assert(ip@ =~= data@.subrange(4, 8));
            let port = read_be16(data, 8);
            let header = Socks5UdpHeader {
                fragment,
                address_type: Socks5AddressType::Ipv4,
                address: IpAddress::V4(ip),
                port,
            };
            Ok((header, 10))
        } else if atyp == 0x04 {
            if data.len() < 22 {
                return Err(transport_error("SOCKS5 IPv6 header too short"));
            }
            let ip = bytes16_at(data, 4);
            let port = read_be16(data, 20);
            let header = Socks5UdpHeader {
                fragment,
                address_type: Socks5AddressType::Ipv6,
                address: IpAddress::V6(ip),
                port,
            };
            Ok((header, 22))
        } else if atyp == 0x03 {
            Err(transport_error("SOCKS5 domain names not supported"))
        } else {
            Err(transport_error("Invalid SOCKS5 address type"))
        }
    }

    /// The socket address the header names.
    pub fn socket_addr(&self) -> (a: SockAddr)
        ensures
            a@.ip == self@.address,
            a@.port == self.port,
    {
        SockAddr { ip: self.address, port: self.port }
    }
}

/// Reading back the wire form of a header whose address type matches its
/// address gives the header and the length of its wire form, whatever follows.
pub proof fn lemma_udp_header_roundtrip(h: Socks5UdpHeaderView, rest: Seq<u8>)
    requires
        ip_view_wf(h.address),
        h.address_type == ip_address_type(h.address),
    ensures
        header_parse(udp_header_bytes(h) + rest) == Ok::<(Socks5UdpHeaderView, nat), NetworkErrorView>(
            (h, udp_header_bytes(h).len()),
        ),
{
    let d = udp_header_bytes(h) + rest;
    lemma_u16_be_roundtrip(h.port);
    match h.address {
        IpView::V4(o) => {
            assert(d.subrange(4, 8) =~= o);
            assert(d[8] == (h.port >> 8u16) as u8 && d[9] == h.port as u8);
        },
        IpView::V6(o) => {
            assert(d.subrange(4, 20) =~= o);
            assert(d[20] == (h.port >> 8u16) as u8 && d[21] == h.port as u8);
        },
    }
}

/// What to do after the proxy has chosen an authentication method.
#[derive(Debug, Clone, Copy, PartialEq, Eq)]
pub enum AuthNext {
    /// No authentication is required.
    Done,
    /// Username/password authentication follows.
    SendCredentials,
}

/// The method-selection request: version 5, then the methods offered
/// (no authentication, and username/password when credentials are set).
pub open spec fn auth_request_spec(has_credentials: bool) -> Seq<u8> {
    if has_credentials {
        seq![0x05u8, 2u8, 0x00u8, 0x02u8]
    } else {
        seq![0x05u8, 1u8, 0x00u8]
    }
}

/// How the method-selection reply `version`, `method` is answered.
pub open spec fn auth_reply_spec(version: u8, method: u8) -> Result<AuthNext, NetworkErrorView> {
    if version != 0x05 {
        Err(NetworkErrorView::Transport { reason: "Invalid SOCKS5 version in auth response"@ })
    } else if method == 0x00 {
        Ok(AuthNext::Done)
    } else if method == 0x02 {
        Ok(AuthNext::SendCredentials)
    } else if method == 0xFF {
        Err(
            NetworkErrorView::Transport {
                reason: "SOCKS5 proxy rejected all authentication methods"@,
            },
        )
    } else {
        Err(
            NetworkErrorView::Transport {
                reason: "SOCKS5 proxy selected unsupported auth method: "@ + dec(method as nat),
            },
        )
    }
}

/// The username/password request: version 1, then each field preceded by
/// its length taken modulo 256.
pub open spec fn credentials_request_spec(user: Seq<u8>, pass: Seq<u8>) -> Seq<u8> {
    seq![0x01u8, (user.len() % 256) as u8] + user + seq![(pass.len() % 256) as u8] + pass
}

/// How the username/password reply `version`, `status` is answered.
pub open spec fn credentials_reply_spec(version: u8, status: u8) -> Result<(), NetworkErrorView> {
    if version != 0x01 {
        Err(NetworkErrorView::Transport { reason: "Invalid username/password auth version"@ })
    } else if status != 0x00 {
        Err(
            NetworkErrorView::Transport {
                reason: "SOCKS5 username/password authentication failed"@,
            },
        )
    } else {
        Ok(())
    }
}

/// The UDP ASSOCIATE request for a client at 127.0.0.1, port 0.
pub open spec fn udp_associate_request_spec() -> Seq<u8> {
    seq![0x05u8, 0x03u8, 0x00u8, 0x01u8, 127u8, 0u8, 0u8, 1u8, 0u8, 0u8]
}

/// How the first four bytes of the UDP ASSOCIATE reply are answered: the
/// type of the relay address that follows.
pub open spec fn associate_reply_spec(head: Seq<u8>) -> Result<Socks5AddressType, NetworkErrorView> {
    if head[0] != 0x05 {
        Err(
            NetworkErrorView::Transport {
                reason: "Invalid SOCKS5 version in UDP associate response"@,
            },
        )
    } else if head[1] != 0x00 {
        Err(
            NetworkErrorView::Transport {
                reason: "SOCKS5 UDP associate failed with code: "@ + dec(head[1] as nat),
            },
        )
    } else if head[3] == 0x01 {
        Ok(Socks5AddressType::Ipv4)
    } else if head[3] == 0x04 {
        Ok(Socks5AddressType::Ipv6)
    } else {
        Err(
            NetworkErrorView::Transport {
                reason: "Unsupported address type in SOCKS5 UDP associate response"@,
            },
        )
    }
}

/// Number of address and port bytes that follow the reply head for a relay
/// address of type `t`.
pub open spec fn relay_address_len(t: Socks5AddressType) -> nat {
    if t == Socks5AddressType::Ipv6 {
        18
    } else {
        6
    }
}

/// The relay address read from the bytes after the reply head.
pub open spec fn relay_address_spec(t: Socks5AddressType, b: Seq<u8>) -> SockAddrView {
    if t == Socks5AddressType::Ipv6 {
        SockAddrView { ip: IpView::V6(b.subrange(0, 16)), port: u16_be(b[16], b[17]) }
    } else {
        SockAddrView { ip: IpView::V4(b.subrange(0, 4)), port: u16_be(b[4], b[5]) }
    }
}

/// The method-selection request.
pub fn auth_negotiation_request(has_credentials: bool) -> (r: Vec<u8>)
    ensures
        r@ == auth_request_spec(has_credentials),
{
    let mut methods: Vec<u8> = Vec::new();
    methods.push(Socks5AuthMethod::NoAuth.code());
    if has_credentials {
        methods.push(Socks5AuthMethod::UsernamePassword.code());
    }
    let mut request: Vec<u8> = Vec::new();
    request.push(0x05);
    request.push(methods.len() as u8);
    push_slice(&mut request, methods.as_slice());
    assert(request@ =~= auth_request_spec(has_credentials));
    request
}

/// Reads the proxy's method-selection reply.
pub fn interpret_auth_reply(reply: &[u8; 2]) -> (r: Result<AuthNext, NetworkError>)
    ensures
        err_view(r) == auth_reply_spec(reply@[0], reply@[1]),
{
    if reply[0] != 0x05 {
        return Err(transport_error("Invalid SOCKS5 version in auth response"));
    }
    let selected_method = reply[1];
    if selected_method == Socks5AuthMethod::NoAuth.code() {
        Ok(AuthNext::Done)
    } else if selected_method == Socks5AuthMethod::UsernamePassword.code() {
        Ok(AuthNext::SendCredentials)
    } else if selected_method == Socks5AuthMethod::NoAcceptableMethods.code() {
        Err(transport_error("SOCKS5 proxy rejected all authentication methods"))
    } else {
        Err(
            transport_error_num(
                "SOCKS5 proxy selected unsupported auth method: ",
                selected_method as u64,
            ),
        )
    }
}

/// The username/password request for the given credentials.
pub fn credentials_request(username: &Option<String>, password: &Option<String>) -> (r: Result<
    Vec<u8>,
    NetworkError,
>)
    ensures
        username.is_none() ==> err_view(r) == Err::<Vec<u8>, NetworkErrorView>(
            NetworkErrorView::Transport {
                reason: "Username required for SOCKS5 authentication"@,
            },
        ),
        username.is_some() && password.is_none() ==> err_view(r) == Err::<
            Vec<u8>,
            NetworkErrorView,
        >(
            NetworkErrorView::Transport {
                reason: "Password required for SOCKS5 authentication"@,
            },
        ),
        username.is_some() && password.is_some() ==> (r matches Ok(v) && v@
            == credentials_request_spec(
            vstd::utf8::encode_utf8(username.unwrap()@),
            vstd::utf8::encode_utf8(password.unwrap()@),
        )),
{
    let username = match username {
        Some(u) => u,
        None => {
            return Err(transport_error("Username required for SOCKS5 authentication"));
        },
    };
    let password = match password {
        Some(p) => p,
        None => {
            return Err(transport_error("Password required for SOCKS5 authentication"));
        },
    };
    let user = username.as_str().as_bytes_vec();
    let pass = password.as_str().as_bytes_vec();
    let mut request: Vec<u8> = Vec::new();
    request.push(0x01);
    request.push((user.len() % 256) as u8);
    push_slice(&mut request, user.as_slice());
    request.push((pass.len() % 256) as u8);
    push_slice(&mut request, pass.as_slice());
    assert(request@ =~= credentials_request_spec(user@, pass@));
    Ok(request)
}

/// Reads the proxy's username/password reply.
pub fn interpret_credentials_reply(reply: &[u8; 2]) -> (r: Result<(), NetworkError>)
    ensures
        err_view(r) == credentials_reply_spec(reply@[0], reply@[1]),
{
    if reply[0] != 0x01 {
        return Err(transport_error("Invalid username/password auth version"));
    }
    if reply[1] != 0x00 {
        return Err(transport_error("SOCKS5 username/password authentication failed"));
    }
    Ok(())
}

/// The UDP ASSOCIATE request.
pub fn udp_associate_request() -> (r: Vec<u8>)
    ensures
        r@ == udp_associate_request_spec(),
{
    let mut request: Vec<u8> = Vec::new();
    request.push(0x05);
    request.push(Socks5Command::UdpAssociate.code());
    request.push(0x00);
    request.push(Socks5AddressType::Ipv4.code());
    request.push(127);
    request.push(0);
    request.push(0);
    request.push(1);
    request.push(0);
    request.push(0);
    assert(request@ =~= udp_associate_request_spec());
    request
}

/// Reads the first four bytes of the UDP ASSOCIATE reply, giving the type
/// of the relay address that follows.
pub fn interpret_associate_reply(head: &[u8; 4]) -> (r: Result<Socks5AddressType, NetworkError>)
    ensures
        err_view(r) == associate_reply_spec(head@),
{
    if head[0] != 0x05 {
        return Err(transport_error("Invalid SOCKS5 version in UDP associate response"));
    }
    let reply_code = head[1];
    if reply_code != Socks5ReplyCode::Success.code() {
        return Err(
            transport_error_num("SOCKS5 UDP associate failed with code: ", reply_code as u64),
        );
    }
    let address_type = head[3];
    if address_type == Socks5AddressType::Ipv4.code() {
        Ok(Socks5AddressType::Ipv4)
    } else if address_type == Socks5AddressType::Ipv6.code() {
        Ok(Socks5AddressType::Ipv6)
    } else {
        Err(transport_error("Unsupported address type in SOCKS5 UDP associate response"))
    }
}

/// Number of bytes to read after the reply head for a relay address of type `t`.
pub fn relay_address_bytes(t: Socks5AddressType) -> (n: usize)
    ensures
        n == relay_address_len(t),
{
    match t {
        Socks5AddressType::Ipv6 => 18,
        _ => 6,
    }
}

/// The relay address from the bytes that follow the reply head.
pub fn relay_address(t: Socks5AddressType, buf: &[u8]) -> (a: SockAddr)
    requires
        buf.len() >= relay_address_len(t),
    ensures
        a@ == relay_address_spec(t, buf@),
{
    match t {
        Socks5AddressType::Ipv6 => {
            let ip = bytes16_at(buf, 0);
            let port = read_be16(buf, 16);
            SockAddr { ip: IpAddress::V6(ip), port }
        },
        _ => {
            let ip: [u8; 4] = [buf[0], buf[1], buf[2], buf[3]];
            assert(ip@ =~= buf@.subrange(0, 4));
            let port = read_be16(buf, 4);
            SockAddr { ip: IpAddress::V4(ip), port }
        },
    }
}

/// The configuration of a SOCKS5 UDP client: the proxy and the credentials.
pub struct Socks5UdpClient {
    pub proxy_addr: SockAddr,
    pub username: Option<String>,
    pub password: Option<String>,
}

impl Socks5UdpClient {
    /// A client of the proxy at `proxy_addr`.
    pub fn new(proxy_addr: SockAddr, username: Option<String>, password: Option<String>) -> (c: Self)
        ensures
            c.proxy_addr == proxy_addr,
            c.username == username,
            c.password == password,
    {
        Socks5UdpClient { proxy_addr, username, password }
    }

    /// Whether both a username and a password are set.
    pub fn has_credentials(&self) -> (b: bool)
        ensures
            b <==> self.username.is_some() && self.password.is_some(),
    {
        self.username.is_some() && self.password.is_some()
    }

    /// The method-selection request this client sends.
    pub fn auth_request(&self) -> (r: Vec<u8>)
        ensures
            r@ == auth_request_spec(self.username.is_some() && self.password.is_some()),
    {
        auth_negotiation_request(self.has_credentials())
    }
}

/// The wire values that RFC 1928 gives: commands CONNECT 1, BIND 2, UDP
/// ASSOCIATE 3; address types IPv4 1, domain name 3, IPv6 4; methods none 0,
/// GSSAPI 1, user name and password 2, none acceptable 255; replies 0 for
/// success and 1 to 8 for the failures in the RFC's order.
pub proof fn lemma_socks5_wire_values()
    ensures
        command_code(Socks5Command::Connect) == 1 && command_code(Socks5Command::Bind) == 2
            && command_code(Socks5Command::UdpAssociate) == 3,
        address_type_code(Socks5AddressType::Ipv4) == 1 && address_type_code(Socks5AddressType::DomainName)
            == 3 && address_type_code(Socks5AddressType::Ipv6) == 4,
        auth_method_code(Socks5AuthMethod::NoAuth) == 0 && auth_method_code(Socks5AuthMethod::Gssapi) == 1
            && auth_method_code(Socks5AuthMethod::UsernamePassword) == 2 && auth_method_code(
            Socks5AuthMethod::NoAcceptableMethods,
        ) == 255,
        reply_code_value(Socks5ReplyCode::Success) == 0 && reply_code_value(Socks5ReplyCode::GeneralFailure)
            == 1 && reply_code_value(Socks5ReplyCode::ConnectionNotAllowed) == 2 && reply_code_value(
            Socks5ReplyCode::NetworkUnreachable,
        ) == 3 && reply_code_value(Socks5ReplyCode::HostUnreachable) == 4 && reply_code_value(
            Socks5ReplyCode::ConnectionRefused,
        ) == 5 && reply_code_value(Socks5ReplyCode::TtlExpired) == 6 && reply_code_value(
            Socks5ReplyCode::CommandNotSupported,
        ) == 7 && reply_code_value(Socks5ReplyCode::AddressTypeNotSupported) == 8,
{
}

proof fn lemma_be16_spells(x: u16)
    ensures
        be16(x)[0] as int * 256 + be16(x)[1] as int == x,
{
    let hi = (x >> 8u16) as u8;
    let lo = x as u8;
    assert(hi as int * 256 + lo as int == x) by (bit_vector)
        requires
            hi == (x >> 8u16) as u8,
            lo == x as u8,
    ;
}

/// The UDP request header of RFC 1928 for an IPv4 address: two zero bytes,
/// the fragment number, the address type 1, the four octets and the port
/// most significant byte first.
pub proof fn lemma_udp_header_ipv4_layout(fragment: u8, octets: Seq<u8>, port: u16)
    requires
        octets.len() == 4,
    ensures
        ({
            let b = udp_header_bytes(
                Socks5UdpHeaderView {
                    fragment,
                    address_type: Socks5AddressType::Ipv4,
                    address: IpView::V4(octets),
                    port,
                },
            );
            b.len() == 10 && b[0] == 0 && b[1] == 0 && b[2] == fragment && b[3] == 1 && b.subrange(4, 8)
                == octets && b[8] as int * 256 + b[9] as int == port
        }),
{
    lemma_be16_spells(port);
    let b = udp_header_bytes(
        Socks5UdpHeaderView { fragment, address_type: Socks5AddressType::Ipv4, address: IpView::V4(octets), port },
    );
    assert(b.subrange(4, 8) =~= octets);
    assert(b[8] == be16(port)[0] && b[9] == be16(port)[1]);
}

/// The UDP request header of RFC 1928 for an IPv6 address: two zero bytes,
/// the fragment number, the address type 4, the sixteen octets and the
/// port most significant byte first.
pub proof fn lemma_udp_header_ipv6_layout(fragment: u8, octets: Seq<u8>, port: u16)
    requires
        octets.len() == 16,
    ensures
        ({
            let b = udp_header_bytes(
                Socks5UdpHeaderView {
                    fragment,
                    address_type: Socks5AddressType::Ipv6,
                    address: IpView::V6(octets),
                    port,
                },
            );
            b.len() == 22 && b[0] == 0 && b[1] == 0 && b[2] == fragment && b[3] == 4 && b.subrange(4, 20)
                == octets && b[20] as int * 256 + b[21] as int == port
        }),
{
    lemma_be16_spells(port);
    let b = udp_header_bytes(
        Socks5UdpHeaderView { fragment, address_type: Socks5AddressType::Ipv6, address: IpView::V6(octets), port },
    );
    assert(b.subrange(4, 20) =~= octets);
    assert(b[20] == be16(port)[0] && b[21] == be16(port)[1]);
}

/// A received UDP header with address type 1 reads the fragment from byte 2,
/// the IPv4 address from bytes 4 to 7 and the port from bytes 8 and 9, most
/// significant first; it is 10 bytes long.
pub proof fn lemma_udp_header_ipv4_reads(d: Seq<u8>)
    requires
        d.len() >= 10,
        d[3] == 1,
    ensures
        header_parse(d) matches Ok((h, n)) && n == 10 && h.fragment == d[2] && h.address_type
            == Socks5AddressType::Ipv4 && h.address == IpView::V4(d.subrange(4, 8)) && h.port as int
            == d[8] as int * 256 + d[9] as int,
{
    let hi = d[8];
    let lo = d[9];
    assert(((hi as u16) << 8u16) | (lo as u16) == hi as u16 * 256 + lo as u16) by (bit_vector);
}

} // verus!
