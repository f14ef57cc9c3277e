//! Transparent SOCKS5 relaying: datagrams are wrapped in the SOCKS5 UDP
//! request header on the way to the proxy and unwrapped on the way back, so
//! that the rest of the client sees plain datagrams.

use vstd::prelude::*;
use crate::bytes_util::{u16_be, read_be16, push_slice, copy_bytes, lemma_u16_be_roundtrip};
use crate::error::{NetworkError, NetworkErrorView, decode_error, decode_error_num};
use crate::net_addr::{IpAddress, IpView, SockAddr, SockAddrView, ip_view_wf};
use crate::region_handshake::bytes16_at;
use crate::socks5::{Socks5UdpHeader, header_for, udp_header_bytes};
use crate::text::dec;

verus! {

/// Relays datagrams through a SOCKS5 proxy by adding and removing the
/// SOCKS5 UDP header itself.
pub struct TransparentSocks5Proxy {
    /// The proxy's address (e.g. 127.0.0.1:9061).
    pub proxy_addr: SockAddr,
}

/// A datagram for `dest` with the unfragmented SOCKS5 header in front of it.
pub open spec fn wrap_spec(dest: SockAddrView, data: Seq<u8>) -> Seq<u8> {
    udp_header_bytes(header_for(dest)) + data
}

/// What [`TransparentSocks5Proxy::unwrap_socks5_header`] gives for `d`: the
/// payload and the address it came from.
pub open spec fn unwrap_spec(d: Seq<u8>) -> Result<(Seq<u8>, SockAddrView), NetworkErrorView> {
    if d.len() < 10 {
        Err(NetworkErrorView::PacketDecode { reason: "SOCKS5 UDP packet too short"@ })
    } else if d[3] == 0x01 {
        Ok(
            (
                d.subrange(10, d.len() as int),
                SockAddrView { ip: IpView::V4(d.subrange(4, 8)), port: u16_be(d[8], d[9]) },
            ),
        )
    } else if d[3] == 0x04 {
        if d.len() < 22 {
            Err(NetworkErrorView::PacketDecode { reason: "Invalid IPv6 address in SOCKS5 packet"@ })
        } else {
            Ok(
                (
                    d.subrange(22, d.len() as int),
                    SockAddrView { ip: IpView::V6(d.subrange(4, 20)), port: u16_be(d[20], d[21]) },
                ),
            )
        }
    } else {
        Err(
            NetworkErrorView::PacketDecode {
                reason: "Unsupported address type in SOCKS5 packet: "@ + dec(d[3] as nat),
            },
        )
    }
}

/// Model of the result of [`TransparentSocks5Proxy::unwrap_socks5_header`].
pub open spec fn unwrap_result_view(r: Result<(Vec<u8>, SockAddr), NetworkError>) -> Result<
    (Seq<u8>, SockAddrView),
    NetworkErrorView,
> {
    match r {
        Ok((p, a)) => Ok((p@, a@)),
        Err(e) => Err(e@),
    }
}

impl TransparentSocks5Proxy {
    /// A relay through the proxy at `proxy_addr`.
    pub fn new(proxy_addr: SockAddr) -> (p: Self)
        ensures
            p.proxy_addr == proxy_addr,
    {
        TransparentSocks5Proxy { proxy_addr }
    }

    /// `data` for `dest_addr` with the SOCKS5 UDP header in front of it.
    pub fn wrap_with_socks5_header(&self, data: &[u8], dest_addr: SockAddr) -> (r: Result<
        Vec<u8>,
        NetworkError,
    >)
        ensures
            r matches Ok(p) && p@ == wrap_spec(dest_addr@, data@),
    {
        let mut packet = Socks5UdpHeader::new(dest_addr).to_bytes();
        push_slice(&mut packet, data);
        Ok(packet)
    }

    /// Splits a datagram received from the proxy into its payload and the
    /// address it came from.
    pub fn unwrap_socks5_header(&self, data: &[u8]) -> (r: Result<(Vec<u8>, SockAddr), NetworkError>)
        ensures
            unwrap_result_view(r) == unwrap_spec(data@),
    {
        if data.len() < 10 {
            return Err(decode_error("SOCKS5 UDP packet too short"));
        }
        let atyp = data[3];
        if atyp == 0x01 {
            let ip: [u8; 4] = [data[4], data[5], data[6], data[7]];
            assert(ip@ =~= data@.subrange(4, 8));
            let port = read_be16(data, 8);
            let payload = copy_bytes(data, 10, data.len());
            Ok((payload, SockAddr { ip: IpAddress::V4(ip), port }))
        } else if atyp == 0x04 {
            if data.len() < 22 {
                return Err(decode_error("Invalid IPv6 address in SOCKS5 packet"));
            }
            let ip = bytes16_at(data, 4);
            let port = read_be16(data, 20);
            let payload = copy_bytes(data, 22, data.len());
            Ok((payload, SockAddr { ip: IpAddress::V6(ip), port }))
        } else {
            Err(decode_error_num("Unsupported address type in SOCKS5 packet: ", atyp as u64))
        }
    }
}

/// Unwrapping a wrapped datagram gives back the payload and the destination.
pub proof fn lemma_wrap_unwrap_roundtrip(dest: SockAddrView, data: Seq<u8>)
    requires
        ip_view_wf(dest.ip),
    ensures
        unwrap_spec(wrap_spec(dest, data)) == Ok::<(Seq<u8>, SockAddrView), NetworkErrorView>(
            (data, dest),
        ),
{
    let d = wrap_spec(dest, data);
    let h = udp_header_bytes(header_for(dest));
    lemma_u16_be_roundtrip(dest.port);
    match dest.ip {
        IpView::V4(o) => {
            assert(d.subrange(4, 8) =~= o);
            assert(d.subrange(10, d.len() as int) =~= data);
        },
        IpView::V6(o) => {
            assert(d.subrange(4, 20) =~= o);
            assert(d.subrange(22, d.len() as int) =~= data);
        },
    }
}

} // verus!
