//! Socket addresses as plain values: the IP octets and the port.

use vstd::prelude::*;

verus! {

/// An IPv4 or IPv6 address, by its octets in network order.
#[derive(Debug, Clone, Copy, PartialEq, Eq)]
pub enum IpAddress {
    V4([u8; 4]),
    V6([u8; 16]),
}

/// An IP address and a port.
#[derive(Debug, Clone, Copy, PartialEq, Eq)]
pub struct SockAddr {
    pub ip: IpAddress,
    pub port: u16,
}

/// Mathematical model of an IP address: its family and its octets.
pub enum IpView {
    V4(Seq<u8>),
    V6(Seq<u8>),
}

/// Mathematical model of a socket address.
pub struct SockAddrView {
    pub ip: IpView,
    pub port: u16,
}

impl View for IpAddress {
    type V = IpView;

    open spec fn view(&self) -> IpView {
        match self {
            IpAddress::V4(a) => IpView::V4(a@),
            IpAddress::V6(a) => IpView::V6(a@),
        }
    }
}

impl View for SockAddr {
    type V = SockAddrView;

    open spec fn view(&self) -> SockAddrView {
        SockAddrView { ip: self.ip@, port: self.port }
    }
}

/// The octets of an address.
pub open spec fn ip_octets(ip: IpView) -> Seq<u8> {
    match ip {
        IpView::V4(o) => o,
        IpView::V6(o) => o,
    }
}

/// Whether the model has as many octets as its family has (4 or 16).
pub open spec fn ip_view_wf(ip: IpView) -> bool {
    match ip {
        IpView::V4(o) => o.len() == 4,
        IpView::V6(o) => o.len() == 16,
    }
}

impl SockAddr {
    /// An IPv4 socket address.
    pub fn v4(a: u8, b: u8, c: u8, d: u8, port: u16) -> (r: SockAddr)
        ensures
            r@.ip == IpView::V4(seq![a, b, c, d]),
            r@.port == port,
    {
        let r = SockAddr { ip: IpAddress::V4([a, b, c, d]), port };
        assert(r@.ip == IpView::V4(seq![a, b, c, d])) by {
            assert([a, b, c, d]@ =~= seq![a, b, c, d]);
        }
        r
    }

    /// The port.
    pub fn port(&self) -> (p: u16)
        ensures
            p == self.port,
    {
        self.port
    }

    /// Whether the address is an IPv4 address.
    pub fn is_ipv4(&self) -> (b: bool)
        ensures
            b <==> self@.ip is V4,
    {
        match self.ip {
            IpAddress::V4(_) => true,
            IpAddress::V6(_) => false,
        }
    }
}

} // verus!
