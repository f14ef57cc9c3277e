//! Errors of the networking layer.

use vstd::prelude::*;
use crate::net_addr::{SockAddr, SockAddrView};

verus! {

/// What went wrong in the networking layer.
#[derive(Debug, Clone)]
pub enum NetworkError {
    ConnectionLost { address: SockAddr },
    PacketDecode { reason: String },
    PacketEncode { reason: String },
    CircuitNotFound { id: u32 },
    HandshakeTimeout,
    HandshakeFailed { reason: String },
    AuthenticationFailed { reason: String },
    LoginRejected { reason: String },
    SimulatorConnectionFailed { reason: String },
    RegionHandshakeFailed { reason: String },
    Transport { reason: String },
    Other { reason: String },
}

/// Mathematical model of a [`NetworkError`].
pub enum NetworkErrorView {
    ConnectionLost { address: SockAddrView },
    PacketDecode { reason: Seq<char> },
    PacketEncode { reason: Seq<char> },
    CircuitNotFound { id: u32 },
    HandshakeTimeout,
    HandshakeFailed { reason: Seq<char> },
    AuthenticationFailed { reason: Seq<char> },
    LoginRejected { reason: Seq<char> },
    SimulatorConnectionFailed { reason: Seq<char> },
    RegionHandshakeFailed { reason: Seq<char> },
    Transport { reason: Seq<char> },
    Other { reason: Seq<char> },
}

impl View for NetworkError {
    type V = NetworkErrorView;

    open spec fn view(&self) -> NetworkErrorView {
        match self {
            NetworkError::ConnectionLost { address } => NetworkErrorView::ConnectionLost {
                address: address@,
            },
            NetworkError::PacketDecode { reason } => NetworkErrorView::PacketDecode {
                reason: reason@,
            },
            NetworkError::PacketEncode { reason } => NetworkErrorView::PacketEncode {
                reason: reason@,
            },
            NetworkError::CircuitNotFound { id } => NetworkErrorView::CircuitNotFound { id: *id },
            NetworkError::HandshakeTimeout => NetworkErrorView::HandshakeTimeout,
            NetworkError::HandshakeFailed { reason } => NetworkErrorView::HandshakeFailed {
                reason: reason@,
            },
            NetworkError::AuthenticationFailed { reason } => NetworkErrorView::AuthenticationFailed {
                reason: reason@,
            },
            NetworkError::LoginRejected { reason } => NetworkErrorView::LoginRejected {
                reason: reason@,
            },
            NetworkError::SimulatorConnectionFailed { reason } =>
                NetworkErrorView::SimulatorConnectionFailed { reason: reason@ },
            NetworkError::RegionHandshakeFailed { reason } =>
                NetworkErrorView::RegionHandshakeFailed { reason: reason@ },
            NetworkError::Transport { reason } => NetworkErrorView::Transport { reason: reason@ },
            NetworkError::Other { reason } => NetworkErrorView::Other { reason: reason@ },
        }
    }
}

/// A `Transport` error with the given text.
pub fn transport_error(reason: &str) -> (e: NetworkError)
    ensures
        e@ == (NetworkErrorView::Transport { reason: reason@ }),
{
    NetworkError::Transport { reason: String::from_str(reason) }
}

/// A `PacketDecode` error with the given text.
pub fn decode_error(reason: &str) -> (e: NetworkError)
    ensures
        e@ == (NetworkErrorView::PacketDecode { reason: reason@ }),
{
    NetworkError::PacketDecode { reason: String::from_str(reason) }
}

/// A `Transport` error whose text is `prefix` followed by the decimal form of `n`.
pub fn transport_error_num(prefix: &str, n: u64) -> (e: NetworkError)
    ensures
        e@ == (NetworkErrorView::Transport { reason: prefix@ + crate::text::dec(n as nat) }),
{
    let mut v: Vec<char> = Vec::new();
    crate::text::push_str(&mut v, prefix);
    crate::text::push_dec(&mut v, n);
    NetworkError::Transport { reason: crate::text::string_of(&v) }
}

/// A `PacketDecode` error whose text is `prefix` followed by the decimal form of `n`.
pub fn decode_error_num(prefix: &str, n: u64) -> (e: NetworkError)
    ensures
        e@ == (NetworkErrorView::PacketDecode { reason: prefix@ + crate::text::dec(n as nat) }),
{
    let mut v: Vec<char> = Vec::new();
    crate::text::push_str(&mut v, prefix);
    crate::text::push_dec(&mut v, n);
    NetworkError::PacketDecode { reason: crate::text::string_of(&v) }
}

} // verus!
