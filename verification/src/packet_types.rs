//! Field types of the message template: addresses and ports in network
//! order, length-prefixed byte strings and fixed 256-byte strings, colours.

use vstd::prelude::*;
use std::string::FromUtf8Error;
use vstd::utf8::{decode_utf8, encode_utf8, valid_utf8};
use crate::bytes_util::copy_bytes;

verus! {

#[verifier::external_type_specification]
#[verifier::external_body]
pub struct ExFromUtf8Error(std::string::FromUtf8Error);

/// `String::from_utf8`: the text the bytes encode, if they are valid UTF-8.
/// Trusted: success exactly on valid UTF-8, which decodes to the text.
#[verifier::external_body]
fn string_from_utf8(bytes: Vec<u8>) -> (r: Result<String, FromUtf8Error>)
    ensures
        r is Ok <==> valid_utf8(bytes@),
        r matches Ok(s) ==> s@ == decode_utf8(bytes@),
{
    String::from_utf8(bytes)
}

/// The two bytes of `x` in the other order.
pub open spec fn swap16(x: u16) -> u16 {
    ((x & 0xff) << 8u16) | (x >> 8u16)
}

/// `u16::to_be`: `x` in big-endian byte order. Trusted: the result is `x` on
/// a big-endian target and `x` with its bytes swapped on a little-endian
/// one; which of the two the machine is, is left open.
#[verifier::external_body]
fn u16_to_be(x: u16) -> (r: u16)
    ensures
        r == x || r == swap16(x),
{
    x.to_be()
}

/// `u16::from_be`: a big-endian `x` in the target's byte order. Trusted: as
/// for `u16::to_be`, the result is `x` or `x` with its bytes swapped.
#[verifier::external_body]
fn u16_from_be(x: u16) -> (r: u16)
    ensures
        r == x || r == swap16(x),
{
    u16::from_be(x)
}

/// The four bytes of `x` in the other order.
pub open spec fn swap32(x: u32) -> u32 {
    crate::bytes_util::u32_le((x >> 24u32) as u8, (x >> 16u32) as u8, (x >> 8u32) as u8, x as u8)
}

/// `u32::to_be`: `x` in big-endian byte order. Trusted: the result is `x` on
/// a big-endian target and `x` with its bytes swapped on a little-endian
/// one; which of the two the machine is, is left open.
#[verifier::external_body]
fn u32_to_be(x: u32) -> (r: u32)
    ensures
        r == x || r == swap32(x),
{
    x.to_be()
}

/// An IPv4 address packed big-endian into a `u32`.
#[derive(Debug, Clone, Copy, PartialEq, Eq)]
pub struct IPADDR(pub u32);

impl IPADDR {
    /// The address `a.b.c.d`.
    pub fn new(a: u8, b: u8, c: u8, d: u8) -> (r: Self)
        ensures
            r.0 == crate::bytes_util::u32_be(a, b, c, d),
    {
        IPADDR(((a as u32) << 24u32) | ((b as u32) << 16u32) | ((c as u32) << 8u32) | (d as u32))
    }

    /// The four octets of the address, as `Ipv4Addr::from(self.0.to_be())`
    /// gives them: the big-endian bytes of the stored value on a big-endian
    /// target, its little-endian bytes on a little-endian one.
    pub fn to_std_addr(&self) -> (o: [u8; 4])
        ensures
            o@ == crate::bytes_util::be32(self.0) || o@ == crate::bytes_util::le32(self.0),
    {
        let v = u32_to_be(self.0);
        let o: [u8; 4] = [(v >> 24u32) as u8, (v >> 16u32) as u8, (v >> 8u32) as u8, v as u8];
        proof {
            let x = self.0;
            if v != x {
                assert(v == swap32(x));
                assert((v >> 24u32) as u8 == x as u8 && (v >> 16u32) as u8 == (x >> 8u32) as u8
                    && (v >> 8u32) as u8 == (x >> 16u32) as u8 && v as u8 == (x >> 24u32) as u8) by (bit_vector)
                    requires
                        v == ((((x as u8) as u32) << 24u32) | ((((x >> 8u32) as u8) as u32) << 16u32) | ((((x >> 16u32) as u8) as u32) << 8u32) | (((x >> 24u32) as u8) as u32)),
                ;
                assert(o@ =~= crate::bytes_util::le32(x));
            } else {
                assert(o@ =~= crate::bytes_util::be32(x));
            }
        }
        o
    }
}

/// A port in network byte order.
#[derive(Debug, Clone, Copy, PartialEq, Eq)]
pub struct IPPORT(pub u16);

impl IPPORT {
    /// The port, stored in network byte order (`u16::to_be`).
    pub fn new(port: u16) -> (r: Self)
        ensures
            r.0 == port || r.0 == swap16(port),
    {
        IPPORT(u16_to_be(port))
    }

    /// The port in the host's byte order (`u16::from_be`).
    pub fn to_host_order(&self) -> (p: u16)
        ensures
            p == self.0 || p == swap16(self.0),
    {
        u16_from_be(self.0)
    }
}

/// Bytes with a one-byte length on the wire (at most 255).
#[derive(Debug, Clone, PartialEq, Eq)]
pub struct LLVariable1 {
    pub data: Vec<u8>,
}

/// The model of a `String::from_utf8` result: the text, or `None` when the
/// bytes are not valid UTF-8.
pub open spec fn utf8_result_view(r: Result<String, FromUtf8Error>) -> Option<Seq<char>> {
    match r {
        Ok(s) => Some(s@),
        Err(_) => None,
    }
}

/// The text that bytes encode, if they are valid UTF-8.
pub open spec fn utf8_text(b: Seq<u8>) -> Option<Seq<char>> {
    if valid_utf8(b) {
        Some(decode_utf8(b))
    } else {
        None
    }
}

fn vec_of(data: &Vec<u8>) -> (r: Vec<u8>)
    ensures
        r@ == data@,
{
    copy_bytes(data.as_slice(), 0, data.len())
}

impl LLVariable1 {
    /// Wraps at most 255 bytes.
    pub fn new(data: Vec<u8>) -> (v: Self)
        requires
            data.len() <= 255,
        ensures
            v.data == data,
    {
        LLVariable1 { data }
    }

    /// The UTF-8 bytes of `s`, which must fit in 255 bytes.
    pub fn from_string(s: &str) -> (v: Self)
        requires
            encode_utf8(s@).len() <= 255,
        ensures
            v.data@ == encode_utf8(s@),
    {
        Self::new(s.as_bytes_vec())
    }

    /// The text the bytes encode, if they are valid UTF-8.
    pub fn to_string(&self) -> (r: Result<String, FromUtf8Error>)
        ensures
            utf8_result_view(r) == utf8_text(self.data@),
    {
        string_from_utf8(vec_of(&self.data))
    }
}

/// Bytes with a two-byte length on the wire (at most 65535).
#[derive(Debug, Clone, PartialEq, Eq)]
pub struct LLVariable2 {
    pub data: Vec<u8>,
}

impl LLVariable2 {
    /// Wraps at most 65535 bytes.
    pub fn new(data: Vec<u8>) -> (v: Self)
        requires
            data.len() <= 65535,
        ensures
            v.data == data,
    {
        LLVariable2 { data }
    }

    /// The UTF-8 bytes of `s`, which must fit in 65535 bytes.
    pub fn from_string(s: &str) -> (v: Self)
        requires
            encode_utf8(s@).len() <= 65535,
        ensures
            v.data@ == encode_utf8(s@),
    {
        Self::new(s.as_bytes_vec())
    }

    /// The text the bytes encode, if they are valid UTF-8.
    pub fn to_string(&self) -> (r: Result<String, FromUtf8Error>)
        ensures
            utf8_result_view(r) == utf8_text(self.data@),
    {
        string_from_utf8(vec_of(&self.data))
    }
}

/// Exactly 256 bytes: shorter data padded with zeros, longer data cut.
#[derive(Debug, Clone, PartialEq, Eq)]
pub struct LLFixed256 {
    pub data: Vec<u8>,
}

/// `d` cut or padded with zeros to 256 bytes (`Vec::resize(256, 0)`).
pub open spec fn fixed256(d: Seq<u8>) -> Seq<u8> {
    if d.len() >= 256 {
        d.take(256)
    } else {
        d + Seq::new((256 - d.len()) as nat, |i: int| 0u8)
    }
}

/// The bytes before the first zero byte (all of them when there is none).
pub open spec fn before_nul(d: Seq<u8>) -> Seq<u8>
    decreases d.len(),
{
    if d.len() == 0 {
        d
    } else if d[0] == 0 {
        Seq::empty()
    } else {
        seq![d[0]] + before_nul(d.drop_first())
    }
}

fn resize_256(data: Vec<u8>) -> (r: Vec<u8>)
    ensures
        r@ == fixed256(data@),
{
    let mut out: Vec<u8> = Vec::new();
    let mut i: usize = 0;
    while i < 256
        invariant
            i <= 256,
            out@.len() == i,
            forall|k: int| 0 <= k < i ==> out@[k] == fixed256(data@)[k],
        decreases 256 - i,
    {
        if i < data.len() {
            out.push(data[i]);
        } else {
            out.push(0u8);
        }
        i = i + 1;
    }
    assert(out@ =~= fixed256(data@));
    out
}

/// Index of the first zero byte of `d` from `from` on, or its length.
fn nul_position(d: &Vec<u8>) -> (n: usize)
    ensures
        n <= d.len(),
        d@.take(n as int) == before_nul(d@),
{
    let mut i: usize = 0;
    while i < d.len() && d[i] != 0
        invariant
            i <= d.len(),
            forall|k: int| 0 <= k < i ==> d@[k] != 0,
        decreases d.len() - i,
    {
        i = i + 1;
    }
    proof {
        lemma_before_nul(d@, i as int);
    }
    i
}

/// `before_nul` is the prefix up to the first zero byte.
proof fn lemma_before_nul(d: Seq<u8>, n: int)
    requires
        0 <= n <= d.len(),
        forall|k: int| 0 <= k < n ==> d[k] != 0,
        n == d.len() || d[n] == 0,
    ensures
        d.take(n) == before_nul(d),
    decreases d.len(),
{
    if d.len() == 0 {
        assert(d.take(n) =~= d);
    } else if n == 0 {
        assert(d.take(0) =~= Seq::<u8>::empty());
    } else {
        lemma_before_nul(d.drop_first(), n - 1);
        assert(d.take(n) =~= seq![d[0]] + d.drop_first().take(n - 1));
    }
}

impl LLFixed256 {
    /// `data` cut or padded with zeros to 256 bytes.
    pub fn new(data: Vec<u8>) -> (v: Self)
        ensures
            v.data@ == fixed256(data@),
    {
        LLFixed256 { data: resize_256(data) }
    }

    /// The UTF-8 bytes of `s`, cut or padded with zeros to 256 bytes.
    pub fn from_string(s: &str) -> (v: Self)
        ensures
            v.data@ == fixed256(encode_utf8(s@)),
    {
        LLFixed256 { data: resize_256(s.as_bytes_vec()) }
    }

    /// The text before the first zero byte, if it is valid UTF-8.
    pub fn to_string(&self) -> (r: Result<String, FromUtf8Error>)
        ensures
            utf8_result_view(r) == utf8_text(before_nul(self.data@)),
    {
        let end = nul_position(&self.data);
        string_from_utf8(copy_bytes(self.data.as_slice(), 0, end))
    }
}

/// An RGBA colour.
#[derive(Debug, Clone, Copy, PartialEq, Eq)]
pub struct LLColor {
    pub r: u8,
    pub g: u8,
    pub b: u8,
    pub a: u8,
}

impl LLColor {
    /// The colour with the given channels.
    pub fn new(r: u8, g: u8, b: u8, a: u8) -> (c: Self)
        ensures
            c == (LLColor { r, g, b, a }),
    {
        LLColor { r, g, b, a }
    }

    /// Opaque white.
    pub fn white() -> (c: Self)
        ensures
            c == (LLColor { r: 255, g: 255, b: 255, a: 255 }),
    {
        Self::new(255, 255, 255, 255)
    }

    /// Opaque black.
    pub fn black() -> (c: Self)
        ensures
            c == (LLColor { r: 0, g: 0, b: 0, a: 255 }),
    {
        Self::new(0, 0, 0, 255)
    }
}

/// No byte of the UTF-8 encoding of a non-zero scalar is zero.
proof fn lemma_scalar_no_zero_byte(v: u32)
    requires
        v != 0,
    ensures
        forall|i: int|
            0 <= i < vstd::utf8::encode_scalar(v).len() ==> vstd::utf8::encode_scalar(v)[i] != 0,
{
    assert(v != 0 && v <= 0x7F ==> vstd::utf8::leading_byte_width_1(v) != 0) by (bit_vector);
    assert(vstd::utf8::leading_byte_width_2(v) != 0) by (bit_vector);
    assert(vstd::utf8::leading_byte_width_3(v) != 0) by (bit_vector);
    assert(vstd::utf8::leading_byte_width_4(v) != 0) by (bit_vector);
    assert(vstd::utf8::last_continuation_byte(v) != 0) by (bit_vector);
    assert(vstd::utf8::second_last_continuation_byte(v) != 0) by (bit_vector);
    assert(vstd::utf8::third_last_continuation_byte(v) != 0) by (bit_vector);
}

/// No byte of the UTF-8 encoding of text without NUL characters is zero.
proof fn lemma_utf8_no_zero_byte(s: Seq<char>)
    requires
        forall|i: int| 0 <= i < s.len() ==> s[i] as u32 != 0,
    ensures
        forall|i: int| 0 <= i < encode_utf8(s).len() ==> encode_utf8(s)[i] != 0,
    decreases s.len(),
{
    if s.len() > 0 {
        let head = vstd::utf8::encode_scalar(s[0] as u32);
        lemma_scalar_no_zero_byte(s[0] as u32);
        assert forall|i: int| 0 <= i < s.drop_first().len() implies s.drop_first()[i] as u32 != 0 by {
            assert(s.drop_first()[i] == s[i + 1]);
        }
        lemma_utf8_no_zero_byte(s.drop_first());
        let rest = encode_utf8(s.drop_first());
        assert(encode_utf8(s) == head + rest);
        assert forall|i: int| 0 <= i < encode_utf8(s).len() implies encode_utf8(s)[i] != 0 by {
            if i < head.len() {
                assert(encode_utf8(s)[i] == head[i]);
            } else {
                assert(encode_utf8(s)[i] == rest[i - head.len()]);
            }
        }
    }
}

/// Text written into a fixed 256-byte string and read back is the text
/// itself, when it takes at most 256 bytes and holds no NUL character.
pub proof fn lemma_fixed256_text_roundtrip(s: Seq<char>)
    requires
        encode_utf8(s).len() <= 256,
        forall|i: int| 0 <= i < s.len() ==> s[i] as u32 != 0,
    ensures
        utf8_text(before_nul(fixed256(encode_utf8(s)))) == Some(s),
{
    let b = encode_utf8(s);
    let f = fixed256(b);
    vstd::utf8::encode_utf8_valid_utf8(s);
    vstd::utf8::encode_utf8_decode_utf8(s);
    lemma_utf8_no_zero_byte(s);
    if b.len() < 256 {
        assert(f[b.len() as int] == 0);
    } else {
        assert(f =~= b);
    }
    lemma_before_nul(f, b.len() as int);
    assert(f.take(b.len() as int) =~= b);
}

} // verus!
