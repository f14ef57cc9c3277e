//! Text forms of 16-byte UUIDs, through the `uuid` crate.

use vstd::prelude::*;

verus! {

#[verifier::external_type_specification]
#[verifier::external_body]
pub struct ExUuid(uuid::Uuid);

/// Lower-case hexadecimal digit of `v < 16`.
pub open spec fn hex_lower(v: nat) -> char {
    if v < 10 {
        ((48 + v) as u8) as char
    } else {
        ((87 + v) as u8) as char
    }
}

/// Two lower-case hexadecimal digits of a byte.
pub open spec fn byte_hex(b: u8) -> Seq<char> {
    seq![hex_lower((b / 16) as nat), hex_lower((b % 16) as nat)]
}

/// Lower-case hexadecimal digits of a byte string.
pub open spec fn hex_of(bs: Seq<u8>) -> Seq<char>
    decreases bs.len(),
{
    if bs.len() == 0 {
        Seq::empty()
    } else {
        byte_hex(bs[0]) + hex_of(bs.drop_first())
    }
}

/// The hyphenated lower-case form `xxxxxxxx-xxxx-xxxx-xxxx-xxxxxxxxxxxx` of
/// 16 bytes, as `Uuid`'s `Display` writes it.
pub open spec fn uuid_hyphenated(b: Seq<u8>) -> Seq<char> {
    hex_of(b.subrange(0, 4)) + seq!['-'] + hex_of(b.subrange(4, 6)) + seq!['-'] + hex_of(
        b.subrange(6, 8),
    ) + seq!['-'] + hex_of(b.subrange(8, 10)) + seq!['-'] + hex_of(b.subrange(10, 16))
}

/// The 16 bytes that `uuid::Uuid::parse_str` reads from a string, if it
/// accepts it (simple, hyphenated, braced or URN form, either case).
pub uninterp spec fn uuid_parse(s: Seq<char>) -> Option<Seq<u8>>;

/// `uuid::Uuid::from_slice(&data[off..off + 16])` rendered with `to_string`.
/// Trusted: the `uuid` crate's `Display` writes the hyphenated lower-case form.
#[verifier::external_body]
pub(crate) fn uuid_string_at(data: &[u8], off: usize) -> (s: String)
    requires
        off + 16 <= data@.len(),
    ensures
        s@ == uuid_hyphenated(data@.subrange(off as int, off + 16)),
{
    uuid::Uuid::from_slice(&data[off..off + 16]).map(|u| u.to_string()).unwrap_or_default()
}

/// `uuid::Uuid::new_v4()`, giving its bytes. Trusted: the bytes are random
/// but for the version, 4, in the high half of byte 6, and the variant, the
/// top two bits of byte 8 set to `10`, which the crate writes into them.
#[verifier::external_body]
pub(crate) fn uuid_new_v4() -> (b: [u8; 16])
    ensures
        b@[6] >> 4u8 == 4,
        b@[8] >> 6u8 == 2,
{
    *uuid::Uuid::new_v4().as_bytes()
}

/// `uuid::Uuid::parse_str(s)`, giving its bytes.
/// Trusted: the result is the crate's parse of `s`, named `uuid_parse`; and
/// the crate accepts the hyphenated lower-case form of any 16 bytes and reads
/// those bytes back. Which other strings it accepts is left to the name.
#[verifier::external_body]
pub(crate) fn uuid_parse_str(s: &str) -> (r: Option<[u8; 16]>)
    ensures
        match r {
            Some(b) => uuid_parse(s@) == Some(b@),
            None => uuid_parse(s@).is_none(),
        },
        forall|b: Seq<u8>|
            #![trigger uuid_hyphenated(b)]
            b.len() == 16 && s@ == uuid_hyphenated(b) ==> r.is_some() && r.unwrap()@ == b,
{
    uuid::Uuid::parse_str(s).ok().map(|u| *u.as_bytes())
}

/// Appends the 16 bytes of `b`.
pub fn push_uuid(out: &mut Vec<u8>, b: &[u8; 16])
    ensures
        final(out)@ == old(out)@ + b@,
{
    let ghost start = out@;
    let mut i: usize = 0;
    while i < 16
        invariant
            i <= 16,
            b@.len() == 16,
            out@ == start + b@.take(i as int),
        decreases 16 - i,
    {
        out.push(b[i]);
        i = i + 1;
        assert(out@ =~= start + b@.take(i as int));
    }
    assert(b@.take(16) =~= b@);
}

/// Hex digits of a byte string with one more byte at the end.
pub proof fn lemma_hex_of_push(bs: Seq<u8>, b: u8)
    ensures
        hex_of(bs.push(b)) == hex_of(bs) + byte_hex(b),
    decreases bs.len(),
{
    if bs.len() == 0 {
        assert(bs.push(b).drop_first() =~= Seq::<u8>::empty());
        assert(hex_of(bs.push(b)) =~= byte_hex(b) + hex_of(Seq::<u8>::empty()));
    } else {
        lemma_hex_of_push(bs.drop_first(), b);
        assert(bs.push(b).drop_first() =~= bs.drop_first().push(b));
        assert(hex_of(bs.push(b)) =~= byte_hex(bs[0]) + hex_of(bs.drop_first().push(b)));
        assert(hex_of(bs) =~= byte_hex(bs[0]) + hex_of(bs.drop_first()));
    }
}

fn hex_digit(v: u8) -> (c: char)
    requires
        v < 16,
    ensures
        c == hex_lower(v as nat),
{
    if v < 10 {
        (48 + v) as char
    } else {
        (87 + v) as char
    }
}

/// Appends the lower-case hexadecimal digits of `b`, two per byte.
pub fn push_hex(out: &mut Vec<char>, b: &[u8])
    ensures
        final(out)@ == old(out)@ + hex_of(b@),
{
    let ghost start = out@;
    let mut i: usize = 0;
    while i < b.len()
        invariant
            i <= b.len(),
            out@ == start + hex_of(b@.take(i as int)),
        decreases b.len() - i,
    {
        let x = b[i];
        out.push(hex_digit(x / 16));
        out.push(hex_digit(x % 16));
        proof {
            lemma_hex_of_push(b@.take(i as int), x);
            assert(b@.take(i + 1) =~= b@.take(i as int).push(x));
        }
        i = i + 1;
        assert(out@ =~= start + hex_of(b@.take(i as int)));
    }
    assert(b@.take(b.len() as int) =~= b@);
}

/// A lower-case hexadecimal digit.
pub open spec fn is_lower_hex(c: char) -> bool {
    ('0' <= c && c <= '9') || ('a' <= c && c <= 'f')
}

/// The value of a hexadecimal digit.
pub open spec fn hex_value(c: char) -> int {
    if '0' <= c && c <= '9' {
        c as int - 48
    } else {
        c as int - 87
    }
}

/// Whether the two digits of `h` at `2 * i` and `2 * i + 1` are lower-case
/// hexadecimal digits that spell `b`, the high half first.
pub open spec fn hex_pair_spells(h: Seq<char>, i: int, b: u8) -> bool {
    &&& is_lower_hex(h[2 * i])
    &&& is_lower_hex(h[2 * i + 1])
    &&& hex_value(h[2 * i]) * 16 + hex_value(h[2 * i + 1]) == b
}

proof fn lemma_byte_hex(b: u8)
    ensures
        is_lower_hex(byte_hex(b)[0]),
        is_lower_hex(byte_hex(b)[1]),
        hex_value(byte_hex(b)[0]) * 16 + hex_value(byte_hex(b)[1]) == b,
{
    assert(b / 16 < 16 && b % 16 < 16);
    assert((b / 16) * 16 + b % 16 == b);
}

/// Each byte becomes two lower-case hexadecimal digits, the high half first:
/// the digits at `2 * i` and `2 * i + 1` spell byte `i`.
pub proof fn lemma_hex_of_layout(bs: Seq<u8>)
    ensures
        hex_of(bs).len() == 2 * bs.len(),
        forall|i: int| 0 <= i < bs.len() ==> #[trigger] hex_pair_spells(hex_of(bs), i, bs[i]),
    decreases bs.len(),
{
    if bs.len() > 0 {
        let t = bs.drop_first();
        lemma_hex_of_layout(t);
        lemma_byte_hex(bs[0]);
        let h = hex_of(bs);
        assert(h == byte_hex(bs[0]) + hex_of(t));
        assert forall|i: int| 0 <= i < bs.len() implies #[trigger] hex_pair_spells(hex_of(bs), i, bs[i]) by {
            if i == 0 {
                assert(h[0] == byte_hex(bs[0])[0]);
                assert(h[1] == byte_hex(bs[0])[1]);
            } else {
                let j = i - 1;
                assert(bs[i] == t[j]);
                assert(2 * i == 2 * j + 2);
                assert(h[2 * i] == hex_of(t)[2 * j]);
                assert(h[2 * i + 1] == hex_of(t)[2 * j + 1]);
                assert(hex_pair_spells(hex_of(t), j, t[j]));
            }
        }
    }
}

/// The hyphenated form of 16 bytes is 36 characters: hyphens at 8, 13, 18
/// and 23, and two lower-case hexadecimal digits for each byte in order
/// around them.
pub proof fn lemma_uuid_hyphenated_layout(b: Seq<u8>)
    requires
        b.len() == 16,
    ensures
        uuid_hyphenated(b).len() == 36,
        uuid_hyphenated(b)[8] == '-' && uuid_hyphenated(b)[13] == '-' && uuid_hyphenated(b)[18] == '-'
            && uuid_hyphenated(b)[23] == '-',
        uuid_hyphenated(b).subrange(0, 8) == hex_of(b.subrange(0, 4)),
        uuid_hyphenated(b).subrange(9, 13) == hex_of(b.subrange(4, 6)),
        uuid_hyphenated(b).subrange(14, 18) == hex_of(b.subrange(6, 8)),
        uuid_hyphenated(b).subrange(19, 23) == hex_of(b.subrange(8, 10)),
        uuid_hyphenated(b).subrange(24, 36) == hex_of(b.subrange(10, 16)),
{
    lemma_hex_of_layout(b.subrange(0, 4));
    lemma_hex_of_layout(b.subrange(4, 6));
    lemma_hex_of_layout(b.subrange(6, 8));
    lemma_hex_of_layout(b.subrange(8, 10));
    lemma_hex_of_layout(b.subrange(10, 16));
    let u = uuid_hyphenated(b);
    assert(u.subrange(0, 8) =~= hex_of(b.subrange(0, 4)));
    assert(u.subrange(9, 13) =~= hex_of(b.subrange(4, 6)));
    assert(u.subrange(14, 18) =~= hex_of(b.subrange(6, 8)));
    assert(u.subrange(19, 23) =~= hex_of(b.subrange(8, 10)));
    assert(u.subrange(24, 36) =~= hex_of(b.subrange(10, 16)));
}

} // verus!
