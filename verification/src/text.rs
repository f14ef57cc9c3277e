//! Character-level text utilities shared by the protocol parsers.
//!
//! Strings are modelled by their `Seq<char>` views; the executable helpers
//! work on `Vec<char>` buffers and are proved against the spec functions here.

use vstd::prelude::*;

verus! {

/// Unicode `White_Space`, the set that `char::is_whitespace` tests.
pub open spec fn is_ws(c: char) -> bool {
    let u = c as u32;
    (9 <= u && u <= 13) || u == 32 || u == 0x85 || u == 0xA0 || u == 0x1680 || (0x2000 <= u
        && u <= 0x200A) || u == 0x2028 || u == 0x2029 || u == 0x202F || u == 0x205F || u
        == 0x3000
}

/// Executable whitespace test.
pub fn is_ws_char(c: char) -> (b: bool)
    ensures
        b == is_ws(c),
{
    let u = c as u32;
    (9 <= u && u <= 13) || u == 32 || u == 0x85 || u == 0xA0 || u == 0x1680 || (0x2000 <= u
        && u <= 0x200A) || u == 0x2028 || u == 0x2029 || u == 0x202F || u == 0x205F || u
        == 0x3000
}

pub open spec fn ws_pred() -> spec_fn(char) -> bool {
    |c: char| is_ws(c)
}

pub open spec fn non_ws_pred() -> spec_fn(char) -> bool {
    |c: char| !is_ws(c)
}

pub open spec fn eq_pred(ch: char) -> spec_fn(char) -> bool {
    |c: char| c == ch
}

pub open spec fn ne_pred(ch: char) -> spec_fn(char) -> bool {
    |c: char| c != ch
}

/// Number of leading characters of `s` that satisfy `p`.
pub open spec fn prefix_len(s: Seq<char>, p: spec_fn(char) -> bool) -> nat
    decreases s.len(),
{
    if s.len() > 0 && p(s[0]) {
        1 + prefix_len(s.drop_first(), p)
    } else {
        0
    }
}

/// Number of trailing characters of `s` that satisfy `p`.
pub open spec fn suffix_len(s: Seq<char>, p: spec_fn(char) -> bool) -> nat
    decreases s.len(),
{
    if s.len() > 0 && p(s.last()) {
        1 + suffix_len(s.drop_last(), p)
    } else {
        0
    }
}

/// `str::trim_start_matches` for a predicate.
pub open spec fn trim_start_by(s: Seq<char>, p: spec_fn(char) -> bool) -> Seq<char> {
    s.skip(prefix_len(s, p) as int)
}

/// `str::trim_end_matches` for a predicate.
pub open spec fn trim_end_by(s: Seq<char>, p: spec_fn(char) -> bool) -> Seq<char> {
    s.take(s.len() - suffix_len(s, p))
}

/// `str::trim`: removes leading and trailing Unicode whitespace.
pub open spec fn trim(s: Seq<char>) -> Seq<char> {
    trim_end_by(trim_start_by(s, ws_pred()), ws_pred())
}

/// A matching prefix is never longer than the text.
pub proof fn lemma_prefix_len_bound(s: Seq<char>, p: spec_fn(char) -> bool)
    ensures
        prefix_len(s, p) <= s.len(),
    decreases s.len(),
{
    if s.len() > 0 && p(s[0]) {
        lemma_prefix_len_bound(s.drop_first(), p);
    }
}

/// A matching suffix is never longer than the text.
pub proof fn lemma_suffix_len_bound(s: Seq<char>, p: spec_fn(char) -> bool)
    ensures
        suffix_len(s, p) <= s.len(),
    decreases s.len(),
{
    if s.len() > 0 && p(s.last()) {
        lemma_suffix_len_bound(s.drop_last(), p);
    }
}

/// A run of `n` leading characters satisfying `p`, ended by the end or by a
/// character that fails `p`, is exactly `prefix_len`.
pub proof fn lemma_prefix_len_is(s: Seq<char>, p: spec_fn(char) -> bool, n: int)
    requires
        0 <= n <= s.len(),
        forall|k: int| 0 <= k < n ==> #[trigger] p(s[k]),
        n == s.len() || !p(s[n]),
    ensures
        prefix_len(s, p) == n,
    decreases n,
{
    if n > 0 {
        let t = s.drop_first();
        assert forall|k: int| 0 <= k < n - 1 implies #[trigger] p(t[k]) by {
            assert(t[k] == s[k + 1]);
            assert(p(s[k + 1]));
        }
        if n - 1 < t.len() {
            assert(t[n - 1] == s[n]);
        }
        assert(p(s[0]));
        lemma_prefix_len_is(t, p, n - 1);
    }
}

/// Mirror image of `lemma_prefix_len_is` for trailing runs.
pub proof fn lemma_suffix_len_is(s: Seq<char>, p: spec_fn(char) -> bool, n: int)
    requires
        0 <= n <= s.len(),
        forall|k: int| s.len() - n <= k < s.len() ==> #[trigger] p(s[k]),
        n == s.len() || !p(s[s.len() - n - 1]),
    ensures
        suffix_len(s, p) == n,
    decreases n,
{
    if n > 0 {
        let t = s.drop_last();
        assert forall|k: int| t.len() - (n - 1) <= k < t.len() implies #[trigger] p(t[k]) by {
            assert(t[k] == s[k]);
            assert(p(s[k]));
        }
        if n - 1 < t.len() {
            assert(t[t.len() - (n - 1) - 1] == s[s.len() - n - 1]);
        }
        assert(p(s[s.len() - 1]));
        lemma_suffix_len_is(t, p, n - 1);
    }
}

/// Copies `v[lo..hi]` into a fresh vector.
pub fn copy_range(v: &Vec<char>, lo: usize, hi: usize) -> (r: Vec<char>)
    requires
        lo <= hi <= v.len(),
    ensures
        r@ == v@.subrange(lo as int, hi as int),
{
    let mut r: Vec<char> = Vec::new();
    let mut i = lo;
    while i < hi
        invariant
            lo <= i <= hi <= v.len(),
            r@ == v@.subrange(lo as int, i as int),
        decreases hi - i,
    {
        r.push(v[i]);
        i = i + 1;
    }
    r
}

/// `trim` of the sub-sequence `v[lo..hi]`.
pub fn trim_range(v: &Vec<char>, lo: usize, hi: usize) -> (r: Vec<char>)
    requires
        lo <= hi <= v.len(),
    ensures
        r@ == trim(v@.subrange(lo as int, hi as int)),
{
    let ghost s = v@.subrange(lo as int, hi as int);
    let mut a = lo;
    while a < hi && is_ws_char(v[a])
        invariant
            lo <= a <= hi <= v.len(),
            s == v@.subrange(lo as int, hi as int),
            forall|k: int| 0 <= k < a - lo ==> #[trigger] is_ws(s[k]),
        decreases hi - a,
    {
        a = a + 1;
    }
    proof {
        assert forall|k: int| 0 <= k < a - lo implies #[trigger] ws_pred()(s[k]) by {
            assert(is_ws(s[k]));
        }
        lemma_prefix_len_is(s, ws_pred(), a - lo);
    }
    let ghost t = s.skip(a - lo);
    assert(t =~= v@.subrange(a as int, hi as int));
    let mut b = hi;
    while b > a && is_ws_char(v[b - 1])
        invariant
            lo <= a <= b <= hi <= v.len(),
            t == v@.subrange(a as int, hi as int),
            forall|k: int| b - a <= k < t.len() ==> #[trigger] is_ws(t[k]),
        decreases b - a,
    {
        b = b - 1;
    }
    proof {
        assert forall|k: int| t.len() - (hi - b) <= k < t.len() implies #[trigger] ws_pred()(
            t[k],
        ) by {
            assert(is_ws(t[k]));
        }
        if hi - b < t.len() {
            assert(t[t.len() - (hi - b) - 1] == v@[b - 1]);
        }
        lemma_suffix_len_is(t, ws_pred(), hi - b);
        assert(t.take(t.len() - (hi - b)) =~= v@.subrange(a as int, b as int));
    }
    copy_range(v, a, b)
}

/// Collects the characters of a string slice into a vector.
pub fn chars_of(s: &str) -> (v: Vec<char>)
    ensures
        v@ == s@,
{
    let mut v: Vec<char> = Vec::new();
    for c in it: s.chars()
        invariant
            v@ == it.seq().take(it.index() as int),
            it.seq() == s@,
    {
        v.push(c);
    }
    v
}

/// Builds a `String` from a vector of characters (`Iterator::collect`).
#[verifier::external_body]
pub(crate) fn string_of(v: &Vec<char>) -> (s: String)
    ensures
        s@ == v@,
{
    v.iter().collect()
}


/// `str::split_whitespace`: the maximal runs of non-whitespace characters.
pub open spec fn split_ws(s: Seq<char>) -> Seq<Seq<char>>
    decreases s.len(),
{
    if s.len() == 0 {
        Seq::empty()
    } else if is_ws(s[0]) {
        split_ws(s.drop_first())
    } else {
        let k = prefix_len(s, non_ws_pred());
        proof {
            lemma_prefix_len_bound(s, non_ws_pred());
        }
        seq![s.take(k as int)] + split_ws(s.skip(k as int))
    }
}

/// Deep view of a vector of character buffers.
pub open spec fn vv(v: Seq<Vec<char>>) -> Seq<Seq<char>> {
    v.map_values(|x: Vec<char>| x@)
}

/// Splits `v` at Unicode whitespace into its non-empty tokens.
pub fn split_whitespace(v: &Vec<char>) -> (r: Vec<Vec<char>>)
    ensures
        vv(r@) == split_ws(v@),
{
    let mut r: Vec<Vec<char>> = Vec::new();
    let n = v.len();
    let mut i: usize = 0;
    assert(v@.skip(0) =~= v@);
    assert(vv(r@) + split_ws(v@) =~= split_ws(v@));
    while i < n
        invariant
            n == v.len(),
            i <= n,
            split_ws(v@) == vv(r@) + split_ws(v@.skip(i as int)),
        decreases n - i,
    {
        let ghost s = v@.skip(i as int);
        if is_ws_char(v[i]) {
            assert(s.drop_first() =~= v@.skip(i + 1));
            i = i + 1;
        } else {
            let mut j = i + 1;
            while j < n && !is_ws_char(v[j])
                invariant
                    n == v.len(),
                    i < j <= n,
                    s == v@.skip(i as int),
                    forall|k: int| 0 <= k < j - i ==> !is_ws(#[trigger] s[k]),
                decreases n - j,
            {
                j = j + 1;
            }
            proof {
                assert forall|k: int| 0 <= k < j - i implies #[trigger] non_ws_pred()(s[k]) by {
                    assert(!is_ws(s[k]));
                }
                if j < n {
                    assert(s[j - i] == v@[j as int]);
                }
                lemma_prefix_len_is(s, non_ws_pred(), j - i);
                assert(s.skip(j - i) =~= v@.skip(j as int));
            }
            let tok = copy_range(v, i, j);
            assert(tok@ =~= s.take(j - i));
            let ghost before = r@;
            r.push(tok);
            assert(vv(r@) =~= vv(before) + seq![tok@]);
            assert(vv(r@) + split_ws(v@.skip(j as int)) =~= vv(before) + split_ws(s));
            i = j;
        }
    }
    assert(v@.skip(n as int) =~= Seq::<char>::empty());
    assert(vv(r@) + Seq::<Seq<char>>::empty() =~= vv(r@));
    r
}

/// Character-wise equality of two buffers.
pub fn chars_eq(a: &Vec<char>, b: &Vec<char>) -> (r: bool)
    ensures
        r == (a@ == b@),
{
    if a.len() != b.len() {
        return false;
    }
    let mut i: usize = 0;
    while i < a.len()
        invariant
            a.len() == b.len(),
            i <= a.len(),
            forall|k: int| 0 <= k < i ==> a@[k] == b@[k],
        decreases a.len() - i,
    {
        if a[i] != b[i] {
            return false;
        }
        i = i + 1;
    }
    assert(a@ =~= b@);
    true
}

/// `str::starts_with` for a string prefix.
pub open spec fn starts_with(s: Seq<char>, p: Seq<char>) -> bool {
    p.len() <= s.len() && s.take(p.len() as int) == p
}

/// `str::ends_with` for a string suffix.
pub open spec fn ends_with(s: Seq<char>, p: Seq<char>) -> bool {
    p.len() <= s.len() && s.skip(s.len() - p.len()) == p
}

pub fn has_prefix(s: &Vec<char>, p: &Vec<char>) -> (r: bool)
    ensures
        r == starts_with(s@, p@),
{
    if p.len() > s.len() {
        return false;
    }
    let mut i: usize = 0;
    while i < p.len()
        invariant
            p.len() <= s.len(),
            i <= p.len(),
            forall|k: int| 0 <= k < i ==> s@[k] == p@[k],
        decreases p.len() - i,
    {
        if s[i] != p[i] {
            assert(s@.take(p.len() as int)[i as int] != p@[i as int]);
            return false;
        }
        i = i + 1;
    }
    assert(s@.take(p.len() as int) =~= p@);
    true
}

pub fn has_suffix(s: &Vec<char>, p: &Vec<char>) -> (r: bool)
    ensures
        r == ends_with(s@, p@),
{
    if p.len() > s.len() {
        return false;
    }
    let off = s.len() - p.len();
    let mut i: usize = 0;
    while i < p.len()
        invariant
            p.len() <= s.len(),
            off == s.len() - p.len(),
            i <= p.len(),
            forall|k: int| 0 <= k < i ==> s@[off + k] == p@[k],
        decreases p.len() - i,
    {
        if s[off + i] != p[i] {
            assert(s@.skip(off as int)[i as int] != p@[i as int]);
            return false;
        }
        i = i + 1;
    }
    assert(s@.skip(off as int) =~= p@);
    true
}

/// Whether `ch` occurs in `s` (`str::contains` for one character).
pub fn has_char(s: &Vec<char>, ch: char) -> (r: bool)
    ensures
        r == s@.contains(ch),
{
    let mut i: usize = 0;
    while i < s.len()
        invariant
            i <= s.len(),
            forall|k: int| 0 <= k < i ==> s@[k] != ch,
        decreases s.len() - i,
    {
        if s[i] == ch {
            assert(s@[i as int] == ch);
            return true;
        }
        i = i + 1;
    }
    false
}

/// `str::trim_start_matches(ch)` followed by `trim_end_matches(ch2)`.
pub fn trim_char_ends(v: &Vec<char>, first: char, last: char) -> (r: Vec<char>)
    ensures
        r@ == trim_end_by(trim_start_by(v@, eq_pred(first)), eq_pred(last)),
{
    let n = v.len();
    let mut a: usize = 0;
    while a < n && v[a] == first
        invariant
            n == v.len(),
            a <= n,
            forall|k: int| 0 <= k < a ==> #[trigger] v@[k] == first,
        decreases n - a,
    {
        a = a + 1;
    }
    proof {
        assert forall|k: int| 0 <= k < a implies #[trigger] eq_pred(first)(v@[k]) by {
            assert(v@[k] == first);
        }
        lemma_prefix_len_is(v@, eq_pred(first), a as int);
    }
    let ghost t = v@.skip(a as int);
    let mut b = n;
    while b > a && v[b - 1] == last
        invariant
            n == v.len(),
            a <= b <= n,
            t == v@.skip(a as int),
            forall|k: int| b - a <= k < t.len() ==> #[trigger] t[k] == last,
        decreases b - a,
    {
        b = b - 1;
    }
    proof {
        assert forall|k: int| t.len() - (n - b) <= k < t.len() implies #[trigger] eq_pred(last)(
            t[k],
        ) by {
            assert(t[k] == last);
        }
        if n - b < t.len() {
            assert(t[t.len() - (n - b) - 1] == v@[b - 1]);
        }
        lemma_suffix_len_is(t, eq_pred(last), n - b);
        assert(t.take(t.len() - (n - b)) =~= v@.subrange(a as int, b as int));
    }
    copy_range(v, a, b)
}

/// Joins character sequences with a separator.
pub open spec fn join(parts: Seq<Seq<char>>, sep: Seq<char>) -> Seq<char>
    decreases parts.len(),
{
    if parts.len() == 0 {
        Seq::empty()
    } else if parts.len() == 1 {
        parts[0]
    } else {
        join(parts.drop_last(), sep) + sep + parts.last()
    }
}

/// `[&str]::join(" ")` on the tokens `parts[from..]`.
pub fn join_from(parts: &Vec<Vec<char>>, from: usize, sep: char) -> (r: Vec<char>)
    requires
        from <= parts.len(),
    ensures
        r@ == join(vv(parts@).skip(from as int), seq![sep]),
{
    let mut r: Vec<char> = Vec::new();
    let mut i = from;
    let ghost ps = vv(parts@).skip(from as int);
    while i < parts.len()
        invariant
            from <= i <= parts.len(),
            ps == vv(parts@).skip(from as int),
            r@ == join(ps.take(i - from), seq![sep]),
        decreases parts.len() - i,
    {
        let ghost prev = r@;
        if i > from {
            r.push(sep);
        }
        let piece = &parts[i];
        let mut k: usize = 0;
        let ghost mid = r@;
        while k < piece.len()
            invariant
                k <= piece.len(),
                r@ == mid + piece@.take(k as int),
            decreases piece.len() - k,
        {
            r.push(piece[k]);
            k = k + 1;
            assert(r@ =~= mid + piece@.take(k as int));
        }
        proof {
            let q = ps.take(i + 1 - from);
            assert(q.drop_last() =~= ps.take(i - from));
            assert(q.last() == piece@);
            assert(piece@.take(piece@.len() as int) =~= piece@);
            if i == from {
                assert(q =~= seq![piece@]);
                assert(r@ =~= piece@);
            } else {
                assert(r@ =~= prev + seq![sep] + piece@);
            }
        }
        i = i + 1;
    }
    assert(ps.take(parts.len() - from) =~= ps);
    r
}

/// The decimal digit character for `d < 10`.
pub open spec fn digit_char(d: nat) -> char {
    if d == 0 {
        '0'
    } else if d == 1 {
        '1'
    } else if d == 2 {
        '2'
    } else if d == 3 {
        '3'
    } else if d == 4 {
        '4'
    } else if d == 5 {
        '5'
    } else if d == 6 {
        '6'
    } else if d == 7 {
        '7'
    } else if d == 8 {
        '8'
    } else {
        '9'
    }
}

/// Decimal rendering of a natural number, as `format!("{}", n)` writes it.
pub open spec fn dec(n: nat) -> Seq<char>
    decreases n,
{
    if n < 10 {
        seq![digit_char(n)]
    } else {
        dec(n / 10).push(digit_char(n % 10))
    }
}

fn digit_char_exec(d: u64) -> (c: char)
    requires
        d < 10,
    ensures
        c == digit_char(d as nat),
{
    if d == 0 {
        '0'
    } else if d == 1 {
        '1'
    } else if d == 2 {
        '2'
    } else if d == 3 {
        '3'
    } else if d == 4 {
        '4'
    } else if d == 5 {
        '5'
    } else if d == 6 {
        '6'
    } else if d == 7 {
        '7'
    } else if d == 8 {
        '8'
    } else {
        '9'
    }
}

/// Appends the decimal rendering of `n`.
pub fn push_dec(out: &mut Vec<char>, n: u64)
    ensures
        final(out)@ == old(out)@ + dec(n as nat),
    decreases n,
{
    if n >= 10 {
        push_dec(out, n / 10);
    }
    out.push(digit_char_exec(n % 10));
    proof {
        if n < 10 {
            assert(dec(n as nat) =~= seq![digit_char(n as nat)]);
        }
    }
}

/// Appends the characters of a string slice.
pub fn push_str(out: &mut Vec<char>, s: &str)
    ensures
        final(out)@ == old(out)@ + s@,
{
    let v = chars_of(s);
    push_chars(out, &v);
}

/// Appends the characters of another buffer.
pub fn push_chars(out: &mut Vec<char>, v: &Vec<char>)
    ensures
        final(out)@ == old(out)@ + v@,
{
    let ghost start = out@;
    let mut i: usize = 0;
    while i < v.len()
        invariant
            i <= v.len(),
            out@ == start + v@.take(i as int),
        decreases v.len() - i,
    {
        out.push(v[i]);
        i = i + 1;
        assert(out@ =~= start + v@.take(i as int));
    }
    assert(v@.take(v.len() as int) =~= v@);
}


/// Why an integer failed to parse, as `core::num::IntErrorKind` reports it.
#[derive(Debug, Clone, Copy, PartialEq, Eq)]
pub enum IntErrorKind {
    Empty,
    InvalidDigit,
    PosOverflow,
}

/// `char::to_digit(radix)` for radix 10 and 16.
pub open spec fn digit_value(c: char, radix: nat) -> Option<nat> {
    let u = c as u32;
    if 48 <= u && u <= 57 && u - 48 < radix {
        Some((u - 48) as nat)
    } else if radix == 16 && 97 <= u && u <= 102 {
        Some((u - 87) as nat)
    } else if radix == 16 && 65 <= u && u <= 70 {
        Some((u - 55) as nat)
    } else {
        None
    }
}

/// Left-to-right accumulation of digits into a `u32`, failing on the first
/// invalid digit or on overflow.
pub open spec fn parse_digits(ds: Seq<char>, radix: nat, acc: nat) -> Result<nat, IntErrorKind>
    decreases ds.len(),
{
    if ds.len() == 0 {
        Ok(acc)
    } else {
        match digit_value(ds[0], radix) {
            None => Err(IntErrorKind::InvalidDigit),
            Some(x) => if acc * radix + x > u32::MAX {
                Err(IntErrorKind::PosOverflow)
            } else {
                parse_digits(ds.drop_first(), radix, acc * radix + x)
            },
        }
    }
}

/// `u32::from_str_radix(s, radix)` (and `str::parse::<u32>` for radix 10).
pub open spec fn parse_u32_spec(s: Seq<char>, radix: nat) -> Result<nat, IntErrorKind> {
    if s.len() == 0 {
        Err(IntErrorKind::Empty)
    } else if (s[0] == '+' || s[0] == '-') && s.len() == 1 {
        Err(IntErrorKind::InvalidDigit)
    } else if s[0] == '+' {
        parse_digits(s.drop_first(), radix, 0)
    } else {
        parse_digits(s, radix, 0)
    }
}

/// The message that `ParseIntError` displays for each kind.
pub open spec fn int_error_text(k: IntErrorKind) -> Seq<char> {
    match k {
        IntErrorKind::Empty => "cannot parse integer from empty string"@,
        IntErrorKind::InvalidDigit => "invalid digit found in string"@,
        IntErrorKind::PosOverflow => "number too large to fit in target type"@,
    }
}

/// Digit parsing that succeeds stays within `u32`.
pub proof fn lemma_parse_digits_bound(ds: Seq<char>, radix: nat, acc: nat)
    requires
        acc <= u32::MAX,
    ensures
        parse_digits(ds, radix, acc) matches Ok(v) ==> v <= u32::MAX,
    decreases ds.len(),
{
    if ds.len() > 0 {
        if let Some(x) = digit_value(ds[0], radix) {
            if acc * radix + x <= u32::MAX {
                lemma_parse_digits_bound(ds.drop_first(), radix, acc * radix + x);
            }
        }
    }
}

fn digit_value_exec(c: char, radix: u32) -> (r: Option<u32>)
    requires
        radix == 10 || radix == 16,
    ensures
        match r {
            Some(x) => digit_value(c, radix as nat) == Some(x as nat) && x < radix,
            None => digit_value(c, radix as nat).is_none(),
        },
{
    let u = c as u32;
    if 48 <= u && u <= 57 && u - 48 < radix {
        Some(u - 48)
    } else if radix == 16 && 97 <= u && u <= 102 {
        Some(u - 87)
    } else if radix == 16 && 65 <= u && u <= 70 {
        Some(u - 55)
    } else {
        None
    }
}

/// Parses `s` as an unsigned 32-bit integer in the given radix.
pub fn parse_u32_radix(s: &Vec<char>, radix: u32) -> (r: Result<u32, IntErrorKind>)
    requires
        radix == 10 || radix == 16,
    ensures
        match r {
            Ok(v) => parse_u32_spec(s@, radix as nat) == Ok::<nat, IntErrorKind>(v as nat),
            Err(e) => parse_u32_spec(s@, radix as nat) == Err::<nat, IntErrorKind>(e),
        },
{
    let n = s.len();
    if n == 0 {
        return Err(IntErrorKind::Empty);
    }
    if (s[0] == '+' || s[0] == '-') && n == 1 {
        return Err(IntErrorKind::InvalidDigit);
    }
    let mut i: usize = if s[0] == '+' { 1 } else { 0 };
    let ghost ds = s@.skip(i as int);
    assert(s[0] == '+' ==> ds =~= s@.drop_first());
    assert(s[0] != '+' ==> ds =~= s@);
    let mut acc: u32 = 0;
    assert(ds =~= s@.skip(i as int));
    assert(parse_u32_spec(s@, radix as nat) == parse_digits(ds, radix as nat, 0));
    while i < n
        invariant
            n == s.len(),
            i <= n,
            radix == 10 || radix == 16,
            parse_u32_spec(s@, radix as nat) == parse_digits(ds, radix as nat, 0),
            parse_digits(ds, radix as nat, 0) == parse_digits(s@.skip(i as int), radix as nat, acc as nat),
        decreases n - i,
    {
        let ghost rest = s@.skip(i as int);
        assert(rest[0] == s@[i as int]);
        assert(rest.drop_first() =~= s@.skip(i + 1));
        let d = digit_value_exec(s[i], radix);
        match d {
            None => {
                return Err(IntErrorKind::InvalidDigit);
            },
            Some(x) => {
                let wide: u64 = (acc as u64) * (radix as u64) + (x as u64);
                if wide > 0xffff_ffff {
                    return Err(IntErrorKind::PosOverflow);
                }
                acc = wide as u32;
            },
        }
        i = i + 1;
    }
    assert(s@.skip(n as int).len() == 0);
    Ok(acc)
}

/// What `str::to_lowercase` gives for `s`: each character replaced by its
/// Unicode lowercase mapping.
pub uninterp spec fn lowercase(s: Seq<char>) -> Seq<char>;

/// The ASCII lowercase of a character: `A`..`Z` become `a`..`z`, the rest
/// stay.
pub open spec fn ascii_lower(c: char) -> char {
    if 'A' <= c && c <= 'Z' {
        ((c as u32) + 32) as char
    } else {
        c
    }
}

/// `str::to_lowercase`. Trusted: the result is named by `lowercase`; on text
/// of ASCII characters alone it lowers `A`..`Z` and keeps the rest, as the
/// Unicode lowercase mapping does there. Nothing more is stated of it.
#[verifier::external_body]
pub(crate) fn to_lowercase(s: &str) -> (r: String)
    ensures
        r@ == lowercase(s@),
        (forall|i: int| 0 <= i < s@.len() ==> (#[trigger] s@[i] as u32) < 128) ==> r@ == s@.map_values(
            |c: char| ascii_lower(c),
        ),
{
    s.to_lowercase()
}

/// Whether `char::is_alphanumeric` holds of `c` (the Unicode `Alphabetic` or
/// `Numeric` property).
pub uninterp spec fn alphanumeric(c: char) -> bool;

/// `char::is_alphanumeric`. Trusted: the result is named by `alphanumeric`;
/// among ASCII characters it holds of the letters and digits alone, the
/// only ASCII characters with the Unicode `Alphabetic` or `Numeric` property.
#[verifier::external_body]
pub(crate) fn is_alphanumeric(c: char) -> (b: bool)
    ensures
        b == alphanumeric(c),
        (c as u32) < 128 ==> (b <==> (('a' <= c && c <= 'z') || ('A' <= c && c <= 'Z') || ('0' <= c
            && c <= '9'))),
{
    c.is_alphanumeric()
}

/// Whether two string slices hold the same characters.
pub fn str_eq(a: &str, b: &str) -> (r: bool)
    ensures
        r == (a@ == b@),
{
    let va = chars_of(a);
    let vb = chars_of(b);
    chars_eq(&va, &vb)
}

/// Index of the first occurrence of `c` in `s`, if any.
pub open spec fn first_index(s: Seq<char>, c: char) -> Option<int>
    decreases s.len(),
{
    if s.len() == 0 {
        None
    } else if s[0] == c {
        Some(0)
    } else {
        match first_index(s.drop_first(), c) {
            Some(i) => Some(i + 1),
            None => None,
        }
    }
}

/// Characterizes `first_index`.
pub proof fn lemma_first_index(s: Seq<char>, c: char)
    ensures
        first_index(s, c) matches Some(i) ==> 0 <= i < s.len() && s[i] == c && forall|k: int|
            0 <= k < i ==> s[k] != c,
        first_index(s, c) is None <==> !s.contains(c),
    decreases s.len(),
{
    if s.len() > 0 {
        lemma_first_index(s.drop_first(), c);
        if s[0] != c {
            if let Some(i) = first_index(s, c) {
                assert forall|k: int| 0 <= k < i implies s[k] != c by {
                    if k > 0 {
                        assert(s[k] == s.drop_first()[k - 1]);
                    }
                }
            }
            if s.drop_first().contains(c) {
                let j = choose|j: int| 0 <= j < s.drop_first().len() && s.drop_first()[j] == c;
                assert(s[j + 1] == c);
            }
            if s.contains(c) {
                let j = choose|j: int| 0 <= j < s.len() && s[j] == c;
                assert(s.drop_first()[j - 1] == c);
            }
        }
    }
}

/// Finds the first occurrence of `c` in `s`.
pub fn find_char(s: &Vec<char>, c: char) -> (r: Option<usize>)
    ensures
        r matches Some(i) ==> first_index(s@, c) == Some(i as int),
        r is None ==> first_index(s@, c) is None,
{
    proof {
        lemma_first_index(s@, c);
    }
    let mut i: usize = 0;
    while i < s.len()
        invariant
            i <= s.len(),
            forall|k: int| 0 <= k < i ==> s@[k] != c,
        decreases s.len() - i,
    {
        if s[i] == c {
            proof {
                lemma_first_index(s@, c);
                if first_index(s@, c) != Some(i as int) {
                    match first_index(s@, c) {
                        Some(j) => {
                            assert(j > i as int);
                        },
                        None => {
                            assert(s@.contains(c)) by {
                                assert(s@[i as int] == c);
                            }
                        },
                    }
                }
            }
            return Some(i);
        }
        i = i + 1;
    }
    proof {
        if s@.contains(c) {
            let j = choose|j: int| 0 <= j < s@.len() && s@[j] == c;
            assert(s@[j] != c);
        }
    }
    None
}

/// Whether `t` is words separated by single spaces: it starts and ends with
/// a character that is not white space, and every white-space character in
/// it is a space followed by one that is not.
pub open spec fn single_spaced(t: Seq<char>) -> bool {
    &&& t.len() > 0
    &&& !is_ws(t[0])
    &&& !is_ws(t.last())
    &&& forall|i: int| 0 <= i < t.len() - 1 && #[trigger] is_ws(t[i]) ==> t[i] == ' ' && !is_ws(t[i + 1])
}

/// The characters counted by `prefix_len` satisfy the predicate, and the one
/// after them, if any, does not.
pub proof fn lemma_prefix_len_props(s: Seq<char>, p: spec_fn(char) -> bool)
    ensures
        prefix_len(s, p) <= s.len(),
        forall|i: int| 0 <= i < prefix_len(s, p) ==> #[trigger] p(s[i]),
        prefix_len(s, p) < s.len() ==> !p(s[prefix_len(s, p) as int]),
    decreases s.len(),
{
    if s.len() > 0 && p(s[0]) {
        let t = s.drop_first();
        lemma_prefix_len_props(t, p);
        assert forall|i: int| 0 <= i < prefix_len(s, p) implies #[trigger] p(s[i]) by {
            if i > 0 {
                assert(s[i] == t[i - 1]);
            }
        }
        if prefix_len(s, p) < s.len() {
            assert(s[prefix_len(s, p) as int] == t[prefix_len(t, p) as int]);
        }
    }
}

/// Splitting a word followed by white space or nothing gives the word, then
/// the words of the rest.
pub proof fn lemma_split_ws_word(w: Seq<char>, rest: Seq<char>)
    requires
        w.len() > 0,
        forall|i: int| 0 <= i < w.len() ==> !is_ws(#[trigger] w[i]),
        rest.len() == 0 || is_ws(rest[0]),
    ensures
        split_ws(w + rest) == seq![w] + split_ws(rest),
{
    let s = w + rest;
    assert forall|k: int| 0 <= k < w.len() implies #[trigger] non_ws_pred()(s[k]) by {
        assert(s[k] == w[k]);
    }
    if rest.len() > 0 {
        assert(s[w.len() as int] == rest[0]);
    }
    lemma_prefix_len_is(s, non_ws_pred(), w.len() as int);
    assert(s[0] == w[0]);
    assert(s.take(w.len() as int) =~= w);
    assert(s.skip(w.len() as int) =~= rest);
}

/// A leading white-space character does not change the words.
pub proof fn lemma_split_ws_skip(c: char, rest: Seq<char>)
    requires
        is_ws(c),
    ensures
        split_ws(seq![c] + rest) == split_ws(rest),
{
    let s = seq![c] + rest;
    assert(s[0] == c);
    assert(s.drop_first() =~= rest);
}

/// Joining a word and at least one more: the word, the separator, and the
/// others joined.
pub proof fn lemma_join_cons(w: Seq<char>, ws: Seq<Seq<char>>, sep: Seq<char>)
    requires
        ws.len() > 0,
    ensures
        join(seq![w] + ws, sep) == w + sep + join(ws, sep),
    decreases ws.len(),
{
    let all = seq![w] + ws;
    assert(all.len() >= 2);
    assert(join(all, sep) == join(all.drop_last(), sep) + sep + all.last());
    assert(all.last() == ws.last());
    if ws.len() == 1 {
        assert(all.drop_last() =~= seq![w]);
        assert(join(seq![w], sep) == w);
        assert(join(ws, sep) == ws[0]);
        assert(ws.last() == ws[0]);
    } else {
        lemma_join_cons(w, ws.drop_last(), sep);
        assert(all.drop_last() =~= seq![w] + ws.drop_last());
        assert(join(ws, sep) == join(ws.drop_last(), sep) + sep + ws.last());
        assert(w + sep + join(ws.drop_last(), sep) + sep + ws.last() =~= w + sep + (join(
            ws.drop_last(),
            sep,
        ) + sep + ws.last()));
    }
}

/// Words separated by single spaces, split at white space and joined again
/// with single spaces, are what they were.
#[verifier::rlimit(60)]
pub proof fn lemma_join_split_single_spaced(t: Seq<char>)
    requires
        single_spaced(t),
    ensures
        split_ws(t).len() > 0,
        join(split_ws(t), seq![' ']) == t,
    decreases t.len(),
{
    lemma_prefix_len_props(t, non_ws_pred());
    let k = prefix_len(t, non_ws_pred()) as int;
    assert(non_ws_pred()(t[0]));
    assert(k >= 1);
    let w = t.take(k);
    assert forall|i: int| 0 <= i < w.len() implies !is_ws(#[trigger] w[i]) by {
        assert(w[i] == t[i]);
        assert(non_ws_pred()(t[i]));
    }
    if k == t.len() {
        assert(w =~= t);
        lemma_split_ws_word(w, Seq::empty());
        assert(w + Seq::<char>::empty() =~= t);
        assert(split_ws(Seq::<char>::empty()) =~= Seq::<Seq<char>>::empty());
        assert(split_ws(t) =~= seq![t]);
    } else {
        assert(is_ws(t[k]));
        assert(k < t.len() - 1);
        assert(t[k] == ' ' && !is_ws(t[k + 1]));
        let r = t.skip(k + 1);
        let rest = t.skip(k);
        assert(rest =~= seq![' '] + r);
        assert(t =~= w + rest);
        lemma_split_ws_word(w, rest);
        lemma_split_ws_skip(' ', r);
        assert(r[0] == t[k + 1]);
        assert(r.last() == t.last());
        assert forall|i: int| 0 <= i < r.len() - 1 && #[trigger] is_ws(r[i]) implies r[i] == ' ' && !is_ws(
            r[i + 1],
        ) by {
            assert(r[i] == t[k + 1 + i]);
            assert(r[i + 1] == t[k + 2 + i]);
        }
        lemma_join_split_single_spaced(r);
        lemma_join_cons(w, split_ws(r), seq![' ']);
        assert(split_ws(t) =~= seq![w] + split_ws(r));
        assert(w + seq![' '] + r =~= t);
    }
}

/// Digit parsing over one more character: the value so far times the radix
/// plus the new digit, unless that digit is invalid or the value overflows;
/// an earlier failure stays.
pub proof fn lemma_parse_digits_push(ds: Seq<char>, c: char, radix: nat, acc: nat)
    ensures
        parse_digits(ds.push(c), radix, acc) == (match parse_digits(ds, radix, acc) {
            Ok(v) => match digit_value(c, radix) {
                None => Err(IntErrorKind::InvalidDigit),
                Some(x) => if v * radix + x > u32::MAX {
                    Err(IntErrorKind::PosOverflow)
                } else {
                    Ok(v * radix + x)
                },
            },
            Err(e) => Err(e),
        }),
    decreases ds.len(),
{
    let s = ds.push(c);
    if ds.len() == 0 {
        assert(s[0] == c);
        assert(s.drop_first() =~= Seq::<char>::empty());
        assert(parse_digits(ds, radix, acc) == Ok::<nat, IntErrorKind>(acc));
        match digit_value(c, radix) {
            None => {},
            Some(x) => {
                assert(parse_digits(Seq::<char>::empty(), radix, acc * radix + x) == Ok::<nat, IntErrorKind>(
                    acc * radix + x,
                ));
            },
        }
    } else {
        assert(s[0] == ds[0]);
        assert(s.drop_first() =~= ds.drop_first().push(c));
        match digit_value(ds[0], radix) {
            None => {},
            Some(x) => if acc * radix + x <= u32::MAX {
                lemma_parse_digits_push(ds.drop_first(), c, radix, acc * radix + x);
            },
        }
    }
}

/// The decimal rendering of a `u32` parses back as that number.
pub proof fn lemma_parse_u32_dec(n: nat)
    requires
        n <= u32::MAX,
    ensures
        parse_digits(dec(n), 10, 0) == Ok::<nat, IntErrorKind>(n),
        parse_u32_spec(dec(n), 10) == Ok::<nat, IntErrorKind>(n),
    decreases n,
{
    let d = n % 10;
    assert(digit_value(digit_char(d), 10) == Some(d));
    if n < 10 {
        assert(dec(n) =~= Seq::<char>::empty().push(digit_char(n)));
        lemma_parse_digits_push(Seq::empty(), digit_char(n), 10, 0);
        assert(n % 10 == n);
    } else {
        lemma_parse_u32_dec(n / 10);
        lemma_parse_digits_push(dec(n / 10), digit_char(d), 10, 0);
        assert((n / 10) * 10 + d == n);
    }
    assert(dec(n).len() > 0);
    assert(dec(n)[0] != '+' && dec(n)[0] != '-') by {
        lemma_dec_first_digit(n);
    }
}

/// The first character of a decimal rendering is a digit.
pub proof fn lemma_dec_first_digit(n: nat)
    ensures
        dec(n).len() > 0,
        '0' <= dec(n)[0] <= '9',
    decreases n,
{
    if n >= 10 {
        lemma_dec_first_digit(n / 10);
        assert(dec(n)[0] == dec(n / 10)[0]);
    }
}

} // verus!
