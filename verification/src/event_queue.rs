//! Reading a reply of the event queue capability: the acknowledgement number
//! to send back and the names of the events it carries.

use vstd::prelude::*;
use crate::text::{chars_of, dec, push_dec, push_str, str_eq, string_of};
use crate::xml_tree::{has_tag, parse_xml_document, xml_document, XmlNode};

verus! {

/// Whether every character is an ASCII digit.
pub open spec fn all_ascii_digits(ds: Seq<char>) -> bool {
    forall|i: int| 0 <= i < ds.len() ==> '0' <= #[trigger] ds[i] && ds[i] <= '9'
}

/// The value of a run of decimal digits.
pub open spec fn digits_value(ds: Seq<char>) -> int
    decreases ds.len(),
{
    if ds.len() == 0 {
        0
    } else {
        digits_value(ds.drop_last()) * 10 + (ds.last() as int - 48)
    }
}

/// `str::parse::<i64>`: an optional sign, then one or more ASCII digits,
/// whose value must fit in an `i64`.
pub open spec fn parse_i64_spec(s: Seq<char>) -> Option<int> {
    let neg = s.len() > 0 && s[0] == '-';
    let ds = if s.len() > 0 && (s[0] == '-' || s[0] == '+') {
        s.drop_first()
    } else {
        s
    };
    if ds.len() == 0 || !all_ascii_digits(ds) {
        None
    } else {
        let v = if neg {
            -digits_value(ds)
        } else {
            digits_value(ds)
        };
        if i64::MIN <= v && v <= i64::MAX {
            Some(v)
        } else {
            None
        }
    }
}

proof fn lemma_digits_value_nonneg(ds: Seq<char>)
    requires
        all_ascii_digits(ds),
    ensures
        digits_value(ds) >= 0,
    decreases ds.len(),
{
    if ds.len() > 0 {
        assert(all_ascii_digits(ds.drop_last())) by {
            assert forall|i: int| 0 <= i < ds.drop_last().len() implies '0' <= #[trigger] ds.drop_last()[i]
                && ds.drop_last()[i] <= '9' by {
                assert(ds.drop_last()[i] == ds[i]);
            }
        }
        lemma_digits_value_nonneg(ds.drop_last());
        assert('0' <= ds[ds.len() - 1]);
    }
}

/// Parses `s` as `str::parse::<i64>` does, giving `None` where it fails.
pub fn parse_i64(s: &str) -> (r: Option<i64>)
    ensures
        match r {
            Some(v) => parse_i64_spec(s@) == Some(v as int),
            None => parse_i64_spec(s@) is None,
        },
{
    let cs = chars_of(s);
    let n = cs.len();
    if n == 0 {
        return None;
    }
    let neg = cs[0] == '-';
    let start: usize = if cs[0] == '-' || cs[0] == '+' {
        1
    } else {
        0
    };
    let ghost ds = if s@.len() > 0 && (s@[0] == '-' || s@[0] == '+') {
        s@.drop_first()
    } else {
        s@
    };
    assert(ds =~= cs@.skip(start as int));
    if start == n {
        return None;
    }
    let limit: u64 = 0x8000_0000_0000_0000;
    let mut acc: u64 = 0;
    let mut over = false;
    let mut i: usize = start;
    while i < n
        invariant
            start <= i <= n,
            n == cs.len(),
            cs@ == s@,
            ds == cs@.skip(start as int),
            ds == (if s@.len() > 0 && (s@[0] == '-' || s@[0] == '+') {
                s@.drop_first()
            } else {
                s@
            }),
            ds.len() > 0,
            all_ascii_digits(ds.take(i - start)),
            !over ==> acc as int == digits_value(ds.take(i - start)) && acc <= limit,
            over ==> digits_value(ds.take(i - start)) > limit,
            limit == 0x8000_0000_0000_0000u64,
        decreases n - i,
    {
        let c = cs[i];
        let ghost p = ds.take(i - start);
        let ghost p1 = ds.take(i + 1 - start);
        assert(p1.drop_last() =~= p);
        assert(p1.last() == c);
        if !('0' <= c && c <= '9') {
            proof {
                assert(ds[i - start] == c);
                assert(!all_ascii_digits(ds));
            }
            return None;
        }
        assert(all_ascii_digits(p1)) by {
            assert forall|k: int| 0 <= k < p1.len() implies '0' <= #[trigger] p1[k] && p1[k] <= '9' by {
                if k < p.len() {
                    assert(p1[k] == p[k]);
                }
            }
        }
        let d: u64 = (c as u32 - 48) as u64;
        if !over {
            let w: u128 = (acc as u128) * 10 + (d as u128);
            if w > limit as u128 {
                over = true;
            } else {
                acc = w as u64;
            }
        } else {
            proof {
                lemma_digits_value_nonneg(p);
            }
        }
        i = i + 1;
    }
    assert(ds.take(n - start) =~= ds);
    if over {
        return None;
    }
    if neg {
        if acc == limit {
            Some(i64::MIN)
        } else {
            Some(-(acc as i64))
        }
    } else if acc > 0x7fff_ffff_ffff_ffff {
        None
    } else {
        Some(acc as i64)
    }
}

/// The names of the events the client looks for.
pub open spec fn known_event(name: Seq<char>) -> bool {
    name == "EnableSimulator"@ || name == "CrossedRegion"@ || name == "TeleportProgress"@ || name
        == "TeleportFinish"@ || name == "EstablishAgentCommunication"@ || name == "DisableSimulator"@
        || name == "AgentGroupDataUpdate"@
}

/// The acknowledgement number found so far and the event names, in order.
pub type ScanView = (Option<int>, Seq<Seq<char>>);

/// What one node adds: a `key` node reading "ack" followed directly by an
/// `integer` node whose text is an `i64` sets the acknowledgement number; a
/// `key` node naming a known event adds the event.
pub open spec fn visit(n: XmlNode, next: Option<XmlNode>, st: ScanView) -> ScanView {
    let is_key = n.tag@ == "key"@;
    let st1 = if is_key && n.text is Some && n.text->0@ == "ack"@ && next is Some && next->0.tag@ == "integer"@
        && next->0.text is Some && parse_i64_spec(next->0.text->0@) is Some {
        (parse_i64_spec(next->0.text->0@), st.1)
    } else {
        st
    };
    if is_key && n.text is Some && known_event(n.text->0@) {
        (st1.0, st1.1.push(n.text->0@))
    } else {
        st1
    }
}

/// `st` after visiting `n` (followed by `next`) and its descendants, in
/// document order.
pub open spec fn scan_node(n: XmlNode, next: Option<XmlNode>, st: ScanView) -> ScanView
    decreases n, 0int,
{
    scan_range(n.children@, 0, visit(n, next, st))
}

/// `st` after visiting the nodes `cs[i..]` and their descendants.
pub open spec fn scan_range(cs: Seq<XmlNode>, i: int, st: ScanView) -> ScanView
    decreases cs, cs.len() - i,
{
    if i < 0 || i >= cs.len() {
        st
    } else {
        scan_range(
            cs,
            i + 1,
            scan_node(
                cs[i],
                if i + 1 < cs.len() {
                    Some(cs[i + 1])
                } else {
                    None
                },
                st,
            ),
        )
    }
}

/// The acknowledgement number and event names of the event queue reply
/// `xml`; none of either where it is not XML.
pub open spec fn event_queue_spec(xml: Seq<char>) -> ScanView {
    match xml_document(xml) {
        None => (None, Seq::empty()),
        Some(root) => scan_node(root, None, (None, Seq::empty())),
    }
}

/// The model of an acknowledgement number.
pub open spec fn ack_view(a: Option<i64>) -> Option<int> {
    match a {
        Some(v) => Some(v as int),
        None => None,
    }
}

/// The model of a list of strings.
pub open spec fn strings_view(v: Seq<String>) -> Seq<Seq<char>> {
    v.map_values(|s: String| s@)
}

/// The node `next` refers to.
pub open spec fn deref_opt(next: Option<&XmlNode>) -> Option<XmlNode> {
    match next {
        Some(x) => Some(*x),
        None => None,
    }
}

fn is_known_event(name: &str) -> (b: bool)
    ensures
        b == known_event(name@),
{
    str_eq(name, "EnableSimulator") || str_eq(name, "CrossedRegion") || str_eq(name, "TeleportProgress")
        || str_eq(name, "TeleportFinish") || str_eq(name, "EstablishAgentCommunication") || str_eq(
        name,
        "DisableSimulator",
    ) || str_eq(name, "AgentGroupDataUpdate")
}

fn visit_exec(n: &XmlNode, next: Option<&XmlNode>, ack: &mut Option<i64>, events: &mut Vec<String>)
    ensures
        (ack_view(*final(ack)), strings_view(final(events)@)) == visit(
            *n,
            deref_opt(next),
            (ack_view(*old(ack)), strings_view(old(events)@)),
        ),
{
    if has_tag(n, "key") {
        if let Some(t) = &n.text {
            if str_eq(t.as_str(), "ack") {
                if let Some(x) = next {
                    if has_tag(x, "integer") {
                        if let Some(xt) = &x.text {
                            if let Some(v) = parse_i64(xt.as_str()) {
                                *ack = Some(v);
                            }
                        }
                    }
                }
            }
            if is_known_event(t.as_str()) {
                let ghost before = events@;
                events.push(string_of(&chars_of(t.as_str())));
                assert(strings_view(events@) =~= strings_view(before).push(t@));
            }
        }
    }
}

fn scan_node_exec(n: &XmlNode, next: Option<&XmlNode>, ack: &mut Option<i64>, events: &mut Vec<String>)
    ensures
        (ack_view(*final(ack)), strings_view(final(events)@)) == scan_node(
            *n,
            deref_opt(next),
            (ack_view(*old(ack)), strings_view(old(events)@)),
        ),
    decreases n,
{
    let ghost goal = scan_node(*n, deref_opt(next), (ack_view(*ack), strings_view(events@)));
    visit_exec(n, next, ack, events);
    let cs = &n.children;
    let mut i: usize = 0;
    while i < cs.len()
        invariant
            i <= cs.len(),
            cs == &n.children,
            goal == scan_range(cs@, i as int, (ack_view(*ack), strings_view(events@))),
        decreases cs.len() - i,
    {
        let nx: Option<&XmlNode> = if i + 1 < cs.len() {
            Some(&cs[i + 1])
        } else {
            None
        };
        scan_node_exec(&cs[i], nx, ack, events);
        i = i + 1;
    }
}

/// The acknowledgement number and the known event names in the event queue
/// reply whose root element is `root`.
pub fn eventqueue_from_document(root: &XmlNode) -> (r: (Option<i64>, Vec<String>))
    ensures
        (ack_view(r.0), strings_view(r.1@)) == scan_node(*root, None, (None, Seq::empty())),
{
    let mut ack: Option<i64> = None;
    let mut events: Vec<String> = Vec::new();
    assert(strings_view(events@) =~= Seq::<Seq<char>>::empty());
    scan_node_exec(root, None, &mut ack, &mut events);
    (ack, events)
}

/// The acknowledgement number and the known event names in the event queue
/// reply `xml`.
pub fn parse_eventqueue_response(xml: &str) -> (r: (Option<i64>, Vec<String>))
    ensures
        (ack_view(r.0), strings_view(r.1@)) == event_queue_spec(xml@),
{
    match parse_xml_document(xml) {
        Some(root) => eventqueue_from_document(&root),
        None => {
            let events: Vec<String> = Vec::new();
            assert(strings_view(events@) =~= Seq::<Seq<char>>::empty());
            (None, events)
        },
    }
}


/// The decimal form of a signed number.
pub open spec fn int_text(v: int) -> Seq<char> {
    if v < 0 {
        "-"@ + dec((-v) as nat)
    } else {
        dec(v as nat)
    }
}

/// The body of an event queue request: the acknowledgement number, if any,
/// and `done` false, as LLSD.
pub open spec fn request_payload_spec(ack: Option<i32>) -> Seq<char> {
    match ack {
        Some(v) => "<?xml version=\"1.0\" ?><llsd><map><key>ack</key><integer>"@ + int_text(v as int)
            + "</integer><key>done</key><boolean>false</boolean></map></llsd>"@,
        None => "<?xml version=\"1.0\" ?><llsd><map><key>done</key><boolean>false</boolean></map></llsd>"@,
    }
}

/// How a poll of the event queue ended.
#[derive(Debug)]
pub enum PollOutcome {
    /// The server answered with `status`; `body` is its text, or `None`
    /// where reading it failed.
    Response { status: u16, body: Option<String> },
    /// The request failed or timed out.
    Failed,
}

/// What to do after a poll.
#[derive(Debug)]
pub struct PollDecision {
    /// How long to wait before the next poll.
    pub delay_ms: u64,
    /// The known events the answer carried.
    pub events: Vec<String>,
}

/// `base` raised to `exp`.
pub open spec fn pow_spec(base: nat, exp: nat) -> nat
    decreases exp,
{
    if exp == 0 {
        1
    } else {
        base * pow_spec(base, (exp - 1) as nat)
    }
}

/// The wait after `errors` failures in a row: 2^errors seconds, at most 30,
/// after HTTP errors; 5^errors seconds, at most 60, after failed requests.
pub open spec fn backoff_ms(base: nat, errors: nat, cap_secs: nat) -> nat {
    if pow_spec(base, errors) < cap_secs {
        pow_spec(base, errors) * 1000
    } else {
        cap_secs * 1000
    }
}

/// Whether a status is a success (200 to 299).
pub open spec fn success_status(status: u16) -> bool {
    200 <= status && status <= 299
}

/// The state of the event queue poll loop.
#[derive(Debug, Clone, Copy)]
pub struct EventQueuePoller {
    /// The acknowledgement number to send; the first request sends 0.
    pub ack: Option<i32>,
    /// How many polls in a row failed.
    pub consecutive_errors: u32,
}

proof fn lemma_pow_grows(base: nat, e: nat)
    requires
        base >= 1,
    ensures
        pow_spec(base, e) <= pow_spec(base, e + 1),
        pow_spec(base, e) >= 1,
    decreases e,
{
    if e > 0 {
        lemma_pow_grows(base, (e - 1) as nat);
    }
    assert(pow_spec(base, e + 1) == base * pow_spec(base, e));
    assert(base * pow_spec(base, e) >= pow_spec(base, e)) by (nonlinear_arith)
        requires
            base >= 1,
            pow_spec(base, e) >= 1,
    ;
}

proof fn lemma_pow_mono(base: nat, a: nat, b: nat)
    requires
        base >= 1,
        a <= b,
    ensures
        pow_spec(base, a) <= pow_spec(base, b),
    decreases b - a,
{
    if a < b {
        lemma_pow_grows(base, a);
        lemma_pow_mono(base, a + 1, b);
    }
}

/// `min(base^exp, cap)` seconds, in milliseconds.
fn capped_backoff_ms(base: u64, exp: u32, cap: u64) -> (r: u64)
    requires
        1 <= base <= 10,
        1 <= cap <= 1000,
    ensures
        r == backoff_ms(base as nat, exp as nat, cap as nat),
{
    let mut p: u64 = 1;
    let mut i: u32 = 0;
    while i < exp && p < cap
        invariant
            i <= exp,
            p == pow_spec(base as nat, i as nat),
            p <= cap * 10,
            1 <= base <= 10,
            1 <= cap <= 1000,
        decreases exp - i,
    {
        assert(pow_spec(base as nat, (i + 1) as nat) == base * pow_spec(base as nat, i as nat));
        assert(base * p <= cap * 10) by (nonlinear_arith)
            requires
                p < cap,
                base <= 10,
        ;
        p = base * p;
        i = i + 1;
    }
    proof {
        if i < exp {
            lemma_pow_mono(base as nat, i as nat, exp as nat);
        }
    }
    let secs: u64 = if p < cap { p } else { cap };
    secs * 1000
}

impl EventQueuePoller {
    /// The first request acknowledges 0; no errors yet.
    pub fn new() -> (p: Self)
        ensures
            p.ack == Some(0i32),
            p.consecutive_errors == 0,
    {
        EventQueuePoller { ack: Some(0), consecutive_errors: 0 }
    }

    /// The body of the next request.
    pub fn request_payload(&self) -> (s: String)
        ensures
            s@ == request_payload_spec(self.ack),
    {
        match self.ack {
            Some(v) => {
                let mut text: Vec<char> = Vec::new();
                push_str(&mut text, "<?xml version=\"1.0\" ?><llsd><map><key>ack</key><integer>");
                let ghost before = text@;
                if v < 0 {
                    push_str(&mut text, "-");
                    let m: u64 = (-(v as i64)) as u64;
                    push_dec(&mut text, m);
                } else {
                    push_dec(&mut text, v as u64);
                }
                assert(text@ == before + int_text(v as int));
                push_str(&mut text, "</integer><key>done</key><boolean>false</boolean></map></llsd>");
                string_of(&text)
            },
            None => String::from_str(
                "<?xml version=\"1.0\" ?><llsd><map><key>done</key><boolean>false</boolean></map></llsd>",
            ),
        }
    }

    /// Takes in how a poll ended. A successful answer updates the
    /// acknowledgement number to the one it carries (its low 32 bits) and
    /// gives its events; 499 asks for a fresh start without acknowledgement.
    /// The next poll follows after a second on success, half a second after
    /// 502 (no events), and after a growing wait on other statuses or failed
    /// requests, whose run of errors it counts.
    pub fn after_poll(&mut self, outcome: PollOutcome) -> (d: PollDecision)
        requires
            outcome is Failed ==> old(self).consecutive_errors < 27,
            old(self).consecutive_errors < 63,
        ensures
            match outcome {
                PollOutcome::Response { status, body } => {
                    &&& if success_status(status) {
                        &&& final(self).consecutive_errors == 0
                        &&& d.delay_ms == 1000
                        &&& match body {
                            Some(text) => {
                                let parsed = event_queue_spec(text@);
                                &&& strings_view(d.events@) == parsed.1
                                &&& final(self).ack == (match parsed.0 {
                                    Some(v) => Some(v as i32),
                                    None => old(self).ack,
                                })
                            },
                            None => d.events@.len() == 0 && final(self).ack == old(self).ack,
                        }
                    } else if status == 502 {
                        &&& final(self).consecutive_errors == 0
                        &&& d.delay_ms == 500
                        &&& d.events@.len() == 0
                        &&& final(self).ack == old(self).ack
                    } else {
                        &&& final(self).consecutive_errors == old(self).consecutive_errors + 1
                        &&& d.delay_ms == backoff_ms(2, final(self).consecutive_errors as nat, 30)
                        &&& d.events@.len() == 0
                        &&& final(self).ack == (if status == 499 && body is Some {
                            None
                        } else {
                            old(self).ack
                        })
                    }
                },
                PollOutcome::Failed => {
                    &&& final(self).consecutive_errors == old(self).consecutive_errors + 1
                    &&& d.delay_ms == backoff_ms(5, final(self).consecutive_errors as nat, 60)
                    &&& d.events@.len() == 0
                    &&& final(self).ack == old(self).ack
                },
            },
    {
        match outcome {
            PollOutcome::Response { status, body } => {
                let mut events: Vec<String> = Vec::new();
                if 200 <= status && status <= 299 {
                    if let Some(text) = body {
                        let (parsed_ack, found) = parse_eventqueue_response(text.as_str());
                        if let Some(v) = parsed_ack {
                            self.ack = Some(#[verifier::truncate] (v as i32));
                        }
                        events = found;
                    }
                    self.consecutive_errors = 0;
                    PollDecision { delay_ms: 1000, events }
                } else if status == 502 {
                    self.consecutive_errors = 0;
                    PollDecision { delay_ms: 500, events }
                } else {
                    if status == 499 && body.is_some() {
                        self.ack = None;
                    }
                    self.consecutive_errors = self.consecutive_errors + 1;
                    PollDecision { delay_ms: capped_backoff_ms(2, self.consecutive_errors, 30), events }
                }
            },
            PollOutcome::Failed => {
                self.consecutive_errors = self.consecutive_errors + 1;
                PollDecision { delay_ms: capped_backoff_ms(5, self.consecutive_errors, 60), events: Vec::new() }
            },
        }
    }
}


/// The wait between polls never passes its cap and never shrinks as
/// failures go on.
pub proof fn lemma_backoff_capped_and_growing(base: nat, errors: nat, cap: nat)
    requires
        base >= 1,
    ensures
        backoff_ms(base, errors, cap) <= cap * 1000,
        backoff_ms(base, errors, cap) <= backoff_ms(base, errors + 1, cap),
{
    lemma_pow_grows(base, errors);
}

} // verus!
