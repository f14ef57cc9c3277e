//! Decisions of the login sequence: how a refused login is classified, which
//! start location and pause each retry uses, and where the simulator is
//! looked for.

use vstd::prelude::*;
use crate::error::{NetworkError, NetworkErrorView};
use crate::text::{chars_of, dec, push_dec, push_str, string_of};

verus! {

/// Whether `p` occurs in `s`.
pub open spec fn contains_text(s: Seq<char>, p: Seq<char>) -> bool {
    exists|i: int| 0 <= i && i + p.len() <= s.len() && #[trigger] s.subrange(i, i + p.len()) == p
}

/// Whether `p` occurs in `s` (`str::contains`).
pub fn str_contains(s: &str, p: &str) -> (r: bool)
    ensures
        r == contains_text(s@, p@),
{
    let sv = chars_of(s);
    let pv = chars_of(p);
    if pv.len() > sv.len() {
        return false;
    }
    let mut i: usize = 0;
    while i <= sv.len() - pv.len()
        invariant
            sv@ == s@,
            pv@ == p@,
            pv.len() <= sv.len(),
            i <= sv.len() - pv.len() + 1,
            forall|k: int| 0 <= k < i ==> #[trigger] sv@.subrange(k, k + pv@.len()) != pv@,
        decreases sv.len() - i,
    {
        let mut j: usize = 0;
        let mut same = true;
        while j < pv.len()
            invariant
                i + pv.len() <= sv.len(),
                j <= pv.len(),
                same <==> forall|m: int| 0 <= m < j ==> sv@[i + m] == pv@[m],
            decreases pv.len() - j,
        {
            if sv[i + j] != pv[j] {
                same = false;
            }
            j = j + 1;
        }
        if same {
            assert(sv@.subrange(i as int, i + pv@.len()) =~= pv@);
            return true;
        }
        assert(sv@.subrange(i as int, i + pv@.len()) != pv@) by {
            let m = choose|m: int| 0 <= m < pv.len() && sv@[i + m] != pv@[m];
            assert(sv@.subrange(i as int, i + pv@.len())[m] != pv@[m]);
        }
        i = i + 1;
    }
    proof {
        if contains_text(s@, p@) {
            let k = choose|k: int|
                0 <= k && k + p@.len() <= s@.len() && #[trigger] s@.subrange(k, k + p@.len()) == p@;
            assert(k < i);
        }
    }
    false
}

/// The reason a refused login gives: the server's `reason`, else its
/// `message`, else `Login failed`.
pub open spec fn refusal_reason(reason: Option<String>, message: Option<String>) -> Seq<char> {
    match reason {
        Some(r) => r@,
        None => match message {
            Some(m) => m@,
            None => "Login failed"@,
        },
    }
}

/// Whether a refusal is about reaching the simulator rather than about the
/// credentials.
pub open spec fn is_simulator_failure(reason: Seq<char>) -> bool {
    contains_text(reason, "slave-connect-failure"@) || contains_text(reason, "region"@)
}

/// The error for a refused login: a failure to reach the simulator (which
/// is worth retrying) when the reason mentions `slave-connect-failure` or
/// `region`, a rejection otherwise.
pub fn classify_login_failure(reason: Option<String>, message: Option<String>) -> (e: NetworkError)
    ensures
        is_simulator_failure(refusal_reason(reason, message)) ==> e@
            == (NetworkErrorView::SimulatorConnectionFailed {
            reason: refusal_reason(reason, message),
        }),
        !is_simulator_failure(refusal_reason(reason, message)) ==> e@
            == (NetworkErrorView::LoginRejected { reason: refusal_reason(reason, message) }),
{
    let text = match reason {
        Some(r) => r,
        None => match message {
            Some(m) => m,
            None => String::from_str("Login failed"),
        },
    };
    if str_contains(text.as_str(), "slave-connect-failure") || str_contains(text.as_str(), "region") {
        NetworkError::SimulatorConnectionFailed { reason: text }
    } else {
        NetworkError::LoginRejected { reason: text }
    }
}

/// The start location of attempt `attempt` (counted from 0): the requested
/// one first, then `last`, then `home` from the third attempt on.
pub open spec fn start_location_spec(original: Seq<char>, attempt: u32) -> Seq<char> {
    if attempt == 0 {
        original
    } else if attempt == 1 {
        "last"@
    } else {
        "home"@
    }
}

/// The start location to use for attempt `attempt`.
pub fn start_location_for_attempt(original: &str, attempt: u32) -> (s: String)
    ensures
        s@ == start_location_spec(original@, attempt),
{
    if attempt == 0 {
        String::from_str(original)
    } else if attempt == 1 {
        String::from_str("last")
    } else {
        String::from_str("home")
    }
}

/// Milliseconds to wait after failed attempt `attempt`: 1000·2^attempt,
/// at most 8000.
pub open spec fn login_retry_delay_spec(attempt: u32) -> nat {
    if attempt == 0 {
        1000
    } else if attempt == 1 {
        2000
    } else if attempt == 2 {
        4000
    } else {
        8000
    }
}

/// The pause after failed attempt `attempt`. Beyond attempt 54 the product
/// `1000 * 2^attempt` no longer fits in a `u64`.
pub fn login_retry_delay_ms(attempt: u32) -> (d: u64)
    requires
        attempt <= 54,
    ensures
        d == login_retry_delay_spec(attempt),
{
    if attempt >= 3 {
        8000
    } else {
        let mut p: u64 = 1;
        let mut k: u32 = 0;
        while k < attempt
            invariant
                k <= attempt < 3,
                p == (if k == 0 {
                    1u64
                } else if k == 1 {
                    2u64
                } else {
                    4u64
                }),
            decreases attempt - k,
        {
            p = p * 2;
            k = k + 1;
        }
        let d = 1000 * p;
        if d < 8000 {
            d
        } else {
            8000
        }
    }
}

/// What follows a failed login attempt.
#[derive(Debug)]
pub enum RetryDecision {
    /// Pause this many milliseconds, then try the next attempt.
    RetryAfter(u64),
    /// Give up with this error.
    GiveUp(NetworkError),
}

/// How failed attempt `attempt` of `max_retries` is answered: a failure to
/// reach the simulator is retried while attempts remain; any other error
/// ends the login.
pub fn after_failed_attempt(attempt: u32, max_retries: u32, error: NetworkError) -> (d: RetryDecision)
    requires
        attempt < max_retries,
        attempt <= 54,
    ensures
        (error is SimulatorConnectionFailed && attempt < max_retries - 1) ==> d == RetryDecision::RetryAfter(
            login_retry_delay_spec(attempt) as u64,
        ),
        !(error is SimulatorConnectionFailed && attempt < max_retries - 1) ==> d == RetryDecision::GiveUp(error),
{
    let retryable = match &error {
        NetworkError::SimulatorConnectionFailed { .. } => true,
        _ => false,
    };
    if retryable && attempt < max_retries - 1 {
        RetryDecision::RetryAfter(login_retry_delay_ms(attempt))
    } else {
        RetryDecision::GiveUp(error)
    }
}

/// The error once every attempt has failed.
pub fn attempts_exhausted(max_retries: u32) -> (e: NetworkError)
    ensures
        e@ == (NetworkErrorView::SimulatorConnectionFailed {
            reason: "Failed to connect after "@ + dec(max_retries as nat) + " attempts"@,
        }),
{
    let mut v: Vec<char> = Vec::new();
    push_str(&mut v, "Failed to connect after ");
    push_dec(&mut v, max_retries as u64);
    push_str(&mut v, " attempts");
    NetworkError::SimulatorConnectionFailed { reason: string_of(&v) }
}

/// The host named by a URL, as `url::Url::parse` and `Url::host_str` read
/// it (`None` when the text is no URL or names no host).
pub uninterp spec fn url_host(url: Seq<char>) -> Option<Seq<char>>;

/// `url::Url::parse(url)` followed by `host_str`. Trusted: the result is
/// named by `url_host`.
#[verifier::external_body]
fn seed_url_host(url: &str) -> (h: Option<String>)
    ensures
        match h {
            Some(s) => url_host(url@) == Some(s@),
            None => url_host(url@).is_none(),
        },
{
    url::Url::parse(url).ok().and_then(|u| u.host_str().map(|s| s.to_string()))
}

/// `host:port`.
pub open spec fn host_port(host: Seq<char>, port: u16) -> Seq<char> {
    host + ":"@ + dec(port as nat)
}

/// The text `host:port`.
pub fn host_port_text(host: &str, port: u16) -> (s: String)
    ensures
        s@ == host_port(host@, port),
{
    let mut v: Vec<char> = Vec::new();
    push_str(&mut v, host);
    push_str(&mut v, ":");
    push_dec(&mut v, port as u64);
    string_of(&v)
}

/// The simulator address preferred at login, given the host of the seed
/// capability (if its URL names one): that host with the simulator port the
/// login server gave.
pub fn preferred_address_from_host(host: Option<&str>, sim_port: u16) -> (a: Option<String>)
    ensures
        host is None ==> a is None,
        host matches Some(h) ==> (a matches Some(s) && s@ == host_port(h@, sim_port)),
{
    match host {
        Some(h) => Some(host_port_text(h, sim_port)),
        None => None,
    }
}

/// The simulator address preferred at login: the seed capability's host
/// with the simulator port; `None` when there is no seed capability or its
/// URL names no host, in which case the login server's address is used.
pub fn preferred_simulator_address(seed_capability: Option<&str>, sim_port: u16) -> (a: Option<String>)
    ensures
        seed_capability is None ==> a is None,
        seed_capability matches Some(u) ==> (match url_host(u@) {
            Some(h) => a matches Some(s) && s@ == host_port(h, sim_port),
            None => a is None,
        }),
{
    match seed_capability {
        Some(u) => {
            let host = seed_url_host(u);
            match host {
                Some(h) => preferred_address_from_host(Some(h.as_str()), sim_port),
                None => None,
            }
        },
        None => None,
    }
}

/// The UDP ports tried on the seed capability's host when the first
/// simulator address fails.
pub open spec fn fallback_ports() -> Seq<u16> {
    seq![9000u16, 9001, 9002, 12043, 13000, 13001]
}

/// The addresses tried, in order, when the first simulator address fails.
pub fn fallback_simulator_addresses(host: &str) -> (v: Vec<String>)
    ensures
        v@.len() == fallback_ports().len(),
        forall|i: int| 0 <= i < v@.len() ==> #[trigger] v@[i]@ == host_port(host@, fallback_ports()[i]),
{
    let ports: [u16; 6] = [9000, 9001, 9002, 12043, 13000, 13001];
    assert(ports@ =~= fallback_ports());
    let mut v: Vec<String> = Vec::new();
    let mut i: usize = 0;
    while i < 6
        invariant
            i <= 6,
            ports@ == fallback_ports(),
            v@.len() == i,
            forall|k: int| 0 <= k < i ==> #[trigger] v@[k]@ == host_port(host@, fallback_ports()[k]),
        decreases 6 - i,
    {
        v.push(host_port_text(host, ports[i]));
        i = i + 1;
    }
    v
}

/// The error when neither the first address nor any fallback answered.
pub fn all_addresses_failed(primary: &str) -> (e: NetworkError)
    ensures
        e@ == (NetworkErrorView::SimulatorConnectionFailed {
            reason: "Both primary ("@ + primary@ + ") and all fallback addresses failed"@,
        }),
{
    let mut v: Vec<char> = Vec::new();
    push_str(&mut v, "Both primary (");
    push_str(&mut v, primary);
    push_str(&mut v, ") and all fallback addresses failed");
    NetworkError::SimulatorConnectionFailed { reason: string_of(&v) }
}

} // verus!
