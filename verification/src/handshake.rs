//! The client's connection states and the policy by which it sends
//! `UseCircuitCode` to a simulator: once without acknowledgement when
//! reliable authentication is switched off, otherwise reliably, with a
//! timeout and a pause that double with each attempt up to a cap.

use vstd::prelude::*;
use crate::error::{NetworkError, NetworkErrorView};
use crate::text::{dec, push_dec, push_str, string_of};

verus! {

/// Security settings of client connections.
#[derive(Debug, Clone)]
pub struct SecurityConfig {
    /// Base timeout for authentication packets, in seconds.
    pub base_auth_timeout_secs: u64,
    /// Attempts made before authentication fails.
    pub max_auth_attempts: u8,
    /// Whether authentication packets must be acknowledged.
    pub require_reliable_auth: bool,
    /// Whether the circuit is checked after authentication.
    pub enable_circuit_validation: bool,
    /// Whether sensitive values are masked in logs.
    pub mask_sensitive_logs: bool,
}

impl Default for SecurityConfig {
    fn default() -> (c: Self)
        ensures
            c.base_auth_timeout_secs == 10,
            c.max_auth_attempts == 5,
            !c.require_reliable_auth,
            !c.enable_circuit_validation,
            c.mask_sensitive_logs,
    {
        SecurityConfig {
            base_auth_timeout_secs: 10,
            max_auth_attempts: 5,
            require_reliable_auth: false,
            enable_circuit_validation: false,
            mask_sensitive_logs: true,
        }
    }
}

/// Messages that complete the handshake with a simulator.
#[derive(Debug, Clone, Copy, PartialEq, Eq)]
pub enum HandshakeEvent {
    RegionHandshake,
    AgentMovementComplete,
}

/// States of the client.
#[derive(Debug, Clone, Copy, PartialEq, Eq)]
pub enum ClientState {
    Disconnected,
    Connecting,
    Connected,
    LoggingIn,
    LoggedIn,
    Disconnecting,
}

/// The doubling factor of attempt `attempt` (counted from 1): 1, 2, then 4
/// from the third attempt on.
pub open spec fn backoff_factor(attempt: u8) -> nat {
    if attempt >= 3 {
        4
    } else if attempt == 2 {
        2
    } else {
        1
    }
}

/// Seconds to wait for the acknowledgement of attempt `attempt`.
pub open spec fn attempt_timeout_secs(base: u64, attempt: u8) -> nat {
    (base * 2 * backoff_factor(attempt)) as nat
}

/// Milliseconds to pause after attempt `attempt` failed.
pub open spec fn retry_delay_ms(attempt: u8) -> nat {
    1000 * backoff_factor(attempt)
}

/// What came of sending `UseCircuitCode`.
#[derive(Debug, Clone)]
pub enum AuthOutcome {
    /// The simulator acknowledged it (or, when sent unreliably, it went out).
    Sent,
    /// Sending failed; the error's text.
    SendFailed(String),
    /// No acknowledgement came in time.
    TimedOut,
}

/// What the client does next about `UseCircuitCode`.
#[derive(Debug, Clone)]
pub enum AuthAction {
    /// Send it once, without waiting for an acknowledgement.
    SendUnreliable,
    /// Send it reliably as attempt `attempt`, waiting `timeout_secs` at most.
    SendReliable { attempt: u8, timeout_secs: u64 },
    /// Pause `delay_ms`, then send it reliably as attempt `attempt`, waiting
    /// `timeout_secs` at most.
    RetryAfter { delay_ms: u64, attempt: u8, timeout_secs: u64 },
    /// Authentication is done; go on with the handshake.
    Proceed,
    /// Authentication failed.
    Fail(NetworkError),
}

/// Whether every timeout of the configured attempts fits in a `u64`.
pub open spec fn timeouts_fit(config: SecurityConfig) -> bool {
    config.base_auth_timeout_secs * 8 <= u64::MAX
}

/// The first step: an unreliable send when reliable authentication is off,
/// else the first reliable attempt, or nothing at all when no attempt is
/// allowed.
pub open spec fn first_action_spec(config: SecurityConfig) -> AuthAction {
    if !config.require_reliable_auth {
        AuthAction::SendUnreliable
    } else if config.max_auth_attempts >= 1 {
        AuthAction::SendReliable {
            attempt: 1,
            timeout_secs: attempt_timeout_secs(config.base_auth_timeout_secs, 1) as u64,
        }
    } else {
        AuthAction::Proceed
    }
}

/// The failure text for the last reliable attempt.
pub open spec fn reliable_failure_text(max_attempts: u8, outcome: AuthOutcome) -> Seq<char> {
    match outcome {
        AuthOutcome::SendFailed(e) => "UseCircuitCode failed after "@ + dec(max_attempts as nat)
            + " attempts: "@ + e@,
        _ => "UseCircuitCode timed out after "@ + dec(max_attempts as nat)
            + " attempts - likely firewall/network issue"@,
    }
}

/// The first thing to do about `UseCircuitCode`.
pub fn first_auth_action(config: &SecurityConfig) -> (a: AuthAction)
    requires
        timeouts_fit(*config),
    ensures
        a == first_action_spec(*config),
{
    if !config.require_reliable_auth {
        AuthAction::SendUnreliable
    } else if config.max_auth_attempts >= 1 {
        AuthAction::SendReliable {
            attempt: 1,
            timeout_secs: attempt_timeout(config.base_auth_timeout_secs, 1),
        }
    } else {
        AuthAction::Proceed
    }
}

/// Seconds to wait for the acknowledgement of attempt `attempt`.
pub fn attempt_timeout(base: u64, attempt: u8) -> (t: u64)
    requires
        attempt >= 1,
        base * 8 <= u64::MAX,
    ensures
        t == attempt_timeout_secs(base, attempt),
{
    let shift: u8 = if attempt - 1 < 2 {
        attempt - 1
    } else {
        2
    };
    let factor: u64 = if shift == 0 {
        1
    } else if shift == 1 {
        2
    } else {
        4
    };
    (base * 2) * factor
}

/// Milliseconds to pause after attempt `attempt` failed.
pub fn retry_delay(attempt: u8) -> (d: u64)
    requires
        attempt >= 1,
    ensures
        d == retry_delay_ms(attempt),
{
    let shift: u8 = if attempt - 1 < 2 {
        attempt - 1
    } else {
        2
    };
    let factor: u64 = if shift == 0 {
        1
    } else if shift == 1 {
        2
    } else {
        4
    };
    1000 * factor
}

/// How the outcome of the unreliable send is answered: go on when it went
/// out, fail with the send error otherwise.
pub fn after_unreliable(outcome: &AuthOutcome) -> (a: AuthAction)
    ensures
        outcome is SendFailed <==> a is Fail,
        !(outcome is SendFailed) ==> a is Proceed,
        outcome matches AuthOutcome::SendFailed(e) ==> (a matches AuthAction::Fail(err) && err@
            == NetworkErrorView::AuthenticationFailed {
            reason: "Unreliable UseCircuitCode failed: "@ + e@,
        }),
{
    match outcome {
        AuthOutcome::SendFailed(e) => {
            let mut text: Vec<char> = Vec::new();
            push_str(&mut text, "Unreliable UseCircuitCode failed: ");
            push_str(&mut text, e.as_str());
            AuthAction::Fail(NetworkError::AuthenticationFailed { reason: string_of(&text) })
        },
        _ => AuthAction::Proceed,
    }
}

/// How the outcome of reliable attempt `attempt` is answered: go on once it
/// is acknowledged, fail after the last attempt, otherwise pause and try
/// again with a longer timeout.
pub fn after_reliable(config: &SecurityConfig, attempt: u8, outcome: &AuthOutcome) -> (a: AuthAction)
    requires
        1 <= attempt <= config.max_auth_attempts,
        timeouts_fit(*config),
    ensures
        outcome is Sent ==> a is Proceed,
        !(outcome is Sent) && attempt == config.max_auth_attempts ==> (a matches AuthAction::Fail(
            err,
        ) && err@ == NetworkErrorView::AuthenticationFailed {
            reason: reliable_failure_text(config.max_auth_attempts, *outcome),
        }),
        !(outcome is Sent) && attempt < config.max_auth_attempts ==> a == (AuthAction::RetryAfter {
            delay_ms: retry_delay_ms(attempt) as u64,
            attempt: (attempt + 1) as u8,
            timeout_secs: attempt_timeout_secs(config.base_auth_timeout_secs, (attempt + 1) as u8)
                as u64,
        }),
{
    match outcome {
        AuthOutcome::Sent => AuthAction::Proceed,
        AuthOutcome::SendFailed(e) => {
            if attempt == config.max_auth_attempts {
                let mut text: Vec<char> = Vec::new();
                push_str(&mut text, "UseCircuitCode failed after ");
                push_dec(&mut text, config.max_auth_attempts as u64);
                push_str(&mut text, " attempts: ");
                push_str(&mut text, e.as_str());
                AuthAction::Fail(NetworkError::AuthenticationFailed { reason: string_of(&text) })
            } else {
                AuthAction::RetryAfter {
                    delay_ms: retry_delay(attempt),
                    attempt: attempt + 1,
                    timeout_secs: attempt_timeout(config.base_auth_timeout_secs, attempt + 1),
                }
            }
        },
        AuthOutcome::TimedOut => {
            if attempt == config.max_auth_attempts {
                let mut text: Vec<char> = Vec::new();
                push_str(&mut text, "UseCircuitCode timed out after ");
                push_dec(&mut text, config.max_auth_attempts as u64);
                push_str(&mut text, " attempts - likely firewall/network issue");
                AuthAction::Fail(NetworkError::AuthenticationFailed { reason: string_of(&text) })
            } else {
                AuthAction::RetryAfter {
                    delay_ms: retry_delay(attempt),
                    attempt: attempt + 1,
                    timeout_secs: attempt_timeout(config.base_auth_timeout_secs, attempt + 1),
                }
            }
        },
    }
}

/// Each timeout and pause is at least as long as the one before it, and at
/// most four times the first.
pub proof fn lemma_backoff_monotone_and_capped(base: u64, a: u8, b: u8)
    requires
        1 <= a <= b,
    ensures
        attempt_timeout_secs(base, a) <= attempt_timeout_secs(base, b) <= 4
            * attempt_timeout_secs(base, 1),
        retry_delay_ms(a) <= retry_delay_ms(b) <= 4000,
{
    assert(base * 2 * 1 <= base * 2 * 2 <= base * 2 * 4) by (nonlinear_arith);
}

} // verus!
