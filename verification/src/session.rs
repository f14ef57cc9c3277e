//! The session a successful login opens, and the one-session manager.

use vstd::prelude::*;
use crate::net_addr::SockAddr;
use crate::sl_compatibility::Vec3Bits;
use crate::text::{push_str, string_of};

verus! {

/// What a login established.
#[derive(Debug, Clone)]
pub struct SessionInfo {
    pub agent_id: [u8; 16],
    pub session_id: [u8; 16],
    pub secure_session_id: [u8; 16],
    pub first_name: String,
    pub last_name: String,
    pub circuit_code: u32,
    pub simulator_address: SockAddr,
    /// Bit patterns of the `f32` coordinates of the direction looked at.
    pub look_at: Vec3Bits,
    pub start_location: String,
    pub seed_capability: Option<String>,
    /// Capability names and their URLs.
    pub capabilities: Option<Vec<(String, String)>>,
}

impl SessionInfo {
    /// First and last name, separated by a space.
    pub fn full_name(&self) -> (s: String)
        ensures
            s@ == self.first_name@ + " "@ + self.last_name@,
    {
        let mut text: Vec<char> = Vec::new();
        push_str(&mut text, self.first_name.as_str());
        push_str(&mut text, " ");
        push_str(&mut text, self.last_name.as_str());
        string_of(&text)
    }
}

/// Holds the current session, if any.
#[derive(Debug, Clone)]
pub struct SessionManager {
    current_session: Option<SessionInfo>,
}

impl SessionManager {
    /// The session held.
    pub closed spec fn session(&self) -> Option<SessionInfo> {
        self.current_session
    }

    /// No session.
    pub fn new() -> (m: Self)
        ensures
            m.session() is None,
    {
        SessionManager { current_session: None }
    }

    /// Holds `session`, replacing any other.
    pub fn start_session(&mut self, session: SessionInfo)
        ensures
            final(self).session() == Some(session),
    {
        self.current_session = Some(session);
    }

    /// Holds no session any more.
    pub fn end_session(&mut self)
        ensures
            final(self).session() is None,
    {
        self.current_session = None;
    }

    /// The session held, if any.
    pub fn current_session(&self) -> (s: Option<&SessionInfo>)
        ensures
            match s {
                Some(r) => self.session() == Some(*r),
                None => self.session() is None,
            },
    {
        self.current_session.as_ref()
    }

    /// Whether a session is held.
    pub fn is_logged_in(&self) -> (b: bool)
        ensures
            b == self.session() is Some,
    {
        self.current_session.is_some()
    }

    /// The agent of the session held.
    pub fn agent_id(&self) -> (id: Option<[u8; 16]>)
        ensures
            match self.session() {
                Some(s) => id == Some(s.agent_id),
                None => id is None,
            },
    {
        match &self.current_session {
            Some(s) => Some(s.agent_id),
            None => None,
        }
    }

    /// The id of the session held.
    pub fn session_id(&self) -> (id: Option<[u8; 16]>)
        ensures
            match self.session() {
                Some(s) => id == Some(s.session_id),
                None => id is None,
            },
    {
        match &self.current_session {
            Some(s) => Some(s.session_id),
            None => None,
        }
    }
}

impl Default for SessionManager {
    fn default() -> (m: Self)
        ensures
            m.session() is None,
    {
        SessionManager::new()
    }
}

} // verus!
