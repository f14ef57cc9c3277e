//! The fields of a login reply, set one by one from the reply's name and
//! text pairs. The position fields (`look_at`, `start_location`, `home`)
//! hold floating-point vectors and are not kept here.

use vstd::prelude::*;
use crate::event_queue::{all_ascii_digits, digits_value, parse_i64, parse_i64_spec};
use crate::text::{
    chars_of, dec, digit_char, eq_pred, join, lemma_prefix_len_is, lemma_suffix_len_is, str_eq, string_of, trim_char_ends,
    trim_end_by, trim_start_by,
};
use crate::uuid_text::{uuid_parse, uuid_parse_str};
use crate::xmlrpc_response::{login_fields_spec, login_response_fields, pairs_view};

verus! {

/// `str::parse` for an unsigned integer type whose largest value is `max`:
/// an optional `+`, then one or more ASCII digits whose value is at most
/// `max`.
pub open spec fn parse_unsigned_spec(s: Seq<char>, max: nat) -> Option<nat> {
    let ds = if s.len() > 0 && s[0] == '+' {
        s.drop_first()
    } else {
        s
    };
    if ds.len() == 0 || !all_ascii_digits(ds) || digits_value(ds) > max {
        None
    } else {
        Some(digits_value(ds) as nat)
    }
}

proof fn lemma_digits_value_nonneg(ds: Seq<char>)
    requires
        all_ascii_digits(ds),
    ensures
        digits_value(ds) >= 0,
    decreases ds.len(),
{
    if ds.len() > 0 {
        assert(all_ascii_digits(ds.drop_last())) by {
            assert forall|k: int| 0 <= k < ds.drop_last().len() implies '0' <= #[trigger] ds.drop_last()[k]
                && ds.drop_last()[k] <= '9' by {
                assert(ds.drop_last()[k] == ds[k]);
            }
        }
        lemma_digits_value_nonneg(ds.drop_last());
        assert(ds[ds.len() - 1] == ds.last());
    }
}

/// Parses `s` as `str::parse` does for an unsigned integer type whose largest
/// value is `max`, giving `None` where it fails.
pub fn parse_unsigned(s: &str, max: u64) -> (r: Option<u64>)
    ensures
        match r {
            Some(v) => parse_unsigned_spec(s@, max as nat) == Some(v as nat),
            None => parse_unsigned_spec(s@, max as nat) is None,
        },
{
    let cs = chars_of(s);
    let n = cs.len();
    let start: usize = if n > 0 && cs[0] == '+' {
        1
    } else {
        0
    };
    let ghost ds = if s@.len() > 0 && s@[0] == '+' {
        s@.drop_first()
    } else {
        s@
    };
    assert(ds =~= cs@.skip(start as int));
    if start == n {
        return None;
    }
    let mut acc: u64 = 0;
    let mut over = false;
    let mut i: usize = start;
    while i < n
        invariant
            start <= i <= n,
            n == cs.len(),
            cs@ == s@,
            ds == cs@.skip(start as int),
            ds == (if s@.len() > 0 && s@[0] == '+' {
                s@.drop_first()
            } else {
                s@
            }),
            ds.len() > 0,
            all_ascii_digits(ds.take(i - start)),
            !over ==> acc as int == digits_value(ds.take(i - start)) && acc <= max,
            over ==> digits_value(ds.take(i - start)) > max,
        decreases n - i,
    {
        let c = cs[i];
        let ghost p = ds.take(i - start);
        let ghost p1 = ds.take(i + 1 - start);
        assert(p1.drop_last() =~= p);
        assert(p1.last() == c);
        if !('0' <= c && c <= '9') {
            proof {
                assert(ds[i - start] == c);
                assert(!all_ascii_digits(ds));
                assert(parse_unsigned_spec(s@, max as nat) is None);
            }
            return None;
        }
        assert(all_ascii_digits(p1)) by {
            assert forall|k: int| 0 <= k < p1.len() implies '0' <= #[trigger] p1[k] && p1[k] <= '9' by {
                if k < p.len() {
                    assert(p1[k] == p[k]);
                }
            }
        }
        let d: u64 = (c as u32 - 48) as u64;
        if !over {
            let w: u128 = (acc as u128) * 10 + (d as u128);
            if w > max as u128 {
                over = true;
            } else {
                acc = w as u64;
            }
        } else {
            proof {
                lemma_digits_value_nonneg(p);
            }
        }
        i = i + 1;
    }
    assert(ds.take(n - start) =~= ds);
    if over {
        return None;
    }
    Some(acc)
}

/// `str::parse::<i32>`.
pub open spec fn parse_i32_spec(s: Seq<char>) -> Option<int> {
    match parse_i64_spec(s) {
        Some(v) => if i32::MIN <= v && v <= i32::MAX {
            Some(v)
        } else {
            None
        },
        None => None,
    }
}

/// Parses `s` as `str::parse::<i32>` does, giving `None` where it fails.
pub fn parse_i32(s: &str) -> (r: Option<i32>)
    ensures
        match r {
            Some(v) => parse_i32_spec(s@) == Some(v as int),
            None => parse_i32_spec(s@) is None,
        },
{
    match parse_i64(s) {
        Some(v) => if -2147483648 <= v && v <= 2147483647 {
            Some(v as i32)
        } else {
            None
        },
        None => None,
    }
}

/// A login flag as the login service writes it: `true` or `1`, `false` or
/// `0`.
pub open spec fn parse_bool_spec(s: Seq<char>) -> Option<bool> {
    if s == "true"@ || s == "1"@ {
        Some(true)
    } else if s == "false"@ || s == "0"@ {
        Some(false)
    } else {
        None
    }
}

/// Reads a login flag.
pub fn parse_bool(s: &str) -> (r: Option<bool>)
    ensures
        r == parse_bool_spec(s@),
{
    if str_eq(s, "true") || str_eq(s, "1") {
        Some(true)
    } else if str_eq(s, "false") || str_eq(s, "0") {
        Some(false)
    } else {
        None
    }
}

/// The pieces of `s` between commas, in order (`str::split(',')`).
pub open spec fn split_commas(s: Seq<char>) -> Seq<Seq<char>>
    decreases s.len(),
{
    if s.len() == 0 {
        seq![Seq::empty()]
    } else {
        let rest = split_commas(s.drop_last());
        if s.last() == ',' {
            rest.push(Seq::empty())
        } else {
            rest.update(rest.len() - 1, rest.last().push(s.last()))
        }
    }
}

proof fn lemma_split_commas_nonempty(s: Seq<char>)
    ensures
        split_commas(s).len() > 0,
    decreases s.len(),
{
    if s.len() > 0 {
        lemma_split_commas_nonempty(s.drop_last());
    }
}

/// The model of a list of strings.
pub open spec fn strings_view(v: Seq<String>) -> Seq<Seq<char>> {
    v.map_values(|x: String| x@)
}

/// Splits `s` at each comma, as `str::split(',')` does.
pub fn split_commas_exec(s: &str) -> (r: Vec<String>)
    ensures
        strings_view(r@) == split_commas(s@),
{
    let cs = chars_of(s);
    let mut parts: Vec<Vec<char>> = Vec::new();
    let mut cur: Vec<char> = Vec::new();
    let mut i: usize = 0;
    while i < cs.len()
        invariant
            i <= cs.len(),
            cs@ == s@,
            parts@.map_values(|x: Vec<char>| x@).push(cur@) == split_commas(cs@.take(i as int)),
        decreases cs.len() - i,
    {
        let ghost pre = cs@.take(i as int);
        let ghost pre1 = cs@.take(i + 1);
        assert(pre1.drop_last() =~= pre);
        proof {
            lemma_split_commas_nonempty(pre);
        }
        let c = cs[i];
        if c == ',' {
            let ghost before = parts@.map_values(|x: Vec<char>| x@);
            parts.push(cur);
            cur = Vec::new();
            assert(parts@.map_values(|x: Vec<char>| x@).push(cur@) =~= split_commas(pre1));
        } else {
            let ghost before = parts@.map_values(|x: Vec<char>| x@);
            cur.push(c);
            assert(parts@.map_values(|x: Vec<char>| x@) =~= before);
            assert(parts@.map_values(|x: Vec<char>| x@).push(cur@) =~= split_commas(pre1));
        }
        i = i + 1;
    }
    assert(cs@.take(cs.len() as int) =~= cs@);
    parts.push(cur);
    let mut out: Vec<String> = Vec::new();
    let mut j: usize = 0;
    while j < parts.len()
        invariant
            j <= parts.len(),
            parts@.map_values(|x: Vec<char>| x@) == split_commas(s@),
            strings_view(out@) == parts@.map_values(|x: Vec<char>| x@).take(j as int),
        decreases parts.len() - j,
    {
        let t = string_of(&parts[j]);
        let ghost before = out@;
        out.push(t);
        proof {
            assert(parts@.map_values(|x: Vec<char>| x@)[j as int] == parts@[j as int]@);
            assert(out@.drop_last() =~= before);
            assert(strings_view(out@) =~= strings_view(before).push(parts@[j as int]@));
        }
        j = j + 1;
        assert(strings_view(out@) =~= parts@.map_values(|x: Vec<char>| x@).take(j as int));
    }
    assert(parts@.map_values(|x: Vec<char>| x@).take(parts.len() as int) =~= split_commas(s@));
    out
}


/// The model of an optional text.
pub open spec fn opt_text(o: Option<String>) -> Option<Seq<char>> {
    match o {
        Some(s) => Some(s@),
        None => None,
    }
}

/// The model of an optional list of texts.
pub open spec fn opt_texts(o: Option<Vec<String>>) -> Option<Seq<Seq<char>>> {
    match o {
        Some(v) => Some(strings_view(v@)),
        None => None,
    }
}

/// The fields of a login reply that hold no floating-point value.
#[derive(Debug, Clone)]
pub struct LoginFields {
    pub success: bool,
    pub agent_id: [u8; 16],
    pub session_id: [u8; 16],
    pub secure_session_id: [u8; 16],
    pub first_name: String,
    pub last_name: String,
    pub circuit_code: u32,
    pub simulator_ip: String,
    pub simulator_port: u16,
    pub reason: Option<String>,
    pub message: Option<String>,
    pub seed_capability: Option<String>,
    pub agent_access: Option<String>,
    pub agent_access_max: Option<String>,
    pub agent_region_access: Option<String>,
    pub agent_appearance_service: Option<String>,
    pub openid_url: Option<String>,
    pub openid_token: Option<String>,
    pub account_type: Option<String>,
    pub linden_status_code: Option<String>,
    pub map_server_url: Option<String>,
    pub agent_flags: Option<u32>,
    pub max_agent_groups: Option<u32>,
    pub cof_version: Option<u32>,
    pub max_god_level: Option<u32>,
    pub god_level: Option<u32>,
    pub seconds_since_epoch: Option<u64>,
    pub region_x: Option<i32>,
    pub region_y: Option<i32>,
    pub udp_blacklist: Option<Vec<String>>,
}

/// Mathematical model of [`LoginFields`].
pub struct LoginFieldsView {
    pub success: bool,
    pub agent_id: Seq<u8>,
    pub session_id: Seq<u8>,
    pub secure_session_id: Seq<u8>,
    pub first_name: Seq<char>,
    pub last_name: Seq<char>,
    pub circuit_code: u32,
    pub simulator_ip: Seq<char>,
    pub simulator_port: u16,
    pub reason: Option<Seq<char>>,
    pub message: Option<Seq<char>>,
    pub seed_capability: Option<Seq<char>>,
    pub agent_access: Option<Seq<char>>,
    pub agent_access_max: Option<Seq<char>>,
    pub agent_region_access: Option<Seq<char>>,
    pub agent_appearance_service: Option<Seq<char>>,
    pub openid_url: Option<Seq<char>>,
    pub openid_token: Option<Seq<char>>,
    pub account_type: Option<Seq<char>>,
    pub linden_status_code: Option<Seq<char>>,
    pub map_server_url: Option<Seq<char>>,
    pub agent_flags: Option<u32>,
    pub max_agent_groups: Option<u32>,
    pub cof_version: Option<u32>,
    pub max_god_level: Option<u32>,
    pub god_level: Option<u32>,
    pub seconds_since_epoch: Option<u64>,
    pub region_x: Option<i32>,
    pub region_y: Option<i32>,
    pub udp_blacklist: Option<Seq<Seq<char>>>,
}

impl View for LoginFields {
    type V = LoginFieldsView;

    open spec fn view(&self) -> LoginFieldsView {
        LoginFieldsView {
            success: self.success,
            agent_id: self.agent_id@,
            session_id: self.session_id@,
            secure_session_id: self.secure_session_id@,
            first_name: self.first_name@,
            last_name: self.last_name@,
            circuit_code: self.circuit_code,
            simulator_ip: self.simulator_ip@,
            simulator_port: self.simulator_port,
            reason: opt_text(self.reason),
            message: opt_text(self.message),
            seed_capability: opt_text(self.seed_capability),
            agent_access: opt_text(self.agent_access),
            agent_access_max: opt_text(self.agent_access_max),
            agent_region_access: opt_text(self.agent_region_access),
            agent_appearance_service: opt_text(self.agent_appearance_service),
            openid_url: opt_text(self.openid_url),
            openid_token: opt_text(self.openid_token),
            account_type: opt_text(self.account_type),
            linden_status_code: opt_text(self.linden_status_code),
            map_server_url: opt_text(self.map_server_url),
            agent_flags: self.agent_flags,
            max_agent_groups: self.max_agent_groups,
            cof_version: self.cof_version,
            max_god_level: self.max_god_level,
            god_level: self.god_level,
            seconds_since_epoch: self.seconds_since_epoch,
            region_x: self.region_x,
            region_y: self.region_y,
            udp_blacklist: opt_texts(self.udp_blacklist),
        }
    }
}

/// What became of a field of the reply.
#[derive(Debug, Clone, Copy, PartialEq, Eq)]
pub enum FieldUse {
    /// Its value was read into the fields.
    Applied,
    /// It is a position (`look_at`, `start_location`, `home`), which these
    /// fields do not hold.
    Position,
    /// It is a nested or unknown field, which is passed over.
    Ignored,
}

/// The fields after the reply's field `name` with text `value` is read:
/// the field's new value and what became of it, or why the text was refused.
/// Flags are `true`/`1` or `false`/`0`; IDs are UUIDs as `uuid` parses
/// them; numbers are parsed as `str::parse` parses their types; the first
/// name loses the quotes around it; the UDP blacklist is split at commas.
pub open spec fn apply_field(v: LoginFieldsView, name: Seq<char>, value: Seq<char>) -> Result<
    (LoginFieldsView, FieldUse),
    Seq<char>,
> {
    if name == "login"@ {
        match parse_bool_spec(value) { Some(b) => Ok((LoginFieldsView { success: b, ..v }, FieldUse::Applied)), None => Err("Invalid login value"@) }
    } else if name == "agent_id"@ {
        match uuid_parse(value) { Some(b) => Ok((LoginFieldsView { agent_id: b, ..v }, FieldUse::Applied)), None => Err("Invalid agent_id"@) }
    } else if name == "session_id"@ {
        match uuid_parse(value) { Some(b) => Ok((LoginFieldsView { session_id: b, ..v }, FieldUse::Applied)), None => Err("Invalid session_id"@) }
    } else if name == "secure_session_id"@ {
        match uuid_parse(value) { Some(b) => Ok((LoginFieldsView { secure_session_id: b, ..v }, FieldUse::Applied)), None => Err("Invalid secure_session_id"@) }
    } else if name == "first_name"@ {
        Ok((LoginFieldsView { first_name: trim_end_by(trim_start_by(value, eq_pred('"')), eq_pred('"')), ..v }, FieldUse::Applied))
    } else if name == "last_name"@ {
        Ok((LoginFieldsView { last_name: value, ..v }, FieldUse::Applied))
    } else if name == "circuit_code"@ {
        match parse_unsigned_spec(value, u32::MAX as nat) { Some(x) => Ok((LoginFieldsView { circuit_code: x as u32, ..v }, FieldUse::Applied)), None => Err("Invalid circuit_code"@) }
    } else if name == "sim_ip"@ {
        Ok((LoginFieldsView { simulator_ip: value, ..v }, FieldUse::Applied))
    } else if name == "sim_port"@ {
        match parse_unsigned_spec(value, u16::MAX as nat) { Some(x) => Ok((LoginFieldsView { simulator_port: x as u16, ..v }, FieldUse::Applied)), None => Err("Invalid sim_port"@) }
    } else if name == "reason"@ {
        Ok((LoginFieldsView { reason: Some(value), ..v }, FieldUse::Applied))
    } else if name == "message"@ {
        Ok((LoginFieldsView { message: Some(value), ..v }, FieldUse::Applied))
    } else if name == "seed_capability"@ {
        Ok((LoginFieldsView { seed_capability: Some(value), ..v }, FieldUse::Applied))
    } else if name == "agent_access"@ {
        Ok((LoginFieldsView { agent_access: Some(value), ..v }, FieldUse::Applied))
    } else if name == "agent_access_max"@ {
        Ok((LoginFieldsView { agent_access_max: Some(value), ..v }, FieldUse::Applied))
    } else if name == "agent_region_access"@ {
        Ok((LoginFieldsView { agent_region_access: Some(value), ..v }, FieldUse::Applied))
    } else if name == "agent_appearance_service"@ {
        Ok((LoginFieldsView { agent_appearance_service: Some(value), ..v }, FieldUse::Applied))
    } else if name == "openid_url"@ {
        Ok((LoginFieldsView { openid_url: Some(value), ..v }, FieldUse::Applied))
    } else if name == "openid_token"@ {
        Ok((LoginFieldsView { openid_token: Some(value), ..v }, FieldUse::Applied))
    } else if name == "account_type"@ {
        Ok((LoginFieldsView { account_type: Some(value), ..v }, FieldUse::Applied))
    } else if name == "linden_status_code"@ {
        Ok((LoginFieldsView { linden_status_code: Some(value), ..v }, FieldUse::Applied))
    } else if name == "map_server_url"@ {
        Ok((LoginFieldsView { map_server_url: Some(value), ..v }, FieldUse::Applied))
    } else if name == "agent_flags"@ {
        match parse_unsigned_spec(value, u32::MAX as nat) { Some(x) => Ok((LoginFieldsView { agent_flags: Some(x as u32), ..v }, FieldUse::Applied)), None => Err("Invalid agent_flags"@) }
    } else if name == "max_agent_groups"@ {
        match parse_unsigned_spec(value, u32::MAX as nat) { Some(x) => Ok((LoginFieldsView { max_agent_groups: Some(x as u32), ..v }, FieldUse::Applied)), None => Err("Invalid max_agent_groups"@) }
    } else if name == "cof_version"@ {
        match parse_unsigned_spec(value, u32::MAX as nat) { Some(x) => Ok((LoginFieldsView { cof_version: Some(x as u32), ..v }, FieldUse::Applied)), None => Err("Invalid cof_version"@) }
    } else if name == "max_god_level"@ {
        match parse_unsigned_spec(value, u32::MAX as nat) { Some(x) => Ok((LoginFieldsView { max_god_level: Some(x as u32), ..v }, FieldUse::Applied)), None => Err("Invalid max_god_level"@) }
    } else if name == "god_level"@ {
        match parse_unsigned_spec(value, u32::MAX as nat) { Some(x) => Ok((LoginFieldsView { god_level: Some(x as u32), ..v }, FieldUse::Applied)), None => Err("Invalid god_level"@) }
    } else if name == "seconds_since_epoch"@ {
        match parse_unsigned_spec(value, u64::MAX as nat) { Some(x) => Ok((LoginFieldsView { seconds_since_epoch: Some(x as u64), ..v }, FieldUse::Applied)), None => Err("Invalid seconds_since_epoch"@) }
    } else if name == "region_x"@ {
        match parse_i32_spec(value) { Some(x) => Ok((LoginFieldsView { region_x: Some(x as i32), ..v }, FieldUse::Applied)), None => Err("Invalid region_x"@) }
    } else if name == "region_y"@ {
        match parse_i32_spec(value) { Some(x) => Ok((LoginFieldsView { region_y: Some(x as i32), ..v }, FieldUse::Applied)), None => Err("Invalid region_y"@) }
    } else if name == "udp_blacklist"@ {
        Ok((LoginFieldsView { udp_blacklist: Some(split_commas(value)), ..v }, FieldUse::Applied))
    } else if name == "look_at"@ || name == "start_location"@ || name == "home"@ {
        Ok((v, FieldUse::Position))
    } else {
        Ok((v, FieldUse::Ignored))
    }
}

/// The fields before any is read: not logged in, zero IDs and numbers,
/// empty texts, and no optional field.
pub open spec fn fresh_fields() -> LoginFieldsView {
    LoginFieldsView {
        success: false,
        agent_id: seq![0u8; 16],
        session_id: seq![0u8; 16],
        secure_session_id: seq![0u8; 16],
        first_name: Seq::empty(),
        last_name: Seq::empty(),
        circuit_code: 0,
        simulator_ip: Seq::empty(),
        simulator_port: 0,
        reason: None,
        message: None,
        seed_capability: None,
        agent_access: None,
        agent_access_max: None,
        agent_region_access: None,
        agent_appearance_service: None,
        openid_url: None,
        openid_token: None,
        account_type: None,
        linden_status_code: None,
        map_server_url: None,
        agent_flags: None,
        max_agent_groups: None,
        cof_version: None,
        max_god_level: None,
        god_level: None,
        seconds_since_epoch: None,
        region_x: None,
        region_y: None,
        udp_blacklist: None,
    }
}

impl LoginFields {
    /// Fields before any is read: not logged in, zero IDs and numbers,
    /// empty texts, and no optional field.
    pub fn new() -> (f: Self)
        ensures
            f@ == fresh_fields(),
    {
        let zero: [u8; 16] = [0u8; 16];
        assert(zero@ =~= seq![0u8; 16]);
        LoginFields {
            success: false,
            agent_id: zero,
            session_id: zero,
            secure_session_id: zero,
            first_name: String::new(),
            last_name: String::new(),
            circuit_code: 0,
            simulator_ip: String::new(),
            simulator_port: 0,
            reason: None,
            message: None,
            seed_capability: None,
            agent_access: None,
            agent_access_max: None,
            agent_region_access: None,
            agent_appearance_service: None,
            openid_url: None,
            openid_token: None,
            account_type: None,
            linden_status_code: None,
            map_server_url: None,
            agent_flags: None,
            max_agent_groups: None,
            cof_version: None,
            max_god_level: None,
            god_level: None,
            seconds_since_epoch: None,
            region_x: None,
            region_y: None,
            udp_blacklist: None,
        }
    }
}

impl LoginFields {
    /// The agent's full name: first and last name with a space between.
    pub fn full_name(&self) -> (s: String)
        ensures
            s@ == self.first_name@ + " "@ + self.last_name@,
    {
        let mut s = self.first_name.clone();
        s.append(" ");
        s.append(self.last_name.as_str());
        s
    }

    /// Whether the login succeeded.
    pub fn is_successful(&self) -> (b: bool)
        ensures
            b == self.success,
    {
        self.success
    }

    /// Why the login failed: the reason, else the message; nothing when it
    /// succeeded.
    pub fn error_message(&self) -> (m: Option<&str>)
        ensures
            self.success ==> m is None,
            !self.success ==> match (self.reason, self.message) {
                (Some(r), _) => m matches Some(t) && t@ == r@,
                (None, Some(g)) => m matches Some(t) && t@ == g@,
                (None, None) => m is None,
            },
    {
        if self.success {
            return None;
        }
        match &self.reason {
            Some(r) => Some(r.as_str()),
            None => match &self.message {
                Some(g) => Some(g.as_str()),
                None => None,
            },
        }
    }
}

/// Reads the reply's field `name` with text `value` into `f`: the field's
/// value is set when the text is valid for it; a refused text leaves `f`
/// as it was.
pub fn apply_login_field(f: &mut LoginFields, name: &str, value: &str) -> (r: Result<FieldUse, String>)
    ensures
        match r {
            Ok(u) => apply_field(old(f)@, name@, value@) == Ok::<(LoginFieldsView, FieldUse), Seq<char>>((final(f)@, u)),
            Err(e) => apply_field(old(f)@, name@, value@) == Err::<(LoginFieldsView, FieldUse), Seq<char>>(e@)
                && final(f)@ == old(f)@,
        },
{
    if str_eq(name, "login") {
        match parse_bool(value) {
            Some(b) => {
                f.success = b;
            },
            None => {
                return Err(String::from_str("Invalid login value"));
            },
        }
    } else if str_eq(name, "agent_id") {
        match uuid_parse_str(value) {
            Some(b) => {
                f.agent_id = b;
            },
            None => {
                return Err(String::from_str("Invalid agent_id"));
            },
        }
    } else if str_eq(name, "session_id") {
        match uuid_parse_str(value) {
            Some(b) => {
                f.session_id = b;
            },
            None => {
                return Err(String::from_str("Invalid session_id"));
            },
        }
    } else if str_eq(name, "secure_session_id") {
        match uuid_parse_str(value) {
            Some(b) => {
                f.secure_session_id = b;
            },
            None => {
                return Err(String::from_str("Invalid secure_session_id"));
            },
        }
    } else if str_eq(name, "first_name") {
        let cs = chars_of(value);
        let t = trim_char_ends(&cs, '"', '"');
        f.first_name = string_of(&t);
    } else if str_eq(name, "last_name") {
        f.last_name = String::from_str(value);
    } else if str_eq(name, "circuit_code") {
        match parse_unsigned(value, 0xffff_ffff) {
            Some(x) => {
                f.circuit_code = x as u32;
            },
            None => {
                return Err(String::from_str("Invalid circuit_code"));
            },
        }
    } else if str_eq(name, "sim_ip") {
        f.simulator_ip = String::from_str(value);
    } else if str_eq(name, "sim_port") {
        match parse_unsigned(value, 0xffff) {
            Some(x) => {
                f.simulator_port = x as u16;
            },
            None => {
                return Err(String::from_str("Invalid sim_port"));
            },
        }
    } else if str_eq(name, "reason") {
        f.reason = Some(String::from_str(value));
    } else if str_eq(name, "message") {
        f.message = Some(String::from_str(value));
    } else if str_eq(name, "seed_capability") {
        f.seed_capability = Some(String::from_str(value));
    } else if str_eq(name, "agent_access") {
        f.agent_access = Some(String::from_str(value));
    } else if str_eq(name, "agent_access_max") {
        f.agent_access_max = Some(String::from_str(value));
    } else if str_eq(name, "agent_region_access") {
        f.agent_region_access = Some(String::from_str(value));
    } else if str_eq(name, "agent_appearance_service") {
        f.agent_appearance_service = Some(String::from_str(value));
    } else if str_eq(name, "openid_url") {
        f.openid_url = Some(String::from_str(value));
    } else if str_eq(name, "openid_token") {
        f.openid_token = Some(String::from_str(value));
    } else if str_eq(name, "account_type") {
        f.account_type = Some(String::from_str(value));
    } else if str_eq(name, "linden_status_code") {
        f.linden_status_code = Some(String::from_str(value));
    } else if str_eq(name, "map_server_url") {
        f.map_server_url = Some(String::from_str(value));
    } else if str_eq(name, "agent_flags") {
        match parse_unsigned(value, 0xffff_ffff) {
            Some(x) => {
                f.agent_flags = Some(x as u32);
            },
            None => {
                return Err(String::from_str("Invalid agent_flags"));
            },
        }
    } else if str_eq(name, "max_agent_groups") {
        match parse_unsigned(value, 0xffff_ffff) {
            Some(x) => {
                f.max_agent_groups = Some(x as u32);
            },
            None => {
                return Err(String::from_str("Invalid max_agent_groups"));
            },
        }
    } else if str_eq(name, "cof_version") {
        match parse_unsigned(value, 0xffff_ffff) {
            Some(x) => {
                f.cof_version = Some(x as u32);
            },
            None => {
                return Err(String::from_str("Invalid cof_version"));
            },
        }
    } else if str_eq(name, "max_god_level") {
        match parse_unsigned(value, 0xffff_ffff) {
            Some(x) => {
                f.max_god_level = Some(x as u32);
            },
            None => {
                return Err(String::from_str("Invalid max_god_level"));
            },
        }
    } else if str_eq(name, "god_level") {
        match parse_unsigned(value, 0xffff_ffff) {
            Some(x) => {
                f.god_level = Some(x as u32);
            },
            None => {
                return Err(String::from_str("Invalid god_level"));
            },
        }
    } else if str_eq(name, "seconds_since_epoch") {
        match parse_unsigned(value, 0xffff_ffff_ffff_ffff) {
            Some(x) => {
                f.seconds_since_epoch = Some(x);
            },
            None => {
                return Err(String::from_str("Invalid seconds_since_epoch"));
            },
        }
    } else if str_eq(name, "region_x") {
        match parse_i32(value) {
            Some(x) => {
                f.region_x = Some(x);
            },
            None => {
                return Err(String::from_str("Invalid region_x"));
            },
        }
    } else if str_eq(name, "region_y") {
        match parse_i32(value) {
            Some(x) => {
                f.region_y = Some(x);
            },
            None => {
                return Err(String::from_str("Invalid region_y"));
            },
        }
    } else if str_eq(name, "udp_blacklist") {
        f.udp_blacklist = Some(split_commas_exec(value));
    } else if str_eq(name, "look_at") || str_eq(name, "start_location") || str_eq(name, "home") {
        return Ok(FieldUse::Position);
    } else {
        return Ok(FieldUse::Ignored);
    }
    Ok(FieldUse::Applied)
}

/// The fields after the reply's fields are read in order from fresh ones,
/// or the first refusal.
pub open spec fn apply_all(ps: Seq<(Seq<char>, Seq<char>)>) -> Result<LoginFieldsView, Seq<char>>
    decreases ps.len(),
{
    if ps.len() == 0 {
        Ok(fresh_fields())
    } else {
        match apply_all(ps.drop_last()) {
            Ok(w) => match apply_field(w, ps.last().0, ps.last().1) {
                Ok((x, _)) => Ok(x),
                Err(e) => Err(e),
            },
            Err(e) => Err(e),
        }
    }
}

/// Reads the reply's name and text pairs, in order, into fresh fields; the
/// first text a field refuses ends the reading with its error.
pub fn login_fields_from_pairs(pairs: &Vec<(String, String)>) -> (r: Result<LoginFields, String>)
    ensures
        match r {
            Ok(f) => apply_all(pairs_view(pairs@)) == Ok::<LoginFieldsView, Seq<char>>(f@),
            Err(e) => apply_all(pairs_view(pairs@)) == Err::<LoginFieldsView, Seq<char>>(e@),
        },
{
    let mut f = LoginFields::new();
    let ghost ps = pairs_view(pairs@);
    let mut i: usize = 0;
    while i < pairs.len()
        invariant
            i <= pairs.len(),
            ps == pairs_view(pairs@),
            apply_all(ps.take(i as int)) == Ok::<LoginFieldsView, Seq<char>>(f@),
        decreases pairs.len() - i,
    {
        proof {
            assert(ps.take(i + 1).drop_last() =~= ps.take(i as int));
            assert(ps.take(i + 1).last() == ps[i as int]);
            assert(ps[i as int] == (pairs@[i as int].0@, pairs@[i as int].1@));
        }
        match apply_login_field(&mut f, pairs[i].0.as_str(), pairs[i].1.as_str()) {
            Ok(_) => {},
            Err(e) => {
                proof {
                    lemma_apply_all_stops(ps, i as int + 1);
                }
                return Err(e);
            },
        }
        i = i + 1;
    }
    assert(ps.take(pairs.len() as int) =~= ps);
    Ok(f)
}

/// Once a field is refused, the later pairs change nothing.
proof fn lemma_apply_all_stops(ps: Seq<(Seq<char>, Seq<char>)>, n: int)
    requires
        0 <= n <= ps.len(),
        apply_all(ps.take(n)) is Err,
    ensures
        apply_all(ps) == apply_all(ps.take(n)),
    decreases ps.len() - n,
{
    if n < ps.len() {
        assert(ps.drop_last().take(n) =~= ps.take(n));
        lemma_apply_all_stops(ps.drop_last(), n);
    } else {
        assert(ps.take(n) =~= ps);
    }
}

/// What a login reply reads as: its fields, or why it was refused.
pub open spec fn login_reply_spec(xml: Seq<char>) -> Result<LoginFieldsView, Seq<char>> {
    match login_fields_spec(xml) {
        Ok(ps) => apply_all(ps),
        Err(e) => Err(e),
    }
}

/// Reads the login server's XML-RPC reply into login fields.
pub fn parse_login_response(xml: &str) -> (r: Result<LoginFields, String>)
    ensures
        match r {
            Ok(f) => login_reply_spec(xml@) == Ok::<LoginFieldsView, Seq<char>>(f@),
            Err(e) => login_reply_spec(xml@) == Err::<LoginFieldsView, Seq<char>>(e@),
        },
{
    match login_response_fields(xml) {
        Ok(pairs) => login_fields_from_pairs(&pairs),
        Err(e) => Err(e),
    }
}

proof fn lemma_digit_char_value(d: nat)
    requires
        d < 10,
    ensures
        digit_char(d) as int - 48 == d,
        '0' <= digit_char(d) <= '9',
{
}

/// The decimal digits of a number are ASCII digits whose value is the number.
pub proof fn lemma_dec_digits(n: nat)
    ensures
        dec(n).len() > 0,
        all_ascii_digits(dec(n)),
        digits_value(dec(n)) == n,
    decreases n,
{
    lemma_digit_char_value(n % 10);
    if n < 10 {
        let s = dec(n);
        assert(s.drop_last() =~= Seq::<char>::empty());
        assert(s.last() == digit_char(n));
        assert(n % 10 == n);
        assert(digits_value(Seq::<char>::empty()) == 0);
        assert(digits_value(s) == digits_value(s.drop_last()) * 10 + (s.last() as int - 48));
    } else {
        lemma_dec_digits(n / 10);
        let p = dec(n / 10);
        let s = dec(n);
        assert(s.drop_last() =~= p);
        assert(s.last() == digit_char(n % 10));
        assert(digits_value(s) == digits_value(p) * 10 + (digit_char(n % 10) as int - 48));
        assert((n / 10) * 10 + n % 10 == n);
        assert forall|i: int| 0 <= i < s.len() implies '0' <= #[trigger] s[i] && s[i] <= '9' by {
            if i < p.len() {
                assert(s[i] == p[i]);
            }
        }
    }
}

/// Parsing the decimal rendering of a number that fits gives the number back.
pub proof fn lemma_parse_unsigned_dec(n: nat, max: nat)
    requires
        n <= max,
    ensures
        parse_unsigned_spec(dec(n), max) == Some(n),
{
    lemma_dec_digits(n);
    assert(dec(n)[0] != '+');
}

/// Reading the field `last_name` stores its text as given and leaves every other
/// field as it was.
pub proof fn lemma_reads_last_name(v: LoginFieldsView, value: Seq<char>)
    ensures
        apply_field(v, "last_name"@, value) == Ok::<(LoginFieldsView, FieldUse), Seq<char>>(
            (LoginFieldsView { last_name: value, ..v }, FieldUse::Applied),
        ),
{
        reveal_strlit("last_name");
        reveal_strlit("login");
        assert("last_name"@.len() != "login"@.len());
        reveal_strlit("agent_id");
        assert("last_name"@.len() != "agent_id"@.len());
        reveal_strlit("session_id");
        assert("last_name"@.len() != "session_id"@.len());
        reveal_strlit("secure_session_id");
        assert("last_name"@.len() != "secure_session_id"@.len());
        reveal_strlit("first_name");
        assert("last_name"@.len() != "first_name"@.len());
}

/// Reading the field `sim_ip` stores its text as given and leaves every other
/// field as it was.
pub proof fn lemma_reads_sim_ip(v: LoginFieldsView, value: Seq<char>)
    ensures
        apply_field(v, "sim_ip"@, value) == Ok::<(LoginFieldsView, FieldUse), Seq<char>>(
            (LoginFieldsView { simulator_ip: value, ..v }, FieldUse::Applied),
        ),
{
        reveal_strlit("sim_ip");
        reveal_strlit("login");
        assert("sim_ip"@.len() != "login"@.len());
        reveal_strlit("agent_id");
        assert("sim_ip"@.len() != "agent_id"@.len());
        reveal_strlit("session_id");
        assert("sim_ip"@.len() != "session_id"@.len());
        reveal_strlit("secure_session_id");
        assert("sim_ip"@.len() != "secure_session_id"@.len());
        reveal_strlit("first_name");
        assert("sim_ip"@.len() != "first_name"@.len());
        reveal_strlit("last_name");
        assert("sim_ip"@.len() != "last_name"@.len());
        reveal_strlit("circuit_code");
        assert("sim_ip"@.len() != "circuit_code"@.len());
}

/// Reading the field `reason` stores its text as given and leaves every other
/// field as it was.
pub proof fn lemma_reads_reason(v: LoginFieldsView, value: Seq<char>)
    ensures
        apply_field(v, "reason"@, value) == Ok::<(LoginFieldsView, FieldUse), Seq<char>>(
            (LoginFieldsView { reason: Some(value), ..v }, FieldUse::Applied),
        ),
{
        reveal_strlit("reason");
        reveal_strlit("login");
        assert("reason"@.len() != "login"@.len());
        reveal_strlit("agent_id");
        assert("reason"@.len() != "agent_id"@.len());
        reveal_strlit("session_id");
        assert("reason"@.len() != "session_id"@.len());
        reveal_strlit("secure_session_id");
        assert("reason"@.len() != "secure_session_id"@.len());
        reveal_strlit("first_name");
        assert("reason"@.len() != "first_name"@.len());
        reveal_strlit("last_name");
        assert("reason"@.len() != "last_name"@.len());
        reveal_strlit("circuit_code");
        assert("reason"@.len() != "circuit_code"@.len());
        reveal_strlit("sim_ip");
        assert("reason"@[0] != "sim_ip"@[0]);
        reveal_strlit("sim_port");
        assert("reason"@.len() != "sim_port"@.len());
}

/// Reading the field `message` stores its text as given and leaves every other
/// field as it was.
pub proof fn lemma_reads_message(v: LoginFieldsView, value: Seq<char>)
    ensures
        apply_field(v, "message"@, value) == Ok::<(LoginFieldsView, FieldUse), Seq<char>>(
            (LoginFieldsView { message: Some(value), ..v }, FieldUse::Applied),
        ),
{
        reveal_strlit("message");
        reveal_strlit("login");
        assert("message"@.len() != "login"@.len());
        reveal_strlit("agent_id");
        assert("message"@.len() != "agent_id"@.len());
        reveal_strlit("session_id");
        assert("message"@.len() != "session_id"@.len());
        reveal_strlit("secure_session_id");
        assert("message"@.len() != "secure_session_id"@.len());
        reveal_strlit("first_name");
        assert("message"@.len() != "first_name"@.len());
        reveal_strlit("last_name");
        assert("message"@.len() != "last_name"@.len());
        reveal_strlit("circuit_code");
        assert("message"@.len() != "circuit_code"@.len());
        reveal_strlit("sim_ip");
        assert("message"@.len() != "sim_ip"@.len());
        reveal_strlit("sim_port");
        assert("message"@.len() != "sim_port"@.len());
        reveal_strlit("reason");
        assert("message"@.len() != "reason"@.len());
}

/// Reading the field `seed_capability` stores its text as given and leaves every other
/// field as it was.
pub proof fn lemma_reads_seed_capability(v: LoginFieldsView, value: Seq<char>)
    ensures
        apply_field(v, "seed_capability"@, value) == Ok::<(LoginFieldsView, FieldUse), Seq<char>>(
            (LoginFieldsView { seed_capability: Some(value), ..v }, FieldUse::Applied),
        ),
{
        reveal_strlit("seed_capability");
        reveal_strlit("login");
        assert("seed_capability"@.len() != "login"@.len());
        reveal_strlit("agent_id");
        assert("seed_capability"@.len() != "agent_id"@.len());
        reveal_strlit("session_id");
        assert("seed_capability"@.len() != "session_id"@.len());
        reveal_strlit("secure_session_id");
        assert("seed_capability"@.len() != "secure_session_id"@.len());
        reveal_strlit("first_name");
        assert("seed_capability"@.len() != "first_name"@.len());
        reveal_strlit("last_name");
        assert("seed_capability"@.len() != "last_name"@.len());
        reveal_strlit("circuit_code");
        assert("seed_capability"@.len() != "circuit_code"@.len());
        reveal_strlit("sim_ip");
        assert("seed_capability"@.len() != "sim_ip"@.len());
        reveal_strlit("sim_port");
        assert("seed_capability"@.len() != "sim_port"@.len());
        reveal_strlit("reason");
        assert("seed_capability"@.len() != "reason"@.len());
        reveal_strlit("message");
        assert("seed_capability"@.len() != "message"@.len());
}

/// Reading the field `agent_access` stores its text as given and leaves every other
/// field as it was.
pub proof fn lemma_reads_agent_access(v: LoginFieldsView, value: Seq<char>)
    ensures
        apply_field(v, "agent_access"@, value) == Ok::<(LoginFieldsView, FieldUse), Seq<char>>(
            (LoginFieldsView { agent_access: Some(value), ..v }, FieldUse::Applied),
        ),
{
        reveal_strlit("agent_access");
        reveal_strlit("login");
        assert("agent_access"@.len() != "login"@.len());
        reveal_strlit("agent_id");
        assert("agent_access"@.len() != "agent_id"@.len());
        reveal_strlit("session_id");
        assert("agent_access"@.len() != "session_id"@.len());
        reveal_strlit("secure_session_id");
        assert("agent_access"@.len() != "secure_session_id"@.len());
        reveal_strlit("first_name");
        assert("agent_access"@.len() != "first_name"@.len());
        reveal_strlit("last_name");
        assert("agent_access"@.len() != "last_name"@.len());
        reveal_strlit("circuit_code");
        assert("agent_access"@[0] != "circuit_code"@[0]);
        reveal_strlit("sim_ip");
        assert("agent_access"@.len() != "sim_ip"@.len());
        reveal_strlit("sim_port");
        assert("agent_access"@.len() != "sim_port"@.len());
        reveal_strlit("reason");
        assert("agent_access"@.len() != "reason"@.len());
        reveal_strlit("message");
        assert("agent_access"@.len() != "message"@.len());
        reveal_strlit("seed_capability");
        assert("agent_access"@.len() != "seed_capability"@.len());
}

/// Reading the field `agent_access_max` stores its text as given and leaves every other
/// field as it was.
pub proof fn lemma_reads_agent_access_max(v: LoginFieldsView, value: Seq<char>)
    ensures
        apply_field(v, "agent_access_max"@, value) == Ok::<(LoginFieldsView, FieldUse), Seq<char>>(
            (LoginFieldsView { agent_access_max: Some(value), ..v }, FieldUse::Applied),
        ),
{
        reveal_strlit("agent_access_max");
        reveal_strlit("login");
        assert("agent_access_max"@.len() != "login"@.len());
        reveal_strlit("agent_id");
        assert("agent_access_max"@.len() != "agent_id"@.len());
        reveal_strlit("session_id");
        assert("agent_access_max"@.len() != "session_id"@.len());
        reveal_strlit("secure_session_id");
        assert("agent_access_max"@.len() != "secure_session_id"@.len());
        reveal_strlit("first_name");
        assert("agent_access_max"@.len() != "first_name"@.len());
        reveal_strlit("last_name");
        assert("agent_access_max"@.len() != "last_name"@.len());
        reveal_strlit("circuit_code");
        assert("agent_access_max"@.len() != "circuit_code"@.len());
        reveal_strlit("sim_ip");
        assert("agent_access_max"@.len() != "sim_ip"@.len());
        reveal_strlit("sim_port");
        assert("agent_access_max"@.len() != "sim_port"@.len());
        reveal_strlit("reason");
        assert("agent_access_max"@.len() != "reason"@.len());
        reveal_strlit("message");
        assert("agent_access_max"@.len() != "message"@.len());
        reveal_strlit("seed_capability");
        assert("agent_access_max"@.len() != "seed_capability"@.len());
        reveal_strlit("agent_access");
        assert("agent_access_max"@.len() != "agent_access"@.len());
}

/// Reading the field `agent_region_access` stores its text as given and leaves every other
/// field as it was.
pub proof fn lemma_reads_agent_region_access(v: LoginFieldsView, value: Seq<char>)
    ensures
        apply_field(v, "agent_region_access"@, value) == Ok::<(LoginFieldsView, FieldUse), Seq<char>>(
            (LoginFieldsView { agent_region_access: Some(value), ..v }, FieldUse::Applied),
        ),
{
        reveal_strlit("agent_region_access");
        reveal_strlit("login");
        assert("agent_region_access"@.len() != "login"@.len());
        reveal_strlit("agent_id");
        assert("agent_region_access"@.len() != "agent_id"@.len());
        reveal_strlit("session_id");
        assert("agent_region_access"@.len() != "session_id"@.len());
        reveal_strlit("secure_session_id");
        assert("agent_region_access"@.len() != "secure_session_id"@.len());
        reveal_strlit("first_name");
        assert("agent_region_access"@.len() != "first_name"@.len());
        reveal_strlit("last_name");
        assert("agent_region_access"@.len() != "last_name"@.len());
        reveal_strlit("circuit_code");
        assert("agent_region_access"@.len() != "circuit_code"@.len());
        reveal_strlit("sim_ip");
        assert("agent_region_access"@.len() != "sim_ip"@.len());
        reveal_strlit("sim_port");
        assert("agent_region_access"@.len() != "sim_port"@.len());
        reveal_strlit("reason");
        assert("agent_region_access"@.len() != "reason"@.len());
        reveal_strlit("message");
        assert("agent_region_access"@.len() != "message"@.len());
        reveal_strlit("seed_capability");
        assert("agent_region_access"@.len() != "seed_capability"@.len());
        reveal_strlit("agent_access");
        assert("agent_region_access"@.len() != "agent_access"@.len());
        reveal_strlit("agent_access_max");
        assert("agent_region_access"@.len() != "agent_access_max"@.len());
}

/// Reading the field `agent_appearance_service` stores its text as given and leaves every other
/// field as it was.
pub proof fn lemma_reads_agent_appearance_service(v: LoginFieldsView, value: Seq<char>)
    ensures
        apply_field(v, "agent_appearance_service"@, value) == Ok::<(LoginFieldsView, FieldUse), Seq<char>>(
            (LoginFieldsView { agent_appearance_service: Some(value), ..v }, FieldUse::Applied),
        ),
{
        reveal_strlit("agent_appearance_service");
        reveal_strlit("login");
        assert("agent_appearance_service"@.len() != "login"@.len());
        reveal_strlit("agent_id");
        assert("agent_appearance_service"@.len() != "agent_id"@.len());
        reveal_strlit("session_id");
        assert("agent_appearance_service"@.len() != "session_id"@.len());
        reveal_strlit("secure_session_id");
        assert("agent_appearance_service"@.len() != "secure_session_id"@.len());
        reveal_strlit("first_name");
        assert("agent_appearance_service"@.len() != "first_name"@.len());
        reveal_strlit("last_name");
        assert("agent_appearance_service"@.len() != "last_name"@.len());
        reveal_strlit("circuit_code");
        assert("agent_appearance_service"@.len() != "circuit_code"@.len());
        reveal_strlit("sim_ip");
        assert("agent_appearance_service"@.len() != "sim_ip"@.len());
        reveal_strlit("sim_port");
        assert("agent_appearance_service"@.len() != "sim_port"@.len());
        reveal_strlit("reason");
        assert("agent_appearance_service"@.len() != "reason"@.len());
        reveal_strlit("message");
        assert("agent_appearance_service"@.len() != "message"@.len());
        reveal_strlit("seed_capability");
        assert("agent_appearance_service"@.len() != "seed_capability"@.len());
        reveal_strlit("agent_access");
        assert("agent_appearance_service"@.len() != "agent_access"@.len());
        reveal_strlit("agent_access_max");
        assert("agent_appearance_service"@.len() != "agent_access_max"@.len());
        reveal_strlit("agent_region_access");
        assert("agent_appearance_service"@.len() != "agent_region_access"@.len());
}

/// Reading the field `openid_url` stores its text as given and leaves every other
/// field as it was.
pub proof fn lemma_reads_openid_url(v: LoginFieldsView, value: Seq<char>)
    ensures
        apply_field(v, "openid_url"@, value) == Ok::<(LoginFieldsView, FieldUse), Seq<char>>(
            (LoginFieldsView { openid_url: Some(value), ..v }, FieldUse::Applied),
        ),
{
        reveal_strlit("openid_url");
        reveal_strlit("login");
        assert("openid_url"@.len() != "login"@.len());
        reveal_strlit("agent_id");
        assert("openid_url"@.len() != "agent_id"@.len());
        reveal_strlit("session_id");
        assert("openid_url"@[0] != "session_id"@[0]);
        reveal_strlit("secure_session_id");
        assert("openid_url"@.len() != "secure_session_id"@.len());
        reveal_strlit("first_name");
        assert("openid_url"@[0] != "first_name"@[0]);
        reveal_strlit("last_name");
        assert("openid_url"@.len() != "last_name"@.len());
        reveal_strlit("circuit_code");
        assert("openid_url"@.len() != "circuit_code"@.len());
        reveal_strlit("sim_ip");
        assert("openid_url"@.len() != "sim_ip"@.len());
        reveal_strlit("sim_port");
        assert("openid_url"@.len() != "sim_port"@.len());
        reveal_strlit("reason");
        assert("openid_url"@.len() != "reason"@.len());
        reveal_strlit("message");
        assert("openid_url"@.len() != "message"@.len());
        reveal_strlit("seed_capability");
        assert("openid_url"@.len() != "seed_capability"@.len());
        reveal_strlit("agent_access");
        assert("openid_url"@.len() != "agent_access"@.len());
        reveal_strlit("agent_access_max");
        assert("openid_url"@.len() != "agent_access_max"@.len());
        reveal_strlit("agent_region_access");
        assert("openid_url"@.len() != "agent_region_access"@.len());
        reveal_strlit("agent_appearance_service");
        assert("openid_url"@.len() != "agent_appearance_service"@.len());
}

/// Reading the field `openid_token` stores its text as given and leaves every other
/// field as it was.
pub proof fn lemma_reads_openid_token(v: LoginFieldsView, value: Seq<char>)
    ensures
        apply_field(v, "openid_token"@, value) == Ok::<(LoginFieldsView, FieldUse), Seq<char>>(
            (LoginFieldsView { openid_token: Some(value), ..v }, FieldUse::Applied),
        ),
{
        reveal_strlit("openid_token");
        reveal_strlit("login");
        assert("openid_token"@.len() != "login"@.len());
        reveal_strlit("agent_id");
        assert("openid_token"@.len() != "agent_id"@.len());
        reveal_strlit("session_id");
        assert("openid_token"@.len() != "session_id"@.len());
        reveal_strlit("secure_session_id");
        assert("openid_token"@.len() != "secure_session_id"@.len());
        reveal_strlit("first_name");
        assert("openid_token"@.len() != "first_name"@.len());
        reveal_strlit("last_name");
        assert("openid_token"@.len() != "last_name"@.len());
        reveal_strlit("circuit_code");
        assert("openid_token"@[0] != "circuit_code"@[0]);
        reveal_strlit("sim_ip");
        assert("openid_token"@.len() != "sim_ip"@.len());
        reveal_strlit("sim_port");
        assert("openid_token"@.len() != "sim_port"@.len());
        reveal_strlit("reason");
        assert("openid_token"@.len() != "reason"@.len());
        reveal_strlit("message");
        assert("openid_token"@.len() != "message"@.len());
        reveal_strlit("seed_capability");
        assert("openid_token"@.len() != "seed_capability"@.len());
        reveal_strlit("agent_access");
        assert("openid_token"@[0] != "agent_access"@[0]);
        reveal_strlit("agent_access_max");
        assert("openid_token"@.len() != "agent_access_max"@.len());
        reveal_strlit("agent_region_access");
        assert("openid_token"@.len() != "agent_region_access"@.len());
        reveal_strlit("agent_appearance_service");
        assert("openid_token"@.len() != "agent_appearance_service"@.len());
        reveal_strlit("openid_url");
        assert("openid_token"@.len() != "openid_url"@.len());
}

/// Reading the field `account_type` stores its text as given and leaves every other
/// field as it was.
pub proof fn lemma_reads_account_type(v: LoginFieldsView, value: Seq<char>)
    ensures
        apply_field(v, "account_type"@, value) == Ok::<(LoginFieldsView, FieldUse), Seq<char>>(
            (LoginFieldsView { account_type: Some(value), ..v }, FieldUse::Applied),
        ),
{
        reveal_strlit("account_type");
        reveal_strlit("login");
        assert("account_type"@.len() != "login"@.len());
        reveal_strlit("agent_id");
        assert("account_type"@.len() != "agent_id"@.len());
        reveal_strlit("session_id");
        assert("account_type"@.len() != "session_id"@.len());
        reveal_strlit("secure_session_id");
        assert("account_type"@.len() != "secure_session_id"@.len());
        reveal_strlit("first_name");
        assert("account_type"@.len() != "first_name"@.len());
        reveal_strlit("last_name");
        assert("account_type"@.len() != "last_name"@.len());
        reveal_strlit("circuit_code");
        assert("account_type"@[0] != "circuit_code"@[0]);
        reveal_strlit("sim_ip");
        assert("account_type"@.len() != "sim_ip"@.len());
        reveal_strlit("sim_port");
        assert("account_type"@.len() != "sim_port"@.len());
        reveal_strlit("reason");
        assert("account_type"@.len() != "reason"@.len());
        reveal_strlit("message");
        assert("account_type"@.len() != "message"@.len());
        reveal_strlit("seed_capability");
        assert("account_type"@.len() != "seed_capability"@.len());
        reveal_strlit("agent_access");
        assert("account_type"@[1] != "agent_access"@[1]);
        reveal_strlit("agent_access_max");
        assert("account_type"@.len() != "agent_access_max"@.len());
        reveal_strlit("agent_region_access");
        assert("account_type"@.len() != "agent_region_access"@.len());
        reveal_strlit("agent_appearance_service");
        assert("account_type"@.len() != "agent_appearance_service"@.len());
        reveal_strlit("openid_url");
        assert("account_type"@.len() != "openid_url"@.len());
        reveal_strlit("openid_token");
        assert("account_type"@[0] != "openid_token"@[0]);
}

/// Reading the field `linden_status_code` stores its text as given and leaves every other
/// field as it was.
pub proof fn lemma_reads_linden_status_code(v: LoginFieldsView, value: Seq<char>)
    ensures
        apply_field(v, "linden_status_code"@, value) == Ok::<(LoginFieldsView, FieldUse), Seq<char>>(
            (LoginFieldsView { linden_status_code: Some(value), ..v }, FieldUse::Applied),
        ),
{
        reveal_strlit("linden_status_code");
        reveal_strlit("login");
        assert("linden_status_code"@.len() != "login"@.len());
        reveal_strlit("agent_id");
        assert("linden_status_code"@.len() != "agent_id"@.len());
        reveal_strlit("session_id");
        assert("linden_status_code"@.len() != "session_id"@.len());
        reveal_strlit("secure_session_id");
        assert("linden_status_code"@.len() != "secure_session_id"@.len());
        reveal_strlit("first_name");
        assert("linden_status_code"@.len() != "first_name"@.len());
        reveal_strlit("last_name");
        assert("linden_status_code"@.len() != "last_name"@.len());
        reveal_strlit("circuit_code");
        assert("linden_status_code"@.len() != "circuit_code"@.len());
        reveal_strlit("sim_ip");
        assert("linden_status_code"@.len() != "sim_ip"@.len());
        reveal_strlit("sim_port");
        assert("linden_status_code"@.len() != "sim_port"@.len());
        reveal_strlit("reason");
        assert("linden_status_code"@.len() != "reason"@.len());
        reveal_strlit("message");
        assert("linden_status_code"@.len() != "message"@.len());
        reveal_strlit("seed_capability");
        assert("linden_status_code"@.len() != "seed_capability"@.len());
        reveal_strlit("agent_access");
        assert("linden_status_code"@.len() != "agent_access"@.len());
        reveal_strlit("agent_access_max");
        assert("linden_status_code"@.len() != "agent_access_max"@.len());
        reveal_strlit("agent_region_access");
        assert("linden_status_code"@.len() != "agent_region_access"@.len());
        reveal_strlit("agent_appearance_service");
        assert("linden_status_code"@.len() != "agent_appearance_service"@.len());
        reveal_strlit("openid_url");
        assert("linden_status_code"@.len() != "openid_url"@.len());
        reveal_strlit("openid_token");
        assert("linden_status_code"@.len() != "openid_token"@.len());
        reveal_strlit("account_type");
        assert("linden_status_code"@.len() != "account_type"@.len());
}

/// Reading the field `map_server_url` stores its text as given and leaves every other
/// field as it was.
pub proof fn lemma_reads_map_server_url(v: LoginFieldsView, value: Seq<char>)
    ensures
        apply_field(v, "map_server_url"@, value) == Ok::<(LoginFieldsView, FieldUse), Seq<char>>(
            (LoginFieldsView { map_server_url: Some(value), ..v }, FieldUse::Applied),
        ),
{
        reveal_strlit("map_server_url");
        reveal_strlit("login");
        assert("map_server_url"@.len() != "login"@.len());
        reveal_strlit("agent_id");
        assert("map_server_url"@.len() != "agent_id"@.len());
        reveal_strlit("session_id");
        assert("map_server_url"@.len() != "session_id"@.len());
        reveal_strlit("secure_session_id");
        assert("map_server_url"@.len() != "secure_session_id"@.len());
        reveal_strlit("first_name");
        assert("map_server_url"@.len() != "first_name"@.len());
        reveal_strlit("last_name");
        assert("map_server_url"@.len() != "last_name"@.len());
        reveal_strlit("circuit_code");
        assert("map_server_url"@.len() != "circuit_code"@.len());
        reveal_strlit("sim_ip");
        assert("map_server_url"@.len() != "sim_ip"@.len());
        reveal_strlit("sim_port");
        assert("map_server_url"@.len() != "sim_port"@.len());
        reveal_strlit("reason");
        assert("map_server_url"@.len() != "reason"@.len());
        reveal_strlit("message");
        assert("map_server_url"@.len() != "message"@.len());
        reveal_strlit("seed_capability");
        assert("map_server_url"@.len() != "seed_capability"@.len());
        reveal_strlit("agent_access");
        assert("map_server_url"@.len() != "agent_access"@.len());
        reveal_strlit("agent_access_max");
        assert("map_server_url"@.len() != "agent_access_max"@.len());
        reveal_strlit("agent_region_access");
        assert("map_server_url"@.len() != "agent_region_access"@.len());
        reveal_strlit("agent_appearance_service");
        assert("map_server_url"@.len() != "agent_appearance_service"@.len());
        reveal_strlit("openid_url");
        assert("map_server_url"@.len() != "openid_url"@.len());
        reveal_strlit("openid_token");
        assert("map_server_url"@.len() != "openid_token"@.len());
        reveal_strlit("account_type");
        assert("map_server_url"@.len() != "account_type"@.len());
        reveal_strlit("linden_status_code");
        assert("map_server_url"@.len() != "linden_status_code"@.len());
}

/// Reading the field `circuit_code` with the decimal rendering of a `u32`
/// sets the circuit code to that number and leaves every other field as it
/// was.
pub proof fn lemma_reads_circuit_code(v: LoginFieldsView, n: u32)
    ensures
        apply_field(v, "circuit_code"@, dec(n as nat)) == Ok::<(LoginFieldsView, FieldUse), Seq<char>>(
            (LoginFieldsView { circuit_code: n, ..v }, FieldUse::Applied),
        ),
{
    lemma_parse_unsigned_dec(n as nat, u32::MAX as nat);
        reveal_strlit("circuit_code");
        reveal_strlit("login");
        assert("circuit_code"@.len() != "login"@.len());
        reveal_strlit("agent_id");
        assert("circuit_code"@.len() != "agent_id"@.len());
        reveal_strlit("session_id");
        assert("circuit_code"@.len() != "session_id"@.len());
        reveal_strlit("secure_session_id");
        assert("circuit_code"@.len() != "secure_session_id"@.len());
        reveal_strlit("first_name");
        assert("circuit_code"@.len() != "first_name"@.len());
        reveal_strlit("last_name");
        assert("circuit_code"@.len() != "last_name"@.len());
}

/// Reading the field `sim_port` with the decimal rendering of a `u16`
/// sets the simulator port to that number and leaves every other field as
/// it was.
pub proof fn lemma_reads_sim_port(v: LoginFieldsView, n: u16)
    ensures
        apply_field(v, "sim_port"@, dec(n as nat)) == Ok::<(LoginFieldsView, FieldUse), Seq<char>>(
            (LoginFieldsView { simulator_port: n, ..v }, FieldUse::Applied),
        ),
{
    lemma_parse_unsigned_dec(n as nat, u16::MAX as nat);
        reveal_strlit("sim_port");
        reveal_strlit("login");
        assert("sim_port"@.len() != "login"@.len());
        reveal_strlit("agent_id");
        assert("sim_port"@[0] != "agent_id"@[0]);
        reveal_strlit("session_id");
        assert("sim_port"@.len() != "session_id"@.len());
        reveal_strlit("secure_session_id");
        assert("sim_port"@.len() != "secure_session_id"@.len());
        reveal_strlit("first_name");
        assert("sim_port"@.len() != "first_name"@.len());
        reveal_strlit("last_name");
        assert("sim_port"@.len() != "last_name"@.len());
        reveal_strlit("circuit_code");
        assert("sim_port"@.len() != "circuit_code"@.len());
        reveal_strlit("sim_ip");
        assert("sim_port"@.len() != "sim_ip"@.len());
}

/// Reading the field `agent_flags` with the decimal rendering of a `u32` stores
/// that number and leaves every other field as it was.
pub proof fn lemma_reads_agent_flags(v: LoginFieldsView, n: u32)
    ensures
        apply_field(v, "agent_flags"@, dec(n as nat)) == Ok::<(LoginFieldsView, FieldUse), Seq<char>>(
            (LoginFieldsView { agent_flags: Some(n), ..v }, FieldUse::Applied),
        ),
{
    lemma_parse_unsigned_dec(n as nat, u32::MAX as nat);
        reveal_strlit("agent_flags");
        reveal_strlit("login");
        assert("agent_flags"@.len() != "login"@.len());
        reveal_strlit("agent_id");
        assert("agent_flags"@.len() != "agent_id"@.len());
        reveal_strlit("session_id");
        assert("agent_flags"@.len() != "session_id"@.len());
        reveal_strlit("secure_session_id");
        assert("agent_flags"@.len() != "secure_session_id"@.len());
        reveal_strlit("first_name");
        assert("agent_flags"@.len() != "first_name"@.len());
        reveal_strlit("last_name");
        assert("agent_flags"@.len() != "last_name"@.len());
        reveal_strlit("circuit_code");
        assert("agent_flags"@.len() != "circuit_code"@.len());
        reveal_strlit("sim_ip");
        assert("agent_flags"@.len() != "sim_ip"@.len());
        reveal_strlit("sim_port");
        assert("agent_flags"@.len() != "sim_port"@.len());
        reveal_strlit("reason");
        assert("agent_flags"@.len() != "reason"@.len());
        reveal_strlit("message");
        assert("agent_flags"@.len() != "message"@.len());
        reveal_strlit("seed_capability");
        assert("agent_flags"@.len() != "seed_capability"@.len());
        reveal_strlit("agent_access");
        assert("agent_flags"@.len() != "agent_access"@.len());
        reveal_strlit("agent_access_max");
        assert("agent_flags"@.len() != "agent_access_max"@.len());
        reveal_strlit("agent_region_access");
        assert("agent_flags"@.len() != "agent_region_access"@.len());
        reveal_strlit("agent_appearance_service");
        assert("agent_flags"@.len() != "agent_appearance_service"@.len());
        reveal_strlit("openid_url");
        assert("agent_flags"@.len() != "openid_url"@.len());
        reveal_strlit("openid_token");
        assert("agent_flags"@.len() != "openid_token"@.len());
        reveal_strlit("account_type");
        assert("agent_flags"@.len() != "account_type"@.len());
        reveal_strlit("linden_status_code");
        assert("agent_flags"@.len() != "linden_status_code"@.len());
        reveal_strlit("map_server_url");
        assert("agent_flags"@.len() != "map_server_url"@.len());
}

/// Reading the field `max_agent_groups` with the decimal rendering of a `u32` stores
/// that number and leaves every other field as it was.
pub proof fn lemma_reads_max_agent_groups(v: LoginFieldsView, n: u32)
    ensures
        apply_field(v, "max_agent_groups"@, dec(n as nat)) == Ok::<(LoginFieldsView, FieldUse), Seq<char>>(
            (LoginFieldsView { max_agent_groups: Some(n), ..v }, FieldUse::Applied),
        ),
{
    lemma_parse_unsigned_dec(n as nat, u32::MAX as nat);
        reveal_strlit("max_agent_groups");
        reveal_strlit("login");
        assert("max_agent_groups"@.len() != "login"@.len());
        reveal_strlit("agent_id");
        assert("max_agent_groups"@.len() != "agent_id"@.len());
        reveal_strlit("session_id");
        assert("max_agent_groups"@.len() != "session_id"@.len());
        reveal_strlit("secure_session_id");
        assert("max_agent_groups"@.len() != "secure_session_id"@.len());
        reveal_strlit("first_name");
        assert("max_agent_groups"@.len() != "first_name"@.len());
        reveal_strlit("last_name");
        assert("max_agent_groups"@.len() != "last_name"@.len());
        reveal_strlit("circuit_code");
        assert("max_agent_groups"@.len() != "circuit_code"@.len());
        reveal_strlit("sim_ip");
        assert("max_agent_groups"@.len() != "sim_ip"@.len());
        reveal_strlit("sim_port");
        assert("max_agent_groups"@.len() != "sim_port"@.len());
        reveal_strlit("reason");
        assert("max_agent_groups"@.len() != "reason"@.len());
        reveal_strlit("message");
        assert("max_agent_groups"@.len() != "message"@.len());
        reveal_strlit("seed_capability");
        assert("max_agent_groups"@.len() != "seed_capability"@.len());
        reveal_strlit("agent_access");
        assert("max_agent_groups"@.len() != "agent_access"@.len());
        reveal_strlit("agent_access_max");
        assert("max_agent_groups"@[0] != "agent_access_max"@[0]);
        reveal_strlit("agent_region_access");
        assert("max_agent_groups"@.len() != "agent_region_access"@.len());
        reveal_strlit("agent_appearance_service");
        assert("max_agent_groups"@.len() != "agent_appearance_service"@.len());
        reveal_strlit("openid_url");
        assert("max_agent_groups"@.len() != "openid_url"@.len());
        reveal_strlit("openid_token");
        assert("max_agent_groups"@.len() != "openid_token"@.len());
        reveal_strlit("account_type");
        assert("max_agent_groups"@.len() != "account_type"@.len());
        reveal_strlit("linden_status_code");
        assert("max_agent_groups"@.len() != "linden_status_code"@.len());
        reveal_strlit("map_server_url");
        assert("max_agent_groups"@.len() != "map_server_url"@.len());
        reveal_strlit("agent_flags");
        assert("max_agent_groups"@.len() != "agent_flags"@.len());
}

/// Reading the field `cof_version` with the decimal rendering of a `u32` stores
/// that number and leaves every other field as it was.
pub proof fn lemma_reads_cof_version(v: LoginFieldsView, n: u32)
    ensures
        apply_field(v, "cof_version"@, dec(n as nat)) == Ok::<(LoginFieldsView, FieldUse), Seq<char>>(
            (LoginFieldsView { cof_version: Some(n), ..v }, FieldUse::Applied),
        ),
{
    lemma_parse_unsigned_dec(n as nat, u32::MAX as nat);
        reveal_strlit("cof_version");
        reveal_strlit("login");
        assert("cof_version"@.len() != "login"@.len());
        reveal_strlit("agent_id");
        assert("cof_version"@.len() != "agent_id"@.len());
        reveal_strlit("session_id");
        assert("cof_version"@.len() != "session_id"@.len());
        reveal_strlit("secure_session_id");
        assert("cof_version"@.len() != "secure_session_id"@.len());
        reveal_strlit("first_name");
        assert("cof_version"@.len() != "first_name"@.len());
        reveal_strlit("last_name");
        assert("cof_version"@.len() != "last_name"@.len());
        reveal_strlit("circuit_code");
        assert("cof_version"@.len() != "circuit_code"@.len());
        reveal_strlit("sim_ip");
        assert("cof_version"@.len() != "sim_ip"@.len());
        reveal_strlit("sim_port");
        assert("cof_version"@.len() != "sim_port"@.len());
        reveal_strlit("reason");
        assert("cof_version"@.len() != "reason"@.len());
        reveal_strlit("message");
        assert("cof_version"@.len() != "message"@.len());
        reveal_strlit("seed_capability");
        assert("cof_version"@.len() != "seed_capability"@.len());
        reveal_strlit("agent_access");
        assert("cof_version"@.len() != "agent_access"@.len());
        reveal_strlit("agent_access_max");
        assert("cof_version"@.len() != "agent_access_max"@.len());
        reveal_strlit("agent_region_access");
        assert("cof_version"@.len() != "agent_region_access"@.len());
        reveal_strlit("agent_appearance_service");
        assert("cof_version"@.len() != "agent_appearance_service"@.len());
        reveal_strlit("openid_url");
        assert("cof_version"@.len() != "openid_url"@.len());
        reveal_strlit("openid_token");
        assert("cof_version"@.len() != "openid_token"@.len());
        reveal_strlit("account_type");
        assert("cof_version"@.len() != "account_type"@.len());
        reveal_strlit("linden_status_code");
        assert("cof_version"@.len() != "linden_status_code"@.len());
        reveal_strlit("map_server_url");
        assert("cof_version"@.len() != "map_server_url"@.len());
        reveal_strlit("agent_flags");
        assert("cof_version"@[0] != "agent_flags"@[0]);
        reveal_strlit("max_agent_groups");
        assert("cof_version"@.len() != "max_agent_groups"@.len());
}

/// Reading the field `max_god_level` with the decimal rendering of a `u32` stores
/// that number and leaves every other field as it was.
pub proof fn lemma_reads_max_god_level(v: LoginFieldsView, n: u32)
    ensures
        apply_field(v, "max_god_level"@, dec(n as nat)) == Ok::<(LoginFieldsView, FieldUse), Seq<char>>(
            (LoginFieldsView { max_god_level: Some(n), ..v }, FieldUse::Applied),
        ),
{
    lemma_parse_unsigned_dec(n as nat, u32::MAX as nat);
        reveal_strlit("max_god_level");
        reveal_strlit("login");
        assert("max_god_level"@.len() != "login"@.len());
        reveal_strlit("agent_id");
        assert("max_god_level"@.len() != "agent_id"@.len());
        reveal_strlit("session_id");
        assert("max_god_level"@.len() != "session_id"@.len());
        reveal_strlit("secure_session_id");
        assert("max_god_level"@.len() != "secure_session_id"@.len());
        reveal_strlit("first_name");
        assert("max_god_level"@.len() != "first_name"@.len());
        reveal_strlit("last_name");
        assert("max_god_level"@.len() != "last_name"@.len());
        reveal_strlit("circuit_code");
        assert("max_god_level"@.len() != "circuit_code"@.len());
        reveal_strlit("sim_ip");
        assert("max_god_level"@.len() != "sim_ip"@.len());
        reveal_strlit("sim_port");
        assert("max_god_level"@.len() != "sim_port"@.len());
        reveal_strlit("reason");
        assert("max_god_level"@.len() != "reason"@.len());
        reveal_strlit("message");
        assert("max_god_level"@.len() != "message"@.len());
        reveal_strlit("seed_capability");
        assert("max_god_level"@.len() != "seed_capability"@.len());
        reveal_strlit("agent_access");
        assert("max_god_level"@.len() != "agent_access"@.len());
        reveal_strlit("agent_access_max");
        assert("max_god_level"@.len() != "agent_access_max"@.len());
        reveal_strlit("agent_region_access");
        assert("max_god_level"@.len() != "agent_region_access"@.len());
        reveal_strlit("agent_appearance_service");
        assert("max_god_level"@.len() != "agent_appearance_service"@.len());
        reveal_strlit("openid_url");
        assert("max_god_level"@.len() != "openid_url"@.len());
        reveal_strlit("openid_token");
        assert("max_god_level"@.len() != "openid_token"@.len());
        reveal_strlit("account_type");
        assert("max_god_level"@.len() != "account_type"@.len());
        reveal_strlit("linden_status_code");
        assert("max_god_level"@.len() != "linden_status_code"@.len());
        reveal_strlit("map_server_url");
        assert("max_god_level"@.len() != "map_server_url"@.len());
        reveal_strlit("agent_flags");
        assert("max_god_level"@.len() != "agent_flags"@.len());
        reveal_strlit("max_agent_groups");
        assert("max_god_level"@.len() != "max_agent_groups"@.len());
        reveal_strlit("cof_version");
        assert("max_god_level"@.len() != "cof_version"@.len());
}

/// Reading the field `god_level` with the decimal rendering of a `u32` stores
/// that number and leaves every other field as it was.
pub proof fn lemma_reads_god_level(v: LoginFieldsView, n: u32)
    ensures
        apply_field(v, "god_level"@, dec(n as nat)) == Ok::<(LoginFieldsView, FieldUse), Seq<char>>(
            (LoginFieldsView { god_level: Some(n), ..v }, FieldUse::Applied),
        ),
{
    lemma_parse_unsigned_dec(n as nat, u32::MAX as nat);
        reveal_strlit("god_level");
        reveal_strlit("login");
        assert("god_level"@.len() != "login"@.len());
        reveal_strlit("agent_id");
        assert("god_level"@.len() != "agent_id"@.len());
        reveal_strlit("session_id");
        assert("god_level"@.len() != "session_id"@.len());
        reveal_strlit("secure_session_id");
        assert("god_level"@.len() != "secure_session_id"@.len());
        reveal_strlit("first_name");
        assert("god_level"@.len() != "first_name"@.len());
        reveal_strlit("last_name");
        assert("god_level"@[0] != "last_name"@[0]);
        reveal_strlit("circuit_code");
        assert("god_level"@.len() != "circuit_code"@.len());
        reveal_strlit("sim_ip");
        assert("god_level"@.len() != "sim_ip"@.len());
        reveal_strlit("sim_port");
        assert("god_level"@.len() != "sim_port"@.len());
        reveal_strlit("reason");
        assert("god_level"@.len() != "reason"@.len());
        reveal_strlit("message");
        assert("god_level"@.len() != "message"@.len());
        reveal_strlit("seed_capability");
        assert("god_level"@.len() != "seed_capability"@.len());
        reveal_strlit("agent_access");
        assert("god_level"@.len() != "agent_access"@.len());
        reveal_strlit("agent_access_max");
        assert("god_level"@.len() != "agent_access_max"@.len());
        reveal_strlit("agent_region_access");
        assert("god_level"@.len() != "agent_region_access"@.len());
        reveal_strlit("agent_appearance_service");
        assert("god_level"@.len() != "agent_appearance_service"@.len());
        reveal_strlit("openid_url");
        assert("god_level"@.len() != "openid_url"@.len());
        reveal_strlit("openid_token");
        assert("god_level"@.len() != "openid_token"@.len());
        reveal_strlit("account_type");
        assert("god_level"@.len() != "account_type"@.len());
        reveal_strlit("linden_status_code");
        assert("god_level"@.len() != "linden_status_code"@.len());
        reveal_strlit("map_server_url");
        assert("god_level"@.len() != "map_server_url"@.len());
        reveal_strlit("agent_flags");
        assert("god_level"@.len() != "agent_flags"@.len());
        reveal_strlit("max_agent_groups");
        assert("god_level"@.len() != "max_agent_groups"@.len());
        reveal_strlit("cof_version");
        assert("god_level"@.len() != "cof_version"@.len());
        reveal_strlit("max_god_level");
        assert("god_level"@.len() != "max_god_level"@.len());
}

/// Reading the field `seconds_since_epoch` with the decimal rendering of a
/// `u64` stores that number and leaves every other field as it was.
pub proof fn lemma_reads_seconds_since_epoch(v: LoginFieldsView, n: u64)
    ensures
        apply_field(v, "seconds_since_epoch"@, dec(n as nat)) == Ok::<(LoginFieldsView, FieldUse), Seq<char>>(
            (LoginFieldsView { seconds_since_epoch: Some(n), ..v }, FieldUse::Applied),
        ),
{
    lemma_parse_unsigned_dec(n as nat, u64::MAX as nat);
        reveal_strlit("seconds_since_epoch");
        reveal_strlit("login");
        assert("seconds_since_epoch"@.len() != "login"@.len());
        reveal_strlit("agent_id");
        assert("seconds_since_epoch"@.len() != "agent_id"@.len());
        reveal_strlit("session_id");
        assert("seconds_since_epoch"@.len() != "session_id"@.len());
        reveal_strlit("secure_session_id");
        assert("seconds_since_epoch"@.len() != "secure_session_id"@.len());
        reveal_strlit("first_name");
        assert("seconds_since_epoch"@.len() != "first_name"@.len());
        reveal_strlit("last_name");
        assert("seconds_since_epoch"@.len() != "last_name"@.len());
        reveal_strlit("circuit_code");
        assert("seconds_since_epoch"@.len() != "circuit_code"@.len());
        reveal_strlit("sim_ip");
        assert("seconds_since_epoch"@.len() != "sim_ip"@.len());
        reveal_strlit("sim_port");
        assert("seconds_since_epoch"@.len() != "sim_port"@.len());
        reveal_strlit("reason");
        assert("seconds_since_epoch"@.len() != "reason"@.len());
        reveal_strlit("message");
        assert("seconds_since_epoch"@.len() != "message"@.len());
        reveal_strlit("seed_capability");
        assert("seconds_since_epoch"@.len() != "seed_capability"@.len());
        reveal_strlit("agent_access");
        assert("seconds_since_epoch"@.len() != "agent_access"@.len());
        reveal_strlit("agent_access_max");
        assert("seconds_since_epoch"@.len() != "agent_access_max"@.len());
        reveal_strlit("agent_region_access");
        assert("seconds_since_epoch"@[0] != "agent_region_access"@[0]);
        reveal_strlit("agent_appearance_service");
        assert("seconds_since_epoch"@.len() != "agent_appearance_service"@.len());
        reveal_strlit("openid_url");
        assert("seconds_since_epoch"@.len() != "openid_url"@.len());
        reveal_strlit("openid_token");
        assert("seconds_since_epoch"@.len() != "openid_token"@.len());
        reveal_strlit("account_type");
        assert("seconds_since_epoch"@.len() != "account_type"@.len());
        reveal_strlit("linden_status_code");
        assert("seconds_since_epoch"@.len() != "linden_status_code"@.len());
        reveal_strlit("map_server_url");
        assert("seconds_since_epoch"@.len() != "map_server_url"@.len());
        reveal_strlit("agent_flags");
        assert("seconds_since_epoch"@.len() != "agent_flags"@.len());
        reveal_strlit("max_agent_groups");
        assert("seconds_since_epoch"@.len() != "max_agent_groups"@.len());
        reveal_strlit("cof_version");
        assert("seconds_since_epoch"@.len() != "cof_version"@.len());
        reveal_strlit("max_god_level");
        assert("seconds_since_epoch"@.len() != "max_god_level"@.len());
        reveal_strlit("god_level");
        assert("seconds_since_epoch"@.len() != "god_level"@.len());
}

/// Reading the field `login` sets success for `true` and `1`, clears it
/// for `false` and `0`, and refuses any other text, leaving the fields as
/// they were.
pub proof fn lemma_reads_login(v: LoginFieldsView, value: Seq<char>)
    ensures
        (value == "true"@ || value == "1"@) ==> apply_field(v, "login"@, value) == Ok::<
            (LoginFieldsView, FieldUse),
            Seq<char>,
        >((LoginFieldsView { success: true, ..v }, FieldUse::Applied)),
        (value == "false"@ || value == "0"@) ==> apply_field(v, "login"@, value) == Ok::<
            (LoginFieldsView, FieldUse),
            Seq<char>,
        >((LoginFieldsView { success: false, ..v }, FieldUse::Applied)),
        !(value == "true"@ || value == "1"@ || value == "false"@ || value == "0"@) ==> apply_field(
            v,
            "login"@,
            value,
        ) is Err,
{
    reveal_strlit("true");
    reveal_strlit("1");
    reveal_strlit("false");
    reveal_strlit("0");
    assert("false"@.len() != "true"@.len());
    assert("false"@.len() != "1"@.len());
    assert("0"@[0] != "1"@[0]);
    assert("0"@.len() != "true"@.len());
}

/// Reading the field `first_name` keeps a name without quotes as it is and
/// drops the quotes around a quoted one; nothing else changes.
pub proof fn lemma_reads_first_name(v: LoginFieldsView, w: Seq<char>)
    requires
        w.len() > 0,
        w[0] != '"',
        w.last() != '"',
    ensures
        apply_field(v, "first_name"@, w) == Ok::<(LoginFieldsView, FieldUse), Seq<char>>(
            (LoginFieldsView { first_name: w, ..v }, FieldUse::Applied),
        ),
        apply_field(v, "first_name"@, seq!['"'] + w + seq!['"']) == Ok::<(LoginFieldsView, FieldUse), Seq<char>>(
            (LoginFieldsView { first_name: w, ..v }, FieldUse::Applied),
        ),
{
        reveal_strlit("first_name");
        reveal_strlit("login");
        assert("first_name"@.len() != "login"@.len());
        reveal_strlit("agent_id");
        assert("first_name"@.len() != "agent_id"@.len());
        reveal_strlit("session_id");
        assert("first_name"@[0] != "session_id"@[0]);
        reveal_strlit("secure_session_id");
        assert("first_name"@.len() != "secure_session_id"@.len());
    lemma_prefix_len_is(w, eq_pred('"'), 0);
    assert(trim_start_by(w, eq_pred('"')) =~= w);
    lemma_suffix_len_is(w, eq_pred('"'), 0);
    assert(trim_end_by(w, eq_pred('"')) =~= w);
    let q = seq!['"'] + w + seq!['"'];
    assert forall|k: int| 0 <= k < 1 implies #[trigger] eq_pred('"')(q[k]) by {}
    assert(q[1] == w[0]);
    lemma_prefix_len_is(q, eq_pred('"'), 1);
    let t = q.skip(1);
    assert(t =~= w + seq!['"']);
    assert forall|k: int| t.len() - 1 <= k < t.len() implies #[trigger] eq_pred('"')(t[k]) by {}
    assert(t[t.len() - 2] == w.last());
    lemma_suffix_len_is(t, eq_pred('"'), 1);
    assert(trim_end_by(t, eq_pred('"')) =~= w);
}

/// The decimal rendering of an integer, with a minus sign when negative.
pub open spec fn signed_dec(x: int) -> Seq<char> {
    if x < 0 {
        seq!['-'] + dec((-x) as nat)
    } else {
        dec(x as nat)
    }
}

/// Parsing the decimal rendering of an `i32` gives the number back.
pub proof fn lemma_parse_i32_signed_dec(x: i32)
    ensures
        parse_i32_spec(signed_dec(x as int)) == Some(x as int),
{
    if x < 0 {
        let m = (-(x as int)) as nat;
        lemma_dec_digits(m);
        let s = signed_dec(x as int);
        assert(s[0] == '-');
        assert(s.drop_first() =~= dec(m));
    } else {
        lemma_dec_digits(x as nat);
        let s = dec(x as nat);
        assert(s[0] != '-' && s[0] != '+');
    }
}

/// Appending text without commas extends the last piece.
proof fn lemma_split_commas_append(p: Seq<char>, w: Seq<char>)
    requires
        forall|j: int| 0 <= j < w.len() ==> w[j] != ',',
    ensures
        split_commas(p + w) == split_commas(p).update(
            split_commas(p).len() - 1,
            split_commas(p).last() + w,
        ),
        split_commas(p + w).len() == split_commas(p).len(),
    decreases w.len(),
{
    lemma_split_commas_nonempty(p);
    if w.len() == 0 {
        assert(p + w =~= p);
        assert(split_commas(p).last() + w =~= split_commas(p).last());
        assert(split_commas(p).update(split_commas(p).len() - 1, split_commas(p).last())
            =~= split_commas(p));
    } else {
        let w0 = w.drop_last();
        lemma_split_commas_append(p, w0);
        let s = p + w;
        assert(s.drop_last() =~= p + w0);
        assert(s.last() == w.last());
        let rest = split_commas(p + w0);
        assert(rest.last() == split_commas(p).last() + w0);
        assert(rest.last().push(w.last()) =~= split_commas(p).last() + w);
        assert(split_commas(s) == rest.update(rest.len() - 1, rest.last().push(s.last())));
        assert(split_commas(s) =~= split_commas(p).update(
            split_commas(p).len() - 1,
            split_commas(p).last() + w,
        ));
    }
}

/// Names without commas, joined with commas, split back into the names.
pub proof fn lemma_split_commas_join(ws: Seq<Seq<char>>)
    requires
        ws.len() > 0,
        forall|i: int, j: int| 0 <= i < ws.len() && 0 <= j < ws[i].len() ==> ws[i][j] != ',',
    ensures
        split_commas(join(ws, seq![','])) == ws,
    decreases ws.len(),
{
    if ws.len() == 1 {
        lemma_split_commas_append(Seq::empty(), ws[0]);
        assert(Seq::<char>::empty() + ws[0] =~= ws[0]);
        assert(split_commas(Seq::<char>::empty()) =~= seq![Seq::<char>::empty()]);
        assert(Seq::<char>::empty() + ws[0] =~= ws[0]);
        assert(split_commas(ws[0]) =~= ws);
    } else {
        let d = ws.drop_last();
        assert forall|i: int, j: int| 0 <= i < d.len() && 0 <= j < d[i].len() implies d[i][j] != ',' by {
            assert(d[i] == ws[i]);
        }
        lemma_split_commas_join(d);
        let p = join(d, seq![',']) + seq![','];
        assert(p.drop_last() =~= join(d, seq![',']));
        assert(p.last() == ',');
        assert(split_commas(p) == d.push(Seq::<char>::empty()));
        assert forall|j: int| 0 <= j < ws.last().len() implies ws.last()[j] != ',' by {
            assert(ws.last() == ws[ws.len() - 1]);
        }
        lemma_split_commas_append(p, ws.last());
        assert(join(ws, seq![',']) == join(d, seq![',']) + seq![','] + ws.last());
        assert(Seq::<char>::empty() + ws.last() =~= ws.last());
        assert(split_commas(p + ws.last()) =~= ws);
    }
}

/// Reading the field `agent_id` stores the 16 bytes that its text names as a
/// UUID, and refuses a text that names none; nothing else changes.
pub proof fn lemma_reads_agent_id(v: LoginFieldsView, value: Seq<char>)
    ensures
        uuid_parse(value) matches Some(b) ==> apply_field(v, "agent_id"@, value) == Ok::<
            (LoginFieldsView, FieldUse),
            Seq<char>,
        >((LoginFieldsView { agent_id: b, ..v }, FieldUse::Applied)),
        uuid_parse(value) is None ==> apply_field(v, "agent_id"@, value) is Err,
{
    reveal_strlit("agent_id");
    reveal_strlit("login");
    assert("agent_id"@.len() != "login"@.len());
}

/// Reading the field `session_id` stores the 16 bytes that its text names as a
/// UUID, and refuses a text that names none; nothing else changes.
pub proof fn lemma_reads_session_id(v: LoginFieldsView, value: Seq<char>)
    ensures
        uuid_parse(value) matches Some(b) ==> apply_field(v, "session_id"@, value) == Ok::<
            (LoginFieldsView, FieldUse),
            Seq<char>,
        >((LoginFieldsView { session_id: b, ..v }, FieldUse::Applied)),
        uuid_parse(value) is None ==> apply_field(v, "session_id"@, value) is Err,
{
    reveal_strlit("session_id");
    reveal_strlit("login");
    assert("session_id"@.len() != "login"@.len());
    reveal_strlit("agent_id");
    assert("session_id"@.len() != "agent_id"@.len());
}

/// Reading the field `secure_session_id` stores the 16 bytes that its text names as a
/// UUID, and refuses a text that names none; nothing else changes.
pub proof fn lemma_reads_secure_session_id(v: LoginFieldsView, value: Seq<char>)
    ensures
        uuid_parse(value) matches Some(b) ==> apply_field(v, "secure_session_id"@, value) == Ok::<
            (LoginFieldsView, FieldUse),
            Seq<char>,
        >((LoginFieldsView { secure_session_id: b, ..v }, FieldUse::Applied)),
        uuid_parse(value) is None ==> apply_field(v, "secure_session_id"@, value) is Err,
{
    reveal_strlit("secure_session_id");
    reveal_strlit("login");
    assert("secure_session_id"@.len() != "login"@.len());
    reveal_strlit("agent_id");
    assert("secure_session_id"@.len() != "agent_id"@.len());
    reveal_strlit("session_id");
    assert("secure_session_id"@.len() != "session_id"@.len());
}

/// Reading the field `region_x` with the decimal rendering of an `i32`, with a
/// minus sign for a negative one, stores that number; nothing else changes.
pub proof fn lemma_reads_region_x(v: LoginFieldsView, x: i32)
    ensures
        apply_field(v, "region_x"@, signed_dec(x as int)) == Ok::<(LoginFieldsView, FieldUse), Seq<char>>(
            (LoginFieldsView { region_x: Some(x), ..v }, FieldUse::Applied),
        ),
{
    lemma_parse_i32_signed_dec(x);
    reveal_strlit("region_x");
    reveal_strlit("login");
    assert("region_x"@.len() != "login"@.len());
    reveal_strlit("agent_id");
    assert("region_x"@[0] != "agent_id"@[0]);
    reveal_strlit("session_id");
    assert("region_x"@.len() != "session_id"@.len());
    reveal_strlit("secure_session_id");
    assert("region_x"@.len() != "secure_session_id"@.len());
    reveal_strlit("first_name");
    assert("region_x"@.len() != "first_name"@.len());
    reveal_strlit("last_name");
    assert("region_x"@.len() != "last_name"@.len());
    reveal_strlit("circuit_code");
    assert("region_x"@.len() != "circuit_code"@.len());
    reveal_strlit("sim_ip");
    assert("region_x"@.len() != "sim_ip"@.len());
    reveal_strlit("sim_port");
    assert("region_x"@[0] != "sim_port"@[0]);
    reveal_strlit("reason");
    assert("region_x"@.len() != "reason"@.len());
    reveal_strlit("message");
    assert("region_x"@.len() != "message"@.len());
    reveal_strlit("seed_capability");
    assert("region_x"@.len() != "seed_capability"@.len());
    reveal_strlit("agent_access");
    assert("region_x"@.len() != "agent_access"@.len());
    reveal_strlit("agent_access_max");
    assert("region_x"@.len() != "agent_access_max"@.len());
    reveal_strlit("agent_region_access");
    assert("region_x"@.len() != "agent_region_access"@.len());
    reveal_strlit("agent_appearance_service");
    assert("region_x"@.len() != "agent_appearance_service"@.len());
    reveal_strlit("openid_url");
    assert("region_x"@.len() != "openid_url"@.len());
    reveal_strlit("openid_token");
    assert("region_x"@.len() != "openid_token"@.len());
    reveal_strlit("account_type");
    assert("region_x"@.len() != "account_type"@.len());
    reveal_strlit("linden_status_code");
    assert("region_x"@.len() != "linden_status_code"@.len());
    reveal_strlit("map_server_url");
    assert("region_x"@.len() != "map_server_url"@.len());
    reveal_strlit("agent_flags");
    assert("region_x"@.len() != "agent_flags"@.len());
    reveal_strlit("max_agent_groups");
    assert("region_x"@.len() != "max_agent_groups"@.len());
    reveal_strlit("cof_version");
    assert("region_x"@.len() != "cof_version"@.len());
    reveal_strlit("max_god_level");
    assert("region_x"@.len() != "max_god_level"@.len());
    reveal_strlit("god_level");
    assert("region_x"@.len() != "god_level"@.len());
    reveal_strlit("seconds_since_epoch");
    assert("region_x"@.len() != "seconds_since_epoch"@.len());
}

/// Reading the field `region_y` with the decimal rendering of an `i32`, with a
/// minus sign for a negative one, stores that number; nothing else changes.
pub proof fn lemma_reads_region_y(v: LoginFieldsView, x: i32)
    ensures
        apply_field(v, "region_y"@, signed_dec(x as int)) == Ok::<(LoginFieldsView, FieldUse), Seq<char>>(
            (LoginFieldsView { region_y: Some(x), ..v }, FieldUse::Applied),
        ),
{
    lemma_parse_i32_signed_dec(x);
    reveal_strlit("region_y");
    reveal_strlit("login");
    assert("region_y"@.len() != "login"@.len());
    reveal_strlit("agent_id");
    assert("region_y"@[0] != "agent_id"@[0]);
    reveal_strlit("session_id");
    assert("region_y"@.len() != "session_id"@.len());
    reveal_strlit("secure_session_id");
    assert("region_y"@.len() != "secure_session_id"@.len());
    reveal_strlit("first_name");
    assert("region_y"@.len() != "first_name"@.len());
    reveal_strlit("last_name");
    assert("region_y"@.len() != "last_name"@.len());
    reveal_strlit("circuit_code");
    assert("region_y"@.len() != "circuit_code"@.len());
    reveal_strlit("sim_ip");
    assert("region_y"@.len() != "sim_ip"@.len());
    reveal_strlit("sim_port");
    assert("region_y"@[0] != "sim_port"@[0]);
    reveal_strlit("reason");
    assert("region_y"@.len() != "reason"@.len());
    reveal_strlit("message");
    assert("region_y"@.len() != "message"@.len());
    reveal_strlit("seed_capability");
    assert("region_y"@.len() != "seed_capability"@.len());
    reveal_strlit("agent_access");
    assert("region_y"@.len() != "agent_access"@.len());
    reveal_strlit("agent_access_max");
    assert("region_y"@.len() != "agent_access_max"@.len());
    reveal_strlit("agent_region_access");
    assert("region_y"@.len() != "agent_region_access"@.len());
    reveal_strlit("agent_appearance_service");
    assert("region_y"@.len() != "agent_appearance_service"@.len());
    reveal_strlit("openid_url");
    assert("region_y"@.len() != "openid_url"@.len());
    reveal_strlit("openid_token");
    assert("region_y"@.len() != "openid_token"@.len());
    reveal_strlit("account_type");
    assert("region_y"@.len() != "account_type"@.len());
    reveal_strlit("linden_status_code");
    assert("region_y"@.len() != "linden_status_code"@.len());
    reveal_strlit("map_server_url");
    assert("region_y"@.len() != "map_server_url"@.len());
    reveal_strlit("agent_flags");
    assert("region_y"@.len() != "agent_flags"@.len());
    reveal_strlit("max_agent_groups");
    assert("region_y"@.len() != "max_agent_groups"@.len());
    reveal_strlit("cof_version");
    assert("region_y"@.len() != "cof_version"@.len());
    reveal_strlit("max_god_level");
    assert("region_y"@.len() != "max_god_level"@.len());
    reveal_strlit("god_level");
    assert("region_y"@.len() != "god_level"@.len());
    reveal_strlit("seconds_since_epoch");
    assert("region_y"@.len() != "seconds_since_epoch"@.len());
    reveal_strlit("region_x");
    assert("region_y"@[7] != "region_x"@[7]);
}

/// Reading the field `udp_blacklist` with names that hold no comma, joined
/// with commas, stores those names; nothing else changes.
pub proof fn lemma_reads_udp_blacklist(v: LoginFieldsView, hosts: Seq<Seq<char>>)
    requires
        hosts.len() > 0,
        forall|i: int, j: int| 0 <= i < hosts.len() && 0 <= j < hosts[i].len() ==> hosts[i][j] != ',',
    ensures
        apply_field(v, "udp_blacklist"@, join(hosts, seq![','])) == Ok::<(LoginFieldsView, FieldUse), Seq<char>>(
            (LoginFieldsView { udp_blacklist: Some(hosts), ..v }, FieldUse::Applied),
        ),
{
    lemma_split_commas_join(hosts);
    reveal_strlit("udp_blacklist");
    reveal_strlit("login");
    assert("udp_blacklist"@.len() != "login"@.len());
    reveal_strlit("agent_id");
    assert("udp_blacklist"@.len() != "agent_id"@.len());
    reveal_strlit("session_id");
    assert("udp_blacklist"@.len() != "session_id"@.len());
    reveal_strlit("secure_session_id");
    assert("udp_blacklist"@.len() != "secure_session_id"@.len());
    reveal_strlit("first_name");
    assert("udp_blacklist"@.len() != "first_name"@.len());
    reveal_strlit("last_name");
    assert("udp_blacklist"@.len() != "last_name"@.len());
    reveal_strlit("circuit_code");
    assert("udp_blacklist"@.len() != "circuit_code"@.len());
    reveal_strlit("sim_ip");
    assert("udp_blacklist"@.len() != "sim_ip"@.len());
    reveal_strlit("sim_port");
    assert("udp_blacklist"@.len() != "sim_port"@.len());
    reveal_strlit("reason");
    assert("udp_blacklist"@.len() != "reason"@.len());
    reveal_strlit("message");
    assert("udp_blacklist"@.len() != "message"@.len());
    reveal_strlit("seed_capability");
    assert("udp_blacklist"@.len() != "seed_capability"@.len());
    reveal_strlit("agent_access");
    assert("udp_blacklist"@.len() != "agent_access"@.len());
    reveal_strlit("agent_access_max");
    assert("udp_blacklist"@.len() != "agent_access_max"@.len());
    reveal_strlit("agent_region_access");
    assert("udp_blacklist"@.len() != "agent_region_access"@.len());
    reveal_strlit("agent_appearance_service");
    assert("udp_blacklist"@.len() != "agent_appearance_service"@.len());
    reveal_strlit("openid_url");
    assert("udp_blacklist"@.len() != "openid_url"@.len());
    reveal_strlit("openid_token");
    assert("udp_blacklist"@.len() != "openid_token"@.len());
    reveal_strlit("account_type");
    assert("udp_blacklist"@.len() != "account_type"@.len());
    reveal_strlit("linden_status_code");
    assert("udp_blacklist"@.len() != "linden_status_code"@.len());
    reveal_strlit("map_server_url");
    assert("udp_blacklist"@.len() != "map_server_url"@.len());
    reveal_strlit("agent_flags");
    assert("udp_blacklist"@.len() != "agent_flags"@.len());
    reveal_strlit("max_agent_groups");
    assert("udp_blacklist"@.len() != "max_agent_groups"@.len());
    reveal_strlit("cof_version");
    assert("udp_blacklist"@.len() != "cof_version"@.len());
    reveal_strlit("max_god_level");
    assert("udp_blacklist"@[0] != "max_god_level"@[0]);
    reveal_strlit("god_level");
    assert("udp_blacklist"@.len() != "god_level"@.len());
    reveal_strlit("seconds_since_epoch");
    assert("udp_blacklist"@.len() != "seconds_since_epoch"@.len());
    reveal_strlit("region_x");
    assert("udp_blacklist"@.len() != "region_x"@.len());
    reveal_strlit("region_y");
    assert("udp_blacklist"@.len() != "region_y"@.len());
}

} // verus!
