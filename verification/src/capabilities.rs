//! Capabilities: named HTTP endpoints that a simulator hands out, the
//! errors of requests to them, and how a response is judged.

use vstd::prelude::*;
use std::collections::HashMap;
use std::time::SystemTime;
use crate::error::{NetworkError, NetworkErrorView};
use crate::text::{dec, push_dec, push_str, string_of};
use crate::uuid_text::uuid_hyphenated;

verus! {

#[verifier::external_type_specification]
#[verifier::external_body]
pub struct ExSystemTime(std::time::SystemTime);

/// A capability: its name, its URL, when it expires and what else is known.
#[derive(Debug)]
pub struct Capability {
    pub url: String,
    pub name: String,
    pub expires: Option<SystemTime>,
    pub metadata: HashMap<String, String>,
}

impl Capability {
    /// A capability granted without expiry or metadata.
    pub fn granted(name: String, url: String) -> (c: Self)
        ensures
            c.name == name,
            c.url == url,
            c.expires.is_none(),
            c.metadata@ == Map::<String, String>::empty(),
    {
        Capability { url, name, expires: None, metadata: HashMap::new() }
    }
}

/// HTTP methods of capability requests.
#[derive(Debug, Clone, Copy, PartialEq, Eq)]
pub enum CapabilityMethod {
    Get,
    Post,
    Put,
    Delete,
}

/// The name of a method.
pub open spec fn method_name(m: CapabilityMethod) -> Seq<char> {
    match m {
        CapabilityMethod::Get => "GET"@,
        CapabilityMethod::Post => "POST"@,
        CapabilityMethod::Put => "PUT"@,
        CapabilityMethod::Delete => "DELETE"@,
    }
}

impl CapabilityMethod {
    /// The method's name.
    pub fn as_str(&self) -> (s: &'static str)
        ensures
            s@ == method_name(*self),
    {
        match self {
            CapabilityMethod::Get => "GET",
            CapabilityMethod::Post => "POST",
            CapabilityMethod::Put => "PUT",
            CapabilityMethod::Delete => "DELETE",
        }
    }

    /// Whether requests with this method carry a JSON body.
    pub fn sends_body(&self) -> (b: bool)
        ensures
            b <==> (*self == CapabilityMethod::Post || *self == CapabilityMethod::Put),
    {
        match self {
            CapabilityMethod::Post | CapabilityMethod::Put => true,
            _ => false,
        }
    }
}

/// What went wrong with a capability request.
#[derive(Debug, Clone)]
pub enum CapabilityError {
    CapabilityNotFound(String),
    HttpError(String),
    HttpStatusError(u16, String),
    ParseError(String),
}

/// Mathematical model of a [`CapabilityError`].
pub enum CapabilityErrorView {
    CapabilityNotFound(Seq<char>),
    HttpError(Seq<char>),
    HttpStatusError(u16, Seq<char>),
    ParseError(Seq<char>),
}

impl View for CapabilityError {
    type V = CapabilityErrorView;

    open spec fn view(&self) -> CapabilityErrorView {
        match self {
            CapabilityError::CapabilityNotFound(s) => CapabilityErrorView::CapabilityNotFound(s@),
            CapabilityError::HttpError(s) => CapabilityErrorView::HttpError(s@),
            CapabilityError::HttpStatusError(c, s) => CapabilityErrorView::HttpStatusError(*c, s@),
            CapabilityError::ParseError(s) => CapabilityErrorView::ParseError(s@),
        }
    }
}

/// The text of an error, as its `Display` writes it.
pub open spec fn capability_error_text(e: CapabilityErrorView) -> Seq<char> {
    match e {
        CapabilityErrorView::CapabilityNotFound(s) => "Capability not found: "@ + s,
        CapabilityErrorView::HttpError(s) => "HTTP error: "@ + s,
        CapabilityErrorView::HttpStatusError(c, s) => "HTTP status error: "@ + dec(c as nat) + " - "@
            + s,
        CapabilityErrorView::ParseError(s) => "Parse error: "@ + s,
    }
}

impl CapabilityError {
    /// The error's text.
    pub fn message(&self) -> (s: String)
        ensures
            s@ == capability_error_text(self@),
    {
        let mut v: Vec<char> = Vec::new();
        match self {
            CapabilityError::CapabilityNotFound(s) => {
                push_str(&mut v, "Capability not found: ");
                push_str(&mut v, s.as_str());
            },
            CapabilityError::HttpError(s) => {
                push_str(&mut v, "HTTP error: ");
                push_str(&mut v, s.as_str());
            },
            CapabilityError::HttpStatusError(c, s) => {
                push_str(&mut v, "HTTP status error: ");
                push_dec(&mut v, *c as u64);
                push_str(&mut v, " - ");
                push_str(&mut v, s.as_str());
            },
            CapabilityError::ParseError(s) => {
                push_str(&mut v, "Parse error: ");
                push_str(&mut v, s.as_str());
            },
        }
        string_of(&v)
    }
}

impl CapabilityError {
    /// The networking error that reports this error (`Other`, with its text).
    pub fn into_network_error(self) -> (e: NetworkError)
        ensures
            e@ == (NetworkErrorView::Other { reason: capability_error_text(self@) }),
    {
        NetworkError::Other { reason: self.message() }
    }
}

/// What `serde_json::from_str::<serde_json::Value>` says of `text`: `None`
/// where the text is one JSON value, else the message that the error's
/// `Display` writes. It depends on the text alone.
pub uninterp spec fn json_parse_error(text: Seq<char>) -> Option<Seq<char>>;

/// `serde_json::from_str::<serde_json::Value>`, keeping only whether it
/// parsed and, where not, the error's message. Trusted: the result is
/// named by `json_parse_error`.
#[verifier::external_body]
fn json_check(text: &str) -> (r: Option<String>)
    ensures
        match r {
            None => json_parse_error(text@) is None,
            Some(m) => json_parse_error(text@) == Some(m@),
        },
{
    serde_json::from_str::<serde_json::Value>(text).err().map(|e| e.to_string())
}

/// How a response to a capability request is judged: a 2xx status with an
/// empty body stands for JSON null (`None`); a 2xx status with a body that
/// is JSON gives the body; a body that is not JSON is a parse error; any
/// other status is an error that carries the status and body.
pub fn judge_capability_response(status: u16, body: String) -> (r: Result<Option<String>, CapabilityError>)
    ensures
        200 <= status < 300 && body@.len() == 0 ==> r == Ok::<Option<String>, CapabilityError>(None),
        200 <= status < 300 && body@.len() > 0 ==> match json_parse_error(body@) {
            None => r == Ok::<Option<String>, CapabilityError>(Some(body)),
            Some(m) => r matches Err(e) && e@ == CapabilityErrorView::ParseError(m),
        },
        !(200 <= status < 300) ==> (r matches Err(e) && e@ == CapabilityErrorView::HttpStatusError(status, body@)),
{
    if status >= 200 && status < 300 {
        if body.as_str().unicode_len() == 0 {
            Ok(None)
        } else {
            match json_check(body.as_str()) {
                None => Ok(Some(body)),
                Some(m) => Err(CapabilityError::ParseError(m)),
            }
        }
    } else {
        Err(CapabilityError::HttpStatusError(status, body))
    }
}

/// The error for a capability the simulator did not grant.
pub fn capability_not_found(name: &str) -> (e: CapabilityError)
    ensures
        e@ == CapabilityErrorView::CapabilityNotFound(name@),
{
    CapabilityError::CapabilityNotFound(String::from_str(name))
}

/// The URL of a texture: the capability's URL, a slash and the texture's
/// hyphenated identifier.
pub fn texture_url(capability_url: &str, texture_id: &[u8; 16]) -> (u: String)
    ensures
        u@ == capability_url@ + "/"@ + uuid_hyphenated(texture_id@),
{
    let mut bytes: Vec<u8> = Vec::new();
    crate::uuid_text::push_uuid(&mut bytes, texture_id);
    let id = crate::uuid_text::uuid_string_at(bytes.as_slice(), 0);
    assert(bytes@.subrange(0, 16) =~= texture_id@);
    let mut u = String::from_str(capability_url);
    u.append("/");
    u.append(id.as_str());
    u
}

/// Terms of a sale in inventory data.
#[derive(Debug, Clone, Copy, PartialEq, Eq)]
pub struct SaleInfo {
    pub sale_type: i32,
    pub sale_price: i32,
}

} // verus!
