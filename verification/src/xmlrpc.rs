//! The parameters of an XML-RPC `login_to_simulator` call and the request
//! document that carries them.

use vstd::prelude::*;
use crate::text::{chars_of, copy_range, string_of};
use crate::uuid_text::{hex_of, push_hex};

verus! {

/// The MD5 digest of `data`, as `md5::compute` gives it.
pub uninterp spec fn md5_digest(data: Seq<u8>) -> Seq<u8>;

/// `md5::compute(data)`, giving the digest's 16 bytes. Trusted: the result
/// is named by `md5_digest`, and it has 16 bytes.
#[verifier::external_body]
fn md5_compute(data: &[u8]) -> (d: [u8; 16])
    ensures
        d@ == md5_digest(data@),
{
    md5::compute(data).0
}

/// The first 16 characters of a password (all of them when it is shorter):
/// Second Life only uses those.
pub open spec fn password_prefix(p: Seq<char>) -> Seq<char> {
    if p.len() <= 16 {
        p
    } else {
        p.take(16)
    }
}

/// `$1$` and the lower-case hexadecimal MD5 digest of the UTF-8 bytes of
/// the password's first 16 characters.
pub open spec fn password_hash_spec(password: Seq<char>) -> Seq<char> {
    "$1$"@ + hex_of(md5_digest(vstd::utf8::encode_utf8(password_prefix(password))))
}

/// The machine identifier sent at login: the hexadecimal MD5 digest of the
/// text `slv-rust-machine-id`.
pub open spec fn machine_id_spec() -> Seq<char> {
    hex_of(md5_digest(vstd::utf8::encode_utf8("slv-rust-machine-id"@)))
}

/// The platform code for an operating system name (`std::env::consts::OS`).
pub open spec fn platform_code_spec(os: Seq<char>) -> Seq<char> {
    if os == "windows"@ {
        "win"@
    } else if os == "macos"@ {
        "mac"@
    } else if os == "linux"@ {
        "lnx"@
    } else {
        "unk"@
    }
}

/// The parameters of a login request.
#[derive(Debug, Clone)]
pub struct LoginParameters {
    pub first_name: String,
    pub last_name: String,
    pub password_hash: String,
    pub start_location: String,
    pub channel: String,
    pub version: String,
    pub platform: String,
    pub mac_address: String,
    pub machine_id: String,
    pub agree_to_tos: bool,
    pub read_critical: bool,
    pub viewer_digest: String,
    pub options: Vec<String>,
    pub mfa_token: Option<String>,
    pub mfa_hash: Option<String>,
}

/// The lower-case hexadecimal form of a digest.
pub fn digest_hex(digest: &[u8]) -> (s: String)
    ensures
        s@ == hex_of(digest@),
{
    let mut v: Vec<char> = Vec::new();
    push_hex(&mut v, digest);
    string_of(&v)
}

/// The password hash for a digest: `$1$` and its hexadecimal form.
pub fn password_hash_from_digest(digest: &[u8]) -> (s: String)
    ensures
        s@ == "$1$"@ + hex_of(digest@),
{
    let mut s = String::from_str("$1$");
    let h = digest_hex(digest);
    s.append(h.as_str());
    s
}

impl LoginParameters {
    /// The parameters for a login as `first last` with `password`, on the
    /// operating system `os` (`std::env::consts::OS`), with the
    /// multi-factor token and hash if any (`SL_MFA_TOKEN`, `SL_MFA_HASH`).
    pub fn new(
        first: &str,
        last: &str,
        password: &str,
        os: &str,
        mfa_token: Option<String>,
        mfa_hash: Option<String>,
    ) -> (p: Self)
        ensures
            p.first_name@ == first@,
            p.last_name@ == last@,
            p.password_hash@ == password_hash_spec(password@),
            p.start_location@ == "last"@,
            p.channel@ == "slv-rust"@,
            p.version@ == "0.3.0"@,
            p.platform@ == platform_code_spec(os@),
            p.mac_address@ == "00:00:00:00:00:00"@,
            p.machine_id@ == machine_id_spec(),
            p.agree_to_tos,
            p.read_critical,
            p.viewer_digest@ == "00000000-0000-0000-0000-000000000000"@,
            p.options@.len() == 4,
            p.options@[0]@ == "inventory-root"@,
            p.options@[1]@ == "inventory-skeleton"@,
            p.options@[2]@ == "buddy-list"@,
            p.options@[3]@ == "login-flags"@,
            p.mfa_token == mfa_token,
            p.mfa_hash == mfa_hash,
    {
        let mut options: Vec<String> = Vec::new();
        options.push(String::from_str("inventory-root"));
        options.push(String::from_str("inventory-skeleton"));
        options.push(String::from_str("buddy-list"));
        options.push(String::from_str("login-flags"));
        LoginParameters {
            first_name: String::from_str(first),
            last_name: String::from_str(last),
            password_hash: Self::hash_password(password),
            start_location: String::from_str("last"),
            channel: String::from_str("slv-rust"),
            version: String::from_str("0.3.0"),
            platform: String::from_str(Self::get_platform(os)),
            mac_address: Self::get_mac_address(),
            machine_id: Self::get_machine_id(),
            agree_to_tos: true,
            read_critical: true,
            viewer_digest: String::from_str("00000000-0000-0000-0000-000000000000"),
            options,
            mfa_token,
            mfa_hash,
        }
    }

    /// The password hash the login server expects.
    pub fn hash_password(password: &str) -> (h: String)
        ensures
            h@ == password_hash_spec(password@),
    {
        let chars = chars_of(password);
        let n: usize = if chars.len() <= 16 {
            chars.len()
        } else {
            16
        };
        let prefix = copy_range(&chars, 0, n);
        assert(prefix@ =~= password_prefix(password@));
        let truncated = string_of(&prefix);
        let bytes = truncated.as_str().as_bytes_vec();
        let digest = md5_compute(bytes.as_slice());
        password_hash_from_digest(digest.as_slice())
    }

    /// The platform code for the operating system `os`.
    pub fn get_platform(os: &str) -> (p: &'static str)
        ensures
            p@ == platform_code_spec(os@),
    {
        if crate::text::str_eq(os, "windows") {
            "win"
        } else if crate::text::str_eq(os, "macos") {
            "mac"
        } else if crate::text::str_eq(os, "linux") {
            "lnx"
        } else {
            "unk"
        }
    }

    /// The MAC address sent at login (all zeros).
    pub fn get_mac_address() -> (m: String)
        ensures
            m@ == "00:00:00:00:00:00"@,
    {
        String::from_str("00:00:00:00:00:00")
    }

    /// The machine identifier sent at login.
    pub fn get_machine_id() -> (m: String)
        ensures
            m@ == machine_id_spec(),
    {
        let bytes = "slv-rust-machine-id".as_bytes_vec();
        let digest = md5_compute(bytes.as_slice());
        digest_hex(digest.as_slice())
    }
}

/// One `<member>` of the request's struct.
#[verifier::opaque]
pub open spec fn member_xml(name: Seq<char>, value: Seq<char>) -> Seq<char> {
    "          <member>\n            <name>"@ + name + "</name>\n            <value><string>"@ + value
        + "</string></value>\n          </member>\n"@
}

/// One value of the `options` array.
pub open spec fn option_xml(option: Seq<char>) -> Seq<char> {
    "                  <value><string>"@ + option + "</string></value>\n"@
}

/// The values of the `options` array, in order.
pub open spec fn options_xml(options: Seq<String>) -> Seq<char>
    decreases options.len(),
{
    if options.len() == 0 {
        Seq::empty()
    } else {
        options_xml(options.drop_last()) + option_xml(options.last()@)
    }
}

/// `true` or `false`.
pub open spec fn bool_text(b: bool) -> Seq<char> {
    if b {
        "true"@
    } else {
        "false"@
    }
}

/// The member for an optional value, or nothing.
pub open spec fn optional_member_xml(name: Seq<char>, value: Option<String>) -> Seq<char> {
    match value {
        Some(v) => member_xml(name, v@),
        None => Seq::empty(),
    }
}

/// The text before the struct's members.
pub open spec fn request_head() -> Seq<char> {
    "<?xml version=\"1.0\"?>\n"@ + "<methodCall>\n"@ + "  <methodName>login_to_simulator</methodName>\n"@ + "  <params>\n"@ + "    <param>\n"@ + "      <value>\n"@ + "        <struct>\n"@
}

/// The text that opens the `options` member.
pub open spec fn options_head() -> Seq<char> {
    "          <member>\n"@ + "            <name>options</name>\n"@ + "            <value>\n"@ + "              <array>\n"@ + "                <data>\n"@
}

/// The text that closes the `options` member and the document.
pub open spec fn request_tail() -> Seq<char> {
    "                </data>\n"@ + "              </array>\n"@ + "            </value>\n"@ + "          </member>\n"@ + "        </struct>\n"@ + "      </value>\n"@ + "    </param>\n"@ + "  </params>\n"@ + "</methodCall>\n"@
}

/// The members for the user's identity.
pub open spec fn identity_members(p: LoginParameters) -> Seq<char> {
    member_xml("first"@, p.first_name@) + member_xml("last"@, p.last_name@) + member_xml(
        "passwd"@,
        p.password_hash@,
    ) + member_xml("start"@, p.start_location@)
}

/// The members that describe the viewer and the machine.
pub open spec fn viewer_members(p: LoginParameters) -> Seq<char> {
    member_xml("channel"@, p.channel@) + member_xml("version"@, p.version@) + member_xml(
        "platform"@,
        p.platform@,
    ) + member_xml("mac"@, p.mac_address@) + member_xml("id0"@, p.machine_id@)
}

/// The members for the terms of service and the viewer digest.
pub open spec fn agreement_members(p: LoginParameters) -> Seq<char> {
    member_xml("agree_to_tos"@, bool_text(p.agree_to_tos)) + member_xml(
        "read_critical"@,
        bool_text(p.read_critical),
    ) + member_xml("viewer_digest"@, p.viewer_digest@)
}

/// The members for multi-factor authentication, when present.
pub open spec fn mfa_members(p: LoginParameters) -> Seq<char> {
    optional_member_xml("token"@, p.mfa_token) + optional_member_xml("mfa_hash"@, p.mfa_hash)
}

/// The members that carry the login parameters, in order.
pub open spec fn parameter_members(p: LoginParameters) -> Seq<char> {
    identity_members(p) + viewer_members(p) + agreement_members(p) + mfa_members(p)
}

/// The XML-RPC `login_to_simulator` request for `p`. Values are written as
/// they are, without escaping.
pub open spec fn login_request_spec(p: LoginParameters) -> Seq<char> {
    request_head() + parameter_members(p) + options_head() + options_xml(p.options@)
        + request_tail()
}

fn add_xml_member(xml: &mut String, name: &str, value: &str)
    ensures
        final(xml)@ == old(xml)@ + member_xml(name@, value@),
{
    xml.append("          <member>\n            <name>");
    xml.append(name);
    xml.append("</name>\n            <value><string>");
    xml.append(value);
    xml.append("</string></value>\n          </member>\n");
    reveal(member_xml);
    assert(xml@ =~= old(xml)@ + member_xml(name@, value@));
}

fn bool_str(b: bool) -> (s: &'static str)
    ensures
        s@ == bool_text(b),
{
    if b {
        "true"
    } else {
        "false"
    }
}

fn append_head(xml: &mut String)
    ensures
        final(xml)@ == old(xml)@ + request_head(),
{
    xml.append("<?xml version=\"1.0\"?>\n");
    xml.append("<methodCall>\n");
    xml.append("  <methodName>login_to_simulator</methodName>\n");
    xml.append("  <params>\n");
    xml.append("    <param>\n");
    xml.append("      <value>\n");
    xml.append("        <struct>\n");
    assert(xml@ =~= old(xml)@ + request_head());
}

fn append_identity_members(xml: &mut String, params: &LoginParameters)
    ensures
        final(xml)@ == old(xml)@ + identity_members(*params),
{
    add_xml_member(xml, "first", params.first_name.as_str());
    add_xml_member(xml, "last", params.last_name.as_str());
    add_xml_member(xml, "passwd", params.password_hash.as_str());
    add_xml_member(xml, "start", params.start_location.as_str());
    assert(xml@ =~= old(xml)@ + identity_members(*params));
}

fn append_viewer_members(xml: &mut String, params: &LoginParameters)
    ensures
        final(xml)@ == old(xml)@ + viewer_members(*params),
{
    add_xml_member(xml, "channel", params.channel.as_str());
    add_xml_member(xml, "version", params.version.as_str());
    add_xml_member(xml, "platform", params.platform.as_str());
    add_xml_member(xml, "mac", params.mac_address.as_str());
    add_xml_member(xml, "id0", params.machine_id.as_str());
    assert(xml@ =~= old(xml)@ + viewer_members(*params));
}

fn append_agreement_members(xml: &mut String, params: &LoginParameters)
    ensures
        final(xml)@ == old(xml)@ + agreement_members(*params),
{
    add_xml_member(xml, "agree_to_tos", bool_str(params.agree_to_tos));
    add_xml_member(xml, "read_critical", bool_str(params.read_critical));
    add_xml_member(xml, "viewer_digest", params.viewer_digest.as_str());
    assert(xml@ =~= old(xml)@ + agreement_members(*params));
}

fn append_mfa_members(xml: &mut String, params: &LoginParameters)
    ensures
        final(xml)@ == old(xml)@ + mfa_members(*params),
{
    let ghost start = xml@;
    if let Some(token) = &params.mfa_token {
        add_xml_member(xml, "token", token.as_str());
    }
    assert(xml@ =~= start + optional_member_xml("token"@, params.mfa_token));
    let ghost mid = xml@;
    if let Some(hash) = &params.mfa_hash {
        add_xml_member(xml, "mfa_hash", hash.as_str());
    }
    assert(xml@ =~= mid + optional_member_xml("mfa_hash"@, params.mfa_hash));
    assert(xml@ =~= old(xml)@ + mfa_members(*params));
}

fn append_parameter_members(xml: &mut String, params: &LoginParameters)
    ensures
        final(xml)@ == old(xml)@ + parameter_members(*params),
{
    append_identity_members(xml, params);
    append_viewer_members(xml, params);
    append_agreement_members(xml, params);
    append_mfa_members(xml, params);
    assert(xml@ =~= old(xml)@ + parameter_members(*params));
}

fn append_options(xml: &mut String, options: &Vec<String>)
    ensures
        final(xml)@ == old(xml)@ + options_head() + options_xml(options@),
{
    xml.append("          <member>\n");
    xml.append("            <name>options</name>\n");
    xml.append("            <value>\n");
    xml.append("              <array>\n");
    xml.append("                <data>\n");
    assert(xml@ =~= old(xml)@ + options_head());
    let ghost before = xml@;
    let mut i: usize = 0;
    while i < options.len()
        invariant
            i <= options.len(),
            xml@ == before + options_xml(options@.take(i as int)),
        decreases options.len() - i,
    {
        let option = &options[i];
        xml.append("                  <value><string>");
        xml.append(option.as_str());
        xml.append("</string></value>\n");
        proof {
            let t = options@.take(i + 1);
            assert(t.drop_last() =~= options@.take(i as int));
            assert(t.last() == options@[i as int]);
        }
        i = i + 1;
        assert(xml@ =~= before + options_xml(options@.take(i as int)));
    }
    assert(options@.take(options.len() as int) =~= options@);
}

fn append_tail(xml: &mut String)
    ensures
        final(xml)@ == old(xml)@ + request_tail(),
{
    xml.append("                </data>\n");
    xml.append("              </array>\n");
    xml.append("            </value>\n");
    xml.append("          </member>\n");
    xml.append("        </struct>\n");
    xml.append("      </value>\n");
    xml.append("    </param>\n");
    xml.append("  </params>\n");
    xml.append("</methodCall>\n");
    assert(xml@ =~= old(xml)@ + request_tail());
}

/// Builds the XML-RPC `login_to_simulator` request for the given parameters.
pub fn build_login_request(params: &LoginParameters) -> (r: Result<String, String>)
    ensures
        r matches Ok(xml) && xml@ == login_request_spec(*params),
{
    let mut xml = String::new();
    append_head(&mut xml);
    append_parameter_members(&mut xml, params);
    append_options(&mut xml, &params.options);
    append_tail(&mut xml);
    assert(xml@ =~= login_request_spec(*params));
    Ok(xml)
}

} // verus!
