//! LLSD XML for capabilities: the seed request that names the capabilities
//! the viewer wants, and the two readings of a response map from names to
//! URLs. The XML is tokenized by `quick_xml`; what is done with its events
//! is decided here.

use vstd::prelude::*;
use vstd::string::StringSliceAdditionalSpecFns;
use quick_xml::Reader;
use crate::error::NetworkError;
use crate::text::{chars_of, string_of, trim, trim_range};

verus! {

#[verifier::external_type_specification]
#[verifier::external_body]
#[verifier::reject_recursive_types(R)]
pub struct ExXmlReader<R>(quick_xml::Reader<R>);

/// An event of the XML tokenizer, with what this crate reads of it.
#[derive(Debug)]
pub enum XmlEvent {
    /// An opening tag, by its name's bytes.
    Start(Vec<u8>),
    /// A closing tag, by its name's bytes.
    End(Vec<u8>),
    /// Character data: its unescaped text, or why unescaping failed.
    Text(Result<String, String>),
    /// The end of the document.
    Eof,
    /// A malformed document, with the tokenizer's message.
    Error(String),
    /// Anything else (declarations, comments, empty elements, ...).
    Other,
}

/// Mathematical model of an [`XmlEvent`].
pub enum XmlEventView {
    Start(Seq<u8>),
    End(Seq<u8>),
    Text(Result<Seq<char>, Seq<char>>),
    Eof,
    Error(Seq<char>),
    Other,
}

impl View for XmlEvent {
    type V = XmlEventView;

    open spec fn view(&self) -> XmlEventView {
        match self {
            XmlEvent::Start(n) => XmlEventView::Start(n@),
            XmlEvent::End(n) => XmlEventView::End(n@),
            XmlEvent::Text(Ok(t)) => XmlEventView::Text(Ok(t@)),
            XmlEvent::Text(Err(m)) => XmlEventView::Text(Err(m@)),
            XmlEvent::Eof => XmlEventView::Eof,
            XmlEvent::Error(m) => XmlEventView::Error(m@),
            XmlEvent::Other => XmlEventView::Other,
        }
    }
}

/// `quick_xml::Reader::from_str`: a tokenizer over `text`. Nothing is stated
/// of the value; `xml_tokens` records the text beside it.
#[verifier::external_body]
fn xml_reader_from_str<'a>(text: &'a str) -> (r: Reader<&'a [u8]>) {
    Reader::from_str(text)
}

/// `quick_xml::Reader::trim_text`: whether white space around character
/// data is dropped. Nothing is stated of the effect; `xml_events` names
/// the events of a reader with trimming on.
#[verifier::external_body]
fn xml_trim_text<'a>(reader: &mut Reader<&'a [u8]>, val: bool) {
    reader.trim_text(val);
}

/// The events that `quick_xml`'s `Reader::from_str(text)`, with
/// `trim_text(true)`, gives by `read_event`, each converted as
/// `xml_next_event` converts it, up to and including the first `Eof` or
/// `Error`. They depend on the text alone.
pub uninterp spec fn xml_events(text: Seq<char>) -> Seq<XmlEventView>;

/// An event after which the tokenizer gives nothing more of use.
pub open spec fn is_final_event(e: XmlEventView) -> bool {
    e is Eof || e is Error
}

/// A tokenizer over a text, with white space trimmed, and the number of
/// events it has given. Made only by `xml_tokens`, advanced only by
/// `xml_next_event`.
struct XmlTokens<'a> {
    reader: Reader<&'a [u8]>,
    text: Ghost<Seq<char>>,
    given: Ghost<nat>,
}

impl<'a> XmlTokens<'a> {
    spec fn text(&self) -> Seq<char> {
        self.text@
    }

    spec fn given(&self) -> nat {
        self.given@
    }
}

/// A fresh tokenizer over `text` that trims white space around character
/// data.
fn xml_tokens<'a>(text: &'a str) -> (t: XmlTokens<'a>)
    ensures
        t.text() == text@,
        t.given() == 0,
{
    let mut reader = xml_reader_from_str(text);
    xml_trim_text(&mut reader, true);
    XmlTokens { reader, text: Ghost(text@), given: Ghost(0) }
}

/// `quick_xml::Reader::read_event`: the next event, converted variant by
/// variant (a text event is unescaped with `BytesText::unescape`, an error is
/// kept as its message). Trusted: the tokenizer, made by `xml_tokens` over
/// its text and asked `given` times before, gives event number `given` of
/// `xml_events` of the text while there is one; those events end with their
/// first `Eof` or `Error`. What it gives after that is not stated.
#[verifier::external_body]
fn xml_next_event<'a>(tokens: &mut XmlTokens<'a>) -> (e: XmlEvent)
    ensures
        final(tokens).text() == old(tokens).text(),
        final(tokens).given() == old(tokens).given() + 1,
        old(tokens).given() < xml_events(old(tokens).text()).len() ==> e@ == xml_events(
            old(tokens).text(),
        )[old(tokens).given() as int],
        xml_events(old(tokens).text()).len() > 0,
        is_final_event(xml_events(old(tokens).text()).last()),
        forall|k: int|
            0 <= k < xml_events(old(tokens).text()).len() - 1 ==> !is_final_event(
                #[trigger] xml_events(old(tokens).text())[k],
            ),
{
    match tokens.reader.read_event() {
        Ok(quick_xml::events::Event::Start(e)) => XmlEvent::Start(e.name().as_ref().to_vec()),
        Ok(quick_xml::events::Event::End(e)) => XmlEvent::End(e.name().as_ref().to_vec()),
        Ok(quick_xml::events::Event::Text(e)) => XmlEvent::Text(
            e.unescape().map(|t| t.into_owned()).map_err(|err| err.to_string()),
        ),
        Ok(quick_xml::events::Event::Eof) => XmlEvent::Eof,
        Ok(_) => XmlEvent::Other,
        Err(err) => XmlEvent::Error(err.to_string()),
    }
}

/// The capabilities the official viewer asks a simulator for.
pub const OFFICIAL_VIEWER_CAPABILITIES: [&'static str; 117] = [
    "AbuseCategories",
    "AcceptFriendship",
    "AcceptGroupInvite",
    "AgentPreferences",
    "AgentProfile",
    "AgentState",
    "AttachmentResources",
    "AvatarPickerSearch",
    "AvatarRenderInfo",
    "CharacterProperties",
    "ChatSessionRequest",
    "CopyInventoryFromNotecard",
    "CreateInventoryCategory",
    "DeclineFriendship",
    "DeclineGroupInvite",
    "DispatchRegionInfo",
    "DirectDelivery",
    "EnvironmentSettings",
    "EstateAccess",
    "EstateChangeInfo",
    "EventQueueGet",
    "ExtEnvironment",
    "FetchLib2",
    "FetchLibDescendents2",
    "FetchInventory2",
    "FetchInventoryDescendents2",
    "IncrementCOFVersion",
    "RequestTaskInventory",
    "InventoryAPIv3",
    "LibraryAPIv3",
    "InterestList",
    "InventoryThumbnailUpload",
    "GetDisplayNames",
    "GetExperiences",
    "AgentExperiences",
    "FindExperienceByName",
    "GetExperienceInfo",
    "GetAdminExperiences",
    "GetCreatorExperiences",
    "ExperiencePreferences",
    "GroupExperiences",
    "UpdateExperience",
    "IsExperienceAdmin",
    "IsExperienceContributor",
    "RegionExperiences",
    "ExperienceQuery",
    "GetMesh",
    "GetMesh2",
    "GetMetadata",
    "GetObjectCost",
    "GetObjectPhysicsData",
    "GetTexture",
    "GroupAPIv1",
    "GroupMemberData",
    "GroupProposalBallot",
    "HomeLocation",
    "LandResources",
    "LSLSyntax",
    "MapLayer",
    "MapLayerGod",
    "MeshUploadFlag",
    "ModifyMaterialParams",
    "ModifyRegion",
    "NavMeshGenerationStatus",
    "NewFileAgentInventory",
    "ObjectAnimation",
    "ObjectMedia",
    "ObjectMediaNavigate",
    "ObjectNavMeshProperties",
    "ParcelNavigateMedia",
    "ParcelPropertiesUpdate",
    "ParcelVoiceInfoRequest",
    "ProductInfoRequest",
    "ProvisionVoiceAccountRequest",
    "VoiceSignalingRequest",
    "ReadOfflineMsgs",
    "RegionObjects",
    "RegionSchedule",
    "RemoteParcelRequest",
    "RenderMaterials",
    "RequestTextureDownload",
    "ResourceCostSelected",
    "RetrieveNavMeshSrc",
    "SearchStatRequest",
    "SearchStatTracking",
    "SendPostcard",
    "SendUserReport",
    "SendUserReportWithScreenshot",
    "ServerReleaseNotes",
    "SetDisplayName",
    "SimConsoleAsync",
    "SimulatorFeatures",
    "StartGroupProposal",
    "TerrainNavMeshProperties",
    "TextureStats",
    "UntrustedSimulatorMessage",
    "UpdateAgentInformation",
    "UpdateAgentLanguage",
    "UpdateAvatarAppearance",
    "UpdateGestureAgentInventory",
    "UpdateGestureTaskInventory",
    "UpdateNotecardAgentInventory",
    "UpdateNotecardTaskInventory",
    "UpdateScriptAgent",
    "UpdateScriptTask",
    "UpdateSettingsAgentInventory",
    "UpdateSettingsTaskInventory",
    "UploadAgentProfileImage",
    "UpdateMaterialAgentInventory",
    "UpdateMaterialTaskInventory",
    "UploadBakedTexture",
    "UserInfo",
    "ViewerAsset",
    "ViewerBenefits",
    "ViewerMetrics",
    "ViewerStartAuction",
    "ViewerStats",
];

/// One requested capability: `<string>name</string>`.
pub open spec fn llsd_string(name: Seq<char>) -> Seq<char> {
    "<string>"@ + name + "</string>"@
}

/// The requested capabilities, in order.
pub open spec fn llsd_strings(names: Seq<&str>) -> Seq<char>
    decreases names.len(),
{
    if names.len() == 0 {
        Seq::empty()
    } else {
        llsd_strings(names.drop_last()) + llsd_string(names.last()@)
    }
}

/// The seed request: an LLSD array of the capability names.
pub open spec fn capability_request_spec(names: Seq<&str>) -> Seq<char> {
    "<?xml version=\"1.0\" ?><llsd><array>"@ + llsd_strings(names) + "</array></llsd>"@
}

/// The seed request for the given capability names.
pub fn capability_request_llsd(names: &[&str]) -> (xml: String)
    ensures
        xml@ == capability_request_spec(names@),
{
    let mut xml = String::from_str("<?xml version=\"1.0\" ?><llsd><array>");
    let ghost head = xml@;
    let mut i: usize = 0;
    while i < names.len()
        invariant
            i <= names.len(),
            xml@ == head + llsd_strings(names@.take(i as int)),
        decreases names.len() - i,
    {
        xml.append("<string>");
        xml.append(names[i]);
        xml.append("</string>");
        proof {
            assert(names@.take(i + 1).drop_last() =~= names@.take(i as int));
        }
        i = i + 1;
        assert(xml@ =~= head + llsd_strings(names@.take(i as int)));
    }
    assert(names@.take(names.len() as int) =~= names@);
    xml.append("</array></llsd>");
    xml
}

/// The seed request for the capabilities the official viewer asks for.
pub fn generate_capability_request_llsd() -> (xml: String)
    ensures
        xml@ == capability_request_spec(OFFICIAL_VIEWER_CAPABILITIES@),
{
    capability_request_llsd(OFFICIAL_VIEWER_CAPABILITIES.as_slice())
}

/// Bytes of an ASCII tag name.
pub open spec fn tag(s: Seq<char>) -> Seq<u8> {
    Seq::new(s.len(), |i: int| s[i] as u8)
}

/// A map from keys to values, with later pairs replacing earlier ones.
pub open spec fn pairs_map(pairs: Seq<(String, String)>) -> Map<Seq<char>, Seq<char>>
    decreases pairs.len(),
{
    if pairs.len() == 0 {
        Map::empty()
    } else {
        pairs_map(pairs.drop_last()).insert(pairs.last().0@, pairs.last().1@)
    }
}

/// What the seed reader has gathered and where it stands.
pub struct SeedState {
    pub caps: Map<Seq<char>, Seq<char>>,
    pub key: Option<Seq<char>>,
    pub value: Option<Seq<char>>,
    pub in_map: bool,
    pub in_key: bool,
    pub in_string: bool,
}

/// A reader's step: go on, stop with what was gathered, or fail.
pub enum ReadStep<S> {
    Continue(S),
    Done(S),
    Fail(Seq<char>),
}

/// The seed reader before any event.
pub open spec fn seed_start() -> SeedState {
    SeedState {
        caps: Map::empty(),
        key: None,
        value: None,
        in_map: false,
        in_key: false,
        in_string: false,
    }
}

/// How the seed reader takes one event: a `key` element's text is the key,
/// a `string` element's text inside a map is the value (both trimmed), and
/// the end of a `string` element stores the pair when both are present and
/// forgets both in any case; `</llsd>` or the end of the document ends the
/// reading.
pub open spec fn seed_step(s: SeedState, e: XmlEventView) -> ReadStep<SeedState> {
    match e {
        XmlEventView::Start(n) => if n == tag("map"@) {
            ReadStep::Continue(SeedState { in_map: true, ..s })
        } else if n == tag("key"@) {
            ReadStep::Continue(SeedState { in_key: true, key: None, ..s })
        } else if n == tag("string"@) {
            ReadStep::Continue(SeedState { in_string: true, value: None, ..s })
        } else {
            ReadStep::Continue(s)
        },
        XmlEventView::End(n) => if n == tag("llsd"@) {
            ReadStep::Done(s)
        } else if n == tag("map"@) {
            ReadStep::Continue(SeedState { in_map: false, ..s })
        } else if n == tag("key"@) {
            ReadStep::Continue(SeedState { in_key: false, ..s })
        } else if n == tag("string"@) {
            let caps = match (s.key, s.value) {
                (Some(k), Some(v)) => s.caps.insert(k, v),
                _ => s.caps,
            };
            ReadStep::Continue(SeedState { in_string: false, key: None, value: None, caps, ..s })
        } else {
            ReadStep::Continue(s)
        },
        XmlEventView::Text(Err(m)) => ReadStep::Fail("Failed to unescape XML text: "@ + m),
        XmlEventView::Text(Ok(t)) => if s.in_key {
            ReadStep::Continue(SeedState { key: Some(trim(t)), ..s })
        } else if s.in_string && s.in_map {
            ReadStep::Continue(SeedState { value: Some(trim(t)), ..s })
        } else {
            ReadStep::Continue(s)
        },
        XmlEventView::Eof => ReadStep::Done(s),
        XmlEventView::Error(m) => ReadStep::Fail("Failed to parse seed capability XML: "@ + m),
        XmlEventView::Other => ReadStep::Continue(s),
    }
}

/// The seed reader's state after the events, or how it stopped early.
pub open spec fn seed_run(s: SeedState, es: Seq<XmlEventView>) -> ReadStep<SeedState>
    decreases es.len(),
{
    if es.len() == 0 {
        ReadStep::Continue(s)
    } else {
        match seed_step(s, es[0]) {
            ReadStep::Continue(t) => seed_run(t, es.drop_first()),
            other => other,
        }
    }
}

/// What a seed response reads as: the capabilities gathered, or the error.
pub open spec fn seed_outcome(es: Seq<XmlEventView>) -> Result<Map<Seq<char>, Seq<char>>, Seq<char>> {
    match seed_run(seed_start(), es) {
        ReadStep::Continue(s) => Ok(s.caps),
        ReadStep::Done(s) => Ok(s.caps),
        ReadStep::Fail(m) => Err(m),
    }
}

/// Model of a reading's result.
pub open spec fn caps_result_view(r: Result<Vec<(String, String)>, NetworkError>) -> Result<
    Map<Seq<char>, Seq<char>>,
    Seq<char>,
> {
    match r {
        Ok(v) => Ok(pairs_map(v@)),
        Err(NetworkError::Transport { reason }) => Err(reason@),
        Err(_) => Err(Seq::empty()),
    }
}

/// The views of a sequence of events.
pub open spec fn events_view(es: Seq<XmlEvent>) -> Seq<XmlEventView> {
    es.map_values(|e: XmlEvent| e@)
}

fn bytes_eq(a: &Vec<u8>, b: &[u8]) -> (r: bool)
    ensures
        r == (a@ == b@),
{
    if a.len() != b.len() {
        return false;
    }
    let mut i: usize = 0;
    while i < a.len()
        invariant
            i <= a.len() == b.len(),
            forall|k: int| 0 <= k < i ==> a@[k] == b@[k],
        decreases a.len() - i,
    {
        if a[i] != b[i] {
            return false;
        }
        i = i + 1;
    }
    assert(a@ =~= b@);
    true
}

fn is_tag(n: &Vec<u8>, name: &str) -> (r: bool)
    requires
        forall|i: int| 0 <= i < name@.len() ==> (name@[i] as u32) < 128,
    ensures
        r == (n@ == tag(name@)),
{
    let chars = chars_of(name);
    let mut bytes: Vec<u8> = Vec::new();
    let mut i: usize = 0;
    while i < chars.len()
        invariant
            i <= chars.len(),
            chars@ == name@,
            forall|k: int| 0 <= k < chars@.len() ==> (chars@[k] as u32) < 128,
            bytes@ =~= tag(chars@.take(i as int)),
        decreases chars.len() - i,
    {
        let c = chars[i];
        bytes.push(c as u8);
        i = i + 1;
        assert(bytes@ =~= tag(chars@.take(i as int)));
    }
    assert(chars@.take(chars.len() as int) =~= chars@);
    bytes_eq(n, bytes.as_slice())
}

fn trimmed(s: &String) -> (r: String)
    ensures
        r@ == trim(s@),
{
    let v = chars_of(s.as_str());
    assert(v@.subrange(0, v.len() as int) =~= v@);
    let t = trim_range(&v, 0, v.len());
    string_of(&t)
}

/// Stores a pair, replacing the value of an equal key.
fn insert_pair(pairs: &mut Vec<(String, String)>, key: String, value: String)
    ensures
        pairs_map(final(pairs)@) == pairs_map(old(pairs)@).insert(key@, value@),
{
    let ghost before = pairs@;
    pairs.push((key, value));
    assert(pairs@.drop_last() =~= before);
}

/// The seed reader's working state.
struct SeedReader {
    caps: Vec<(String, String)>,
    key: Option<String>,
    value: Option<String>,
    in_map: bool,
    in_key: bool,
    in_string: bool,
}

/// Model of an optional text.
pub open spec fn opt_view(o: Option<String>) -> Option<Seq<char>> {
    match o {
        Some(s) => Some(s@),
        None => None,
    }
}

impl SeedReader {
    spec fn model(&self) -> SeedState {
        SeedState {
            caps: pairs_map(self.caps@),
            key: opt_view(self.key),
            value: opt_view(self.value),
            in_map: self.in_map,
            in_key: self.in_key,
            in_string: self.in_string,
        }
    }
}

/// The outcome of one step, as the executable reader sees it.
enum StepOutcome {
    Continue,
    Done,
    Fail(String),
}

fn seed_step_exec(r: &mut SeedReader, e: &XmlEvent) -> (o: StepOutcome)
    ensures
        match seed_step(old(r).model(), e@) {
            ReadStep::Continue(t) => o is Continue && final(r).model() == t,
            ReadStep::Done(t) => o is Done && final(r).model() == t,
            ReadStep::Fail(m) => o matches StepOutcome::Fail(f) && f@ == m,
        },
{
    proof {
        reveal_strlit("map");
        reveal_strlit("key");
        reveal_strlit("string");
        reveal_strlit("llsd");
    }
    match e {
        XmlEvent::Start(n) => {
            if is_tag(n, "map") {
                r.in_map = true;
            } else if is_tag(n, "key") {
                r.in_key = true;
                r.key = None;
            } else if is_tag(n, "string") {
                r.in_string = true;
                r.value = None;
            }
            StepOutcome::Continue
        },
        XmlEvent::End(n) => {
            if is_tag(n, "llsd") {
                StepOutcome::Done
            } else if is_tag(n, "map") {
                r.in_map = false;
                StepOutcome::Continue
            } else if is_tag(n, "key") {
                r.in_key = false;
                StepOutcome::Continue
            } else if is_tag(n, "string") {
                r.in_string = false;
                let k = r.key.take();
                let v = r.value.take();
                match (k, v) {
                    (Some(k), Some(v)) => insert_pair(&mut r.caps, k, v),
                    _ => {},
                }
                StepOutcome::Continue
            } else {
                StepOutcome::Continue
            }
        },
        XmlEvent::Text(Err(m)) => {
            let mut t = String::from_str("Failed to unescape XML text: ");
            t.append(m.as_str());
            StepOutcome::Fail(t)
        },
        XmlEvent::Text(Ok(t)) => {
            if r.in_key {
                r.key = Some(trimmed(t));
            } else if r.in_string && r.in_map {
                r.value = Some(trimmed(t));
            }
            StepOutcome::Continue
        },
        XmlEvent::Eof => StepOutcome::Done,
        XmlEvent::Error(m) => {
            let mut t = String::from_str("Failed to parse seed capability XML: ");
            t.append(m.as_str());
            StepOutcome::Fail(t)
        },
        XmlEvent::Other => StepOutcome::Continue,
    }
}

/// `seed_run` over one more event.
proof fn lemma_seed_run_push(s: SeedState, es: Seq<XmlEventView>, e: XmlEventView)
    ensures
        seed_run(s, es.push(e)) == (match seed_run(s, es) {
            ReadStep::Continue(t) => seed_step(t, e),
            other => other,
        }),
    decreases es.len(),
{
    if es.len() == 0 {
        assert(es.push(e).drop_first() =~= Seq::<XmlEventView>::empty());
        assert(es.push(e)[0] == e);
        match seed_step(s, e) {
            ReadStep::Continue(t) => {
                assert(seed_run(t, Seq::<XmlEventView>::empty()) == ReadStep::<SeedState>::Continue(t));
            },
            _ => {},
        }
    } else {
        assert(es.push(e).drop_first() =~= es.drop_first().push(e));
        assert(es.push(e)[0] == es[0]);
        match seed_step(s, es[0]) {
            ReadStep::Continue(t) => lemma_seed_run_push(t, es.drop_first(), e),
            _ => {},
        }
    }
}

/// The capabilities that a seed response's events give, or the error that
/// stops the reading.
pub fn capabilities_from_events(events: &Vec<XmlEvent>) -> (r: Result<Vec<(String, String)>, NetworkError>)
    ensures
        caps_result_view(r) == seed_outcome(events_view(events@)),
        r matches Err(e) ==> e is Transport,
{
    let mut rd = SeedReader {
        caps: Vec::new(),
        key: None,
        value: None,
        in_map: false,
        in_key: false,
        in_string: false,
    };
    assert(rd.model() == seed_start()) by {
        assert(pairs_map(rd.caps@) =~= Map::<Seq<char>, Seq<char>>::empty());
    }
    let ghost evs = events_view(events@);
    let mut i: usize = 0;
    while i < events.len()
        invariant
            i <= events.len(),
            evs == events_view(events@),
            seed_run(seed_start(), evs.take(i as int)) == ReadStep::Continue(rd.model()),
        decreases events.len() - i,
    {
        proof {
            lemma_seed_run_push(seed_start(), evs.take(i as int), evs[i as int]);
            assert(evs.take(i + 1) =~= evs.take(i as int).push(evs[i as int]));
        }
        let outcome = seed_step_exec(&mut rd, &events[i]);
        match outcome {
            StepOutcome::Continue => {},
            StepOutcome::Done => {
                proof {
                    lemma_seed_run_prefix_stops(seed_start(), evs, i as int + 1);
                }
                return Ok(rd.caps);
            },
            StepOutcome::Fail(m) => {
                proof {
                    lemma_seed_run_prefix_stops(seed_start(), evs, i as int + 1);
                }
                return Err(NetworkError::Transport { reason: m });
            },
        }
        i = i + 1;
    }
    assert(evs.take(events.len() as int) =~= evs);
    Ok(rd.caps)
}

/// Once the reading stops, later events change nothing.
proof fn lemma_seed_run_prefix_stops(s: SeedState, es: Seq<XmlEventView>, n: int)
    requires
        0 <= n <= es.len(),
        !(seed_run(s, es.take(n)) is Continue),
    ensures
        seed_run(s, es) == seed_run(s, es.take(n)),
    decreases n,
{
    if n > 0 {
        assert(es.take(n)[0] == es[0]);
        assert(es.take(n).drop_first() =~= es.drop_first().take(n - 1));
        match seed_step(s, es[0]) {
            ReadStep::Continue(t) => lemma_seed_run_prefix_stops(t, es.drop_first(), n - 1),
            _ => {},
        }
    }
}

/// The first `n` of the events, or all of them where there are fewer.
pub open spec fn first_events(es: Seq<XmlEventView>, n: nat) -> Seq<XmlEventView> {
    if es.len() <= n {
        es
    } else {
        es.take(n as int)
    }
}

/// The events of a document, read until the first `Eof` or `Error`, or
/// until one more than the document has bytes.
fn read_xml_events(xml_text: &str) -> (events: Vec<XmlEvent>)
    ensures
        events_view(events@) == first_events(xml_events(xml_text@), xml_text.spec_bytes().len() + 1),
{
    let mut tokens = xml_tokens(xml_text);
    let ghost evs = xml_events(xml_text@);
    let limit: usize = xml_text.as_bytes_vec().len();
    let mut events: Vec<XmlEvent> = Vec::new();
    let mut remaining: usize = limit;
    loop
        invariant_except_break
            tokens.text() == xml_text@,
            evs == xml_events(xml_text@),
            tokens.given() == events.len(),
            events.len() + remaining == limit,
            limit == xml_text.spec_bytes().len(),
            events.len() < evs.len() || events.len() == 0,
            events_view(events@) == evs.take(events.len() as int),
        ensures
            evs == xml_events(xml_text@),
            events_view(events@) == first_events(evs, (limit + 1) as nat),
        decreases remaining,
    {
        let e = xml_next_event(&mut tokens);
        let ghost k = events.len() as int;
        proof {
            assert(k < evs.len());
        }
        let last = match &e {
            XmlEvent::Eof | XmlEvent::Error(_) => true,
            _ => false,
        };
        events.push(e);
        proof {
            assert(events_view(events@) =~= evs.take(k + 1));
            if !last {
                assert(!is_final_event(evs[k]));
            }
        }
        if last || remaining == 0 {
            proof {
                if last {
                    assert(is_final_event(evs[k]));
                    assert(k == evs.len() - 1);
                    assert(evs.take(k + 1) =~= evs);
                } else {
                    assert(k + 1 == limit + 1);
                }
            }
            break;
        }
        remaining = remaining - 1;
    }
    events
}

/// Reads the seed capability response: the capability names and URLs in the
/// document's map, or the error that stopped the reading. The tokenizer is
/// asked for at most one event per byte of the document and one more, which
/// is as many as it can give before the end.
pub fn parse_seed_response(xml_text: &str) -> (r: Result<Vec<(String, String)>, NetworkError>)
    ensures
        caps_result_view(r) == seed_outcome(
            first_events(xml_events(xml_text@), xml_text.spec_bytes().len() + 1),
        ),
        r matches Err(e) ==> e is Transport,
{
    let events = read_xml_events(xml_text);
    capabilities_from_events(&events)
}

/// What the login-time LLSD reader has gathered and where it stands.
pub struct MapState {
    pub caps: Map<Seq<char>, Seq<char>>,
    pub key: Option<Seq<char>>,
    pub value: Option<Seq<char>>,
    pub in_map: bool,
    pub depth: int,
}

/// The login-time LLSD reader before any event.
pub open spec fn map_start() -> MapState {
    MapState { caps: Map::empty(), key: None, value: None, in_map: false, depth: 0 }
}

/// How the login-time LLSD reader takes one event: the first text after a
/// `key` tag is the key and the next is the value (text that cannot be
/// unescaped counts as empty), the end of a `string` element stores the pair
/// when both are present and the reader is inside a map, and forgets both in
/// any case; maps nest, and the reader leaves the map when the outermost one
/// closes.
pub open spec fn map_step(s: MapState, e: XmlEventView) -> ReadStep<MapState> {
    match e {
        XmlEventView::Start(n) => if n == tag("map"@) {
            ReadStep::Continue(MapState { in_map: true, depth: s.depth + 1, ..s })
        } else if n == tag("key"@) {
            ReadStep::Continue(MapState { key: None, ..s })
        } else if n == tag("string"@) {
            ReadStep::Continue(MapState { value: None, ..s })
        } else {
            ReadStep::Continue(s)
        },
        XmlEventView::End(n) => if n == tag("llsd"@) {
            ReadStep::Done(s)
        } else if n == tag("map"@) {
            ReadStep::Continue(
                MapState {
                    depth: s.depth - 1,
                    in_map: if s.depth - 1 == 0 {
                        false
                    } else {
                        s.in_map
                    },
                    ..s
                },
            )
        } else if n == tag("string"@) {
            let caps = match (s.key, s.value) {
                (Some(k), Some(v)) => if s.in_map {
                    s.caps.insert(k, v)
                } else {
                    s.caps
                },
                _ => s.caps,
            };
            ReadStep::Continue(MapState { key: None, value: None, caps, ..s })
        } else {
            ReadStep::Continue(s)
        },
        XmlEventView::Text(t) => {
            let text = match t {
                Ok(x) => x,
                Err(_) => Seq::empty(),
            };
            if s.key is None {
                ReadStep::Continue(MapState { key: Some(text), ..s })
            } else if s.value is None {
                ReadStep::Continue(MapState { value: Some(text), ..s })
            } else {
                ReadStep::Continue(s)
            }
        },
        XmlEventView::Eof => ReadStep::Done(s),
        XmlEventView::Error(m) => ReadStep::Fail("Failed to parse LLSD XML: "@ + m),
        XmlEventView::Other => ReadStep::Continue(s),
    }
}

/// The login-time reader's state after the events, or how it stopped early.
pub open spec fn map_run(s: MapState, es: Seq<XmlEventView>) -> ReadStep<MapState>
    decreases es.len(),
{
    if es.len() == 0 {
        ReadStep::Continue(s)
    } else {
        match map_step(s, es[0]) {
            ReadStep::Continue(t) => map_run(t, es.drop_first()),
            other => other,
        }
    }
}

/// What an LLSD response reads as at login.
pub open spec fn map_outcome(es: Seq<XmlEventView>) -> Result<Map<Seq<char>, Seq<char>>, Seq<char>> {
    match map_run(map_start(), es) {
        ReadStep::Continue(s) => Ok(s.caps),
        ReadStep::Done(s) => Ok(s.caps),
        ReadStep::Fail(m) => Err(m),
    }
}

struct MapReader {
    caps: Vec<(String, String)>,
    key: Option<String>,
    value: Option<String>,
    in_map: bool,
    depth: i128,
}

impl MapReader {
    spec fn model(&self) -> MapState {
        MapState {
            caps: pairs_map(self.caps@),
            key: opt_view(self.key),
            value: opt_view(self.value),
            in_map: self.in_map,
            depth: self.depth as int,
        }
    }
}

fn map_step_exec(r: &mut MapReader, e: &XmlEvent, bound: usize) -> (o: StepOutcome)
    requires
        -(bound as int) <= old(r).depth <= bound,
    ensures
        -(bound as int) - 1 <= final(r).depth <= bound + 1,
        match map_step(old(r).model(), e@) {
            ReadStep::Continue(t) => o is Continue && final(r).model() == t,
            ReadStep::Done(t) => o is Done && final(r).model() == t,
            ReadStep::Fail(m) => o matches StepOutcome::Fail(f) && f@ == m,
        },
{
    proof {
        reveal_strlit("map");
        reveal_strlit("key");
        reveal_strlit("string");
        reveal_strlit("llsd");
    }
    match e {
        XmlEvent::Start(n) => {
            if is_tag(n, "map") {
                r.in_map = true;
                r.depth = r.depth + 1;
            } else if is_tag(n, "key") {
                r.key = None;
            } else if is_tag(n, "string") {
                r.value = None;
            }
            StepOutcome::Continue
        },
        XmlEvent::End(n) => {
            if is_tag(n, "llsd") {
                StepOutcome::Done
            } else if is_tag(n, "map") {
                r.depth = r.depth - 1;
                if r.depth == 0 {
                    r.in_map = false;
                }
                StepOutcome::Continue
            } else if is_tag(n, "string") {
                let k = r.key.take();
                let v = r.value.take();
                match (k, v) {
                    (Some(k), Some(v)) => {
                        if r.in_map {
                            insert_pair(&mut r.caps, k, v);
                        }
                    },
                    _ => {},
                }
                StepOutcome::Continue
            } else {
                StepOutcome::Continue
            }
        },
        XmlEvent::Text(t) => {
            let text = match t {
                Ok(x) => x.clone(),
                Err(_) => String::new(),
            };
            if r.key.is_none() {
                r.key = Some(text);
            } else if r.value.is_none() {
                r.value = Some(text);
            }
            StepOutcome::Continue
        },
        XmlEvent::Eof => StepOutcome::Done,
        XmlEvent::Error(m) => {
            let mut t = String::from_str("Failed to parse LLSD XML: ");
            t.append(m.as_str());
            StepOutcome::Fail(t)
        },
        XmlEvent::Other => StepOutcome::Continue,
    }
}

proof fn lemma_map_run_push(s: MapState, es: Seq<XmlEventView>, e: XmlEventView)
    ensures
        map_run(s, es.push(e)) == (match map_run(s, es) {
            ReadStep::Continue(t) => map_step(t, e),
            other => other,
        }),
    decreases es.len(),
{
    if es.len() == 0 {
        assert(es.push(e).drop_first() =~= Seq::<XmlEventView>::empty());
        assert(es.push(e)[0] == e);
        match map_step(s, e) {
            ReadStep::Continue(t) => {
                assert(map_run(t, Seq::<XmlEventView>::empty()) == ReadStep::<MapState>::Continue(t));
            },
            _ => {},
        }
    } else {
        assert(es.push(e).drop_first() =~= es.drop_first().push(e));
        assert(es.push(e)[0] == es[0]);
        match map_step(s, es[0]) {
            ReadStep::Continue(t) => lemma_map_run_push(t, es.drop_first(), e),
            _ => {},
        }
    }
}

proof fn lemma_map_run_prefix_stops(s: MapState, es: Seq<XmlEventView>, n: int)
    requires
        0 <= n <= es.len(),
        !(map_run(s, es.take(n)) is Continue),
    ensures
        map_run(s, es) == map_run(s, es.take(n)),
    decreases n,
{
    if n > 0 {
        assert(es.take(n)[0] == es[0]);
        assert(es.take(n).drop_first() =~= es.drop_first().take(n - 1));
        match map_step(s, es[0]) {
            ReadStep::Continue(t) => lemma_map_run_prefix_stops(t, es.drop_first(), n - 1),
            _ => {},
        }
    }
}

/// The name-to-URL map that an LLSD response's events give at login, or
/// the error that stops the reading.
pub fn llsd_map_from_events(events: &Vec<XmlEvent>) -> (r: Result<Vec<(String, String)>, NetworkError>)
    ensures
        caps_result_view(r) == map_outcome(events_view(events@)),
        r matches Err(e) ==> e is Transport,
{
    let mut rd = MapReader { caps: Vec::new(), key: None, value: None, in_map: false, depth: 0 };
    assert(rd.model() == map_start()) by {
        assert(pairs_map(rd.caps@) =~= Map::<Seq<char>, Seq<char>>::empty());
    }
    let ghost evs = events_view(events@);
    let mut i: usize = 0;
    while i < events.len()
        invariant
            i <= events.len(),
            evs == events_view(events@),
            -(i as int) <= rd.depth <= i,
            map_run(map_start(), evs.take(i as int)) == ReadStep::Continue(rd.model()),
        decreases events.len() - i,
    {
        proof {
            lemma_map_run_push(map_start(), evs.take(i as int), evs[i as int]);
            assert(evs.take(i + 1) =~= evs.take(i as int).push(evs[i as int]));
        }
        let outcome = map_step_exec(&mut rd, &events[i], i);
        match outcome {
            StepOutcome::Continue => {},
            StepOutcome::Done => {
                proof {
                    lemma_map_run_prefix_stops(map_start(), evs, i as int + 1);
                }
                return Ok(rd.caps);
            },
            StepOutcome::Fail(m) => {
                proof {
                    lemma_map_run_prefix_stops(map_start(), evs, i as int + 1);
                }
                return Err(NetworkError::Transport { reason: m });
            },
        }
        i = i + 1;
    }
    assert(evs.take(events.len() as int) =~= evs);
    Ok(rd.caps)
}

/// Reads an LLSD map of capability names to URLs as the login service
/// does, from the whole document's events (at most one per byte and one more).
pub fn parse_llsd_xml(xml_text: &str) -> (r: Result<Vec<(String, String)>, NetworkError>)
    ensures
        caps_result_view(r) == map_outcome(
            first_events(xml_events(xml_text@), xml_text.spec_bytes().len() + 1),
        ),
        r matches Err(e) ==> e is Transport,
{
    let events = read_xml_events(xml_text);
    llsd_map_from_events(&events)
}

} // verus!
