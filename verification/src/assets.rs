//! Asset kinds, transfer settings and the recognition of texture and sound
//! formats by their first bytes.

use vstd::prelude::*;
use std::collections::HashMap;
use std::time::{Duration, Instant};
use crate::time_util::{duration_from_secs, instant_now, instant_elapsed};

verus! {

/// Names of capabilities the simulator hands out.
pub const FETCH_INVENTORY: &'static str = "FetchInventory2";
pub const FETCH_LIB_ROOT: &'static str = "FetchLibRoot";
pub const FETCH_LIB: &'static str = "FetchLib2";
pub const GET_TEXTURE: &'static str = "GetTexture";
pub const GET_MESH: &'static str = "GetMesh2";
pub const UPLOAD_BAKED_TEXTURE: &'static str = "UploadBakedTexture";
pub const GET_DISPLAY_NAMES: &'static str = "GetDisplayNames";
pub const AVATAR_RENDER_INFO: &'static str = "AvatarRenderInfo";
pub const ECONOMY: &'static str = "Economy";
pub const MONEY_BALANCE_REQUEST: &'static str = "MoneyBalanceRequest";
pub const GROUP_MEMBERSHIP: &'static str = "GroupMembership";
pub const GROUP_PROPOSAL_BALLOT: &'static str = "GroupProposalBallot";
pub const EVENT_QUEUE_GET: &'static str = "EventQueueGet";
pub const MAP_LAYER: &'static str = "MapLayer";
pub const MAP_LAYER_GOD: &'static str = "MapLayerGod";
pub const PARCEL_PROPERTIES_UPDATE: &'static str = "ParcelPropertiesUpdate";
pub const LAND_RESOURCES: &'static str = "LandResources";
pub const SEARCH: &'static str = "Search";
pub const OBJECT_MEDIA: &'static str = "ObjectMedia";
pub const OBJECT_MEDIA_NAVIGATE: &'static str = "ObjectMediaNavigate";
pub const PROVISION_VOICE_ACCOUNT_REQUEST: &'static str = "ProvisionVoiceAccountRequest";
pub const PARCEL_VOICE_INFO_REQUEST: &'static str = "ParcelVoiceInfoRequest";

/// How an asset is fetched.
#[derive(Debug, Clone, Copy, PartialEq, Eq)]
pub enum AssetTransferMethod {
    Udp,
    Http,
    HttpWithUdpFallback,
}

/// Where an asset transfer stands.
#[derive(Debug, Clone, Copy, PartialEq, Eq)]
pub enum AssetTransferStatus {
    Success,
    Failed,
    Cancelled,
    InProgress,
    NotFound,
    Cached,
}

/// Priority of an asset request, lowest first.
#[derive(Debug, Clone, Copy, PartialEq, Eq, PartialOrd, Ord)]
pub enum AssetPriority {
    Low,
    Normal,
    High,
    Critical,
}

/// Numeric level of a priority (0 for `Low` to 3 for `Critical`).
pub open spec fn priority_level(p: AssetPriority) -> u8 {
    match p {
        AssetPriority::Low => 0,
        AssetPriority::Normal => 1,
        AssetPriority::High => 2,
        AssetPriority::Critical => 3,
    }
}

impl AssetPriority {
    /// The priority's numeric level.
    pub fn level(&self) -> (l: u8)
        ensures
            l == priority_level(*self),
    {
        match self {
            AssetPriority::Low => 0,
            AssetPriority::Normal => 1,
            AssetPriority::High => 2,
            AssetPriority::Critical => 3,
        }
    }
}

/// Kinds of assets.
#[derive(Debug, Clone, Copy, PartialEq, Eq, Hash)]
pub enum AssetType {
    Texture,
    Sound,
    CallingCard,
    Landmark,
    Script,
    Clothing,
    Object,
    Notecard,
    Category,
    RootCategory,
    LSLText,
    LSLBytecode,
    TextureTGA,
    Bodypart,
    TrashFolder,
    SnapshotFolder,
    LostAndFoundFolder,
    SoundWAV,
    ImageTGA,
    ImageJPEG,
    Animation,
    Gesture,
    Simstate,
    FavoriteFolder,
    Link,
    LinkFolder,
    MarketplaceFolder,
    Mesh,
    Settings,
    Material,
}

/// The name of an asset type, as its `Debug` form writes it.
pub open spec fn asset_type_name(t: AssetType) -> Seq<char> {
    match t {
        AssetType::Texture => "Texture"@,
        AssetType::Sound => "Sound"@,
        AssetType::CallingCard => "CallingCard"@,
        AssetType::Landmark => "Landmark"@,
        AssetType::Script => "Script"@,
        AssetType::Clothing => "Clothing"@,
        AssetType::Object => "Object"@,
        AssetType::Notecard => "Notecard"@,
        AssetType::Category => "Category"@,
        AssetType::RootCategory => "RootCategory"@,
        AssetType::LSLText => "LSLText"@,
        AssetType::LSLBytecode => "LSLBytecode"@,
        AssetType::TextureTGA => "TextureTGA"@,
        AssetType::Bodypart => "Bodypart"@,
        AssetType::TrashFolder => "TrashFolder"@,
        AssetType::SnapshotFolder => "SnapshotFolder"@,
        AssetType::LostAndFoundFolder => "LostAndFoundFolder"@,
        AssetType::SoundWAV => "SoundWAV"@,
        AssetType::ImageTGA => "ImageTGA"@,
        AssetType::ImageJPEG => "ImageJPEG"@,
        AssetType::Animation => "Animation"@,
        AssetType::Gesture => "Gesture"@,
        AssetType::Simstate => "Simstate"@,
        AssetType::FavoriteFolder => "FavoriteFolder"@,
        AssetType::Link => "Link"@,
        AssetType::LinkFolder => "LinkFolder"@,
        AssetType::MarketplaceFolder => "MarketplaceFolder"@,
        AssetType::Mesh => "Mesh"@,
        AssetType::Settings => "Settings"@,
        AssetType::Material => "Material"@,
    }
}

/// The wire code of an asset type.
pub open spec fn asset_type_code(t: AssetType) -> u8 {
    match t {
        AssetType::Texture => 0,
        AssetType::Sound => 1,
        AssetType::CallingCard => 2,
        AssetType::Landmark => 3,
        AssetType::Script => 4,
        AssetType::Clothing => 5,
        AssetType::Object => 6,
        AssetType::Notecard => 7,
        AssetType::Category => 8,
        AssetType::RootCategory => 9,
        AssetType::LSLText => 10,
        AssetType::LSLBytecode => 11,
        AssetType::TextureTGA => 12,
        AssetType::Bodypart => 13,
        AssetType::TrashFolder => 14,
        AssetType::SnapshotFolder => 15,
        AssetType::LostAndFoundFolder => 16,
        AssetType::SoundWAV => 17,
        AssetType::ImageTGA => 18,
        AssetType::ImageJPEG => 19,
        AssetType::Animation => 20,
        AssetType::Gesture => 21,
        AssetType::Simstate => 22,
        AssetType::FavoriteFolder => 23,
        AssetType::Link => 24,
        AssetType::LinkFolder => 25,
        AssetType::MarketplaceFolder => 46,
        AssetType::Mesh => 49,
        AssetType::Settings => 56,
        AssetType::Material => 57,
    }
}

/// Whether `v` is the code of some asset type.
pub open spec fn is_asset_type_code(v: u8) -> bool {
    v <= 25 || v == 46 || v == 49 || v == 56 || v == 57
}

/// The asset type with code `v`; `Object` for an unknown code.
pub open spec fn asset_type_from_code(v: u8) -> AssetType {
    if v == 0 {
        AssetType::Texture
    } else if v == 1 {
        AssetType::Sound
    } else if v == 2 {
        AssetType::CallingCard
    } else if v == 3 {
        AssetType::Landmark
    } else if v == 4 {
        AssetType::Script
    } else if v == 5 {
        AssetType::Clothing
    } else if v == 6 {
        AssetType::Object
    } else if v == 7 {
        AssetType::Notecard
    } else if v == 8 {
        AssetType::Category
    } else if v == 9 {
        AssetType::RootCategory
    } else if v == 10 {
        AssetType::LSLText
    } else if v == 11 {
        AssetType::LSLBytecode
    } else if v == 12 {
        AssetType::TextureTGA
    } else if v == 13 {
        AssetType::Bodypart
    } else if v == 14 {
        AssetType::TrashFolder
    } else if v == 15 {
        AssetType::SnapshotFolder
    } else if v == 16 {
        AssetType::LostAndFoundFolder
    } else if v == 17 {
        AssetType::SoundWAV
    } else if v == 18 {
        AssetType::ImageTGA
    } else if v == 19 {
        AssetType::ImageJPEG
    } else if v == 20 {
        AssetType::Animation
    } else if v == 21 {
        AssetType::Gesture
    } else if v == 22 {
        AssetType::Simstate
    } else if v == 23 {
        AssetType::FavoriteFolder
    } else if v == 24 {
        AssetType::Link
    } else if v == 25 {
        AssetType::LinkFolder
    } else if v == 46 {
        AssetType::MarketplaceFolder
    } else if v == 49 {
        AssetType::Mesh
    } else if v == 56 {
        AssetType::Settings
    } else if v == 57 {
        AssetType::Material
    } else {
        AssetType::Object
    }
}

impl AssetType {
    /// The name of the asset type, as its `Debug` form writes it.
    pub fn debug_name(&self) -> (s: &'static str)
        ensures
            s@ == asset_type_name(*self),
    {
        match self {
            AssetType::Texture => "Texture",
            AssetType::Sound => "Sound",
            AssetType::CallingCard => "CallingCard",
            AssetType::Landmark => "Landmark",
            AssetType::Script => "Script",
            AssetType::Clothing => "Clothing",
            AssetType::Object => "Object",
            AssetType::Notecard => "Notecard",
            AssetType::Category => "Category",
            AssetType::RootCategory => "RootCategory",
            AssetType::LSLText => "LSLText",
            AssetType::LSLBytecode => "LSLBytecode",
            AssetType::TextureTGA => "TextureTGA",
            AssetType::Bodypart => "Bodypart",
            AssetType::TrashFolder => "TrashFolder",
            AssetType::SnapshotFolder => "SnapshotFolder",
            AssetType::LostAndFoundFolder => "LostAndFoundFolder",
            AssetType::SoundWAV => "SoundWAV",
            AssetType::ImageTGA => "ImageTGA",
            AssetType::ImageJPEG => "ImageJPEG",
            AssetType::Animation => "Animation",
            AssetType::Gesture => "Gesture",
            AssetType::Simstate => "Simstate",
            AssetType::FavoriteFolder => "FavoriteFolder",
            AssetType::Link => "Link",
            AssetType::LinkFolder => "LinkFolder",
            AssetType::MarketplaceFolder => "MarketplaceFolder",
            AssetType::Mesh => "Mesh",
            AssetType::Settings => "Settings",
            AssetType::Material => "Material",
        }
    }

    /// The asset type's wire code.
    pub fn code(&self) -> (v: u8)
        ensures
            v == asset_type_code(*self),
    {
        match self {
            AssetType::Texture => 0,
            AssetType::Sound => 1,
            AssetType::CallingCard => 2,
            AssetType::Landmark => 3,
            AssetType::Script => 4,
            AssetType::Clothing => 5,
            AssetType::Object => 6,
            AssetType::Notecard => 7,
            AssetType::Category => 8,
            AssetType::RootCategory => 9,
            AssetType::LSLText => 10,
            AssetType::LSLBytecode => 11,
            AssetType::TextureTGA => 12,
            AssetType::Bodypart => 13,
            AssetType::TrashFolder => 14,
            AssetType::SnapshotFolder => 15,
            AssetType::LostAndFoundFolder => 16,
            AssetType::SoundWAV => 17,
            AssetType::ImageTGA => 18,
            AssetType::ImageJPEG => 19,
            AssetType::Animation => 20,
            AssetType::Gesture => 21,
            AssetType::Simstate => 22,
            AssetType::FavoriteFolder => 23,
            AssetType::Link => 24,
            AssetType::LinkFolder => 25,
            AssetType::MarketplaceFolder => 46,
            AssetType::Mesh => 49,
            AssetType::Settings => 56,
            AssetType::Material => 57,
        }
    }

    /// Whether assets of this type can be fetched over HTTP.
    pub fn supports_http_transfer(&self) -> (b: bool)
        ensures
            b <==> (*self == AssetType::Texture || *self == AssetType::ImageJPEG || *self
                == AssetType::ImageTGA || *self == AssetType::Mesh),
    {
        match self {
            AssetType::Texture | AssetType::ImageJPEG | AssetType::ImageTGA | AssetType::Mesh => true,
            _ => false,
        }
    }

    /// The capability that serves assets of this type over HTTP, if any.
    pub fn http_capability_name(&self) -> (n: Option<&'static str>)
        ensures
            (*self == AssetType::Texture || *self == AssetType::ImageJPEG || *self
                == AssetType::ImageTGA) ==> (n matches Some(s) && s@ == GET_TEXTURE@),
            *self == AssetType::Mesh ==> (n matches Some(s) && s@ == GET_MESH@),
            n is Some <==> (*self == AssetType::Texture || *self == AssetType::ImageJPEG || *self
                == AssetType::ImageTGA || *self == AssetType::Mesh),
    {
        match self {
            AssetType::Texture | AssetType::ImageJPEG | AssetType::ImageTGA => Some(GET_TEXTURE),
            AssetType::Mesh => Some(GET_MESH),
            _ => None,
        }
    }
}

impl From<u8> for AssetType {
    fn from(value: u8) -> (t: Self) {
        if value == 0 {
            AssetType::Texture
        } else if value == 1 {
            AssetType::Sound
        } else if value == 2 {
            AssetType::CallingCard
        } else if value == 3 {
            AssetType::Landmark
        } else if value == 4 {
            AssetType::Script
        } else if value == 5 {
            AssetType::Clothing
        } else if value == 6 {
            AssetType::Object
        } else if value == 7 {
            AssetType::Notecard
        } else if value == 8 {
            AssetType::Category
        } else if value == 9 {
            AssetType::RootCategory
        } else if value == 10 {
            AssetType::LSLText
        } else if value == 11 {
            AssetType::LSLBytecode
        } else if value == 12 {
            AssetType::TextureTGA
        } else if value == 13 {
            AssetType::Bodypart
        } else if value == 14 {
            AssetType::TrashFolder
        } else if value == 15 {
            AssetType::SnapshotFolder
        } else if value == 16 {
            AssetType::LostAndFoundFolder
        } else if value == 17 {
            AssetType::SoundWAV
        } else if value == 18 {
            AssetType::ImageTGA
        } else if value == 19 {
            AssetType::ImageJPEG
        } else if value == 20 {
            AssetType::Animation
        } else if value == 21 {
            AssetType::Gesture
        } else if value == 22 {
            AssetType::Simstate
        } else if value == 23 {
            AssetType::FavoriteFolder
        } else if value == 24 {
            AssetType::Link
        } else if value == 25 {
            AssetType::LinkFolder
        } else if value == 46 {
            AssetType::MarketplaceFolder
        } else if value == 49 {
            AssetType::Mesh
        } else if value == 56 {
            AssetType::Settings
        } else if value == 57 {
            AssetType::Material
        } else {
            AssetType::Object
        }
    }
}

impl vstd::std_specs::convert::FromSpecImpl<u8> for AssetType {
    open spec fn obeys_from_spec() -> bool {
        true
    }

    open spec fn from_spec(v: u8) -> AssetType {
        asset_type_from_code(v)
    }
}

/// Reading back the code of an asset type gives the type; reading a known
/// code and writing it again gives the code.
pub proof fn lemma_asset_type_code_roundtrip(t: AssetType, v: u8)
    ensures
        asset_type_from_code(asset_type_code(t)) == t,
        is_asset_type_code(asset_type_code(t)),
        is_asset_type_code(v) ==> asset_type_code(asset_type_from_code(v)) == v,
        !is_asset_type_code(v) ==> asset_type_from_code(v) == AssetType::Object,
{
}

/// Image formats of textures.
#[derive(Debug, Clone, Copy, PartialEq, Eq)]
pub enum TextureFormat {
    J2C,
    TGA,
    JPEG,
    BMP,
    PNG,
}

/// Whether `d` begins with `p`.
pub open spec fn starts_with_bytes(d: Seq<u8>, p: Seq<u8>) -> bool {
    d.len() >= p.len() && d.take(p.len() as int) == p
}

/// The texture format that the first bytes of `d` announce.
pub open spec fn texture_format_of(d: Seq<u8>) -> Option<TextureFormat> {
    if d.len() < 4 {
        None
    } else if starts_with_bytes(d, seq![0x00u8, 0x00, 0x00, 0x0C, 0x6A, 0x50, 0x20, 0x20]) {
        Some(TextureFormat::J2C)
    } else if starts_with_bytes(d, seq![0xFFu8, 0xD8, 0xFF]) {
        Some(TextureFormat::JPEG)
    } else if starts_with_bytes(d, seq![0x89u8, 0x50, 0x4E, 0x47, 0x0D, 0x0A, 0x1A, 0x0A]) {
        Some(TextureFormat::PNG)
    } else if d.len() >= 18 && d[2] == 2 {
        Some(TextureFormat::TGA)
    } else if starts_with_bytes(d, seq![0x42u8, 0x4D]) {
        Some(TextureFormat::BMP)
    } else {
        None
    }
}

/// Whether `d` begins with the bytes of `p` (`<[u8]>::starts_with`).
pub fn bytes_start_with(d: &[u8], p: &[u8]) -> (b: bool)
    ensures
        b == starts_with_bytes(d@, p@),
{
    if d.len() < p.len() {
        return false;
    }
    let mut i: usize = 0;
    while i < p.len()
        invariant
            i <= p.len() <= d.len(),
            forall|k: int| 0 <= k < i ==> d@[k] == p@[k],
        decreases p.len() - i,
    {
        if d[i] != p[i] {
            assert(d@.take(p.len() as int)[i as int] != p@[i as int]);
            return false;
        }
        i = i + 1;
    }
    assert(d@.take(p.len() as int) =~= p@);
    true
}

impl TextureFormat {
    /// The file extension of the format.
    pub fn extension(&self) -> (e: &'static str)
        ensures
            e@ == (match *self {
                TextureFormat::J2C => "j2c"@,
                TextureFormat::TGA => "tga"@,
                TextureFormat::JPEG => "jpg"@,
                TextureFormat::BMP => "bmp"@,
                TextureFormat::PNG => "png"@,
            }),
    {
        match self {
            TextureFormat::J2C => "j2c",
            TextureFormat::TGA => "tga",
            TextureFormat::JPEG => "jpg",
            TextureFormat::BMP => "bmp",
            TextureFormat::PNG => "png",
        }
    }

    /// Recognizes the format by its signature: JPEG 2000 codestream, JPEG,
    /// PNG, then Targa (image type 2 in a header of at least 18 bytes), then
    /// BMP.
    pub fn detect_from_header(data: &[u8]) -> (f: Option<Self>)
        ensures
            f == texture_format_of(data@),
    {
        if data.len() < 4 {
            return None;
        }
        let j2c: [u8; 8] = [0x00, 0x00, 0x00, 0x0C, 0x6A, 0x50, 0x20, 0x20];
        assert(j2c@ =~= seq![0x00u8, 0x00, 0x00, 0x0C, 0x6A, 0x50, 0x20, 0x20]);
        if bytes_start_with(data, j2c.as_slice()) {
            return Some(TextureFormat::J2C);
        }
        let jpeg: [u8; 3] = [0xFF, 0xD8, 0xFF];
        assert(jpeg@ =~= seq![0xFFu8, 0xD8, 0xFF]);
        if bytes_start_with(data, jpeg.as_slice()) {
            return Some(TextureFormat::JPEG);
        }
        let png: [u8; 8] = [0x89, 0x50, 0x4E, 0x47, 0x0D, 0x0A, 0x1A, 0x0A];
        assert(png@ =~= seq![0x89u8, 0x50, 0x4E, 0x47, 0x0D, 0x0A, 0x1A, 0x0A]);
        if bytes_start_with(data, png.as_slice()) {
            return Some(TextureFormat::PNG);
        }
        if data.len() >= 18 && data[2] == 2 {
            return Some(TextureFormat::TGA);
        }
        let bmp: [u8; 2] = [0x42, 0x4D];
        assert(bmp@ =~= seq![0x42u8, 0x4D]);
        if bytes_start_with(data, bmp.as_slice()) {
            return Some(TextureFormat::BMP);
        }
        None
    }
}

/// Mesh formats.
#[derive(Debug, Clone, Copy, PartialEq, Eq)]
pub enum MeshFormat {
    LLSD,
    DAE,
    OBJ,
}

impl MeshFormat {
    /// The file extension of the format.
    pub fn extension(&self) -> (e: &'static str)
        ensures
            e@ == (match *self {
                MeshFormat::LLSD => "llsd"@,
                MeshFormat::DAE => "dae"@,
                MeshFormat::OBJ => "obj"@,
            }),
    {
        match self {
            MeshFormat::LLSD => "llsd",
            MeshFormat::DAE => "dae",
            MeshFormat::OBJ => "obj",
        }
    }
}

/// Sound formats.
#[derive(Debug, Clone, Copy, PartialEq, Eq)]
pub enum SoundFormat {
    WAV,
    OGG,
    MP3,
}

/// The sound format that the first bytes of `d` announce.
pub open spec fn sound_format_of(d: Seq<u8>) -> Option<SoundFormat> {
    if d.len() < 4 {
        None
    } else if starts_with_bytes(d, seq![0x52u8, 0x49, 0x46, 0x46]) && d.len() >= 12
        && d.subrange(8, 12) == seq![0x57u8, 0x41, 0x56, 0x45] {
        Some(SoundFormat::WAV)
    } else if starts_with_bytes(d, seq![0x4Fu8, 0x67, 0x67, 0x53]) {
        Some(SoundFormat::OGG)
    } else if starts_with_bytes(d, seq![0x49u8, 0x44, 0x33]) || (d[0] == 0xFF && (d[1] & 0xE0)
        == 0xE0) {
        Some(SoundFormat::MP3)
    } else {
        None
    }
}

impl SoundFormat {
    /// The file extension of the format.
    pub fn extension(&self) -> (e: &'static str)
        ensures
            e@ == (match *self {
                SoundFormat::WAV => "wav"@,
                SoundFormat::OGG => "ogg"@,
                SoundFormat::MP3 => "mp3"@,
            }),
    {
        match self {
            SoundFormat::WAV => "wav",
            SoundFormat::OGG => "ogg",
            SoundFormat::MP3 => "mp3",
        }
    }

    /// Recognizes the format by its signature: `RIFF`…`WAVE`, `OggS`, then
    /// an `ID3` tag or an MPEG frame sync.
    pub fn detect_from_header(data: &[u8]) -> (f: Option<Self>)
        ensures
            f == sound_format_of(data@),
    {
        if data.len() < 4 {
            return None;
        }
        let riff: [u8; 4] = [0x52, 0x49, 0x46, 0x46];
        assert(riff@ =~= seq![0x52u8, 0x49, 0x46, 0x46]);
        if bytes_start_with(data, riff.as_slice()) && data.len() >= 12 {
            let wave: [u8; 4] = [0x57, 0x41, 0x56, 0x45];
            assert(wave@ =~= seq![0x57u8, 0x41, 0x56, 0x45]);
            let tail = crate::bytes_util::copy_bytes(data, 8, 12);
            if bytes_start_with(tail.as_slice(), wave.as_slice()) {
                assert(tail@.take(4) =~= tail@);
                return Some(SoundFormat::WAV);
            }
            assert(tail@.take(4) =~= tail@);
        }
        let ogg: [u8; 4] = [0x4F, 0x67, 0x67, 0x53];
        assert(ogg@ =~= seq![0x4Fu8, 0x67, 0x67, 0x53]);
        if bytes_start_with(data, ogg.as_slice()) {
            return Some(SoundFormat::OGG);
        }
        let id3: [u8; 3] = [0x49, 0x44, 0x33];
        assert(id3@ =~= seq![0x49u8, 0x44, 0x33]);
        if bytes_start_with(data, id3.as_slice()) || (data[0] == 0xFF && (data[1] & 0xE0) == 0xE0) {
            return Some(SoundFormat::MP3);
        }
        None
    }
}

/// What may be done with an asset.
#[derive(Debug, Clone, Copy, PartialEq, Eq)]
pub struct AssetPermissions {
    pub can_copy: bool,
    pub can_modify: bool,
    pub can_transfer: bool,
    pub can_damage: bool,
    pub can_fly: bool,
    pub can_push: bool,
    pub can_build: bool,
    pub can_terraform: bool,
    pub can_run_script: bool,
    pub can_deed: bool,
}

impl Default for AssetPermissions {
    fn default() -> (p: Self)
        ensures
            p.can_copy && !p.can_modify && p.can_transfer && !p.can_damage && p.can_fly
                && !p.can_push && !p.can_build && !p.can_terraform && !p.can_run_script
                && !p.can_deed,
    {
        AssetPermissions {
            can_copy: true,
            can_modify: false,
            can_transfer: true,
            can_damage: false,
            can_fly: true,
            can_push: false,
            can_build: false,
            can_terraform: false,
            can_run_script: false,
            can_deed: false,
        }
    }
}

/// Counters of asset transfers.
#[derive(Debug, Clone, Copy)]
pub struct TransferStats {
    pub total_requests: u64,
    pub successful_transfers: u64,
    pub failed_transfers: u64,
    pub cached_hits: u64,
    pub http_transfers: u64,
    pub udp_transfers: u64,
    pub bytes_transferred: u64,
    pub average_transfer_time: Duration,
}

impl Default for TransferStats {
    fn default() -> (s: Self)
        ensures
            s.total_requests == 0 && s.successful_transfers == 0 && s.failed_transfers == 0
                && s.cached_hits == 0 && s.http_transfers == 0 && s.udp_transfers == 0
                && s.bytes_transferred == 0,
    {
        TransferStats {
            total_requests: 0,
            successful_transfers: 0,
            failed_transfers: 0,
            cached_hits: 0,
            http_transfers: 0,
            udp_transfers: 0,
            bytes_transferred: 0,
            average_transfer_time: duration_from_secs(0),
        }
    }
}

/// A server that assets can be fetched from.
#[derive(Debug)]
pub struct AssetServer {
    pub name: String,
    pub base_url: String,
    pub capabilities: HashMap<String, String>,
    pub priority: i32,
    pub max_concurrent_transfers: usize,
    pub timeout: Duration,
}

/// A transfer waiting in the queue.
#[derive(Debug)]
pub struct QueuedTransfer {
    pub asset_id: [u8; 16],
    pub asset_type: AssetType,
    pub priority: AssetPriority,
    pub requested_at: Instant,
    pub retry_count: u32,
    pub max_retries: u32,
}

impl QueuedTransfer {
    /// A fresh request, allowed three retries.
    pub fn new(asset_id: [u8; 16], asset_type: AssetType, priority: AssetPriority) -> (q: Self)
        ensures
            q.asset_id == asset_id,
            q.asset_type == asset_type,
            q.priority == priority,
            q.retry_count == 0,
            q.max_retries == 3,
    {
        QueuedTransfer {
            asset_id,
            asset_type,
            priority,
            requested_at: instant_now(),
            retry_count: 0,
            max_retries: 3,
        }
    }

    /// Whether the retries allowed have been used up.
    pub fn has_exceeded_retries(&self) -> (b: bool)
        ensures
            b <==> self.retry_count >= self.max_retries,
    {
        self.retry_count >= self.max_retries
    }

    /// Counts one more retry.
    pub fn increment_retry(&mut self)
        requires
            old(self).retry_count < u32::MAX,
        ensures
            final(self).retry_count == old(self).retry_count + 1,
            final(self).max_retries == old(self).max_retries,
            final(self).asset_id == old(self).asset_id,
            final(self).asset_type == old(self).asset_type,
            final(self).priority == old(self).priority,
    {
        self.retry_count = self.retry_count + 1;
    }

    /// How long the request has waited.
    pub fn age(&self) -> Duration {
        instant_elapsed(&self.requested_at)
    }
}

/// Settings of asset transfers.
#[derive(Debug, Clone, Copy)]
pub struct AssetTransferConfig {
    pub max_concurrent_http: usize,
    pub max_concurrent_udp: usize,
    pub http_timeout: Duration,
    pub udp_timeout: Duration,
    pub max_retries: u32,
    pub retry_delay: Duration,
    pub cache_size_mb: usize,
    pub aggressive_caching: bool,
    /// Bytes per second; 0 means no limit.
    pub bandwidth_limit: usize,
}

impl Default for AssetTransferConfig {
    fn default() -> (c: Self)
        ensures
            c.max_concurrent_http == 8,
            c.max_concurrent_udp == 4,
            c.max_retries == 3,
            c.cache_size_mb == 100,
            c.aggressive_caching,
            c.bandwidth_limit == 0,
    {
        AssetTransferConfig {
            max_concurrent_http: 8,
            max_concurrent_udp: 4,
            http_timeout: duration_from_secs(30),
            udp_timeout: duration_from_secs(60),
            max_retries: 3,
            retry_delay: duration_from_secs(2),
            cache_size_mb: 100,
            aggressive_caching: true,
            bandwidth_limit: 0,
        }
    }
}

} // verus!
