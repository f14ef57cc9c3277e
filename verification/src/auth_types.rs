//! Records that a login response carries: home, buddies, flags, premium
//! benefits, library and outfit items, gestures and viewer settings.

use vstd::prelude::*;
use std::collections::HashMap;
use crate::sl_compatibility::Vec3Bits;

verus! {

/// A region by its grid coordinates.
#[derive(Debug, Clone, Copy, PartialEq, Eq)]
pub struct RegionHandle {
    pub x: i32,
    pub y: i32,
}

impl RegionHandle {
    /// The region at grid coordinates `x`, `y`.
    pub fn new(x: i32, y: i32) -> (h: Self)
        ensures
            h == (RegionHandle { x, y }),
    {
        RegionHandle { x, y }
    }
}

/// Home location information
#[derive(Debug, Clone)]
pub struct HomeInfo {
    pub region_handle: RegionHandle,
    pub position: Vec3Bits,
    pub look_at: Vec3Bits,
}

/// Inventory folder information
#[derive(Debug, Clone)]
pub struct InventoryFolder {
    pub folder_id: Option<String>,
    pub name: Option<String>,
    pub parent_id: Option<String>,
    pub type_default: Option<u32>,
    pub version: Option<u32>,
}

/// Buddy list information
#[derive(Debug, Clone)]
pub struct BuddyInfo {
    pub buddy_id: Option<String>,
    pub buddy_rights_has: Option<u32>,
    pub buddy_rights_given: Option<u32>,
}

/// Login flag information
#[derive(Debug, Clone)]
pub struct LoginFlag {
    pub stipend_since_login: Option<String>,
    pub ever_logged_in: Option<String>,
    pub gendered: Option<String>,
    pub daylight_savings: Option<String>,
}

/// Premium package information
#[derive(Debug, Clone)]
pub struct PremiumPackage {
    pub benefits: Option<PremiumPackageBenefits>,
    pub description: Option<PackageDescription>,
}

/// Premium package benefits
#[derive(Debug, Clone)]
pub struct PremiumPackageBenefits {
    pub animated_object_limit: Option<u32>,
    pub animation_upload_cost: Option<u32>,
    pub attachment_limit: Option<u32>,
    pub beta_grid_land: Option<u32>,
    pub create_group_cost: Option<u32>,
    pub create_repeating_events: Option<u32>,
    pub estate_access_token: Option<String>,
    pub gridwide_experience_limit: Option<u32>,
    pub group_membership_limit: Option<u32>,
    pub land_auctions_allowed: Option<u32>,
    pub lastname_change_allowed: Option<u32>,
    pub lastname_change_cost: Option<u32>,
    pub lastname_change_rate: Option<u32>,
    pub linden_buy_fee: Option<u32>,
    pub linden_homes: Option<Vec<String>>,
    pub live_chat: Option<u32>,
    pub local_experiences: Option<u32>,
    pub mainland_tier: Option<u32>,
    pub marketplace_concierge_support: Option<u32>,
    pub marketplace_listing_limit: Option<u32>,
    pub marketplace_ple_limit: Option<u32>,
    pub mesh_upload_cost: Option<u32>,
    pub object_account_level: Option<u32>,
    pub one_time_event_allowed: Option<u32>,
    pub one_time_event_cost: Option<u32>,
    pub partner_fee: Option<u32>,
    pub phone_support: Option<u32>,
    pub picks_limit: Option<u32>,
    pub place_pages: Option<PlacePages>,
    pub premium_access: Option<u32>,
    pub premium_alts: Option<u32>,
    pub premium_gifts: Option<u32>,
    pub priority_entry: Option<u32>,
    pub repeating_events_cost: Option<u32>,
    pub script_limit: Option<u32>,
    pub signup_bonus: Option<u32>,
    pub sound_upload_cost: Option<u32>,
    pub stipend: Option<u32>,
    pub stored_im_limit: Option<u32>,
    pub large_texture_upload_cost: Option<Vec<u32>>,
    pub texture_upload_cost: Option<u32>,
    pub transaction_history_limit: Option<u32>,
    pub unpartner_fee: Option<u32>,
    pub use_animesh: Option<u32>,
    pub voice_morphing: Option<u32>,
}

/// Place pages information
#[derive(Debug, Clone)]
pub struct PlacePages {
    pub additional_listing_cost: Option<u32>,
    pub num_free_listings: Option<u32>,
}

/// Package description
#[derive(Debug, Clone)]
pub struct PackageDescription {
    pub name: Option<HashMap<String, String>>,
}

/// Library owner information
#[derive(Debug, Clone)]
pub struct LibraryOwner {
    pub agent_id: Option<String>,
}

/// Inventory item information
#[derive(Debug, Clone)]
pub struct InventoryItem {
    pub item_id: Option<String>,
    pub name: Option<String>,
    pub desc: Option<String>,
    pub asset_id: Option<String>,
    pub inv_type: Option<u32>,
    pub type_: Option<u32>,
    pub flags: Option<u32>,
    pub sale_type: Option<u32>,
    pub sale_price: Option<u32>,
    pub permissions: Option<ItemPermissions>,
}

/// Item permissions
#[derive(Debug, Clone)]
pub struct ItemPermissions {
    pub base_mask: Option<u32>,
    pub owner_mask: Option<u32>,
    pub group_mask: Option<u32>,
    pub everyone_mask: Option<u32>,
    pub next_owner_mask: Option<u32>,
    pub creator_id: Option<String>,
    pub owner_id: Option<String>,
    pub last_owner_id: Option<String>,
    pub group_id: Option<String>,
}

/// Outfit item information
#[derive(Debug, Clone)]
pub struct OutfitItem {
    pub folder_name: Option<String>,
    pub gender: Option<String>,
}

/// Gesture information
#[derive(Debug, Clone)]
pub struct Gesture {
    pub item_id: Option<String>,
    pub asset_id: Option<String>,
}

/// Display name configuration
#[derive(Debug, Clone)]
pub struct DisplayNameConfig {
    pub display_name_enabled: Option<bool>,
    pub display_name_update_max_time: Option<u32>,
}

/// Event category information
#[derive(Debug, Clone)]
pub struct EventCategory {
    pub category_id: Option<u32>,
    pub category_name: Option<String>,
}

/// Event notification information
#[derive(Debug, Clone)]
pub struct EventNotification {
    pub event_id: Option<u32>,
    pub event_name: Option<String>,
}

/// Classified category information
#[derive(Debug, Clone)]
pub struct ClassifiedCategory {
    pub category_id: Option<u32>,
    pub category_name: Option<String>,
}

/// New user configuration
#[derive(Debug, Clone)]
pub struct NewUserConfig {
    pub max_spins: Option<u32>,
    pub tutorial_url: Option<String>,
}

/// UI configuration
#[derive(Debug, Clone)]
pub struct UiConfig {
    pub allow_first_life: Option<bool>,
    pub allow_mature_publish: Option<bool>,
}

/// Voice configuration
#[derive(Debug, Clone)]
pub struct VoiceConfig {
    pub voice_server_type: Option<String>,
}

/// Tutorial configuration
#[derive(Debug, Clone)]
pub struct TutorialConfig {
    pub tutorial_url: Option<String>,
}

/// Global texture information
#[derive(Debug, Clone)]
pub struct GlobalTexture {
    pub sun_texture_id: Option<String>,
    pub moon_texture_id: Option<String>,
    pub cloud_texture_id: Option<String>,
}

} // verus!
