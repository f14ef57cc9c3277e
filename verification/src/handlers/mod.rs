//! Message handlers.

pub mod login_handlers;
pub mod region_handlers;
pub mod asset_handlers;
pub mod agent_handlers;
pub mod inventory_handlers;
pub mod time_handlers;
pub mod handover_handlers;
pub mod capability_handlers;
pub mod sound_handlers;
