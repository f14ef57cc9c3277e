pub mod text;
pub mod template_parser;
pub mod bytes_util;
pub mod uuid_text;
pub mod region_handshake;
pub mod sl_compatibility;
pub mod net_addr;
pub mod error;
pub mod socks5;
pub mod transparent;
pub mod proxy;
pub mod state_machine;
pub mod handshake;
pub mod auth;
pub mod xmlrpc;
pub mod time_util;
pub mod assets;
pub mod effects;
pub mod packet_types;
pub mod packets;
pub mod handlers;
pub mod capabilities;
pub mod auth_types;
pub mod status;
pub mod llsd;
pub mod login_flow;
pub mod reliability;
pub mod asset_cache;
pub mod message_codec;
pub mod ping;
pub mod circuit;
pub mod session;
pub mod handover;
pub mod xml_tree;
pub mod xmlrpc_response;
pub mod event_queue;
pub mod asset_manager;
pub mod handler_registry;
pub mod login_fields;
