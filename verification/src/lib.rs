//! Shares the keyboards and mice of one machine with others over the network.

pub mod abs;
pub mod axes;
pub mod button;
pub mod channel;
pub mod claim;
pub mod claim_laws;
pub mod config;
pub mod config_laws;
pub mod delivery_laws;
pub mod device_laws;
pub mod devices;
pub mod entry;
pub mod event;
pub mod frame_laws;
pub mod groups;
pub mod interceptor;
pub mod inventory;
pub mod inventory_laws;
pub mod io_error;
pub mod key;
pub mod keyboard;
pub mod keyset;
pub mod listing;
pub mod listing_laws;
pub mod message;
pub mod monitor;
pub mod path;
pub mod path_laws;
pub mod pathset;
pub mod policy;
pub mod policy_laws;
pub mod rel;
pub mod routing;
pub mod routing_laws;
pub mod scan;
pub mod scan_laws;
pub mod server;
pub mod server_laws;
pub mod session;
pub mod session_laws;
pub mod slots;
pub mod text;
pub mod text_laws;
pub mod update;
pub mod writer;
