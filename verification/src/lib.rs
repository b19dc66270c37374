//! Export of Find My accessory keys as property list files.

pub mod accessory;
pub mod account;
pub mod command_line;
pub mod device;
pub mod escrow;
pub mod file_name;
pub mod property_list;
pub mod session;
pub mod text;
