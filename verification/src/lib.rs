//! Verified core of the client: the NBT data format, console log-level
//! configuration, process-statistics parsing and assorted decision logic.

pub mod bytes;
pub mod console;
pub mod item;
pub mod logo;
pub mod nbt;
pub mod player;
pub mod server_list;
pub mod sysinfo;
pub mod text;
pub mod veh;

