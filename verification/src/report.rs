//! The run reports, as JSON trees.

pub mod barriers;
pub mod devices;
pub mod entries;
pub mod links;
pub mod modes;
pub mod phase_marks;
pub mod profile;
pub mod reflected;
pub mod smc;
pub mod stalls;
pub mod storage;
pub mod vga_wipe;
