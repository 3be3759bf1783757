//! The headless front end of the IzarraVM emulator.

pub mod audio;
pub mod console;
pub mod document;
pub mod fnv;
pub mod inject;
pub mod json;
pub mod keyboard;
pub mod launch;
pub mod lines;
pub mod midi;
pub mod mouse;
pub mod order;
pub mod picture;
pub mod preflight;
pub mod prefs;
pub mod ranking;
pub mod report;
pub mod rip_report;
pub mod riprofile;
pub mod run;
pub mod screendump;
pub mod screenshot;
pub mod startup;
pub mod stop;
pub mod suite;
pub mod summary;
pub mod switches;
pub mod text;
pub mod totals;
