//! Library logic of Emulator Hub: platform detection for ROMs and emulators,
//! launch arguments, artwork lookup, update selection and Magpie profiles.
//!
//! Everything here works on plain values; the desktop shell (`app/`) performs
//! the file, database, network and window work and hands the results in.
pub mod text;
pub mod version;
pub mod digest;
pub mod update;
pub mod paths;
pub mod platform;
pub mod json;
pub mod artwork;
pub mod magpie;
pub mod library;
pub mod state;
pub mod maintenance;
pub mod files;
pub mod visuals;
