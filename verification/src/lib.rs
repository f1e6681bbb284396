//! Baluchon, the manager of the portable applications on a USB drive: what it
//! decides and what it says.
//!
//! The library touches neither files nor programs. It names what is to be done
//! and takes what came of it:
//!
//! - `drive` looks for the drive, probe by probe;
//! - `catalog` holds the applications of the drive;
//! - `shortcut` plans how shortcuts are installed and removed and applications
//!   launched, and `plan` carries such plans out, step by step;
//! - `setup` runs a setup script, and `progress` follows what it prints;
//! - `desk` is the main window, `panel` what the panels show, `strings` the
//!   texts of both, `icon` their pictures;
//! - `clock`, `scan` and `text` are shared by the others, and `laws` states
//!   what holds of several of them together.
pub mod catalog;
pub mod clock;
pub mod desk;
pub mod drive;
pub mod icon;
pub mod laws;
pub mod panel;
pub mod plan;
pub mod progress;
pub mod scan;
pub mod setup;
pub mod shortcut;
pub mod strings;
pub mod text;
