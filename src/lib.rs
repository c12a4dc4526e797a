//! Installer logic for DesktopMate and its mods: choosing the release to
//! fetch, planning the extraction of an archive, and the state machine that
//! installs or updates a versioned component, with the laws it obeys.

pub mod archive;
pub mod console;
pub mod installer;
pub mod laws;
pub mod provision;
pub mod release;
pub mod text;
