//! What the example components show.

pub mod flatpak;
