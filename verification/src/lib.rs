//! A reactive component runtime, kept apart from the widget toolkit it drives.
//!
//! Components declare a tree of the host objects they want. The runtime keeps a
//! mirror of the objects that exist and, on every render, works out what has to
//! happen to the host so that the mirror matches the new tree. Nothing here
//! touches a toolkit: every step comes out as an [`reactive::host::Effect`] in a
//! [`reactive::host::Plan`] for the embedding program to carry out.

pub mod components;
pub mod reactive;
pub mod services;
