//! Verified core of xxkb: a per-window keyboard layout indicator and
//! switcher for X11.
//!
//! Everything here is data transformation on plain values: the layout
//! state machine, the per-window registry, application rules, monitor
//! bookkeeping, indicator placement, configuration validation and
//! editing, the legacy `~/.xxkbrc` migrator, border drawing and the
//! daemon's event decisions. The X11, D-Bus, GUI, file and audio
//! plumbing lives in the companion binary crate.

pub mod layout;
pub mod geometry;
pub mod ordered_map;
pub mod monitors;
pub mod registry;
pub mod glob;
pub mod rules;
pub mod text;
pub mod config;
pub mod validation;
pub mod editor;
pub mod migrate;
pub mod pixels;
pub mod border;
pub mod bundle;
pub mod paths;
pub mod icons;
pub mod sound;
pub mod events;
pub mod wire;
pub mod daemon;
pub mod mock;
