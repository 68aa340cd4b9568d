//! Layout-change sound policy.
//!
//! Mirrors legacy `XXkb.bell.enable`, but tells manual switches (hotkey
//! or click) from automatic ones (focus change):
//!
//! * `Off`: never play;
//! * `ManualOnly`: only on manual switches;
//! * `AutoOnly`: only on automatic switches;
//! * `Both`: always.
//!
//! Playback itself needs an audio device and lives in the binary; this
//! module decides whether to play and which player to set up.

use vstd::prelude::*;

use crate::config::SoundMode;
use crate::layout::SwitchKind;
use crate::text::chars_of;

verus! {

/// What kind of switch occurred.
#[derive(Debug, Clone, Copy, PartialEq, Eq, Structural)]
pub enum Trigger {
    /// The user pressed a hotkey or clicked an indicator.
    Manual,
    /// A programmatic switch (focus change).
    Auto,
}

/// Whether a switch of kind `trigger` sounds under `mode`.
pub open spec fn plays(mode: SoundMode, trigger: Trigger) -> bool {
    match mode {
        SoundMode::Off => false,
        SoundMode::ManualOnly => trigger == Trigger::Manual,
        SoundMode::AutoOnly => trigger == Trigger::Auto,
        SoundMode::Both => true,
    }
}

/// Should a switch of kind `trigger` play a sound under `mode`?
pub fn should_play(mode: SoundMode, trigger: Trigger) -> (r: bool)
    ensures
        r == plays(mode, trigger),
{
    match (mode, trigger) {
        (SoundMode::Off, _) => false,
        (SoundMode::ManualOnly, Trigger::Manual) => true,
        (SoundMode::ManualOnly, Trigger::Auto) => false,
        (SoundMode::AutoOnly, Trigger::Manual) => false,
        (SoundMode::AutoOnly, Trigger::Auto) => true,
        (SoundMode::Both, _) => true,
    }
}

/// The trigger of a layout switch: automatic switches (on a focus
/// change) are `Auto`; keyboard, click and initial ones are `Manual`.
pub open spec fn trigger_for(kind: SwitchKind) -> Trigger {
    if kind == SwitchKind::Auto {
        Trigger::Auto
    } else {
        Trigger::Manual
    }
}

/// The trigger of a layout switch of this kind (see [`trigger_for`]).
pub fn trigger_of(kind: SwitchKind) -> (r: Trigger)
    ensures
        r == trigger_for(kind),
{
    match kind {
        SwitchKind::Auto => Trigger::Auto,
        _ => Trigger::Manual,
    }
}

/// Something that can play the switch sound.
pub trait SoundPlayer {
    /// Plays, taking mode and trigger into account.
    fn play(&self, mode: SoundMode, trigger: Trigger);
}

/// A player that never makes a sound.
#[derive(Debug, Default, Clone, Copy)]
pub struct NullPlayer;

impl SoundPlayer for NullPlayer {
    fn play(&self, mode: SoundMode, trigger: Trigger) {
    }
}

/// Which player the configuration calls for.
#[derive(Debug, Clone)]
pub enum PlayerChoice {
    /// The silent player: the configuration turns sound off.
    Silent,
    /// A player on the audio device, playing `file`, or the built-in
    /// click when there is none. Where no audio device can be opened the
    /// binary falls back to the silent player.
    Device {
        /// The sound file, if one is configured.
        file: Option<String>,
    },
}

/// Chooses the player: silent when the mode is `Off` (the audio device
/// is not touched at all), otherwise the device player with the
/// configured file, an empty path meaning the built-in click.
pub fn build_player(cfg_mode: SoundMode, cfg_file: &str) -> (r: PlayerChoice)
    ensures
        cfg_mode == SoundMode::Off ==> r is Silent,
        cfg_mode != SoundMode::Off ==> match r {
            PlayerChoice::Device { file: Some(f) } => cfg_file@.len() > 0 && f@ == cfg_file@,
            PlayerChoice::Device { file: None } => cfg_file@.len() == 0,
            PlayerChoice::Silent => false,
        },
{
    if cfg_mode == SoundMode::Off {
        return PlayerChoice::Silent;
    }
    let f = chars_of(cfg_file);
    if f.len() == 0 {
        PlayerChoice::Device { file: None }
    } else {
        PlayerChoice::Device { file: Some(cfg_file.to_owned()) }
    }
}

} // verus!
