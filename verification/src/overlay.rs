use vstd::prelude::*;

use crate::ipc::IpcCommand;
use crate::text::{concat_str, decimal, decimal_string};

verus! {

// ---------------------------------------------------------------------------
// Layout
// ---------------------------------------------------------------------------

/// Width in pixels of the overlay for a layout preset; unknown presets get
/// the Basic width.
pub open spec fn preset_width_of(preset: i32) -> u32 {
    if preset == 1 {
        820
    } else if preset == 2 {
        660
    } else if preset == 3 {
        160
    } else {
        430
    }
}

/// Width in pixels of the overlay for a layout preset (0 Basic, 1 Advanced,
/// 2 Bandwidth & Streaming, 3 FPS only).
pub fn get_preset_width(preset: i32) -> (r: u32)
    ensures
        r == preset_width_of(preset),
{
    match preset {
        0 => 430,
        1 => 820,
        2 => 660,
        3 => 160,
        _ => 430,
    }
}

/// Gap in pixels between the overlay and the right screen edge.
pub const RIGHT_MARGIN: u32 = 16;

/// Distance in pixels of the overlay from the top of the screen.
pub const TOP_OFFSET: i32 = 48;

/// Horizontal position of an overlay of width `overlay_width` docked at the
/// top right of a screen `screen_width` pixels wide: `RIGHT_MARGIN` pixels
/// from the right edge, never left of 0, and at most `i32::MAX`.
pub open spec fn overlay_x_of(screen_width: int, overlay_width: int) -> int {
    let x = screen_width - overlay_width - RIGHT_MARGIN;
    if x < 0 {
        0
    } else if x > i32::MAX {
        i32::MAX as int
    } else {
        x
    }
}

/// Horizontal position of the docked overlay.
pub fn overlay_x(screen_width: u32, overlay_width: u32) -> (r: i32)
    ensures
        r == overlay_x_of(screen_width as int, overlay_width as int),
{
    let need = overlay_width as u64 + RIGHT_MARGIN as u64;
    if (screen_width as u64) <= need {
        0
    } else {
        let x = screen_width as u64 - need;
        if x > i32::MAX as u64 {
            i32::MAX
        } else {
            x as i32
        }
    }
}

// ---------------------------------------------------------------------------
// Command state machine
// ---------------------------------------------------------------------------

/// Number of layout presets.
pub const PRESET_COUNT: i32 = 4;

/// The preset that follows `p` when cycling.
pub open spec fn next_preset(p: int) -> int {
    (p + 1) % (PRESET_COUNT as int)
}

/// The overlay state after `cmd`: (visible, preset).
pub open spec fn step(s: (bool, int), cmd: IpcCommand) -> (bool, int) {
    match cmd {
        IpcCommand::Toggle => (!s.0, s.1),
        IpcCommand::Cycle => (s.0, next_preset(s.1)),
        _ => s,
    }
}

/// The text of a boolean as `format!("{}", b)` writes it.
pub open spec fn bool_text(b: bool) -> Seq<char> {
    if b {
        seq!['t', 'r', 'u', 'e']
    } else {
        seq!['f', 'a', 'l', 's', 'e']
    }
}

/// The handler's answer to `cmd` in state `s`; `None` for `Quit`, which ends
/// the process instead of answering.
pub open spec fn reply_of(s: (bool, int), cmd: IpcCommand) -> Option<Seq<char>> {
    match cmd {
        IpcCommand::Toggle => Some("Toggled overlay to "@ + bool_text(!s.0)),
        IpcCommand::Cycle => Some("Cycled preset to "@ + decimal(next_preset(s.1) as nat)),
        IpcCommand::Quit => None,
        IpcCommand::Settings => Some("Settings not implemented in Slint edition"@),
        IpcCommand::Ping => Some("PONG"@),
    }
}

/// What the user interface does after a command.
#[derive(Debug, Clone, Copy, PartialEq, Eq, Structural)]
pub enum OverlayEffect {
    /// Nothing changes on screen.
    Nothing,
    /// Show (`true`) or hide (`false`) the overlay.
    SetVisible(bool),
    /// Switch to the given preset: lay it out, dock it and keep it on top.
    ApplyPreset(i32),
    /// End the process.
    Exit,
}

/// The effect of `cmd` in state `s`.
pub open spec fn effect_of(s: (bool, int), cmd: IpcCommand) -> OverlayEffect {
    match cmd {
        IpcCommand::Toggle => OverlayEffect::SetVisible(!s.0),
        IpcCommand::Cycle => OverlayEffect::ApplyPreset(next_preset(s.1) as i32),
        IpcCommand::Quit => OverlayEffect::Exit,
        _ => OverlayEffect::Nothing,
    }
}

/// Whether the overlay is shown, and its layout preset.
pub struct OverlayState {
    visible: bool,
    preset: i32,
}

impl View for OverlayState {
    type V = (bool, int);

    closed spec fn view(&self) -> (bool, int) {
        (self.visible, self.preset as int)
    }
}

/// A valid overlay state: the preset is one of the `PRESET_COUNT` presets.
pub open spec fn state_ok(s: (bool, int)) -> bool {
    0 <= s.1 < PRESET_COUNT
}

/// The result of one command: the next state, the effect on screen and the
/// handler's answer.
pub struct CommandOutcome {
    pub state: OverlayState,
    pub effect: OverlayEffect,
    pub reply: Option<String>,
}

impl OverlayState {
    #[verifier::type_invariant]
    spec fn inv(self) -> bool {
        0 <= self.preset < PRESET_COUNT
    }

    /// The state at start-up: visible, Basic preset.
    pub fn new() -> (r: Self)
        ensures
            r@ == (true, 0int),
    {
        OverlayState { visible: true, preset: 0 }
    }

    /// Whether the overlay is shown.
    pub fn visible(&self) -> (r: bool)
        ensures
            r == self@.0,
    {
        self.visible
    }

    /// The current layout preset.
    pub fn preset(&self) -> (r: i32)
        ensures
            r == self@.1,
            state_ok(self@),
    {
        proof {
            use_type_invariant(self);
        }
        self.preset
    }

    /// Applies one IPC command: toggling flips visibility, cycling moves to the
    /// next preset, quitting ends the process, the rest change nothing.
    pub fn handle_command(&self, cmd: IpcCommand) -> (r: CommandOutcome)
        ensures
            r.state@ == step(self@, cmd),
            r.effect == effect_of(self@, cmd),
            match r.reply {
                Some(t) => reply_of(self@, cmd) == Some(t@),
                None => reply_of(self@, cmd) is None,
            },
    {
        proof {
            use_type_invariant(self);
        }
        match cmd {
            IpcCommand::Toggle => {
                let v = !self.visible;
                let word = if v {
                    proof {
                        reveal_strlit("true");
                    }
                    "true"
                } else {
                    proof {
                        reveal_strlit("false");
                    }
                    "false"
                };
                let reply = concat_str("Toggled overlay to ", word);
                CommandOutcome {
                    state: OverlayState { visible: v, preset: self.preset },
                    effect: OverlayEffect::SetVisible(v),
                    reply: Some(reply),
                }
            },
            IpcCommand::Cycle => {
                let p = (self.preset + 1) % PRESET_COUNT;
                let digits = decimal_string(p as u32);
                let reply = concat_str("Cycled preset to ", digits.as_str());
                CommandOutcome {
                    state: OverlayState { visible: self.visible, preset: p },
                    effect: OverlayEffect::ApplyPreset(p),
                    reply: Some(reply),
                }
            },
            IpcCommand::Quit => CommandOutcome {
                state: OverlayState { visible: self.visible, preset: self.preset },
                effect: OverlayEffect::Exit,
                reply: None,
            },
            IpcCommand::Settings => CommandOutcome {
                state: OverlayState { visible: self.visible, preset: self.preset },
                effect: OverlayEffect::Nothing,
                reply: Some("Settings not implemented in Slint edition".to_owned()),
            },
            IpcCommand::Ping => CommandOutcome {
                state: OverlayState { visible: self.visible, preset: self.preset },
                effect: OverlayEffect::Nothing,
                reply: Some("PONG".to_owned()),
            },
        }
    }
}

// ---------------------------------------------------------------------------
// Laws
// ---------------------------------------------------------------------------

/// Law: every command keeps the preset among the valid presets.
pub proof fn law_step_keeps_state_ok(s: (bool, int), cmd: IpcCommand)
    requires
        state_ok(s),
    ensures
        state_ok(step(s, cmd)),
{
}

/// Law: cycling moves to the next preset, wrapping after the last, whether
/// the overlay is shown or hidden; it keeps the visibility, and the effect
/// and the answer name the preset that the state now holds.
pub proof fn law_cycle_advances(s: (bool, int))
    requires
        state_ok(s),
    ensures
        step(s, IpcCommand::Cycle).0 == s.0,
        step(s, IpcCommand::Cycle).1 == (if s.1 == 3 {
            0
        } else {
            s.1 + 1
        }),
        effect_of(s, IpcCommand::Cycle) == OverlayEffect::ApplyPreset(
            step(s, IpcCommand::Cycle).1 as i32,
        ),
        reply_of(s, IpcCommand::Cycle) == Some(
            "Cycled preset to "@ + decimal(step(s, IpcCommand::Cycle).1 as nat),
        ),
{
}

/// Law: toggling flips the visibility and keeps the preset; the effect and
/// the answer name the new visibility.
pub proof fn law_toggle_flips(s: (bool, int))
    ensures
        step(s, IpcCommand::Toggle) == (!s.0, s.1),
        effect_of(s, IpcCommand::Toggle) == OverlayEffect::SetVisible(step(s, IpcCommand::Toggle).0),
        reply_of(s, IpcCommand::Toggle) == Some(
            "Toggled overlay to "@ + bool_text(step(s, IpcCommand::Toggle).0),
        ),
{
}

/// Law: toggling twice restores the state.
pub proof fn law_toggle_twice(s: (bool, int))
    ensures
        step(step(s, IpcCommand::Toggle), IpcCommand::Toggle) == s,
{
}

/// Law: cycling through all presets returns to the starting preset.
pub proof fn law_cycle_returns(s: (bool, int))
    requires
        state_ok(s),
    ensures
        step(step(step(step(s, IpcCommand::Cycle), IpcCommand::Cycle), IpcCommand::Cycle),
            IpcCommand::Cycle) == s,
{
}

/// Law: `Settings`, `Ping` and `Quit` leave the state unchanged.
pub proof fn law_queries_keep_state(s: (bool, int))
    ensures
        step(s, IpcCommand::Settings) == s,
        step(s, IpcCommand::Ping) == s,
        step(s, IpcCommand::Quit) == s,
{
}

/// Law: the overlay never starts left of the screen and sits `RIGHT_MARGIN`
/// pixels from the right edge whenever the screen is wide enough.
pub proof fn law_overlay_docked(screen_width: u32, overlay_width: u32)
    ensures
        0 <= overlay_x_of(screen_width as int, overlay_width as int),
        screen_width >= overlay_width + RIGHT_MARGIN && screen_width - overlay_width - RIGHT_MARGIN
            <= i32::MAX ==> overlay_x_of(screen_width as int, overlay_width as int) + overlay_width
            + RIGHT_MARGIN == screen_width,
{
}

} // verus!
