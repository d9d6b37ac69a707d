//! The button (GP15, pulled up, so pressed reads low) and what it drives:
//! the LED on the wifi chip and, in the sending example, a one-byte UDP
//! message to a fixed endpoint. A press turns the LED on and sends `[1]`; the
//! release turns it off and sends `[0]`; after each, the button is left alone
//! for a debounce delay.

use vstd::prelude::*;
use crate::network::{Endpoint, Ipv4Address};

verus! {

/// The wifi chip's GPIO that drives the on-board LED.
pub const LED_GPIO: u8 = 0;

/// Milliseconds the button is left alone after each change.
pub const DEBOUNCE_MS: u64 = 100;

/// Milliseconds between the LED's changes in the blinking example.
pub const BLINK_INTERVAL_MS: u64 = 1000;

/// The message sent when the button is pressed.
pub const ON: [u8; 1] = [1];

/// The message sent when the button is released.
pub const OFF: [u8; 1] = [0];

/// Where the sending example sends its messages: 192.168.1.50, port 47900.
pub fn remote_endpoint() -> (e: Endpoint)
    ensures
        e == (Endpoint { address: Ipv4Address(192, 168, 1, 50), port: 47900 }),
{
    Endpoint { address: Ipv4Address(192, 168, 1, 50), port: 47900 }
}

/// The sending example's own static address and port: 192.168.1.49, port
/// 47901.
pub fn local_endpoint() -> (e: Endpoint)
    ensures
        e == (Endpoint { address: Ipv4Address(192, 168, 1, 49), port: 47901 }),
{
    Endpoint { address: Ipv4Address(192, 168, 1, 49), port: 47901 }
}

/// A level of the button's input pin.
#[derive(Clone, Copy, Debug, PartialEq, Eq, Structural)]
pub enum Level {
    Low,
    High,
}

/// What the button loop waits for.
#[derive(Clone, Copy, Debug, PartialEq, Eq, Structural)]
pub enum ButtonPhase {
    /// The button is up; waiting for a press.
    AwaitPress,
    /// The button is down; waiting for the release.
    AwaitRelease,
}

/// What to do once the awaited level is reached.
#[derive(Clone, Copy, Debug, PartialEq, Eq)]
pub struct ButtonReaction {
    /// What to wait for next.
    pub next: ButtonPhase,
    /// The LED's new state.
    pub led_on: bool,
    /// The message to send.
    pub message: [u8; 1],
    /// How long to leave the button alone afterwards, in milliseconds.
    pub debounce_ms: u64,
}

/// The phase the button loop starts in.
pub fn button_start() -> (phase: ButtonPhase)
    ensures
        phase == ButtonPhase::AwaitPress,
{
    ButtonPhase::AwaitPress
}

/// The level a phase waits for: low for a press, high for the release.
pub open spec fn awaited(phase: ButtonPhase) -> Level {
    match phase {
        ButtonPhase::AwaitPress => Level::Low,
        ButtonPhase::AwaitRelease => Level::High,
    }
}

/// The reaction once a phase's level is reached.
pub open spec fn reaction_to(phase: ButtonPhase) -> ButtonReaction {
    match phase {
        ButtonPhase::AwaitPress => ButtonReaction {
            next: ButtonPhase::AwaitRelease,
            led_on: true,
            message: ON,
            debounce_ms: DEBOUNCE_MS,
        },
        ButtonPhase::AwaitRelease => ButtonReaction {
            next: ButtonPhase::AwaitPress,
            led_on: false,
            message: OFF,
            debounce_ms: DEBOUNCE_MS,
        },
    }
}

/// The level the button loop waits for in `phase`.
pub fn awaited_level(phase: ButtonPhase) -> (level: Level)
    ensures
        level == awaited(phase),
{
    match phase {
        ButtonPhase::AwaitPress => Level::Low,
        ButtonPhase::AwaitRelease => Level::High,
    }
}

/// What to do once the level awaited in `phase` is reached.
pub fn on_awaited_level(phase: ButtonPhase) -> (r: ButtonReaction)
    ensures
        r == reaction_to(phase),
{
    match phase {
        ButtonPhase::AwaitPress => ButtonReaction {
            next: ButtonPhase::AwaitRelease,
            led_on: true,
            message: ON,
            debounce_ms: DEBOUNCE_MS,
        },
        ButtonPhase::AwaitRelease => ButtonReaction {
            next: ButtonPhase::AwaitPress,
            led_on: false,
            message: OFF,
            debounce_ms: DEBOUNCE_MS,
        },
    }
}

/// The phase after `n` awaited levels, starting in `phase`.
pub open spec fn phase_after(phase: ButtonPhase, n: nat) -> ButtonPhase
    decreases n,
{
    if n == 0 {
        phase
    } else {
        phase_after(reaction_to(phase).next, (n - 1) as nat)
    }
}

/// The LED mirrors the button: after a press it is on and the next wait is
/// for the release; after the release it is off and the next wait is for a
/// press. The message says the same: `[1]` exactly when the LED is on.
pub proof fn lemma_led_mirrors_button(phase: ButtonPhase)
    ensures
        reaction_to(phase).led_on <==> reaction_to(phase).next == ButtonPhase::AwaitRelease,
        reaction_to(phase).led_on <==> awaited(phase) == Level::Low,
        reaction_to(phase).message == (if reaction_to(phase).led_on { ON } else { OFF }),
        reaction_to(phase).debounce_ms == DEBOUNCE_MS,
{
}

/// A press and its release bring the loop back to where it was, and the
/// loop alternates: after an even number of changes from the start it waits
/// for a press, after an odd number for a release.
pub proof fn lemma_press_release_alternate(n: nat)
    ensures
        reaction_to(reaction_to(ButtonPhase::AwaitPress).next).next == ButtonPhase::AwaitPress,
        phase_after(ButtonPhase::AwaitPress, n) == (if n % 2 == 0 {
            ButtonPhase::AwaitPress
        } else {
            ButtonPhase::AwaitRelease
        }),
    decreases n,
{
    if n >= 2 {
        lemma_press_release_alternate((n - 2) as nat);
        assert(phase_after(ButtonPhase::AwaitPress, n) == phase_after(ButtonPhase::AwaitPress, (n - 2) as nat))
            by {
            assert(phase_after(ButtonPhase::AwaitPress, n) == phase_after(ButtonPhase::AwaitRelease, (n - 1) as nat));
            assert(phase_after(ButtonPhase::AwaitRelease, (n - 1) as nat) == phase_after(ButtonPhase::AwaitPress, (n - 2) as nat));
        }
    } else if n == 1 {
        assert(phase_after(ButtonPhase::AwaitRelease, 0) == ButtonPhase::AwaitRelease);
    }
}

} // verus!
