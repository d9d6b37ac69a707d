//! Host-independent logic of the Raspberry Pi Pico W examples: how the USB
//! serial handler reacts to received bytes, how the network stack is
//! configured and brought up, and how the button drives the LED and the
//! UDP messages.

pub mod text;
pub mod logging;
pub mod network;
pub mod button;
