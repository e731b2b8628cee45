//! Audible feedback for hardware signals.
//!
//! A signal (the lid switch, a USB port) that is switched on contributes one
//! tone to a live mono mix and falls silent when it is switched off. This
//! crate holds the decisions of that engine and proves them with Verus: which
//! tones are active, what an input or hot-plug event does to them, which
//! oscillators exist, and how the samples of the active ones are mixed into
//! one 16-bit output sample.
//!
//! Reading devices, waiting for hot-plug notifications, synthesising the
//! waveforms and feeding the sound card happen outside; they reach the crate
//! as plain values (names, events, samples).

pub mod active;
pub mod bank;
pub mod config;
pub mod device;
pub mod producer;
pub mod render;
pub mod tone;

pub use active::{ActiveSignalSet, SetOp, SetOpView};
pub use bank::OscillatorBank;
pub use config::{Config, ConfigView, Lid, Usb};
pub use device::find_device;
pub use producer::{
    on_hotplug, on_poll, DeviceProducer, HotplugAction, HotplugEvent, HotplugStep, InputEvent,
};
pub use render::{mix, render, select};
pub use tone::{Frequency, ToneKey, ToneKeyView};
