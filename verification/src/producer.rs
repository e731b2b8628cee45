//! Producers: what an event does to the active set.
//!
//! Each producer waits for the next event of its source and turns it into
//! writes to the active set. Waiting is the caller's business; this module
//! decides. A producer never fails: an event that it cannot use is dropped.

use vstd::prelude::*;
use vstd::string::StringExecFns;
use crate::active::{op_views, SetOp, SetOpView};
use crate::config::{Config, ConfigView};
use crate::device::{find_device, none_matches, occurs_in};
use crate::tone::{option_view, ToneKey, ToneKeyView};

verus! {

/// The kind of an input event that only marks the end of a report and
/// carries no value.
pub const SYNC_EVENT: u16 = 0;

/// How long, in milliseconds, the hot-plug producer rests after a poll that
/// brought no notification.
pub const POLL_BACKOFF_MS: u64 = 10;

/// One event read from an input device: its kind, the sub-channel it is
/// about, and the value reported.
#[derive(Clone, Copy, Debug, PartialEq, Eq, Structural)]
pub struct InputEvent {
    pub kind: u16,
    pub code: u16,
    pub value: i32,
}

/// What a hot-plug notification reports of a device.
#[derive(Clone, Copy, Debug, PartialEq, Eq, Structural)]
pub enum HotplugAction {
    Add,
    Remove,
    Other,
}

/// One hot-plug notification. A field that was missing or unreadable is
/// `None`.
#[derive(Debug, PartialEq, Eq)]
pub struct HotplugEvent {
    pub subsystem: Option<String>,
    pub action: HotplugAction,
    pub sysname: Option<String>,
}

/// What a [`HotplugEvent`] stands for.
pub struct HotplugEventView {
    pub subsystem: Option<Seq<char>>,
    pub action: HotplugAction,
    pub sysname: Option<Seq<char>>,
}

impl View for HotplugEvent {
    type V = HotplugEventView;

    open spec fn view(&self) -> HotplugEventView {
        HotplugEventView {
            subsystem: option_view(self.subsystem),
            action: self.action,
            sysname: option_view(self.sysname),
        }
    }
}

/// What the hot-plug producer does next.
#[derive(Debug, PartialEq, Eq)]
pub enum HotplugStep {
    /// Carry out these writes, then poll again.
    Apply(Vec<SetOp>),
    /// Rest for this many milliseconds, then poll again.
    Wait(u64),
}

/// The producer of one input device that was found at startup.
#[derive(Debug, PartialEq, Eq)]
pub struct DeviceProducer {
    /// Where the device stands among those that were listed.
    pub index: usize,
    /// The key that the device switches, if it has a tone.
    pub key: Option<ToneKey>,
}

/// The subsystem whose ports carry tones.
pub open spec fn usb_subsystem() -> Seq<char> {
    "usb"@
}

/// What an input event does: nothing for a marker or a device without a
/// tone; else a value other than zero switches the tone on, zero off.
pub open spec fn device_effect(key: Option<ToneKeyView>, event: InputEvent) -> Option<SetOpView> {
    match key {
        Some(k) if event.kind != SYNC_EVENT => Some(
            if event.value != 0 {
                SetOpView::Activate(k)
            } else {
                SetOpView::Deactivate(k)
            },
        ),
        _ => None,
    }
}

/// Whether a key belongs to the USB port `port`.
pub open spec fn on_port(port: Seq<char>) -> spec_fn(ToneKeyView) -> bool {
    |k: ToneKeyView| k.source == port
}

/// The write that switches a key on, or off.
pub open spec fn switch(on: bool) -> spec_fn(ToneKeyView) -> SetOpView {
    |k: ToneKeyView|
        if on {
            SetOpView::Activate(k)
        } else {
            SetOpView::Deactivate(k)
        }
}

/// The keys of the USB entries that are configured for `port`, in order.
pub open spec fn port_keys(usb: Seq<ToneKeyView>, port: Seq<char>) -> Seq<ToneKeyView> {
    usb.filter(on_port(port))
}

/// One write per key: activations if `on`, else deactivations.
pub open spec fn switch_all(keys: Seq<ToneKeyView>, on: bool) -> Seq<SetOpView> {
    keys.map_values(switch(on))
}

/// What a hot-plug notification does: a USB device that was added or
/// removed switches every tone configured for its port on or off; anything
/// else, and a notification with a field missing, does nothing.
pub open spec fn hotplug_effect(config: ConfigView, event: HotplugEventView) -> Seq<SetOpView> {
    if event.subsystem == Some(usb_subsystem()) && event.sysname is Some && event.action
        != HotplugAction::Other {
        switch_all(port_keys(config.usb, event.sysname->0), event.action == HotplugAction::Add)
    } else {
        Seq::empty()
    }
}

impl DeviceProducer {
    /// Starts the producer for the first listed device whose name contains
    /// `device`. Where there is none, no producer is started.
    pub fn start(
        device: &str,
        config: &Config,
        names: &Vec<String>,
    ) -> (out: Option<DeviceProducer>)
        ensures
            match out {
                Some(p) => p.index < names.len() && occurs_in(device@, names@[p.index as int]@)
                    && none_matches(names@, device@, p.index as int) && option_view(p.key)
                    == config@.device_key(device@),
                None => none_matches(names@, device@, names.len() as int),
            },
    {
        match find_device(names, device) {
            Some(index) => Some(DeviceProducer { index, key: config.device_key(device) }),
            None => None,
        }
    }

    /// Decides what one event of the device does to the active set.
    pub fn process(&self, event: &InputEvent) -> (out: Option<SetOp>)
        ensures
            option_view(out) == device_effect(option_view(self.key), *event),
    {
        match &self.key {
            Some(key) => {
                if event.kind == SYNC_EVENT {
                    None
                } else if event.value != 0 {
                    Some(SetOp::Activate(key.clone()))
                } else {
                    Some(SetOp::Deactivate(key.clone()))
                }
            },
            None => None,
        }
    }
}

/// Decides what one hot-plug notification does to the active set.
pub fn on_hotplug(config: &Config, event: &HotplugEvent) -> (out: Vec<SetOp>)
    ensures
        op_views(out@) == hotplug_effect(config@, event@),
{
    let mut out: Vec<SetOp> = Vec::new();
    let on = match event.action {
        HotplugAction::Add => true,
        HotplugAction::Remove => false,
        HotplugAction::Other => {
            assert(op_views(out@) =~= Seq::<SetOpView>::empty());
            return out;
        },
    };
    let port = match (&event.subsystem, &event.sysname) {
        (Some(subsystem), Some(port)) => {
            if *subsystem == String::from_str("usb") {
                port
            } else {
                assert(op_views(out@) =~= Seq::<SetOpView>::empty());
                return out;
            }
        },
        _ => {
            assert(op_views(out@) =~= Seq::<SetOpView>::empty());
            return out;
        },
    };
    let mut i: usize = 0;
    assert(config@.usb.take(0) =~= Seq::<ToneKeyView>::empty());
    assert(op_views(out@) =~= switch_all(port_keys(config@.usb.take(0), port@), on));
    while i < config.usb.len()
        invariant
            i <= config.usb.len(),
            op_views(out@) == switch_all(port_keys(config@.usb.take(i as int), port@), on),
        decreases config.usb.len() - i,
    {
        let ghost seen = config@.usb.take(i as int);
        let ghost entry = config@.usb[i as int];
        let ghost before = op_views(out@);
        proof {
            config@.usb.lemma_take_succ_push(i as int);
            seen.lemma_filter_push(entry, on_port(port@));
            assert(entry == config.usb@[i as int]@);
        }
        if config.usb[i].port == *port {
            let key = config.usb[i].key();
            if on {
                out.push(SetOp::Activate(key));
            } else {
                out.push(SetOp::Deactivate(key));
            }
            proof {
                port_keys(seen, port@).lemma_push_map_commute(switch(on), entry);
                assert(op_views(out@) =~= before.push(switch(on)(entry)));
            }
        }
        i = i + 1;
    }
    assert(config@.usb.take(config.usb.len() as int) =~= config@.usb);
    out
}

/// Decides the hot-plug producer's next step from what a poll brought:
/// a notification is turned into writes, an empty poll into a short rest.
pub fn on_poll(config: &Config, polled: Option<HotplugEvent>) -> (out: HotplugStep)
    ensures
        match polled {
            Some(event) => out matches HotplugStep::Apply(ops) && op_views(ops@) == hotplug_effect(
                config@,
                event@,
            ),
            None => out == HotplugStep::Wait(POLL_BACKOFF_MS),
        },
{
    match polled {
        Some(event) => HotplugStep::Apply(on_hotplug(config, &event)),
        None => HotplugStep::Wait(POLL_BACKOFF_MS),
    }
}

} // verus!
