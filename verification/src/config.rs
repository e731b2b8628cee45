//! The configuration: which signals carry a tone, and at what frequency.
//!
//! It is loaded once, before anything else runs, and only read afterwards.

use vstd::prelude::*;
use vstd::string::StringExecFns;
use crate::tone::{key_views, option_view, Frequency, ToneKey, ToneKeyView};

verus! {

/// The tone of one USB port, named by its bus path (for example `1-1`).
#[derive(Debug, PartialEq, Eq)]
pub struct Usb {
    pub port: String,
    pub tone: Frequency,
}

/// The tone of the lid switch.
#[derive(Clone, Copy, Debug, PartialEq, Eq, Structural)]
pub struct Lid {
    pub tone: Frequency,
}

/// Every tone the system can produce: one per USB entry, and one for the lid
/// if it is configured.
#[derive(Debug, PartialEq, Eq)]
pub struct Config {
    pub usb: Vec<Usb>,
    pub lid: Option<Lid>,
}

/// What a [`Config`] stands for: the keys of its USB entries, in order, and
/// the bit pattern of the lid's frequency.
pub struct ConfigView {
    pub usb: Seq<ToneKeyView>,
    pub lid: Option<u64>,
}

/// The name under which the lid switch appears in a key.
pub open spec fn lid_source() -> Seq<char> {
    "Lid"@
}

impl ConfigView {
    /// The key of the lid's tone, if the lid is configured.
    pub open spec fn lid_key(self) -> Option<ToneKeyView> {
        match self.lid {
            Some(bits) => Some(ToneKeyView { source: lid_source(), tone: bits }),
            None => None,
        }
    }

    /// Every configured key: the USB entries in order, then the lid.
    pub open spec fn tones(self) -> Seq<ToneKeyView> {
        match self.lid_key() {
            Some(key) => self.usb.push(key),
            None => self.usb,
        }
    }

    /// The key that an input device of the given name switches on and off.
    /// Only the lid has one, and only with a frequency above zero.
    pub open spec fn device_key(self, device: Seq<char>) -> Option<ToneKeyView> {
        match self.lid {
            Some(bits) if device == lid_source() && (Frequency { bits }).spec_is_positive() => {
                self.lid_key()
            },
            _ => None,
        }
    }
}

impl View for Usb {
    type V = ToneKeyView;

    open spec fn view(&self) -> ToneKeyView {
        ToneKeyView { source: self.port@, tone: self.tone.bits }
    }
}

impl View for Config {
    type V = ConfigView;

    open spec fn view(&self) -> ConfigView {
        ConfigView {
            usb: self.usb@.map_values(|u: Usb| u@),
            lid: match self.lid {
                Some(lid) => Some(lid.tone.bits),
                None => None,
            },
        }
    }
}

impl Usb {
    /// The entry that gives the port `port` the frequency `tone`.
    pub fn new(port: &str, tone: Frequency) -> (out: Usb)
        ensures
            out@ == (ToneKeyView { source: port@, tone: tone.bits }),
    {
        Usb { port: String::from_str(port), tone }
    }

    /// The key of this port's tone.
    pub fn key(&self) -> (out: ToneKey)
        ensures
            out@ == self@,
    {
        ToneKey::new(self.port.as_str(), self.tone)
    }
}

impl Lid {
    /// The entry that gives the lid the frequency `tone`.
    pub fn new(tone: Frequency) -> (out: Lid)
        ensures
            out.tone == tone,
    {
        Lid { tone }
    }
}

impl Config {
    /// The configuration with the given USB entries and lid entry.
    pub fn new(usb: Vec<Usb>, lid: Option<Lid>) -> (out: Config)
        ensures
            out.usb == usb,
            out.lid == lid,
    {
        Config { usb, lid }
    }

    /// The key of the lid's tone, if the lid is configured.
    pub fn lid_key(&self) -> (out: Option<ToneKey>)
        ensures
            option_view(out) == self@.lid_key(),
    {
        match &self.lid {
            Some(lid) => Some(ToneKey::new("Lid", lid.tone)),
            None => None,
        }
    }

    /// The key that an input device of the given name switches on and off.
    pub fn device_key(&self, device: &str) -> (out: Option<ToneKey>)
        ensures
            option_view(out) == self@.device_key(device@),
    {
        match &self.lid {
            Some(lid) => {
                if String::from_str(device) == String::from_str("Lid") && lid.tone.is_positive() {
                    Some(ToneKey::new("Lid", lid.tone))
                } else {
                    None
                }
            },
            None => None,
        }
    }

    /// Every configured key: the USB entries in order, then the lid.
    pub fn tones(&self) -> (out: Vec<ToneKey>)
        ensures
            key_views(out@) == self@.tones(),
    {
        let mut out: Vec<ToneKey> = Vec::new();
        let mut i: usize = 0;
        while i < self.usb.len()
            invariant
                i <= self.usb.len(),
                out.len() == i,
                forall|j: int| 0 <= j < i ==> out@[j]@ == self.usb@[j]@,
            decreases self.usb.len() - i,
        {
            out.push(self.usb[i].key());
            i = i + 1;
        }
        assert(key_views(out@) =~= self@.usb);
        match self.lid_key() {
            Some(key) => {
                out.push(key);
                assert(key_views(out@) =~= self@.usb.push(key@));
            },
            None => {},
        }
        out
    }
}

} // verus!
