//! The oscillator bank: which tones the system can produce.
//!
//! The bank is built once from the configuration and never grows or shrinks
//! afterwards. It holds one entry per tone, in a fixed order; the waveform
//! generators themselves run alongside it, one per entry, and hand in one
//! sample per entry and render cycle.

use vstd::prelude::*;
use crate::active::{replay, SetOpView};
use crate::config::{Config, ConfigView};
use crate::producer::{
    device_effect, hotplug_effect, on_port, port_keys, switch_all, HotplugAction,
    HotplugEventView, InputEvent,
};
use crate::tone::{find_key, key_views, ToneKey, ToneKeyView};

verus! {

/// The tones of the bank, each once, in the order of the configuration.
#[derive(Debug)]
pub struct OscillatorBank {
    keys: Vec<ToneKey>,
}

/// `keys` without repetitions: of equal keys only the first stays.
pub open spec fn distinct(keys: Seq<ToneKeyView>) -> Seq<ToneKeyView>
    decreases keys.len(),
{
    if keys.len() == 0 {
        keys
    } else {
        let rest = distinct(keys.drop_last());
        if rest.contains(keys.last()) {
            rest
        } else {
            rest.push(keys.last())
        }
    }
}

/// The entries of the bank that belongs to a configuration: every
/// configured tone, USB entries first, each once.
pub open spec fn bank_keys(config: ConfigView) -> Seq<ToneKeyView> {
    distinct(config.tones())
}

/// Whether every active key has an entry among `bank`.
pub open spec fn covered(active: Set<ToneKeyView>, bank: Seq<ToneKeyView>) -> bool {
    forall|k: ToneKeyView| active.contains(k) ==> bank.contains(k)
}

/// `distinct` holds nothing twice and holds exactly what `keys` holds.
pub proof fn lemma_distinct(keys: Seq<ToneKeyView>)
    ensures
        distinct(keys).no_duplicates(),
        forall|k: ToneKeyView| distinct(keys).contains(k) <==> keys.contains(k),
    decreases keys.len(),
{
    if keys.len() > 0 {
        let init = keys.drop_last();
        let rest = distinct(init);
        lemma_distinct(init);
        assert forall|k: ToneKeyView| distinct(keys).contains(k) <==> keys.contains(k) by {
            if keys.contains(k) {
                let i = choose|i: int| 0 <= i < keys.len() && keys[i] == k;
                if i < keys.len() - 1 {
                    assert(init[i] == k);
                    assert(init.contains(k));
                    assert(rest.contains(k));
                    let j = choose|j: int| 0 <= j < rest.len() && rest[j] == k;
                    assert(distinct(keys)[j] == k);
                } else if !rest.contains(k) {
                    assert(distinct(keys)[rest.len() as int] == k);
                }
            }
            if distinct(keys).contains(k) {
                let j = choose|j: int| 0 <= j < distinct(keys).len() && distinct(keys)[j] == k;
                if j < rest.len() {
                    assert(rest[j] == k);
                    assert(init.contains(k));
                    let i = choose|i: int| 0 <= i < init.len() && init[i] == k;
                    assert(keys[i] == k);
                } else {
                    assert(keys[keys.len() - 1] == k);
                }
            }
        }
    }
}

impl View for OscillatorBank {
    type V = Seq<ToneKeyView>;

    closed spec fn view(&self) -> Seq<ToneKeyView> {
        key_views(self.keys@)
    }
}

impl OscillatorBank {
    #[verifier::type_invariant]
    spec fn each_once(self) -> bool {
        key_views(self.keys@).no_duplicates()
    }

    /// Builds the bank of a configuration: one entry per USB tone and one
    /// for the lid, a tone that is configured twice getting one entry.
    pub fn from_config(config: &Config) -> (out: OscillatorBank)
        ensures
            out@ == bank_keys(config@),
    {
        let tones = config.tones();
        let mut keys: Vec<ToneKey> = Vec::new();
        let mut i: usize = 0;
        assert(key_views(tones@).take(0) =~= Seq::<ToneKeyView>::empty());
        assert(key_views(keys@) =~= Seq::<ToneKeyView>::empty());
        while i < tones.len()
            invariant
                i <= tones.len(),
                key_views(keys@) == distinct(key_views(tones@).take(i as int)),
            decreases tones.len() - i,
        {
            let ghost before = key_views(keys@);
            proof {
                let seen = key_views(tones@).take(i + 1);
                assert(seen.drop_last() =~= key_views(tones@).take(i as int));
                assert(seen.last() == tones@[i as int]@);
            }
            match find_key(&keys, &tones[i]) {
                Some(j) => {
                    assert(before[j as int] == tones@[i as int]@);
                },
                None => {
                    keys.push(tones[i].clone());
                    assert(key_views(keys@) =~= before.push(tones@[i as int]@));
                },
            }
            i = i + 1;
        }
        proof {
            assert(key_views(tones@).take(tones.len() as int) =~= key_views(tones@));
            lemma_distinct(config@.tones());
        }
        OscillatorBank { keys }
    }

    /// How many tones the bank holds.
    pub fn len(&self) -> (n: usize)
        ensures
            n == self@.len(),
    {
        self.keys.len()
    }

    /// Whether the bank holds no tone at all.
    pub fn is_empty(&self) -> (b: bool)
        ensures
            b == (self@.len() == 0),
    {
        self.keys.len() == 0
    }

    /// The tone of entry `index`.
    pub fn key(&self, index: usize) -> (out: &ToneKey)
        requires
            index < self@.len(),
        ensures
            out@ == self@[index as int],
    {
        &self.keys[index]
    }

    /// The tones of all entries, in the bank's order.
    pub fn keys(&self) -> (out: &Vec<ToneKey>)
        ensures
            key_views(out@) == self@,
            self@.no_duplicates(),
    {
        proof {
            use_type_invariant(self);
        }
        &self.keys
    }

    /// The entry that produces the tone `key`.
    pub fn position(&self, key: &ToneKey) -> (out: Option<usize>)
        ensures
            match out {
                Some(i) => i < self@.len() && self@[i as int] == key@,
                None => !self@.contains(key@),
            },
    {
        find_key(&self.keys, key)
    }
}

/// The key that an input device switches has an entry in the bank of the
/// same configuration.
pub proof fn lemma_device_key_in_bank(config: ConfigView, device: Seq<char>, event: InputEvent)
    ensures
        device_effect(config.device_key(device), event) matches Some(op) ==> bank_keys(
            config,
        ).contains(op.key()),
{
    lemma_distinct(config.tones());
    if let Some(key) = config.device_key(device) {
        let tones = config.tones();
        assert(tones[tones.len() - 1] == key);
        assert(tones.contains(key));
    }
}

/// Every key that a hot-plug notification switches has an entry in the bank
/// of the same configuration.
pub proof fn lemma_hotplug_keys_in_bank(config: ConfigView, event: HotplugEventView, i: int)
    requires
        0 <= i < hotplug_effect(config, event).len(),
    ensures
        bank_keys(config).contains(hotplug_effect(config, event)[i].key()),
{
    lemma_distinct(config.tones());
    let ops = hotplug_effect(config, event);
    assert(event.subsystem is Some);
    assert(event.sysname is Some);
    let port = event.sysname->0;
    let keys = port_keys(config.usb, port);
    assert(ops == switch_all(keys, event.action == HotplugAction::Add));
    assert(ops.len() == keys.len());
    let key = keys[i];
    assert(ops[i].key() == key);
    assert(keys.contains(key));
    config.usb.lemma_filter_contains_rev(on_port(port), key);
    let j = choose|j: int| 0 <= j < config.usb.len() && config.usb[j] == key;
    assert(config.tones()[j] == key);
    assert(config.tones().contains(key));
}

/// One write to a key of the bank keeps the active set within the bank.
pub proof fn lemma_apply_keeps_covered(
    active: Set<ToneKeyView>,
    bank: Seq<ToneKeyView>,
    op: SetOpView,
)
    requires
        covered(active, bank),
        bank.contains(op.key()),
    ensures
        covered(op.apply(active), bank),
{
}

/// The producers never step outside the bank: where every active key has an
/// entry in the bank of a configuration, so it is after the writes that a
/// hot-plug notification yields under the same configuration.
pub proof fn lemma_hotplug_keeps_covered(
    config: ConfigView,
    event: HotplugEventView,
    active: Set<ToneKeyView>,
)
    requires
        covered(active, bank_keys(config)),
    ensures
        covered(replay(active, hotplug_effect(config, event)), bank_keys(config)),
{
    let ops = hotplug_effect(config, event);
    lemma_prefix_keeps_covered(config, event, active, ops.len() as int);
    assert(ops.take(ops.len() as int) =~= ops);
}

proof fn lemma_prefix_keeps_covered(
    config: ConfigView,
    event: HotplugEventView,
    active: Set<ToneKeyView>,
    n: int,
)
    requires
        covered(active, bank_keys(config)),
        0 <= n <= hotplug_effect(config, event).len(),
    ensures
        covered(replay(active, hotplug_effect(config, event).take(n)), bank_keys(config)),
    decreases n,
{
    let ops = hotplug_effect(config, event);
    if n > 0 {
        lemma_prefix_keeps_covered(config, event, active, n - 1);
        lemma_hotplug_keys_in_bank(config, event, n - 1);
        assert(ops.take(n).drop_last() =~= ops.take(n - 1));
        lemma_apply_keeps_covered(
            replay(active, ops.take(n - 1)),
            bank_keys(config),
            ops.take(n).last(),
        );
    }
}

/// The same holds of the write that an input event yields.
pub proof fn lemma_device_keeps_covered(
    config: ConfigView,
    device: Seq<char>,
    event: InputEvent,
    active: Set<ToneKeyView>,
)
    requires
        covered(active, bank_keys(config)),
    ensures
        device_effect(config.device_key(device), event) matches Some(op) ==> covered(
            op.apply(active),
            bank_keys(config),
        ),
{
    lemma_device_key_in_bank(config, device, event);
}

} // verus!
