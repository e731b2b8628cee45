//! Tone identities: a signal's name joined with its configured frequency.

use vstd::prelude::*;
use vstd::std_specs::cmp::PartialEqSpecImpl;
use vstd::string::StringExecFns;

verus! {

/// A frequency in hertz, held as the bit pattern of an IEEE 754 double.
///
/// The bit pattern identifies the configured value exactly, so two tones are
/// the same tone precisely when their patterns agree.
#[derive(Clone, Copy, Debug, PartialEq, Eq, Structural, Hash)]
pub struct Frequency {
    pub bits: u64,
}

/// The bit pattern of positive infinity, the largest pattern that is greater
/// than zero when read as a double.
pub const POSITIVE_INFINITY_BITS: u64 = 0x7FF0_0000_0000_0000;

impl Frequency {
    /// Whether the frequency, read as a double, is greater than zero: the sign
    /// bit is clear, the value is not zero and it is not a NaN.
    pub open spec fn spec_is_positive(&self) -> bool {
        0 < self.bits <= POSITIVE_INFINITY_BITS
    }

    /// The frequency with the given bit pattern.
    pub fn from_bits(bits: u64) -> (out: Frequency)
        ensures
            out.bits == bits,
    {
        Frequency { bits }
    }

    /// The bit pattern of the frequency.
    pub fn to_bits(&self) -> (bits: u64)
        ensures
            bits == self.bits,
    {
        self.bits
    }

    /// Whether the frequency is greater than zero.
    #[verifier::when_used_as_spec(spec_is_positive)]
    pub fn is_positive(&self) -> (b: bool)
        ensures
            b == self.spec_is_positive(),
    {
        0 < self.bits && self.bits <= POSITIVE_INFINITY_BITS
    }
}

/// Identifies one controllable tone: the signal it belongs to and the
/// frequency configured for that signal. Two keys are equal when both parts
/// are; a key never changes once it is made.
#[derive(Debug, Hash)]
pub struct ToneKey {
    source: String,
    tone: Frequency,
}

/// What a [`ToneKey`] stands for: the characters of the signal's name and
/// the frequency's bit pattern.
pub struct ToneKeyView {
    pub source: Seq<char>,
    pub tone: u64,
}

impl View for ToneKey {
    type V = ToneKeyView;

    closed spec fn view(&self) -> ToneKeyView {
        ToneKeyView { source: self.source@, tone: self.tone.bits }
    }
}

/// The keys that a sequence of [`ToneKey`] values stands for, in order.
pub open spec fn key_views(keys: Seq<ToneKey>) -> Seq<ToneKeyView> {
    keys.map_values(|k: ToneKey| k@)
}

/// What an optional value stands for: the view of the value it holds, if any.
pub open spec fn option_view<T: View>(value: Option<T>) -> Option<T::V> {
    match value {
        Some(v) => Some(v@),
        None => None,
    }
}

impl ToneKey {
    /// The key of the signal named `source` with the frequency `tone`.
    pub fn new(source: &str, tone: Frequency) -> (out: ToneKey)
        ensures
            out@ == (ToneKeyView { source: source@, tone: tone.bits }),
    {
        ToneKey { source: String::from_str(source), tone }
    }

    /// The name of the signal.
    pub fn source(&self) -> (out: &str)
        ensures
            out@ == self@.source,
    {
        self.source.as_str()
    }

    /// The frequency of the tone.
    pub fn tone(&self) -> (out: Frequency)
        ensures
            out.bits == self@.tone,
    {
        self.tone
    }
}

impl Clone for ToneKey {
    fn clone(&self) -> (out: ToneKey)
        ensures
            out == *self,
    {
        ToneKey { source: self.source.clone(), tone: self.tone }
    }
}

impl PartialEq for ToneKey {
    fn eq(&self, other: &ToneKey) -> (b: bool) {
        self.source == other.source && self.tone.bits == other.tone.bits
    }
}

impl PartialEqSpecImpl for ToneKey {
    open spec fn obeys_eq_spec() -> bool {
        true
    }

    open spec fn eq_spec(&self, other: &ToneKey) -> bool {
        self@ == other@
    }
}

impl Eq for ToneKey {}

/// The first place in `keys` that holds `key`.
pub fn find_key(keys: &Vec<ToneKey>, key: &ToneKey) -> (out: Option<usize>)
    ensures
        match out {
            Some(i) => i < keys.len() && keys@[i as int]@ == key@ && !key_views(keys@).take(
                i as int,
            ).contains(key@),
            None => !key_views(keys@).contains(key@),
        },
{
    let mut i: usize = 0;
    while i < keys.len()
        invariant
            i <= keys.len(),
            forall|j: int| 0 <= j < i ==> keys@[j]@ != key@,
        decreases keys.len() - i,
    {
        if keys[i] == *key {
            return Some(i);
        }
        i = i + 1;
    }
    None
}

} // verus!
