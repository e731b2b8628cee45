//! The render cycle: from one sample per oscillator to one output sample.
//!
//! Every cycle, every oscillator of the bank is advanced once, whether its
//! tone is active or not, so that a tone that comes back continues where it
//! would have been. The cycle therefore takes one sample per bank entry. It
//! keeps the samples of the active tones, adds them up and clamps the sum to
//! the range of a 16-bit sample. With no tone active it yields silence.

use vstd::prelude::*;
use crate::bank::OscillatorBank;
use crate::tone::{find_key, key_views, ToneKey, ToneKeyView};

verus! {

/// The samples of the active entries, in the bank's order.
pub open spec fn selected(
    bank: Seq<ToneKeyView>,
    samples: Seq<i16>,
    active: Set<ToneKeyView>,
) -> Seq<i16>
    recommends
        bank.len() == samples.len(),
    decreases bank.len(),
{
    if bank.len() == 0 || samples.len() == 0 {
        Seq::empty()
    } else {
        let rest = selected(bank.drop_last(), samples.drop_last(), active);
        if active.contains(bank.last()) {
            rest.push(samples.last())
        } else {
            rest
        }
    }
}

/// The sum of the samples.
pub open spec fn total(samples: Seq<i16>) -> int
    decreases samples.len(),
{
    if samples.len() == 0 {
        0
    } else {
        total(samples.drop_last()) + samples.last()
    }
}

/// The nearest value to `sum` that a sample can hold.
pub open spec fn clamp(sum: int) -> i16 {
    if sum > i16::MAX {
        i16::MAX
    } else if sum < i16::MIN {
        i16::MIN
    } else {
        sum as i16
    }
}

/// The mix of the samples: their clamped sum, and silence for none.
pub open spec fn mixed(samples: Seq<i16>) -> i16 {
    clamp(total(samples))
}

/// The sum of `n` samples lies within `n` times the range of one.
pub proof fn lemma_total_bounds(samples: Seq<i16>)
    ensures
        i16::MIN * samples.len() <= total(samples) <= i16::MAX * samples.len(),
    decreases samples.len(),
{
    if samples.len() > 0 {
        lemma_total_bounds(samples.drop_last());
    }
}

/// No overflow: however many tones sound at once, the mix is within the
/// range of a sample; it is the exact sum wherever the sum is within that
/// range, and the nearest end of the range elsewhere.
pub proof fn lemma_mix_in_range(samples: Seq<i16>)
    ensures
        i16::MIN <= mixed(samples) <= i16::MAX,
        i16::MIN <= total(samples) <= i16::MAX ==> mixed(samples) == total(samples),
        total(samples) > i16::MAX ==> mixed(samples) == i16::MAX,
        total(samples) < i16::MIN ==> mixed(samples) == i16::MIN,
{
}

/// One more sample adds its value to the sum.
pub proof fn lemma_total_push(samples: Seq<i16>, sample: i16)
    ensures
        total(samples.push(sample)) == total(samples) + sample,
{
    assert(samples.push(sample).drop_last() =~= samples);
}

/// Mixes samples into one: their sum, clamped to the range of a sample.
pub fn mix(samples: &Vec<i16>) -> (out: i16)
    ensures
        out == mixed(samples@),
{
    let mut sum: i128 = 0;
    let mut i: usize = 0;
    assert(samples@.take(0) =~= Seq::<i16>::empty());
    while i < samples.len()
        invariant
            i <= samples.len(),
            sum == total(samples@.take(i as int)),
        decreases samples.len() - i,
    {
        proof {
            let seen = samples@.take(i + 1);
            assert(seen.drop_last() =~= samples@.take(i as int));
            assert(seen.last() == samples@[i as int]);
            lemma_total_bounds(samples@.take(i as int));
        }
        sum = sum + samples[i] as i128;
        i = i + 1;
    }
    assert(samples@.take(samples.len() as int) =~= samples@);
    if sum > i16::MAX as i128 {
        i16::MAX
    } else if sum < i16::MIN as i128 {
        i16::MIN
    } else {
        sum as i16
    }
}

/// Keeps the samples of the entries whose tone is among `active`.
pub fn select(bank: &OscillatorBank, samples: &Vec<i16>, active: &Vec<ToneKey>) -> (out: Vec<i16>)
    requires
        samples.len() == bank@.len(),
    ensures
        out@ == selected(bank@, samples@, key_views(active@).to_set()),
{
    let keys = bank.keys();
    let ghost on = key_views(active@).to_set();
    let mut out: Vec<i16> = Vec::new();
    let mut i: usize = 0;
    assert(bank@.take(0) =~= Seq::<ToneKeyView>::empty());
    while i < keys.len()
        invariant
            i <= keys.len(),
            keys.len() == samples.len(),
            key_views(keys@) == bank@,
            on == key_views(active@).to_set(),
            out@ == selected(bank@.take(i as int), samples@.take(i as int), on),
        decreases keys.len() - i,
    {
        proof {
            let seen = bank@.take(i + 1);
            let heard = samples@.take(i + 1);
            assert(seen.drop_last() =~= bank@.take(i as int));
            assert(heard.drop_last() =~= samples@.take(i as int));
            assert(seen.last() == keys@[i as int]@);
            assert(heard.last() == samples@[i as int]);
        }
        match find_key(active, &keys[i]) {
            Some(j) => {
                assert(key_views(active@)[j as int] == keys@[i as int]@);
                out.push(samples[i]);
            },
            None => {},
        }
        i = i + 1;
    }
    proof {
        assert(bank@.take(keys.len() as int) =~= bank@);
        assert(samples@.take(keys.len() as int) =~= samples@);
    }
    out
}

/// One render cycle. `samples` holds what each oscillator of the bank
/// produced in this cycle, in the bank's order, and `active` the keys that
/// are switched on. The result is the mix of the active tones' samples.
pub fn render(bank: &OscillatorBank, samples: &Vec<i16>, active: &Vec<ToneKey>) -> (out: i16)
    requires
        samples.len() == bank@.len(),
    ensures
        out == mixed(selected(bank@, samples@, key_views(active@).to_set())),
        active@.len() == 0 ==> out == 0,
{
    proof {
        if active@.len() == 0 {
            assert(key_views(active@).to_set() =~= Set::<ToneKeyView>::empty());
            lemma_silence(bank@, samples@);
        }
    }
    let chosen = select(bank, samples, active);
    mix(&chosen)
}

/// Silence on the empty set: with nothing active, nothing is selected and
/// the mix is the zero sample.
pub proof fn lemma_silence(bank: Seq<ToneKeyView>, samples: Seq<i16>)
    ensures
        selected(bank, samples, Set::empty()) == Seq::<i16>::empty(),
        mixed(selected(bank, samples, Set::empty())) == 0,
    decreases bank.len(),
{
    if bank.len() > 0 && samples.len() > 0 {
        lemma_silence(bank.drop_last(), samples.drop_last());
    }
}

/// Tones that no entry of the bank produces are not heard: only the active
/// keys that the bank holds decide what is selected.
pub proof fn lemma_selected_within_bank(
    bank: Seq<ToneKeyView>,
    samples: Seq<i16>,
    active: Set<ToneKeyView>,
    other: Set<ToneKeyView>,
)
    requires
        bank.len() == samples.len(),
        forall|i: int| 0 <= i < bank.len() ==> (active.contains(#[trigger] bank[i])
            <==> other.contains(bank[i])),
    ensures
        selected(bank, samples, active) == selected(bank, samples, other),
    decreases bank.len(),
{
    if bank.len() > 0 {
        let n = bank.len() - 1;
        assert forall|i: int| 0 <= i < n implies (active.contains(#[trigger] bank.drop_last()[i])
            <==> other.contains(bank.drop_last()[i])) by {
            assert(bank.drop_last()[i] == bank[i]);
        }
        lemma_selected_within_bank(bank.drop_last(), samples.drop_last(), active, other);
        assert(bank.last() == bank[n]);
    }
}

/// What an inactive oscillator produces is not heard: two cycles whose
/// samples agree on the active entries select the same samples.
pub proof fn lemma_inactive_unheard(
    bank: Seq<ToneKeyView>,
    samples: Seq<i16>,
    others: Seq<i16>,
    active: Set<ToneKeyView>,
)
    requires
        bank.len() == samples.len(),
        bank.len() == others.len(),
        forall|i: int|
            0 <= i < bank.len() && active.contains(#[trigger] bank[i]) ==> samples[i] == others[i],
    ensures
        selected(bank, samples, active) == selected(bank, others, active),
    decreases bank.len(),
{
    if bank.len() > 0 {
        let n = bank.len() - 1;
        assert forall|i: int| 0 <= i < n && active.contains(
            #[trigger] bank.drop_last()[i],
        ) implies samples.drop_last()[i] == others.drop_last()[i] by {
            assert(bank.drop_last()[i] == bank[i]);
        }
        lemma_inactive_unheard(bank.drop_last(), samples.drop_last(), others.drop_last(), active);
        assert(bank.last() == bank[n]);
    }
}

/// No tone disturbs another: an active tone adds exactly its own sample to
/// the sum, whichever other tones are active beside it.
pub proof fn lemma_contribution(
    bank: Seq<ToneKeyView>,
    samples: Seq<i16>,
    active: Set<ToneKeyView>,
    i: int,
)
    requires
        bank.len() == samples.len(),
        bank.no_duplicates(),
        0 <= i < bank.len(),
    ensures
        total(selected(bank, samples, active.insert(bank[i]))) == total(
            selected(bank, samples, active.remove(bank[i])),
        ) + samples[i],
    decreases bank.len(),
{
    let n = bank.len() - 1;
    let init = bank.drop_last();
    let heard = samples.drop_last();
    let key = bank[i];
    let with = active.insert(key);
    let without = active.remove(key);
    assert(bank.last() == bank[n]);
    if i == n {
        assert forall|j: int| 0 <= j < n implies (with.contains(#[trigger] init[j])
            <==> without.contains(init[j])) by {
            assert(init[j] == bank[j]);
        }
        lemma_selected_within_bank(init, heard, with, without);
        lemma_total_push(selected(init, heard, without), samples[n]);
    } else {
        assert(init[i] == bank[i]);
        lemma_contribution(init, heard, active, i);
        if active.contains(bank[n]) {
            lemma_total_push(selected(init, heard, with), samples[n]);
            lemma_total_push(selected(init, heard, without), samples[n]);
        }
    }
}

/// A tone that sounds alone is emitted as it is: where exactly one entry's
/// tone is active, the mix is that entry's sample.
pub proof fn lemma_solo(
    bank: Seq<ToneKeyView>,
    samples: Seq<i16>,
    active: Set<ToneKeyView>,
    i: int,
)
    requires
        bank.len() == samples.len(),
        0 <= i < bank.len(),
        forall|j: int| 0 <= j < bank.len() ==> (active.contains(#[trigger] bank[j]) <==> j == i),
    ensures
        selected(bank, samples, active) == seq![samples[i]],
        mixed(selected(bank, samples, active)) == samples[i],
    decreases bank.len(),
{
    let n = bank.len() - 1;
    let init = bank.drop_last();
    let heard = samples.drop_last();
    assert(bank.last() == bank[n]);
    if i == n {
        assert forall|j: int| 0 <= j < n implies (active.contains(#[trigger] init[j])
            <==> Set::<ToneKeyView>::empty().contains(init[j])) by {
            assert(init[j] == bank[j]);
        }
        lemma_selected_within_bank(init, heard, active, Set::empty());
        lemma_silence(init, heard);
        assert(selected(bank, samples, active) =~= seq![samples[i]]);
    } else {
        assert forall|j: int| 0 <= j < n implies (active.contains(#[trigger] init[j]) <==> j
            == i) by {
            assert(init[j] == bank[j]);
        }
        lemma_solo(init, heard, active, i);
        assert(selected(bank, samples, active) =~= seq![samples[i]]);
    }
    assert(seq![samples[i]] =~= Seq::<i16>::empty().push(samples[i]));
    lemma_total_push(Seq::empty(), samples[i]);
}

/// Two tones together: where exactly two entries' tones are active, the mix
/// is the clamped sum of their two samples.
pub proof fn lemma_duet(
    bank: Seq<ToneKeyView>,
    samples: Seq<i16>,
    active: Set<ToneKeyView>,
    i: int,
    j: int,
)
    requires
        bank.len() == samples.len(),
        0 <= i < j < bank.len(),
        forall|k: int|
            0 <= k < bank.len() ==> (active.contains(#[trigger] bank[k]) <==> (k == i || k == j)),
    ensures
        selected(bank, samples, active) == seq![samples[i], samples[j]],
        mixed(selected(bank, samples, active)) == clamp(samples[i] + samples[j]),
    decreases bank.len(),
{
    let n = bank.len() - 1;
    let init = bank.drop_last();
    let heard = samples.drop_last();
    assert(bank.last() == bank[n]);
    if j == n {
        assert forall|k: int| 0 <= k < n implies (active.contains(#[trigger] init[k]) <==> k
            == i) by {
            assert(init[k] == bank[k]);
        }
        lemma_solo(init, heard, active, i);
        assert(selected(bank, samples, active) =~= seq![samples[i], samples[j]]);
    } else {
        assert forall|k: int| 0 <= k < n implies (active.contains(#[trigger] init[k]) <==> (k == i
            || k == j)) by {
            assert(init[k] == bank[k]);
        }
        lemma_duet(init, heard, active, i, j);
        assert(selected(bank, samples, active) =~= seq![samples[i], samples[j]]);
    }
    let one = Seq::<i16>::empty().push(samples[i]);
    assert(seq![samples[i], samples[j]] =~= one.push(samples[j]));
    lemma_total_push(Seq::empty(), samples[i]);
    lemma_total_push(one, samples[j]);
}

} // verus!
