//! The set of tones that are switched on right now.
//!
//! Producers write it, the render cycle reads it. The set itself is plain
//! data: whoever shares it between threads guards it and copies it out with
//! [`ActiveSignalSet::snapshot`] before mixing.

use vstd::prelude::*;
use crate::tone::{find_key, key_views, ToneKey, ToneKeyView};

verus! {

/// The currently active keys, each held once.
#[derive(Debug)]
pub struct ActiveSignalSet {
    keys: Vec<ToneKey>,
}

/// One write to the set, as a producer decides it.
#[derive(Debug, PartialEq, Eq)]
pub enum SetOp {
    Activate(ToneKey),
    Deactivate(ToneKey),
}

/// What a [`SetOp`] stands for.
pub enum SetOpView {
    Activate(ToneKeyView),
    Deactivate(ToneKeyView),
}

impl SetOpView {
    /// The key that the operation is about.
    pub open spec fn key(self) -> ToneKeyView {
        match self {
            SetOpView::Activate(key) => key,
            SetOpView::Deactivate(key) => key,
        }
    }

    /// The set after the operation.
    pub open spec fn apply(self, active: Set<ToneKeyView>) -> Set<ToneKeyView> {
        match self {
            SetOpView::Activate(key) => active.insert(key),
            SetOpView::Deactivate(key) => active.remove(key),
        }
    }
}

impl View for SetOp {
    type V = SetOpView;

    open spec fn view(&self) -> SetOpView {
        match self {
            SetOp::Activate(key) => SetOpView::Activate(key@),
            SetOp::Deactivate(key) => SetOpView::Deactivate(key@),
        }
    }
}

/// The operations that a sequence of [`SetOp`] values stands for, in order.
pub open spec fn op_views(ops: Seq<SetOp>) -> Seq<SetOpView> {
    ops.map_values(|op: SetOp| op@)
}

/// The set after all of `ops` were applied to `active`, first to last.
pub open spec fn replay(active: Set<ToneKeyView>, ops: Seq<SetOpView>) -> Set<ToneKeyView>
    decreases ops.len(),
{
    if ops.len() == 0 {
        active
    } else {
        ops.last().apply(replay(active, ops.drop_last()))
    }
}

/// Whether some operation in `ops` is about `key`.
pub open spec fn touched(ops: Seq<SetOpView>, key: ToneKeyView) -> bool {
    exists|i: int| 0 <= i < ops.len() && (#[trigger] ops[i]).key() == key
}

/// Whether the last operation in `ops` that is about `key` activates it.
pub open spec fn last_activates(ops: Seq<SetOpView>, key: ToneKeyView) -> bool {
    exists|i: int|
        0 <= i < ops.len() && #[trigger] ops[i] == SetOpView::Activate(key) && forall|j: int|
            i < j < ops.len() ==> (#[trigger] ops[j]).key() != key
}

/// Last write wins: after any sequence of operations, a key is active exactly
/// when the most recent operation about it activated it or, where no
/// operation was about it, when it was active before.
pub proof fn lemma_replay_last_wins(
    active: Set<ToneKeyView>,
    ops: Seq<SetOpView>,
    key: ToneKeyView,
)
    ensures
        replay(active, ops).contains(key) <==> (last_activates(ops, key) || (!touched(ops, key)
            && active.contains(key))),
    decreases ops.len(),
{
    if ops.len() > 0 {
        let prev = ops.drop_last();
        let op = ops.last();
        let n = ops.len() - 1;
        lemma_replay_last_wins(active, prev, key);
        assert(forall|i: int| 0 <= i < n ==> prev[i] == ops[i]);
        if op.key() == key {
            assert(ops[n].key() == key);
            if op == SetOpView::Activate(key) {
                assert(ops[n] == SetOpView::Activate(key));
            } else {
                assert(!last_activates(ops, key)) by {
                    if last_activates(ops, key) {
                        let i = choose|i: int|
                            0 <= i < ops.len() && #[trigger] ops[i] == SetOpView::Activate(key)
                                && forall|j: int|
                                i < j < ops.len() ==> (#[trigger] ops[j]).key() != key;
                        assert(ops[n].key() == key);
                    }
                }
            }
        } else {
            assert(touched(ops, key) <==> touched(prev, key)) by {
                if touched(ops, key) {
                    let i = choose|i: int| 0 <= i < ops.len() && (#[trigger] ops[i]).key() == key;
                    assert(prev[i].key() == key);
                }
                if touched(prev, key) {
                    let i = choose|i: int| 0 <= i < prev.len() && (#[trigger] prev[i]).key() == key;
                    assert(ops[i].key() == key);
                }
            }
            assert(last_activates(ops, key) <==> last_activates(prev, key)) by {
                if last_activates(ops, key) {
                    let i = choose|i: int|
                        0 <= i < ops.len() && #[trigger] ops[i] == SetOpView::Activate(key)
                            && forall|j: int|
                            i < j < ops.len() ==> (#[trigger] ops[j]).key() != key;
                    assert(i < n);
                    assert(prev[i] == SetOpView::Activate(key));
                    assert forall|j: int| i < j < prev.len() implies (#[trigger] prev[j]).key()
                        != key by {
                        assert(ops[j].key() != key);
                    }
                }
                if last_activates(prev, key) {
                    let i = choose|i: int|
                        0 <= i < prev.len() && #[trigger] prev[i] == SetOpView::Activate(key)
                            && forall|j: int|
                            i < j < prev.len() ==> (#[trigger] prev[j]).key() != key;
                    assert(ops[i] == SetOpView::Activate(key));
                    assert forall|j: int| i < j < ops.len() implies (#[trigger] ops[j]).key()
                        != key by {
                        if j < n {
                            assert(prev[j].key() != key);
                        }
                    }
                }
            }
        }
    }
}

/// Starting from the empty set, the active keys are exactly those whose most
/// recent operation was an activation.
pub proof fn lemma_active_iff_last_activated(ops: Seq<SetOpView>, key: ToneKeyView)
    ensures
        replay(Set::empty(), ops).contains(key) <==> last_activates(ops, key),
{
    lemma_replay_last_wins(Set::empty(), ops, key);
}

/// Writes about different keys commute: their order does not matter.
pub proof fn lemma_ops_commute(active: Set<ToneKeyView>, first: SetOpView, second: SetOpView)
    requires
        first.key() != second.key(),
    ensures
        second.apply(first.apply(active)) == first.apply(second.apply(active)),
{
    assert(second.apply(first.apply(active)) =~= first.apply(second.apply(active)));
}

/// Idempotence: repeating a write right after itself changes nothing, and
/// neither does activating an active key or deactivating an inactive one.
pub proof fn lemma_apply_idempotent(active: Set<ToneKeyView>, op: SetOpView)
    ensures
        op.apply(op.apply(active)) == op.apply(active),
        active.contains(op.key()) ==> SetOpView::Activate(op.key()).apply(active) == active,
        !active.contains(op.key()) ==> SetOpView::Deactivate(op.key()).apply(active) == active,
{
    assert(op.apply(op.apply(active)) =~= op.apply(active));
    if active.contains(op.key()) {
        assert(active.insert(op.key()) =~= active);
    } else {
        assert(active.remove(op.key()) =~= active);
    }
}

impl View for ActiveSignalSet {
    type V = Set<ToneKeyView>;

    closed spec fn view(&self) -> Set<ToneKeyView> {
        key_views(self.keys@).to_set()
    }
}

impl ActiveSignalSet {
    #[verifier::type_invariant]
    spec fn distinct(self) -> bool {
        key_views(self.keys@).no_duplicates()
    }

    /// The set at startup: nothing is active.
    pub fn new() -> (out: ActiveSignalSet)
        ensures
            out@ == Set::<ToneKeyView>::empty(),
    {
        let out = ActiveSignalSet { keys: Vec::new() };
        assert(key_views(out.keys@).to_set() =~= Set::<ToneKeyView>::empty());
        out
    }

    /// The index at which `key` is held.
    fn position(&self, key: &ToneKey) -> (out: Option<usize>)
        ensures
            match out {
                Some(i) => i < self.keys.len() && self.keys@[i as int]@ == key@,
                None => !self@.contains(key@),
            },
    {
        find_key(&self.keys, key)
    }

    /// Whether `key` is active.
    pub fn contains(&self, key: &ToneKey) -> (b: bool)
        ensures
            b == self@.contains(key@),
    {
        match self.position(key) {
            Some(i) => {
                assert(key_views(self.keys@)[i as int] == key@);
                true
            },
            None => false,
        }
    }

    /// How many keys are active.
    pub fn len(&self) -> (n: usize)
        ensures
            self@.finite(),
            n == self@.len(),
    {
        proof {
            use_type_invariant(self);
            key_views(self.keys@).unique_seq_to_set();
        }
        self.keys.len()
    }

    /// Whether nothing is active.
    pub fn is_empty(&self) -> (b: bool)
        ensures
            b == (self@ == Set::<ToneKeyView>::empty()),
    {
        let b = self.keys.len() == 0;
        proof {
            if b {
                assert(self@ =~= Set::<ToneKeyView>::empty());
            } else {
                assert(key_views(self.keys@)[0] == self.keys@[0]@);
                assert(self@.contains(self.keys@[0]@));
            }
        }
        b
    }

    /// Marks `key` active. A key that is active already stays as it is.
    pub fn activate(&mut self, key: ToneKey)
        ensures
            final(self)@ == old(self)@.insert(key@),
            old(self)@.contains(key@) ==> final(self)@ == old(self)@,
    {
        proof {
            use_type_invariant(&*self);
        }
        let found = self.position(&key);
        if found.is_none() {
            let ghost before = key_views(self.keys@);
            let mut keys: Vec<ToneKey> = Vec::new();
            core::mem::swap(&mut keys, &mut self.keys);
            keys.push(key);
            proof {
                assert(key_views(keys@) =~= before.push(key@));
                before.lemma_push_to_set_commute(key@);
            }
            self.keys = keys;
        } else {
            assert(key_views(self.keys@)[found.unwrap() as int] == key@);
            assert(old(self)@.insert(key@) =~= old(self)@);
        }
    }

    /// Marks `key` inactive. A key that is not active changes nothing.
    pub fn deactivate(&mut self, key: &ToneKey)
        ensures
            final(self)@ == old(self)@.remove(key@),
            !old(self)@.contains(key@) ==> final(self)@ == old(self)@,
    {
        proof {
            use_type_invariant(&*self);
        }
        match self.position(key) {
            Some(i) => {
                let ghost before = key_views(self.keys@);
                let mut keys: Vec<ToneKey> = Vec::new();
                core::mem::swap(&mut keys, &mut self.keys);
                keys.remove(i);
                proof {
                    let after = key_views(keys@);
                    assert(after =~= before.remove(i as int));
                    assert(before[i as int] == key@);
                    let rest = before.to_set().remove(key@);
                    assert forall|k: ToneKeyView| after.to_set().contains(k) <==> rest.contains(
                        k,
                    ) by {
                        if after.contains(k) {
                            let j = choose|j: int| 0 <= j < after.len() && after[j] == k;
                            if j < i {
                                assert(before[j] == k);
                            } else {
                                assert(before[j + 1] == k);
                            }
                        }
                        if before.contains(k) && k != key@ {
                            let j = choose|j: int| 0 <= j < before.len() && before[j] == k;
                            if j < i {
                                assert(after[j] == k);
                            } else {
                                assert(after[j - 1] == k);
                            }
                        }
                    }
                    assert(after.to_set() =~= rest);
                }
                self.keys = keys;
            },
            None => {
                assert(old(self)@.remove(key@) =~= old(self)@);
            },
        }
    }

    /// Carries out one operation.
    pub fn apply(&mut self, op: &SetOp)
        ensures
            final(self)@ == op@.apply(old(self)@),
    {
        match op {
            SetOp::Activate(key) => self.activate(key.clone()),
            SetOp::Deactivate(key) => self.deactivate(key),
        }
    }

    /// Carries out a list of operations, first to last.
    pub fn apply_all(&mut self, ops: &Vec<SetOp>)
        ensures
            final(self)@ == replay(old(self)@, op_views(ops@)),
    {
        let mut i: usize = 0;
        while i < ops.len()
            invariant
                i <= ops.len(),
                self@ == replay(old(self)@, op_views(ops@).take(i as int)),
            decreases ops.len() - i,
        {
            self.apply(&ops[i]);
            proof {
                let done = op_views(ops@).take(i + 1);
                assert(done.drop_last() =~= op_views(ops@).take(i as int));
                assert(done.last() == ops@[i as int]@);
            }
            i = i + 1;
        }
        assert(op_views(ops@).take(ops.len() as int) =~= op_views(ops@));
    }

    /// A copy of the active keys, each once, to be read after the set has
    /// been released.
    pub fn snapshot(&self) -> (out: Vec<ToneKey>)
        ensures
            key_views(out@).to_set() == self@,
            key_views(out@).no_duplicates(),
            out@.len() == self@.len(),
    {
        proof {
            use_type_invariant(self);
            key_views(self.keys@).unique_seq_to_set();
        }
        let mut out: Vec<ToneKey> = Vec::new();
        let mut i: usize = 0;
        while i < self.keys.len()
            invariant
                i <= self.keys.len(),
                out@ == self.keys@.take(i as int),
            decreases self.keys.len() - i,
        {
            out.push(self.keys[i].clone());
            assert(self.keys@.take(i + 1) =~= self.keys@.take(i as int).push(self.keys@[i as int]));
            i = i + 1;
        }
        assert(out@ =~= self.keys@);
        out
    }
}

} // verus!
