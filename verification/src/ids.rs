//! Target identifiers and duplicate-free target sets.
//!
//! A target is one audio stream or device on the server; monitors are keyed
//! by the pair of its direction and its stable numeric index.

use vstd::prelude::*;

verus! {

/// The direction of a target: a playback stream, a recording stream, or a
/// device endpoint (sink or source).
#[derive(Clone, Copy, Debug, PartialEq, Eq, Structural)]
pub enum TargetKind {
    SinkInput,
    SourceOutput,
    Sink,
    Source,
}

/// The stable key of one monitorable entry: direction plus server index.
#[derive(Clone, Copy, Debug, PartialEq, Eq, Structural)]
pub struct TargetId {
    pub kind: TargetKind,
    pub index: u32,
}

/// True when a sequence of targets holds no identifier twice.
pub open spec fn no_dups(s: Seq<TargetId>) -> bool {
    forall|i: int, j: int| 0 <= i < j < s.len() ==> s[i] != s[j]
}

/// A set of target identifiers, kept as a duplicate-free vector.
///
/// The UI names the entries it currently displays with such a set; the
/// monitor bookkeeping relies on each identifier appearing at most once.
#[derive(Debug)]
pub struct TargetSet {
    items: Vec<TargetId>,
}

impl TargetSet {
    /// The targets in the set, in insertion order.
    pub closed spec fn view(&self) -> Seq<TargetId> {
        self.items@
    }

    /// Well-formed: no identifier appears twice.
    pub open spec fn wf(&self) -> bool {
        no_dups(self@)
    }

    /// The empty target set.
    pub fn new() -> (s: TargetSet)
        ensures
            s@ == Seq::<TargetId>::empty(),
            s.wf(),
    {
        TargetSet { items: Vec::new() }
    }

    /// How many targets the set holds.
    pub fn len(&self) -> (n: usize)
        ensures
            n == self@.len(),
    {
        self.items.len()
    }

    /// The target at one position of the set's order.
    pub fn get(&self, i: usize) -> (t: TargetId)
        requires
            i < self@.len(),
        ensures
            t == self@[i as int],
    {
        self.items[i]
    }

    /// Whether `t` is in the set.
    pub fn contains(&self, t: TargetId) -> (b: bool)
        ensures
            b == self@.contains(t),
    {
        vec_contains(&self.items, t)
    }

    /// Builds a set from a list of targets, keeping the first occurrence of
    /// each identifier.
    pub fn from_vec(v: &Vec<TargetId>) -> (s: TargetSet)
        ensures
            s.wf(),
            forall|t: TargetId| s@.contains(t) <==> v@.contains(t),
    {
        let mut items: Vec<TargetId> = Vec::new();
        let mut i: usize = 0;
        while i < v.len()
            invariant
                0 <= i <= v@.len(),
                no_dups(items@),
                forall|t: TargetId| items@.contains(t) <==> v@.take(i as int).contains(t),
            decreases v@.len() - i,
        {
            let t = v[i];
            let ghost items_before = items@;
            if !vec_contains(&items, t) {
                items.push(t);
            }
            proof {
                assert(v@.take(i + 1 as int) =~= v@.take(i as int).push(v@[i as int]));
                assert forall|x: TargetId|
                    items@.contains(x) <==> v@.take(i + 1 as int).contains(x) by {
                    crate::seqs::lemma_push_contains(v@.take(i as int), v@[i as int], x);
                    if items_before.contains(t) {
                    } else {
                        crate::seqs::lemma_push_contains(items_before, t, x);
                    }
                }
            }
            i = i + 1;
        }
        proof {
            assert(v@.take(v@.len() as int) =~= v@);
        }
        TargetSet { items }
    }

    /// The targets as a plain vector, in the set's order.
    pub fn to_vec(&self) -> (r: Vec<TargetId>)
        ensures
            r@ == self@,
    {
        copy_targets(&self.items)
    }
}

impl Clone for TargetSet {
    /// The clone holds exactly the same targets.
    fn clone(&self) -> (r: Self)
        ensures
            r@ == self@,
    {
        TargetSet { items: copy_targets(&self.items) }
    }
}

/// Whether a vector of targets holds `t`.
pub fn vec_contains(v: &Vec<TargetId>, t: TargetId) -> (b: bool)
    ensures
        b == v@.contains(t),
{
    let mut i: usize = 0;
    while i < v.len()
        invariant
            0 <= i <= v@.len(),
            forall|j: int| 0 <= j < i ==> v@[j] != t,
        decreases v@.len() - i,
    {
        if v[i] == t {
            return true;
        }
        i = i + 1;
    }
    false
}

/// A fresh vector with the same targets.
pub fn copy_targets(v: &Vec<TargetId>) -> (r: Vec<TargetId>)
    ensures
        r@ == v@,
{
    let mut r: Vec<TargetId> = Vec::new();
    let mut i: usize = 0;
    while i < v.len()
        invariant
            0 <= i <= v@.len(),
            r@ == v@.take(i as int),
        decreases v@.len() - i,
    {
        r.push(v[i]);
        proof {
            assert(v@.take(i + 1 as int) =~= v@.take(i as int).push(v@[i as int]));
        }
        i = i + 1;
    }
    proof {
        assert(v@.take(v@.len() as int) =~= v@);
    }
    r
}

} // verus!
