//! The monitor set: zero-or-one live peak monitor per displayed target.
//!
//! On every tick the set is refreshed against the targets the UI currently
//! wants monitored.  A refresh first removes monitors whose targets the
//! server reports dead, then removes monitors for targets no longer wanted,
//! then registers a monitor for every wanted target without one — dead
//! monitors go first, so a stale handle slot is never reused.  The server
//! handles themselves live with the caller: the refresh returns which
//! monitors to tear down and which to open.

use vstd::prelude::*;

use crate::ids::{no_dups, vec_contains, TargetId, TargetSet};
use crate::seqs::{
    lemma_add_contains, lemma_concat_no_dups, lemma_drop_last_contains, lemma_push_contains,
    lemma_push_no_dups,
};

verus! {

/// The monitors a refresh tears down: those whose target the server reports
/// dead, and those whose target is no longer wanted.
pub open spec fn destroy_plan(
    mons: Seq<TargetId>,
    targets: Seq<TargetId>,
    dead: Seq<TargetId>,
) -> Seq<TargetId>
    decreases mons.len(),
{
    if mons.len() == 0 {
        Seq::empty()
    } else {
        let rest = destroy_plan(mons.drop_last(), targets, dead);
        if dead.contains(mons.last()) || !targets.contains(mons.last()) {
            rest.push(mons.last())
        } else {
            rest
        }
    }
}

/// The monitors a refresh keeps: wanted and not reported dead.
pub open spec fn kept_monitors(
    mons: Seq<TargetId>,
    targets: Seq<TargetId>,
    dead: Seq<TargetId>,
) -> Seq<TargetId>
    decreases mons.len(),
{
    if mons.len() == 0 {
        Seq::empty()
    } else {
        let rest = kept_monitors(mons.drop_last(), targets, dead);
        if !dead.contains(mons.last()) && targets.contains(mons.last()) {
            rest.push(mons.last())
        } else {
            rest
        }
    }
}

/// The monitors a refresh opens: every wanted target that has no live
/// monitor, because none existed or because its monitor was torn down as
/// dead.
pub open spec fn create_plan(
    mons: Seq<TargetId>,
    targets: Seq<TargetId>,
    dead: Seq<TargetId>,
) -> Seq<TargetId>
    decreases targets.len(),
{
    if targets.len() == 0 {
        Seq::empty()
    } else {
        let rest = create_plan(mons, targets.drop_last(), dead);
        if dead.contains(targets.last()) || !mons.contains(targets.last()) {
            rest.push(targets.last())
        } else {
            rest
        }
    }
}

/// The monitor set after one refresh: the kept monitors followed by the
/// newly opened ones.
pub open spec fn refreshed(
    mons: Seq<TargetId>,
    targets: Seq<TargetId>,
    dead: Seq<TargetId>,
) -> Seq<TargetId> {
    kept_monitors(mons, targets, dead) + create_plan(mons, targets, dead)
}

/// A sequence of monitors with one target's monitor removed.
pub open spec fn without_one(s: Seq<TargetId>, t: TargetId) -> Seq<TargetId>
    decreases s.len(),
{
    if s.len() == 0 {
        Seq::empty()
    } else {
        let rest = without_one(s.drop_last(), t);
        if s.last() == t {
            rest
        } else {
            rest.push(s.last())
        }
    }
}

/// What one refresh asks of the caller: tear these monitors down, then open
/// these.
#[derive(Debug)]
pub struct RefreshDelta {
    /// Targets whose monitor must be stopped and released, in set order.
    pub destroy: Vec<TargetId>,
    /// Targets to open a fresh peak monitor on, in wanted order.
    pub create: Vec<TargetId>,
}

/// The set of targets that currently have a live peak monitor.
///
/// Invariant: at most one monitor per target identifier.  The server-side
/// handle of each monitor stays with the caller, keyed by the target.
#[derive(Debug)]
pub struct MonitorSet {
    mons: Vec<TargetId>,
}

impl MonitorSet {
    /// The monitored targets, in bookkeeping order.
    pub closed spec fn view(&self) -> Seq<TargetId> {
        self.mons@
    }

    /// Well-formed: no target is monitored twice.
    pub open spec fn wf(&self) -> bool {
        no_dups(self@)
    }

    /// An empty monitor set.
    pub fn new() -> (s: MonitorSet)
        ensures
            s@ == Seq::<TargetId>::empty(),
            s.wf(),
    {
        MonitorSet { mons: Vec::new() }
    }

    /// How many targets are monitored.
    pub fn len(&self) -> (n: usize)
        ensures
            n == self@.len(),
    {
        self.mons.len()
    }

    /// Whether `t` currently has a live monitor.
    pub fn contains(&self, t: TargetId) -> (b: bool)
        ensures
            b == self@.contains(t),
    {
        vec_contains(&self.mons, t)
    }

    /// Refreshes the set against the targets the UI currently wants.
    ///
    /// `dead` names the monitored targets whose handles report failure.  The
    /// set afterwards holds exactly the wanted targets; the returned delta
    /// says which monitors to tear down (dead ones and unwanted ones) and
    /// which to open (wanted targets that had no usable monitor).  A target
    /// whose creation then fails is taken out again with [`Self::drop_monitor`].
    pub fn refresh(&mut self, targets: &TargetSet, dead: &TargetSet) -> (d: RefreshDelta)
        requires
            old(self).wf(),
            targets.wf(),
        ensures
            d.destroy@ == destroy_plan(old(self)@, targets@, dead@),
            d.create@ == create_plan(old(self)@, targets@, dead@),
            final(self)@ == refreshed(old(self)@, targets@, dead@),
            final(self).wf(),
            forall|t: TargetId| final(self)@.contains(t) <==> targets@.contains(t),
    {
        let ghost old_mons = self.mons@;
        let mut destroy: Vec<TargetId> = Vec::new();
        let mut kept: Vec<TargetId> = Vec::new();
        let mut i: usize = 0;
        while i < self.mons.len()
            invariant
                0 <= i <= old_mons.len(),
                self.mons@ == old_mons,
                destroy@ == destroy_plan(old_mons.take(i as int), targets@, dead@),
                kept@ == kept_monitors(old_mons.take(i as int), targets@, dead@),
            decreases old_mons.len() - i,
        {
            let t = self.mons[i];
            if dead.contains(t) || !targets.contains(t) {
                destroy.push(t);
            } else {
                kept.push(t);
            }
            proof {
                let pre = old_mons.take(i as int);
                let post = old_mons.take(i + 1 as int);
                assert(post.drop_last() =~= pre);
                assert(post.last() == t);
            }
            i = i + 1;
        }
        proof {
            assert(old_mons.take(old_mons.len() as int) =~= old_mons);
        }
        let mut create: Vec<TargetId> = Vec::new();
        let mut j: usize = 0;
        while j < targets.len()
            invariant
                0 <= j <= targets@.len(),
                self.mons@ == old_mons,
                create@ == create_plan(old_mons, targets@.take(j as int), dead@),
            decreases targets@.len() - j,
        {
            let t = targets.get(j);
            if dead.contains(t) || !vec_contains(&self.mons, t) {
                create.push(t);
            }
            proof {
                let pre = targets@.take(j as int);
                let post = targets@.take(j + 1 as int);
                assert(post.drop_last() =~= pre);
                assert(post.last() == t);
            }
            j = j + 1;
        }
        proof {
            assert(targets@.take(targets@.len() as int) =~= targets@);
        }
        let mut fresh = kept;
        let mut k: usize = 0;
        let ghost kept_seq = kept_monitors(old_mons, targets@, dead@);
        while k < create.len()
            invariant
                0 <= k <= create@.len(),
                create@ == create_plan(old_mons, targets@, dead@),
                fresh@ == kept_seq + create@.take(k as int),
            decreases create@.len() - k,
        {
            fresh.push(create[k]);
            proof {
                assert(kept_seq + create@.take(k + 1 as int) =~= (kept_seq + create@.take(
                    k as int,
                )).push(create@[k as int]));
            }
            k = k + 1;
        }
        proof {
            assert(create@.take(create@.len() as int) =~= create@);
            lemma_refreshed_wf(old_mons, targets@, dead@);
        }
        self.mons = fresh;
        RefreshDelta { destroy, create }
    }

    /// Takes one target's monitor out of the set.
    ///
    /// Explicit and idempotent: the caller uses it when opening a monitor
    /// failed, or whenever a handle must be forgotten; dropping an absent
    /// target changes nothing.
    pub fn drop_monitor(&mut self, t: TargetId)
        requires
            old(self).wf(),
        ensures
            final(self)@ == without_one(old(self)@, t),
            final(self).wf(),
            forall|x: TargetId| final(self)@.contains(x) <==> old(self)@.contains(x) && x != t,
    {
        let ghost old_mons = self.mons@;
        let mut rest: Vec<TargetId> = Vec::new();
        let mut i: usize = 0;
        while i < self.mons.len()
            invariant
                0 <= i <= old_mons.len(),
                self.mons@ == old_mons,
                rest@ == without_one(old_mons.take(i as int), t),
            decreases old_mons.len() - i,
        {
            let x = self.mons[i];
            if x != t {
                rest.push(x);
            }
            proof {
                let pre = old_mons.take(i as int);
                let post = old_mons.take(i + 1 as int);
                assert(post.drop_last() =~= pre);
                assert(post.last() == x);
            }
            i = i + 1;
        }
        proof {
            assert(old_mons.take(old_mons.len() as int) =~= old_mons);
            lemma_without_one_contains_all(old_mons, t);
            lemma_without_one_no_dups(old_mons, t);
        }
        self.mons = rest;
    }

    /// The monitored targets as a plain vector.
    pub fn to_vec(&self) -> (r: Vec<TargetId>)
        ensures
            r@ == self@,
    {
        crate::ids::copy_targets(&self.mons)
    }
}

/// Membership in a destroy plan: the monitors that are dead or unwanted.
pub proof fn lemma_destroy_plan_contains(
    mons: Seq<TargetId>,
    targets: Seq<TargetId>,
    dead: Seq<TargetId>,
    x: TargetId,
)
    ensures
        destroy_plan(mons, targets, dead).contains(x) <==> mons.contains(x) && (dead.contains(x)
            || !targets.contains(x)),
    decreases mons.len(),
{
    if mons.len() > 0 {
        lemma_destroy_plan_contains(mons.drop_last(), targets, dead, x);
        lemma_drop_last_contains(mons, x);
        if dead.contains(mons.last()) || !targets.contains(mons.last()) {
            lemma_push_contains(
                destroy_plan(mons.drop_last(), targets, dead),
                mons.last(),
                x,
            );
        }
    }
}

/// Membership in the kept monitors: alive and still wanted.
pub proof fn lemma_kept_monitors_contains(
    mons: Seq<TargetId>,
    targets: Seq<TargetId>,
    dead: Seq<TargetId>,
    x: TargetId,
)
    ensures
        kept_monitors(mons, targets, dead).contains(x) <==> mons.contains(x) && !dead.contains(x)
            && targets.contains(x),
    decreases mons.len(),
{
    if mons.len() > 0 {
        lemma_kept_monitors_contains(mons.drop_last(), targets, dead, x);
        lemma_drop_last_contains(mons, x);
        if !dead.contains(mons.last()) && targets.contains(mons.last()) {
            lemma_push_contains(
                kept_monitors(mons.drop_last(), targets, dead),
                mons.last(),
                x,
            );
        }
    }
}

/// Membership in a create plan: wanted targets without a usable monitor.
pub proof fn lemma_create_plan_contains(
    mons: Seq<TargetId>,
    targets: Seq<TargetId>,
    dead: Seq<TargetId>,
    x: TargetId,
)
    ensures
        create_plan(mons, targets, dead).contains(x) <==> targets.contains(x) && (dead.contains(x)
            || !mons.contains(x)),
    decreases targets.len(),
{
    if targets.len() > 0 {
        lemma_create_plan_contains(mons, targets.drop_last(), dead, x);
        lemma_drop_last_contains(targets, x);
        if dead.contains(targets.last()) || !mons.contains(targets.last()) {
            lemma_push_contains(
                create_plan(mons, targets.drop_last(), dead),
                targets.last(),
                x,
            );
        }
    }
}

/// A destroy plan over duplicate-free monitors is duplicate-free.
pub proof fn lemma_destroy_plan_no_dups(
    mons: Seq<TargetId>,
    targets: Seq<TargetId>,
    dead: Seq<TargetId>,
)
    requires
        no_dups(mons),
    ensures
        no_dups(destroy_plan(mons, targets, dead)),
    decreases mons.len(),
{
    if mons.len() > 0 {
        let sub = mons.drop_last();
        assert(no_dups(sub)) by {
            assert(forall|i: int| 0 <= i < sub.len() ==> sub[i] == mons[i]);
        }
        lemma_destroy_plan_no_dups(sub, targets, dead);
        if dead.contains(mons.last()) || !targets.contains(mons.last()) {
            assert(!sub.contains(mons.last())) by {
                if sub.contains(mons.last()) {
                    let i = choose|i: int| 0 <= i < sub.len() && sub[i] == mons.last();
                    assert(mons[i] == mons[mons.len() - 1]);
                }
            }
            assert(!destroy_plan(sub, targets, dead).contains(mons.last())) by {
                lemma_destroy_plan_contains(sub, targets, dead, mons.last());
            }
            lemma_push_no_dups(destroy_plan(sub, targets, dead), mons.last());
        }
    }
}

/// The kept monitors of a duplicate-free set are duplicate-free.
pub proof fn lemma_kept_monitors_no_dups(
    mons: Seq<TargetId>,
    targets: Seq<TargetId>,
    dead: Seq<TargetId>,
)
    requires
        no_dups(mons),
    ensures
        no_dups(kept_monitors(mons, targets, dead)),
    decreases mons.len(),
{
    if mons.len() > 0 {
        let sub = mons.drop_last();
        assert(no_dups(sub)) by {
            assert(forall|i: int| 0 <= i < sub.len() ==> sub[i] == mons[i]);
        }
        lemma_kept_monitors_no_dups(sub, targets, dead);
        if !dead.contains(mons.last()) && targets.contains(mons.last()) {
            assert(!sub.contains(mons.last())) by {
                if sub.contains(mons.last()) {
                    let i = choose|i: int| 0 <= i < sub.len() && sub[i] == mons.last();
                    assert(mons[i] == mons[mons.len() - 1]);
                }
            }
            assert(!kept_monitors(sub, targets, dead).contains(mons.last())) by {
                lemma_kept_monitors_contains(sub, targets, dead, mons.last());
            }
            lemma_push_no_dups(kept_monitors(sub, targets, dead), mons.last());
        }
    }
}

/// A create plan over a duplicate-free target set is duplicate-free.
pub proof fn lemma_create_plan_no_dups(
    mons: Seq<TargetId>,
    targets: Seq<TargetId>,
    dead: Seq<TargetId>,
)
    requires
        no_dups(targets),
    ensures
        no_dups(create_plan(mons, targets, dead)),
    decreases targets.len(),
{
    if targets.len() > 0 {
        let sub = targets.drop_last();
        assert(no_dups(sub)) by {
            assert(forall|i: int| 0 <= i < sub.len() ==> sub[i] == targets[i]);
        }
        lemma_create_plan_no_dups(mons, sub, dead);
        if dead.contains(targets.last()) || !mons.contains(targets.last()) {
            assert(!sub.contains(targets.last())) by {
                if sub.contains(targets.last()) {
                    let i = choose|i: int| 0 <= i < sub.len() && sub[i] == targets.last();
                    assert(targets[i] == targets[targets.len() - 1]);
                }
            }
            assert(!create_plan(mons, sub, dead).contains(targets.last())) by {
                lemma_create_plan_contains(mons, sub, dead, targets.last());
            }
            lemma_push_no_dups(create_plan(mons, sub, dead), targets.last());
        }
    }
}

/// At-most-one monitor per target: a refresh of a duplicate-free monitor set
/// against a duplicate-free target set yields a duplicate-free monitor set,
/// and it holds exactly the wanted targets.
pub proof fn lemma_refreshed_wf(mons: Seq<TargetId>, targets: Seq<TargetId>, dead: Seq<TargetId>)
    requires
        no_dups(mons),
        no_dups(targets),
    ensures
        no_dups(refreshed(mons, targets, dead)),
        forall|t: TargetId| refreshed(mons, targets, dead).contains(t) <==> targets.contains(t),
{
    let kept = kept_monitors(mons, targets, dead);
    let created = create_plan(mons, targets, dead);
    lemma_kept_monitors_no_dups(mons, targets, dead);
    lemma_create_plan_no_dups(mons, targets, dead);
    assert forall|t: TargetId| !(kept.contains(t) && created.contains(t)) by {
        lemma_kept_monitors_contains(mons, targets, dead, t);
        lemma_create_plan_contains(mons, targets, dead, t);
    }
    lemma_concat_no_dups(kept, created);
    assert forall|t: TargetId|
        refreshed(mons, targets, dead).contains(t) <==> targets.contains(t) by {
        lemma_add_contains(kept, created, t);
        lemma_kept_monitors_contains(mons, targets, dead, t);
        lemma_create_plan_contains(mons, targets, dead, t);
    }
}

/// Membership after removing one target's monitor.
pub proof fn lemma_without_one_contains(s: Seq<TargetId>, t: TargetId, x: TargetId)
    ensures
        without_one(s, t).contains(x) <==> s.contains(x) && x != t,
    decreases s.len(),
{
    if s.len() > 0 {
        lemma_without_one_contains(s.drop_last(), t, x);
        lemma_drop_last_contains(s, x);
        if s.last() != t {
            lemma_push_contains(without_one(s.drop_last(), t), s.last(), x);
        }
    }
}

/// Membership after removing one target's monitor, for every target.
pub proof fn lemma_without_one_contains_all(s: Seq<TargetId>, t: TargetId)
    ensures
        forall|x: TargetId| without_one(s, t).contains(x) <==> s.contains(x) && x != t,
{
    assert forall|x: TargetId|
        without_one(s, t).contains(x) <==> s.contains(x) && x != t by {
        lemma_without_one_contains(s, t, x);
    }
}

/// Removing one target's monitor keeps the set duplicate-free.
pub proof fn lemma_without_one_no_dups(s: Seq<TargetId>, t: TargetId)
    requires
        no_dups(s),
    ensures
        no_dups(without_one(s, t)),
    decreases s.len(),
{
    if s.len() > 0 {
        let sub = s.drop_last();
        assert(no_dups(sub)) by {
            assert(forall|i: int| 0 <= i < sub.len() ==> sub[i] == s[i]);
        }
        lemma_without_one_no_dups(sub, t);
        if s.last() != t {
            assert(!sub.contains(s.last())) by {
                if sub.contains(s.last()) {
                    let i = choose|i: int| 0 <= i < sub.len() && sub[i] == s.last();
                    assert(s[i] == s[s.len() - 1]);
                }
            }
            assert(!without_one(sub, t).contains(s.last())) by {
                lemma_without_one_contains(sub, t, s.last());
            }
            lemma_push_no_dups(without_one(sub, t), s.last());
        }
    }
}

/// Idempotent target replacement: once the monitor set holds exactly the
/// wanted targets, a second refresh with the same targets and no newly dead
/// monitors plans no teardown and no creation.
pub proof fn lemma_refresh_idempotent(mons: Seq<TargetId>, targets: Seq<TargetId>)
    requires
        forall|t: TargetId| mons.contains(t) <==> targets.contains(t),
    ensures
        destroy_plan(mons, targets, Seq::empty()) == Seq::<TargetId>::empty(),
        create_plan(mons, targets, Seq::empty()) == Seq::<TargetId>::empty(),
{
    lemma_destroy_plan_empty(mons, targets);
    lemma_create_plan_empty(mons, targets);
}

/// With no dead monitors, nothing still wanted is torn down.
proof fn lemma_destroy_plan_empty(mons: Seq<TargetId>, targets: Seq<TargetId>)
    requires
        forall|t: TargetId| mons.contains(t) ==> targets.contains(t),
    ensures
        destroy_plan(mons, targets, Seq::empty()) == Seq::<TargetId>::empty(),
    decreases mons.len(),
{
    if mons.len() > 0 {
        let sub = mons.drop_last();
        assert forall|t: TargetId| sub.contains(t) implies targets.contains(t) by {
            lemma_drop_last_contains(mons, t);
        }
        lemma_destroy_plan_empty(sub, targets);
        assert(mons.contains(mons.last())) by {
            assert(mons[mons.len() - 1] == mons.last());
        }
    }
}

/// With no dead monitors, nothing already monitored is created again.
proof fn lemma_create_plan_empty(mons: Seq<TargetId>, targets: Seq<TargetId>)
    requires
        forall|t: TargetId| targets.contains(t) ==> mons.contains(t),
    ensures
        create_plan(mons, targets, Seq::empty()) == Seq::<TargetId>::empty(),
    decreases targets.len(),
{
    if targets.len() > 0 {
        let sub = targets.drop_last();
        assert forall|t: TargetId| sub.contains(t) implies mons.contains(t) by {
            lemma_drop_last_contains(targets, t);
        }
        lemma_create_plan_empty(mons, sub);
        assert(targets.contains(targets.last())) by {
            assert(targets[targets.len() - 1] == targets.last());
        }
    }
}

/// Bounded staleness: after one refresh against targets `T`, and after the
/// monitors whose creation the server then refused are dropped, the set
/// holds exactly `T` minus those failed targets — one tick suffices.
pub proof fn lemma_bounded_staleness(
    mons: Seq<TargetId>,
    targets: Seq<TargetId>,
    dead: Seq<TargetId>,
    failed: Seq<TargetId>,
)
    requires
        no_dups(mons),
        no_dups(targets),
    ensures
        forall|t: TargetId|
            (refreshed(mons, targets, dead).contains(t) && !failed.contains(t)) <==> (
            targets.contains(t) && !failed.contains(t)),
{
    lemma_refreshed_wf(mons, targets, dead);
}

} // verus!
