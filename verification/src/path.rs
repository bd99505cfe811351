//! Bounce control for one path.
//!
//! The integrator alternates floating-point work (intersect, shade,
//! accumulate) with one integer decision per bounce: add the hit material's
//! emission, then stop if the ray hit the background or the bounce budget
//! is spent, else follow the regenerated ray. The front end performs the
//! arithmetic; this state machine makes the decision and is what guarantees
//! that every path ends.

use vstd::prelude::*;

use crate::hit::BACKGROUND_MATERIAL;

verus! {

/// The control state of one path: how many shade events have happened, the
/// bounce budget, and whether the path is over.
pub struct PathControl {
    pub bounces_done: u32,
    pub max_bounces: u32,
    pub finished: bool,
}

impl PathControl {
    /// A live path never has spent more than its budget, and a path that
    /// has spent it all is finished.
    pub open spec fn wf(self) -> bool {
        &&& self.bounces_done <= self.max_bounces
        &&& self.bounces_done == self.max_bounces ==> self.finished
    }

    /// The state a path starts in.
    pub open spec fn spec_new(max_bounces: u32) -> PathControl {
        PathControl { bounces_done: 0, max_bounces, finished: max_bounces == 0 }
    }

    /// The state after one shade event on a live path: one more bounce
    /// spent; finished exactly when the ray hit the background or the
    /// budget is now spent. A finished path does not move.
    pub open spec fn spec_step(self, material: usize) -> PathControl {
        if self.finished {
            self
        } else {
            PathControl {
                bounces_done: (self.bounces_done + 1) as u32,
                max_bounces: self.max_bounces,
                finished: material == BACKGROUND_MATERIAL || self.bounces_done + 1
                    == self.max_bounces,
            }
        }
    }

    pub fn new(max_bounces: u32) -> (r: PathControl)
        ensures
            r == PathControl::spec_new(max_bounces),
            r.wf(),
    {
        PathControl { bounces_done: 0, max_bounces, finished: max_bounces == 0 }
    }

    /// Record one shade event: the front end has just added the emission of
    /// `material` (weighted by the path's attenuation) and asks whether to
    /// bounce again. Returns true exactly when the path goes on.
    pub fn on_hit(&mut self, material: usize) -> (cont: bool)
        requires
            old(self).wf(),
            !old(self).finished,
        ensures
            *final(self) == old(self).spec_step(material),
            final(self).wf(),
            cont == !final(self).finished,
    {
        self.bounces_done = self.bounces_done + 1;
        self.finished = material == BACKGROUND_MATERIAL || self.bounces_done == self.max_bounces;
        !self.finished
    }
}

/// The whole of one path's control run: step through the materials the
/// path would hit, in order, until it finishes or they run out.
pub open spec fn run_path(s: PathControl, mats: Seq<usize>) -> PathControl
    decreases mats.len(),
{
    if mats.len() == 0 || s.finished {
        s
    } else {
        run_path(s.spec_step(mats[0]), mats.drop_first())
    }
}

/// A finished path stays where it is, whatever else it would have hit.
pub proof fn lemma_run_path_finished(s: PathControl, mats: Seq<usize>)
    requires
        s.finished,
    ensures
        run_path(s, mats) == s,
    decreases mats.len(),
{
    if mats.len() != 0 {
        lemma_run_path_finished(s, mats.drop_first());
    }
}

/// Termination determinism: on a background-only scene — the first hit is
/// the background — the path performs exactly one shade event and stops,
/// whatever the bounce budget and whatever would have come later. The one
/// event contributes the background material's emission at full
/// attenuation, so the result is that emission alone, for every budget.
pub proof fn lemma_background_terminates_first(max_bounces: u32, mats: Seq<usize>)
    requires
        max_bounces >= 1,
        mats.len() >= 1,
        mats[0] == BACKGROUND_MATERIAL,
    ensures
        run_path(PathControl::spec_new(max_bounces), mats) == (PathControl {
            bounces_done: 1u32,
            max_bounces,
            finished: true,
        }),
{
    let s0 = PathControl::spec_new(max_bounces);
    lemma_run_path_finished(s0.spec_step(mats[0]), mats.drop_first());
}

/// The bounce budget is honoured: a run never performs more shade events
/// than `max_bounces`, so every path ends.
pub proof fn lemma_run_path_bounded(s: PathControl, mats: Seq<usize>)
    requires
        s.wf(),
    ensures
        run_path(s, mats).wf(),
        run_path(s, mats).bounces_done <= s.max_bounces,
        run_path(s, mats).max_bounces == s.max_bounces,
    decreases mats.len(),
{
    if mats.len() != 0 && !s.finished {
        lemma_run_path_bounded(s.spec_step(mats[0]), mats.drop_first());
    }
}

} // verus!
