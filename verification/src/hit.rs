//! Closest-hit selection.
//!
//! The front end intersects the ray with every plane and every sphere in
//! scene order, applies the floating-point guards (parallel-direction
//! tolerance, self-intersection minimum distance), and hands over one
//! candidate per surviving primitive. A hit distance is carried as the bit
//! pattern of the positive IEEE-754 single it came from; positive singles
//! order exactly as their bit patterns do, so the verified selection
//! compares words and still picks the nearest surface.

use vstd::prelude::*;

verus! {

/// The bit pattern of the largest finite positive single: the sentinel
/// distance of a miss. The search starts from it, so a candidate at or
/// beyond it never registers.
pub const NO_HIT_T_BITS: u32 = 0x7f7f_ffff;

/// The background material: what a ray that hits nothing behaves as having
/// hit.
pub const BACKGROUND_MATERIAL: usize = 0;

/// One primitive the ray might hit: its distance along the ray (as the bit
/// pattern of a positive single) and its material index.
#[derive(Clone, Copy)]
pub struct CandidateHit {
    pub t_bits: u32,
    pub material: usize,
}

/// The nearest hit along a ray, or the background when nothing qualifies.
/// `candidate` names the winning entry so the caller can recover what the
/// verified core does not carry (the surface normal).
pub struct Hit {
    pub t_bits: u32,
    pub material: usize,
    pub candidate: Option<usize>,
}

/// `i` names the candidate the closest-hit policy picks: strictly nearer
/// than the sentinel, no candidate nearer, and the first of its distance in
/// scene order (a later candidate at the same distance never displaces an
/// earlier one).
pub open spec fn is_closest(cands: Seq<CandidateHit>, i: int) -> bool {
    &&& 0 <= i < cands.len()
    &&& cands[i].t_bits < NO_HIT_T_BITS
    &&& forall|j: int| 0 <= j < cands.len() ==> cands[i].t_bits <= (#[trigger] cands[j]).t_bits
    &&& forall|j: int| 0 <= j < i ==> cands[i].t_bits < (#[trigger] cands[j]).t_bits
}

/// Pick the nearest candidate, ties going to the earliest in scene order;
/// with no candidate nearer than the sentinel, report the background with
/// the sentinel distance.
pub fn resolve_hit(cands: &Vec<CandidateHit>) -> (h: Hit)
    ensures
        match h.candidate {
            Some(i) => {
                &&& is_closest(cands@, i as int)
                &&& h.t_bits == cands@[i as int].t_bits
                &&& h.material == cands@[i as int].material
            },
            None => {
                &&& forall|j: int|
                    0 <= j < cands@.len() ==> (#[trigger] cands@[j]).t_bits >= NO_HIT_T_BITS
                &&& h.t_bits == NO_HIT_T_BITS
                &&& h.material == BACKGROUND_MATERIAL
            },
        },
{
    let mut best = Hit { t_bits: NO_HIT_T_BITS, material: BACKGROUND_MATERIAL, candidate: None };
    let mut k: usize = 0;
    while k < cands.len()
        invariant
            k <= cands.len(),
            match best.candidate {
                Some(i) => {
                    &&& 0 <= i < k
                    &&& best.t_bits == cands@[i as int].t_bits
                    &&& best.material == cands@[i as int].material
                    &&& best.t_bits < NO_HIT_T_BITS
                    &&& forall|j: int|
                        0 <= j < k ==> best.t_bits <= (#[trigger] cands@[j]).t_bits
                    &&& forall|j: int| 0 <= j < i ==> best.t_bits < (#[trigger] cands@[j]).t_bits
                },
                None => {
                    &&& forall|j: int|
                        0 <= j < k ==> (#[trigger] cands@[j]).t_bits >= NO_HIT_T_BITS
                    &&& best.t_bits == NO_HIT_T_BITS
                    &&& best.material == BACKGROUND_MATERIAL
                },
            },
        decreases cands.len() - k,
    {
        let c = cands[k];
        if c.t_bits < best.t_bits {
            best = Hit { t_bits: c.t_bits, material: c.material, candidate: Some(k) };
        }
        k = k + 1;
    }
    best
}

/// The closest-hit policy is deterministic: at most one candidate satisfies
/// it.
pub proof fn lemma_closest_unique(cands: Seq<CandidateHit>, i: int, j: int)
    requires
        is_closest(cands, i),
        is_closest(cands, j),
    ensures
        i == j,
{
}

} // verus!
