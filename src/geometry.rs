use vstd::prelude::*;

use crate::bits::{is_nan, less, less_eq, lt, rank, sign_set, ZERO};

verus! {

/// Which root of a ray/sphere quadratic a hit lies at.
#[derive(Clone, Copy, Debug, PartialEq, Eq, Structural)]
pub enum Root {
    /// The smaller root, `(-half_b - sqrt(d)) / a`.
    Near,
    /// The larger root, `(-half_b + sqrt(d)) / a`.
    Far,
}

/// A root `t` is accepted unless `t < t_min` or `t > t_max`.
pub open spec fn accepted(t: u32, t_min: u32, t_max: u32) -> bool {
    !(less(t, t_min) || less(t_max, t))
}

/// The root of a sphere hit: the near root when it is accepted, else the far
/// root when that one is, else none.
pub open spec fn chosen_root(near: u32, far: u32, t_min: u32, t_max: u32) -> Option<Root> {
    if accepted(near, t_min, t_max) {
        Some(Root::Near)
    } else if accepted(far, t_min, t_max) {
        Some(Root::Far)
    } else {
        None
    }
}

/// Picks which root of a sphere's quadratic is the hit within `[t_min, t_max]`.
/// All four arguments are bit patterns of binary32 values.
pub fn pick_root(near: u32, far: u32, t_min: u32, t_max: u32) -> (r: Option<Root>)
    ensures
        r == chosen_root(near, far, t_min, t_max),
{
    if !(lt(near, t_min) || lt(t_max, near)) {
        Some(Root::Near)
    } else if !(lt(far, t_min) || lt(t_max, far)) {
        Some(Root::Far)
    } else {
        None
    }
}

/// Whether a ray meets a surface from its outer side: the dot product of the
/// ray's direction with the outward normal (given by its bit pattern) is
/// below zero. The stored normal is the outward one exactly when this holds,
/// else its negation.
pub fn front_face(dot: u32) -> (r: bool)
    ensures
        r == less(dot, ZERO),
{
    lt(dot, ZERO)
}

/// Bit pattern of `-x` for the binary32 value with bit pattern `b`: the
/// sign bit flipped. Negating one factor of a dot product negates the
/// product exactly, so this is also the dot product with the negated normal.
pub open spec fn negated(b: u32) -> u32 {
    if sign_set(b) {
        (b - 0x8000_0000) as u32
    } else {
        (b + 0x8000_0000) as u32
    }
}

/// The normal stored with a hit never points along the ray: given the dot
/// product of the ray's direction with the outward normal, the dot product
/// with the stored normal (the outward one on a front face, its negation
/// otherwise) is at most zero, unless the product is a NaN.
pub proof fn lemma_stored_normal_faces_ray(dot: u32)
    requires
        !is_nan(dot),
    ensures
        less_eq(if less(dot, ZERO) { dot } else { negated(dot) }, ZERO),
{
}

/// The member of a scene whose hit is kept, given the hit distance reported
/// by each member in order (`None` for a miss). A later hit replaces the kept
/// one only when it is strictly closer, so among equal distances the earliest
/// stays.
pub open spec fn closest(hits: Seq<Option<u32>>) -> Option<int>
    decreases hits.len(),
{
    if hits.len() == 0 {
        None
    } else {
        let prev = closest(hits.drop_last());
        let last = hits.len() - 1;
        match hits[last] {
            None => prev,
            Some(t) => match prev {
                None => Some(last),
                Some(i) => if less(t, hits[i].unwrap()) {
                    Some(last)
                } else {
                    prev
                },
            },
        }
    }
}

/// The kept member is always one that reported a hit.
pub proof fn lemma_closest_is_hit(hits: Seq<Option<u32>>)
    ensures
        closest(hits) matches Some(i) ==> 0 <= i < hits.len() && hits[i] is Some,
    decreases hits.len(),
{
    if hits.len() > 0 {
        lemma_closest_is_hit(hits.drop_last());
    }
}

/// Where no reported distance is a NaN, the kept member is the one with the
/// smallest distance, the earliest among equals, and there is none exactly
/// when no member reports a hit.
pub proof fn lemma_closest_is_nearest(hits: Seq<Option<u32>>)
    requires
        forall|j: int| 0 <= j < hits.len() && hits[j] is Some ==> !is_nan(#[trigger] hits[j].unwrap()),
    ensures
        closest(hits) is None <==> forall|j: int| 0 <= j < hits.len() ==> #[trigger] hits[j] is None,
        closest(hits) matches Some(i) ==> {
            &&& 0 <= i < hits.len()
            &&& hits[i] is Some
            &&& forall|j: int|
                0 <= j < hits.len() && #[trigger] hits[j] is Some ==> rank(hits[i].unwrap()) <= rank(
                    hits[j].unwrap(),
                )
            &&& forall|j: int|
                0 <= j < i && #[trigger] hits[j] is Some ==> rank(hits[i].unwrap()) < rank(
                    hits[j].unwrap(),
                )
        },
    decreases hits.len(),
{
    if hits.len() > 0 {
        let init = hits.drop_last();
        assert forall|j: int| 0 <= j < init.len() && init[j] is Some implies !is_nan(
            #[trigger] init[j].unwrap(),
        ) by {
            assert(init[j] == hits[j]);
        }
        lemma_closest_is_nearest(init);
        let last = hits.len() - 1;
        if closest(init) is None {
            assert forall|j: int| 0 <= j < last implies #[trigger] hits[j] is None by {
                assert(init[j] == hits[j]);
            }
        } else {
            let i = closest(init).unwrap();
            assert(init[i] == hits[i]);
            assert forall|j: int| 0 <= j < last && #[trigger] hits[j] is Some implies rank(
                hits[i].unwrap(),
            ) <= rank(hits[j].unwrap()) by {
                assert(init[j] == hits[j]);
            }
            assert forall|j: int| 0 <= j < i && #[trigger] hits[j] is Some implies rank(
                hits[i].unwrap(),
            ) < rank(hits[j].unwrap()) by {
                assert(init[j] == hits[j]);
            }
        }
    }
}

/// Index of the scene member whose hit is kept, given each member's reported
/// hit distance (bit pattern of a binary32 value) in scene order.
pub fn closest_hit(hits: &Vec<Option<u32>>) -> (r: Option<usize>)
    ensures
        match r {
            None => closest(hits@) is None,
            Some(i) => closest(hits@) == Some(i as int),
        },
{
    let mut best: Option<usize> = None;
    let mut best_t: u32 = 0;
    let mut k: usize = 0;
    while k < hits.len()
        invariant
            0 <= k <= hits.len(),
            match best {
                None => closest(hits@.take(k as int)) is None,
                Some(i) => closest(hits@.take(k as int)) == Some(i as int) && i < k && hits@[i as int]
                    == Some(best_t),
            },
        decreases hits.len() - k,
    {
        assert(hits@.take(k + 1).drop_last() =~= hits@.take(k as int));
        match hits[k] {
            None => {},
            Some(t) => {
                match best {
                    None => {
                        best = Some(k);
                        best_t = t;
                    },
                    Some(i) => {
                        assert(hits@.take(k + 1)[i as int] == hits@[i as int]);
                        if lt(t, best_t) {
                            best = Some(k);
                            best_t = t;
                        }
                    },
                }
            },
        }
        k = k + 1;
    }
    assert(hits@.take(hits.len() as int) =~= hits@);
    best
}

} // verus!
