use vstd::prelude::*;

verus! {

/// What the scene and the hit surface's material answered for one cast ray.
#[derive(Clone, Copy, Debug, PartialEq, Eq, Structural)]
pub enum Bounce {
    /// Nothing was hit: the ray sees the background.
    Missed,
    /// A surface was hit and its material absorbed the ray.
    Absorbed,
    /// A surface was hit and its material scattered the ray, with an attenuation.
    Scattered,
}

/// What a path does next.
#[derive(Clone, Copy, Debug, PartialEq, Eq, Structural)]
pub enum Step {
    /// The path ends black.
    Black,
    /// The path ends in the background gradient of the last ray's direction,
    /// times the attenuations gathered on the way.
    Background,
    /// Cast the current ray into the scene, with `depth` bounces left.
    Cast { depth: u32 },
}

/// A path with `depth` bounces left: none left means black.
pub open spec fn start_step(depth: u32) -> Step {
    if depth == 0 {
        Step::Black
    } else {
        Step::Cast { depth }
    }
}

/// The step after a ray cast with `depth > 0` bounces left came back with `bounce`.
pub open spec fn next_step(depth: u32, bounce: Bounce) -> Step
    recommends
        depth > 0,
{
    match bounce {
        Bounce::Missed => Step::Background,
        Bounce::Absorbed => Step::Black,
        Bounce::Scattered => start_step((depth - 1) as u32),
    }
}

/// The first step of a path allowed `depth` bounces.
pub fn start(depth: u32) -> (r: Step)
    ensures
        r == start_step(depth),
        depth == 0 ==> r == Step::Black,
{
    if depth == 0 {
        Step::Black
    } else {
        Step::Cast { depth }
    }
}

/// The step that follows a cast made with `depth` bounces left.
pub fn next(depth: u32, bounce: Bounce) -> (r: Step)
    requires
        depth > 0,
    ensures
        r == next_step(depth, bounce),
{
    match bounce {
        Bounce::Missed => Step::Background,
        Bounce::Absorbed => Step::Black,
        Bounce::Scattered => start(depth - 1),
    }
}

/// The step a path allowed `depth` bounces has reached once the casts it
/// made were answered by `bounces`, in order; answers left over after the
/// path ended are not read.
pub open spec fn run(depth: u32, bounces: Seq<Bounce>) -> Step
    decreases bounces.len(),
{
    match start_step(depth) {
        Step::Cast { depth: d } => if bounces.len() == 0 {
            Step::Cast { depth: d }
        } else {
            match next_step(d, bounces[0]) {
                Step::Cast { depth: e } => run(e, bounces.drop_first()),
                end => end,
            }
        },
        end => end,
    }
}

/// A path allowed no bounce is black, whatever the scene and the ray.
pub proof fn lemma_no_depth_is_black(bounces: Seq<Bounce>)
    ensures
        run(0, bounces) == Step::Black,
{
}

/// A path allowed `depth` bounces casts at most `depth` rays: after that many
/// answers it has ended, and each cast it still asks for has fewer bounces
/// left than it started with.
pub proof fn lemma_path_ends(depth: u32, bounces: Seq<Bounce>)
    ensures
        bounces.len() >= depth ==> !(run(depth, bounces) is Cast),
        run(depth, bounces) matches Step::Cast { depth: d } ==> 0 < d <= depth && d + bounces.len()
            == depth,
    decreases bounces.len(),
{
    if depth > 0 && bounces.len() > 0 {
        match next_step(depth, bounces[0]) {
            Step::Cast { depth: e } => lemma_path_ends(e, bounces.drop_first()),
            _ => {},
        }
    }
}

/// Whether the answer at `k` is the first that is not a scatter and is a miss.
pub open spec fn first_stop_is_miss(bounces: Seq<Bounce>, k: int) -> bool {
    &&& 0 <= k < bounces.len()
    &&& bounces[k] == Bounce::Missed
    &&& forall|j: int| 0 <= j < k ==> bounces[j] == Bounce::Scattered
}

/// A path ends in the background exactly when, within its allowed bounces,
/// the first answer that is not a scatter is a miss.
pub proof fn lemma_background_exactly(depth: u32, bounces: Seq<Bounce>)
    ensures
        run(depth, bounces) == Step::Background <==> exists|k: int|
            k < depth && #[trigger] first_stop_is_miss(bounces, k),
    decreases bounces.len(),
{
    if depth == 0 || bounces.len() == 0 {
        assert forall|k: int| k < depth implies !#[trigger] first_stop_is_miss(bounces, k) by {}
    } else {
        let rest = bounces.drop_first();
        match bounces[0] {
            Bounce::Missed => {
                assert(first_stop_is_miss(bounces, 0));
            },
            Bounce::Absorbed => {
                assert forall|k: int| k < depth implies !#[trigger] first_stop_is_miss(bounces, k) by {
                    if k > 0 && first_stop_is_miss(bounces, k) {
                        assert(bounces[0] == Bounce::Scattered);
                    }
                }
            },
            Bounce::Scattered => {
                let e = (depth - 1) as u32;
                lemma_background_exactly(e, rest);
                if run(depth, bounces) == Step::Background {
                    assert(depth > 1);
                    let k = choose|k: int| k < e && #[trigger] first_stop_is_miss(rest, k);
                    assert(first_stop_is_miss(bounces, k + 1)) by {
                        assert forall|j: int| 0 <= j < k + 1 implies bounces[j] == Bounce::Scattered by {
                            if j > 0 {
                                assert(rest[j - 1] == bounces[j]);
                            }
                        }
                    }
                }
                if exists|k: int| k < depth && #[trigger] first_stop_is_miss(bounces, k) {
                    let k = choose|k: int| k < depth && #[trigger] first_stop_is_miss(bounces, k);
                    assert(k > 0);
                    assert(first_stop_is_miss(rest, k - 1)) by {
                        assert forall|j: int| 0 <= j < k - 1 implies rest[j] == Bounce::Scattered by {
                            assert(rest[j] == bounces[j + 1]);
                        }
                    }
                    if e == 0 {
                        assert(false);
                    }
                }
            },
        }
    }
}

} // verus!
