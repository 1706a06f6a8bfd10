use vstd::prelude::*;

use crate::errors::PlanError;
use crate::topography::{Coord, Topography};

verus! {

/// A fixed point-to-point transport between two grid coordinates.
#[derive(Clone, Copy, PartialEq, Eq, Structural, Debug)]
pub struct Lift {
    pub start: Coord,
    pub end: Coord,
}

/// The static planning input: one terrain and an ordered list of lifts,
/// read-only for the duration of a planning run.
pub struct World {
    pub topography: Topography,
    pub lifts: Vec<Lift>,
}

impl World {
    /// The structural invariant: a well-formed terrain, and every lift
    /// endpoint within its bounds.
    pub open spec fn wf(self) -> bool {
        &&& self.topography.wf()
        &&& forall|i: int|
            0 <= i < self.lifts@.len() ==> self.topography.in_bounds(
                (#[trigger] self.lifts@[i]).start,
            ) && self.topography.in_bounds(self.lifts@[i].end)
    }

    /// Assembles a world, validating every lift endpoint against the
    /// terrain's dimensions; `OutOfBounds` exactly when one lies outside.
    pub fn new(topography: Topography, lifts: Vec<Lift>) -> (r: Result<World, PlanError>)
        requires
            topography.wf(),
        ensures
            (forall|i: int|
                0 <= i < lifts@.len() ==> topography.in_bounds((#[trigger] lifts@[i]).start)
                    && topography.in_bounds(lifts@[i].end)) <==> r is Ok,
            r is Ok ==> r->Ok_0.wf() && r->Ok_0.topography == topography && r->Ok_0.lifts@
                == lifts@,
            r is Err ==> r == Err::<World, PlanError>(PlanError::OutOfBounds),
    {
        let mut i: usize = 0;
        while i < lifts.len()
            invariant
                i <= lifts@.len(),
                forall|j: int|
                    0 <= j < i ==> topography.in_bounds((#[trigger] lifts@[j]).start)
                        && topography.in_bounds(lifts@[j].end),
            decreases lifts@.len() - i,
        {
            let lift = lifts[i];
            if !(lift.start.x < topography.width && lift.start.y < topography.height
                && lift.end.x < topography.width && lift.end.y < topography.height) {
                return Err(PlanError::OutOfBounds);
            }
            i = i + 1;
        }
        Ok(World { topography, lifts })
    }
}

/// The sample world the reporting program runs on: a 100 by 100 cone
/// falling away from its center at (50, 50), with one lift from (0, 0) to
/// (10, 10).
pub fn new_world() -> (w: World)
    ensures
        w.wf(),
        w.topography.width == 100,
        w.topography.height == 100,
        forall|x: int, y: int|
            0 <= x < 100 && 0 <= y < 100 ==> w.topography.heights@[x * 100 + y]
                == #[trigger] crate::topography::spec_cone_height(x, y, 50, 50, -1),
        w.lifts@.len() == 1,
        w.lifts@[0] == (Lift { start: Coord { x: 0, y: 0 }, end: Coord { x: 10, y: 10 } }),
{
    let topography = Topography::cone(100, 100, 50, 50, -1);
    let mut lifts: Vec<Lift> = Vec::new();
    lifts.push(Lift { start: Coord { x: 0, y: 0 }, end: Coord { x: 10, y: 10 } });
    World { topography, lifts }
}

} // verus!
