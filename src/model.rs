//! The road-network topology that the renderer reads.
use vstd::prelude::*;

verus! {

/// Identifies an intersection.
#[derive(Clone, Copy, Debug, PartialEq, Eq, Structural)]
pub struct IntersectionId(pub usize);

/// Identifies a lane; it is the lane's index in `RoadNetwork::lanes`.
#[derive(Clone, Copy, Debug, PartialEq, Eq, Structural)]
pub struct LaneId(pub usize);

/// Identifies a turn: the intersection it crosses and the lanes it connects.
#[derive(Clone, Copy, Debug, PartialEq, Eq, Structural)]
pub struct TurnId {
    pub parent: IntersectionId,
    pub src: LaneId,
    pub dst: LaneId,
}

/// How a turn moves through its intersection.
#[derive(Clone, Copy, Debug, PartialEq, Eq, Structural)]
pub enum TurnType {
    Crosswalk,
    SharedSidewalkCorner,
    Straight,
    LaneChangeLeft,
    LaneChangeRight,
    Right,
    Left,
}

/// A directed movement from one lane to another.
#[derive(Clone, Copy, Debug, PartialEq, Eq, Structural)]
pub struct Turn {
    pub id: TurnId,
    pub turn_type: TurnType,
}

impl Turn {
    pub open spec fn spec_between_sidewalks(&self) -> bool {
        self.turn_type == TurnType::Crosswalk || self.turn_type == TurnType::SharedSidewalkCorner
    }

    /// Whether the turn joins two sidewalks (a crosswalk or a shared corner).
    #[verifier::when_used_as_spec(spec_between_sidewalks)]
    pub fn between_sidewalks(&self) -> (r: bool)
        ensures
            r == self.spec_between_sidewalks(),
    {
        match self.turn_type {
            TurnType::Crosswalk | TurnType::SharedSidewalkCorner => true,
            _ => false,
        }
    }
}

/// A lane, reduced to the intersections at its two ends.
#[derive(Clone, Copy, Debug, PartialEq, Eq, Structural)]
pub struct Lane {
    /// The intersection the lane leaves.
    pub src_i: IntersectionId,
    /// The intersection the lane flows into.
    pub dst_i: IntersectionId,
}

/// The lanes and turns of a map.
pub struct RoadNetwork {
    /// Indexed by `LaneId`.
    pub lanes: Vec<Lane>,
    pub turns: Vec<Turn>,
}

/// Every turn names lanes that exist.
pub open spec fn lanes_known(lanes: Seq<Lane>, turns: Seq<Turn>) -> bool {
    forall|j: int|
        0 <= j < turns.len() ==> #[trigger] turns[j].id.src.0 < lanes.len()
            && turns[j].id.dst.0 < lanes.len()
}

/// No two turns share an identity.
pub open spec fn turn_ids_unique(turns: Seq<Turn>) -> bool {
    forall|j: int, k: int|
        0 <= j < turns.len() && 0 <= k < turns.len() && #[trigger] turns[j].id
            == #[trigger] turns[k].id ==> j == k
}

impl RoadNetwork {
    /// Every turn names lanes that exist, and turn identities are unique.
    pub open spec fn wf(&self) -> bool {
        lanes_known(self.lanes@, self.turns@) && turn_ids_unique(self.turns@)
    }
}

/// The turn of `turns` with identity `id` joins two sidewalks.
pub open spec fn is_sidewalk_turn(turns: Seq<Turn>, id: TurnId) -> bool {
    exists|j: int| 0 <= j < turns.len() && turns[j].id == id && #[trigger] turns[j].spec_between_sidewalks()
}

/// Some turn of `turns` has identity `id`.
pub open spec fn has_turn(turns: Seq<Turn>, id: TurnId) -> bool {
    exists|j: int| 0 <= j < turns.len() && #[trigger] turns[j].id == id
}

/// Index of the turn with identity `id`.
pub fn find_turn(turns: &Vec<Turn>, id: TurnId) -> (r: usize)
    requires
        has_turn(turns@, id),
    ensures
        r < turns@.len(),
        turns@[r as int].id == id,
{
    let mut k: usize = 0;
    while k < turns.len()
        invariant
            k <= turns@.len(),
            has_turn(turns@, id),
            forall|j: int| 0 <= j < k ==> turns@[j].id != id,
        decreases turns@.len() - k,
    {
        if turns[k].id == id {
            return k;
        }
        k = k + 1;
    }
    proof {
        let j = choose|j: int| 0 <= j < turns@.len() && #[trigger] turns@[j].id == id;
        assert(turns@[j].id != id);
    }
    0
}

} // verus!
