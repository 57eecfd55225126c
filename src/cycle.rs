//! Signal cycles and what drawing one of them paints.
use vstd::prelude::*;
use crate::model::{RoadNetwork, TurnId, find_turn, has_turn, is_sidewalk_turn};

verus! {

/// One timed phase of a traffic signal.
pub struct Cycle {
    pub parent: crate::model::IntersectionId,
    /// In tenths of a second.
    pub duration: u64,
    /// Turns protected during this phase.
    pub priority_turns: Vec<TurnId>,
    /// Turns allowed while yielding during this phase.
    pub yield_turns: Vec<TurnId>,
}

/// What a cycle allows a turn.
#[derive(Clone, Copy, Debug, PartialEq, Eq, Structural)]
pub enum TurnPriority {
    Banned,
    Yield,
    Priority,
}

pub open spec fn priority_of(priority: Seq<TurnId>, yielding: Seq<TurnId>, t: TurnId) -> TurnPriority {
    if priority.contains(t) {
        TurnPriority::Priority
    } else if yielding.contains(t) {
        TurnPriority::Yield
    } else {
        TurnPriority::Banned
    }
}

/// Whether `t` occurs in `ids`.
pub fn contains_turn(ids: &Vec<TurnId>, t: TurnId) -> (r: bool)
    ensures
        r == ids@.contains(t),
{
    let mut k: usize = 0;
    while k < ids.len()
        invariant
            k <= ids@.len(),
            forall|j: int| 0 <= j < k ==> ids@[j] != t,
        decreases ids@.len() - k,
    {
        if ids[k] == t {
            assert(ids@[k as int] == t);
            return true;
        }
        k = k + 1;
    }
    false
}

impl Cycle {
    /// Whether this cycle protects `t`, lets it go while yielding, or bans it.
    pub fn get_priority(&self, t: TurnId) -> (r: TurnPriority)
        ensures
            r == priority_of(self.priority_turns@, self.yield_turns@, t),
    {
        if contains_turn(&self.priority_turns, t) {
            TurnPriority::Priority
        } else if contains_turn(&self.yield_turns, t) {
            TurnPriority::Yield
        } else {
            TurnPriority::Banned
        }
    }
}

/// The crosswalks of `crosswalks` that `priority` protects, in order.
pub open spec fn walking(crosswalks: Seq<TurnId>, priority: Seq<TurnId>) -> Seq<TurnId>
    decreases crosswalks.len(),
{
    if crosswalks.len() == 0 {
        Seq::empty()
    } else {
        let prev = walking(crosswalks.drop_last(), priority);
        if priority.contains(crosswalks.last()) { prev.push(crosswalks.last()) } else { prev }
    }
}

/// The turns of `ids` whose paths are drawn: those not between sidewalks.
pub open spec fn paths(turns: Seq<crate::model::Turn>, ids: Seq<TurnId>) -> Seq<TurnId>
    decreases ids.len(),
{
    if ids.len() == 0 {
        Seq::empty()
    } else {
        let prev = paths(turns, ids.drop_last());
        if !is_sidewalk_turn(turns, ids.last()) { prev.push(ids.last()) } else { prev }
    }
}

/// What drawing one cycle paints.
pub struct CyclePlan {
    /// Crosswalk strips drawn in the crosswalk color.
    pub crosswalks: Vec<TurnId>,
    /// Turn paths drawn solid in the protected color.
    pub protected: Vec<TurnId>,
    /// Turn paths drawn dashed in the yielding color.
    pub yielding: Vec<TurnId>,
}

/// Every turn of `ids` is a turn of `turns`.
pub open spec fn all_known(turns: Seq<crate::model::Turn>, ids: Seq<TurnId>) -> bool {
    forall|j: int| 0 <= j < ids.len() ==> has_turn(turns, #[trigger] ids[j])
}

fn drawn_paths(network: &RoadNetwork, ids: &Vec<TurnId>) -> (r: Vec<TurnId>)
    requires
        network.wf(),
        all_known(network.turns@, ids@),
    ensures
        r@ == paths(network.turns@, ids@),
{
    let mut r: Vec<TurnId> = Vec::new();
    let mut k: usize = 0;
    while k < ids.len()
        invariant
            k <= ids@.len(),
            network.wf(),
            all_known(network.turns@, ids@),
            r@ == paths(network.turns@, ids@.subrange(0, k as int)),
        decreases ids@.len() - k,
    {
        let id = ids[k];
        let ghost s = ids@.subrange(0, k as int + 1);
        assert(s.drop_last() =~= ids@.subrange(0, k as int));
        assert(s.last() == id);
        assert(has_turn(network.turns@, ids@[k as int]));
        let idx = find_turn(&network.turns, id);
        if !network.turns[idx].between_sidewalks() {
            proof {
                if is_sidewalk_turn(network.turns@, id) {
                    let j = choose|j: int| 0 <= j < network.turns@.len() && network.turns@[j].id == id
                        && #[trigger] network.turns@[j].spec_between_sidewalks();
                    assert(network.turns@[j].id == network.turns@[idx as int].id);
                }
            }
            r.push(id);
        } else {
            assert(network.turns@[idx as int].spec_between_sidewalks());
        }
        k = k + 1;
    }
    assert(ids@.subrange(0, k as int) =~= ids@);
    r
}

/// Plans the drawing of `cycle`: the crosswalks of its intersection
/// (`crosswalks`) that it protects, then the paths of its protected and of its
/// yielding turns that do not join two sidewalks.
pub fn draw_signal_cycle(cycle: &Cycle, crosswalks: &Vec<TurnId>, network: &RoadNetwork) -> (r: CyclePlan)
    requires
        network.wf(),
        all_known(network.turns@, cycle.priority_turns@),
        all_known(network.turns@, cycle.yield_turns@),
    ensures
        r.crosswalks@ == walking(crosswalks@, cycle.priority_turns@),
        r.protected@ == paths(network.turns@, cycle.priority_turns@),
        r.yielding@ == paths(network.turns@, cycle.yield_turns@),
{
    let mut walk: Vec<TurnId> = Vec::new();
    let mut k: usize = 0;
    while k < crosswalks.len()
        invariant
            k <= crosswalks@.len(),
            walk@ == walking(crosswalks@.subrange(0, k as int), cycle.priority_turns@),
        decreases crosswalks@.len() - k,
    {
        let c = crosswalks[k];
        let ghost s = crosswalks@.subrange(0, k as int + 1);
        assert(s.drop_last() =~= crosswalks@.subrange(0, k as int));
        assert(s.last() == c);
        if cycle.get_priority(c) == TurnPriority::Priority {
            walk.push(c);
        }
        k = k + 1;
    }
    assert(crosswalks@.subrange(0, k as int) =~= crosswalks@);
    let protected = drawn_paths(network, &cycle.priority_turns);
    let yielding = drawn_paths(network, &cycle.yield_turns);
    CyclePlan { crosswalks: walk, protected, yielding }
}

/// No drawn path is a turn between two sidewalks.
pub proof fn law_paths_skip_sidewalk_turns(turns: Seq<crate::model::Turn>, ids: Seq<TurnId>)
    ensures
        forall|k: int| 0 <= k < paths(turns, ids).len() ==> !is_sidewalk_turn(turns, #[trigger] paths(turns, ids)[k]),
    decreases ids.len(),
{
    if ids.len() > 0 {
        law_paths_skip_sidewalk_turns(turns, ids.drop_last());
        let prev = paths(turns, ids.drop_last());
        if !is_sidewalk_turn(turns, ids.last()) {
            assert forall|k: int| 0 <= k < prev.len() + 1 implies !is_sidewalk_turn(turns, #[trigger] prev.push(ids.last())[k]) by {
                if k < prev.len() {
                    assert(prev.push(ids.last())[k] == prev[k]);
                }
            }
        }
    }
}

} // verus!
