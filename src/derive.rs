//! Which turns of an intersection become crosswalk strips and sidewalk-corner
//! fills.
//!
//! A crosswalk (and a shared sidewalk corner) is modelled as two opposite
//! turns over the same strip of pavement. Each physical artifact is kept
//! once: from the turn whose source lane flows into the intersection.
use vstd::prelude::*;
use crate::model::{IntersectionId, Lane, RoadNetwork, Turn, TurnId, TurnType, lanes_known, turn_ids_unique};

verus! {

/// `t` belongs to intersection `i`, has type `kind`, and its source lane flows
/// into `i`.
pub open spec fn qualifies(i: IntersectionId, lanes: Seq<Lane>, kind: TurnType, t: Turn) -> bool {
    &&& t.id.parent == i
    &&& t.turn_type == kind
    &&& lanes[t.id.src.0 as int].dst_i == i
}

/// The identities of the qualifying turns, in the order of `turns`.
pub open spec fn selected(i: IntersectionId, lanes: Seq<Lane>, kind: TurnType, turns: Seq<Turn>) -> Seq<TurnId>
    decreases turns.len(),
{
    if turns.len() == 0 {
        Seq::empty()
    } else {
        let prev = selected(i, lanes, kind, turns.drop_last());
        if qualifies(i, lanes, kind, turns.last()) {
            prev.push(turns.last().id)
        } else {
            prev
        }
    }
}

/// An identity is selected exactly when some qualifying turn carries it.
pub proof fn lemma_selected_contains(i: IntersectionId, lanes: Seq<Lane>, kind: TurnType, turns: Seq<Turn>, x: TurnId)
    ensures
        selected(i, lanes, kind, turns).contains(x) <==> exists|j: int|
            0 <= j < turns.len() && qualifies(i, lanes, kind, #[trigger] turns[j]) && turns[j].id == x,
    decreases turns.len(),
{
    if turns.len() > 0 {
        let init = turns.drop_last();
        lemma_selected_contains(i, lanes, kind, init, x);
        let prev = selected(i, lanes, kind, init);
        if selected(i, lanes, kind, turns).contains(x) {
            let k = choose|k: int| 0 <= k < selected(i, lanes, kind, turns).len()
                && selected(i, lanes, kind, turns)[k] == x;
            if k < prev.len() {
                assert(prev[k] == x);
                let j = choose|j: int| 0 <= j < init.len() && qualifies(i, lanes, kind, #[trigger] init[j]) && init[j].id == x;
                assert(turns[j] == init[j]);
            } else {
                assert(turns[turns.len() - 1] == turns.last());
            }
        }
        if exists|j: int| 0 <= j < turns.len() && qualifies(i, lanes, kind, #[trigger] turns[j]) && turns[j].id == x {
            let j = choose|j: int| 0 <= j < turns.len() && qualifies(i, lanes, kind, #[trigger] turns[j]) && turns[j].id == x;
            if j < init.len() {
                assert(init[j] == turns[j]);
                let k = choose|k: int| 0 <= k < prev.len() && prev[k] == x;
                if qualifies(i, lanes, kind, turns.last()) {
                    assert(prev.push(turns.last().id)[k] == x);
                }
            } else {
                assert(prev.push(turns.last().id)[prev.len() as int] == x);
            }
        }
    }
}

/// With unique turn identities no identity is selected twice.
pub proof fn lemma_selected_no_duplicates(i: IntersectionId, lanes: Seq<Lane>, kind: TurnType, turns: Seq<Turn>)
    requires
        turn_ids_unique(turns),
    ensures
        selected(i, lanes, kind, turns).no_duplicates(),
    decreases turns.len(),
{
    if turns.len() > 0 {
        let init = turns.drop_last();
        assert(turn_ids_unique(init)) by {
            assert forall|j: int, k: int|
                0 <= j < init.len() && 0 <= k < init.len() && #[trigger] init[j].id == #[trigger] init[k].id
                implies j == k by {
                assert(init[j] == turns[j] && init[k] == turns[k]);
            }
        }
        lemma_selected_no_duplicates(i, lanes, kind, init);
        let prev = selected(i, lanes, kind, init);
        let last = turns.last();
        if qualifies(i, lanes, kind, last) {
            lemma_selected_contains(i, lanes, kind, init, last.id);
            if prev.contains(last.id) {
                let j = choose|j: int| 0 <= j < init.len() && qualifies(i, lanes, kind, #[trigger] init[j]) && init[j].id == last.id;
                assert(turns[j] == init[j]);
                assert(turns[turns.len() - 1] == last);
            }
            let r = prev.push(last.id);
            assert forall|a: int, b: int| 0 <= a < r.len() && 0 <= b < r.len() && a != b implies r[a] != r[b] by {
                if a < prev.len() && b < prev.len() {
                    assert(r[a] == prev[a] && r[b] == prev[b]);
                } else if a < prev.len() {
                    assert(r[a] == prev[a]);
                } else if b < prev.len() {
                    assert(r[b] == prev[b]);
                }
            }
        }
    }
}

/// The identities of the turns of `i` in `network` of type `kind` whose
/// source lane flows into `i`.
pub fn select_turns(i: IntersectionId, network: &RoadNetwork, kind: TurnType) -> (r: Vec<TurnId>)
    requires
        network.wf(),
    ensures
        r@ == selected(i, network.lanes@, kind, network.turns@),
{
    let mut r: Vec<TurnId> = Vec::new();
    let mut k: usize = 0;
    while k < network.turns.len()
        invariant
            k <= network.turns@.len(),
            network.wf(),
            r@ == selected(i, network.lanes@, kind, network.turns@.subrange(0, k as int)),
        decreases network.turns@.len() - k,
    {
        let t = network.turns[k];
        let ghost s = network.turns@.subrange(0, k as int + 1);
        assert(s.drop_last() =~= network.turns@.subrange(0, k as int));
        assert(s.last() == t);
        assert(t.id.src.0 < network.lanes@.len());
        if t.id.parent == i && t.turn_type == kind && network.lanes[t.id.src.0].dst_i == i {
            r.push(t.id);
        }
        k = k + 1;
    }
    assert(network.turns@.subrange(0, k as int) =~= network.turns@);
    r
}

/// The turns of `i` whose crosswalk strip is drawn: one per physical crossing.
pub fn calculate_crosswalks(i: IntersectionId, network: &RoadNetwork) -> (r: Vec<TurnId>)
    requires
        network.wf(),
    ensures
        r@ == selected(i, network.lanes@, TurnType::Crosswalk, network.turns@),
{
    select_turns(i, network, TurnType::Crosswalk)
}

/// The turns of `i` whose sidewalk-corner fill is drawn: one per corner.
pub fn calculate_corners(i: IntersectionId, network: &RoadNetwork) -> (r: Vec<TurnId>)
    requires
        network.wf(),
    ensures
        r@ == selected(i, network.lanes@, TurnType::SharedSidewalkCorner, network.turns@),
{
    select_turns(i, network, TurnType::SharedSidewalkCorner)
}

/// An intersection without shared-sidewalk-corner turns gets no corner fills.
pub proof fn law_no_corner_turns_no_corners(i: IntersectionId, lanes: Seq<Lane>, turns: Seq<Turn>)
    requires
        forall|j: int| 0 <= j < turns.len() && (#[trigger] turns[j]).id.parent == i
            ==> turns[j].turn_type != TurnType::SharedSidewalkCorner,
    ensures
        selected(i, lanes, TurnType::SharedSidewalkCorner, turns).len() == 0,
{
    let r = selected(i, lanes, TurnType::SharedSidewalkCorner, turns);
    if r.len() > 0 {
        lemma_selected_contains(i, lanes, TurnType::SharedSidewalkCorner, turns, r[0]);
        assert(r.contains(r[0]));
    }
}

/// Of the two opposite crosswalk turns over one strip (`a` to `b` and `b` to
/// `a`, where only lane `a` flows into the intersection), exactly one strip is
/// produced: the result holds the first turn's identity once and never the
/// second's.
pub proof fn law_crosswalk_pair_once(i: IntersectionId, lanes: Seq<Lane>, turns: Seq<Turn>, there: Turn, back: Turn)
    requires
        lanes_known(lanes, turns),
        turn_ids_unique(turns),
        turns.contains(there),
        turns.contains(back),
        there.turn_type == TurnType::Crosswalk,
        back.turn_type == TurnType::Crosswalk,
        there.id.parent == i,
        back.id.parent == i,
        back.id.src == there.id.dst,
        back.id.dst == there.id.src,
        lanes[there.id.src.0 as int].dst_i == i,
        lanes[there.id.dst.0 as int].dst_i != i,
    ensures
        ({
            let r = selected(i, lanes, TurnType::Crosswalk, turns);
            exists|k: int|
                0 <= k < r.len() && r[k] == there.id && forall|m: int|
                    0 <= m < r.len() && m != k ==> #[trigger] r[m] != there.id && r[m] != back.id
        }),
{
    let kind = TurnType::Crosswalk;
    let r = selected(i, lanes, kind, turns);
    lemma_selected_no_duplicates(i, lanes, kind, turns);
    lemma_selected_contains(i, lanes, kind, turns, there.id);
    lemma_selected_contains(i, lanes, kind, turns, back.id);
    let jt = choose|j: int| 0 <= j < turns.len() && turns[j] == there;
    assert(qualifies(i, lanes, kind, turns[jt]));
    assert(r.contains(there.id));
    if r.contains(back.id) {
        let j = choose|j: int| 0 <= j < turns.len() && qualifies(i, lanes, kind, #[trigger] turns[j]) && turns[j].id == back.id;
        assert(false);
    }
    let k = choose|k: int| 0 <= k < r.len() && r[k] == there.id;
    assert forall|m: int| 0 <= m < r.len() && m != k implies #[trigger] r[m] != there.id && r[m] != back.id by {
        assert(r.contains(r[m]));
    }
}

} // verus!
