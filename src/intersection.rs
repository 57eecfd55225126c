//! An intersection's renderer: its footprint, the crosswalks and sidewalk
//! corners derived once from the topology, and the plan of one draw.
use vstd::prelude::*;
use crate::color::{Color, ColorKey, Paint};
use crate::derive::{calculate_corners, calculate_crosswalks, selected};
use crate::geometry::{Bounds, Pt, average, bounds_of, fits_i64, inside_ring, is_bounds_of, open_ring, ring_center, ring_contains};
use crate::model::{IntersectionId, RoadNetwork, TurnId, TurnType};

verus! {

/// Camera zoom, in hundredths, from which lane markings are drawn.
pub const MIN_ZOOM_FOR_MARKINGS: u64 = 500;

/// How an intersection is controlled.
#[derive(Clone, Copy, Debug, PartialEq, Eq, Structural)]
pub enum IntersectionType {
    Border,
    StopSign,
    TrafficSignal,
}

/// An intersection of the map.
pub struct Intersection {
    pub id: IntersectionId,
    /// A closed ring: the last point repeats the first.
    pub polygon: Vec<Pt>,
    pub intersection_type: IntersectionType,
}

/// How the host asks for an intersection to be drawn.
#[derive(Clone, Copy, Debug, PartialEq, Eq, Structural)]
pub struct RenderOptions {
    /// Overrides the footprint's color.
    pub color: Option<Color>,
    /// Number the footprint's vertices instead of drawing details.
    pub debug_mode: bool,
}

/// What the scene knows at the time of a draw.
#[derive(Clone, Copy, Debug, PartialEq, Eq, Structural)]
pub struct SceneView {
    /// Camera zoom, in hundredths.
    pub cam_zoom: u64,
    /// An intersection whose signal details are not drawn.
    pub suppress_traffic_signal_details: Option<IntersectionId>,
    /// The intersection's signal has run past its cycle's duration.
    pub signal_in_overtime: bool,
    /// The index of the signal's current cycle.
    pub current_cycle: usize,
}

/// One drawing step of an intersection.
#[derive(Clone, Copy, Debug, PartialEq, Eq, Structural)]
pub enum SceneCmd {
    /// Fill the footprint.
    FillFootprint(Paint),
    /// Write `number` at a vertex of the footprint.
    VertexNumber { number: usize, at: Pt },
    /// Fill the sidewalk corner of this turn in the sidewalk-corner color.
    SidewalkCorner { turn: TurnId },
    /// Draw the crosswalk strip of this turn in the crosswalk color.
    Crosswalk { turn: TurnId },
    /// Paint the signal's cycle at this index.
    SignalCycle { cycle: usize },
}

pub open spec fn type_key(t: IntersectionType) -> ColorKey {
    match t {
        IntersectionType::Border => ColorKey::BorderIntersection,
        IntersectionType::StopSign => ColorKey::StopSignIntersection,
        IntersectionType::TrafficSignal => ColorKey::TrafficSignalIntersection,
    }
}

/// Numbers for the vertices at indices `1 .. k` of `poly`.
pub open spec fn vertex_cmds(poly: Seq<Pt>, k: nat) -> Seq<SceneCmd>
    decreases k,
{
    if k <= 1 {
        Seq::empty()
    } else {
        vertex_cmds(poly, (k - 1) as nat).push(SceneCmd::VertexNumber { number: (k - 1) as usize, at: poly[k - 1] })
    }
}

pub open spec fn corner_cmds(ids: Seq<TurnId>) -> Seq<SceneCmd> {
    ids.map_values(|t: TurnId| SceneCmd::SidewalkCorner { turn: t })
}

pub open spec fn crosswalk_cmds(ids: Seq<TurnId>) -> Seq<SceneCmd> {
    ids.map_values(|t: TurnId| SceneCmd::Crosswalk { turn: t })
}

/// The renderer of one intersection.
pub struct DrawIntersection {
    pub id: IntersectionId,
    pub polygon: Vec<Pt>,
    pub crosswalks: Vec<TurnId>,
    pub sidewalk_corners: Vec<TurnId>,
    /// The average of the footprint's vertices, each counted once.
    pub center: Pt,
    pub intersection_type: IntersectionType,
}

impl DrawIntersection {
    /// The footprint is a closed ring.
    pub open spec fn wf(&self) -> bool {
        self.polygon@.len() >= 2
    }

    /// Builds the renderer of `inter`, deriving its crosswalks and sidewalk
    /// corners from `network`.
    pub fn new(inter: &Intersection, network: &RoadNetwork) -> (r: DrawIntersection)
        requires
            inter.polygon@.len() >= 2,
            network.wf(),
        ensures
            r.wf(),
            r.id == inter.id,
            r.polygon@ == inter.polygon@,
            r.center == average(open_ring(inter.polygon@)),
            r.crosswalks@ == selected(inter.id, network.lanes@, TurnType::Crosswalk, network.turns@),
            r.sidewalk_corners@ == selected(inter.id, network.lanes@, TurnType::SharedSidewalkCorner, network.turns@),
            r.intersection_type == inter.intersection_type,
    {
        let center = ring_center(&inter.polygon);
        DrawIntersection {
            id: inter.id,
            polygon: inter.polygon.clone(),
            crosswalks: calculate_crosswalks(inter.id, network),
            sidewalk_corners: calculate_corners(inter.id, network),
            center,
            intersection_type: inter.intersection_type,
        }
    }

    /// The commands that draw the intersection.
    pub open spec fn spec_draw(&self, opts: RenderOptions, view: SceneView) -> Seq<SceneCmd> {
        let paint = match opts.color {
            Some(c) => Paint::Custom(c),
            None => Paint::Themed(type_key(self.intersection_type)),
        };
        seq![SceneCmd::FillFootprint(paint)] + if opts.debug_mode {
            vertex_cmds(self.polygon@, self.polygon@.len())
        } else if view.cam_zoom >= MIN_ZOOM_FOR_MARKINGS {
            corner_cmds(self.sidewalk_corners@) + if self.intersection_type == IntersectionType::TrafficSignal {
                if view.suppress_traffic_signal_details != Some(self.id) && !view.signal_in_overtime {
                    seq![SceneCmd::SignalCycle { cycle: view.current_cycle }]
                } else {
                    Seq::empty()
                }
            } else {
                crosswalk_cmds(self.crosswalks@)
            }
        } else {
            Seq::empty()
        }
    }

    /// Plans a draw: the footprint in the caller's color or its type's; then,
    /// in debug mode, the number of each vertex but the first (which the ring
    /// repeats last); otherwise, when zoomed in far enough, the sidewalk
    /// corners and then either the signal's current cycle (unless details of
    /// this intersection are suppressed or the signal is in overtime) or, at
    /// an intersection without a signal, the crosswalks.
    pub fn draw(&self, opts: RenderOptions, view: SceneView) -> (r: Vec<SceneCmd>)
        ensures
            r@ == self.spec_draw(opts, view),
    {
        let paint = match opts.color {
            Some(c) => Paint::Custom(c),
            None => Paint::Themed(match self.intersection_type {
                IntersectionType::Border => ColorKey::BorderIntersection,
                IntersectionType::StopSign => ColorKey::StopSignIntersection,
                IntersectionType::TrafficSignal => ColorKey::TrafficSignalIntersection,
            }),
        };
        assert(paint == match opts.color {
            Some(c) => Paint::Custom(c),
            None => Paint::Themed(type_key(self.intersection_type)),
        });
        let mut cmds: Vec<SceneCmd> = Vec::new();
        cmds.push(SceneCmd::FillFootprint(paint));
        let ghost head = cmds@;
        if opts.debug_mode {
            let mut k: usize = 1;
            while k < self.polygon.len()
                invariant
                    1 <= k,
                    k <= self.polygon@.len() || k == 1,
                    cmds@ == head + vertex_cmds(self.polygon@, k as nat),
                decreases self.polygon@.len() - k,
            {
                cmds.push(SceneCmd::VertexNumber { number: k, at: self.polygon[k] });
                assert(cmds@ =~= head + vertex_cmds(self.polygon@, (k + 1) as nat));
                k = k + 1;
            }
            if self.polygon.len() == 0 {
                assert(vertex_cmds(self.polygon@, 0) =~= vertex_cmds(self.polygon@, 1));
                assert(cmds@ =~= head + vertex_cmds(self.polygon@, 0));
            } else {
                assert(k == self.polygon@.len());
                assert(cmds@ =~= head + vertex_cmds(self.polygon@, k as nat));
            }
            assert(head == seq![SceneCmd::FillFootprint(paint)]);
        } else if view.cam_zoom >= MIN_ZOOM_FOR_MARKINGS {
            let mut k: usize = 0;
            while k < self.sidewalk_corners.len()
                invariant
                    k <= self.sidewalk_corners@.len(),
                    cmds@ == head + corner_cmds(self.sidewalk_corners@.subrange(0, k as int)),
                decreases self.sidewalk_corners@.len() - k,
            {
                cmds.push(SceneCmd::SidewalkCorner { turn: self.sidewalk_corners[k] });
                assert(cmds@ =~= head + corner_cmds(self.sidewalk_corners@.subrange(0, k as int + 1)));
                k = k + 1;
            }
            assert(self.sidewalk_corners@.subrange(0, k as int) =~= self.sidewalk_corners@);
            let ghost mid = cmds@;
            if self.intersection_type == IntersectionType::TrafficSignal {
                if view.suppress_traffic_signal_details != Some(self.id) && !view.signal_in_overtime {
                    cmds.push(SceneCmd::SignalCycle { cycle: view.current_cycle });
                    assert(cmds@.subrange(mid.len() as int, cmds@.len() as int) =~= seq![SceneCmd::SignalCycle { cycle: view.current_cycle }]);
                    assert(view.suppress_traffic_signal_details != Some(self.id));
                } else {
                    assert(cmds@.subrange(mid.len() as int, cmds@.len() as int) =~= Seq::<SceneCmd>::empty());
                }
            } else {
                let mut j: usize = 0;
                while j < self.crosswalks.len()
                    invariant
                        j <= self.crosswalks@.len(),
                        cmds@ == mid + crosswalk_cmds(self.crosswalks@.subrange(0, j as int)),
                    decreases self.crosswalks@.len() - j,
                {
                    cmds.push(SceneCmd::Crosswalk { turn: self.crosswalks[j] });
                    assert(cmds@ =~= mid + crosswalk_cmds(self.crosswalks@.subrange(0, j as int + 1)));
                    j = j + 1;
                }
                assert(self.crosswalks@.subrange(0, j as int) =~= self.crosswalks@);
                assert(cmds@.subrange(mid.len() as int, cmds@.len() as int) =~= crosswalk_cmds(self.crosswalks@));
            }
            assert(cmds@ =~= head + (corner_cmds(self.sidewalk_corners@) + cmds@.subrange(mid.len() as int, cmds@.len() as int)));
        }
        assert(cmds@ =~= self.spec_draw(opts, view));
        cmds
    }

    /// Whether `p` lies inside the footprint.
    pub fn contains_pt(&self, p: Pt) -> (r: bool)
        requires
            fits_i64(self.polygon@),
            p.x <= i64::MAX && p.y <= i64::MAX,
        ensures
            r == inside_ring(self.polygon@, p),
    {
        ring_contains(&self.polygon, p)
    }

    /// The footprint's bounding box.
    pub fn get_bounds(&self) -> (r: Bounds)
        requires
            self.wf(),
        ensures
            is_bounds_of(r, self.polygon@),
    {
        bounds_of(&self.polygon)
    }
}

} // verus!
