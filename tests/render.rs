use intersection_render::color::{Color, ColorKey, Paint};
use intersection_render::cycle::{draw_signal_cycle, Cycle, TurnPriority};
use intersection_render::derive::{calculate_corners, calculate_crosswalks};
use intersection_render::diagram::{draw_signal_diagram, max_width, DiagramCmd, MapFrame, ScreenRect};
use intersection_render::geometry::{bounds_of, center, ring_center, Bounds, Pt};
use intersection_render::intersection::{
    DrawIntersection, Intersection, IntersectionType, RenderOptions, SceneCmd, SceneView,
};
use intersection_render::label::{cycle_labels, push_decimal, CycleLabel, LabelStatus};
use intersection_render::model::{find_turn, IntersectionId, Lane, LaneId, RoadNetwork, Turn, TurnId, TurnType};

const I: IntersectionId = IntersectionId(1);
const OTHER: IntersectionId = IntersectionId(2);

fn tid(src: usize, dst: usize) -> TurnId {
    TurnId { parent: I, src: LaneId(src), dst: LaneId(dst) }
}

fn turn(src: usize, dst: usize, turn_type: TurnType) -> Turn {
    Turn { id: tid(src, dst), turn_type }
}

/// Lanes 0 and 2 flow into I; lanes 1 and 3 leave it; lane 4 is a road lane
/// into I, lane 5 a road lane out of it.
fn network(turns: Vec<Turn>) -> RoadNetwork {
    RoadNetwork {
        lanes: vec![
            Lane { src_i: OTHER, dst_i: I },
            Lane { src_i: I, dst_i: OTHER },
            Lane { src_i: OTHER, dst_i: I },
            Lane { src_i: I, dst_i: OTHER },
            Lane { src_i: OTHER, dst_i: I },
            Lane { src_i: I, dst_i: OTHER },
        ],
        turns,
    }
}

fn square() -> Vec<Pt> {
    vec![
        Pt { x: 100, y: 200 },
        Pt { x: 500, y: 200 },
        Pt { x: 500, y: 900 },
        Pt { x: 100, y: 900 },
        Pt { x: 100, y: 200 },
    ]
}

#[test]
fn center_leaves_out_closing_vertex() {
    let a = Pt { x: 0, y: 0 };
    let b = Pt { x: 30, y: 0 };
    let c = Pt { x: 0, y: 60 };
    let ring = vec![a, b, c, a];
    assert_eq!(ring_center(&ring), Pt { x: 10, y: 20 });
    // Averaging all four would give (7, 15).
    assert_eq!(center(&ring), Pt { x: 7, y: 15 });
}

#[test]
fn bounds_of_square() {
    assert_eq!(bounds_of(&square()), Bounds { min_x: 100, min_y: 200, max_x: 500, max_y: 900 });
}

#[test]
fn crosswalk_pair_gives_one_strip() {
    let net = network(vec![
        turn(0, 1, TurnType::Crosswalk),
        turn(1, 0, TurnType::Crosswalk),
        turn(4, 5, TurnType::Straight),
    ]);
    assert_eq!(calculate_crosswalks(I, &net), vec![tid(0, 1)]);
}

#[test]
fn crosswalks_of_other_intersections_are_left_out() {
    let mut t = turn(0, 1, TurnType::Crosswalk);
    t.id.parent = OTHER;
    let net = network(vec![t]);
    assert_eq!(calculate_crosswalks(I, &net), vec![]);
}

#[test]
fn no_corner_turns_no_corners() {
    let net = network(vec![
        turn(0, 1, TurnType::Crosswalk),
        turn(4, 5, TurnType::Straight),
        turn(4, 1, TurnType::Right),
    ]);
    assert!(calculate_corners(I, &net).is_empty());
}

#[test]
fn corners_keep_one_turn_per_corner() {
    let net = network(vec![
        turn(0, 3, TurnType::SharedSidewalkCorner),
        turn(3, 0, TurnType::SharedSidewalkCorner),
        turn(2, 1, TurnType::SharedSidewalkCorner),
        turn(1, 2, TurnType::SharedSidewalkCorner),
    ]);
    assert_eq!(calculate_corners(I, &net), vec![tid(0, 3), tid(2, 1)]);
}

#[test]
fn find_turn_by_identity() {
    let turns = vec![turn(0, 1, TurnType::Crosswalk), turn(4, 5, TurnType::Straight)];
    assert_eq!(find_turn(&turns, tid(4, 5)), 1);
}

fn signal_cycle(priority: Vec<TurnId>, yielding: Vec<TurnId>) -> Cycle {
    Cycle { parent: I, duration: 100, priority_turns: priority, yield_turns: yielding }
}

#[test]
fn cycle_priorities() {
    let c = signal_cycle(vec![tid(4, 5)], vec![tid(4, 1)]);
    assert_eq!(c.get_priority(tid(4, 5)), TurnPriority::Priority);
    assert_eq!(c.get_priority(tid(4, 1)), TurnPriority::Yield);
    assert_eq!(c.get_priority(tid(0, 1)), TurnPriority::Banned);
}

#[test]
fn cycle_never_paints_sidewalk_turns_as_paths() {
    let net = network(vec![
        turn(0, 1, TurnType::Crosswalk),
        turn(1, 0, TurnType::Crosswalk),
        turn(0, 3, TurnType::SharedSidewalkCorner),
        turn(4, 5, TurnType::Straight),
        turn(4, 1, TurnType::Right),
    ]);
    let crosswalks = calculate_crosswalks(I, &net);
    let c = signal_cycle(vec![tid(0, 1), tid(4, 5), tid(0, 3)], vec![tid(4, 1), tid(1, 0)]);
    let plan = draw_signal_cycle(&c, &crosswalks, &net);
    assert_eq!(plan.crosswalks, vec![tid(0, 1)]);
    assert_eq!(plan.protected, vec![tid(4, 5)]);
    assert_eq!(plan.yielding, vec![tid(4, 1)]);
}

#[test]
fn yielding_crosswalk_is_not_drawn() {
    let net = network(vec![turn(0, 1, TurnType::Crosswalk), turn(1, 0, TurnType::Crosswalk)]);
    let crosswalks = calculate_crosswalks(I, &net);
    let c = signal_cycle(vec![], vec![tid(0, 1)]);
    let plan = draw_signal_cycle(&c, &crosswalks, &net);
    assert!(plan.crosswalks.is_empty());
    assert!(plan.yielding.is_empty());
}

#[test]
fn decimal_text() {
    let mut s = String::from("n=");
    push_decimal(&mut s, 0);
    push_decimal(&mut s, 1207);
    assert_eq!(s, "n=01207");
}

fn two_cycles() -> Vec<Cycle> {
    vec![
        Cycle { parent: I, duration: 100, priority_turns: vec![], yield_turns: vec![] },
        Cycle { parent: I, duration: 150, priority_turns: vec![], yield_turns: vec![] },
    ]
}

#[test]
fn labels_without_progress() {
    let labels = cycle_labels(&two_cycles(), 0, None);
    assert_eq!(labels.len(), 2);
    assert_eq!(labels[0].text(), "Cycle 1: 10 s");
    assert_eq!(labels[1].text(), "Cycle 2: 15 s");
    assert!(!labels[0].tail_alert());
}

#[test]
fn label_of_active_cycle_shows_progress() {
    let labels = cycle_labels(&two_cycles(), 1, Some(120));
    assert_eq!(labels[0].text(), "Cycle 1: 10 s");
    assert_eq!(labels[1].status, LabelStatus::Progress { elapsed: 30, duration: 150 });
    assert_eq!(labels[1].text(), "Cycle 2: 3.0s / 15 s");
}

#[test]
fn fractional_durations() {
    let l = CycleLabel { number: 12, status: LabelStatus::Progress { elapsed: -5, duration: 105 } };
    assert_eq!(l.text(), "Cycle 12: -0.5s / 10.5 s");
}

#[test]
fn negative_time_left_is_overtime() {
    for t in [-1i64, -1000, i64::MIN] {
        let labels = cycle_labels(&two_cycles(), 0, Some(t));
        assert_eq!(labels[0].status, LabelStatus::Overtime);
        assert_eq!(labels[0].head(), "Cycle 1: ");
        assert_eq!(labels[0].tail(), "OVERTIME");
        assert!(labels[0].tail_alert());
        assert_eq!(labels[1].text(), "Cycle 2: 15 s");
    }
}

#[test]
fn max_width_of_none_is_zero() {
    assert_eq!(max_width(&vec![]), 0);
    assert_eq!(max_width(&vec![3, 9, 4]), 9);
}

fn pushes_and_pops(cmds: &[DiagramCmd]) -> (usize, usize) {
    let pushes = cmds
        .iter()
        .filter(|c| matches!(c, DiagramCmd::PushScreenSpace | DiagramCmd::PushMapFrame(_)))
        .count();
    let pops = cmds.iter().filter(|c| matches!(c, DiagramCmd::PopFrame)).count();
    (pushes, pops)
}

#[test]
fn diagram_of_two_cycles() {
    // Footprint 400 cm wide and 700 cm tall; widths in hundredths of a pixel.
    let cmds = draw_signal_diagram(&square(), 1, &vec![5000, 7000], 300, 100000);
    // Panel: 400 * 10 + 7000 + 1000 wide, at the window's right edge.
    let total = 12000;
    let x1 = 100000 - total;
    let row = (500 + 700) * 10;
    assert_eq!(cmds.len(), 3 + 2 * 4 + 1);
    assert_eq!(cmds[0], DiagramCmd::PushScreenSpace);
    assert_eq!(
        cmds[1],
        DiagramCmd::Fill { key: ColorKey::SignalEditorPanel, rect: ScreenRect { x: x1, y: 300, w: total, h: row * 2 } }
    );
    assert_eq!(
        cmds[2],
        DiagramCmd::Fill { key: ColorKey::CurrentCycleInPanel, rect: ScreenRect { x: x1, y: 300 + row, w: total, h: row } }
    );
    for k in 0..2usize {
        let base = 3 + 4 * k;
        let row_y = 300 + row * k as i64;
        assert_eq!(
            cmds[base],
            DiagramCmd::PushMapFrame(MapFrame { map_x: 100, map_y: 200, screen_x: x1, screen_y: row_y + 5000, zoom: 10 })
        );
        assert_eq!(cmds[base + 1], DiagramCmd::DrawCycle { cycle: k });
        assert_eq!(cmds[base + 2], DiagramCmd::PopFrame);
        assert_eq!(cmds[base + 3], DiagramCmd::DrawLabel { row: k, x: x1 + 1000 + 4000, y: row_y });
    }
    assert_eq!(cmds[11], DiagramCmd::PopFrame);
    let labels = cmds.iter().filter(|c| matches!(c, DiagramCmd::DrawLabel { .. })).count();
    assert_eq!(labels, 2);
    assert_eq!(pushes_and_pops(&cmds), (3, 3));
}

#[test]
fn diagram_without_cycles_is_balanced() {
    let cmds = draw_signal_diagram(&square(), 0, &vec![], 0, 50000);
    assert_eq!(cmds.len(), 4);
    assert_eq!(
        cmds[1],
        DiagramCmd::Fill { key: ColorKey::SignalEditorPanel, rect: ScreenRect { x: 45000, y: 0, w: 5000, h: 0 } }
    );
    assert_eq!(pushes_and_pops(&cmds), (1, 1));
}

fn scene_network() -> RoadNetwork {
    network(vec![
        turn(0, 1, TurnType::Crosswalk),
        turn(1, 0, TurnType::Crosswalk),
        turn(0, 3, TurnType::SharedSidewalkCorner),
        turn(3, 0, TurnType::SharedSidewalkCorner),
        turn(4, 5, TurnType::Straight),
    ])
}

fn draw_intersection(kind: IntersectionType) -> DrawIntersection {
    let inter = Intersection { id: I, polygon: square(), intersection_type: kind };
    DrawIntersection::new(&inter, &scene_network())
}

fn view(cam_zoom: u64) -> SceneView {
    SceneView { cam_zoom, suppress_traffic_signal_details: None, signal_in_overtime: false, current_cycle: 2 }
}

const PLAIN: RenderOptions = RenderOptions { color: None, debug_mode: false };

#[test]
fn new_derives_geometry_once() {
    let d = draw_intersection(IntersectionType::StopSign);
    assert_eq!(d.crosswalks, vec![tid(0, 1)]);
    assert_eq!(d.sidewalk_corners, vec![tid(0, 3)]);
    assert_eq!(d.center, Pt { x: 300, y: 550 });
    assert_eq!(d.get_bounds(), Bounds { min_x: 100, min_y: 200, max_x: 500, max_y: 900 });
}

#[test]
fn stop_sign_draws_corners_then_crosswalks() {
    let d = draw_intersection(IntersectionType::StopSign);
    assert_eq!(
        d.draw(PLAIN, view(500)),
        vec![
            SceneCmd::FillFootprint(Paint::Themed(ColorKey::StopSignIntersection)),
            SceneCmd::SidewalkCorner { turn: tid(0, 3) },
            SceneCmd::Crosswalk { turn: tid(0, 1) },
        ]
    );
}

#[test]
fn zoomed_out_draws_footprint_only() {
    let d = draw_intersection(IntersectionType::Border);
    assert_eq!(d.draw(PLAIN, view(499)), vec![SceneCmd::FillFootprint(Paint::Themed(ColorKey::BorderIntersection))]);
}

#[test]
fn signal_draws_current_cycle() {
    let d = draw_intersection(IntersectionType::TrafficSignal);
    let cmds = d.draw(PLAIN, view(800));
    assert_eq!(
        cmds,
        vec![
            SceneCmd::FillFootprint(Paint::Themed(ColorKey::TrafficSignalIntersection)),
            SceneCmd::SidewalkCorner { turn: tid(0, 3) },
            SceneCmd::SignalCycle { cycle: 2 },
        ]
    );
    let mut v = view(800);
    v.signal_in_overtime = true;
    assert_eq!(d.draw(PLAIN, v).len(), 2);
    let mut v = view(800);
    v.suppress_traffic_signal_details = Some(I);
    assert_eq!(d.draw(PLAIN, v).len(), 2);
    v.suppress_traffic_signal_details = Some(OTHER);
    assert_eq!(d.draw(PLAIN, v).len(), 3);
}

#[test]
fn debug_mode_numbers_vertices() {
    let d = draw_intersection(IntersectionType::StopSign);
    let red = Color { r: 255, g: 0, b: 0, a: 255 };
    let cmds = d.draw(RenderOptions { color: Some(red), debug_mode: true }, view(800));
    let pts = square();
    let mut expected = vec![SceneCmd::FillFootprint(Paint::Custom(red))];
    for k in 1..5usize {
        expected.push(SceneCmd::VertexNumber { number: k, at: pts[k] });
    }
    assert_eq!(cmds, expected);
}

#[test]
fn default_colors() {
    assert_eq!(ColorKey::TurnsProtected.default_color(), Color { r: 0, g: 255, b: 0, a: 255 });
    assert_eq!(ColorKey::BorderIntersection.default_color(), Color { r: 50, g: 205, b: 50, a: 255 });
}

#[test]
fn footprint_hit_test() {
    let d = draw_intersection(IntersectionType::StopSign);
    assert!(d.contains_pt(Pt { x: 300, y: 500 }));
    assert!(d.contains_pt(Pt { x: 101, y: 899 }));
    assert!(!d.contains_pt(Pt { x: 50, y: 500 }));
    assert!(!d.contains_pt(Pt { x: 600, y: 500 }));
    assert!(!d.contains_pt(Pt { x: 300, y: 950 }));
}

#[test]
fn triangle_hit_test() {
    let ring = vec![Pt { x: 0, y: 0 }, Pt { x: 100, y: 0 }, Pt { x: 0, y: 100 }, Pt { x: 0, y: 0 }];
    assert!(intersection_render::geometry::ring_contains(&ring, Pt { x: 20, y: 20 }));
    assert!(!intersection_render::geometry::ring_contains(&ring, Pt { x: 60, y: 60 }));
}

#[test]
fn color_names() {
    assert_eq!(ColorKey::TurnsProtected.name(), "turns protected by traffic signal right now");
    assert_eq!(ColorKey::SignalOvertime.name(), "signal overtime");
}
