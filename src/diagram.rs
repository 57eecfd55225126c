//! Layout of a signal's timing diagram: a panel at the right edge of the
//! window with one row per cycle, each holding a miniature of the
//! intersection painted with that cycle and the cycle's line of text.
//!
//! The result is a list of drawing commands. Every coordinate frame the list
//! enters it also leaves.
use vstd::prelude::*;
use crate::color::ColorKey;
use crate::geometry::{Bounds, Pt, bounds_of, is_bounds_of};

verus! {

/// Space above each miniature, in map centimetres.
pub const DIAGRAM_PADDING: u64 = 500;
/// Screen hundredths of a pixel per map centimetre in the miniatures.
pub const DIAGRAM_ZOOM: i64 = 10;
/// Gap between a miniature and its text, and beyond the widest text, in
/// hundredths of a pixel.
pub const LABEL_MARGIN: i64 = 1000;
/// Bound on map coordinates that keeps the layout within `i64`.
pub const MAX_COORD: u64 = 4294967296;
/// Bound on the magnitude of screen positions and text widths given in.
pub const MAX_SCREEN: i64 = 1099511627776;
/// Bound on the number of cycles and on the active cycle's index.
pub const MAX_CYCLES: usize = 65536;

/// A rectangle in screen space, hundredths of a pixel.
#[derive(Clone, Copy, Debug, PartialEq, Eq, Structural)]
pub struct ScreenRect {
    pub x: i64,
    pub y: i64,
    pub w: i64,
    pub h: i64,
}

/// A coordinate frame that paints map point `p` at screen point
/// `(screen_x + (p.x - map_x) * zoom, screen_y + (p.y - map_y) * zoom)`.
#[derive(Clone, Copy, Debug, PartialEq, Eq, Structural)]
pub struct MapFrame {
    pub map_x: u64,
    pub map_y: u64,
    pub screen_x: i64,
    pub screen_y: i64,
    pub zoom: i64,
}

/// One drawing step of the diagram.
#[derive(Clone, Copy, Debug, PartialEq, Eq, Structural)]
pub enum DiagramCmd {
    /// Enter unscaled screen space.
    PushScreenSpace,
    /// Enter a map frame.
    PushMapFrame(MapFrame),
    /// Leave the frame entered last.
    PopFrame,
    /// Fill a rectangle.
    Fill { key: ColorKey, rect: ScreenRect },
    /// Paint the cycle at this index in the current frame.
    DrawCycle { cycle: usize },
    /// Write the line of the cycle at `row` with its top-left corner here.
    DrawLabel { row: usize, x: i64, y: i64 },
}

/// The measures the rows share.
#[derive(Clone, Copy, Debug, PartialEq, Eq, Structural)]
pub struct DiagramLayout {
    /// The footprint's top-left corner in map space.
    pub map_x: u64,
    pub map_y: u64,
    /// The panel's top-left corner on screen.
    pub x1: i64,
    pub y1: i64,
    /// The panel's width.
    pub total_width: i64,
    /// The height of one row.
    pub row_height: i64,
    /// The width of a miniature on screen.
    pub mini_width: i64,
}

/// The largest of the widths, or zero when there are none.
pub open spec fn max_of(ws: Seq<u64>) -> nat
    decreases ws.len(),
{
    if ws.len() == 0 {
        0
    } else {
        let m = max_of(ws.drop_last());
        if ws.last() > m { ws.last() as nat } else { m }
    }
}

pub open spec fn spec_layout(b: Bounds, label_length: nat, y1: int, window_width: int) -> DiagramLayout {
    let mini_width = (b.max_x - b.min_x) * DIAGRAM_ZOOM;
    let total_width = mini_width + label_length + LABEL_MARGIN;
    DiagramLayout {
        map_x: b.min_x,
        map_y: b.min_y,
        x1: (window_width - total_width) as i64,
        y1: y1 as i64,
        total_width: total_width as i64,
        row_height: ((DIAGRAM_PADDING + (b.max_y - b.min_y)) * DIAGRAM_ZOOM) as i64,
        mini_width: mini_width as i64,
    }
}

/// The frame of the miniature of row `k`: the footprint's top-left corner
/// lands one padding below the row's top-left corner.
pub open spec fn row_frame(l: DiagramLayout, k: nat) -> MapFrame {
    MapFrame {
        map_x: l.map_x,
        map_y: l.map_y,
        screen_x: l.x1,
        screen_y: (l.y1 + l.row_height * k + DIAGRAM_PADDING * DIAGRAM_ZOOM) as i64,
        zoom: DIAGRAM_ZOOM,
    }
}

/// The commands of row `k`.
pub open spec fn row_cmds(l: DiagramLayout, k: nat) -> Seq<DiagramCmd> {
    seq![
        DiagramCmd::PushMapFrame(row_frame(l, k)),
        DiagramCmd::DrawCycle { cycle: k as usize },
        DiagramCmd::PopFrame,
        DiagramCmd::DrawLabel {
            row: k as usize,
            x: (l.x1 + LABEL_MARGIN + l.mini_width) as i64,
            y: (l.y1 + l.row_height * k) as i64,
        },
    ]
}

/// The commands of the first `n` rows.
pub open spec fn rows_cmds(l: DiagramLayout, n: nat) -> Seq<DiagramCmd>
    decreases n,
{
    if n == 0 { Seq::empty() } else { rows_cmds(l, (n - 1) as nat) + row_cmds(l, (n - 1) as nat) }
}

pub open spec fn panel_rect(l: DiagramLayout, n: nat) -> ScreenRect {
    ScreenRect { x: l.x1, y: l.y1, w: l.total_width, h: (l.row_height * n) as i64 }
}

pub open spec fn highlight_rect(l: DiagramLayout, current: nat) -> ScreenRect {
    ScreenRect { x: l.x1, y: (l.y1 + l.row_height * current) as i64, w: l.total_width, h: l.row_height }
}

/// The whole diagram of `n` cycles with `current` the active one.
pub open spec fn diagram_cmds(l: DiagramLayout, n: nat, current: nat) -> Seq<DiagramCmd> {
    seq![
        DiagramCmd::PushScreenSpace,
        DiagramCmd::Fill { key: ColorKey::SignalEditorPanel, rect: panel_rect(l, n) },
        DiagramCmd::Fill { key: ColorKey::CurrentCycleInPanel, rect: highlight_rect(l, current) },
    ] + rows_cmds(l, n) + seq![DiagramCmd::PopFrame]
}

/// The largest text width, or zero when there is none.
pub fn max_width(ws: &Vec<u64>) -> (r: u64)
    ensures
        r == max_of(ws@),
{
    let mut m: u64 = 0;
    let mut k: usize = 0;
    while k < ws.len()
        invariant
            k <= ws@.len(),
            m == max_of(ws@.subrange(0, k as int)),
        decreases ws@.len() - k,
    {
        let ghost s = ws@.subrange(0, k as int + 1);
        assert(s.drop_last() =~= ws@.subrange(0, k as int));
        if ws[k] > m {
            m = ws[k];
        }
        k = k + 1;
    }
    assert(ws@.subrange(0, k as int) =~= ws@);
    m
}

proof fn lemma_max_of_bound(ws: Seq<u64>, bound: nat)
    requires
        forall|j: int| 0 <= j < ws.len() ==> #[trigger] ws[j] <= bound,
    ensures
        max_of(ws) <= bound,
    decreases ws.len(),
{
    if ws.len() > 0 {
        let init = ws.drop_last();
        assert forall|j: int| 0 <= j < init.len() implies #[trigger] init[j] <= bound by {
            assert(init[j] == ws[j]);
        }
        lemma_max_of_bound(init, bound);
        assert(ws[ws.len() - 1] == ws.last());
    }
}

/// The inputs keep every position of the diagram within `i64`.
pub open spec fn diagram_inputs_bounded(footprint: Seq<Pt>, current_cycle: nat, label_widths: Seq<u64>, y1_screen: int, window_width: int) -> bool {
    &&& forall|j: int| 0 <= j < footprint.len() ==> #[trigger] footprint[j].x < MAX_COORD
    &&& forall|j: int| 0 <= j < footprint.len() ==> #[trigger] footprint[j].y < MAX_COORD
    &&& forall|j: int| 0 <= j < label_widths.len() ==> #[trigger] label_widths[j] < MAX_SCREEN
    &&& label_widths.len() <= MAX_CYCLES
    &&& current_cycle <= MAX_CYCLES
    &&& -MAX_SCREEN < y1_screen < MAX_SCREEN
    &&& -MAX_SCREEN < window_width < MAX_SCREEN
}

/// Lays out the timing diagram of a signal with one cycle per entry of
/// `label_widths` (the measured widths of the cycles' lines), on an
/// intersection with footprint `footprint`, the panel's top at `y1_screen`
/// and its right edge at `window_width`. The panel frame is entered first and
/// left last; each row enters the frame of its miniature, paints its cycle,
/// leaves it, and writes its line.
pub fn draw_signal_diagram(
    footprint: &Vec<Pt>,
    current_cycle: usize,
    label_widths: &Vec<u64>,
    y1_screen: i64,
    window_width: i64,
) -> (r: Vec<DiagramCmd>)
    requires
        footprint@.len() > 0,
        diagram_inputs_bounded(footprint@, current_cycle as nat, label_widths@, y1_screen as int, window_width as int),
    ensures
        exists|b: Bounds| #![auto] is_bounds_of(b, footprint@)
            && r@ == diagram_cmds(spec_layout(b, max_of(label_widths@), y1_screen as int, window_width as int), label_widths@.len(), current_cycle as nat),
{
    let b = bounds_of(footprint);
    let label_length = max_width(label_widths);
    proof {
        lemma_max_of_bound(label_widths@, MAX_SCREEN as nat);
        assert(b.min_x <= footprint@[0].x <= b.max_x);
        assert(b.min_y <= footprint@[0].y <= b.max_y);
        let jx = choose|j: int| 0 <= j < footprint@.len() && #[trigger] footprint@[j].x == b.max_x;
        let jy = choose|j: int| 0 <= j < footprint@.len() && #[trigger] footprint@[j].y == b.max_y;
        assert(footprint@[jx].x < MAX_COORD && footprint@[jy].y < MAX_COORD);
    }
    let mini_width: i64 = (b.max_x - b.min_x) as i64 * DIAGRAM_ZOOM;
    let total_width: i64 = mini_width + label_length as i64 + LABEL_MARGIN;
    let row_height: i64 = (DIAGRAM_PADDING + (b.max_y - b.min_y)) as i64 * DIAGRAM_ZOOM;
    let l = DiagramLayout {
        map_x: b.min_x,
        map_y: b.min_y,
        x1: window_width - total_width,
        y1: y1_screen,
        total_width,
        row_height,
        mini_width,
    };
    assert(l == spec_layout(b, max_of(label_widths@), y1_screen as int, window_width as int));
    let n = label_widths.len();
    proof {
        assert(row_height * n <= (500 + MAX_COORD) * 10 * MAX_CYCLES) by (nonlinear_arith)
            requires 0 <= row_height <= (500 + MAX_COORD) * 10, n <= MAX_CYCLES;
        assert(row_height * current_cycle <= (500 + MAX_COORD) * 10 * MAX_CYCLES) by (nonlinear_arith)
            requires 0 <= row_height <= (500 + MAX_COORD) * 10, current_cycle <= MAX_CYCLES;
    }
    let mut cmds: Vec<DiagramCmd> = Vec::new();
    cmds.push(DiagramCmd::PushScreenSpace);
    cmds.push(DiagramCmd::Fill {
        key: ColorKey::SignalEditorPanel,
        rect: ScreenRect { x: l.x1, y: y1_screen, w: total_width, h: row_height * n as i64 },
    });
    cmds.push(DiagramCmd::Fill {
        key: ColorKey::CurrentCycleInPanel,
        rect: ScreenRect {
            x: l.x1,
            y: y1_screen + row_height * current_cycle as i64,
            w: total_width,
            h: row_height,
        },
    });
    let ghost head = cmds@;
    let mut k: usize = 0;
    while k < n
        invariant
            k <= n,
            n == label_widths@.len(),
            n <= MAX_CYCLES,
            0 <= row_height <= (500 + MAX_COORD) * 10,
            -MAX_SCREEN < y1_screen < MAX_SCREEN,
            0 <= mini_width <= MAX_COORD * 10,
            -MAX_SCREEN - MAX_SCREEN - MAX_COORD * 10 - 1000 <= l.x1 < MAX_SCREEN,
            l.row_height == row_height,
            l.y1 == y1_screen,
            l.mini_width == mini_width,
            cmds@ == head + rows_cmds(l, k as nat),
        decreases n - k,
    {
        proof {
            assert(row_height * k <= (500 + MAX_COORD) * 10 * MAX_CYCLES) by (nonlinear_arith)
                requires 0 <= row_height <= (500 + MAX_COORD) * 10, k <= MAX_CYCLES;
        }
        let row_y: i64 = y1_screen + row_height * k as i64;
        let frame = MapFrame {
            map_x: l.map_x,
            map_y: l.map_y,
            screen_x: l.x1,
            screen_y: row_y + DIAGRAM_PADDING as i64 * DIAGRAM_ZOOM,
            zoom: DIAGRAM_ZOOM,
        };
        cmds.push(DiagramCmd::PushMapFrame(frame));
        cmds.push(DiagramCmd::DrawCycle { cycle: k });
        cmds.push(DiagramCmd::PopFrame);
        cmds.push(DiagramCmd::DrawLabel { row: k, x: l.x1 + LABEL_MARGIN + mini_width, y: row_y });
        assert(frame == row_frame(l, k as nat));
        assert(cmds@ =~= head + rows_cmds(l, (k + 1) as nat));
        k = k + 1;
    }
    cmds.push(DiagramCmd::PopFrame);
    assert(cmds@ =~= diagram_cmds(l, n as nat, current_cycle as nat));
    cmds
}


/// How many commands of `s` satisfy `f`.
pub open spec fn count_cmds(s: Seq<DiagramCmd>, f: spec_fn(DiagramCmd) -> bool) -> nat
    decreases s.len(),
{
    if s.len() == 0 { 0 } else { count_cmds(s.drop_last(), f) + if f(s.last()) { 1nat } else { 0nat } }
}

pub open spec fn is_push(c: DiagramCmd) -> bool {
    c is PushScreenSpace || c is PushMapFrame
}

pub open spec fn is_pop(c: DiagramCmd) -> bool {
    c is PopFrame
}

pub open spec fn is_label(c: DiagramCmd) -> bool {
    c is DrawLabel
}

proof fn lemma_count_concat(a: Seq<DiagramCmd>, b: Seq<DiagramCmd>, f: spec_fn(DiagramCmd) -> bool)
    ensures
        count_cmds(a + b, f) == count_cmds(a, f) + count_cmds(b, f),
    decreases b.len(),
{
    if b.len() > 0 {
        assert((a + b).drop_last() =~= a + b.drop_last());
        lemma_count_concat(a, b.drop_last(), f);
    }
}

proof fn lemma_count_rows(l: DiagramLayout, n: nat)
    ensures
        count_cmds(rows_cmds(l, n), |c: DiagramCmd| is_push(c)) == n,
        count_cmds(rows_cmds(l, n), |c: DiagramCmd| is_pop(c)) == n,
        count_cmds(rows_cmds(l, n), |c: DiagramCmd| is_label(c)) == n,
    decreases n,
{
    if n > 0 {
        let k = (n - 1) as nat;
        lemma_count_rows(l, k);
        let row = row_cmds(l, k);
        reveal_with_fuel(count_cmds, 5);
        assert(row.drop_last().drop_last().drop_last().drop_last() =~= Seq::<DiagramCmd>::empty());
        lemma_count_concat(rows_cmds(l, k), row, |c: DiagramCmd| is_push(c));
        lemma_count_concat(rows_cmds(l, k), row, |c: DiagramCmd| is_pop(c));
        lemma_count_concat(rows_cmds(l, k), row, |c: DiagramCmd| is_label(c));
    }
}

/// Frame changes in a diagram are balanced: it enters as many coordinate
/// frames as it leaves (one more than it has cycles), also with no cycle.
pub proof fn law_frames_balanced(l: DiagramLayout, n: nat, current: nat)
    ensures
        count_cmds(diagram_cmds(l, n, current), |c: DiagramCmd| is_push(c)) == n + 1,
        count_cmds(diagram_cmds(l, n, current), |c: DiagramCmd| is_pop(c)) == n + 1,
{
    let head = seq![
        DiagramCmd::PushScreenSpace,
        DiagramCmd::Fill { key: ColorKey::SignalEditorPanel, rect: panel_rect(l, n) },
        DiagramCmd::Fill { key: ColorKey::CurrentCycleInPanel, rect: highlight_rect(l, current) },
    ];
    let tail = seq![DiagramCmd::PopFrame];
    lemma_count_rows(l, n);
    reveal_with_fuel(count_cmds, 4);
    assert(head.drop_last().drop_last().drop_last() =~= Seq::<DiagramCmd>::empty());
    assert(tail.drop_last() =~= Seq::<DiagramCmd>::empty());
    lemma_count_concat(head, rows_cmds(l, n), |c: DiagramCmd| is_push(c));
    lemma_count_concat(head + rows_cmds(l, n), tail, |c: DiagramCmd| is_push(c));
    lemma_count_concat(head, rows_cmds(l, n), |c: DiagramCmd| is_pop(c));
    lemma_count_concat(head + rows_cmds(l, n), tail, |c: DiagramCmd| is_pop(c));
}

/// A diagram of `n` cycles writes `n` lines; its panel is `n` rows of
/// `(padding + footprint height) * zoom` tall, and the highlighted row is the
/// active cycle's.
pub proof fn law_diagram_rows(b: Bounds, label_length: nat, y1: int, window_width: int, n: nat, current: nat)
    requires
        b.min_y <= b.max_y < MAX_COORD,
        b.min_x <= b.max_x < MAX_COORD,
        label_length < MAX_SCREEN,
        -MAX_SCREEN < y1 < MAX_SCREEN,
        -MAX_SCREEN < window_width < MAX_SCREEN,
        n <= MAX_CYCLES,
        current <= MAX_CYCLES,
    ensures
        ({
            let l = spec_layout(b, label_length, y1, window_width);
            let cmds = diagram_cmds(l, n, current);
            &&& count_cmds(cmds, |c: DiagramCmd| is_label(c)) == n
            &&& cmds[1] == DiagramCmd::Fill { key: ColorKey::SignalEditorPanel, rect: panel_rect(l, n) }
            &&& panel_rect(l, n).h == (DIAGRAM_PADDING + (b.max_y - b.min_y)) * n * DIAGRAM_ZOOM
            &&& panel_rect(l, n).y == y1
            &&& cmds[2] == DiagramCmd::Fill { key: ColorKey::CurrentCycleInPanel, rect: highlight_rect(l, current) }
            &&& highlight_rect(l, current).y == y1 + (DIAGRAM_PADDING + (b.max_y - b.min_y)) * DIAGRAM_ZOOM * current
            &&& highlight_rect(l, current).h == (DIAGRAM_PADDING + (b.max_y - b.min_y)) * DIAGRAM_ZOOM
        }),
{
    let l = spec_layout(b, label_length, y1, window_width);
    let head = seq![
        DiagramCmd::PushScreenSpace,
        DiagramCmd::Fill { key: ColorKey::SignalEditorPanel, rect: panel_rect(l, n) },
        DiagramCmd::Fill { key: ColorKey::CurrentCycleInPanel, rect: highlight_rect(l, current) },
    ];
    let tail = seq![DiagramCmd::PopFrame];
    lemma_count_rows(l, n);
    reveal_with_fuel(count_cmds, 4);
    assert(head.drop_last().drop_last().drop_last() =~= Seq::<DiagramCmd>::empty());
    assert(tail.drop_last() =~= Seq::<DiagramCmd>::empty());
    lemma_count_concat(head, rows_cmds(l, n), |c: DiagramCmd| is_label(c));
    lemma_count_concat(head + rows_cmds(l, n), tail, |c: DiagramCmd| is_label(c));
    let rh = (DIAGRAM_PADDING + (b.max_y - b.min_y)) * DIAGRAM_ZOOM;
    assert(l.row_height == rh);
    assert(rh * n <= (500 + MAX_COORD) * 10 * MAX_CYCLES) by (nonlinear_arith)
        requires 0 <= rh <= (500 + MAX_COORD) * 10, n <= MAX_CYCLES;
    assert(rh * current <= (500 + MAX_COORD) * 10 * MAX_CYCLES) by (nonlinear_arith)
        requires 0 <= rh <= (500 + MAX_COORD) * 10, current <= MAX_CYCLES;
    assert(rh * n == (DIAGRAM_PADDING + (b.max_y - b.min_y)) * n * DIAGRAM_ZOOM) by (nonlinear_arith)
        requires rh == (DIAGRAM_PADDING + (b.max_y - b.min_y)) * DIAGRAM_ZOOM;
    assert((head + rows_cmds(l, n) + tail)[1] == head[1]);
    assert((head + rows_cmds(l, n) + tail)[2] == head[2]);
}

} // verus!
