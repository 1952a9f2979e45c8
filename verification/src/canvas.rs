//! The layout engine: canvas configuration, lane scheduling and motion
//! planning.
//!
//! All geometry is exact integer arithmetic.  Times are centiseconds.  Text
//! widths are measured in "width units": pixels scaled by 60000, obtained as
//! `cells * font_size * width_ratio_milli` (cells are sixtieths of an em and
//! the width ratio is given in thousandths).  Horizontal gaps are given in
//! thousandths of a pixel and the canvas width in whole pixels, so both
//! convert exactly to width units.

use vstd::prelude::*;

use crate::arith::{lemma_abs_mul_le, lemma_div_le, lemma_mul_mono_right};
use crate::danmu::{Danmu, DanmuModel, DanmuType, MAX_TEXT_CHARS, MAX_TIMELINE_CS};
use crate::drawable::{DrawEffect, DrawEffectModel, Drawable, DrawableModel};
use crate::width::text_cells;

verus! {

/// The immutable configuration of one conversion run.
///
/// Fractional quantities are held in fixed point: `width_ratio_milli`,
/// `float_percent_milli` and `bottom_percent_milli` in thousandths,
/// `horizontal_gap_milli` in thousandths of a pixel, `duration_cs` and
/// `time_offset_cs` in centiseconds, `outline_tenths` in tenths of a pixel.
pub struct CanvasConfig {
    pub width: u32,
    pub height: u32,
    pub font: String,
    pub font_size: u32,
    pub width_ratio_milli: u32,
    pub horizontal_gap_milli: u32,
    pub duration_cs: u32,
    pub lane_size: u32,
    pub float_percent_milli: u32,
    pub opacity: u8,
    pub bottom_percent_milli: u32,
    pub outline_tenths: u8,
    pub bold: u8,
    pub time_offset_cs: i64,
}

/// The mathematical image of a [`CanvasConfig`].
#[verifier::ext_equal]
pub ghost struct ConfigModel {
    pub width: int,
    pub height: int,
    pub font: Seq<char>,
    pub font_size: int,
    pub width_ratio_milli: int,
    pub horizontal_gap_milli: int,
    pub duration_cs: int,
    pub lane_size: int,
    pub float_percent_milli: int,
    pub opacity: int,
    pub bottom_percent_milli: int,
    pub outline_tenths: int,
    pub bold: int,
    pub time_offset_cs: int,
}

impl View for CanvasConfig {
    type V = ConfigModel;

    open spec fn view(&self) -> ConfigModel {
        ConfigModel {
            width: self.width as int,
            height: self.height as int,
            font: self.font@,
            font_size: self.font_size as int,
            width_ratio_milli: self.width_ratio_milli as int,
            horizontal_gap_milli: self.horizontal_gap_milli as int,
            duration_cs: self.duration_cs as int,
            lane_size: self.lane_size as int,
            float_percent_milli: self.float_percent_milli as int,
            opacity: self.opacity as int,
            bottom_percent_milli: self.bottom_percent_milli as int,
            outline_tenths: self.outline_tenths as int,
            bold: self.bold as int,
            time_offset_cs: self.time_offset_cs as int,
        }
    }
}

impl ConfigModel {
    /// Well-formed configurations: positive dimensions, percentages at most
    /// one, a gap no wider than the canvas, and sizes small enough that all
    /// scheduling arithmetic stays exact in 128 bits.
    pub open spec fn wf(self) -> bool {
        &&& 1 <= self.width <= 100_000
        &&& 1 <= self.height <= 100_000
        &&& 1 <= self.font_size <= 10_000
        &&& 1 <= self.width_ratio_milli <= 100_000
        &&& 0 <= self.horizontal_gap_milli <= 1000 * self.width
        &&& 1 <= self.duration_cs <= 8_640_000
        &&& 1 <= self.lane_size <= 100_000
        &&& 0 <= self.float_percent_milli <= 1000
        &&& 0 <= self.bottom_percent_milli <= 1000
        &&& -1_000_000_000_000 <= self.time_offset_cs <= 1_000_000_000_000
    }

    /// How many scrolling lanes fit: the fraction of the canvas height given
    /// to scrolling comments, divided by the lane height.
    pub open spec fn float_lane_count(self) -> int {
        (self.height * self.float_percent_milli / 1000) / self.lane_size
    }

    /// How many bottom-fixed lanes fit.
    pub open spec fn bottom_lane_count(self) -> int {
        (self.height * self.bottom_percent_milli / 1000) / self.lane_size
    }

    /// How many top-fixed lanes fit: the same sizing formula over the height
    /// fraction not claimed by the other two pools.
    pub open spec fn top_lane_count(self) -> int {
        if self.float_percent_milli + self.bottom_percent_milli >= 1000 {
            0
        } else {
            (self.height * (1000 - self.float_percent_milli - self.bottom_percent_milli)
                / 1000) / self.lane_size
        }
    }

    /// The canvas width in width units (pixels scaled by 60000).
    pub open spec fn canvas_units(self) -> int {
        self.width * 60000
    }

    /// The minimum horizontal gap in width units.
    pub open spec fn gap_units(self) -> int {
        self.horizontal_gap_milli * 60
    }

    /// The estimated width of a text in width units.
    pub open spec fn text_width_units(self, s: Seq<char>) -> int {
        text_cells(s) * self.font_size * self.width_ratio_milli
    }

    /// The largest width the engine ever measures, in width units.
    pub open spec fn max_width_units(self) -> int {
        60 * (MAX_TEXT_CHARS as int) * self.font_size * self.width_ratio_milli
    }
}

/// Width units rounded up to whole pixels.
pub open spec fn ceil_px(w: int) -> int {
    (w + 59999) / 60000
}

/// Whether a scrolling lane whose last occupant entered at `t1` with width
/// `w1` accepts a new comment entering at `t2` with width `w2`.
///
/// Both travel from the right edge across the canvas in `duration_cs`, so
/// the occupant's speed is `(canvas + w1) / duration` and the newcomer's is
/// `(canvas + w2) / duration`.  The lane accepts when the two either never
/// share the screen, or keep at least the configured gap between the
/// occupant's tail and the newcomer's head at both ends of the shared
/// window — which, positions being linear in time, bounds the whole window.
/// All terms below are width units scaled by the duration.
pub open spec fn float_compat(c: ConfigModel, t1: int, w1: int, t2: int, w2: int) -> bool {
    let dur = c.duration_cs;
    let ws = c.canvas_units();
    let gap = c.gap_units();
    t2 - t1 >= dur || {
        &&& (ws + w1) * (t2 - t1) >= (w1 + gap) * dur
        &&& ws * dur - (ws + w2) * (dur - (t2 - t1)) >= gap * dur
    }
}

/// Whether a fixed lane whose last occupant entered at `t1` accepts a new
/// comment entering at `t2`: the occupant must have left the screen.
pub open spec fn fixed_compat(c: ConfigModel, t1: int, t2: int) -> bool {
    t2 >= t1 + c.duration_cs
}

/// The last occupant a scrolling lane remembers: entry time and width.
pub ghost struct LaneOcc {
    pub start_cs: int,
    pub width_num: int,
}

/// The lane pools and clock of a canvas, as mathematical values.  Fixed
/// lanes remember only their last occupant's entry time.
#[verifier::ext_equal]
pub ghost struct CanvasState {
    pub float_lanes: Seq<Option<LaneOcc>>,
    pub top_lanes: Seq<Option<int>>,
    pub bottom_lanes: Seq<Option<int>>,
    pub latest_cs: int,
}

/// Whether scrolling lane `i` accepts a comment entering at `t` with width
/// `w`: it is empty, or its last occupant is compatible.
pub open spec fn float_lane_accepts(
    c: ConfigModel,
    lanes: Seq<Option<LaneOcc>>,
    i: int,
    t: int,
    w: int,
) -> bool {
    match lanes[i] {
        None => true,
        Some(occ) => float_compat(c, occ.start_cs, occ.width_num, t, w),
    }
}

/// Whether fixed lane `i` accepts a comment entering at `t`.
pub open spec fn fixed_lane_accepts(c: ConfigModel, lanes: Seq<Option<int>>, i: int, t: int) -> bool {
    match lanes[i] {
        None => true,
        Some(t1) => fixed_compat(c, t1, t),
    }
}

/// The lowest-indexed scrolling lane at or after `i` that accepts a comment
/// entering at `t` with width `w`.
pub open spec fn first_free_float(
    c: ConfigModel,
    lanes: Seq<Option<LaneOcc>>,
    t: int,
    w: int,
    i: int,
) -> Option<int>
    decreases lanes.len() - i,
{
    if i < 0 || i >= lanes.len() {
        None
    } else if float_lane_accepts(c, lanes, i, t, w) {
        Some(i)
    } else {
        first_free_float(c, lanes, t, w, i + 1)
    }
}

/// The lowest-indexed fixed lane at or after `i` that accepts a comment
/// entering at `t`.
pub open spec fn first_free_fixed(
    c: ConfigModel,
    lanes: Seq<Option<int>>,
    t: int,
    i: int,
) -> Option<int>
    decreases lanes.len() - i,
{
    if i < 0 || i >= lanes.len() {
        None
    } else if fixed_lane_accepts(c, lanes, i, t) {
        Some(i)
    } else {
        first_free_fixed(c, lanes, t, i + 1)
    }
}

/// A found scrolling lane accepts the comment, and no lower lane does.
pub proof fn lemma_first_free_float_found(
    c: ConfigModel,
    lanes: Seq<Option<LaneOcc>>,
    t: int,
    w: int,
    i0: int,
    i: int,
)
    requires
        0 <= i0,
        first_free_float(c, lanes, t, w, i0) == Some(i),
    ensures
        i0 <= i < lanes.len(),
        float_lane_accepts(c, lanes, i, t, w),
        forall|j: int| i0 <= j < i ==> !float_lane_accepts(c, lanes, j, t, w),
    decreases lanes.len() - i0,
{
    if i0 < lanes.len() && !float_lane_accepts(c, lanes, i0, t, w) {
        lemma_first_free_float_found(c, lanes, t, w, i0 + 1, i);
    }
}

/// A found fixed lane accepts the comment, and no lower lane does.
pub proof fn lemma_first_free_fixed_found(
    c: ConfigModel,
    lanes: Seq<Option<int>>,
    t: int,
    i0: int,
    i: int,
)
    requires
        0 <= i0,
        first_free_fixed(c, lanes, t, i0) == Some(i),
    ensures
        i0 <= i < lanes.len(),
        fixed_lane_accepts(c, lanes, i, t),
        forall|j: int| i0 <= j < i ==> !fixed_lane_accepts(c, lanes, j, t),
    decreases lanes.len() - i0,
{
    if i0 < lanes.len() && !fixed_lane_accepts(c, lanes, i0, t) {
        lemma_first_free_fixed_found(c, lanes, t, i0 + 1, i);
    }
}

/// The drawable planned for a scrolling comment in lane `lane` with width
/// `w`: it enters at the right edge at lane height, and exits fully to the
/// left of the canvas.
pub open spec fn spec_float_drawable(c: ConfigModel, d: DanmuModel, lane: int, w: int) -> DrawableModel {
    DrawableModel {
        kind: DanmuType::Float,
        start_cs: d.timeline_cs + c.time_offset_cs,
        end_cs: d.timeline_cs + c.time_offset_cs + c.duration_cs,
        effect: DrawEffectModel::Move {
            start_x: c.width,
            start_y: lane * c.lane_size,
            end_x: -ceil_px(w),
            end_y: lane * c.lane_size,
        },
        rgb: d.rgb,
        content: d.content,
    }
}

/// The vertical anchor of a fixed lane: top lanes count down from the top
/// edge, bottom lanes count up from the bottom edge.
pub open spec fn spec_fixed_y(c: ConfigModel, kind: DanmuType, lane: int) -> int {
    if kind == DanmuType::Top {
        lane * c.lane_size
    } else {
        c.height - (lane + 1) * c.lane_size
    }
}

/// The horizontal anchor of a fixed comment: centered, clamped at the left
/// edge for texts wider than the canvas.
pub open spec fn spec_fixed_x(c: ConfigModel, w: int) -> int {
    let wc = ceil_px(w);
    if wc >= c.width {
        0
    } else {
        (c.width - wc) / 2
    }
}

/// The drawable planned for a fixed comment.
pub open spec fn spec_fixed_drawable(
    c: ConfigModel,
    d: DanmuModel,
    kind: DanmuType,
    lane: int,
    w: int,
) -> DrawableModel {
    DrawableModel {
        kind: kind,
        start_cs: d.timeline_cs + c.time_offset_cs,
        end_cs: d.timeline_cs + c.time_offset_cs + c.duration_cs,
        effect: DrawEffectModel::Pos { x: spec_fixed_x(c, w), y: spec_fixed_y(c, kind, lane) },
        rgb: d.rgb,
        content: d.content,
    }
}

/// The state of a fresh canvas: all lanes of every category empty.
pub open spec fn initial_state(c: ConfigModel) -> CanvasState {
    CanvasState {
        float_lanes: Seq::new(c.float_lane_count() as nat, |i: int| None),
        top_lanes: Seq::new(c.top_lane_count() as nat, |i: int| None),
        bottom_lanes: Seq::new(c.bottom_lane_count() as nat, |i: int| None),
        latest_cs: 0,
    }
}

/// One scheduling step: assigns the comment to the lowest free lane of its
/// category and plans its drawable, or drops it when no lane accepts it.
/// Returns the new canvas state and the planned drawable, if any.
pub open spec fn spec_draw(c: ConfigModel, st: CanvasState, d: DanmuModel) -> (CanvasState, Option<
    DrawableModel,
>) {
    let t = d.timeline_cs;
    let w = c.text_width_units(d.content);
    let latest = if t > st.latest_cs {
        t
    } else {
        st.latest_cs
    };
    match d.kind {
        DanmuType::Float => match first_free_float(c, st.float_lanes, t, w, 0) {
            None => (CanvasState { latest_cs: latest, ..st }, None),
            Some(i) => (
                CanvasState {
                    float_lanes: st.float_lanes.update(
                        i,
                        Some(LaneOcc { start_cs: t, width_num: w }),
                    ),
                    latest_cs: latest,
                    ..st
                },
                Some(spec_float_drawable(c, d, i, w)),
            ),
        },
        DanmuType::Top => match first_free_fixed(c, st.top_lanes, t, 0) {
            None => (CanvasState { latest_cs: latest, ..st }, None),
            Some(i) => (
                CanvasState { top_lanes: st.top_lanes.update(i, Some(t)), latest_cs: latest, ..st },
                Some(spec_fixed_drawable(c, d, DanmuType::Top, i, w)),
            ),
        },
        DanmuType::Bottom => match first_free_fixed(c, st.bottom_lanes, t, 0) {
            None => (CanvasState { latest_cs: latest, ..st }, None),
            Some(i) => (
                CanvasState {
                    bottom_lanes: st.bottom_lanes.update(i, Some(t)),
                    latest_cs: latest,
                    ..st
                },
                Some(spec_fixed_drawable(c, d, DanmuType::Bottom, i, w)),
            ),
        },
    }
}

/// Lane acceptance composes along time order: if lane occupants were
/// accepted one against the other in order, an occupant accepted against
/// the latest one is also compatible with every earlier one.
pub proof fn lemma_float_compat_trans(
    c: ConfigModel,
    t1: int,
    w1: int,
    t2: int,
    w2: int,
    t3: int,
    w3: int,
)
    requires
        c.wf(),
        0 <= w1,
        0 <= w2,
        0 <= w3,
        t1 <= t2 <= t3,
        float_compat(c, t1, w1, t2, w2),
        float_compat(c, t2, w2, t3, w3),
    ensures
        float_compat(c, t1, w1, t3, w3),
{
    let dur = c.duration_cs;
    let ws = c.canvas_units();
    if t3 - t1 < dur {
        assert(t2 - t1 < dur);
        assert(t3 - t2 < dur);
        lemma_mul_mono_right(ws + w1, t2 - t1, t3 - t1);
        lemma_mul_mono_right(ws + w3, dur - (t3 - t1), dur - (t3 - t2));
    }
}

/// One accepted placement: category, lane index, entry time, width.
pub ghost struct Placement {
    pub kind: DanmuType,
    pub lane: int,
    pub t: int,
    pub w: int,
}

/// The lane budget of a category.
pub open spec fn lane_count_of(c: ConfigModel, kind: DanmuType) -> int {
    match kind {
        DanmuType::Float => c.float_lane_count(),
        DanmuType::Top => c.top_lane_count(),
        DanmuType::Bottom => c.bottom_lane_count(),
    }
}

pub open spec fn placement_valid(c: ConfigModel, p: Placement) -> bool {
    &&& 0 <= p.t <= MAX_TIMELINE_CS
    &&& 0 <= p.w <= c.max_width_units()
    &&& 0 <= p.lane < lane_count_of(c, p.kind)
}

/// What always holds of the accepted placements: each is valid, entry times
/// never decrease, and any two placements sharing a lane are compatible —
/// scrolling ones keep the horizontal gap, fixed ones do not overlap in
/// time.
pub open spec fn history_wf(c: ConfigModel, h: Seq<Placement>) -> bool {
    &&& (forall|j: int| 0 <= j < h.len() ==> placement_valid(c, #[trigger] h[j]))
    &&& (forall|j: int, k: int|
        0 <= j < k < h.len() ==> (#[trigger] h[j]).t <= (#[trigger] h[k]).t)
    &&& (forall|j: int, k: int|
        0 <= j < k < h.len() && (#[trigger] h[j]).kind == DanmuType::Float && (
        #[trigger] h[k]).kind == DanmuType::Float && h[j].lane == h[k].lane ==> float_compat(
            c,
            h[j].t,
            h[j].w,
            h[k].t,
            h[k].w,
        ))
    &&& (forall|j: int, k: int|
        0 <= j < k < h.len() && ((#[trigger] h[j]).kind == DanmuType::Top || h[j].kind
            == DanmuType::Bottom) && (#[trigger] h[k]).kind == h[j].kind && h[j].lane
            == h[k].lane ==> fixed_compat(c, h[j].t, h[k].t))
}

/// Each scrolling lane record is faithful to the history: an empty lane has
/// no placements, and an occupied one remembers its latest occupant, with
/// which every other occupant of the lane is compatible.
pub open spec fn float_lane_sync(
    c: ConfigModel,
    h: Seq<Placement>,
    lanes: Seq<Option<LaneOcc>>,
    latest: int,
) -> bool {
    forall|i: int|
        0 <= i < lanes.len() ==> match #[trigger] lanes[i] {
            None => forall|j: int|
                0 <= j < h.len() ==> !((#[trigger] h[j]).kind == DanmuType::Float && h[j].lane
                    == i),
            Some(occ) => {
                &&& 0 <= occ.start_cs <= latest
                &&& 0 <= occ.width_num <= c.max_width_units()
                &&& forall|j: int|
                    0 <= j < h.len() && (#[trigger] h[j]).kind == DanmuType::Float && h[j].lane
                        == i ==> h[j].t <= occ.start_cs && ((h[j].t == occ.start_cs && h[j].w
                        == occ.width_num) || float_compat(
                        c,
                        h[j].t,
                        h[j].w,
                        occ.start_cs,
                        occ.width_num,
                    ))
            },
        }
}

/// Each fixed lane record is faithful to the history in the same way.
pub open spec fn fixed_lane_sync(
    c: ConfigModel,
    h: Seq<Placement>,
    kind: DanmuType,
    lanes: Seq<Option<int>>,
    latest: int,
) -> bool {
    forall|i: int|
        0 <= i < lanes.len() ==> match #[trigger] lanes[i] {
            None => forall|j: int|
                0 <= j < h.len() ==> !((#[trigger] h[j]).kind == kind && h[j].lane == i),
            Some(t1) => {
                &&& 0 <= t1 <= latest
                &&& forall|j: int|
                    0 <= j < h.len() && (#[trigger] h[j]).kind == kind && h[j].lane == i ==> h[j].t
                        <= t1 && (h[j].t == t1 || fixed_compat(c, h[j].t, t1))
            },
        }
}

/// The record a scrolling lane keeps of its last occupant.
pub struct FloatLane {
    pub start_cs: i64,
    pub width_num: u64,
}

/// The lane scheduler and motion planner of one conversion run.  It owns
/// the lane pools of the three categories and, as ghost state, the history
/// of every accepted placement.
pub struct Canvas {
    pub config: CanvasConfig,
    pub float_lanes: Vec<Option<FloatLane>>,
    pub top_lanes: Vec<Option<i64>>,
    pub bottom_lanes: Vec<Option<i64>>,
    pub latest_cs: i64,
    pub placed: Ghost<Seq<Placement>>,
}

impl View for Canvas {
    type V = CanvasState;

    open spec fn view(&self) -> CanvasState {
        CanvasState {
            float_lanes: self.float_lanes@.map_values(
                |o: Option<FloatLane>|
                    match o {
                        None => None,
                        Some(f) => Some(
                            LaneOcc { start_cs: f.start_cs as int, width_num: f.width_num as int },
                        ),
                    },
            ),
            top_lanes: self.top_lanes@.map_values(
                |o: Option<i64>|
                    match o {
                        None => None,
                        Some(t) => Some(t as int),
                    },
            ),
            bottom_lanes: self.bottom_lanes@.map_values(
                |o: Option<i64>|
                    match o {
                        None => None,
                        Some(t) => Some(t as int),
                    },
            ),
            latest_cs: self.latest_cs as int,
        }
    }
}

impl Canvas {
    /// The placements accepted so far, oldest first.
    pub open spec fn placements(self) -> Seq<Placement> {
        self.placed@
    }

    /// The scheduler's invariant, established by [`CanvasConfig::canvas`]
    /// and preserved by [`Canvas::draw`].
    pub open spec fn wf(self) -> bool {
        let c = self.config@;
        let h = self.placed@;
        &&& c.wf()
        &&& self@.float_lanes.len() == c.float_lane_count()
        &&& self@.top_lanes.len() == c.top_lane_count()
        &&& self@.bottom_lanes.len() == c.bottom_lane_count()
        &&& 0 <= self.latest_cs <= MAX_TIMELINE_CS
        &&& (forall|j: int| 0 <= j < h.len() ==> (#[trigger] h[j]).t <= self.latest_cs)
        &&& history_wf(c, h)
        &&& float_lane_sync(c, h, self@.float_lanes, self.latest_cs as int)
        &&& fixed_lane_sync(c, h, DanmuType::Top, self@.top_lanes, self.latest_cs as int)
        &&& fixed_lane_sync(c, h, DanmuType::Bottom, self@.bottom_lanes, self.latest_cs as int)
    }
}

fn none_float_lanes(n: usize) -> (r: Vec<Option<FloatLane>>)
    ensures
        r@.len() == n,
        forall|j: int| 0 <= j < n ==> (#[trigger] r@[j]) is None,
{
    let mut r: Vec<Option<FloatLane>> = Vec::new();
    for i in 0..n
        invariant
            r@.len() == i,
            forall|j: int| 0 <= j < i ==> (#[trigger] r@[j]) is None,
    {
        r.push(None);
    }
    r
}

fn none_fixed_lanes(n: usize) -> (r: Vec<Option<i64>>)
    ensures
        r@.len() == n,
        forall|j: int| 0 <= j < n ==> (#[trigger] r@[j]) is None,
{
    let mut r: Vec<Option<i64>> = Vec::new();
    for i in 0..n
        invariant
            r@.len() == i,
            forall|j: int| 0 <= j < i ==> (#[trigger] r@[j]) is None,
    {
        r.push(None);
    }
    r
}

impl CanvasConfig {
    /// An exact copy of this configuration.
    pub fn duplicate(&self) -> (r: CanvasConfig)
        ensures
            r == *self,
    {
        CanvasConfig {
            width: self.width,
            height: self.height,
            font: self.font.clone(),
            font_size: self.font_size,
            width_ratio_milli: self.width_ratio_milli,
            horizontal_gap_milli: self.horizontal_gap_milli,
            duration_cs: self.duration_cs,
            lane_size: self.lane_size,
            float_percent_milli: self.float_percent_milli,
            opacity: self.opacity,
            bottom_percent_milli: self.bottom_percent_milli,
            outline_tenths: self.outline_tenths,
            bold: self.bold,
            time_offset_cs: self.time_offset_cs,
        }
    }

    /// Whether this configuration is well-formed; what every engine entry
    /// point requires.
    pub fn validate(&self) -> (r: bool)
        ensures
            r == self@.wf(),
    {
        1 <= self.width && self.width <= 100_000 && 1 <= self.height && self.height <= 100_000
            && 1 <= self.font_size && self.font_size <= 10_000 && 1 <= self.width_ratio_milli
            && self.width_ratio_milli <= 100_000 && (self.horizontal_gap_milli as u64) <= 1000
            * (self.width as u64) && 1 <= self.duration_cs && self.duration_cs <= 8_640_000 && 1
            <= self.lane_size && self.lane_size <= 100_000 && self.float_percent_milli <= 1000
            && self.bottom_percent_milli <= 1000 && -1_000_000_000_000 <= self.time_offset_cs
            && self.time_offset_cs <= 1_000_000_000_000
    }

    /// The scrolling lane budget.
    pub fn float_lane_count(&self) -> (r: usize)
        requires
            self@.wf(),
        ensures
            r == self@.float_lane_count(),
            r <= 100_000,
    {
        proof {
            lemma_abs_mul_le(self.height as int, self.float_percent_milli as int, 100_000, 1000);
        }
        let prod: u64 = (self.height as u64) * (self.float_percent_milli as u64);
        proof {
            lemma_div_le(prod as int, 1000);
            lemma_div_le(prod as int / 1000, self.lane_size as int);
        }
        ((prod / 1000) / (self.lane_size as u64)) as usize
    }

    /// The bottom-fixed lane budget.
    pub fn bottom_lane_count(&self) -> (r: usize)
        requires
            self@.wf(),
        ensures
            r == self@.bottom_lane_count(),
            r <= 100_000,
    {
        proof {
            lemma_abs_mul_le(self.height as int, self.bottom_percent_milli as int, 100_000, 1000);
        }
        let prod: u64 = (self.height as u64) * (self.bottom_percent_milli as u64);
        proof {
            lemma_div_le(prod as int, 1000);
            lemma_div_le(prod as int / 1000, self.lane_size as int);
        }
        ((prod / 1000) / (self.lane_size as u64)) as usize
    }

    /// The top-fixed lane budget.
    pub fn top_lane_count(&self) -> (r: usize)
        requires
            self@.wf(),
        ensures
            r == self@.top_lane_count(),
            r <= 100_000,
    {
        if self.float_percent_milli + self.bottom_percent_milli >= 1000 {
            0
        } else {
            let rest = 1000 - self.float_percent_milli - self.bottom_percent_milli;
            proof {
                lemma_abs_mul_le(self.height as int, rest as int, 100_000, 1000);
            }
            let prod: u64 = (self.height as u64) * (rest as u64);
            proof {
                lemma_div_le(prod as int, 1000);
                lemma_div_le(prod as int / 1000, self.lane_size as int);
            }
            ((prod / 1000) / (self.lane_size as u64)) as usize
        }
    }

    /// A fresh canvas for one conversion run: all lanes empty.
    pub fn canvas(self) -> (r: Canvas)
        requires
            self@.wf(),
        ensures
            r.wf(),
            r.config == self,
            r.placements() =~= Seq::<Placement>::empty(),
            r@ == initial_state(self@),
    {
        let nf = self.float_lane_count();
        let nt = self.top_lane_count();
        let nb = self.bottom_lane_count();
        let r = Canvas {
            config: self,
            float_lanes: none_float_lanes(nf),
            top_lanes: none_fixed_lanes(nt),
            bottom_lanes: none_fixed_lanes(nb),
            latest_cs: 0,
            placed: Ghost(Seq::empty()),
        };
        proof {
            assert(r@.float_lanes =~= initial_state(self@).float_lanes);
            assert(r@.top_lanes =~= initial_state(self@).top_lanes);
            assert(r@.bottom_lanes =~= initial_state(self@).bottom_lanes);
            assert(r@ =~= initial_state(self@));
        }
        r
    }
}

/// The placement that one scheduling step would record, if any.
pub open spec fn spec_draw_placement(c: ConfigModel, st: CanvasState, d: DanmuModel) -> Option<
    Placement,
> {
    let t = d.timeline_cs;
    let w = c.text_width_units(d.content);
    match d.kind {
        DanmuType::Float => match first_free_float(c, st.float_lanes, t, w, 0) {
            None => None,
            Some(i) => Some(Placement { kind: DanmuType::Float, lane: i, t: t, w: w }),
        },
        DanmuType::Top => match first_free_fixed(c, st.top_lanes, t, 0) {
            None => None,
            Some(i) => Some(Placement { kind: DanmuType::Top, lane: i, t: t, w: w }),
        },
        DanmuType::Bottom => match first_free_fixed(c, st.bottom_lanes, t, 0) {
            None => None,
            Some(i) => Some(Placement { kind: DanmuType::Bottom, lane: i, t: t, w: w }),
        },
    }
}

/// The width budget itself is bounded by the configuration limits.
pub proof fn lemma_max_width_bound(c: ConfigModel)
    requires
        c.wf(),
    ensures
        0 <= c.max_width_units() <= 60_000_000_000_000_000,
{
    assert(0 <= 60 * (MAX_TEXT_CHARS as int) * c.font_size * c.width_ratio_milli
        <= 60_000_000_000_000_000) by (nonlinear_arith)
        requires
            1 <= c.font_size <= 10_000,
            1 <= c.width_ratio_milli <= 100_000,
            MAX_TEXT_CHARS == 1_000_000,
    ;
}

/// The estimated text width stays within the engine's width budget.
pub proof fn lemma_text_width_bound(c: ConfigModel, s: Seq<char>)
    requires
        c.wf(),
        s.len() <= MAX_TEXT_CHARS,
    ensures
        0 <= c.text_width_units(s) <= c.max_width_units(),
        c.max_width_units() <= 60_000_000_000_000_000,
{
    lemma_max_width_bound(c);
    crate::width::lemma_text_cells_bounds(s);
    let cells = text_cells(s);
    let m = 60 * (MAX_TEXT_CHARS as int);
    assert(0 <= cells <= m);
    assert(0 <= cells * c.font_size * c.width_ratio_milli <= m * c.font_size * c.width_ratio_milli
        <= 60_000_000_000_000_000) by (nonlinear_arith)
        requires
            0 <= cells <= m,
            m == 60_000_000,
            1 <= c.font_size <= 10_000,
            1 <= c.width_ratio_milli <= 100_000,
    ;
}

/// The lane budgets stay within the canvas height bound.
pub proof fn lemma_lane_count_bounds(c: ConfigModel)
    requires
        c.wf(),
    ensures
        0 <= c.float_lane_count() <= 100_000,
        0 <= c.top_lane_count() <= 100_000,
        0 <= c.bottom_lane_count() <= 100_000,
{
    lemma_abs_mul_le(c.height, c.float_percent_milli, 100_000, 1000);
    lemma_div_le(c.height * c.float_percent_milli, 1000);
    lemma_div_le(c.height * c.float_percent_milli / 1000, c.lane_size);
    lemma_abs_mul_le(c.height, c.bottom_percent_milli, 100_000, 1000);
    lemma_div_le(c.height * c.bottom_percent_milli, 1000);
    lemma_div_le(c.height * c.bottom_percent_milli / 1000, c.lane_size);
    if c.float_percent_milli + c.bottom_percent_milli < 1000 {
        let rest = 1000 - c.float_percent_milli - c.bottom_percent_milli;
        lemma_abs_mul_le(c.height, rest, 100_000, 1000);
        lemma_div_le(c.height * rest, 1000);
        lemma_div_le(c.height * rest / 1000, c.lane_size);
    }
}

/// Decides whether a scrolling lane's last occupant lets a new comment in,
/// by the exact rational comparison of [`float_compat`] carried out in
/// 128-bit integers.
fn float_accepts(cfg: &CanvasConfig, occ: &FloatLane, t: i64, w: u64) -> (r: bool)
    requires
        cfg@.wf(),
        0 <= occ.start_cs <= MAX_TIMELINE_CS,
        occ.width_num <= cfg@.max_width_units(),
        0 <= t <= MAX_TIMELINE_CS,
        w <= cfg@.max_width_units(),
    ensures
        r == float_compat(cfg@, occ.start_cs as int, occ.width_num as int, t as int, w as int),
{
    proof {
        lemma_max_width_bound(cfg@);
    }
    let dur: i128 = cfg.duration_cs as i128;
    let ws: i128 = (cfg.width as i128) * 60000;
    let gap: i128 = (cfg.horizontal_gap_milli as i128) * 60;
    let w1: i128 = occ.width_num as i128;
    let w2: i128 = w as i128;
    let dt: i128 = (t as i128) - (occ.start_cs as i128);
    if dt >= dur {
        true
    } else {
        proof {
            lemma_abs_mul_le(ws + w1, dt as int, 0x1_0000_0000_0000_0000, 0x4_0000_0000_0000);
            lemma_abs_mul_le(w1 + gap, dur as int, 0x1_0000_0000_0000_0000, 0x1_0000_0000);
            lemma_abs_mul_le(ws as int, dur as int, 0x1_0000_0000_0000_0000, 0x1_0000_0000);
            lemma_abs_mul_le(ws + w2, dur - dt, 0x1_0000_0000_0000_0000, 0x4_0000_0000_0000);
            lemma_abs_mul_le(gap as int, dur as int, 0x1_0000_0000_0000, 0x1_0000_0000);
        }
        (ws + w1) * dt >= (w1 + gap) * dur && ws * dur - (ws + w2) * (dur - dt) >= gap * dur
    }
}

impl Canvas {
    /// The lowest-indexed scrolling lane that accepts entry time `t` and
    /// width `w`.
    fn find_float_lane(&self, t: i64, w: u64) -> (r: Option<usize>)
        requires
            self.wf(),
            0 <= t <= MAX_TIMELINE_CS,
            w <= self.config@.max_width_units(),
        ensures
            match r {
                Some(i) => 0 <= i < self@.float_lanes.len() && first_free_float(
                    self.config@,
                    self@.float_lanes,
                    t as int,
                    w as int,
                    0,
                ) == Some(i as int),
                None => first_free_float(
                    self.config@,
                    self@.float_lanes,
                    t as int,
                    w as int,
                    0,
                ) is None,
            },
    {
        let ghost c = self.config@;
        let ghost lanes = self@.float_lanes;
        let n = self.float_lanes.len();
        for i in 0..n
            invariant
                self.wf(),
                0 <= t <= MAX_TIMELINE_CS,
                w <= self.config@.max_width_units(),
                c == self.config@,
                lanes == self@.float_lanes,
                n == lanes.len(),
                first_free_float(c, lanes, t as int, w as int, 0) == first_free_float(
                    c,
                    lanes,
                    t as int,
                    w as int,
                    i as int,
                ),
        {
            let ok: bool = match &self.float_lanes[i] {
                None => true,
                Some(occ) => float_accepts(&self.config, occ, t, w),
            };
            if ok {
                return Some(i);
            }
        }
        None
    }

    /// The lowest-indexed lane of a fixed pool that accepts entry time `t`.
    fn find_fixed_lane(lanes: &Vec<Option<i64>>, cfg: &CanvasConfig, t: i64) -> (r: Option<usize>)
        requires
            cfg@.wf(),
        ensures
            ({
                let m = lanes@.map_values(
                    |o: Option<i64>|
                        match o {
                            None => None,
                            Some(t1) => Some(t1 as int),
                        },
                );
                match r {
                    Some(i) => 0 <= i < lanes@.len() && first_free_fixed(cfg@, m, t as int, 0)
                        == Some(i as int),
                    None => first_free_fixed(cfg@, m, t as int, 0) is None,
                }
            }),
    {
        let ghost c = cfg@;
        let ghost m = lanes@.map_values(
            |o: Option<i64>|
                match o {
                    None => None,
                    Some(t1) => Some(t1 as int),
                },
        );
        let n = lanes.len();
        for i in 0..n
            invariant
                c == cfg@,
                m == lanes@.map_values(
                    |o: Option<i64>|
                        match o {
                            None => None,
                            Some(t1) => Some(t1 as int),
                        },
                ),
                n == lanes@.len(),
                n == m.len(),
                first_free_fixed(c, m, t as int, 0) == first_free_fixed(c, m, t as int, i as int),
        {
            let ok: bool = match &lanes[i] {
                None => true,
                Some(t1) => {
                    if *t1 <= i64::MAX - (cfg.duration_cs as i64) {
                        t >= *t1 + (cfg.duration_cs as i64)
                    } else {
                        false
                    }
                },
            };
            assert(ok == match m[i as int] {
                None => true,
                Some(t1) => fixed_compat(c, t1, t as int),
            });
            if ok {
                return Some(i);
            }
        }
        None
    }

    /// Estimated width of a comment's text, in width units.
    fn measure_width(&self, content: &String) -> (w: u64)
        requires
            self.config@.wf(),
            content@.len() <= MAX_TEXT_CHARS,
        ensures
            w == self.config@.text_width_units(content@),
            w <= self.config@.max_width_units(),
            w <= 60_000_000_000_000_000,
    {
        let chars = crate::text::str_chars(content.as_str());
        let cells = crate::width::measure_cells(&chars);
        proof {
            lemma_text_width_bound(self.config@, content@);
            lemma_abs_mul_le(cells as int, self.config.font_size as int, 60_000_000, 10_000);
            lemma_abs_mul_le(
                cells as int * self.config.font_size as int,
                self.config.width_ratio_milli as int,
                600_000_000_000,
                100_000,
            );
        }
        cells * (self.config.font_size as u64) * (self.config.width_ratio_milli as u64)
    }

    /// Schedules one scrolling comment.
    fn do_draw_float(&mut self, danmu: Danmu) -> (r: Option<Drawable>)
        requires
            old(self).wf(),
            danmu@.valid(),
            danmu@.kind == DanmuType::Float,
            danmu.timeline_cs >= old(self).latest_cs,
        ensures
            final(self).wf(),
            final(self).config == old(self).config,
            final(self)@ == spec_draw(old(self).config@, old(self)@, danmu@).0,
            (match (r, spec_draw(old(self).config@, old(self)@, danmu@).1) {
                (None, None) => true,
                (Some(d), Some(m)) => d@ == m,
                _ => false,
            }),
            final(self).placements() == (match spec_draw_placement(
                old(self).config@,
                old(self)@,
                danmu@,
            ) {
                None => old(self).placements(),
                Some(p) => old(self).placements().push(p),
            }),
    {
        let ghost c = self.config@;
        let ghost st0 = self@;
        let ghost h = self.placed@;
        let t = danmu.timeline_cs;
        let w = self.measure_width(&danmu.content);
        proof {
            lemma_lane_count_bounds(c);
        }
        match self.find_float_lane(t, w) {
            None => {
                self.latest_cs = t;
                proof {
                    assert(self@ =~= spec_draw(c, st0, danmu@).0);
                }
                None
            },
            Some(i) => {
                let ghost occ_opt = st0.float_lanes[i as int];
                let ghost p = Placement {
                    kind: DanmuType::Float,
                    lane: i as int,
                    t: t as int,
                    w: w as int,
                };
                proof {
                    lemma_first_free_float_found(c, st0.float_lanes, t as int, w as int, 0, i as int);
                }
                self.float_lanes[i] = Some(FloatLane { start_cs: t, width_num: w });
                self.latest_cs = t;
                self.placed = Ghost(h.push(p));
                proof {
                    let h2 = h.push(p);
                    // every prior placement in this lane is compatible with the new one
                    assert forall|j: int|
                        0 <= j < h.len() && (#[trigger] h[j]).kind == DanmuType::Float
                            && h[j].lane == p.lane implies float_compat(
                        c,
                        h[j].t,
                        h[j].w,
                        p.t,
                        p.w,
                    ) by {
                        match occ_opt {
                            None => {
                                assert(!(h[j].kind == DanmuType::Float && h[j].lane == i as int));
                            },
                            Some(occ) => {
                                if h[j].t == occ.start_cs && h[j].w == occ.width_num {
                                } else {
                                    lemma_float_compat_trans(
                                        c,
                                        h[j].t,
                                        h[j].w,
                                        occ.start_cs,
                                        occ.width_num,
                                        p.t,
                                        p.w,
                                    );
                                }
                            },
                        }
                    }
                    assert(self@.float_lanes =~= st0.float_lanes.update(
                        i as int,
                        Some(LaneOcc { start_cs: t as int, width_num: w as int }),
                    ));
                    assert(self@ =~= spec_draw(c, st0, danmu@).0);
                    assert(history_wf(c, h2));
                    assert(float_lane_sync(c, h2, self@.float_lanes, t as int));
                    assert(fixed_lane_sync(c, h2, DanmuType::Top, self@.top_lanes, t as int));
                    assert(fixed_lane_sync(c, h2, DanmuType::Bottom, self@.bottom_lanes, t as int));
                }
                proof {
                    lemma_abs_mul_le(i as int, self.config.lane_size as int, 100_000, 100_000);
                }
                let y: i64 = (i as i64) * (self.config.lane_size as i64);
                let end_x: i64 = -(((w + 59999) / 60000) as i64);
                let start = t + self.config.time_offset_cs;
                let end = start + (self.config.duration_cs as i64);
                let d = Drawable {
                    kind: DanmuType::Float,
                    start_cs: start,
                    end_cs: end,
                    effect: DrawEffect::Move {
                        start_x: self.config.width as i64,
                        start_y: y,
                        end_x: end_x,
                        end_y: y,
                    },
                    rgb: danmu.rgb,
                    content: danmu.content,
                };
                proof {
                    assert(d@ =~= spec_float_drawable(c, danmu@, i as int, w as int));
                }
                Some(d)
            },
        }
    }

    /// The centered horizontal anchor of a fixed comment of width `w`.
    fn fixed_x(&self, w: u64) -> (x: i64)
        requires
            self.config@.wf(),
            w <= 60_000_000_000_000_000,
        ensures
            x == spec_fixed_x(self.config@, w as int),
    {
        let wc: i64 = ((w + 59999) / 60000) as i64;
        if wc >= self.config.width as i64 {
            0
        } else {
            (self.config.width as i64 - wc) / 2
        }
    }

    /// Schedules one top-fixed comment.
    fn do_draw_top(&mut self, danmu: Danmu) -> (r: Option<Drawable>)
        requires
            old(self).wf(),
            danmu@.valid(),
            danmu@.kind == DanmuType::Top,
            danmu.timeline_cs >= old(self).latest_cs,
        ensures
            final(self).wf(),
            final(self).config == old(self).config,
            final(self)@ == spec_draw(old(self).config@, old(self)@, danmu@).0,
            (match (r, spec_draw(old(self).config@, old(self)@, danmu@).1) {
                (None, None) => true,
                (Some(d), Some(m)) => d@ == m,
                _ => false,
            }),
            final(self).placements() == (match spec_draw_placement(
                old(self).config@,
                old(self)@,
                danmu@,
            ) {
                None => old(self).placements(),
                Some(p) => old(self).placements().push(p),
            }),
    {
        let ghost c = self.config@;
        let ghost st0 = self@;
        let ghost h = self.placed@;
        let t = danmu.timeline_cs;
        let w = self.measure_width(&danmu.content);
        proof {
            lemma_lane_count_bounds(c);
        }
        match Canvas::find_fixed_lane(&self.top_lanes, &self.config, t) {
            None => {
                self.latest_cs = t;
                proof {
                    assert(self@ =~= spec_draw(c, st0, danmu@).0);
                }
                None
            },
            Some(i) => {
                let ghost p = Placement {
                    kind: DanmuType::Top,
                    lane: i as int,
                    t: t as int,
                    w: w as int,
                };
                proof {
                    lemma_first_free_fixed_found(c, st0.top_lanes, t as int, 0, i as int);
                }
                self.top_lanes[i] = Some(t);
                self.latest_cs = t;
                self.placed = Ghost(h.push(p));
                proof {
                    let h2 = h.push(p);
                    assert(self@.top_lanes =~= st0.top_lanes.update(i as int, Some(t as int)));
                    assert(self@ =~= spec_draw(c, st0, danmu@).0);
                    assert(history_wf(c, h2));
                    assert(float_lane_sync(c, h2, self@.float_lanes, t as int));
                    assert(fixed_lane_sync(c, h2, DanmuType::Top, self@.top_lanes, t as int));
                    assert(fixed_lane_sync(c, h2, DanmuType::Bottom, self@.bottom_lanes, t as int));
                }
                proof {
                    lemma_abs_mul_le(i as int, self.config.lane_size as int, 100_000, 100_000);
                }
                let y: i64 = (i as i64) * (self.config.lane_size as i64);
                let x = self.fixed_x(w);
                let start = t + self.config.time_offset_cs;
                let end = start + (self.config.duration_cs as i64);
                let d = Drawable {
                    kind: DanmuType::Top,
                    start_cs: start,
                    end_cs: end,
                    effect: DrawEffect::Pos { x: x, y: y },
                    rgb: danmu.rgb,
                    content: danmu.content,
                };
                proof {
                    assert(d@ =~= spec_fixed_drawable(c, danmu@, DanmuType::Top, i as int, w as int));
                }
                Some(d)
            },
        }
    }

    /// Schedules one bottom-fixed comment.
    fn do_draw_bottom(&mut self, danmu: Danmu) -> (r: Option<Drawable>)
        requires
            old(self).wf(),
            danmu@.valid(),
            danmu@.kind == DanmuType::Bottom,
            danmu.timeline_cs >= old(self).latest_cs,
        ensures
            final(self).wf(),
            final(self).config == old(self).config,
            final(self)@ == spec_draw(old(self).config@, old(self)@, danmu@).0,
            (match (r, spec_draw(old(self).config@, old(self)@, danmu@).1) {
                (None, None) => true,
                (Some(d), Some(m)) => d@ == m,
                _ => false,
            }),
            final(self).placements() == (match spec_draw_placement(
                old(self).config@,
                old(self)@,
                danmu@,
            ) {
                None => old(self).placements(),
                Some(p) => old(self).placements().push(p),
            }),
    {
        let ghost c = self.config@;
        let ghost st0 = self@;
        let ghost h = self.placed@;
        let t = danmu.timeline_cs;
        let w = self.measure_width(&danmu.content);
        proof {
            lemma_lane_count_bounds(c);
        }
        match Canvas::find_fixed_lane(&self.bottom_lanes, &self.config, t) {
            None => {
                self.latest_cs = t;
                proof {
                    assert(self@ =~= spec_draw(c, st0, danmu@).0);
                }
                None
            },
            Some(i) => {
                let ghost p = Placement {
                    kind: DanmuType::Bottom,
                    lane: i as int,
                    t: t as int,
                    w: w as int,
                };
                proof {
                    lemma_first_free_fixed_found(c, st0.bottom_lanes, t as int, 0, i as int);
                }
                self.bottom_lanes[i] = Some(t);
                self.latest_cs = t;
                self.placed = Ghost(h.push(p));
                proof {
                    let h2 = h.push(p);
                    assert(self@.bottom_lanes =~= st0.bottom_lanes.update(i as int, Some(t as int)));
                    assert(self@ =~= spec_draw(c, st0, danmu@).0);
                    assert(history_wf(c, h2));
                    assert(float_lane_sync(c, h2, self@.float_lanes, t as int));
                    assert(fixed_lane_sync(c, h2, DanmuType::Top, self@.top_lanes, t as int));
                    assert(fixed_lane_sync(c, h2, DanmuType::Bottom, self@.bottom_lanes, t as int));
                }
                proof {
                    lemma_abs_mul_le(i as int + 1, self.config.lane_size as int, 100_001, 100_000);
                }
                let y: i64 = (self.config.height as i64) - ((i as i64) + 1) * (
                self.config.lane_size as i64);
                let x = self.fixed_x(w);
                let start = t + self.config.time_offset_cs;
                let end = start + (self.config.duration_cs as i64);
                let d = Drawable {
                    kind: DanmuType::Bottom,
                    start_cs: start,
                    end_cs: end,
                    effect: DrawEffect::Pos { x: x, y: y },
                    rgb: danmu.rgb,
                    content: danmu.content,
                };
                proof {
                    assert(d@ =~= spec_fixed_drawable(
                        c,
                        danmu@,
                        DanmuType::Bottom,
                        i as int,
                        w as int,
                    ));
                }
                Some(d)
            },
        }
    }

    /// Schedules one comment and plans its drawable.
    ///
    /// The comment goes to the lowest-indexed lane of its category that can
    /// take it without breaking the no-overlap guarantee; when no lane can,
    /// the comment is dropped and `None` returned.  Comments must arrive in
    /// non-decreasing timestamp order.
    pub fn draw(&mut self, danmu: Danmu) -> (r: Option<Drawable>)
        requires
            old(self).wf(),
            danmu@.valid(),
            danmu.timeline_cs >= old(self).latest_cs,
        ensures
            final(self).wf(),
            final(self).config == old(self).config,
            final(self)@ == spec_draw(old(self).config@, old(self)@, danmu@).0,
            (match (r, spec_draw(old(self).config@, old(self)@, danmu@).1) {
                (None, None) => true,
                (Some(d), Some(m)) => d@ == m,
                _ => false,
            }),
            final(self).placements() == (match spec_draw_placement(
                old(self).config@,
                old(self)@,
                danmu@,
            ) {
                None => old(self).placements(),
                Some(p) => old(self).placements().push(p),
            }),
    {
        match danmu.kind {
            DanmuType::Float => self.do_draw_float(danmu),
            DanmuType::Top => self.do_draw_top(danmu),
            DanmuType::Bottom => self.do_draw_bottom(danmu),
        }
    }
}

/// The leading (left) edge of a scrolling comment entering at `t` with
/// width `w`, at the instant `tau_num / tau_den` (in centiseconds): it
/// starts at the right edge and crosses the canvas plus its own width in
/// one duration.  Positions are width units scaled by the duration and by
/// the instant's denominator, so they stay integers at every rational
/// instant.
pub open spec fn float_head_pos(c: ConfigModel, t: int, w: int, tau_num: int, tau_den: int) -> int {
    tau_den * (c.canvas_units() * c.duration_cs) - (c.canvas_units() + w) * (tau_num - tau_den
        * t)
}

/// The trailing (right) edge of the same comment.
pub open spec fn float_tail_pos(c: ConfigModel, t: int, w: int, tau_num: int, tau_den: int) -> int {
    float_head_pos(c, t, w, tau_num, tau_den) + tau_den * (w * c.duration_cs)
}

/// No-overlap invariant: two scrolling comments placed in the same lane
/// keep at least the configured horizontal gap between the older one's
/// tail and the newer one's head at every instant of their shared display
/// window.  The instant is an arbitrary rational `tau_num / tau_den`, so
/// the guarantee covers the whole continuous window.
pub proof fn lemma_float_no_overlap(cv: Canvas, j: int, k: int, tau_num: int, tau_den: int)
    requires
        cv.wf(),
        0 <= j < k < cv.placements().len(),
        cv.placements()[j].kind == DanmuType::Float,
        cv.placements()[k].kind == DanmuType::Float,
        cv.placements()[j].lane == cv.placements()[k].lane,
        tau_den >= 1,
        tau_den * cv.placements()[k].t <= tau_num <= tau_den * (cv.placements()[j].t
            + cv.config@.duration_cs),
    ensures
        float_head_pos(cv.config@, cv.placements()[k].t, cv.placements()[k].w, tau_num, tau_den)
            - float_tail_pos(
            cv.config@,
            cv.placements()[j].t,
            cv.placements()[j].w,
            tau_num,
            tau_den,
        ) >= tau_den * (cv.config@.gap_units() * cv.config@.duration_cs),
{
    let c = cv.config@;
    let pj = cv.placements()[j];
    let pk = cv.placements()[k];
    let t1 = pj.t;
    let w1 = pj.w;
    let t2 = pk.t;
    let w2 = pk.w;
    let dur = c.duration_cs;
    let ws = c.canvas_units();
    let gap = c.gap_units();
    let p = tau_num;
    let q = tau_den;
    // the gap at the newcomer's entry and at the older comment's exit,
    // scaled by the duration alone
    let ga = (ws + w1) * (t2 - t1) - w1 * dur;
    let gb = ws * dur - (ws + w2) * (t1 + dur - t2);
    let gt = float_head_pos(c, t2, w2, p, q) - float_tail_pos(c, t1, w1, p, q);
    assert(float_compat(c, t1, w1, t2, w2));
    // the gap is linear in the instant, anchored at the window's two ends
    assert(gt - q * ga == (w1 - w2) * (p - q * t2)) by (nonlinear_arith)
        requires
            gt == q * (ws * dur) - (ws + w2) * (p - q * t2) - (q * (ws * dur) - (ws + w1) * (p
                - q * t1) + q * (w1 * dur)),
            ga == (ws + w1) * (t2 - t1) - w1 * dur,
    ;
    assert(gb - ga == (w1 - w2) * (t1 + dur - t2)) by (nonlinear_arith)
        requires
            ga == (ws + w1) * (t2 - t1) - w1 * dur,
            gb == ws * dur - (ws + w2) * (t1 + dur - t2),
    ;
    assert(q * gb - gt == (w1 - w2) * (q * (t1 + dur) - p)) by (nonlinear_arith)
        requires
            gt - q * ga == (w1 - w2) * (p - q * t2),
            gb - ga == (w1 - w2) * (t1 + dur - t2),
    ;
    if t2 - t1 >= dur {
        // the windows merely touch: the instant is the newcomer's entry,
        // where the whole canvas separates the two
        assert(q * t2 >= q * (t1 + dur)) by (nonlinear_arith)
            requires
                q >= 1,
                t2 >= t1 + dur,
        ;
        assert(p == q * t2);
        assert(q * t2 == q * (t1 + dur));
        assert(t2 - t1 == dur) by (nonlinear_arith)
            requires
                q >= 1,
                q * t2 == q * (t1 + dur),
        ;
        assert(ga == ws * dur) by (nonlinear_arith)
            requires
                ga == (ws + w1) * (t2 - t1) - w1 * dur,
                t2 - t1 == dur,
        ;
        assert((w1 - w2) * (p - q * t2) == 0) by (nonlinear_arith)
            requires
                p == q * t2,
        ;
        assert(gt == q * ga);
        assert(gap <= ws);
        assert(gt >= q * (gap * dur)) by (nonlinear_arith)
            requires
                gt == q * ga,
                ga == ws * dur,
                q >= 1,
                gap <= ws,
                dur >= 1,
                gap >= 0,
        ;
    } else {
        assert((ws + w1) * (t2 - t1) >= (w1 + gap) * dur);
        assert(ws * dur - (ws + w2) * (dur - (t2 - t1)) >= gap * dur);
        assert(ga >= gap * dur) by (nonlinear_arith)
            requires
                ga == (ws + w1) * (t2 - t1) - w1 * dur,
                (ws + w1) * (t2 - t1) >= (w1 + gap) * dur,
        ;
        assert(gb >= gap * dur) by (nonlinear_arith)
            requires
                gb == ws * dur - (ws + w2) * (t1 + dur - t2),
                ws * dur - (ws + w2) * (dur - (t2 - t1)) >= gap * dur,
        ;
        lemma_mul_mono_right(q, gap * dur, ga);
        lemma_mul_mono_right(q, gap * dur, gb);
        // the gap shrinks towards whichever end the faster comment leaves
        if w1 >= w2 {
            lemma_mul_mono_right(w1 - w2, 0, p - q * t2);
            assert(gt >= q * ga);
        } else {
            lemma_mul_mono_right(w2 - w1, 0, q * (t1 + dur) - p);
            assert((w2 - w1) * (q * (t1 + dur) - p) >= 0);
            assert((w1 - w2) * (q * (t1 + dur) - p) <= 0) by (nonlinear_arith)
                requires
                    (w2 - w1) * (q * (t1 + dur) - p) >= 0,
            ;
            assert(gt >= q * gb);
        }
    }
}

/// Lane reuse correctness: two fixed comments placed in the same lane never
/// have overlapping display windows — the earlier one's window ends before
/// the later one's begins.
pub proof fn lemma_fixed_no_overlap(cv: Canvas, j: int, k: int)
    requires
        cv.wf(),
        0 <= j < k < cv.placements().len(),
        cv.placements()[j].kind == cv.placements()[k].kind,
        cv.placements()[j].kind == DanmuType::Top || cv.placements()[j].kind == DanmuType::Bottom,
        cv.placements()[j].lane == cv.placements()[k].lane,
    ensures
        cv.placements()[j].t + cv.config@.duration_cs <= cv.placements()[k].t,
{
}

} // verus!
