//! The galaxy curve engine: a per-instance state machine that, on each
//! tick, advances the animation parameters and draws one frame's worth of a
//! hypotrochoid-derived curve into an open frame session.
//!
//! Each tick runs `curvature` sub-strokes. While growing, every sub-stroke
//! raises the diameter by one tenth of a unit and the phase angle by one
//! step; once the diameter passes its bound the engine latches into
//! shrinking and walks both back down, releasing the latch again just
//! under a tenth of a unit. The drawn points blend between the previous
//! tick's anchor, kept in a [`GalaxyAnimator`], and the instance's own
//! anchor, which gives the ribbon its motion continuity between ticks.

use vstd::prelude::*;
use crate::DrawError;
use crate::fixed::{FP, FINE, TURN, div_trunc, div_trunc_signed};
use crate::fixed::{div_trunc_i64, div_trunc_i128, div_trunc_i128_signed, mod_turn_i128};
use crate::fixed::lemma_mul_bound;
use crate::trig::{spec_sin, spec_cos, sin_fp, cos_fp};
use crate::primitives::{DrawFrameData, DrawCmd, PenStyle};
use crate::primitives::{create_solid_pen, close_draw_lines, draw_line};

verus! {

/// One tenth of a drawing unit: the per-sub-stroke diameter increment.
pub const STEP: i64 = 100_000;

/// The diameter a fresh galaxy starts with: nine units.
pub const INIT_DIAMETER: i64 = 9_000_000;

/// The diameter bound a fresh galaxy grows toward: 450 units.
pub const MAX_DIAMETER: i64 = 450_000_000;

/// The sub-stroke count of a fresh galaxy.
pub const INIT_CURVATURE: i32 = 10;

/// Largest diameter bound any well-formed galaxy may carry: 1000 units.
pub const DIAMETER_CAP: i64 = 1_000_000_000;

/// Largest sub-stroke count any galaxy handed to the engine may carry.
pub const CURVATURE_CAP: i32 = 100_000;

/// Largest anchor coordinate magnitude, in `FP` sub-units.
pub const POS_CAP: i64 = 0x4_0000_0000;

/// Largest hypotrochoid anchor magnitude, in `FINE` sub-units.
pub const ANCHOR_CAP: i64 = 0x1000_0000_0000;

/// Largest phase angle magnitude, in binary angle units.
pub const THETA_CAP: i64 = 0x4_0000_0000_0000;

/// Largest per-step angle increment, in binary angle units.
pub const TSTEP_CAP: i64 = 0x2_0000_0000;

/// Largest surface dimension a galaxy can be constructed against.
pub const SCREEN_CAP: usize = 16_384;

/// The denominator of the anchor ratio: 999 squared.
pub const RATIO_DEN: i64 = 998_001;

/// `FINE` sub-units per `FP` sub-unit.
pub const FINE_PER_FP: i64 = 1_000_000_000;

/// One animated curve-family instance: its anchor position, colour, size
/// and phase state, and the two hypotrochoid ratio anchors baked in at
/// creation.
#[derive(Clone, Copy, Debug, PartialEq, Eq, Structural)]
pub struct Galaxy {
    /// Anchor x position the curve orbits toward, in `FP` sub-units.
    pub x: i64,
    /// Anchor y position, in `FP` sub-units.
    pub y: i64,
    /// Packed colour of the drawn strokes.
    pub color: u32,
    /// Current diameter, in `FP` sub-units.
    pub diameter: i64,
    /// Diameter bound that flips growth into shrinking, in `FP` sub-units.
    pub max_diameter: i64,
    /// Number of sub-strokes drawn per tick.
    pub curvature: i32,
    /// Current phase angle, in binary angle units.
    pub theta: i64,
    /// Per-sub-stroke angle increment, in binary angle units.
    pub theta_step: i64,
    /// The shrink latch: set when the diameter first passes its bound,
    /// cleared when it falls back under one step.
    pub is_max_radius: bool,
    /// Hypotrochoid x anchor, in `FINE` sub-units.
    pub hptr_x: i64,
    /// Hypotrochoid y anchor, in `FINE` sub-units.
    pub hptr_y: i64,
}

/// The mathematical shadow of a [`Galaxy`]: the same fields over
/// unbounded integers, which the state-machine specifications range over.
pub ghost struct GalaxyModel {
    /// Anchor x position, in `FP` sub-units.
    pub x: int,
    /// Anchor y position, in `FP` sub-units.
    pub y: int,
    /// Packed colour.
    pub color: int,
    /// Current diameter, in `FP` sub-units.
    pub diameter: int,
    /// Diameter bound, in `FP` sub-units.
    pub max_diameter: int,
    /// Sub-strokes per tick.
    pub curvature: int,
    /// Phase angle, in binary angle units.
    pub theta: int,
    /// Per-sub-stroke angle increment, in binary angle units.
    pub theta_step: int,
    /// The shrink latch.
    pub is_max_radius: bool,
    /// Hypotrochoid x anchor, in `FINE` sub-units.
    pub hptr_x: int,
    /// Hypotrochoid y anchor, in `FINE` sub-units.
    pub hptr_y: int,
}

impl View for Galaxy {
    type V = GalaxyModel;

    open spec fn view(&self) -> GalaxyModel {
        GalaxyModel {
            x: self.x as int,
            y: self.y as int,
            color: self.color as int,
            diameter: self.diameter as int,
            max_diameter: self.max_diameter as int,
            curvature: self.curvature as int,
            theta: self.theta as int,
            theta_step: self.theta_step as int,
            is_max_radius: self.is_max_radius,
            hptr_x: self.hptr_x as int,
            hptr_y: self.hptr_y as int,
        }
    }
}

/// One sub-stroke's state change: the latch logic, the diameter step and
/// the matching angle step, exactly as the engine runs it.
pub open spec fn sub_step(g: GalaxyModel) -> GalaxyModel {
    if g.diameter > g.max_diameter || g.is_max_radius {
        let g1 = GalaxyModel {
            is_max_radius: g.diameter >= STEP,
            theta: g.theta - g.theta_step,
            diameter: g.diameter - STEP,
            ..g
        };
        if !g1.is_max_radius {
            GalaxyModel { theta: g1.theta + g.theta_step, diameter: g1.diameter + STEP, ..g1 }
        } else {
            g1
        }
    } else {
        GalaxyModel { theta: g.theta + g.theta_step, diameter: g.diameter + STEP, ..g }
    }
}

/// The state after `k` sub-strokes.
pub open spec fn steps(g: GalaxyModel, k: nat) -> GalaxyModel
    decreases k,
{
    if k == 0 {
        g
    } else {
        sub_step(steps(g, (k - 1) as nat))
    }
}

/// The magnitude bounds under which one engine tick is free of overflow.
/// They admit degenerate instances (zero curvature, zero anchors), which
/// the engine rejects at run time.
pub open spec fn bounded(g: GalaxyModel) -> bool {
    &&& -2 * (STEP as int) <= g.diameter <= g.max_diameter + STEP
    &&& 0 <= g.max_diameter <= DIAMETER_CAP
    &&& -(THETA_CAP as int) <= g.theta <= THETA_CAP
    &&& 0 <= g.theta_step <= TSTEP_CAP
    &&& g.curvature <= CURVATURE_CAP
    &&& -(POS_CAP as int) <= g.x <= POS_CAP
    &&& -(POS_CAP as int) <= g.y <= POS_CAP
    &&& -(ANCHOR_CAP as int) <= g.hptr_x <= ANCHOR_CAP
    &&& -(ANCHOR_CAP as int) <= g.hptr_y <= ANCHOR_CAP
}

/// Well-formedness of a live galaxy, established by construction and
/// preserved by every sub-stroke: the magnitude bounds, the coupling of
/// phase angle to diameter that keeps the angle bounded over any number of
/// ticks, and the floor discipline of the shrink latch.
pub open spec fn wf(g: GalaxyModel) -> bool {
    &&& bounded(g)
    &&& g.theta * STEP == g.theta_step * (g.diameter - INIT_DIAMETER)
    &&& (STEP as int) <= g.max_diameter
    &&& -(STEP as int) <= g.diameter
    &&& (g.is_max_radius ==> g.diameter >= 0)
    &&& 1 <= g.curvature
    &&& g.hptr_y != 0
}

/// Any number of sub-strokes changes only the diameter, the phase angle
/// and the latch.
pub proof fn lemma_steps_static(g: GalaxyModel, k: nat)
    ensures
        steps(g, k).x == g.x,
        steps(g, k).y == g.y,
        steps(g, k).color == g.color,
        steps(g, k).max_diameter == g.max_diameter,
        steps(g, k).curvature == g.curvature,
        steps(g, k).theta_step == g.theta_step,
        steps(g, k).hptr_x == g.hptr_x,
        steps(g, k).hptr_y == g.hptr_y,
    decreases k,
{
    if k > 0 {
        lemma_steps_static(g, (k - 1) as nat);
    }
}

/// One sub-stroke preserves well-formedness: the bounds hold again, the
/// angle-diameter coupling carries over, and a set latch still means a
/// non-negative diameter.
pub proof fn lemma_sub_step_wf(g: GalaxyModel)
    requires
        wf(g),
    ensures
        wf(sub_step(g)),
{
    let n = sub_step(g);
    assert(n.theta * STEP == n.theta_step * (n.diameter - INIT_DIAMETER)) by (nonlinear_arith)
        requires
            g.theta * STEP == g.theta_step * (g.diameter - INIT_DIAMETER),
            n.theta_step == g.theta_step,
            (n.theta == g.theta + g.theta_step && n.diameter == g.diameter + STEP)
                || (n.theta == g.theta - g.theta_step && n.diameter == g.diameter - STEP)
                || (n.theta == g.theta && n.diameter == g.diameter),
    {
    }
    assert(-(THETA_CAP as int) <= n.theta <= THETA_CAP) by (nonlinear_arith)
        requires
            n.theta * STEP == n.theta_step * (n.diameter - INIT_DIAMETER),
            0 <= n.theta_step <= TSTEP_CAP,
            -2 * (STEP as int) <= n.diameter <= DIAMETER_CAP + STEP,
    {
    }
}

/// Well-formedness is preserved across any number of sub-strokes, and with
/// it the floor discipline: while the latch is set — the engine is
/// shrinking — the diameter never falls below zero, one step under the
/// documented release floor.
pub proof fn lemma_steps_wf(g: GalaxyModel, k: nat)
    requires
        wf(g),
    ensures
        wf(steps(g, k)),
        steps(g, k).is_max_radius ==> steps(g, k).diameter >= 0,
    decreases k,
{
    if k > 0 {
        lemma_steps_wf(g, (k - 1) as nat);
        lemma_sub_step_wf(steps(g, (k - 1) as nat));
    }
}

/// While the engine is growing and the diameter has room under its bound,
/// every sub-stroke raises the diameter by exactly one step and the phase
/// angle by exactly one increment, and the latch stays clear.
pub proof fn lemma_growth(g: GalaxyModel, k: nat)
    requires
        wf(g),
        !g.is_max_radius,
        g.diameter + k * STEP <= g.max_diameter + STEP,
    ensures
        steps(g, k).diameter == g.diameter + k * STEP,
        steps(g, k).theta == g.theta + k * g.theta_step,
        !steps(g, k).is_max_radius,
    decreases k,
{
    if k > 0 {
        assert((k - 1) * (STEP as int) == k * STEP - STEP) by (nonlinear_arith);
        assert((k - 1) * g.theta_step == k * g.theta_step - g.theta_step) by (nonlinear_arith);
        lemma_growth(g, (k - 1) as nat);
        let p = steps(g, (k - 1) as nat);
        assert(p.diameter <= g.max_diameter);
        lemma_steps_static(g, (k - 1) as nat);
    }
}

/// Once the diameter first exceeds its bound, the very next sub-stroke
/// latches the engine into shrinking and walks the diameter and angle back
/// by one step each.
pub proof fn lemma_toggle(g: GalaxyModel)
    requires
        wf(g),
        !g.is_max_radius,
        g.diameter > g.max_diameter,
    ensures
        sub_step(g).is_max_radius,
        sub_step(g).diameter == g.diameter - STEP,
        sub_step(g).theta == g.theta - g.theta_step,
{
}

/// From any growing state, the diameter rises monotonically by exactly one
/// step per sub-stroke until it first exceeds its bound — which takes
/// exactly `(max_diameter - diameter) / STEP + 1` sub-strokes — and the
/// very next sub-stroke toggles the engine into shrinking.
pub proof fn lemma_growth_then_toggle(g: GalaxyModel)
    requires
        wf(g),
        !g.is_max_radius,
        g.diameter <= g.max_diameter,
    ensures
        ({
            let k = ((g.max_diameter - g.diameter) / (STEP as int) + 1) as nat;
            &&& steps(g, k).diameter == g.diameter + k * STEP
            &&& steps(g, k).diameter > g.max_diameter
            &&& !steps(g, k).is_max_radius
            &&& sub_step(steps(g, k)).is_max_radius
        }),
{
    let room = g.max_diameter - g.diameter;
    let k = (room / (STEP as int) + 1) as nat;
    vstd::arithmetic::div_mod::lemma_fundamental_div_mod(room, STEP as int);
    vstd::arithmetic::div_mod::lemma_mod_bound(room, STEP as int);
    vstd::arithmetic::div_mod::lemma_div_pos_is_pos(room, STEP as int);
    assert(k * (STEP as int) == (room / (STEP as int)) * (STEP as int) + STEP) by (nonlinear_arith)
        requires
            k == room / (STEP as int) + 1,
    {
    }
    assert((STEP as int) * (room / (STEP as int)) == (room / (STEP as int)) * (STEP as int))
        by (nonlinear_arith);
    lemma_growth(g, k);
    lemma_steps_wf(g, k);
    lemma_steps_static(g, k);
    lemma_toggle(steps(g, k));
}

/// The instance's fixed anchor ratio `hptr_x / hptr_y`, in `FP` sub-units.
pub open spec fn hyp_ratio(g: GalaxyModel) -> int {
    div_trunc_signed(g.hptr_x * (FP as int), g.hptr_y)
}

/// The hypotrochoid phase `(hptr_x/hptr_y - 1) * theta`, in binary angle
/// units.
pub open spec fn hyp_angle(g: GalaxyModel) -> int {
    div_trunc((hyp_ratio(g) - FP) * g.theta, FP as int)
}

/// The curve origin for sub-stroke `cs`: the previous tick's anchor pulled
/// toward the current anchor by the fraction `cs / curvature`.
pub open spec fn blend_origin(prior: int, cur: int, cs: int, curvature: int) -> int {
    prior + div_trunc((cur - prior) * cs, curvature)
}

/// The x coordinate of the curve point drawn in state `g` for sub-stroke
/// `cs`, in `FP` sub-units.
pub open spec fn curve_point_x(g: GalaxyModel, px: int, cs: int) -> int {
    let hd = g.hptr_x - g.hptr_y;
    div_trunc(hd * spec_cos(g.theta), FINE as int)
        + div_trunc(g.diameter * spec_cos(hyp_angle(g)), FP as int)
        + blend_origin(px, g.x, cs, g.curvature)
        - div_trunc(hd, FINE_PER_FP as int)
}

/// The y coordinate of the curve point drawn in state `g` for sub-stroke
/// `cs`, in `FP` sub-units.
pub open spec fn curve_point_y(g: GalaxyModel, py: int, cs: int) -> int {
    let hd = g.hptr_x - g.hptr_y;
    div_trunc(hd * spec_sin(g.theta), FINE as int)
        - div_trunc(g.diameter * spec_sin(hyp_angle(g)), FP as int)
        + blend_origin(py, g.y, cs, g.curvature)
}

/// The pixel drawn at iteration `j` of a tick that started in state `g0`
/// with prior origin `(px, py)`: the curve point of the state after `j + 1`
/// sub-strokes, for sub-stroke index `curvature - 1 - j`, truncated to
/// pixels.
pub open spec fn point_at(g0: GalaxyModel, px: int, py: int, j: int) -> (int, int) {
    let m = steps(g0, (j + 1) as nat);
    let cs = g0.curvature - 1 - j;
    (div_trunc(curve_point_x(m, px, cs), FP as int),
        div_trunc(curve_point_y(m, py, cs), FP as int))
}

/// The segments one tick appends to the session: the `curvature - 1`
/// strokes connecting consecutive curve points, in the tick's pen.
pub open spec fn seg_seq(g0: GalaxyModel, px: int, py: int, color: u32) -> Seq<DrawCmd> {
    Seq::new((g0.curvature - 1) as nat, |s: int| DrawCmd::Line {
        x1: point_at(g0, px, py, s).0 as i32,
        y1: point_at(g0, px, py, s).1 as i32,
        x2: point_at(g0, px, py, s + 1).0 as i32,
        y2: point_at(g0, px, py, s + 1).1 as i32,
        pen: PenStyle { color, width: 2 },
    })
}

/// The hypotrochoid anchor a galaxy bakes in at creation: the pointer
/// coordinate over `dimension * 999 * 999`, in `FINE` sub-units.
pub open spec fn spec_anchor(mouse: int, dim: int) -> int {
    div_trunc(mouse * (FINE_PER_FP as int), dim * (RATIO_DEN as int))
}

/// The state a fresh galaxy starts in.
pub open spec fn new_model(mx: int, my: int, w: int, h: int, color: u32) -> GalaxyModel {
    GalaxyModel {
        x: mx,
        y: my,
        color: color as int,
        diameter: INIT_DIAMETER as int,
        max_diameter: MAX_DIAMETER as int,
        curvature: INIT_CURVATURE as int,
        theta: 0,
        theta_step: TURN as int,
        is_max_radius: false,
        hptr_x: spec_anchor(mx, w),
        hptr_y: spec_anchor(my, h),
    }
}

/// One baked-in anchor ratio, executable form.
fn anchor_exec(mouse: i64, dim: usize) -> (r: i64)
    requires
        0 < dim <= SCREEN_CAP,
        0 <= mouse <= dim * (FP as int),
    ensures
        r == spec_anchor(mouse as int, dim as int),
        0 <= r <= ANCHOR_CAP,
{
    let num: i128 = (mouse as i128) * (FINE_PER_FP as i128);
    proof {
        assert(0 < (dim as int) * (RATIO_DEN as int)
            && (dim as int) * (RATIO_DEN as int) <= 16_384 * 998_001) by (nonlinear_arith)
            requires
                0 < (dim as int) <= 16_384,
        {
        }
    }
    let den: i128 = (dim as i128) * (RATIO_DEN as i128);
    proof {
        assert(num <= den * (ANCHOR_CAP as int)) by (nonlinear_arith)
            requires
                num == (mouse as int) * (FINE_PER_FP as int),
                den == (dim as int) * (RATIO_DEN as int),
                0 <= mouse as int <= (dim as int) * (FP as int),
                0 < dim as int,
        {
        }
    }
    let r: i128 = div_trunc_i128(num, den);
    proof {
        vstd::arithmetic::div_mod::lemma_multiply_divide_le(num as int, den as int, ANCHOR_CAP as int);
    }
    r as i64
}

impl Galaxy {
    /// Builds a galaxy anchored at the initiating pointer position on a
    /// surface of the given size, with the standard starting diameter,
    /// bound, sub-stroke count and angle step, and the two hypotrochoid
    /// ratio anchors baked in once from the pointer and the surface size.
    ///
    /// Fails with `InvalidParameter` when the pointer sits so close to the
    /// surface origin that the vertical anchor ratio degenerates to zero,
    /// which would otherwise divide by zero inside the engine.
    pub fn new(mouse_x: i64, mouse_y: i64, screen_w: usize, screen_h: usize, color: u32)
        -> (res: Result<Galaxy, DrawError>)
        requires
            0 < screen_w <= SCREEN_CAP,
            0 < screen_h <= SCREEN_CAP,
            0 <= mouse_x <= screen_w * (FP as int),
            0 <= mouse_y <= screen_h * (FP as int),
        ensures
            res is Ok <==> spec_anchor(mouse_y as int, screen_h as int) != 0,
            res matches Ok(g) ==> g@ == new_model(mouse_x as int, mouse_y as int,
                screen_w as int, screen_h as int, color) && wf(g@),
            res is Err ==> res == Err::<Galaxy, DrawError>(DrawError::InvalidParameter),
    {
        let hx: i64 = anchor_exec(mouse_x, screen_w);
        let hy: i64 = anchor_exec(mouse_y, screen_h);
        if hy == 0 {
            return Err(DrawError::InvalidParameter);
        }
        let g = Galaxy {
            x: mouse_x,
            y: mouse_y,
            color,
            diameter: INIT_DIAMETER,
            max_diameter: MAX_DIAMETER,
            curvature: INIT_CURVATURE,
            theta: 0,
            theta_step: TURN,
            is_max_radius: false,
            hptr_x: hx,
            hptr_y: hy,
        };
        proof {
            assert(g@.theta * STEP == g@.theta_step * (g@.diameter - INIT_DIAMETER));
        }
        Ok(g)
    }

    /// A zeroed placeholder instance. It is not well formed — its
    /// sub-stroke count is zero — so the engine rejects it until its
    /// fields are filled in.
    pub fn empty() -> (g: Galaxy)
        ensures
            g == (Galaxy {
                x: 0, y: 0, color: 0, diameter: 0, max_diameter: 0, curvature: 0,
                theta: 0, theta_step: 0, is_max_radius: false, hptr_x: 0, hptr_y: 0,
            }),
    {
        Galaxy {
            x: 0,
            y: 0,
            color: 0,
            diameter: 0,
            max_diameter: 0,
            curvature: 0,
            theta: 0,
            theta_step: 0,
            is_max_radius: false,
            hptr_x: 0,
            hptr_y: 0,
        }
    }
}

/// The top-level animator a host owns, one per animation: it carries the
/// prior-origin slot — the anchor position of the previous tick — that
/// each tick reads to blend its curve origin, and overwrites on completion.
/// Making it an explicit, exclusively owned value scopes that shared state
/// to one animation.
#[derive(Clone, Copy, Debug, PartialEq, Eq, Structural)]
pub struct GalaxyAnimator {
    /// The x anchor of the previous tick, in `FP` sub-units.
    pub prior_x: i64,
    /// The y anchor of the previous tick, in `FP` sub-units.
    pub prior_y: i64,
}

impl GalaxyAnimator {
    /// A fresh animator: the prior origin starts at the surface origin.
    pub fn new() -> (a: GalaxyAnimator)
        ensures
            a.prior_x == 0,
            a.prior_y == 0,
    {
        GalaxyAnimator { prior_x: 0, prior_y: 0 }
    }
}

/// Largest phase angle magnitude reachable inside one tick: the
/// well-formed bound plus one increment per sub-stroke.
pub const THETA_RUN_CAP: i64 = 0x8_0000_0000_0000;

/// Largest curve-point coordinate magnitude, in `FP` sub-units.
pub const POINT_CAP: i64 = 0x10_0000_0000;

/// One curve point, executable form: the hypotrochoid terms, the blended
/// origin, and the anchor correction, in `FP` sub-units.
fn curve_point_exec(g: &Galaxy, prior_x: i64, prior_y: i64, cs: i32) -> (p: (i64, i64))
    requires
        -2 * (STEP as int) <= g@.diameter <= DIAMETER_CAP + STEP,
        -(THETA_RUN_CAP as int) <= g@.theta <= THETA_RUN_CAP,
        0 <= g@.theta_step <= TSTEP_CAP,
        -(ANCHOR_CAP as int) <= g@.hptr_x <= ANCHOR_CAP,
        -(ANCHOR_CAP as int) <= g@.hptr_y <= ANCHOR_CAP,
        g@.hptr_y != 0,
        -(POS_CAP as int) <= g@.x <= POS_CAP,
        -(POS_CAP as int) <= g@.y <= POS_CAP,
        -(POS_CAP as int) <= prior_x <= POS_CAP,
        -(POS_CAP as int) <= prior_y <= POS_CAP,
        0 <= cs < g@.curvature,
        g@.curvature <= CURVATURE_CAP,
    ensures
        p.0 == curve_point_x(g@, prior_x as int, cs as int),
        p.1 == curve_point_y(g@, prior_y as int, cs as int),
        -(POINT_CAP as int) <= p.0 <= POINT_CAP,
        -(POINT_CAP as int) <= p.1 <= POINT_CAP,
{
    proof {
        lemma_mul_bound(g@.hptr_x, FP as int, ANCHOR_CAP as int, FP as int);
    }
    let num: i128 = (g.hptr_x as i128) * (FP as i128);
    let ratio: i128 = div_trunc_i128_signed(num, g.hptr_y as i128);
    proof {
        lemma_mul_bound(ratio as int - FP, g@.theta,
            (ANCHOR_CAP as int) * (FP as int) + FP, THETA_RUN_CAP as int);
    }
    let qn: i128 = (ratio - (FP as i128)) * (g.theta as i128);
    let q128: i128 = div_trunc_i128(qn, FP as i128);
    let qm: i64 = mod_turn_i128(q128);
    let sin_q: i64 = sin_fp(qm);
    let cos_q: i64 = cos_fp(qm);
    proof {
        assert(q128 == hyp_angle(g@));
        crate::trig::lemma_trig_mod(q128 as int);
        assert(sin_q == spec_sin(hyp_angle(g@)));
        assert(cos_q == spec_cos(hyp_angle(g@)));
    }
    let sin_t: i64 = sin_fp(g.theta);
    let cos_t: i64 = cos_fp(g.theta);
    let hd: i64 = g.hptr_x - g.hptr_y;
    proof {
        lemma_mul_bound(hd as int, cos_t as int, 2 * (ANCHOR_CAP as int), FP as int);
        lemma_mul_bound(hd as int, sin_t as int, 2 * (ANCHOR_CAP as int), FP as int);
        crate::fixed::lemma_div_trunc_bound((hd as int) * (cos_t as int), FINE as int,
            2 * (ANCHOR_CAP as int) * (FP as int));
        crate::fixed::lemma_div_trunc_bound((hd as int) * (sin_t as int), FINE as int,
            2 * (ANCHOR_CAP as int) * (FP as int));
    }
    let tx1: i128 = div_trunc_i128((hd as i128) * (cos_t as i128), FINE as i128);
    let ty1: i128 = div_trunc_i128((hd as i128) * (sin_t as i128), FINE as i128);
    proof {
        lemma_mul_bound(g@.diameter, cos_q as int, DIAMETER_CAP + 2 * STEP, FP as int);
        lemma_mul_bound(g@.diameter, sin_q as int, DIAMETER_CAP + 2 * STEP, FP as int);
        crate::fixed::lemma_div_trunc_bound((g@.diameter) * (cos_q as int), FP as int,
            (DIAMETER_CAP + 2 * (STEP as int)) * (FP as int));
        crate::fixed::lemma_div_trunc_bound((g@.diameter) * (sin_q as int), FP as int,
            (DIAMETER_CAP + 2 * (STEP as int)) * (FP as int));
        vstd::arithmetic::div_mod::lemma_div_by_multiple(
            DIAMETER_CAP + 2 * (STEP as int), FP as int);
    }
    let tx2: i128 = div_trunc_i128((g.diameter as i128) * (cos_q as i128), FP as i128);
    let ty2: i128 = div_trunc_i128((g.diameter as i128) * (sin_q as i128), FP as i128);
    let dx: i64 = g.x - prior_x;
    let dy: i64 = g.y - prior_y;
    proof {
        lemma_mul_bound(dx as int, cs as int, 2 * (POS_CAP as int), CURVATURE_CAP as int);
        lemma_mul_bound(dy as int, cs as int, 2 * (POS_CAP as int), CURVATURE_CAP as int);
        lemma_blend_div_bound(dx as int, cs as int, g@.curvature, 2 * (POS_CAP as int));
        lemma_blend_div_bound(dy as int, cs as int, g@.curvature, 2 * (POS_CAP as int));
        crate::fixed::lemma_div_trunc_bound(hd as int, FINE_PER_FP as int,
            2 * (ANCHOR_CAP as int));
    }
    let bxd: i128 = div_trunc_i128((dx as i128) * (cs as i128), g.curvature as i128);
    let byd: i128 = div_trunc_i128((dy as i128) * (cs as i128), g.curvature as i128);
    let hdf: i64 = div_trunc_i64(hd, FINE_PER_FP);
    let cx: i128 = tx1 + tx2 + ((prior_x as i128) + bxd) - (hdf as i128);
    let cy: i128 = ty1 - ty2 + ((prior_y as i128) + byd);
    (cx as i64, cy as i64)
}

/// Advances the galaxy by one animation tick and draws its sub-strokes
/// into the open frame session.
///
/// The engine runs `curvature` sub-strokes: each advances the state by one
/// [`sub_step`] and computes a curve point; from the second point on, a
/// segment joins each point to its predecessor, so exactly `curvature - 1`
/// segments are appended, in a solid pen of the galaxy's colour that is
/// bound on entry and restored before returning. After the sub-strokes,
/// the animator's prior-origin slot is overwritten — exactly once per tick
/// — with this galaxy's anchor.
///
/// Fails with `InvalidParameter`, changing nothing, when the sub-stroke
/// count is less than one (the blend fraction would divide by zero) or the
/// vertical anchor ratio is zero (the hypotrochoid ratio would divide by
/// zero).
pub fn draw_galaxy_step_inc(data: &mut DrawFrameData, galaxy: &mut Galaxy,
    animator: &mut GalaxyAnimator) -> (res: Result<(), DrawError>)
    requires
        bounded(old(galaxy)@),
        -(POS_CAP as int) <= old(animator).prior_x <= POS_CAP,
        -(POS_CAP as int) <= old(animator).prior_y <= POS_CAP,
    ensures
        res is Ok <==> (old(galaxy).curvature >= 1 && old(galaxy).hptr_y != 0),
        res is Err ==> *final(galaxy) == *old(galaxy) && *final(animator) == *old(animator)
            && *final(data) == *old(data)
            && res == Err::<(), DrawError>(DrawError::InvalidParameter),
        res is Ok ==> final(galaxy)@ == steps(old(galaxy)@, old(galaxy).curvature as nat),
        res is Ok ==> final(animator).prior_x == old(galaxy).x
            && final(animator).prior_y == old(galaxy).y,
        res is Ok ==> final(data).pen == old(data).pen
            && final(data).brush == old(data).brush
            && final(data).width == old(data).width
            && final(data).height == old(data).height,
        res is Ok ==> final(data).cmds@ == old(data).cmds@ + seg_seq(old(galaxy)@,
            old(animator).prior_x as int, old(animator).prior_y as int, old(galaxy).color),
{
    if galaxy.curvature < 1 || galaxy.hptr_y == 0 {
        return Err(DrawError::InvalidParameter);
    }
    let ghost g0 = galaxy@;
    let ghost px = old(animator).prior_x as int;
    let ghost py = old(animator).prior_y as int;
    let ghost cmds0 = data.cmds@;
    let ghost b0 = data.brush;
    let ghost w0 = data.width;
    let ghost h0 = data.height;
    let color: u32 = galaxy.color;
    let curvature: i32 = galaxy.curvature;
    let pen_data = create_solid_pen(data, color);
    let mut prev: Option<(i32, i32)> = None;
    let mut j: i32 = 0;
    while j < curvature
        invariant
            1 <= curvature <= CURVATURE_CAP,
            0 <= j <= curvature,
            bounded(g0),
            g0.hptr_y != 0,
            g0.curvature == curvature,
            g0.color == color,
            -(POS_CAP as int) <= px <= POS_CAP,
            -(POS_CAP as int) <= py <= POS_CAP,
            animator.prior_x == px,
            animator.prior_y == py,
            galaxy@ == steps(g0, j as nat),
            -2 * (STEP as int) <= galaxy.diameter <= galaxy.max_diameter + STEP,
            galaxy.max_diameter == g0.max_diameter,
            -(THETA_CAP as int) - j * (TSTEP_CAP as int) <= galaxy.theta
                <= THETA_CAP + j * (TSTEP_CAP as int),
            galaxy.theta_step == g0.theta_step,
            galaxy.x == g0.x,
            galaxy.y == g0.y,
            galaxy.color == color,
            galaxy.curvature == curvature,
            galaxy.hptr_x == g0.hptr_x,
            galaxy.hptr_y == g0.hptr_y,
            data.pen == (PenStyle { color, width: 2 }),
            data.brush == b0,
            data.width == w0,
            data.height == h0,
            j == 0 ==> data.cmds@ == cmds0 && prev is None,
            j >= 1 ==> data.cmds@ == cmds0 + seg_seq(g0, px, py, color).take(j - 1)
                && prev == Some((point_at(g0, px, py, j - 1).0 as i32,
                    point_at(g0, px, py, j - 1).1 as i32)),
        decreases curvature - j,
    {
        let ghost pre = galaxy@;
        if galaxy.diameter > galaxy.max_diameter || galaxy.is_max_radius {
            if !galaxy.is_max_radius {
                galaxy.is_max_radius = true;
            }
            if galaxy.diameter < STEP {
                galaxy.is_max_radius = false;
            }
            galaxy.theta = galaxy.theta - galaxy.theta_step;
            galaxy.diameter = galaxy.diameter - STEP;
        }
        if !galaxy.is_max_radius {
            galaxy.theta = galaxy.theta + galaxy.theta_step;
            galaxy.diameter = galaxy.diameter + STEP;
        }
        proof {
            assert(galaxy@ == sub_step(pre));
            assert(steps(g0, (j + 1) as nat) == sub_step(steps(g0, j as nat)));
        }
        let cs: i32 = curvature - 1 - j;
        let p: (i64, i64) = curve_point_exec(galaxy, animator.prior_x, animator.prior_y, cs);
        let cur: (i32, i32) = (div_trunc_i64(p.0, FP) as i32, div_trunc_i64(p.1, FP) as i32);
        proof {
            crate::fixed::lemma_div_trunc_bound(p.0 as int, FP as int, POINT_CAP as int);
            crate::fixed::lemma_div_trunc_bound(p.1 as int, FP as int, POINT_CAP as int);
            assert(cur.0 as int == point_at(g0, px, py, j as int).0 as i32);
            assert(cur.1 as int == point_at(g0, px, py, j as int).1 as i32);
        }
        match prev {
            Some(pp) => {
                draw_line(data, pp, cur);
                proof {
                    assert(data.cmds@ =~= cmds0 + seg_seq(g0, px, py, color).take(j as int));
                }
            },
            None => {
            },
        }
        prev = Some(cur);
        j = j + 1;
    }
    close_draw_lines(data, pen_data);
    animator.prior_x = galaxy.x;
    animator.prior_y = galaxy.y;
    proof {
        assert(seg_seq(g0, px, py, color).take(curvature - 1) =~= seg_seq(g0, px, py, color));
        assert(data.cmds@ == cmds0 + seg_seq(g0, px, py, color));
    }
    Ok(())
}

/// A blended origin offset never exceeds the distance it interpolates.
proof fn lemma_blend_div_bound(dx: int, cs: int, c: int, cap: int)
    requires
        0 <= cs < c,
        0 <= cap,
        -cap <= dx <= cap,
    ensures
        -cap <= div_trunc(dx * cs, c) <= cap,
{
    assert(-(cap * c) <= dx * cs && dx * cs <= cap * c) by (nonlinear_arith)
        requires
            0 <= cs < c,
            0 <= cap,
            -cap <= dx <= cap,
    {
    }
    crate::fixed::lemma_div_trunc_bound(dx * cs, c, cap * c);
    vstd::arithmetic::div_mod::lemma_div_by_multiple(cap, c);
}

} // verus!
