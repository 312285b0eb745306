//! The viewport data model and the navigation commands that transform it.
//!
//! A viewport holds the grid dimensions, the fixed-point center coordinate,
//! the fixed-point horizontal extent (`scale`), and the iteration bound.
//! Navigation commands pan the center by a tenth of the scale (the vertical
//! pan corrected for the cell aspect ratio), zoom by the rational factors
//! 4/5 and 5/4, reset to the initial configuration, or do nothing.  Every
//! transformation keeps the viewport inside its well-formedness bounds.

use vstd::prelude::*;

use crate::fixed::mul_div;
use crate::fixed::mul_div_spec;

verus! {

/// Smallest accepted grid dimension; the sampling map divides by
/// `width - 1` and `height - 1`.
pub const MIN_DIM: usize = 2;

/// Largest accepted grid dimension.
pub const MAX_DIM: usize = 4096;

/// Smallest accepted scale: one millionth of a plane unit.  Zooming in
/// clamps here instead of collapsing the extent to zero.
pub const SCALE_MIN: i64 = 1;

/// Largest accepted scale: one hundred plane units.
pub const SCALE_MAX: i64 = 100_000_000;

/// Largest accepted center magnitude: one million plane units.
pub const CENTER_LIMIT: i64 = 1_000_000_000_000;

/// Smallest accepted iteration bound.
pub const ITER_MIN: usize = 1;

/// Largest accepted iteration bound.
pub const ITER_MAX: usize = 1_000_000;

/// Pan steps move the center by `scale / PAN_DIVISOR`.
pub const PAN_DIVISOR: i64 = 10;

/// Zooming in multiplies the scale by `ZOOM_NUM / ZOOM_DEN`; zooming out by
/// the reciprocal.
pub const ZOOM_NUM: i64 = 4;

/// See `ZOOM_NUM`.
pub const ZOOM_DEN: i64 = 5;

/// The region of the plane mapped onto the character grid, plus the grid
/// resolution and the iteration bound.
#[derive(Clone, Copy, PartialEq, Eq, Structural, Debug)]
pub struct Viewport {
    /// Grid width in cells.
    pub width: usize,
    /// Grid height in cells.
    pub height: usize,
    /// Fixed-point real part of the region's center.
    pub center_x: i64,
    /// Fixed-point imaginary part of the region's center.
    pub center_y: i64,
    /// Fixed-point width of the sampled region along the horizontal axis.
    pub scale: i64,
    /// Cap on escape-time iterations per sample.
    pub iter_bound: usize,
}

/// A decoded navigation command.
#[derive(Clone, Copy, PartialEq, Eq, Structural, Debug)]
pub enum Command {
    PanUp,
    PanDown,
    PanLeft,
    PanRight,
    ZoomIn,
    ZoomOut,
    Quit,
    Reset,
    Noop,
}

impl Viewport {
    /// Well-formedness: dimensions, scale, center, and iteration bound all
    /// lie in their documented ranges.
    pub open spec fn wf(self) -> bool {
        &&& MIN_DIM <= self.width <= MAX_DIM
        &&& MIN_DIM <= self.height <= MAX_DIM
        &&& SCALE_MIN <= self.scale <= SCALE_MAX
        &&& -CENTER_LIMIT <= self.center_x <= CENTER_LIMIT
        &&& -CENTER_LIMIT <= self.center_y <= CENTER_LIMIT
        &&& ITER_MIN <= self.iter_bound <= ITER_MAX
    }

    /// The default configuration: an 80 by 30 grid showing the classic
    /// view centered at `(-0.5, 0)` with a horizontal extent of `3.0` and
    /// 80 iterations.
    pub open spec fn initial_spec() -> Viewport {
        Viewport {
            width: 80,
            height: 30,
            center_x: -500_000i64,
            center_y: 0,
            scale: 3_000_000,
            iter_bound: 80,
        }
    }

    /// Builds the default viewport.
    pub fn initial() -> (vp: Viewport)
        ensures
            vp == Viewport::initial_spec(),
            vp.wf(),
    {
        Viewport {
            width: 80,
            height: 30,
            center_x: -500_000i64,
            center_y: 0,
            scale: 3_000_000,
            iter_bound: 80,
        }
    }

    /// Builds a viewport from explicit values, or returns `None` when one
    /// of them lies outside the documented ranges.
    pub fn new(
        width: usize,
        height: usize,
        center_x: i64,
        center_y: i64,
        scale: i64,
        iter_bound: usize,
    ) -> (r: Option<Viewport>)
        ensures
            r is Some <==> (Viewport {
                width,
                height,
                center_x,
                center_y,
                scale,
                iter_bound,
            }).wf(),
            r is Some ==> r->Some_0 == (Viewport { width, height, center_x, center_y, scale, iter_bound }),
    {
        if width >= MIN_DIM && width <= MAX_DIM && height >= MIN_DIM && height <= MAX_DIM
            && scale >= SCALE_MIN && scale <= SCALE_MAX && center_x >= -CENTER_LIMIT && center_x
            <= CENTER_LIMIT && center_y >= -CENTER_LIMIT && center_y <= CENTER_LIMIT && iter_bound
            >= ITER_MIN && iter_bound <= ITER_MAX {
            Some(Viewport { width, height, center_x, center_y, scale, iter_bound })
        } else {
            None
        }
    }
}

impl Default for Viewport {
    /// The default configuration; the same viewport as `initial`.
    fn default() -> (vp: Viewport)
        ensures
            vp == Viewport::initial_spec(),
            vp.wf(),
    {
        Viewport::initial()
    }
}

/// Clamps a center coordinate into the accepted range.
pub open spec fn clamp_center_spec(c: int) -> int {
    if c < -CENTER_LIMIT {
        -CENTER_LIMIT as int
    } else if c > CENTER_LIMIT {
        CENTER_LIMIT as int
    } else {
        c
    }
}

/// The horizontal pan step: a tenth of the scale.
pub open spec fn pan_x_spec(vp: Viewport) -> int {
    (vp.scale as int) / (PAN_DIVISOR as int)
}

/// The vertical pan step: a tenth of the scale divided by the grid's
/// aspect ratio, so panning feels uniform on screen.
pub open spec fn pan_y_spec(vp: Viewport) -> int {
    mul_div_spec(vp.scale as int, vp.height as int, PAN_DIVISOR * vp.width)
}

/// The scale after zooming in, clamped above `SCALE_MIN`.
pub open spec fn zoom_in_spec(scale: int) -> int {
    let s = (scale * ZOOM_NUM) / (ZOOM_DEN as int);
    if s < SCALE_MIN {
        SCALE_MIN as int
    } else {
        s
    }
}

/// The scale after zooming out, clamped below `SCALE_MAX`.
pub open spec fn zoom_out_spec(scale: int) -> int {
    let s = (scale * ZOOM_DEN) / (ZOOM_NUM as int);
    if s > SCALE_MAX {
        SCALE_MAX as int
    } else {
        s
    }
}

/// The viewport a command produces: pans move the clamped center, zooms
/// rescale the clamped extent, `Reset` restores the initial configuration,
/// and `Quit` and `Noop` leave the viewport unchanged.
pub open spec fn apply_spec(vp: Viewport, cmd: Command, init: Viewport) -> Viewport {
    match cmd {
        Command::PanUp => Viewport {
            center_y: clamp_center_spec(vp.center_y - pan_y_spec(vp)) as i64,
            ..vp
        },
        Command::PanDown => Viewport {
            center_y: clamp_center_spec(vp.center_y + pan_y_spec(vp)) as i64,
            ..vp
        },
        Command::PanLeft => Viewport {
            center_x: clamp_center_spec(vp.center_x - pan_x_spec(vp)) as i64,
            ..vp
        },
        Command::PanRight => Viewport {
            center_x: clamp_center_spec(vp.center_x + pan_x_spec(vp)) as i64,
            ..vp
        },
        Command::ZoomIn => Viewport { scale: zoom_in_spec(vp.scale as int) as i64, ..vp },
        Command::ZoomOut => Viewport { scale: zoom_out_spec(vp.scale as int) as i64, ..vp },
        Command::Reset => init,
        Command::Quit => vp,
        Command::Noop => vp,
    }
}

/// Every command maps a well-formed viewport to a well-formed viewport.
pub proof fn lemma_apply_wf(vp: Viewport, cmd: Command, init: Viewport)
    requires
        vp.wf(),
        init.wf(),
    ensures
        apply_spec(vp, cmd, init).wf(),
{
    lemma_step_ranges(vp);
}

/// Ranges of the pan steps and zoomed scales of a well-formed viewport.
proof fn lemma_step_ranges(vp: Viewport)
    requires
        vp.wf(),
    ensures
        0 <= pan_x_spec(vp) <= vp.scale,
        0 <= pan_y_spec(vp) <= vp.scale * vp.height,
        vp.scale * vp.height <= 409_600_000_000,
        SCALE_MIN <= zoom_in_spec(vp.scale as int) <= SCALE_MAX,
        SCALE_MIN <= zoom_out_spec(vp.scale as int) <= SCALE_MAX,
{
    let s = vp.scale as int;
    vstd::arithmetic::div_mod::lemma_div_pos_is_pos(s, PAN_DIVISOR as int);
    vstd::arithmetic::div_mod::lemma_div_is_ordered_by_denominator(s, 1, PAN_DIVISOR as int);
    vstd::arithmetic::div_mod::lemma_div_basics(s);
    assert(0 <= s * vp.height <= 409_600_000_000) by (nonlinear_arith)
        requires
            1 <= s <= SCALE_MAX,
            0 < vp.height <= MAX_DIM,
            SCALE_MAX == 100_000_000,
            MAX_DIM == 4096,
    ;
    assert(0 <= pan_y_spec(vp) <= s * vp.height) by {
        let prod = s * vp.height;
        let den = PAN_DIVISOR * vp.width;
        vstd::arithmetic::div_mod::lemma_div_pos_is_pos(prod, den);
        vstd::arithmetic::div_mod::lemma_div_is_ordered_by_denominator(prod, 1, den);
        vstd::arithmetic::div_mod::lemma_div_basics(prod);
    }
    assert(SCALE_MIN <= zoom_in_spec(s) <= SCALE_MAX) by {
        let num = s * ZOOM_NUM;
        vstd::arithmetic::div_mod::lemma_div_pos_is_pos(num, ZOOM_DEN as int);
        vstd::arithmetic::div_mod::lemma_multiply_divide_le(num, ZOOM_DEN as int, s);
    }
    assert(SCALE_MIN <= zoom_out_spec(s) <= SCALE_MAX) by {
        let num = s * ZOOM_DEN;
        vstd::arithmetic::div_mod::lemma_div_pos_is_pos(num, ZOOM_NUM as int);
        vstd::arithmetic::div_mod::lemma_multiply_divide_le(num, ZOOM_NUM as int, 2 * s);
        assert(s * ZOOM_DEN <= ZOOM_NUM * (2 * s)) by (nonlinear_arith)
            requires
                s >= 1,
                ZOOM_DEN == 5,
                ZOOM_NUM == 4,
        ;
        vstd::arithmetic::div_mod::lemma_div_pos_is_pos(num - ZOOM_NUM, ZOOM_NUM as int);
    }
}

impl Viewport {
    /// Applies a navigation command in place; `init` is the configuration
    /// captured at startup that `Reset` restores.
    pub fn apply(&mut self, cmd: Command, init: &Viewport)
        requires
            old(self).wf(),
            init.wf(),
        ensures
            *final(self) == apply_spec(*old(self), cmd, *init),
            final(self).wf(),
    {
        proof {
            lemma_apply_wf(*self, cmd, *init);
            lemma_step_ranges(*self);
        }
        match cmd {
            Command::PanUp => {
                let step = self.pan_y_step();
                self.center_y = clamp_center(self.center_y - step);
            },
            Command::PanDown => {
                let step = self.pan_y_step();
                self.center_y = clamp_center(self.center_y + step);
            },
            Command::PanLeft => {
                let step = self.pan_x_step();
                self.center_x = clamp_center(self.center_x - step);
            },
            Command::PanRight => {
                let step = self.pan_x_step();
                self.center_x = clamp_center(self.center_x + step);
            },
            Command::ZoomIn => {
                let s = ((self.scale as u64) * (ZOOM_NUM as u64) / (ZOOM_DEN as u64)) as i64;
                self.scale = if s < SCALE_MIN {
                    SCALE_MIN
                } else {
                    s
                };
            },
            Command::ZoomOut => {
                let s = ((self.scale as u64) * (ZOOM_DEN as u64) / (ZOOM_NUM as u64)) as i64;
                self.scale = if s > SCALE_MAX {
                    SCALE_MAX
                } else {
                    s
                };
            },
            Command::Reset => {
                *self = *init;
            },
            Command::Quit => {},
            Command::Noop => {},
        }
    }

    /// The horizontal pan step of the current scale.
    fn pan_x_step(&self) -> (step: i64)
        requires
            self.wf(),
        ensures
            step == pan_x_spec(*self),
            0 <= step <= self.scale,
    {
        proof {
            lemma_step_ranges(*self);
        }
        ((self.scale as u64) / (PAN_DIVISOR as u64)) as i64
    }

    /// The vertical pan step of the current scale and aspect ratio.
    fn pan_y_step(&self) -> (step: i64)
        requires
            self.wf(),
        ensures
            step == pan_y_spec(*self),
            0 <= step <= 409_600_000_000,
    {
        proof {
            lemma_step_ranges(*self);
        }
        mul_div(self.scale, self.height as i64, PAN_DIVISOR * (self.width as i64))
    }
}

/// Clamps a center coordinate into the accepted range.
fn clamp_center(c: i64) -> (r: i64)
    ensures
        r == clamp_center_spec(c as int),
{
    if c < -CENTER_LIMIT {
        -CENTER_LIMIT
    } else if c > CENTER_LIMIT {
        CENTER_LIMIT
    } else {
        c
    }
}

/// Zoom round trip: zooming in and back out with the reciprocal factors
/// restores the scale exactly, provided the scale is a multiple of the
/// zoom denominator (so the rational factor is exact) — the clamps never
/// trigger then.
pub proof fn lemma_zoom_round_trip(vp: Viewport, init: Viewport)
    requires
        vp.wf(),
        init.wf(),
        (vp.scale as int) % (ZOOM_DEN as int) == 0,
    ensures
        apply_spec(apply_spec(vp, Command::ZoomIn, init), Command::ZoomOut, init) == vp,
{
    let s = vp.scale as int;
    let q = s / (ZOOM_DEN as int);
    vstd::arithmetic::div_mod::lemma_fundamental_div_mod(s, ZOOM_DEN as int);
    assert(s == 5 * q);
    assert(s * ZOOM_NUM == (ZOOM_DEN as int) * (4 * q)) by (nonlinear_arith)
        requires
            s == 5 * q,
            ZOOM_NUM == 4,
            ZOOM_DEN == 5,
    ;
    vstd::arithmetic::div_mod::lemma_div_multiples_vanish(4 * q, ZOOM_DEN as int);
    assert(zoom_in_spec(s) == 4 * q);
    let t = 4 * q;
    assert(t * ZOOM_DEN == (ZOOM_NUM as int) * (5 * q)) by (nonlinear_arith)
        requires
            t == 4 * q,
            ZOOM_NUM == 4,
            ZOOM_DEN == 5,
    ;
    vstd::arithmetic::div_mod::lemma_div_multiples_vanish(5 * q, ZOOM_NUM as int);
    assert(zoom_out_spec(t) == s);
}

/// Applies a whole command sequence in order.
pub open spec fn apply_all_spec(vp: Viewport, cmds: Seq<Command>, init: Viewport) -> Viewport
    decreases cmds.len(),
{
    if cmds.len() == 0 {
        vp
    } else {
        apply_all_spec(apply_spec(vp, cmds[0], init), cmds.drop_first(), init)
    }
}

/// `Reset` after any command sequence restores the initial configuration
/// bit for bit.
pub proof fn lemma_reset_restores_initial(vp: Viewport, cmds: Seq<Command>, init: Viewport)
    ensures
        apply_spec(apply_all_spec(vp, cmds, init), Command::Reset, init) == init,
{
}

/// `Noop` leaves the viewport unchanged.
pub proof fn lemma_noop_unchanged(vp: Viewport, init: Viewport)
    ensures
        apply_spec(vp, Command::Noop, init) == vp,
{
}

} // verus!
