//! The rules that move the world and draw it.

use crate::fixed::magnitude;
use crate::fixed::minus;
use crate::fixed::over;
use crate::fixed::plus;
use crate::fixed::times;
use crate::fixed::whole;
use crate::fixed::ONE;
use crate::game::data::Sprite;
use crate::game::state::Configuration;
use crate::game::state::Environment;
use crate::game::state::State;
use crate::game::state::Subject;
use crate::graphics::animation::Album;
use crate::graphics::animation::Animations;
use crate::canvas::image::drawn;
use crate::fixed::from_whole;
use crate::graphics::image::file;
use crate::graphics::image::knows;
use crate::graphics::image::take;
use crate::graphics::image::Image;
use crate::graphics::image::Picture;
use crate::graphics::point::Point;
use crate::graphics::rectangle::Rectangle;
use crate::graphics::tile::Tile;
use vstd::prelude::*;

verus! {

/// The motion in a tick below which the character counts as standing still.
pub const MARGIN: i64 = 100_000;

/// Two whole units, the divisor that halves.
pub const TWO: i64 = 2_000_000;

/// Which way a pair of opposite keys points: -1 for the first alone, 1 for
/// the second alone, 0 for none or both.
pub open spec fn steer(back: bool, forth: bool) -> i64 {
    if forth && !back {
        ONE
    } else if back && !forth {
        (-ONE) as i64
    } else {
        0
    }
}

/// The world with the player's direction taken from the held keys.
pub open spec fn steered(s: State) -> State {
    State {
        sub: Subject {
            direction: Point {
                x: steer(s.conf.left, s.conf.right),
                y: steer(s.conf.up, s.conf.down),
            },
            ..s.sub
        },
        ..s
    }
}

/// Whether the boxes `a` and `b` overlap. Boxes that only touch do not.
pub open spec fn intersects(a: Rectangle, b: Rectangle) -> bool {
    &&& a.x < plus(b.x, b.width)
    &&& b.x < plus(a.x, a.width)
    &&& a.y < plus(b.y, b.height)
    &&& b.y < plus(a.y, a.height)
}

/// Whether `object` lies wholly to the right of, to the left of, below or
/// above `view`, with every edge rounded toward zero to a whole number.
pub open spec fn exceeds(object: Rectangle, view: Rectangle) -> bool {
    ||| whole(object.x) > whole(plus(view.x, view.width))
    ||| whole(view.x) > whole(plus(object.x, object.width))
    ||| whole(object.y) > whole(plus(view.y, view.height))
    ||| whole(view.y) > whole(plus(object.y, object.height))
}

/// `v` kept between zero and `limit`: a value below zero becomes zero, and
/// after that a value above `limit` becomes `limit`.
pub open spec fn kept_within(v: i64, limit: i64) -> i64 {
    let raised = if v < 0 {
        0
    } else {
        v
    };
    if raised > limit {
        limit
    } else {
        raised
    }
}

/// The world with the camera held inside the level.
pub open spec fn constrained(s: State) -> State {
    State {
        env: Environment {
            x: kept_within(s.env.x, minus(s.env.width, s.conf.width)),
            y: kept_within(s.env.y, minus(s.env.height, s.conf.height)),
            ..s.env
        },
        ..s
    }
}

/// Whether a jump starts in a tick whose vertical correction is `overlap`:
/// the key is held, it has not had its jump yet, and the character was
/// stopped from above or below.
pub open spec fn jump_starts(s: State, overlap: i64) -> bool {
    s.conf.jump && !s.sub.lock && overlap > 0
}

/// The world after the jump rules of a tick whose vertical correction is
/// `overlap`. A jump that starts locks the key and kicks the character
/// upward; letting go of the key while stopped unlocks it.
pub open spec fn jumped(s: State, overlap: i64) -> State {
    let starts = jump_starts(s, overlap);
    State {
        sub: Subject {
            contact: starts,
            lock: if starts {
                true
            } else if !s.conf.jump && s.sub.lock && overlap > 0 {
                false
            } else {
                s.sub.lock
            },
            velocity: Point {
                x: s.sub.velocity.x,
                y: if starts {
                    minus(s.sub.velocity.y, times(s.sub.jump, s.conf.ratio))
                } else {
                    s.sub.velocity.y
                },
            },
            ..s.sub
        },
        ..s
    }
}

/// The clip for a tick in which the character moved by `(dx, dy)` while the
/// given keys were held. The character is in the air when it moved up or
/// down by more than the margin. In order: on the ground, a sideways run
/// with its key held; in the air, the held key, left before right before up
/// before down; with no such key, the way it moved, sideways before
/// vertical; standing still, facing down.
pub open spec fn chosen(dx: i64, dy: i64, left: bool, right: bool, up: bool, down: bool) -> Sprite {
    let air = magnitude(dy) > MARGIN;
    if dx < -MARGIN && left && !air {
        Sprite::RunningLeft
    } else if dx > MARGIN && right && !air {
        Sprite::RunningRight
    } else if air && left {
        Sprite::AirLeft
    } else if air && right {
        Sprite::AirRight
    } else if air && up {
        Sprite::AirUp
    } else if air && down {
        Sprite::AirDown
    } else if dx < -MARGIN {
        Sprite::FacingLeft
    } else if dx > MARGIN {
        Sprite::FacingRight
    } else if dy < -MARGIN {
        Sprite::FacingUp
    } else if dy > MARGIN {
        Sprite::FacingDown
    } else {
        Sprite::FacingDown
    }
}

/// The world with another set of clips.
pub open spec fn with_animations(s: State, animations: Animations) -> State {
    State { sub: Subject { animations, ..s.sub }, ..s }
}

/// The position between the last update's and this one's, `alpha` of the
/// way back from the present.
pub open spec fn blend(s: State, alpha: i64) -> Point {
    Point {
        x: plus(times(s.sub.previous.x, alpha), times(s.sub.x, minus(ONE, alpha))),
        y: plus(times(s.sub.previous.y, alpha), times(s.sub.y, minus(ONE, alpha))),
    }
}

/// The player's box.
pub open spec fn body(s: State) -> Rectangle {
    Rectangle { x: s.sub.x, y: s.sub.y, width: s.sub.width, height: s.sub.height }
}

/// The motion along one axis and its correction after the first `n` tiles
/// were looked at.
///
/// `start` and `extent` are the player's edge and size on that axis,
/// `velocity` is the motion it attempts, and `swept` is its box moved by that
/// motion along this axis alone. `low` and `size` read a tile's edge and
/// size on the axis. At first the motion is the attempt and the correction
/// is zero. A tile that is not culled by `view` and overlaps `swept` cuts the
/// motion back: moving toward lower coordinates to the tile's far edge,
/// moving toward higher ones to its near edge, and a motion of zero stays.
/// The correction is what the cut takes off the attempt. A later tile
/// overrules an earlier one.
pub open spec fn resolved(
    tiles: Seq<Tile>,
    view: Rectangle,
    swept: Rectangle,
    start: i64,
    extent: i64,
    velocity: i64,
    low: spec_fn(Rectangle) -> i64,
    size: spec_fn(Rectangle) -> i64,
    n: nat,
) -> (i64, i64)
    decreases n,
{
    if n == 0 {
        (velocity, 0)
    } else {
        let before = resolved(tiles, view, swept, start, extent, velocity, low, size, (n - 1) as nat);
        let tile = tiles[n - 1].boundary;
        if !exceeds(tile, view) && intersects(tile, swept) {
            let delta = if before.0 < 0 {
                minus(plus(low(tile), size(tile)), start)
            } else if before.0 > 0 {
                minus(minus(low(tile), start), extent)
            } else {
                before.0
            };
            (delta, minus(velocity, delta))
        } else {
            before
        }
    }
}

/// The horizontal motion and correction of a tick after the first `n` tiles.
/// Neither depends on the vertical velocity.
pub open spec fn resolved_x(s: State, n: nat) -> (i64, i64) {
    resolved(
        s.env.tiles@,
        s.viewport(),
        Rectangle { x: plus(s.sub.x, s.sub.velocity.x), ..body(s) },
        s.sub.x,
        s.sub.width,
        s.sub.velocity.x,
        |r: Rectangle| r.x,
        |r: Rectangle| r.width,
        n,
    )
}

/// The vertical motion and correction of a tick after the first `n` tiles.
/// Neither depends on the horizontal velocity.
pub open spec fn resolved_y(s: State, n: nat) -> (i64, i64) {
    resolved(
        s.env.tiles@,
        s.viewport(),
        Rectangle { y: plus(s.sub.y, s.sub.velocity.y), ..body(s) },
        s.sub.y,
        s.sub.height,
        s.sub.velocity.y,
        |r: Rectangle| r.y,
        |r: Rectangle| r.height,
        n,
    )
}

/// The world with this tick's acceleration worked out and added to the
/// velocity: force by mass plus the push of the held direction, and gravity
/// downward, for the length of a tick.
pub open spec fn accelerated(s: State) -> State {
    let ax = times(
        plus(over(s.sub.force.x, s.sub.mass), times(s.sub.impulse.x, s.sub.direction.x)),
        s.conf.step,
    );
    let ay = times(
        plus(
            plus(over(s.sub.force.y, s.sub.mass), times(s.sub.impulse.y, s.sub.direction.y)),
            s.env.gravity,
        ),
        s.conf.step,
    );
    State {
        sub: Subject {
            acceleration: Point { x: ax, y: ay },
            velocity: Point {
                x: plus(s.sub.velocity.x, times(ax, s.conf.ratio)),
                y: plus(s.sub.velocity.y, times(ay, s.conf.ratio)),
            },
            ..s.sub
        },
        ..s
    }
}

/// The velocity along one axis after a collision: the motion that was
/// left, or a full stop where at least one whole unit was cut off.
pub open spec fn stopped(delta: i64, correction: i64) -> i64 {
    if magnitude(correction) < ONE {
        delta
    } else {
        0
    }
}

/// The world after the motion `(dx, dy)` with the corrections `(cx, cy)`
/// was carried out: the velocity is stopped where it was blocked and decays,
/// by contact along the axis that was not blocked or else by the air; the
/// player moves by the motion; and the camera centres on the player.
pub open spec fn carried(s: State, dx: i64, dy: i64, cx: i64, cy: i64) -> State {
    let vx = times(stopped(dx, cx), s.env.dissipation.x);
    let vy = times(stopped(dy, cy), s.env.dissipation.y);
    let x = plus(s.sub.x, dx);
    let y = plus(s.sub.y, dy);
    State {
        sub: Subject {
            velocity: if cx != 0 {
                Point { x: vx, y: times(vy, s.env.friction) }
            } else if cy != 0 {
                Point { x: times(vx, s.env.friction), y: vy }
            } else {
                Point { x: times(vx, s.env.resistance), y: times(vy, s.env.resistance) }
            },
            x,
            y,
            ..s.sub
        },
        env: Environment {
            x: minus(plus(x, over(s.sub.width, TWO)), over(s.conf.width, TWO)),
            y: minus(plus(y, over(s.sub.height, TWO)), over(s.conf.height, TWO)),
            ..s.env
        },
        ..s
    }
}

/// The world one physics tick on, but for the selected clip.
#[verifier::opaque]
pub open spec fn ticked(s: State) -> State {
    let a = accelerated(s);
    let n = a.env.tiles@.len();
    let h = resolved_x(a, n);
    let v = resolved_y(a, n);
    constrained(jumped(carried(a, h.0, v.0, h.1, v.1), v.1))
}

/// The clip that a physics tick selects.
#[verifier::opaque]
pub open spec fn ticked_clip(s: State) -> Sprite {
    let a = accelerated(s);
    let n = a.env.tiles@.len();
    chosen(resolved_x(a, n).0, resolved_y(a, n).0, s.conf.left, s.conf.right, s.conf.up, s.conf.down)
}

/// The world after `n` physics ticks, but for the selected clip.
pub open spec fn ticked_times(s: State, n: nat) -> State
    decreases n,
{
    if n == 0 {
        s
    } else {
        ticked(ticked_times(s, (n - 1) as nat))
    }
}

/// How many physics ticks an update runs that finds `accumulator` seconds
/// taken in: one for each whole `step`, but a tick runs only while more than
/// a step is left, so that a rest of exactly one step stays.
pub open spec fn ticks_due(accumulator: i64, step: i64) -> nat {
    if accumulator > step && step > 0 {
        ((accumulator - 1) / (step as int)) as nat
    } else {
        0
    }
}

/// The time that an update takes in: `delta`, but no more than the longest
/// time that the configuration allows.
pub open spec fn clamped(s: State, delta: i64) -> i64 {
    if delta > s.conf.max {
        s.conf.max
    } else {
        delta
    }
}

/// The world as an update finds it once the frame's time is taken in and
/// the keys are read: the clock values are noted, the clamped time is added
/// to the accumulator, and the direction follows the keys.
pub open spec fn taken_in(s: State, time: i64, delta: i64, fps: i64) -> State {
    steered(
        State {
            conf: Configuration {
                time,
                delta: clamped(s, delta),
                fps,
                accumulator: plus(s.conf.accumulator, clamped(s, delta)),
                ..s.conf
            },
            ..s
        },
    )
}

/// The world with another accumulator.
pub open spec fn with_accumulator(s: State, accumulator: i64) -> State {
    State { conf: Configuration { accumulator, ..s.conf }, ..s }
}

/// The world with the drawing position blended for the part of a step that
/// is left in the accumulator, and the present position noted as the last.
pub open spec fn interpolated(s: State) -> State {
    State {
        sub: Subject {
            interpolation: blend(s, over(s.conf.accumulator, s.conf.step)),
            previous: Point { x: s.sub.x, y: s.sub.y },
            ..s.sub
        },
        ..s
    }
}

/// The world after an update, but for the selected clip.
pub open spec fn updated(s: State, time: i64, delta: i64, fps: i64) -> State {
    let t = taken_in(s, time, delta, fps);
    let n = ticks_due(t.conf.accumulator, t.conf.step);
    interpolated(
        with_accumulator(
            ticked_times(t, n),
            (t.conf.accumulator - n * t.conf.step) as i64,
        ),
    )
}

/// The clips after an update: a tick selects a clip, so the last tick's
/// choice stands, and an update without a tick leaves the selection.
pub open spec fn updated_album(s: State, time: i64, delta: i64, fps: i64) -> Album {
    let t = taken_in(s, time, delta, fps);
    let n = ticks_due(t.conf.accumulator, t.conf.step);
    if n == 0 {
        s.sub.animations@
    } else {
        Album {
            selected: ticked_clip(ticked_times(t, (n - 1) as nat)).name(),
            ..s.sub.animations@
        }
    }
}

/// A tick neither reads nor changes the accumulator.
pub proof fn lemma_tick_keeps_accumulator(s: State, accumulator: i64)
    ensures
        ticked(with_accumulator(s, accumulator)) == with_accumulator(ticked(s), accumulator),
        ticked_clip(with_accumulator(s, accumulator)) == ticked_clip(s),
{
    reveal(ticked);
    reveal(ticked_clip);
    let a = accelerated(s);
    let b = accelerated(with_accumulator(s, accumulator));
    assert(b == with_accumulator(a, accumulator));
    let n = a.env.tiles@.len();
    assert(resolved_x(b, n) == resolved_x(a, n));
    assert(resolved_y(b, n) == resolved_y(a, n));
}

/// Ticks leave the configuration, the level's tiles and the clips alone.
pub proof fn lemma_ticks_keep_configuration(s: State, n: nat)
    ensures
        ticked_times(s, n).conf == s.conf,
        ticked_times(s, n).env.tiles == s.env.tiles,
        ticked_times(s, n).sub.animations == s.sub.animations,
    decreases n,
{
    reveal(ticked);
    if n > 0 {
        lemma_ticks_keep_configuration(s, (n - 1) as nat);
    }
}

/// A tick does not read the clips.
pub proof fn lemma_tick_keeps_animations(s: State, animations: Animations)
    ensures
        ticked(with_animations(s, animations)) == with_animations(ticked(s), animations),
        ticked_clip(with_animations(s, animations)) == ticked_clip(s),
{
    reveal(ticked);
    reveal(ticked_clip);
    let a = accelerated(s);
    let b = accelerated(with_animations(s, animations));
    assert(b == with_animations(a, animations));
    let n = a.env.tiles@.len();
    assert(resolved_x(b, n) == resolved_x(a, n));
    assert(resolved_y(b, n) == resolved_y(a, n));
}

/// The ticks of an update use up the accumulator in whole steps.
pub proof fn lemma_ticks_due(accumulator: i64, step: i64)
    requires
        step > 0,
    ensures
        accumulator > step ==> ticks_due(accumulator, step) == ticks_due(
            (accumulator - step) as i64,
            step,
        ) + 1,
        accumulator <= step ==> ticks_due(accumulator, step) == 0,
        accumulator - ticks_due(accumulator, step) * step <= step,
        accumulator > 0 ==> accumulator - ticks_due(accumulator, step) * step > 0,
        accumulator <= 0 ==> accumulator - ticks_due(accumulator, step) * step == accumulator,
{
    if accumulator > step {
        let a = accumulator - 1;
        vstd::arithmetic::div_mod::lemma_fundamental_div_mod(a, step as int);
        vstd::arithmetic::div_mod::lemma_mod_pos_bound(a, step as int);
        vstd::arithmetic::div_mod::lemma_div_plus_one(a - step, step as int);
        vstd::arithmetic::div_mod::lemma_div_pos_is_pos(a - step, step as int);
        let q = a / (step as int);
        assert(q * step == step * q) by (nonlinear_arith);
        if accumulator - step <= step {
            vstd::arithmetic::div_mod::lemma_basic_div(a - step, step as int);
        }
    }
}

/// An update runs the physics in whole steps: where the time that the
/// accumulator holds once the frame's time is taken in is not negative and
/// not a whole number of steps, the update runs as many ticks as whole steps
/// fit into it, and leaves less than a step behind.
pub proof fn lemma_update_runs_whole_steps(s: State, time: i64, delta: i64, fps: i64)
    requires
        s.conf.step > 0,
        plus(s.conf.accumulator, clamped(s, delta)) >= 0,
        plus(s.conf.accumulator, clamped(s, delta)) % s.conf.step != 0,
    ensures
        ({
            let held = plus(s.conf.accumulator, clamped(s, delta));
            let ticks = (held / s.conf.step) as nat;
            &&& ticks_due(held, s.conf.step) == ticks
            &&& updated(s, time, delta, fps) == interpolated(
                with_accumulator(
                    ticked_times(taken_in(s, time, delta, fps), ticks),
                    (held - ticks * s.conf.step) as i64,
                ),
            )
            &&& 0 <= updated(s, time, delta, fps).conf.accumulator < s.conf.step
        }),
{
    let held = plus(s.conf.accumulator, clamped(s, delta));
    let h = held as int;
    let step = s.conf.step as int;
    let t = taken_in(s, time, delta, fps);
    lemma_ticks_due(held, s.conf.step);
    lemma_ticks_keep_configuration(t, ticks_due(held, s.conf.step));
    vstd::arithmetic::div_mod::lemma_fundamental_div_mod(h, step);
    vstd::arithmetic::div_mod::lemma_mod_pos_bound(h, step);
    vstd::arithmetic::div_mod::lemma_div_pos_is_pos(h, step);
    let q = h / step;
    assert(q * step == step * q) by (nonlinear_arith);
    if h > step {
        vstd::arithmetic::div_mod::lemma_fundamental_div_mod(h - 1, step);
        vstd::arithmetic::div_mod::lemma_mod_pos_bound(h - 1, step);
        let p = (h - 1) / step;
        let r = h % step;
        let u = (h - 1) % step;
        assert(p * step == step * p) by (nonlinear_arith);
        assert(p == q) by (nonlinear_arith)
            requires
                h == step * q + r,
                h - 1 == step * p + u,
                0 < r < step,
                0 <= u < step,
                step > 0,
        ;
    } else {
        vstd::arithmetic::div_mod::lemma_mod_self_0(step);
        vstd::arithmetic::div_mod::lemma_basic_div(h, step);
    }
}

/// Whatever time an update takes in, it leaves no more than one step in the
/// accumulator, and runs no tick where no more than a step was held.
pub proof fn lemma_update_leaves_a_step_at_most(s: State, time: i64, delta: i64, fps: i64)
    requires
        s.conf.step > 0,
    ensures
        updated(s, time, delta, fps).conf.accumulator <= s.conf.step,
        plus(s.conf.accumulator, clamped(s, delta)) <= s.conf.step ==> ticks_due(
            plus(s.conf.accumulator, clamped(s, delta)),
            s.conf.step,
        ) == 0,
{
    let held = plus(s.conf.accumulator, clamped(s, delta));
    let t = taken_in(s, time, delta, fps);
    lemma_ticks_due(held, s.conf.step);
    lemma_ticks_keep_configuration(t, ticks_due(held, s.conf.step));
}

/// A player that attempts no motion along an axis is neither moved nor
/// corrected along it, whatever tiles there are.
pub proof fn lemma_rest_is_kept(
    tiles: Seq<Tile>,
    view: Rectangle,
    swept: Rectangle,
    start: i64,
    extent: i64,
    low: spec_fn(Rectangle) -> i64,
    size: spec_fn(Rectangle) -> i64,
    n: nat,
)
    ensures
        resolved(tiles, view, swept, start, extent, 0, low, size, n) == (0i64, 0i64),
    decreases n,
{
    if n > 0 {
        lemma_rest_is_kept(tiles, view, swept, start, extent, low, size, (n - 1) as nat);
    }
}

/// A tick in which the player has no velocity once the tick's acceleration
/// is added leaves the player where it is, corrects nothing on either axis,
/// starts no jump and ends without velocity.
pub proof fn lemma_tick_at_rest(s: State)
    requires
        accelerated(s).sub.velocity == (Point { x: 0, y: 0 }),
    ensures
        resolved_x(accelerated(s), s.env.tiles@.len()) == (0i64, 0i64),
        resolved_y(accelerated(s), s.env.tiles@.len()) == (0i64, 0i64),
        ticked(s).sub.x == s.sub.x,
        ticked(s).sub.y == s.sub.y,
        ticked(s).sub.velocity == (Point { x: 0, y: 0 }),
        !ticked(s).sub.contact,
{
    reveal(ticked);
    let a = accelerated(s);
    let n = a.env.tiles@.len();
    crate::fixed::lemma_times_zero(a.env.dissipation.x);
    crate::fixed::lemma_times_zero(a.env.dissipation.y);
    crate::fixed::lemma_times_zero(a.env.resistance);
    lemma_rest_is_kept(
        a.env.tiles@,
        a.viewport(),
        Rectangle { x: plus(a.sub.x, a.sub.velocity.x), ..body(a) },
        a.sub.x,
        a.sub.width,
        |r: Rectangle| r.x,
        |r: Rectangle| r.width,
        n,
    );
    lemma_rest_is_kept(
        a.env.tiles@,
        a.viewport(),
        Rectangle { y: plus(a.sub.y, a.sub.velocity.y), ..body(a) },
        a.sub.y,
        a.sub.height,
        |r: Rectangle| r.y,
        |r: Rectangle| r.height,
        n,
    );
}

/// The axes are resolved apart: the horizontal motion and correction do not
/// depend on the vertical velocity, nor the vertical ones on the horizontal.
pub proof fn lemma_axes_are_independent(s: State, other: Point, n: nat)
    ensures
        resolved_x(
            State {
                sub: Subject { velocity: Point { x: s.sub.velocity.x, y: other.y }, ..s.sub },
                ..s
            },
            n,
        ) == resolved_x(s, n),
        resolved_y(
            State {
                sub: Subject { velocity: Point { x: other.x, y: s.sub.velocity.y }, ..s.sub },
                ..s
            },
            n,
        ) == resolved_y(s, n),
{
}

/// Stride `k` starts below the limit exactly when it is one of the strides
/// that [`strides`] counts.
pub proof fn lemma_strides(limit: int, stride: int, k: nat)
    requires
        stride > 0,
    ensures
        k * stride < limit <==> k < strides(limit, stride),
{
    if limit > 0 {
        let q = (limit - 1) / stride;
        vstd::arithmetic::div_mod::lemma_fundamental_div_mod(limit - 1, stride);
        vstd::arithmetic::div_mod::lemma_mod_pos_bound(limit - 1, stride);
        vstd::arithmetic::div_mod::lemma_div_pos_is_pos(limit - 1, stride);
        let r = (limit - 1) % stride;
        assert(k * stride < limit <==> k <= q) by (nonlinear_arith)
            requires
                limit - 1 == stride * q + r,
                0 <= r < stride,
                stride > 0,
                k >= 0,
                q >= 0,
        ;
    } else {
        assert(k * stride >= 0) by (nonlinear_arith)
            requires
                k >= 0,
                stride > 0,
        ;
    }
}

/// Whether `v` is a whole number that `i32` holds.
pub open spec fn on_grid(v: i64) -> bool {
    v % ONE == 0 && -2_147_483_648 * ONE <= v <= 2_147_483_647 * ONE
}

/// A box that overlaps or touches the view, or lies inside it, is not
/// culled.
pub proof fn lemma_overlapping_is_kept(object: Rectangle, view: Rectangle)
    requires
        object.x <= plus(view.x, view.width),
        view.x <= plus(object.x, object.width),
        object.y <= plus(view.y, view.height),
        view.y <= plus(object.y, object.height),
    ensures
        !exceeds(object, view),
{
    lemma_whole_rises(object.x, plus(view.x, view.width));
    lemma_whole_rises(view.x, plus(object.x, object.width));
    lemma_whole_rises(object.y, plus(view.y, view.height));
    lemma_whole_rises(view.y, plus(object.y, object.height));
}

/// A box whose edges and the view's are whole numbers is culled exactly
/// when it lies wholly to the right of, to the left of, below or above the
/// view.
pub proof fn lemma_beyond_is_culled(object: Rectangle, view: Rectangle)
    requires
        on_grid(object.x),
        on_grid(object.y),
        on_grid(view.x),
        on_grid(view.y),
        on_grid(plus(object.x, object.width)),
        on_grid(plus(object.y, object.height)),
        on_grid(plus(view.x, view.width)),
        on_grid(plus(view.y, view.height)),
    ensures
        exceeds(object, view) <==> {
            ||| object.x > plus(view.x, view.width)
            ||| view.x > plus(object.x, object.width)
            ||| object.y > plus(view.y, view.height)
            ||| view.y > plus(object.y, object.height)
        },
{
    lemma_whole_on_grid(object.x);
    lemma_whole_on_grid(object.y);
    lemma_whole_on_grid(view.x);
    lemma_whole_on_grid(view.y);
    lemma_whole_on_grid(plus(object.x, object.width));
    lemma_whole_on_grid(plus(object.y, object.height));
    lemma_whole_on_grid(plus(view.x, view.width));
    lemma_whole_on_grid(plus(view.y, view.height));
}

/// Rounding toward zero keeps the order.
pub proof fn lemma_whole_rises(a: i64, b: i64)
    requires
        a <= b,
    ensures
        whole(a) <= whole(b),
{
    let one = ONE as int;
    if a >= 0 {
        vstd::arithmetic::div_mod::lemma_div_is_ordered(a as int, b as int, one);
    } else if b < 0 {
        vstd::arithmetic::div_mod::lemma_div_is_ordered(-b, -a, one);
    } else {
        vstd::arithmetic::div_mod::lemma_div_pos_is_pos(-a, one);
        vstd::arithmetic::div_mod::lemma_div_pos_is_pos(b as int, one);
    }
}

/// The whole part of a whole number is the number.
pub proof fn lemma_whole_on_grid(v: i64)
    requires
        on_grid(v),
    ensures
        whole(v) * ONE == v,
{
    let one = ONE as int;
    vstd::arithmetic::div_mod::lemma_fundamental_div_mod(v as int, one);
    if v < 0 {
        let q = (v as int) / one;
        vstd::arithmetic::div_mod::lemma_fundamental_div_mod_converse(-v, one, -q, 0);
    }
}

/// The picture of tile `i` as a frame shows it: the texture of the tile's
/// id, placed where the tile lies as seen from the camera.
pub open spec fn tile_picture(s: State, i: int) -> Picture {
    let tile = s.env.tiles@[i];
    s.env.textures@[tile.id]@.moved(
        minus(tile.position.x, s.env.x),
        minus(tile.position.y, s.env.y),
    )
}

/// Whether tile `i` is drawn: it is not culled by the camera's box.
pub open spec fn tile_shows(s: State, i: int) -> bool {
    !exceeds(s.env.tiles@[i].boundary, s.viewport())
}

/// The frame buffer after the first `n` tiles of the level were drawn over
/// `before`, in order, each unless it is culled.
pub open spec fn tiles_drawn(s: State, before: Seq<u8>, width: u32, height: u32, n: nat) -> Seq<u8>
    decreases n,
{
    if n == 0 {
        before
    } else {
        let under = tiles_drawn(s, before, width, height, (n - 1) as nat);
        if tile_shows(s, n - 1) {
            drawn(under, width, height, tile_picture(s, n - 1))
        } else {
            under
        }
    }
}

/// The texture of tile id `id` after the first `n` tiles were drawn: placed
/// where the last drawn tile of that id lies, or as it was.
pub open spec fn texture_placed(s: State, id: u32, n: nat) -> Picture
    decreases n,
{
    if n == 0 {
        s.env.textures@[id]@
    } else if s.env.tiles@[n - 1].id == id && tile_shows(s, n - 1) {
        tile_picture(s, n - 1)
    } else {
        texture_placed(s, id, (n - 1) as nat)
    }
}

/// Where the backdrop is drawn: the level's corner as seen from the camera.
pub open spec fn backdrop(s: State) -> Picture {
    s.env.background@.moved(minus(0, s.env.x), minus(0, s.env.y))
}

/// Where the player's sprite is drawn: the blended position as seen from
/// the camera, moved by the sprite's offset.
pub open spec fn sprite_corner(s: State) -> Point {
    Point {
        x: plus(minus(s.sub.interpolation.x, s.env.x), s.sub.offset.x),
        y: plus(minus(s.sub.interpolation.y, s.env.y), s.sub.offset.y),
    }
}

/// The picture of the player in a frame: the frame that the selected clip
/// shows once it has played one step, at the sprite's corner.
pub open spec fn player_picture(s: State) -> Picture {
    let at = sprite_corner(s);
    let clip = s.sub.animations@.shown(at.x, at.y).current();
    clip.frames[clip.index]
}

/// A frame: the backdrop, the tiles that are not culled, and the player,
/// each drawn over what came before.
pub open spec fn frame_drawn(s: State, before: Seq<u8>, width: u32, height: u32) -> Seq<u8> {
    drawn(
        tiles_drawn(
            s,
            drawn(before, width, height, backdrop(s)),
            width,
            height,
            s.env.tiles@.len(),
        ),
        width,
        height,
        player_picture(s),
    )
}

/// Whether a frame can be drawn: a clip is selected, and every tile that is
/// not culled has a texture.
pub open spec fn renderable(s: State) -> bool {
    &&& s.sub.animations@.ready()
    &&& forall|i: int|
        0 <= i < s.env.tiles@.len() && tile_shows(s, i) ==> s.env.textures@.contains_key(
            #[trigger] s.env.tiles@[i].id,
        )
}

/// The remainder of `a` by a non-zero `b` with the sign of `a`.
pub open spec fn remainder(a: int, b: int) -> int {
    if a >= 0 {
        a % b
    } else {
        -((-a) % b)
    }
}

/// How many strides of `stride` start below `limit`, counted from zero.
pub open spec fn strides(limit: int, stride: int) -> nat {
    if limit <= 0 || stride <= 0 {
        0
    } else {
        ((limit - 1) / stride + 1) as nat
    }
}

/// The frame buffer after `rows` copies of `pattern` were drawn below each
/// other: copy `j` at column `left` of row `j * h - shift`.
pub open spec fn pattern_column(
    before: Seq<u8>,
    width: u32,
    height: u32,
    pattern: Picture,
    left: int,
    shift: int,
    rows: nat,
) -> Seq<u8>
    decreases rows,
{
    if rows == 0 {
        before
    } else {
        drawn(
            pattern_column(before, width, height, pattern, left, shift, (rows - 1) as nat),
            width,
            height,
            pattern.moved(
                from_whole(left as i64),
                from_whole(((rows - 1) * pattern.height - shift) as i64),
            ),
        )
    }
}

/// The frame buffer after `cols` columns of `rows` copies of `pattern` each
/// were drawn: column `i` at column `i * w - shift_x` of the frame.
pub open spec fn pattern_grid(
    before: Seq<u8>,
    width: u32,
    height: u32,
    pattern: Picture,
    shift_x: int,
    shift_y: int,
    cols: nat,
    rows: nat,
) -> Seq<u8>
    decreases cols,
{
    if cols == 0 {
        before
    } else {
        pattern_column(
            pattern_grid(
                before,
                width,
                height,
                pattern,
                shift_x,
                shift_y,
                (cols - 1) as nat,
                rows,
            ),
            width,
            height,
            pattern,
            (cols - 1) * pattern.width - shift_x,
            shift_y,
            rows,
        )
    }
}

/// The frame buffer after the repeating pattern was laid over the window.
/// The grid of copies is shifted against the window by the camera's whole
/// position, taken modulo the pattern's size, and reaches one copy beyond
/// the window's size. A pattern without pixels draws nothing.
pub open spec fn background_drawn(s: State, before: Seq<u8>, width: u32, height: u32) -> Seq<u8> {
    let pattern = s.env.pattern@;
    if pattern.width == 0 || pattern.height == 0 {
        before
    } else {
        pattern_grid(
            before,
            width,
            height,
            pattern,
            remainder(whole(s.env.x) as int, pattern.width as int),
            remainder(whole(s.env.y) as int, pattern.height as int),
            strides(whole(s.conf.width) + pattern.width, pattern.width as int),
            strides(whole(s.conf.height) + pattern.height, pattern.height as int),
        )
    }
}

/// Recomputes the player's direction from the held keys: opposite keys
/// cancel.
pub fn update_direction(state: &mut State)
    ensures
        *final(state) == steered(*old(state)),
{
    state.sub.direction.x = 0;
    state.sub.direction.y = 0;
    if state.conf.left && !state.conf.right {
        state.sub.direction.x = -ONE;
    }
    if state.conf.right && !state.conf.left {
        state.sub.direction.x = ONE;
    }
    if state.conf.up && !state.conf.down {
        state.sub.direction.y = -ONE;
    }
    if state.conf.down && !state.conf.up {
        state.sub.direction.y = ONE;
    }
}

/// Whether two boxes overlap.
pub fn detect_intersection(a: &Rectangle, b: &Rectangle) -> (hit: bool)
    ensures
        hit == intersects(*a, *b),
{
    a.x < plus(b.x, b.width) && b.x < plus(a.x, a.width) && a.y < plus(b.y, b.height) && b.y
        < plus(a.y, a.height)
}

/// Whether `object` lies wholly outside `view`, so that it is neither drawn
/// nor collided with.
pub fn exceeds_viewport(object: &Rectangle, view: &Rectangle) -> (culled: bool)
    ensures
        culled == exceeds(*object, *view),
{
    if whole(object.x) > whole(plus(view.x, view.width)) {
        return true;
    }
    if whole(view.x) > whole(plus(object.x, object.width)) {
        return true;
    }
    if whole(object.y) > whole(plus(view.y, view.height)) {
        return true;
    }
    if whole(view.y) > whole(plus(object.y, object.height)) {
        return true;
    }
    false
}

/// Holds the camera inside the level.
pub fn constrain_map(state: &mut State)
    ensures
        *final(state) == constrained(*old(state)),
{
    if state.env.x < 0 {
        state.env.x = 0;
    }
    if state.env.x > minus(state.env.width, state.conf.width) {
        state.env.x = minus(state.env.width, state.conf.width);
    }
    if state.env.y < 0 {
        state.env.y = 0;
    }
    if state.env.y > minus(state.env.height, state.conf.height) {
        state.env.y = minus(state.env.height, state.conf.height);
    }
}

/// Applies the jump rules of one tick, see [`jumped`].
pub fn jump_player(overlap: i64, state: &mut State)
    ensures
        *final(state) == jumped(*old(state), overlap),
{
    state.sub.contact = false;
    if state.conf.jump && !state.sub.lock && overlap > 0 {
        state.sub.lock = true;
        state.sub.contact = true;
    }
    if !state.conf.jump && state.sub.lock && overlap > 0 {
        state.sub.lock = false;
    }
    if state.sub.contact {
        state.sub.velocity.y = minus(state.sub.velocity.y, times(state.sub.jump, state.conf.ratio));
    }
}

/// Selects the clip for a tick in which the character moved by `(dx, dy)`,
/// see [`chosen`]. The clips themselves, their cursors among them, stay as
/// they are.
pub fn update_animation(state: &mut State, dx: i64, dy: i64)
    ensures
        *final(state) == with_animations(*old(state), final(state).sub.animations),
        final(state).sub.animations@ == (Album {
            selected: chosen(
                dx,
                dy,
                old(state).conf.left,
                old(state).conf.right,
                old(state).conf.up,
                old(state).conf.down,
            ).name(),
            ..old(state).sub.animations@
        }),
{
    let kr: bool = state.conf.right;
    let kl: bool = state.conf.left;
    let ku: bool = state.conf.up;
    let kd: bool = state.conf.down;
    let mx: i64 = MARGIN;
    let my: i64 = MARGIN;
    let ir: bool = magnitude(dy) > my;
    let sprite: Sprite = if dx < -mx && kl && !ir {
        Sprite::RunningLeft
    } else if dx > mx && kr && !ir {
        Sprite::RunningRight
    } else if dy < -my && ku && !ir {
        Sprite::RunningUp
    } else if dy > my && kd && !ir {
        Sprite::RunningDown
    } else if ir && kl {
        Sprite::AirLeft
    } else if ir && kr {
        Sprite::AirRight
    } else if ir && ku {
        Sprite::AirUp
    } else if ir && kd {
        Sprite::AirDown
    } else if dx < -mx {
        Sprite::FacingLeft
    } else if dx > mx {
        Sprite::FacingRight
    } else if dy < -my {
        Sprite::FacingUp
    } else if dy > my {
        Sprite::FacingDown
    } else if ir {
        Sprite::AirDown
    } else {
        Sprite::FacingDown
    };
    state.sub.animations.set(sprite.name_str());
}

/// Blends the player's position between the last update and this one for
/// drawing, and notes the present position as the last.
pub fn interpolate_coordinates(alpha: i64, state: &mut State) -> (at: Point)
    ensures
        at == blend(*old(state), alpha),
        *final(state) == (State {
            sub: Subject {
                previous: Point { x: old(state).sub.x, y: old(state).sub.y },
                ..old(state).sub
            },
            ..*old(state)
        }),
{
    let x: i64 = plus(
        times(state.sub.previous.x, alpha),
        times(state.sub.x, minus(ONE, alpha)),
    );
    let y: i64 = plus(
        times(state.sub.previous.y, alpha),
        times(state.sub.y, minus(ONE, alpha)),
    );
    state.sub.previous.x = state.sub.x;
    state.sub.previous.y = state.sub.y;
    Point { x, y }
}

/// Works out how far the player can move in this tick before tiles stop it,
/// one axis at a time. The result holds the motion along x and y and, after
/// them, what was cut off each: see [`resolved`].
pub fn collision_delta(state: &State) -> (out: [i64; 4])
    ensures
        out[0] == resolved_x(*state, state.env.tiles@.len()).0,
        out[1] == resolved_y(*state, state.env.tiles@.len()).0,
        out[2] == resolved_x(*state, state.env.tiles@.len()).1,
        out[3] == resolved_y(*state, state.env.tiles@.len()).1,
{
    let mut cx: i64 = 0;
    let mut cy: i64 = 0;
    let mut dx: i64 = state.sub.velocity.x;
    let mut dy: i64 = state.sub.velocity.y;
    let subject = Rectangle::new(state.sub.x, state.sub.y, state.sub.width, state.sub.height);
    let horizontal = Rectangle::new(
        plus(state.sub.x, dx),
        state.sub.y,
        state.sub.width,
        state.sub.height,
    );
    let vertical = Rectangle::new(
        state.sub.x,
        plus(state.sub.y, dy),
        state.sub.width,
        state.sub.height,
    );
    let view = state.view();
    let mut i: usize = 0;
    while i < state.env.tiles.len()
        invariant
            i <= state.env.tiles.len(),
            view == state.viewport(),
            subject == body(*state),
            horizontal == (Rectangle { x: plus(state.sub.x, state.sub.velocity.x), ..body(*state) }),
            vertical == (Rectangle { y: plus(state.sub.y, state.sub.velocity.y), ..body(*state) }),
            (dx, cx) == resolved_x(*state, i as nat),
            (dy, cy) == resolved_y(*state, i as nat),
        decreases state.env.tiles.len() - i,
    {
        let rectangle: Rectangle = state.env.tiles[i].boundary;
        i += 1;
        if exceeds_viewport(&rectangle, &view) {
            continue ;
        }
        if detect_intersection(&rectangle, &horizontal) {
            if dx < 0 {
                dx = minus(plus(rectangle.x, rectangle.width), subject.x);
            } else if dx > 0 {
                dx = minus(minus(rectangle.x, subject.x), subject.width);
            }
            cx = minus(state.sub.velocity.x, dx);
        }
        if detect_intersection(&rectangle, &vertical) {
            if dy < 0 {
                dy = minus(plus(rectangle.y, rectangle.height), subject.y);
            } else if dy > 0 {
                dy = minus(minus(rectangle.y, subject.y), subject.height);
            }
            cy = minus(state.sub.velocity.y, dy);
        }
    }
    [dx, dy, cx, cy]
}

/// Runs one physics tick: acceleration, collision, decay, motion, camera,
/// jump, clip selection and the camera's limits, see [`ticked`] and
/// [`ticked_clip`].
pub fn compute_physics(state: &mut State)
    ensures
        *final(state) == with_animations(ticked(*old(state)), final(state).sub.animations),
        final(state).sub.animations@ == (Album {
            selected: ticked_clip(*old(state)).name(),
            ..old(state).sub.animations@
        }),
{
    proof {
        reveal(ticked);
        reveal(ticked_clip);
    }
    let ax: i64 = over(state.sub.force.x, state.sub.mass);
    let ay: i64 = over(state.sub.force.y, state.sub.mass);
    let ix: i64 = times(state.sub.impulse.x, state.sub.direction.x);
    let iy: i64 = times(state.sub.impulse.y, state.sub.direction.y);
    state.sub.acceleration.x = times(plus(ax, ix), state.conf.step);
    state.sub.acceleration.y = times(plus(plus(ay, iy), state.env.gravity), state.conf.step);
    state.sub.velocity.x = plus(
        state.sub.velocity.x,
        times(state.sub.acceleration.x, state.conf.ratio),
    );
    state.sub.velocity.y = plus(
        state.sub.velocity.y,
        times(state.sub.acceleration.y, state.conf.ratio),
    );
    assert(*state == accelerated(*old(state)));
    let out: [i64; 4] = collision_delta(state);
    let dx: i64 = out[0];
    let dy: i64 = out[1];
    let cx: i64 = out[2];
    let cy: i64 = out[3];
    state.sub.velocity.x = if magnitude(cx) < ONE {
        dx
    } else {
        0
    };
    state.sub.velocity.y = if magnitude(cy) < ONE {
        dy
    } else {
        0
    };
    state.sub.velocity.x = times(state.sub.velocity.x, state.env.dissipation.x);
    state.sub.velocity.y = times(state.sub.velocity.y, state.env.dissipation.y);
    if cx != 0 {
        state.sub.velocity.y = times(state.sub.velocity.y, state.env.friction);
    } else if cy != 0 {
        state.sub.velocity.x = times(state.sub.velocity.x, state.env.friction);
    } else {
        state.sub.velocity.x = times(state.sub.velocity.x, state.env.resistance);
        state.sub.velocity.y = times(state.sub.velocity.y, state.env.resistance);
    }
    state.sub.x = plus(state.sub.x, dx);
    state.sub.y = plus(state.sub.y, dy);
    state.env.x = minus(
        plus(state.sub.x, over(state.sub.width, TWO)),
        over(state.conf.width, TWO),
    );
    state.env.y = minus(
        plus(state.sub.y, over(state.sub.height, TWO)),
        over(state.conf.height, TWO),
    );
    assert(*state == carried(accelerated(*old(state)), dx, dy, cx, cy));
    jump_player(cy, state);
    update_animation(state, dx, dy);
    constrain_map(state);
}

/// Whether a frame can be drawn, see [`renderable`].
pub fn is_renderable(state: &State) -> (ok: bool)
    ensures
        ok == renderable(*state),
{
    if !state.sub.animations.is_ready() {
        return false;
    }
    let view: Rectangle = state.view();
    let mut i: usize = 0;
    while i < state.env.tiles.len()
        invariant
            i <= state.env.tiles.len(),
            view == state.viewport(),
            forall|j: int|
                0 <= j < i && tile_shows(*state, j) ==> state.env.textures@.contains_key(
                    #[trigger] state.env.tiles@[j].id,
                ),
        decreases state.env.tiles.len() - i,
    {
        let tile: Tile = state.env.tiles[i];
        if !exceeds_viewport(&tile.boundary, &view) && !knows(&state.env.textures, tile.id) {
            assert(tile_shows(*state, i as int));
            return false;
        }
        i += 1;
    }
    true
}

/// Draws a frame: the backdrop, every tile that is not culled, and the
/// player's sprite, see [`frame_drawn`].
///
/// Drawing places what it draws: the backdrop and the texture of each drawn
/// tile are left where they were drawn, and the selected clip plays one
/// step. A clip has to be selected, and every tile that is not culled has to
/// have a texture.
pub fn render_graphics(state: &mut State, buffer: &mut [u8], width: u32, height: u32)
    requires
        renderable(*old(state)),
    ensures
        final(buffer)@ == frame_drawn(*old(state), old(buffer)@, width, height),
        *final(state) == (State {
            env: Environment {
                background: final(state).env.background,
                textures: final(state).env.textures,
                ..old(state).env
            },
            sub: Subject { animations: final(state).sub.animations, ..old(state).sub },
            ..*old(state)
        }),
        final(state).env.background@ == backdrop(*old(state)),
        final(state).env.textures@.dom() == old(state).env.textures@.dom(),
        forall|id: u32| #[trigger]
            final(state).env.textures@.contains_key(id) ==> final(state).env.textures@[id]@
                == texture_placed(*old(state), id, old(state).env.tiles@.len()),
        final(state).sub.animations@ == old(state).sub.animations@.shown(
            sprite_corner(*old(state)).x,
            sprite_corner(*old(state)).y,
        ),
{
    let ghost start = *state;
    let ghost before = buffer@;
    let x: i64 = minus(state.sub.interpolation.x, state.env.x);
    let y: i64 = minus(state.sub.interpolation.y, state.env.y);
    state.env.background.set_x_y(minus(0, state.env.x), minus(0, state.env.y));
    crate::canvas::image::render(buffer, width, height, &state.env.background);
    let view: Rectangle = state.view();
    let ghost ground = buffer@;
    let mut i: usize = 0;
    while i < state.env.tiles.len()
        invariant
            i <= state.env.tiles.len(),
            renderable(start),
            view == start.viewport(),
            ground == drawn(before, width, height, backdrop(start)),
            *state == (State {
                env: Environment {
                    background: state.env.background,
                    textures: state.env.textures,
                    ..start.env
                },
                ..start
            }),
            state.env.background@ == backdrop(start),
            state.env.textures@.dom() == start.env.textures@.dom(),
            forall|id: u32| #[trigger]
                state.env.textures@.contains_key(id) ==> state.env.textures@[id]@
                    == texture_placed(start, id, i as nat),
            forall|id: u32| #[trigger]
                state.env.textures@.contains_key(id) ==> state.env.textures@[id]@.moved(0, 0)
                    == start.env.textures@[id]@.moved(0, 0),
            buffer@ == tiles_drawn(start, ground, width, height, i as nat),
        decreases state.env.tiles.len() - i,
    {
        let tile: Tile = state.env.tiles[i];
        let tx: i64 = minus(tile.position.x, state.env.x);
        let ty: i64 = minus(tile.position.y, state.env.y);
        let ghost textures = state.env.textures@;
        if !exceeds_viewport(&tile.boundary, &view) {
            assert(tile_shows(start, i as int));
            assert(textures.contains_key(start.env.tiles@[i as int].id));
            match take(&mut state.env.textures, tile.id) {
                Some(image) => {
                    let mut image: Image = image;
                    image.set_x(tx);
                    image.set_y(ty);
                    proof {
                        assert(image@ == tile_picture(start, i as int)) by {
                            assert(textures[tile.id]@.moved(0, 0) == start.env.textures@[tile.id]@.moved(
                                0,
                                0,
                            ));
                        }
                    }
                    crate::canvas::image::render(buffer, width, height, &image);
                    file(&mut state.env.textures, tile.id, image);
                    proof {
                        assert(state.env.textures@.dom() =~= start.env.textures@.dom());
                    }
                },
                None => {},
            }
        }
        i += 1;
    }
    let frame_x: i64 = plus(x, state.sub.offset.x);
    let frame_y: i64 = plus(y, state.sub.offset.y);
    let frame: &Image = state.sub.animations.consecutive_frame(frame_x, frame_y);
    crate::canvas::image::render(buffer, width, height, frame);
}

/// Lays the repeating pattern over the window, shifted with the camera, see
/// [`background_drawn`].
pub fn generate_background(state: &State, buffer: &mut [u8], width: u32, height: u32)
    ensures
        final(buffer)@ == background_drawn(*state, old(buffer)@, width, height),
{
    let mut pattern: Image = state.env.pattern.clone();
    let sx: i64 = whole(state.env.x) as i64;
    let sy: i64 = whole(state.env.y) as i64;
    let sw: i64 = whole(state.conf.width) as i64;
    let sh: i64 = whole(state.conf.height) as i64;
    let w: i64 = pattern.width() as i64;
    let h: i64 = pattern.height() as i64;
    if w == 0 || h == 0 {
        return ;
    }
    let tx: i64 = sx % w;
    let ty: i64 = sy % h;
    let ghost before = buffer@;
    let ghost picture = state.env.pattern@;
    let ghost cols = strides(sw + w, w as int);
    let ghost rows = strides(sh + h, h as int);
    let ghost mut col: nat = 0;
    let mut x: i64 = 0;
    proof {
        lemma_strides(sw + w, w as int, 0);
        lemma_strides(sh + h, h as int, 0);
    }
    while x < sw + w
        invariant
            0 < w <= 0xffff_ffff,
            0 < h <= 0xffff_ffff,
            -0x8000_0000 <= sw <= 0x7fff_ffff,
            -0x8000_0000 <= sh <= 0x7fff_ffff,
            -0xffff_ffff <= tx <= 0xffff_ffff,
            -0xffff_ffff <= ty <= 0xffff_ffff,
            tx == remainder(whole(state.env.x) as int, w as int),
            ty == remainder(whole(state.env.y) as int, h as int),
            picture == state.env.pattern@,
            picture.width == w,
            picture.height == h,
            pattern@.moved(0, 0) == picture.moved(0, 0),
            cols == strides(sw + w, w as int),
            rows == strides(sh + h, h as int),
            x == col * w,
            col <= cols,
            (x < sw + w) == (col < cols),
            buffer@ == pattern_grid(before, width, height, picture, tx as int, ty as int, col, rows),
        decreases cols - col,
    {
        let ghost under = buffer@;
        let ghost mut row: nat = 0;
        let mut y: i64 = 0;
        while y < sh + h
            invariant
                0 < w <= 0xffff_ffff,
                0 < h <= 0xffff_ffff,
                -0x8000_0000 <= sw <= 0x7fff_ffff,
                -0x8000_0000 <= sh <= 0x7fff_ffff,
                -0xffff_ffff <= tx <= 0xffff_ffff,
                -0xffff_ffff <= ty <= 0xffff_ffff,
                picture.width == w,
                picture.height == h,
                pattern@.moved(0, 0) == picture.moved(0, 0),
                rows == strides(sh + h, h as int),
                0 <= x < sw + w,
                x == col * w,
                y == row * h,
                row <= rows,
                (y < sh + h) == (row < rows),
                buffer@ == pattern_column(
                    under,
                    width,
                    height,
                    picture,
                    x - tx,
                    ty as int,
                    row,
                ),
            decreases rows - row,
        {
            pattern.set_x_y(from_whole(x - tx), from_whole(y - ty));
            proof {
                assert(pattern@ == picture.moved(from_whole((x - tx) as i64), from_whole((y - ty) as i64)));
            }
            crate::canvas::image::render(buffer, width, height, &pattern);
            proof {
                lemma_strides(sh + h, h as int, row + 1);
                assert((row + 1) * h == row * h + h) by (nonlinear_arith);
                row = row + 1;
            }
            y += h;
        }
        proof {
            lemma_strides(sw + w, w as int, col + 1);
            assert((col + 1) * w == col * w + w) by (nonlinear_arith);
            col = col + 1;
        }
        x += w;
    }
}

/// Takes in the time of one frame and runs the physics in fixed steps.
///
/// `time` is the wall time, `delta` the time since the last update and `fps`
/// the frame rate that the caller measured. The time taken in is clamped to
/// the configured maximum and added to the accumulator. One tick runs for
/// each step that the accumulator holds, as long as more than a step is left.
/// At last the drawing position is blended for the rest. The step has to be
/// longer than nothing.
pub fn update_state(state: &mut State, time: i64, delta: i64, fps: i64)
    requires
        old(state).conf.step > 0,
    ensures
        *final(state) == with_animations(
            updated(*old(state), time, delta, fps),
            final(state).sub.animations,
        ),
        final(state).sub.animations@ == updated_album(*old(state), time, delta, fps),
{
    state.conf.time = time;
    state.conf.delta = delta;
    state.conf.fps = fps;
    if state.conf.delta > state.conf.max {
        state.conf.delta = state.conf.max;
    }
    state.conf.accumulator = plus(state.conf.accumulator, state.conf.delta);
    update_direction(state);
    let ghost start = *state;
    let ghost total = ticks_due(start.conf.accumulator, start.conf.step);
    let ghost mut done: nat = 0;
    assert(start == taken_in(*old(state), time, delta, fps));
    proof {
        lemma_ticks_due(start.conf.accumulator, start.conf.step);
    }
    while state.conf.accumulator > state.conf.step
        invariant
            start == taken_in(*old(state), time, delta, fps),
            start.conf.step > 0,
            state.conf.step == start.conf.step,
            total == ticks_due(start.conf.accumulator, start.conf.step),
            done <= total,
            state.conf.accumulator == start.conf.accumulator - done * start.conf.step,
            total - done == ticks_due(state.conf.accumulator, start.conf.step),
            *state == with_animations(
                with_accumulator(ticked_times(start, done), state.conf.accumulator),
                state.sub.animations,
            ),
            done == 0 ==> state.sub.animations@ == old(state).sub.animations@,
            done > 0 ==> state.sub.animations@ == (Album {
                selected: ticked_clip(ticked_times(start, (done - 1) as nat)).name(),
                ..old(state).sub.animations@
            }),
        decreases state.conf.accumulator,
    {
        proof {
            lemma_ticks_due(state.conf.accumulator, start.conf.step);
            assert((done + 1) * start.conf.step == done * start.conf.step + start.conf.step)
                by (nonlinear_arith);
        }
        state.conf.accumulator = state.conf.accumulator - state.conf.step;
        let ghost before = *state;
        compute_physics(state);
        proof {
            let reached = ticked_times(start, done);
            lemma_ticks_keep_configuration(start, done);
            lemma_ticks_keep_configuration(start, done + 1);
            lemma_tick_keeps_accumulator(reached, before.conf.accumulator);
            assert(before == with_animations(
                with_accumulator(reached, before.conf.accumulator),
                before.sub.animations,
            ));
            lemma_tick_keeps_animations(
                with_accumulator(reached, before.conf.accumulator),
                before.sub.animations,
            );
            done = done + 1;
            lemma_ticks_due(state.conf.accumulator, start.conf.step);
        }
    }
    proof {
        lemma_ticks_due(state.conf.accumulator, start.conf.step);
        assert(done == total);
    }
    let alpha: i64 = over(state.conf.accumulator, state.conf.step);
    let at: Point = interpolate_coordinates(alpha, state);
    state.sub.interpolation = at;
}

} // verus!
