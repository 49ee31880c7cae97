//! The camera tracker: a position that follows the player with exponential
//! smoothing, and the point the camera looks at.

use vstd::prelude::*;
use crate::locomotion::ActorId;
use crate::units::{UNIT, UNIT_SQUARED, magnitude, quotient_away_from_zero};
use crate::vector::{Vec3, Vector, confine, confine_wide};

verus! {

/// The constants of the tracker, in ticks.
#[derive(Clone, Copy, Debug, PartialEq, Eq, Structural)]
pub struct CameraConfig {
    /// From the player to the place the camera heads for.
    pub offset: Vec3,
    /// From the player to the point the camera looks at.
    pub look_at_offset: Vec3,
    /// How fast the camera closes in, per second.
    pub smoothness: u32,
    /// Whether the blend factor of a frame is held to at most one. Without
    /// it a long frame throws the camera past its target.
    pub clamp_blend: bool,
}

impl Default for CameraConfig {
    /// 2.5 units above and 8 units behind the player, looking 1.5 units above
    /// it, with smoothness 5 and the blend factor held to one.
    fn default() -> (config: CameraConfig)
        ensures
            config == (CameraConfig {
                offset: Vec3 { x: 0, y: 2_500_000, z: 8_000_000 },
                look_at_offset: Vec3 { x: 0, y: 1_500_000, z: 0 },
                smoothness: 5_000_000,
                clamp_blend: true,
            }),
    {
        CameraConfig {
            offset: Vec3 { x: 0, y: 2_500_000, z: 8_000_000 },
            look_at_offset: Vec3 { x: 0, y: 1_500_000, z: 0 },
            smoothness: 5_000_000,
            clamp_blend: true,
        }
    }
}

/// The one value that the tracker keeps from frame to frame.
#[derive(Clone, Copy, Debug, PartialEq, Eq, Structural)]
pub struct CameraFollowState {
    pub position: Vec3,
}

impl CameraFollowState {
    /// The state at startup: the origin.
    pub fn new() -> (state: CameraFollowState)
        ensures
            state.position@ == Vector::zero(),
    {
        CameraFollowState { position: Vec3::zero() }
    }
}

/// Where the camera is put and how it is turned: at `position`, looking at
/// `look_at`, with `up` upward.
#[derive(Clone, Copy, Debug, PartialEq, Eq, Structural)]
pub struct CameraPose {
    pub position: Vec3,
    pub look_at: Vec3,
    pub up: Vec3,
}

/// A pose together with the camera actor it is for.
#[derive(Clone, Copy, Debug, PartialEq, Eq, Structural)]
pub struct CameraUpdate {
    pub camera: ActorId,
    pub pose: CameraPose,
}

/// The blend factor of a frame of `dt` ticks, in parts of `UNIT_SQUARED`:
/// smoothness times elapsed time, held to at most one where `clamp` is set.
pub open spec fn blend_factor(smoothness: int, dt: int, clamp: bool) -> int {
    if clamp && smoothness * dt > UNIT_SQUARED {
        UNIT_SQUARED as int
    } else {
        smoothness * dt
    }
}

/// One axis of a linear interpolation: `from` plus the part `factor` of the
/// way to `to`. The step is rounded away from zero, so that a positive
/// factor always moves a coordinate that is off target.
pub open spec fn approach(from: int, to: int, factor: int) -> int {
    from + quotient_away_from_zero((to - from) * factor, UNIT_SQUARED as int)
}

/// The linear interpolation from `from` towards `to` by `factor` parts of
/// `UNIT_SQUARED`.
pub open spec fn lerp(from: Vector, to: Vector, factor: int) -> Vector {
    Vector {
        x: approach(from.x, to.x, factor),
        y: approach(from.y, to.y, factor),
        z: approach(from.z, to.z, factor),
    }
}

/// Where the camera heads for: the player's position plus the offset, held
/// to what machine integers hold.
pub open spec fn target_of(player: Vector, config: CameraConfig) -> Vector {
    player.plus(config.offset@).confined()
}

/// The camera position after a frame of `dt` ticks spent heading for
/// `target`: the interpolation towards it by the frame's blend factor. A
/// step that would leave the numbers of the machine ends at the last of
/// them.
pub open spec fn next_position(position: Vector, target: Vector, config: CameraConfig, dt: int) -> Vector {
    lerp(
        position,
        target,
        blend_factor(config.smoothness as int, dt, config.clamp_blend),
    ).confined()
}

/// The blend factor of a frame of `dt` ticks.
pub fn frame_blend_factor(config: &CameraConfig, dt: u32) -> (factor: u64)
    ensures
        factor == blend_factor(config.smoothness as int, dt as int, config.clamp_blend),
{
    assert(config.smoothness * dt <= 0xffff_ffff * 0xffff_ffff) by (nonlinear_arith)
        requires
            0 <= config.smoothness <= 0xffff_ffff,
            0 <= dt <= 0xffff_ffff,
    ;
    let raw: u64 = (config.smoothness as u64) * (dt as u64);
    if config.clamp_blend && raw > UNIT_SQUARED {
        UNIT_SQUARED
    } else {
        raw
    }
}

/// The step of one axis, for a way of length `m` and a factor split into
/// its whole part `q` and the rest `r`: the whole part gives `m` that many
/// times, and only the rest is rounded.
proof fn lemma_step_in_parts(m: int, factor: int, q: int, r: int)
    requires
        0 <= m,
        factor == q * 1_000_000_000_000 + r,
    ensures
        (m * factor + 999_999_999_999) / 1_000_000_000_000 == m * q + (m * r + 999_999_999_999)
            / 1_000_000_000_000,
{
    vstd::arithmetic::div_mod::lemma_hoist_over_denominator(
        m * r + 999_999_999_999,
        m * q,
        1_000_000_000_000,
    );
    assert(m * r + 999_999_999_999 + (m * q) * 1_000_000_000_000 == m * factor + 999_999_999_999)
        by (nonlinear_arith)
        requires
            factor == q * 1_000_000_000_000 + r,
    ;
}

/// One axis of the step toward the target, held to what a machine integer
/// holds.
fn approach_component(from: i64, to: i64, factor: u64) -> (next: i64)
    ensures
        next == confine(approach(from as int, to as int, factor as int)),
{
    let delta: i128 = to as i128 - from as i128;
    let m: u128 = if delta < 0 {
        (-delta) as u128
    } else {
        delta as u128
    };
    let q: u64 = factor / UNIT_SQUARED;
    let r: u64 = factor % UNIT_SQUARED;
    assert(m * q <= 0xffff_ffff_ffff_ffff * 18_446_744 && m * r <= 0xffff_ffff_ffff_ffff
        * 999_999_999_999 && m * factor == magnitude(delta * factor) && (delta < 0 ==> delta
        * factor <= 0) && (delta >= 0 ==> delta * factor >= 0)) by (nonlinear_arith)
        requires
            0 <= m <= 0xffff_ffff_ffff_ffff,
            delta < 0 ==> m == -delta,
            delta >= 0 ==> m == delta,
            0 <= q <= 18_446_744,
            0 <= r <= 999_999_999_999,
            0 <= factor,
    ;
    let whole: u128 = m * (q as u128);
    let rest: u128 = (m * (r as u128) + 999_999_999_999) / 1_000_000_000_000;
    assert(rest <= 0xffff_ffff_ffff_ffff) by (nonlinear_arith)
        requires
            rest == (m * r + 999_999_999_999) / 1_000_000_000_000,
            0 <= m * r <= 0xffff_ffff_ffff_ffff * 999_999_999_999,
    ;
    let steps: u128 = whole + rest;
    proof {
        lemma_step_in_parts(m as int, factor as int, q as int, r as int);
    }
    if delta < 0 {
        confine_wide(from as i128 - steps as i128)
    } else {
        confine_wide(from as i128 + steps as i128)
    }
}

/// `update` is what a frame with this player and camera gives, from the
/// state `before` to the state `after`: the camera heads for the player's
/// position plus the offset, is put where the state then is, and looks at
/// the player's position plus the look-at offset, with +Y upward.
pub open spec fn is_frame_update(
    update: CameraUpdate,
    before: CameraFollowState,
    after: CameraFollowState,
    player: Vec3,
    camera: ActorId,
    dt: u32,
    config: CameraConfig,
) -> bool {
    &&& after.position@ == next_position(
        before.position@,
        target_of(player@, config),
        config,
        dt as int,
    )
    &&& update.camera == camera
    &&& update.pose.position == after.position
    &&& update.pose.look_at@ == player@.plus(config.look_at_offset@).confined()
    &&& update.pose.up@ == (Vector { x: 0, y: UNIT as int, z: 0 })
}

/// One frame of the tracker, `dt` ticks after the last. With a player and a
/// camera it moves the state toward the player and gives the camera's new
/// pose; where either is missing it changes nothing and gives nothing.
pub fn update_camera(
    player: Option<Vec3>,
    camera: Option<ActorId>,
    dt: u32,
    state: &mut CameraFollowState,
    config: &CameraConfig,
) -> (update: Option<CameraUpdate>)
    ensures
        match (player, camera) {
            (Some(position), Some(actor)) => update matches Some(u) && is_frame_update(
                u,
                *old(state),
                *final(state),
                position,
                actor,
                dt,
                *config,
            ),
            _ => update is None && *final(state) == *old(state),
        },
{
    match (player, camera) {
        (Some(position), Some(actor)) => {
            let target: Vec3 = position.saturating_plus(config.offset);
            let factor: u64 = frame_blend_factor(config, dt);
            state.position = Vec3 {
                x: approach_component(state.position.x, target.x, factor),
                y: approach_component(state.position.y, target.y, factor),
                z: approach_component(state.position.z, target.z, factor),
            };
            Some(
                CameraUpdate {
                    camera: actor,
                    pose: CameraPose {
                        position: state.position,
                        look_at: position.saturating_plus(config.look_at_offset),
                        up: Vec3 { x: 0, y: UNIT, z: 0 },
                    },
                },
            )
        },
        _ => None,
    }
}

/// `mid` lies between `a` and `b`, the ends included.
pub open spec fn between(a: int, mid: int, b: int) -> bool {
    (a <= mid <= b) || (b <= mid <= a)
}

/// One axis of a step with a factor of at most one: the coordinate stays
/// between where it was and the target, moves where it is off target, and
/// what is left of the way is the part `1 - factor` of it, rounded down.
proof fn lemma_approach_axis(from: int, to: int, factor: int)
    requires
        0 < factor <= UNIT_SQUARED,
    ensures
        between(from, approach(from, to, factor), to),
        from != to ==> approach(from, to, factor) != from,
        (to - approach(from, to, factor)) * (to - approach(from, to, factor)) <= (to - from) * (to
            - from),
        from != to ==> (to - approach(from, to, factor)) * (to - approach(from, to, factor)) < (to
            - from) * (to - from),
        is_rest_of_way(
            magnitude(to - approach(from, to, factor)),
            magnitude(to - from),
            factor,
        ),
{
    let d = to - from;
    let m = magnitude(d);
    let p = m * factor;
    let step = (p + 999_999_999_999) / 1_000_000_000_000;
    assert(0 <= p <= m * 1_000_000_000_000 && (m > 0 ==> p >= 1)) by (nonlinear_arith)
        requires
            0 <= m,
            0 < factor <= 1_000_000_000_000,
            p == m * factor,
    ;
    assert(step <= m && (m > 0 ==> step >= 1) && step >= 0);
    assert(d * factor == (if d < 0 {
        -p
    } else {
        p
    })) by (nonlinear_arith)
        requires
            p == m * factor,
            m == (if d < 0 {
                -d
            } else {
                d
            }),
    ;
    let next = approach(from, to, factor);
    assert(next == (if d < 0 {
        from - step
    } else {
        from + step
    }));
    let rest = to - next;
    assert(magnitude(rest) == m - step);
    assert((m - step) * 1_000_000_000_000 <= m * (1_000_000_000_000 - factor) && m * (
    1_000_000_000_000 - factor) < (m - step + 1) * 1_000_000_000_000) by (nonlinear_arith)
        requires
            p == m * factor,
            step == (p + 999_999_999_999) / 1_000_000_000_000,
    ;
    assert(rest * rest <= d * d && (m > 0 ==> rest * rest < d * d)) by (nonlinear_arith)
        requires
            magnitude(rest) == m - step,
            m == magnitude(d),
            0 <= step <= m,
            m > 0 ==> step >= 1,
    ;
}

/// `rest` is the part `1 - factor` of `way`, rounded down to a tick.
pub open spec fn is_rest_of_way(rest: int, way: int, factor: int) -> bool {
    rest * UNIT_SQUARED <= way * (UNIT_SQUARED - factor) < (rest + 1) * UNIT_SQUARED
}

/// At its target the camera stays, whatever the length of the frame and the
/// configuration.
pub proof fn law_fixed_point(position: Vec3, config: CameraConfig, dt: int)
    ensures
        next_position(position@, position@, config, dt) == position@,
{
    let factor = blend_factor(config.smoothness as int, dt, config.clamp_blend);
    assert(0 * factor == 0) by (nonlinear_arith);
}

/// With a blend factor of at most one, which is every factor that is held
/// to one, a frame of positive length with positive smoothness brings a
/// camera that is off a target standing still strictly nearer to it, on no
/// axis past it, and the step is the plain interpolation. This holds of
/// every position and every target that the machine holds.
pub proof fn law_approach(position: Vec3, target: Vec3, config: CameraConfig, dt: int)
    requires
        config.clamp_blend || config.smoothness * dt <= UNIT_SQUARED,
        config.smoothness > 0,
        dt > 0,
        position != target,
    ensures
        next_position(position@, target@, config, dt).dist2(target@) < position@.dist2(target@),
        between(position.x as int, next_position(position@, target@, config, dt).x, target.x as int),
        between(position.y as int, next_position(position@, target@, config, dt).y, target.y as int),
        between(position.z as int, next_position(position@, target@, config, dt).z, target.z as int),
        next_position(position@, target@, config, dt) == lerp(
            position@,
            target@,
            blend_factor(config.smoothness as int, dt, true),
        ),
        0 < blend_factor(config.smoothness as int, dt, true) <= UNIT_SQUARED,
{
    let factor = blend_factor(config.smoothness as int, dt, config.clamp_blend);
    assert(config.smoothness * dt > 0) by (nonlinear_arith)
        requires
            config.smoothness > 0,
            dt > 0,
    ;
    let (p, t) = (position@, target@);
    lemma_approach_axis(p.x, t.x, factor);
    lemma_approach_axis(p.y, t.y, factor);
    lemma_approach_axis(p.z, t.z, factor);
    let next = next_position(p, t, config, dt);
    assert(next == lerp(p, t, factor));
    assert(next.dist2(t) == (t.x - next.x) * (t.x - next.x) + (t.y - next.y) * (t.y - next.y) + (t.z
        - next.z) * (t.z - next.z)) by (nonlinear_arith)
        requires
            next.dist2(t) == (next.x - t.x) * (next.x - t.x) + (next.y - t.y) * (next.y - t.y) + (
            next.z - t.z) * (next.z - t.z),
    ;
    assert(p.dist2(t) == (t.x - p.x) * (t.x - p.x) + (t.y - p.y) * (t.y - p.y) + (t.z - p.z) * (t.z
        - p.z)) by (nonlinear_arith)
        requires
            p.dist2(t) == (p.x - t.x) * (p.x - t.x) + (p.y - t.y) * (p.y - t.y) + (p.z - t.z) * (p.z
                - t.z),
    ;
}

/// What `law_approach` says, of a frame of `update_camera` itself: with a
/// player and a camera, a blend factor of at most one, positive smoothness
/// and a frame of positive length, the state ends strictly nearer to the
/// place it heads for than it began, unless it began there.
pub proof fn law_update_camera_approaches(
    update: CameraUpdate,
    before: CameraFollowState,
    after: CameraFollowState,
    player: Vec3,
    camera: ActorId,
    dt: u32,
    config: CameraConfig,
)
    requires
        is_frame_update(update, before, after, player, camera, dt, config),
        config.clamp_blend || config.smoothness * dt <= UNIT_SQUARED,
        config.smoothness > 0,
        dt > 0,
        before.position@ != target_of(player@, config),
    ensures
        after.position@.dist2(target_of(player@, config)) < before.position@.dist2(
            target_of(player@, config),
        ),
        update.pose.position@.dist2(target_of(player@, config)) < before.position@.dist2(
            target_of(player@, config),
        ),
{
    let t = target_of(player@, config);
    let target = Vec3 { x: t.x as i64, y: t.y as i64, z: t.z as i64 };
    assert(target@ == t);
    law_approach(before.position, target, config, dt as int);
}

/// The smoothing is exponential: with a blend factor of at most one, what
/// is left of the way to the target on each axis after a frame is the part
/// `1 - factor` of what was left before it, rounded down to a tick.
pub proof fn law_exponential_decay(position: Vec3, target: Vec3, config: CameraConfig, dt: int)
    requires
        config.clamp_blend || config.smoothness * dt <= UNIT_SQUARED,
        config.smoothness > 0,
        dt > 0,
    ensures
        ({
            let factor = blend_factor(config.smoothness as int, dt, true);
            let next = next_position(position@, target@, config, dt);
            &&& 0 < factor <= UNIT_SQUARED
            &&& is_rest_of_way(
                magnitude(target.x - next.x),
                magnitude(target.x - position.x),
                factor,
            )
            &&& is_rest_of_way(
                magnitude(target.y - next.y),
                magnitude(target.y - position.y),
                factor,
            )
            &&& is_rest_of_way(
                magnitude(target.z - next.z),
                magnitude(target.z - position.z),
                factor,
            )
        }),
{
    let factor = blend_factor(config.smoothness as int, dt, true);
    assert(config.smoothness * dt > 0) by (nonlinear_arith)
        requires
            config.smoothness > 0,
            dt > 0,
    ;
    lemma_approach_axis(position.x as int, target.x as int, factor);
    lemma_approach_axis(position.y as int, target.y as int, factor);
    lemma_approach_axis(position.z as int, target.z as int, factor);
}

} // verus!
