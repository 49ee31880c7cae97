//! The input aggregator: one motion intent per frame from the keys that are
//! held, the joystick samples that arrived and the points that are touched.

use vstd::prelude::*;
use crate::units::{UNIT, magnitude};
use crate::vector::{
    Vec3, Vector, resized_component, lemma_resized_component_exists,
    lemma_resized_component_unique, lemma_zero_component,
};

verus! {

/// Most samples, and most touch points, that one frame can hold.
pub const MAX_SAMPLES: usize = 0x7fff_ffff;

/// No axis component is larger than this in absolute value.
pub const AXIS_RANGE: i64 = 0x8000_0000;

/// Each component of a unit vector along a diagonal of two axes: `UNIT`
/// divided by the square root of two, rounded toward zero.
pub const DIAGONAL: i64 = 707_106;

/// The level state of the keys in one frame: `true` while a key is held.
#[derive(Clone, Copy, Debug, PartialEq, Eq, Structural)]
pub struct KeyState {
    pub up: bool,
    pub down: bool,
    pub left: bool,
    pub right: bool,
    pub jump: bool,
}

/// One joystick drag event: its axis in ticks, a full throw being `UNIT`.
#[derive(Clone, Copy, Debug, PartialEq, Eq, Structural)]
pub struct AxisSample {
    pub x: i32,
    pub y: i32,
}

/// A point of the screen, counted from its top left corner.
#[derive(Clone, Copy, Debug, PartialEq, Eq, Structural)]
pub struct TouchPoint {
    pub x: u32,
    pub y: u32,
}

/// The size of the screen, in the unit of the touch points.
#[derive(Clone, Copy, Debug, PartialEq, Eq, Structural)]
pub struct Screen {
    pub width: u32,
    pub height: u32,
}

/// What the player asks for in one frame: a direction of unit length, or
/// none, and whether to jump. It is made anew each frame and keeps nothing.
#[derive(Clone, Copy, Debug, PartialEq, Eq, Structural)]
pub struct MotionIntent {
    /// What all the sources contribute, added up and not rounded. Whoever
    /// needs the direction at another length takes it from here, so that the
    /// result is rounded once.
    pub sum: Vec3,
    /// The direction: the sum brought to unit length, each component rounded
    /// toward zero to a tick; zero where the sum is zero.
    pub direction: Vec3,
    pub jump_requested: bool,
}

impl MotionIntent {
    /// The direction is that of the sum.
    pub open spec fn wf(self) -> bool {
        self.direction@ == self.sum@.unit()
    }
}

/// A key's contribution: `step` while it is held, nothing otherwise.
pub open spec fn held(key: bool, step: Vector) -> Vector {
    if key {
        step
    } else {
        Vector::zero()
    }
}

/// The sum of what the four direction keys contribute: up is one unit toward
/// -Z, down toward +Z, left toward -X, right toward +X.
pub open spec fn key_direction(keys: KeyState) -> Vector {
    held(keys.up, Vector { x: 0, y: 0, z: -(UNIT as int) }).plus(
        held(keys.down, Vector { x: 0, y: 0, z: UNIT as int }),
    ).plus(held(keys.left, Vector { x: -(UNIT as int), y: 0, z: 0 })).plus(
        held(keys.right, Vector { x: UNIT as int, y: 0, z: 0 }),
    )
}

/// A joystick axis `(x, y)` points along `(x, 0, -y)` in the world.
pub open spec fn axis_direction(sample: AxisSample) -> Vector {
    Vector { x: sample.x as int, y: 0, z: -(sample.y as int) }
}

/// The sum of the directions of all the samples of a frame.
pub open spec fn joystick_direction(samples: Seq<AxisSample>) -> Vector
    decreases samples.len(),
{
    if samples.len() == 0 {
        Vector::zero()
    } else {
        joystick_direction(samples.drop_last()).plus(axis_direction(samples.last()))
    }
}

/// A touch in the left half of the screen pulls one unit toward -X, in the
/// right half toward +X; in the upper half toward -Z, in the lower half
/// toward +Z. The middle lines belong to the right and the lower half.
pub open spec fn touch_direction(point: TouchPoint, screen: Screen) -> Vector {
    Vector {
        x: if 2 * point.x < screen.width {
            -(UNIT as int)
        } else {
            UNIT as int
        },
        y: 0,
        z: if 2 * point.y < screen.height {
            -(UNIT as int)
        } else {
            UNIT as int
        },
    }
}

/// The sum of the directions of all the touch points of a frame.
pub open spec fn touches_direction(points: Seq<TouchPoint>, screen: Screen) -> Vector
    decreases points.len(),
{
    if points.len() == 0 {
        Vector::zero()
    } else {
        touches_direction(points.drop_last(), screen).plus(touch_direction(points.last(), screen))
    }
}

/// What the keys, the joystick samples and the touch screen of a frame
/// contribute, added up.
pub open spec fn input_sum(keys: KeyState, samples: Seq<AxisSample>, touch: Vector) -> Vector {
    key_direction(keys).plus(joystick_direction(samples)).plus(touch)
}

/// The direction of a frame's intent: the sum of all contributions brought
/// to unit length, or zero where the sum is zero.
pub open spec fn intent_direction(keys: KeyState, samples: Seq<AxisSample>, touch: Vector) -> Vector {
    input_sum(keys, samples, touch).unit()
}

/// What the held direction keys contribute.
pub fn key_contribution(keys: &KeyState) -> (sum: Vec3)
    ensures
        sum@ == key_direction(*keys),
{
    let mut x: i64 = 0;
    let mut z: i64 = 0;
    if keys.up {
        z = z - UNIT;
    }
    if keys.down {
        z = z + UNIT;
    }
    if keys.left {
        x = x - UNIT;
    }
    if keys.right {
        x = x + UNIT;
    }
    Vec3 { x, y: 0, z }
}

/// What one joystick sample contributes.
pub fn axis_contribution(sample: &AxisSample) -> (step: Vec3)
    ensures
        step@ == axis_direction(*sample),
{
    Vec3 { x: sample.x as i64, y: 0, z: -(sample.y as i64) }
}

/// The sum of the first `n` samples stays within `n` full throws.
proof fn lemma_joystick_bound(samples: Seq<AxisSample>)
    ensures
        joystick_direction(samples).within(AXIS_RANGE * samples.len()),
        joystick_direction(samples).y == 0,
    decreases samples.len(),
{
    if samples.len() > 0 {
        lemma_joystick_bound(samples.drop_last());
    }
}

/// What all the joystick samples of a frame contribute: their sum.
pub fn joystick_contribution(samples: &Vec<AxisSample>) -> (sum: Vec3)
    requires
        samples.len() <= MAX_SAMPLES,
    ensures
        sum@ == joystick_direction(samples@),
        sum@.within(AXIS_RANGE * samples.len()),
{
    let mut sum: Vec3 = Vec3::zero();
    let mut i: usize = 0;
    while i < samples.len()
        invariant
            i <= samples.len() <= MAX_SAMPLES,
            sum@ == joystick_direction(samples@.take(i as int)),
        decreases samples.len() - i,
    {
        proof {
            lemma_joystick_bound(samples@.take(i as int));
            assert(samples@.take(i + 1).drop_last() =~= samples@.take(i as int));
        }
        let step: Vec3 = axis_contribution(&samples[i]);
        sum = Vec3 { x: sum.x + step.x, y: 0, z: sum.z + step.z };
        i = i + 1;
    }
    proof {
        assert(samples@.take(i as int) =~= samples@);
        lemma_joystick_bound(samples@);
    }
    sum
}

/// What one touch point contributes, by the quarter of the screen it lies in.
pub fn touch_contribution(point: &TouchPoint, screen: &Screen) -> (step: Vec3)
    ensures
        step@ == touch_direction(*point, *screen),
{
    let x: i64 = if 2 * (point.x as u64) < screen.width as u64 {
        -UNIT
    } else {
        UNIT
    };
    let z: i64 = if 2 * (point.y as u64) < screen.height as u64 {
        -UNIT
    } else {
        UNIT
    };
    Vec3 { x, y: 0, z }
}

/// The sum of `n` touch directions stays within `n` units.
proof fn lemma_touches_bound(points: Seq<TouchPoint>, screen: Screen)
    ensures
        touches_direction(points, screen).within(UNIT * points.len()),
        touches_direction(points, screen).y == 0,
    decreases points.len(),
{
    if points.len() > 0 {
        lemma_touches_bound(points.drop_last(), screen);
    }
}

/// What all the touch points of a frame contribute: their sum.
pub fn touches_contribution(points: &Vec<TouchPoint>, screen: &Screen) -> (sum: Vec3)
    requires
        points.len() <= MAX_SAMPLES,
    ensures
        sum@ == touches_direction(points@, *screen),
        sum@.within(UNIT * points.len()),
{
    let mut sum: Vec3 = Vec3::zero();
    let mut i: usize = 0;
    while i < points.len()
        invariant
            i <= points.len() <= MAX_SAMPLES,
            sum@ == touches_direction(points@.take(i as int), *screen),
        decreases points.len() - i,
    {
        proof {
            lemma_touches_bound(points@.take(i as int), *screen);
            assert(points@.take(i + 1).drop_last() =~= points@.take(i as int));
        }
        let step: Vec3 = touch_contribution(&points[i], screen);
        sum = Vec3 { x: sum.x + step.x, y: 0, z: sum.z + step.z };
        i = i + 1;
    }
    proof {
        assert(points@.take(i as int) =~= points@);
        lemma_touches_bound(points@, *screen);
    }
    sum
}

/// The intent of a frame with keys, joystick and touch screen: the sum of
/// all contributions, brought to unit length, and the jump key's level.
pub fn aggregate_with_touch(
    keys: &KeyState,
    samples: &Vec<AxisSample>,
    points: &Vec<TouchPoint>,
    screen: &Screen,
) -> (intent: MotionIntent)
    requires
        samples.len() <= MAX_SAMPLES,
        points.len() <= MAX_SAMPLES,
    ensures
        intent.sum@ == input_sum(*keys, samples@, touches_direction(points@, *screen)),
        intent.direction@ == intent_direction(
            *keys,
            samples@,
            touches_direction(points@, *screen),
        ),
        intent.jump_requested == keys.jump,
        intent.wf(),
{
    let from_keys: Vec3 = key_contribution(keys);
    let from_joystick: Vec3 = joystick_contribution(samples);
    let from_touches: Vec3 = touches_contribution(points, screen);
    let total: Vec3 = Vec3 {
        x: from_keys.x + from_joystick.x + from_touches.x,
        y: 0,
        z: from_keys.z + from_joystick.z + from_touches.z,
    };
    proof {
        lemma_joystick_bound(samples@);
        lemma_touches_bound(points@, *screen);
    }
    MotionIntent { sum: total, direction: total.normalize_or_zero(), jump_requested: keys.jump }
}

/// The intent of a frame with keys and joystick alone.
pub fn aggregate(keys: &KeyState, samples: &Vec<AxisSample>) -> (intent: MotionIntent)
    requires
        samples.len() <= MAX_SAMPLES,
    ensures
        intent.sum@ == input_sum(*keys, samples@, Vector::zero()),
        intent.direction@ == intent_direction(*keys, samples@, Vector::zero()),
        intent.jump_requested == keys.jump,
        intent.wf(),
{
    let untouched: Vec<TouchPoint> = Vec::new();
    aggregate_with_touch(keys, samples, &untouched, &Screen { width: 0, height: 0 })
}

/// What a pair of opposite keys asks for on its axis: -1, 0 or 1.
pub open spec fn key_axis(negative: bool, positive: bool) -> int {
    (if positive {
        1int
    } else {
        0int
    }) - (if negative {
        1int
    } else {
        0int
    })
}

/// Of a diagonal of two axes brought to the length `k`, each component:
/// `k` divided by the square root of two, rounded toward zero.
pub open spec fn diagonal_of(k: int) -> int {
    resized_component(1, 2, k)
}

/// What a key axis `h` becomes in a vector of the keys brought to the
/// length `k`: `k` where it is the only axis, the diagonal's share beside a
/// second one, nothing where it is not held.
proof fn lemma_key_component(h: int, both: bool, k: int)
    requires
        -1 <= h <= 1,
        both ==> h != 0,
        k >= 0,
    ensures
        resized_component(
            UNIT * h,
            if both {
                2 * (UNIT * UNIT)
            } else {
                UNIT * UNIT
            },
            k,
        ) == (if both {
            diagonal_of(k) * h
        } else {
            k * h
        }),
        0 <= diagonal_of(k) <= k,
        2 * (diagonal_of(k) * diagonal_of(k)) <= k * k < 2 * ((diagonal_of(k) + 1) * (diagonal_of(k)
            + 1)),
{
    lemma_resized_component_exists(1, 2, k);
    let d = diagonal_of(k);
    let c = UNIT * h;
    let n: int = if both {
        2_000_000_000_000
    } else {
        1_000_000_000_000
    };
    let r = if both {
        d * h
    } else {
        k * h
    };
    let m = magnitude(r);
    let kk = k * k;
    assert((d * d) * 2 <= kk * (1 * 1) && kk * (1 * 1) < ((d + 1) * (d + 1)) * 2 && d >= 0);
    assert(kk * (c * c) == (if h == 0 {
        0int
    } else {
        kk * 1_000_000_000_000
    })) by (nonlinear_arith)
        requires
            c == 1_000_000 * h,
            -1 <= h <= 1,
    ;
    assert(m == (if h == 0 {
        0int
    } else if both {
        d
    } else {
        k
    }) && r * r == m * m) by (nonlinear_arith)
        requires
            -1 <= h <= 1,
            d >= 0,
            k >= 0,
            r == (if both {
                d * h
            } else {
                k * h
            }),
            m == (if r < 0 {
                -r
            } else {
                r
            }),
    ;
    assert((r * r) * n <= kk * (c * c) && kk * (c * c) < ((m + 1) * (m + 1)) * n)
        by (nonlinear_arith)
        requires
            r * r == m * m,
            m == (if h == 0 {
                0int
            } else if both {
                d
            } else {
                k
            }),
            both ==> h != 0,
            kk * (c * c) == (if h == 0 {
                0int
            } else {
                kk * 1_000_000_000_000
            }),
            n == (if both {
                2_000_000_000_000int
            } else {
                1_000_000_000_000int
            }),
            (d * d) * 2 <= kk,
            kk < ((d + 1) * (d + 1)) * 2,
            kk == k * k,
            k >= 0,
            d >= 0,
    ;
    assert((c >= 0 ==> r >= 0) && (c <= 0 ==> r <= 0)) by (nonlinear_arith)
        requires
            c == 1_000_000 * h,
            -1 <= h <= 1,
            d >= 0,
            k >= 0,
            r == (if both {
                d * h
            } else {
                k * h
            }),
    ;
    lemma_resized_component_unique(c, n, k, r);
}

/// With the keys alone, the sum brought to any length `k` is the
/// normalized sum of what each held key contributes: opposite keys cancel,
/// one axis gives the full length along it, and two axes give the
/// diagonal's share on each, not the full length on each. At unit length
/// that share is `DIAGONAL`.
pub proof fn law_key_intent_is_normalized_sum(keys: KeyState, k: int)
    requires
        k >= 0,
    ensures
        input_sum(keys, Seq::empty(), Vector::zero()) == key_direction(keys),
        intent_direction(keys, Seq::empty(), Vector::zero()) == key_direction(keys).resized(
            UNIT as int,
        ),
        key_direction(keys) == (Vector {
            x: UNIT * key_axis(keys.left, keys.right),
            y: 0,
            z: UNIT * key_axis(keys.up, keys.down),
        }),
        key_direction(keys).resized(k) == (if key_axis(keys.left, keys.right) != 0 && key_axis(
            keys.up,
            keys.down,
        ) != 0 {
            Vector {
                x: diagonal_of(k) * key_axis(keys.left, keys.right),
                y: 0,
                z: diagonal_of(k) * key_axis(keys.up, keys.down),
            }
        } else {
            Vector {
                x: k * key_axis(keys.left, keys.right),
                y: 0,
                z: k * key_axis(keys.up, keys.down),
            }
        }),
        2 * (diagonal_of(k) * diagonal_of(k)) <= k * k < 2 * ((diagonal_of(k) + 1) * (diagonal_of(k)
            + 1)),
        diagonal_of(UNIT as int) == DIAGONAL,
        diagonal_of(10 * UNIT) == 7_071_067,
{
    let sum = key_direction(keys);
    let n = sum.norm2();
    assert(sum.plus(joystick_direction(Seq::empty())).plus(Vector::zero()) == sum);
    let (h, v) = (key_axis(keys.left, keys.right), key_axis(keys.up, keys.down));
    assert(n == (if h != 0 {
        1_000_000_000_000int
    } else {
        0int
    }) + (if v != 0 {
        1_000_000_000_000int
    } else {
        0int
    })) by (nonlinear_arith)
        requires
            n == sum.x * sum.x + sum.y * sum.y + sum.z * sum.z,
            sum.x == 1_000_000 * h,
            sum.y == 0,
            sum.z == 1_000_000 * v,
            -1 <= h <= 1,
            -1 <= v <= 1,
    ;
    let both = h != 0 && v != 0;
    assert(k * 0 == 0 && diagonal_of(k) * 0 == 0) by (nonlinear_arith);
    if both {
        lemma_key_component(h, true, k);
        lemma_key_component(v, true, k);
        lemma_zero_component(n, k);
    } else if h != 0 || v != 0 {
        lemma_key_component(h, false, k);
        lemma_key_component(v, false, k);
        lemma_zero_component(n, k);
    }
    lemma_key_component(0, false, k);
    lemma_diagonal_value(1_000_000, 707_106);
    lemma_diagonal_value(10_000_000, 7_071_067);
}

/// `d` is the diagonal's share of the length `k`.
proof fn lemma_diagonal_value(k: int, d: int)
    requires
        0 <= d,
        2 * (d * d) <= k * k < 2 * ((d + 1) * (d + 1)),
    ensures
        diagonal_of(k) == d,
{
    assert((d * d) * 2 <= (k * k) * (1 * 1) && (k * k) * (1 * 1) < ((d + 1) * (d + 1)) * 2)
        by (nonlinear_arith)
        requires
            2 * (d * d) <= k * k < 2 * ((d + 1) * (d + 1)),
    ;
    lemma_resized_component_unique(1, 2, k, d);
}

/// With no key held, no joystick sample and no touch, the direction is
/// exactly the zero vector.
pub proof fn law_no_input_is_zero(keys: KeyState, screen: Screen)
    requires
        !keys.up && !keys.down && !keys.left && !keys.right,
    ensures
        intent_direction(keys, Seq::empty(), Vector::zero()) == Vector::zero(),
        intent_direction(keys, Seq::empty(), touches_direction(Seq::empty(), screen))
            == Vector::zero(),
{
    let sum = input_sum(keys, Seq::empty(), Vector::zero());
    assert(sum == Vector::zero());
    assert(sum.norm2() == 0);
}

/// Joystick samples accumulate: what two runs of samples contribute one
/// after the other is the sum of what each contributes, so no sample
/// replaces an earlier one.
pub proof fn law_joystick_samples_accumulate(first: Seq<AxisSample>, second: Seq<AxisSample>)
    ensures
        joystick_direction(first + second) == joystick_direction(first).plus(
            joystick_direction(second),
        ),
    decreases second.len(),
{
    if second.len() == 0 {
        assert(first + second =~= first);
    } else {
        law_joystick_samples_accumulate(first, second.drop_last());
        assert((first + second).drop_last() =~= first + second.drop_last());
    }
}

} // verus!
