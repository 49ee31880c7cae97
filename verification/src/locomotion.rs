//! The locomotion controller: from a frame's intent to the command that the
//! physics engine is given for the player's actor.

use vstd::prelude::*;
use bevy::input::ButtonInput;
use bevy::input::keyboard::KeyCode;
use crate::input::{
    AxisSample, KeyState, MotionIntent, MAX_SAMPLES, aggregate, diagonal_of, input_sum, key_axis,
    law_key_intent_is_normalized_sum,
};
use crate::keyboard::{held_keys, key_state_of, read_keys};
use crate::vector::{
    Vec3, Vector, is_resized_component, law_resized_length, lemma_zero_component,
};

verus! {

/// The handle of an actor of the scene.
#[derive(Clone, Copy, Debug, PartialEq, Eq, Structural)]
pub struct ActorId(pub u64);

/// The one actor among the candidates, where there is exactly one.
pub open spec fn unique_of(candidates: Seq<ActorId>) -> Option<ActorId> {
    if candidates.len() == 1 {
        Some(candidates[0])
    } else {
        None
    }
}

/// Resolves an actor that is expected to be the only one of its kind: none
/// and more than one both give `None`, and the frame goes on without it.
pub fn resolve_unique(candidates: &Vec<ActorId>) -> (found: Option<ActorId>)
    ensures
        found == unique_of(candidates@),
{
    if candidates.len() == 1 {
        Some(candidates[0])
    } else {
        None
    }
}

/// The constants of the controller, in ticks.
#[derive(Clone, Copy, Debug, PartialEq, Eq, Structural)]
pub struct LocomotionConfig {
    /// Speed at full throw, per second.
    pub max_speed: u32,
    /// Height at which the actor's centre floats above the ground. It must be
    /// more than the distance from that centre to the collider's lowest point.
    pub float_height: u32,
    /// Height of a jump.
    pub jump_height: u32,
}

impl Default for LocomotionConfig {
    /// Ten units a second, floating at 0.4 units, jumping 4 units high.
    fn default() -> (config: LocomotionConfig)
        ensures
            config == (LocomotionConfig {
                max_speed: 10_000_000,
                float_height: 400_000,
                jump_height: 4_000_000,
            }),
    {
        LocomotionConfig { max_speed: 10_000_000, float_height: 400_000, jump_height: 4_000_000 }
    }
}

/// What the physics engine is told for one frame.
#[derive(Clone, Copy, Debug, PartialEq, Eq, Structural)]
pub struct LocomotionCommand {
    /// The velocity to aim for, in ticks per second.
    pub desired_velocity: Vec3,
    /// The height to float at, as configured.
    pub float_height: u32,
    /// The height to jump to; `None` in a frame that asks for no jump.
    pub jump_height: Option<u32>,
}

/// A command together with the actor it is for.
#[derive(Clone, Copy, Debug, PartialEq, Eq, Structural)]
pub struct ActorCommand {
    pub actor: ActorId,
    pub command: LocomotionCommand,
}

/// `command` is what `config` makes of a frame whose contributions add up
/// to `sum`: the velocity has the direction of the sum and the length of the
/// top speed, each component rounded toward zero once, so that it is within
/// a tick of `max_speed * c / |sum|`; it is zero where the sum is. The
/// float height is as configured, and there is a jump to the configured
/// height exactly when one is asked for.
pub open spec fn is_command_for(
    command: LocomotionCommand,
    sum: Vector,
    jump_requested: bool,
    config: LocomotionConfig,
) -> bool {
    &&& command.desired_velocity@ == sum.resized(config.max_speed as int)
    &&& command.float_height == config.float_height
    &&& command.jump_height == (if jump_requested {
        Some(config.jump_height)
    } else {
        None
    })
}

/// The command for one intent.
pub fn command_for(intent: &MotionIntent, config: &LocomotionConfig) -> (command: LocomotionCommand)
    ensures
        is_command_for(command, intent.sum@, intent.jump_requested, *config),
{
    LocomotionCommand {
        desired_velocity: intent.sum.resized(config.max_speed),
        float_height: config.float_height,
        jump_height: if intent.jump_requested {
            Some(config.jump_height)
        } else {
            None
        },
    }
}

/// One frame of the controller. With a player it reads the keys, gives the
/// command for the frame's input and names the player as the one to give it
/// to; without a player it gives nothing, and nothing is to be issued.
pub fn apply_controls(
    player: Option<ActorId>,
    keyboard: &ButtonInput<KeyCode>,
    samples: &Vec<AxisSample>,
    config: &LocomotionConfig,
) -> (issued: Option<ActorCommand>)
    requires
        samples.len() <= MAX_SAMPLES,
    ensures
        match player {
            Some(actor) => issued matches Some(out) && out.actor == actor && is_command_for(
                out.command,
                input_sum(key_state_of(held_keys(*keyboard)), samples@, Vector::zero()),
                key_state_of(held_keys(*keyboard)).jump,
                *config,
            ),
            None => issued is None,
        },
{
    match player {
        None => None,
        Some(actor) => {
            let keys: KeyState = read_keys(keyboard);
            let intent: MotionIntent = aggregate(&keys, samples);
            Some(ActorCommand { actor, command: command_for(&intent, config) })
        },
    }
}

/// The commanded velocity has the direction of the summed input and the
/// length of the top speed: it is zero exactly where the sum is, has no
/// vertical part where the sum has none, and otherwise is no longer than
/// `max_speed`, less than two ticks shorter, and on each axis within a tick
/// of `max_speed * c / |sum|`.
pub proof fn law_velocity_has_top_speed(command: LocomotionCommand, sum: Vector, jump: bool, config: LocomotionConfig)
    requires
        is_command_for(command, sum, jump, config),
    ensures
        sum.norm2() == 0 ==> command.desired_velocity@ == Vector::zero(),
        sum.norm2() > 0 ==> {
            &&& command.desired_velocity@.norm2() <= config.max_speed * config.max_speed
            &&& config.max_speed >= 2 ==> (config.max_speed - 2) * (config.max_speed - 2)
                < command.desired_velocity@.norm2()
            &&& is_resized_component(
                sum.x,
                sum.norm2(),
                config.max_speed as int,
                command.desired_velocity.x as int,
            )
            &&& is_resized_component(
                sum.y,
                sum.norm2(),
                config.max_speed as int,
                command.desired_velocity.y as int,
            )
            &&& is_resized_component(
                sum.z,
                sum.norm2(),
                config.max_speed as int,
                command.desired_velocity.z as int,
            )
        },
        sum.y == 0 ==> command.desired_velocity.y == 0,
{
    assert(sum.norm2() >= 0) by (nonlinear_arith)
        requires
            sum.norm2() == sum.x * sum.x + sum.y * sum.y + sum.z * sum.z,
    ;
    if sum.norm2() > 0 {
        law_resized_length(sum, config.max_speed as int);
        lemma_zero_component(sum.norm2(), config.max_speed as int);
    }
}

/// With the keys alone and no joystick sample, the commanded velocity is
/// the top speed along the one axis that is held, the diagonal's share of
/// it on each of two, and nothing where the keys cancel. At ten units a
/// second the share is 7.071067 units.
pub proof fn law_key_velocity(
    command: LocomotionCommand,
    keys: KeyState,
    config: LocomotionConfig,
)
    requires
        is_command_for(command, input_sum(keys, Seq::empty(), Vector::zero()), keys.jump, config),
    ensures
        command.desired_velocity@ == (if key_axis(keys.left, keys.right) != 0 && key_axis(
            keys.up,
            keys.down,
        ) != 0 {
            Vector {
                x: diagonal_of(config.max_speed as int) * key_axis(keys.left, keys.right),
                y: 0,
                z: diagonal_of(config.max_speed as int) * key_axis(keys.up, keys.down),
            }
        } else {
            Vector {
                x: config.max_speed * key_axis(keys.left, keys.right),
                y: 0,
                z: config.max_speed * key_axis(keys.up, keys.down),
            }
        }),
        2 * (diagonal_of(config.max_speed as int) * diagonal_of(config.max_speed as int))
            <= config.max_speed * config.max_speed,
        config.max_speed * config.max_speed < 2 * ((diagonal_of(config.max_speed as int) + 1) * (
        diagonal_of(config.max_speed as int) + 1)),
        config.max_speed == 10_000_000 ==> diagonal_of(config.max_speed as int) == 7_071_067,
{
    law_key_intent_is_normalized_sum(keys, config.max_speed as int);
}

} // verus!
