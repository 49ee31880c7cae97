use platformer_core::animation::{
    select_animation, AnimationState, PlayRequest, CLIP_COUNT, IDLE_CLIP, JUMP_CLIP,
};
use bevy::input::keyboard::KeyCode;
use bevy::input::ButtonInput;
use platformer_core::locomotion::{
    apply_controls, ActorCommand, ActorId, LocomotionCommand, LocomotionConfig,
};
use platformer_core::vector::Vec3;

fn issued(jump_height: Option<u32>) -> Option<ActorCommand> {
    Some(ActorCommand {
        actor: ActorId(1),
        command: LocomotionCommand { desired_velocity: Vec3::zero(), float_height: 400_000, jump_height },
    })
}

#[test]
fn clip_indices() {
    assert_eq!(CLIP_COUNT, 8);
    assert_eq!(IDLE_CLIP, 0);
    assert_eq!(JUMP_CLIP, 1);
}

#[test]
fn animation_starts_idle() {
    assert_eq!(AnimationState::new(), AnimationState { current: 0 });
}

#[test]
fn a_jump_asks_for_the_looping_jump_clip() {
    let mut state: AnimationState = AnimationState::new();
    let request: Option<PlayRequest> = select_animation(&mut state, &issued(Some(4_000_000)));
    assert_eq!(request, Some(PlayRequest { clip: 1, looping: true }));
    assert_eq!(state, AnimationState { current: 1 });
}

#[test]
fn a_frame_without_a_jump_asks_for_nothing() {
    let mut state: AnimationState = AnimationState::new();
    assert_eq!(select_animation(&mut state, &issued(None)), None);
    assert_eq!(state, AnimationState { current: 0 });
    let mut playing: AnimationState = AnimationState { current: 5 };
    assert_eq!(select_animation(&mut playing, &issued(None)), None);
    assert_eq!(playing, AnimationState { current: 5 });
}

#[test]
fn a_frame_without_a_command_asks_for_nothing() {
    let mut state: AnimationState = AnimationState { current: 3 };
    assert_eq!(select_animation(&mut state, &None), None);
    assert_eq!(state, AnimationState { current: 3 });
}

#[test]
fn holding_the_jump_repeats_the_same_request() {
    let mut state: AnimationState = AnimationState::new();
    let first: Option<PlayRequest> = select_animation(&mut state, &issued(Some(4_000_000)));
    let after_first: AnimationState = state;
    let second: Option<PlayRequest> = select_animation(&mut state, &issued(Some(4_000_000)));
    assert_eq!(first, second);
    assert_eq!(state, after_first);
}

#[test]
fn no_rule_brings_the_idle_clip_back() {
    let mut state: AnimationState = AnimationState::new();
    select_animation(&mut state, &issued(Some(4_000_000)));
    assert_eq!(select_animation(&mut state, &issued(None)), None);
    assert_eq!(state, AnimationState { current: 1 });
}

#[test]
fn the_selector_reads_what_the_controller_issued() {
    let config: LocomotionConfig = LocomotionConfig::default();
    let mut jumping: ButtonInput<KeyCode> = ButtonInput::default();
    jumping.press(KeyCode::Space);
    let mut state: AnimationState = AnimationState::new();
    let with_player: Option<ActorCommand> = apply_controls(Some(ActorId(1)), &jumping, &Vec::new(), &config);
    assert_eq!(
        select_animation(&mut state, &with_player),
        Some(PlayRequest { clip: JUMP_CLIP, looping: true })
    );
    let mut untouched: AnimationState = AnimationState::new();
    let without_player: Option<ActorCommand> = apply_controls(None, &jumping, &Vec::new(), &config);
    assert_eq!(select_animation(&mut untouched, &without_player), None);
    assert_eq!(untouched, AnimationState::new());
}
