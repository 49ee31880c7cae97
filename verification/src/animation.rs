//! The animation selector: which clip the engine is asked to play after a
//! frame of the locomotion controller.

use vstd::prelude::*;
use crate::locomotion::ActorCommand;

verus! {

/// The clips of the rig, counted in the order they were loaded.
pub const CLIP_COUNT: usize = 8;

/// The clip that plays from the start.
pub const IDLE_CLIP: usize = 0;

/// The clip of a jump.
pub const JUMP_CLIP: usize = 1;

/// A request to the engine to play one clip of the rig.
#[derive(Clone, Copy, Debug, PartialEq, Eq, Structural)]
pub struct PlayRequest {
    pub clip: usize,
    pub looping: bool,
}

/// The clip that is playing.
#[derive(Clone, Copy, Debug, PartialEq, Eq, Structural)]
pub struct AnimationState {
    pub current: usize,
}

impl AnimationState {
    /// The playing clip is one of the rig's.
    pub open spec fn wf(self) -> bool {
        self.current < CLIP_COUNT
    }

    /// The state at startup, with the idle clip playing.
    pub fn new() -> (state: AnimationState)
        ensures
            state.current == IDLE_CLIP,
            state.wf(),
    {
        AnimationState { current: IDLE_CLIP }
    }
}

/// Whether the controller issued a command in this frame, and with a jump.
pub open spec fn includes_jump(issued: Option<ActorCommand>) -> bool {
    issued matches Some(out) && out.command.jump_height is Some
}

/// The state after a frame and the request that goes with it. A frame with
/// a jump asks for the jump clip, looping, and makes it the playing one. Any
/// other frame asks for nothing and leaves the playing clip as it is: no
/// rule brings the idle clip back.
pub open spec fn transition(state: AnimationState, jump: bool) -> (AnimationState, Option<PlayRequest>) {
    if jump {
        (AnimationState { current: JUMP_CLIP }, Some(PlayRequest { clip: JUMP_CLIP, looping: true }))
    } else {
        (state, None)
    }
}

/// One frame of the selector, given what the locomotion controller issued.
pub fn select_animation(state: &mut AnimationState, issued: &Option<ActorCommand>) -> (request: Option<PlayRequest>)
    ensures
        (*final(state), request) == transition(*old(state), includes_jump(*issued)),
        old(state).wf() ==> final(state).wf(),
        request matches Some(play) ==> play.clip < CLIP_COUNT,
{
    let jump: bool = match issued {
        Some(out) => out.command.jump_height.is_some(),
        None => false,
    };
    if jump {
        state.current = JUMP_CLIP;
        Some(PlayRequest { clip: JUMP_CLIP, looping: true })
    } else {
        None
    }
}

/// While the jump is held the same request is made again each frame, and
/// making it again changes nothing: the state after two such frames is the
/// state after one, and so is the request.
pub proof fn law_replay_is_idempotent(state: AnimationState)
    ensures
        transition(transition(state, true).0, true) == transition(state, true),
{
}

} // verus!
