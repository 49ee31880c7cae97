use platformer_core::camera::{
    frame_blend_factor, update_camera, CameraConfig, CameraFollowState, CameraPose, CameraUpdate,
};
use platformer_core::locomotion::ActorId;
use platformer_core::vector::Vec3;

fn dist2(a: Vec3, b: Vec3) -> i128 {
    let d: [i128; 3] = [(a.x - b.x) as i128, (a.y - b.y) as i128, (a.z - b.z) as i128];
    d[0] * d[0] + d[1] * d[1] + d[2] * d[2]
}

#[test]
fn default_camera_config() {
    let config: CameraConfig = CameraConfig::default();
    assert_eq!(
        config,
        CameraConfig {
            offset: Vec3::new(0, 2_500_000, 8_000_000),
            look_at_offset: Vec3::new(0, 1_500_000, 0),
            smoothness: 5_000_000,
            clamp_blend: true,
        }
    );
}

#[test]
fn state_starts_at_the_origin() {
    assert_eq!(CameraFollowState::new(), CameraFollowState { position: Vec3::zero() });
}

#[test]
fn blend_factor_is_smoothness_times_elapsed_time() {
    let config: CameraConfig = CameraConfig::default();
    assert_eq!(frame_blend_factor(&config, 0), 0);
    assert_eq!(frame_blend_factor(&config, 1), 5_000_000);
    assert_eq!(frame_blend_factor(&config, 4_167), 20_835_000_000);
    assert_eq!(frame_blend_factor(&config, 16_667), 83_335_000_000);
    assert_eq!(frame_blend_factor(&config, 100_000), 500_000_000_000);
    assert_eq!(frame_blend_factor(&config, 200_000), 1_000_000_000_000);
}

#[test]
fn blend_factor_is_held_to_one_when_clamped() {
    let config: CameraConfig = CameraConfig::default();
    assert_eq!(frame_blend_factor(&config, 200_001), 1_000_000_000_000);
    assert_eq!(frame_blend_factor(&config, u32::MAX), 1_000_000_000_000);
    let fast: CameraConfig = CameraConfig { smoothness: u32::MAX, ..config };
    assert_eq!(frame_blend_factor(&fast, u32::MAX), 1_000_000_000_000);
}

#[test]
fn blend_factor_is_as_computed_when_not_clamped() {
    let config: CameraConfig = CameraConfig { clamp_blend: false, ..CameraConfig::default() };
    assert_eq!(frame_blend_factor(&config, 200_000), 1_000_000_000_000);
    assert_eq!(frame_blend_factor(&config, 200_001), 1_000_005_000_000);
    assert_eq!(frame_blend_factor(&config, 400_000), 2_000_000_000_000);
    let fast: CameraConfig = CameraConfig { smoothness: u32::MAX, ..config };
    assert_eq!(frame_blend_factor(&fast, u32::MAX), 18_446_744_065_119_617_025);
}

#[test]
fn first_frame_from_the_origin() {
    let config: CameraConfig = CameraConfig::default();
    let mut state: CameraFollowState = CameraFollowState::new();
    let update: Option<CameraUpdate> =
        update_camera(Some(Vec3::zero()), Some(ActorId(5)), 100_000, &mut state, &config);
    assert_eq!(state.position, Vec3::new(0, 1_250_000, 4_000_000));
    assert_eq!(
        update,
        Some(CameraUpdate {
            camera: ActorId(5),
            pose: CameraPose {
                position: Vec3::new(0, 1_250_000, 4_000_000),
                look_at: Vec3::new(0, 1_500_000, 0),
                up: Vec3::new(0, 1_000_000, 0),
            },
        })
    );
}

#[test]
fn camera_looks_at_the_player_plus_the_look_at_offset() {
    let config: CameraConfig = CameraConfig::default();
    let mut state: CameraFollowState = CameraFollowState::new();
    let player: Vec3 = Vec3::new(3_000_000, 800_000, -2_000_000);
    let update: CameraUpdate =
        update_camera(Some(player), Some(ActorId(5)), 100_000, &mut state, &config).unwrap();
    assert_eq!(update.pose.look_at, Vec3::new(3_000_000, 2_300_000, -2_000_000));
    assert_eq!(update.pose.up, Vec3::new(0, 1_000_000, 0));
    assert_eq!(update.pose.position, state.position);
    assert_eq!(state.position, Vec3::new(1_500_000, 1_650_000, 3_000_000));
}

#[test]
fn a_frame_at_sixty_and_at_two_hundred_and_forty_a_second() {
    let config: CameraConfig = CameraConfig::default();
    let mut slow: CameraFollowState = CameraFollowState::new();
    update_camera(Some(Vec3::zero()), Some(ActorId(5)), 16_667, &mut slow, &config);
    assert_eq!(slow.position, Vec3::new(0, 208_338, 666_680));
    let mut fast: CameraFollowState = CameraFollowState::new();
    update_camera(Some(Vec3::zero()), Some(ActorId(5)), 4_167, &mut fast, &config);
    assert_eq!(fast.position, Vec3::new(0, 52_088, 166_680));
}

#[test]
fn no_player_leaves_the_camera_alone() {
    let config: CameraConfig = CameraConfig::default();
    let mut state: CameraFollowState = CameraFollowState { position: Vec3::new(1, 2, 3) };
    assert_eq!(update_camera(None, Some(ActorId(5)), 100_000, &mut state, &config), None);
    assert_eq!(state.position, Vec3::new(1, 2, 3));
}

#[test]
fn no_camera_leaves_the_state_alone() {
    let config: CameraConfig = CameraConfig::default();
    let mut state: CameraFollowState = CameraFollowState { position: Vec3::new(1, 2, 3) };
    assert_eq!(update_camera(Some(Vec3::zero()), None, 100_000, &mut state, &config), None);
    assert_eq!(update_camera(None, None, 100_000, &mut state, &config), None);
    assert_eq!(state.position, Vec3::new(1, 2, 3));
}

#[test]
fn camera_at_its_target_stays_there() {
    for clamp_blend in [true, false] {
        let config: CameraConfig = CameraConfig { clamp_blend, ..CameraConfig::default() };
        let player: Vec3 = Vec3::new(100, 200, 300);
        let target: Vec3 = player.saturating_plus(config.offset);
        let mut state: CameraFollowState = CameraFollowState { position: target };
        for dt in [0u32, 1, 16_667, 100_000, 200_000, 5_000_000, u32::MAX] {
            update_camera(Some(player), Some(ActorId(5)), dt, &mut state, &config);
            assert_eq!(state.position, target);
        }
    }
}

#[test]
fn a_frame_of_no_length_moves_nothing() {
    let config: CameraConfig = CameraConfig::default();
    let mut state: CameraFollowState = CameraFollowState::new();
    update_camera(Some(Vec3::zero()), Some(ActorId(5)), 0, &mut state, &config);
    assert_eq!(state.position, Vec3::zero());
}

#[test]
fn every_frame_brings_the_camera_nearer_and_never_past() {
    let config: CameraConfig = CameraConfig::default();
    let player: Vec3 = Vec3::new(-40_000_000, 1_000_000, 25_000_000);
    let target: Vec3 = player.saturating_plus(config.offset);
    let mut state: CameraFollowState = CameraFollowState::new();
    let mut frames: u32 = 0;
    while state.position != target {
        let before: Vec3 = state.position;
        update_camera(Some(player), Some(ActorId(5)), 16_667, &mut state, &config);
        let after: Vec3 = state.position;
        assert!(dist2(after, target) < dist2(before, target));
        assert!(before.x >= after.x && after.x >= target.x);
        assert!(before.y <= after.y && after.y <= target.y);
        assert!(before.z <= after.z && after.z <= target.z);
        frames += 1;
        assert!(frames < 1_000);
    }
}

#[test]
fn what_is_left_of_the_way_is_the_part_one_minus_factor() {
    let config: CameraConfig = CameraConfig::default();
    let player: Vec3 = Vec3::new(-40_000_000, 1_000_000, 25_000_000);
    let target: Vec3 = player.saturating_plus(config.offset);
    let mut state: CameraFollowState = CameraFollowState::new();
    update_camera(Some(player), Some(ActorId(5)), 16_667, &mut state, &config);
    let left: Vec3 = Vec3::new(
        target.x - state.position.x,
        target.y - state.position.y,
        target.z - state.position.z,
    );
    assert_eq!(left, Vec3::new(-36_666_600, 3_208_327, 30_249_945));
    assert_eq!(left.x, -((40_000_000i128 * (1_000_000_000_000 - 83_335_000_000) / 1_000_000_000_000) as i64));
    assert_eq!(left.z, (33_000_000i128 * (1_000_000_000_000 - 83_335_000_000) / 1_000_000_000_000) as i64);
}

#[test]
fn a_step_is_rounded_away_from_zero() {
    let config: CameraConfig = CameraConfig { smoothness: 1, ..CameraConfig::default() };
    let player: Vec3 = Vec3::new(3, -2_500_000, -8_000_000);
    let mut state: CameraFollowState = CameraFollowState { position: Vec3::new(0, 7, -7) };
    update_camera(Some(player), Some(ActorId(5)), 1, &mut state, &config);
    assert_eq!(state.position, Vec3::new(1, 6, -6));
    let mut exact: CameraFollowState = CameraFollowState { position: Vec3::new(0, 0, 0) };
    let quarter: CameraConfig = CameraConfig { smoothness: 2_500_000, ..CameraConfig::default() };
    update_camera(
        Some(Vec3::new(5, -2_500_000, -8_000_000)),
        Some(ActorId(5)),
        100_000,
        &mut exact,
        &quarter,
    );
    assert_eq!(exact.position, Vec3::new(2, 0, 0));
}

#[test]
fn a_long_frame_lands_on_the_target_when_clamped() {
    let config: CameraConfig = CameraConfig::default();
    let mut state: CameraFollowState = CameraFollowState::new();
    update_camera(Some(Vec3::zero()), Some(ActorId(5)), 400_000, &mut state, &config);
    assert_eq!(state.position, Vec3::new(0, 2_500_000, 8_000_000));
    let mut second: CameraFollowState = CameraFollowState::new();
    update_camera(Some(Vec3::zero()), Some(ActorId(5)), 1_000_000, &mut second, &config);
    assert_eq!(second.position, Vec3::new(0, 2_500_000, 8_000_000));
}

#[test]
fn a_long_frame_overshoots_when_not_clamped() {
    let config: CameraConfig = CameraConfig { clamp_blend: false, ..CameraConfig::default() };
    let mut state: CameraFollowState = CameraFollowState::new();
    update_camera(Some(Vec3::zero()), Some(ActorId(5)), 400_000, &mut state, &config);
    assert_eq!(state.position, Vec3::new(0, 5_000_000, 16_000_000));
}

#[test]
fn a_very_long_frame_overshoots_by_the_whole_factor() {
    let config: CameraConfig = CameraConfig {
        clamp_blend: false,
        smoothness: u32::MAX,
        ..CameraConfig::default()
    };
    let mut state: CameraFollowState = CameraFollowState::new();
    update_camera(
        Some(Vec3::new(-1, -2_500_000, -7_999_999)),
        Some(ActorId(5)),
        u32::MAX,
        &mut state,
        &config,
    );
    assert_eq!(state.position, Vec3::new(-18_446_745, 0, 18_446_745));
    let mut far: CameraFollowState = CameraFollowState::new();
    update_camera(
        Some(Vec3::new(-3_000, -2_499_999, -8_000_000)),
        Some(ActorId(5)),
        u32::MAX,
        &mut far,
        &config,
    );
    assert_eq!(far.position, Vec3::new(-55_340_232_196, 18_446_745, 0));
}

#[test]
fn an_overshoot_ends_at_the_last_number_of_the_machine() {
    let config: CameraConfig = CameraConfig {
        clamp_blend: false,
        smoothness: u32::MAX,
        ..CameraConfig::default()
    };
    let mut state: CameraFollowState = CameraFollowState::new();
    let player: Vec3 = Vec3::new(-1_000_000_000_000_000, 1_000_000_000_000_000, 0);
    update_camera(Some(player), Some(ActorId(5)), u32::MAX, &mut state, &config);
    assert_eq!(state.position, Vec3::new(i64::MIN, i64::MAX, 147_573_952_520_957));
}

#[test]
fn camera_heads_for_the_last_number_where_the_target_lies_beyond() {
    let config: CameraConfig = CameraConfig {
        offset: Vec3::new(i64::MAX, i64::MIN, -5),
        look_at_offset: Vec3::new(i64::MIN, i64::MIN, 1),
        smoothness: 5_000_000,
        clamp_blend: true,
    };
    let mut state: CameraFollowState = CameraFollowState {
        position: Vec3::new(i64::MIN, i64::MAX, i64::MIN),
    };
    let player: Vec3 = Vec3::new(i64::MAX, i64::MIN, i64::MAX);
    let update: CameraUpdate =
        update_camera(Some(player), Some(ActorId(5)), 200_000, &mut state, &config).unwrap();
    assert_eq!(state.position, Vec3::new(i64::MAX, i64::MIN, i64::MAX - 5));
    assert_eq!(update.pose.look_at, Vec3::new(-1, i64::MIN, i64::MAX));
    let mut halfway: CameraFollowState = CameraFollowState {
        position: Vec3::new(i64::MIN, i64::MAX, i64::MIN),
    };
    update_camera(Some(player), Some(ActorId(5)), 100_000, &mut halfway, &config);
    assert_eq!(halfway.position, Vec3::new(0, -1, -3));
}
