use raycaster::engine::{Engine, InputEvent};
use raycaster::fixed::Fixed;
use raycaster::game::{Intents, Rotation};
use raycaster::render::RenderError;
use raycaster::texture::{load_textures, TEXTURE_PIXELS};

fn idle() -> Intents {
    Intents { forward: false, backward: false, turn_left: false, turn_right: false }
}

fn engine() -> Engine {
    Engine::new(64, 48, load_textures(&Vec::new())).unwrap()
}

#[test]
fn engine_starts_with_a_new_game() {
    let engine = engine();
    assert_eq!(engine.delta_time, 0);
    assert_eq!(engine.renderer.render_data.width, 64);
    assert_eq!(engine.renderer.render_data.height, 48);
    assert_eq!(engine.renderer.render_context.desired_frame_time, 16_000_000);
    assert_eq!(engine.game_context.world.size, 24);
    assert_eq!(engine.game_context.player.position.x, Fixed::from_int(22));
    assert_eq!(engine.game_context.move_state, idle());
}

#[test]
fn engine_needs_a_full_texture_set() {
    assert_eq!(Engine::new(64, 48, Vec::new()).unwrap_err(), RenderError::BadTextures);
    assert_eq!(Engine::new(64, 48, vec![vec![0; TEXTURE_PIXELS]; 8]).unwrap_err(), RenderError::BadTextures);
}

#[test]
fn target_rate_sets_the_frame_time_in_whole_milliseconds() {
    let mut engine = engine();
    engine.set_target_fps(60);
    assert_eq!(engine.renderer.render_context.desired_frame_time, 16_000_000);
    engine.set_target_fps(30);
    assert_eq!(engine.renderer.render_context.desired_frame_time, 33_000_000);
    engine.set_target_fps(7);
    assert_eq!(engine.renderer.render_context.desired_frame_time, 142_000_000);
    engine.set_target_fps(1);
    assert_eq!(engine.renderer.render_context.desired_frame_time, 1_000_000_000);
    engine.set_target_fps(1000);
    assert_eq!(engine.renderer.render_context.desired_frame_time, 1_000_000);
    engine.set_target_fps(1001);
    assert_eq!(engine.renderer.render_context.desired_frame_time, 0);
    engine.set_target_fps(i32::MAX);
    assert_eq!(engine.renderer.render_context.desired_frame_time, 0);
}

#[test]
fn a_rate_that_is_not_positive_lifts_the_cap() {
    let mut engine = engine();
    engine.set_target_fps(0);
    assert_eq!(engine.renderer.render_context.desired_frame_time, 0);
    engine.set_target_fps(60);
    engine.set_target_fps(-1);
    assert_eq!(engine.renderer.render_context.desired_frame_time, 0);
    engine.set_target_fps(60);
    engine.set_target_fps(i32::MIN);
    assert_eq!(engine.renderer.render_context.desired_frame_time, 0);
    assert_eq!(engine.renderer.render_context.minimap_scale, 6);
}

#[test]
fn a_fast_frame_sleeps_for_the_rest_of_the_frame_time() {
    let mut engine = engine();
    assert_eq!(engine.wait(10_000_000), 6_000_000);
    assert_eq!(engine.delta_time, 16_000_000);
    assert_eq!(engine.wait(16_000_000), 0);
    assert_eq!(engine.delta_time, 16_000_000);
    assert_eq!(engine.wait(0), 16_000_000);
    assert_eq!(engine.delta_time, 16_000_000);
}

#[test]
fn a_slow_frame_does_not_sleep_and_counts_in_full() {
    let mut engine = engine();
    assert_eq!(engine.wait(16_000_001), 0);
    assert_eq!(engine.delta_time, 16_000_001);
    assert_eq!(engine.wait(250_000_000), 0);
    assert_eq!(engine.delta_time, 250_000_000);
    engine.set_target_fps(0);
    assert_eq!(engine.wait(3_000_000), 0);
    assert_eq!(engine.delta_time, 3_000_000);
    assert_eq!(engine.wait(0), 0);
    assert_eq!(engine.delta_time, 0);
}

#[test]
fn a_quit_event_ends_the_loop_before_keys_are_read() {
    let mut engine = engine();
    let held = Intents { forward: true, backward: true, turn_left: true, turn_right: true };
    assert!(engine.handle_events(&vec![InputEvent::Other, InputEvent::Quit], held));
    assert_eq!(engine.game_context.move_state, idle());
    assert!(engine.handle_events(&vec![InputEvent::EscapePressed, InputEvent::Other], held));
    assert_eq!(engine.game_context.move_state, idle());
}

#[test]
fn held_keys_become_intents() {
    let mut engine = engine();
    let held = Intents { forward: true, turn_right: true, ..idle() };
    assert!(!engine.handle_events(&vec![InputEvent::Other, InputEvent::Other], held));
    assert_eq!(engine.game_context.move_state, held);
    assert!(!engine.handle_events(&Vec::new(), Intents { backward: true, ..idle() }));
    assert_eq!(
        engine.game_context.move_state,
        Intents { forward: true, backward: true, turn_left: false, turn_right: true }
    );
    assert!(!engine.handle_events(&Vec::new(), idle()));
    assert_eq!(
        engine.game_context.move_state,
        Intents { forward: true, backward: true, turn_left: false, turn_right: true }
    );
}

#[test]
fn a_frame_ticks_by_the_last_frame_time_and_draws() {
    let mut engine = engine();
    engine.handle_events(&Vec::new(), Intents { forward: true, ..idle() });
    engine.frame(Rotation::identity()).unwrap();
    assert_eq!(engine.game_context.player.position.x, Fixed::from_int(22));
    assert_eq!(engine.game_context.move_state, idle());
    assert_eq!(engine.renderer.render_data.data[0], 0x828282ff);
    assert_eq!(engine.renderer.render_data.data[47 * 64], 0x505050ff);
    assert_eq!(engine.wait(100_000_000), 0);
    engine.handle_events(&Vec::new(), Intents { forward: true, ..idle() });
    engine.frame(Rotation::identity()).unwrap();
    assert_eq!(engine.game_context.player.position.x, Fixed::from_int(21));
    assert_eq!(engine.game_context.player.position.y, Fixed::from_int(12));
    assert_eq!(engine.game_context.move_state, idle());
}

#[test]
fn the_rotation_angle_follows_the_last_frame_time() {
    let mut engine = engine();
    assert_eq!(engine.rotation_angle().raw, 0);
    engine.wait(100_000_000);
    assert_eq!(engine.rotation_angle().raw, 32768);
    engine.wait(1_000_000);
    assert_eq!(engine.rotation_angle().raw, 5242);
}

#[test]
fn blank_textures_draw_transparent_black_walls() {
    let mut engine = engine();
    engine.frame(Rotation::identity()).unwrap();
    let centre = 32usize;
    assert_eq!(engine.renderer.render_data.data[24 * 64 + centre], 0);
    assert_eq!(engine.renderer.render_data.data[centre], 0x828282ff);
}

#[test]
fn validity_is_checked_part_by_part() {
    let mut engine = engine();
    assert!(engine.is_valid());
    assert!(engine.game_context.is_valid());
    assert!(engine.renderer.is_valid());
    engine.renderer.render_data.data.pop();
    assert!(!engine.renderer.render_data.is_valid());
    assert!(!engine.renderer.is_valid());
    assert!(!engine.is_valid());
    engine.renderer.render_data.data.push(0);
    assert!(engine.is_valid());
    engine.renderer.image_textures[2].push(1);
    assert!(!engine.is_valid());
    engine.renderer.image_textures[2].pop();
    engine.game_context.player.camera_plane.x = Fixed { raw: 16 * 65536 + 1 };
    assert!(!engine.game_context.player.is_valid());
    assert!(!engine.is_valid());
    engine.game_context.player.camera_plane.x = Fixed { raw: -16 * 65536 };
    assert!(engine.is_valid());
    engine.game_context.player.position.y = Fixed { raw: i64::MAX };
    assert!(!engine.is_valid());
    engine.game_context.player.position.y = Fixed::from_int(3);
    engine.game_context.world.cells[23][0] = 0;
    assert!(!engine.is_valid());
}
