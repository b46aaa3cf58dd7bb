use raycaster::canvas::PixelBuffer;
use raycaster::fixed::Fixed;
use raycaster::game::GameContext;
use raycaster::render::{texture_x, RenderContext, RenderError, Renderer, DEFAULT_MINIMAP_SIDE, MAX_LINE_HEIGHT};
use raycaster::texture::{N_TEXTURES, TEXTURE_PIXELS};
use raycaster::util::Vector2;
use raycaster::world::World;

const CEILING: u32 = 0x828282ff;
const FLOOR: u32 = 0x505050ff;

fn numbered_textures() -> Vec<Vec<u32>> {
    let mut textures = Vec::new();
    for k in 0..N_TEXTURES {
        let mut texture = Vec::with_capacity(TEXTURE_PIXELS);
        for i in 0..TEXTURE_PIXELS {
            texture.push(((k as u32 + 1) << 28) | ((i as u32) << 8) | 0xff);
        }
        textures.push(texture);
    }
    textures
}

fn texel(k: usize, row: usize, column: usize) -> u32 {
    ((k as u32 + 1) << 28) | (((512 * row + column) as u32) << 8) | 0xff
}

fn dimmed(colour: u32) -> u32 {
    let red = (colour >> 24) / 2;
    let green = ((colour >> 16) & 0xff) / 2;
    let blue = ((colour >> 8) & 0xff) / 2;
    (red << 24) | (green << 16) | (blue << 8) | (colour & 0xff)
}

fn hall_game(x: i64, y: i64, dir: (i64, i64), plane: (i64, i64)) -> GameContext {
    let mut rows = Vec::new();
    for i in 0..24 {
        let mut row = Vec::new();
        for j in 0..24 {
            let edge = i == 0 || j == 0 || i == 23 || j == 23;
            row.push(if edge { 1 } else { 0 });
        }
        rows.push(row);
    }
    let mut game = GameContext::new().unwrap();
    game.world = World::new(24, rows).unwrap();
    game.player.position = Vector2::new(Fixed { raw: x }, Fixed { raw: y });
    game.player.camera_direction = Vector2::new(Fixed { raw: dir.0 }, Fixed { raw: dir.1 });
    game.player.camera_plane = Vector2::new(Fixed { raw: plane.0 }, Fixed { raw: plane.1 });
    game
}

fn view(renderer: &Renderer, x: u32, y: u32) -> u32 {
    renderer.render_data.data[(y * renderer.render_data.width + x) as usize]
}

fn map(renderer: &Renderer, x: u32, y: u32) -> u32 {
    renderer.minimap_data.data[(y * renderer.minimap_data.width + x) as usize]
}

#[test]
fn render_context_has_the_documented_defaults() {
    let context = RenderContext::new();
    assert_eq!(context.desired_frame_time, 16_000_000);
    assert!(!context.dev_fixed_wall_height);
    assert_eq!(context.dev_fixed_wall_height_value, 20);
    assert_eq!(context.wall_height, 1);
    assert_eq!(context.floor_colour, 0x505050ff);
    assert_eq!(context.ceil_colour, 0x828282ff);
    assert!(context.show_minimap);
    assert_eq!(context.minimap_scale, 6);
}

#[test]
fn minimap_colours_follow_the_table() {
    let context = RenderContext::new();
    assert_eq!(context.colour_mapping(1), 0xff0000ff);
    assert_eq!(context.colour_mapping(2), 0x00ff00ff);
    assert_eq!(context.colour_mapping(3), 0x0000ffff);
    assert_eq!(context.colour_mapping(4), 0xffff00ff);
    assert_eq!(context.colour_mapping(5), 0x00ffffff);
    assert_eq!(context.colour_mapping(6), 0xff00ffff);
    for code in [0, 7, 8, 9, 10, -1, i32::MAX, i32::MIN] {
        assert_eq!(context.colour_mapping(code), 0xffffffff);
    }
}

#[test]
fn texture_column_mirrors_the_offset() {
    assert_eq!(texture_x(0), 511);
    assert_eq!(texture_x(65470), 0);
    assert_eq!(texture_x(65535), 0);
    assert_eq!(texture_x(127), 511);
    assert_eq!(texture_x(128), 510);
    assert_eq!(texture_x(32768), 255);
    assert_eq!(texture_x(16384), 383);
}

#[test]
fn texture_column_tells_texel_bands_apart() {
    let mut seen = vec![false; 512];
    for band in 0..512 {
        let column = texture_x(band * 128);
        assert_eq!(column, texture_x(band * 128 + 127));
        assert!(!seen[column]);
        seen[column] = true;
    }
    assert!(seen.iter().all(|hit| *hit));
}

#[test]
fn strip_height_is_inverse_to_the_distance() {
    let context = RenderContext::new();
    assert_eq!(context.strip_height(600, 65536), 600);
    assert_eq!(context.strip_height(600, 2 * 65536), 300);
    assert_eq!(context.strip_height(600, 3 * 65536), 200);
    assert_eq!(context.strip_height(48, 720896), 4);
    assert_eq!(context.strip_height(600, 32768), 1200);
    assert_eq!(context.strip_height(600, 1), 39321600);
    assert_eq!(context.strip_height(600, i64::MAX), 0);
}

#[test]
fn strip_height_is_capped_and_defined_at_distance_zero() {
    let mut context = RenderContext::new();
    assert_eq!(context.strip_height(600, 0), MAX_LINE_HEIGHT);
    assert_eq!(context.strip_height(600, -5), MAX_LINE_HEIGHT);
    assert_eq!(context.strip_height(0, 0), 0);
    assert_eq!(context.strip_height(u32::MAX, 1), MAX_LINE_HEIGHT);
    assert_eq!(context.strip_height(65536, 1), MAX_LINE_HEIGHT);
    assert_eq!(context.strip_height(65535, 1), 65535 * 65536);
    context.wall_height = 0;
    assert_eq!(context.strip_height(600, 0), 0);
    assert_eq!(context.strip_height(600, 65536), 0);
    context.wall_height = 3;
    assert_eq!(context.strip_height(600, 2 * 65536), 900);
}

#[test]
fn strip_height_can_be_fixed_for_development() {
    let mut context = RenderContext::new();
    context.dev_fixed_wall_height = true;
    assert_eq!(context.strip_height(600, 65536), 20);
    assert_eq!(context.strip_height(600, 0), 20);
    context.dev_fixed_wall_height_value = 77;
    assert_eq!(context.strip_height(9, 123456), 77);
}

#[test]
fn background_is_ceiling_over_floor() {
    let context = RenderContext::new();
    let mut buffer = PixelBuffer::new(3, 5).unwrap();
    buffer.draw_background(&context);
    let expected = vec![
        CEILING, CEILING, CEILING, CEILING, CEILING, CEILING, FLOOR, FLOOR, FLOOR, FLOOR, FLOOR, FLOOR, FLOOR, FLOOR,
        FLOOR,
    ];
    assert_eq!(buffer.data, expected);
}

#[test]
fn renderer_starts_cleared_with_default_settings() {
    let renderer = Renderer::new(20, 10, numbered_textures()).unwrap();
    assert_eq!(renderer.render_data.width, 20);
    assert_eq!(renderer.render_data.height, 10);
    assert_eq!(renderer.render_data.data, vec![0u32; 200]);
    assert_eq!(DEFAULT_MINIMAP_SIDE, 144);
    assert_eq!(renderer.minimap_data.width, 144);
    assert_eq!(renderer.minimap_data.height, 144);
    assert_eq!(renderer.minimap_data.data, vec![0u32; 144 * 144]);
    assert_eq!(renderer.render_context.minimap_scale, 6);
    assert_eq!(renderer.image_textures.len(), 9);
}

#[test]
fn renderer_refuses_an_incomplete_texture_set() {
    let mut textures = numbered_textures();
    textures.pop();
    assert_eq!(Renderer::new(20, 10, textures).unwrap_err(), RenderError::BadTextures);
    let mut textures = numbered_textures();
    textures[4].pop();
    assert_eq!(Renderer::new(20, 10, textures).unwrap_err(), RenderError::BadTextures);
    let mut textures = numbered_textures();
    textures.push(vec![0; TEXTURE_PIXELS]);
    assert_eq!(Renderer::new(20, 10, textures).unwrap_err(), RenderError::BadTextures);
    assert_eq!(Renderer::new(20, 10, Vec::new()).unwrap_err(), RenderError::BadTextures);
}

#[test]
fn centre_column_shows_a_dimmed_strip_on_an_x_face() {
    let game = hall_game(12 * 65536, 12 * 65536, (-65536, 0), (0, 43254));
    let mut renderer = Renderer::new(100, 48, numbered_textures()).unwrap();
    renderer.draw(&game).unwrap();
    for y in 0..22 {
        assert_eq!(view(&renderer, 50, y), CEILING);
    }
    assert_eq!(view(&renderer, 50, 22), dimmed(texel(0, 0, 511)));
    assert_eq!(view(&renderer, 50, 23), dimmed(texel(0, 128, 511)));
    assert_eq!(view(&renderer, 50, 24), dimmed(texel(0, 256, 511)));
    assert_eq!(view(&renderer, 50, 25), dimmed(texel(0, 384, 511)));
    for y in 26..48 {
        assert_eq!(view(&renderer, 50, y), FLOOR);
    }
}

#[test]
fn outer_columns_sample_other_texture_columns() {
    let game = hall_game(12 * 65536, 12 * 65536, (-65536, 0), (0, 43254));
    let mut renderer = Renderer::new(100, 48, numbered_textures()).unwrap();
    renderer.draw(&game).unwrap();
    assert_eq!(view(&renderer, 0, 21), CEILING);
    assert_eq!(view(&renderer, 0, 22), dimmed(texel(0, 0, 133)));
    assert_eq!(view(&renderer, 0, 25), dimmed(texel(0, 384, 133)));
    assert_eq!(view(&renderer, 0, 26), FLOOR);
    assert_eq!(view(&renderer, 99, 23), dimmed(texel(0, 128, 511 - 58)));
    assert_eq!(view(&renderer, 25, 24), dimmed(texel(0, 256, 511 - 189)));
}

#[test]
fn a_y_face_is_drawn_at_full_brightness() {
    let game = hall_game(12 * 65536 + 16384, 12 * 65536, (0, -65536), (43254, 0));
    let mut renderer = Renderer::new(100, 48, numbered_textures()).unwrap();
    renderer.draw(&game).unwrap();
    assert_eq!(view(&renderer, 50, 21), CEILING);
    assert_eq!(view(&renderer, 50, 22), texel(0, 0, 383));
    assert_eq!(view(&renderer, 50, 23), texel(0, 128, 383));
    assert_eq!(view(&renderer, 50, 24), texel(0, 256, 383));
    assert_eq!(view(&renderer, 50, 25), texel(0, 384, 383));
    assert_eq!(view(&renderer, 50, 26), FLOOR);
}

#[test]
fn a_near_wall_fills_the_column_but_for_the_last_row() {
    let game = hall_game(65536 + 32768, 12 * 65536, (-65536, 0), (0, 43254));
    let mut renderer = Renderer::new(100, 48, numbered_textures()).unwrap();
    renderer.draw(&game).unwrap();
    for y in 0..47u32 {
        let row = ((y as usize + 24) * 512) / 96;
        assert_eq!(view(&renderer, 50, y), dimmed(texel(0, row, 511)));
    }
    assert_eq!(view(&renderer, 50, 47), FLOOR);
}

#[test]
fn the_wall_code_selects_the_texture() {
    let game = GameContext::new().unwrap();
    let mut renderer = Renderer::new(640, 48, numbered_textures()).unwrap();
    renderer.draw(&game).unwrap();
    assert_eq!(view(&renderer, 0, 22), dimmed(texel(6, 0, 133)));
    assert_eq!(view(&renderer, 0, 21), CEILING);
    assert_eq!(view(&renderer, 320, 20), dimmed(texel(0, 0, 511)));
    assert_eq!(view(&renderer, 320, 19), CEILING);
    assert_eq!(view(&renderer, 320, 27), dimmed(texel(0, (7 * 512) / 9, 511)));
    assert_eq!(view(&renderer, 320, 28), FLOOR);
}

#[test]
fn the_development_override_fixes_the_strip() {
    let game = hall_game(12 * 65536, 12 * 65536, (-65536, 0), (0, 43254));
    let mut renderer = Renderer::new(100, 48, numbered_textures()).unwrap();
    renderer.render_context.dev_fixed_wall_height = true;
    renderer.draw(&game).unwrap();
    assert_eq!(view(&renderer, 50, 13), CEILING);
    assert_eq!(view(&renderer, 50, 14), dimmed(texel(0, 0, 511)));
    assert_eq!(view(&renderer, 50, 24), dimmed(texel(0, 256, 511)));
    assert_eq!(view(&renderer, 50, 33), dimmed(texel(0, (19 * 512) / 20, 511)));
    assert_eq!(view(&renderer, 50, 34), FLOOR);
}

#[test]
fn drawing_twice_gives_the_same_picture() {
    let game = GameContext::new().unwrap();
    let mut renderer = Renderer::new(64, 40, numbered_textures()).unwrap();
    renderer.draw(&game).unwrap();
    let first_view = renderer.render_data.data.clone();
    let first_map = renderer.minimap_data.data.clone();
    renderer.draw(&game).unwrap();
    assert_eq!(renderer.render_data.data, first_view);
    assert_eq!(renderer.minimap_data.data, first_map);
}

#[test]
fn minimap_shows_cells_in_their_colours() {
    let game = GameContext::new().unwrap();
    let mut renderer = Renderer::new(640, 48, numbered_textures()).unwrap();
    renderer.draw(&game).unwrap();
    assert_eq!(renderer.minimap_data.width, 144);
    assert_eq!(renderer.minimap_data.height, 144);
    assert_eq!(map(&renderer, 0, 0), 0xff0000ff);
    assert_eq!(map(&renderer, 15, 3), 0x00ff00ff);
    assert_eq!(map(&renderer, 12, 0), 0x00ff00ff);
    assert_eq!(map(&renderer, 17, 5), 0x00ff00ff);
    assert_eq!(map(&renderer, 18, 5), 0xff0000ff);
    assert_eq!(map(&renderer, 21 * 6 + 2, 2), 0x0000ffff);
    assert_eq!(map(&renderer, 9, 135), 0x00ff00ff);
    assert_eq!(map(&renderer, 3 * 6 + 1, 22 * 6 + 4), 0xffff00ff);
    assert_eq!(map(&renderer, 4 * 6, 22 * 6), 0x00ffffff);
    assert_eq!(map(&renderer, 5 * 6 + 5, 22 * 6 + 5), 0xff00ffff);
    assert_eq!(map(&renderer, 6 * 6, 22 * 6), 0xffffffff);
    assert_eq!(map(&renderer, 8 * 6, 22 * 6), 0xffffffff);
    assert_eq!(map(&renderer, 3 * 6 + 3, 8 * 6 + 3), 0xffffffff);
    assert_eq!(map(&renderer, 143, 143), 0xff0000ff);
}

#[test]
fn minimap_shows_marker_heading_and_rays() {
    let game = GameContext::new().unwrap();
    let mut renderer = Renderer::new(640, 48, numbered_textures()).unwrap();
    renderer.draw(&game).unwrap();
    assert_eq!(map(&renderer, 72, 132), 0xff0000ff);
    assert_eq!(map(&renderer, 75, 132), 0xff0000ff);
    assert_eq!(map(&renderer, 69, 131), 0xff0000ff);
    assert_eq!(map(&renderer, 72, 135), 0xff0000ff);
    assert_eq!(map(&renderer, 72, 129), 0xff0000ff);
    assert_eq!(map(&renderer, 72, 120), 0x00ff00ff);
    assert_eq!(map(&renderer, 71, 116), 0x00ff00ff);
    assert_eq!(map(&renderer, 72, 113), 0x00ff00ff);
    assert_eq!(map(&renderer, 72, 112), 0xffffffff);
    assert_eq!(map(&renderer, 72, 105), 0xffffffff);
    assert_eq!(map(&renderer, 71, 102), 0xffffffff);
    assert_eq!(map(&renderer, 72, 101), 0xff0000ff);
    assert_eq!(map(&renderer, 72, 137), 0);
    assert_eq!(map(&renderer, 60, 137), 0);
}

#[test]
fn minimap_stays_clear_when_switched_off() {
    let game = GameContext::new().unwrap();
    let mut renderer = Renderer::new(64, 48, numbered_textures()).unwrap();
    renderer.render_context.show_minimap = false;
    renderer.draw(&game).unwrap();
    assert_eq!(renderer.minimap_data.width, 144);
    assert_eq!(renderer.minimap_data.data, vec![0u32; 144 * 144]);
    assert_eq!(view(&renderer, 32, 0), CEILING);
}

#[test]
fn minimap_follows_the_scale() {
    let game = GameContext::new().unwrap();
    let mut renderer = Renderer::new(64, 48, numbered_textures()).unwrap();
    renderer.render_context.minimap_scale = 2;
    renderer.draw(&game).unwrap();
    assert_eq!(renderer.minimap_data.width, 48);
    assert_eq!(renderer.minimap_data.height, 48);
    assert_eq!(renderer.minimap_data.data.len(), 48 * 48);
    assert_eq!(map(&renderer, 5, 0), 0x00ff00ff);
    assert_eq!(map(&renderer, 24, 44), 0xff0000ff);
    renderer.render_context.minimap_scale = 0;
    renderer.draw(&game).unwrap();
    assert_eq!(renderer.minimap_data.width, 0);
    assert!(renderer.minimap_data.data.is_empty());
}

#[test]
fn a_minimap_that_cannot_be_held_is_refused() {
    let game = GameContext::new().unwrap();
    let mut renderer = Renderer::new(16, 12, numbered_textures()).unwrap();
    renderer.render_data.data[5] = 77;
    renderer.minimap_data.data[9] = 88;
    renderer.render_context.minimap_scale = u32::MAX;
    assert_eq!(renderer.draw(&game).unwrap_err(), RenderError::MinimapTooLarge);
    assert_eq!(renderer.render_data.data[5], 77);
    assert_eq!(renderer.minimap_data.data[9], 88);
    assert_eq!(renderer.minimap_data.width, 144);
    renderer.render_context.minimap_scale = 178956971;
    assert_eq!(renderer.draw(&game).unwrap_err(), RenderError::MinimapTooLarge);
    renderer.render_context.minimap_scale = 683;
    assert_eq!(renderer.draw(&game).unwrap_err(), RenderError::MinimapTooLarge);
    assert_eq!(renderer.minimap_data.width, 144);
}

#[test]
fn a_view_with_too_many_pixels_is_refused() {
    assert_eq!(Renderer::new(16385, 16384, numbered_textures()).unwrap_err(), RenderError::SurfaceTooLarge);
    assert_eq!(Renderer::new(u32::MAX, u32::MAX, numbered_textures()).unwrap_err(), RenderError::SurfaceTooLarge);
    assert_eq!(Renderer::new(u32::MAX, u32::MAX, Vec::new()).unwrap_err(), RenderError::BadTextures);
    assert!(PixelBuffer::new(16385, 16384).is_none());
    assert!(PixelBuffer::new(1, 268435457).is_none());
    assert!(PixelBuffer::new(268435457, 0).is_some());
}

#[test]
fn a_view_without_pixels_can_be_drawn() {
    let game = GameContext::new().unwrap();
    let mut renderer = Renderer::new(0, 0, numbered_textures()).unwrap();
    renderer.draw(&game).unwrap();
    assert!(renderer.render_data.data.is_empty());
    let mut renderer = Renderer::new(5, 1, numbered_textures()).unwrap();
    renderer.draw(&game).unwrap();
    assert_eq!(renderer.render_data.data, vec![FLOOR; 5]);
}

#[test]
fn pixels_are_handed_over_as_rgba_bytes() {
    let mut buffer = PixelBuffer::new(2, 2).unwrap();
    buffer.set_pixel(0, 0, 0x11223344);
    buffer.set_pixel(1, 0, 0xff0000ff);
    buffer.set_pixel(1, 1, 0x00000001);
    assert_eq!(
        buffer.to_rgba_bytes(),
        vec![0x11, 0x22, 0x33, 0x44, 0xff, 0x00, 0x00, 0xff, 0, 0, 0, 0, 0, 0, 0, 1]
    );
    assert!(PixelBuffer::new(0, 0).unwrap().to_rgba_bytes().is_empty());
}

#[test]
fn the_minimap_sits_in_the_lower_right_corner() {
    let renderer = Renderer::new(900, 600, numbered_textures()).unwrap();
    assert_eq!(renderer.minimap_corner(), (746, 446));
    let small = Renderer::new(100, 154, numbered_textures()).unwrap();
    assert_eq!(small.minimap_corner(), (-54, 0));
    let mut wide = Renderer::new(u32::MAX, 0, numbered_textures()).unwrap();
    assert!(wide.is_valid());
    wide.minimap_data = PixelBuffer::new(0, 0).unwrap();
    assert_eq!(wide.minimap_corner(), (i32::MAX, -10));
}
