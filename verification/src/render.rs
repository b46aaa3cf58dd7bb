//! The projector: turns the ray-cast results of a frame into pixels.
//!
//! The main view is a floor and ceiling background with one textured wall
//! strip per column. The minimap is a top-down picture of the world with
//! the player's marker, heading and a sparse fan of rays.

use vstd::prelude::*;
use crate::canvas::{lemma_pixel_index, PixelBuffer, MAX_PIXELS};
use crate::circle::disc_covers;
use crate::game::GameContext;
use crate::minimap::{
    cell_under, heading_segment, limited, marker_of, ray_segment, HEADING_COLOUR, MARKER_COLOUR, MARKER_RADIUS,
    RAY_COLOUR, RAY_STRIDE, STROKE,
};
use crate::player::Player;
use crate::raycast::{cast, cast_ray, HitModel, HitSide, RayHit};
use crate::texture::{shade, shaded, valid_textures, N_TEXTURES, TEXTURE_PIXELS, TEXTURE_WIDTH};
use crate::world::World;

verus! {

/// Largest projected wall height; taller strips are reported as this.
pub const MAX_LINE_HEIGHT: u32 = 0xffff_ffff;

/// The settings of the renderer.
#[derive(Clone, Copy, Debug)]
pub struct RenderContext {
    /// Target duration of a frame, in nanoseconds; zero for no cap.
    pub desired_frame_time: u64,
    /// Development override: draw every wall with a fixed height.
    pub dev_fixed_wall_height: bool,
    /// The strip height that the development override forces.
    pub dev_fixed_wall_height_value: u32,
    /// Height of the walls, as a multiple of the surface height at distance 1.
    pub wall_height: u32,
    /// Colour of the lower half of the background.
    pub floor_colour: u32,
    /// Colour of the upper half of the background.
    pub ceil_colour: u32,
    /// Whether the minimap is drawn.
    pub show_minimap: bool,
    /// Side of a world cell on the minimap, in pixels.
    pub minimap_scale: u32,
}

/// Minimap colour of a cell code: six codes have a colour of their own,
/// every other code is white.
pub open spec fn cell_colour(code: int) -> u32 {
    if code == 1 {
        0xff0000ffu32
    } else if code == 2 {
        0x00ff00ffu32
    } else if code == 3 {
        0x0000ffffu32
    } else if code == 4 {
        0xffff00ffu32
    } else if code == 5 {
        0x00ffffffu32
    } else if code == 6 {
        0xff00ffffu32
    } else {
        0xffffffffu32
    }
}

/// Height in pixels of a wall at the given perpendicular distance on a
/// surface `height` pixels high: inversely proportional to the distance,
/// and capped at `MAX_LINE_HEIGHT`. At distance zero the wall is as tall as
/// can be, unless it has no height at all.
pub open spec fn projected_height(height: int, wall_height: int, distance: int) -> int {
    if distance <= 0 {
        if height * wall_height == 0 {
            0
        } else {
            MAX_LINE_HEIGHT as int
        }
    } else if (height * wall_height * 65536) / distance > MAX_LINE_HEIGHT {
        MAX_LINE_HEIGHT as int
    } else {
        (height * wall_height * 65536) / distance
    }
}

/// Row above the topmost row of a strip of the given height that is
/// centred on the middle of the surface; negative when the strip is
/// taller than the surface.
pub open spec fn strip_top(height: int, line_height: int) -> int {
    height / 2 - line_height / 2
}

/// First row of the strip that is drawn.
pub open spec fn draw_start(height: int, line_height: int) -> int {
    if strip_top(height, line_height) < 0 {
        0
    } else {
        strip_top(height, line_height)
    }
}

/// Row after the last row of the strip that is drawn.
pub open spec fn draw_end(height: int, line_height: int) -> int {
    if line_height / 2 + height / 2 > height - 1 {
        height - 1
    } else {
        line_height / 2 + height / 2
    }
}

/// Whether row `y` belongs to the strip that is drawn.
pub open spec fn in_strip(height: int, line_height: int, y: int) -> bool {
    draw_start(height, line_height) <= y < draw_end(height, line_height)
}

/// Column of the texture that is shown at the given offset along a wall
/// face: the texture is mirrored, so offset 0 shows its last column.
pub open spec fn texture_column(offset: int) -> int {
    511 - (offset * 512) / 65536
}

/// Row of the texture that is shown on row `y` of the surface: the strip,
/// clipped or not, shows the whole height of the texture.
pub open spec fn texture_row(height: int, line_height: int, y: int) -> int {
    ((y - strip_top(height, line_height)) * 512) / line_height
}

/// Colour of row `y` of the wall strip for a hit: the texel of the wall's
/// texture, at half brightness on an `X` face.
pub open spec fn wall_colour(textures: Seq<Vec<u32>>, hit: HitModel, height: int, line_height: int, y: int) -> u32 {
    let texel = textures[hit.code - 1]@[512 * texture_row(height, line_height, y) + texture_column(hit.offset)];
    match hit.side {
        HitSide::X => shaded(texel as int) as u32,
        HitSide::Y => texel,
    }
}

/// The texture column follows the offset along the face in reverse:
/// offsets in one band of a texel's width share a column, offsets in
/// different bands never do, a greater offset never shows a later column,
/// and the two ends of the face show the two ends of the texture.
pub proof fn lemma_texture_column(a: int, b: int)
    requires
        0 <= a < 65536,
        0 <= b < 65536,
    ensures
        0 <= texture_column(a) < 512,
        texture_column(a) == texture_column(b) <==> a / 128 == b / 128,
        a <= b ==> texture_column(a) >= texture_column(b),
        texture_column(0) == 511,
        texture_column(65535) == 0,
{
    assert((a * 512) / 65536 == a / 128);
    assert((b * 512) / 65536 == b / 128);
}

/// Every row of a strip shows a row of the texture; the first row of an
/// unclipped strip shows the first row of the texture.
pub proof fn lemma_texture_row(height: int, line_height: int, y: int)
    requires
        0 <= height,
        0 <= line_height,
        in_strip(height, line_height, y),
    ensures
        0 <= texture_row(height, line_height, y) < 512,
        y == strip_top(height, line_height) ==> texture_row(height, line_height, y) == 0,
{
    let top = strip_top(height, line_height);
    assert(0 <= ((y - top) * 512) / line_height < 512) by (nonlinear_arith)
        requires
            0 <= y - top < line_height,
    ;
}

impl RenderContext {
    /// The default settings: a frame every 16 milliseconds, walls as high
    /// as the surface at distance 1, grey floor and ceiling, and a minimap
    /// of six pixels a cell.
    pub fn new() -> (context: RenderContext)
        ensures
            context == (RenderContext {
                desired_frame_time: 16_000_000,
                dev_fixed_wall_height: false,
                dev_fixed_wall_height_value: 20,
                wall_height: 1,
                floor_colour: 0x505050ff,
                ceil_colour: 0x828282ff,
                show_minimap: true,
                minimap_scale: 6,
            }),
    {
        RenderContext {
            desired_frame_time: 16_000_000,
            dev_fixed_wall_height: false,
            dev_fixed_wall_height_value: 20,
            wall_height: 1,
            floor_colour: 0x505050ff,
            ceil_colour: 0x828282ff,
            show_minimap: true,
            minimap_scale: 6,
        }
    }

    /// Minimap colour of a cell code.
    pub fn colour_mapping(&self, code: i32) -> (colour: u32)
        ensures
            colour == cell_colour(code as int),
    {
        match code {
            1 => 0xff0000ff,
            2 => 0x00ff00ff,
            3 => 0x0000ffff,
            4 => 0xffff00ff,
            5 => 0x00ffffff,
            6 => 0xff00ffff,
            _ => 0xffffffff,
        }
    }

    /// Height of the strip for a wall at the given distance: the projected
    /// height, or the fixed height when the development override is on.
    pub open spec fn line_height(&self, height: int, distance: int) -> int {
        if self.dev_fixed_wall_height {
            self.dev_fixed_wall_height_value as int
        } else {
            projected_height(height, self.wall_height as int, distance)
        }
    }

    /// Background colour of row `y` of a surface `height` pixels high:
    /// ceiling in the upper half, floor in the lower.
    pub open spec fn background(&self, height: int, y: int) -> u32 {
        if y < height / 2 {
            self.ceil_colour
        } else {
            self.floor_colour
        }
    }

    /// Computes the height of the strip for a wall at `distance`.
    pub fn strip_height(&self, height: u32, distance: i64) -> (line_height: u32)
        ensures
            line_height == self.line_height(height as int, distance as int),
    {
        if self.dev_fixed_wall_height {
            return self.dev_fixed_wall_height_value;
        }
        assert(0 <= height * self.wall_height <= 0xffff_ffff * 0xffff_ffff) by (nonlinear_arith)
            requires
                0 <= height <= 0xffff_ffff,
                0 <= self.wall_height <= 0xffff_ffff,
        ;
        let area: u64 = (height as u64) * (self.wall_height as u64);
        if distance <= 0 {
            if area == 0 {
                0
            } else {
                MAX_LINE_HEIGHT
            }
        } else {
            let scaled: u128 = (area as u128) * 65536;
            let quotient: u128 = scaled / (distance as u128);
            if quotient > MAX_LINE_HEIGHT as u128 {
                MAX_LINE_HEIGHT
            } else {
                quotient as u32
            }
        }
    }
}

/// The texture column for an offset along a wall face.
pub fn texture_x(offset: i64) -> (column: usize)
    requires
        0 <= offset < 65536,
    ensures
        column == texture_column(offset as int),
        0 <= column < 512,
{
    (511 - (offset * 512) / 65536) as usize
}

impl PixelBuffer {
    /// Fills the upper half of the buffer with the ceiling colour and the
    /// lower half with the floor colour.
    pub fn draw_background(&mut self, context: &RenderContext)
        requires
            old(self).wf(),
        ensures
            final(self).wf(),
            final(self).same_shape(old(self)),
            forall|px: int, py: int|
                old(self).holds(px, py) ==> #[trigger] final(self).pixel(px, py) == context.background(
                    old(self).height as int,
                    py,
                ),
    {
        let half: i64 = (self.height / 2) as i64;
        self.fill_rect(0, 0, self.width as i64, half, context.ceil_colour);
        self.fill_rect(0, half, self.width as i64, self.height as i64 - half, context.floor_colour);
    }

    /// Draws the wall strip of one column: rows inside the strip take the
    /// wall's colour, all others keep what they had.
    pub fn draw_wall_strip(
        &mut self,
        context: &RenderContext,
        textures: &Vec<Vec<u32>>,
        hit: &RayHit,
        column: u32,
    )
        requires
            old(self).wf(),
            valid_textures(textures@),
            1 <= hit.code <= 9,
            0 <= hit.offset.raw < 65536,
        ensures
            final(self).wf(),
            final(self).same_shape(old(self)),
            forall|px: int, py: int|
                old(self).holds(px, py) ==> #[trigger] final(self).pixel(px, py) == (if px == column && in_strip(
                    old(self).height as int,
                    context.line_height(old(self).height as int, hit.distance.raw as int),
                    py,
                ) {
                    wall_colour(
                        textures@,
                        hit@,
                        old(self).height as int,
                        context.line_height(old(self).height as int, hit.distance.raw as int),
                        py,
                    )
                } else {
                    old(self).pixel(px, py)
                }),
    {
        if self.height == 0 {
            return ;
        }
        let height: i64 = self.height as i64;
        let line_height: i64 = context.strip_height(self.height, hit.distance.raw) as i64;
        let top: i64 = height / 2 - line_height / 2;
        let start: i64 = if top < 0 {
            0
        } else {
            top
        };
        let end: i64 = if line_height / 2 + height / 2 > height - 1 {
            height - 1
        } else {
            line_height / 2 + height / 2
        };
        let texture: &Vec<u32> = &textures[(hit.code - 1) as usize];
        let tex_x: usize = texture_x(hit.offset.raw);
        let dim: bool = match hit.side {
            HitSide::X => true,
            HitSide::Y => false,
        };
        let mut y: i64 = start;
        while y < end
            invariant
                start <= y,
                0 <= start,
                0 <= line_height <= 0xffff_ffff,
                end < height,
                height == self.height,
                height == old(self).height,
                line_height == context.line_height(height as int, hit.distance.raw as int),
                top == strip_top(height as int, line_height as int),
                start == draw_start(height as int, line_height as int),
                end == draw_end(height as int, line_height as int),
                texture == textures@[hit.code - 1],
                texture@.len() == 262144,
                tex_x == texture_column(hit.offset.raw as int),
                0 <= tex_x < 512,
                dim == (hit.side == HitSide::X),
                self.wf(),
                self.same_shape(old(self)),
                forall|px: int, py: int|
                    old(self).holds(px, py) ==> #[trigger] self.pixel(px, py) == (if px == column && in_strip(
                        height as int,
                        line_height as int,
                        py,
                    ) && py < y {
                        wall_colour(textures@, hit@, height as int, line_height as int, py)
                    } else {
                        old(self).pixel(px, py)
                    }),
            decreases end - y,
        {
            assert(0 <= ((y - top) * 512) / (line_height as int) < 512) by (nonlinear_arith)
                requires
                    0 <= y - top < line_height,
            ;
            let row: usize = (((y - top) * 512) / line_height) as usize;
            let texel: u32 = texture[TEXTURE_WIDTH * row + tex_x];
            let colour: u32 = if dim {
                shade(texel)
            } else {
                texel
            };
            self.set_pixel(column as i64, y, colour);
            y = y + 1;
        }
    }
}

/// Side of the minimap made for a new renderer, in pixels.
pub const DEFAULT_MINIMAP_SIDE: u32 = 144;

/// Gap between the minimap and the right and lower edges of the main view
/// when both are shown together, in pixels.
pub const MINIMAP_MARGIN: i64 = 10;

/// The renderer: its settings, the wall textures, and the two pictures
/// that it draws, the main view and the minimap.
#[derive(Debug)]
pub struct Renderer {
    pub render_context: RenderContext,
    pub image_textures: Vec<Vec<u32>>,
    pub render_data: PixelBuffer,
    pub minimap_data: PixelBuffer,
}

/// Why the renderer could not be made or could not draw.
#[derive(Clone, Copy, Debug, PartialEq, Eq, Structural)]
pub enum RenderError {
    /// The textures are not a full set of images of the right size.
    BadTextures,
    /// The main view has more than `MAX_PIXELS` pixels.
    SurfaceTooLarge,
    /// The minimap has a side beyond the range of a `u32` or more than
    /// `MAX_PIXELS` pixels.
    MinimapTooLarge,
}

/// Colour of pixel `(x, y)` of the main view: the wall strip of column
/// `x` where it reaches, the background elsewhere.
pub open spec fn scene_pixel(
    context: RenderContext,
    textures: Seq<Vec<u32>>,
    world: World,
    player: Player,
    width: int,
    height: int,
    x: int,
    y: int,
) -> u32 {
    match cast(world, player, x, width) {
        Some(hit) => if in_strip(height, context.line_height(height, hit.distance), y) {
            wall_colour(textures, hit, height, context.line_height(height, hit.distance), y)
        } else {
            context.background(height, y)
        },
        None => context.background(height, y),
    }
}

/// Whether the ray of column `column` is shown on the minimap and its line
/// covers pixel `(px, py)`.
pub open spec fn ray_covers(world: World, player: Player, width: int, cell: int, column: int, px: int, py: int) -> bool {
    &&& column % (RAY_STRIDE as int) == 0
    &&& cast(world, player, column, width) is Some
    &&& ray_segment(player, cast(world, player, column, width)->0, cell).covers(STROKE as int, px, py)
}

/// Whether the line of one of the rays of the columns before `upto` covers
/// pixel `(px, py)` of the minimap.
pub open spec fn rays_cover(world: World, player: Player, width: int, cell: int, upto: int, px: int, py: int) -> bool
    decreases upto,
{
    upto > 0 && (rays_cover(world, player, width, cell, upto - 1, px, py) || ray_covers(
        world,
        player,
        width,
        cell,
        upto - 1,
        px,
        py,
    ))
}

/// Colour of pixel `(px, py)` of the minimap for a view `width` columns
/// wide: from top to bottom the marker, the heading, the blocks of the
/// cells and the rays, on a cleared ground; all clear when the minimap is
/// switched off.
pub open spec fn minimap_pixel(
    context: RenderContext,
    world: World,
    player: Player,
    width: int,
    px: int,
    py: int,
) -> u32 {
    let cell = context.minimap_scale as int;
    if !context.show_minimap {
        0
    } else if disc_covers(
        marker_of(player.position.y.raw as int, cell),
        marker_of(player.position.x.raw as int, cell),
        MARKER_RADIUS as int,
        px,
        py,
    ) {
        MARKER_COLOUR
    } else if heading_segment(player, cell).covers(STROKE as int, px, py) {
        HEADING_COLOUR
    } else if cell_under(world, cell, px, py) != 0 {
        cell_colour(cell_under(world, cell, px, py))
    } else if rays_cover(world, player, width, cell, width, px, py) {
        RAY_COLOUR
    } else {
        0
    }
}

/// Whether a minimap with cells of `scale` pixels for a world of side
/// `size` is within the limits of a picture.
pub open spec fn minimap_fits(scale: int, size: int) -> bool {
    scale * size <= u32::MAX && (scale * size) * (scale * size) <= MAX_PIXELS
}

/// Limits a coordinate to the range of an `i32`.
fn limit_to_i32(value: i64) -> (limited_value: i32)
    ensures
        limited_value == limited(value as int, i32::MIN as int, i32::MAX as int),
{
    if value < i32::MIN as i64 {
        i32::MIN
    } else if value > i32::MAX as i64 {
        i32::MAX
    } else {
        value as i32
    }
}

/// Whether `textures` is a full set of textures.
fn check_textures(textures: &Vec<Vec<u32>>) -> (valid: bool)
    ensures
        valid == valid_textures(textures@),
{
    if textures.len() != N_TEXTURES {
        return false;
    }
    let mut i: usize = 0;
    while i < N_TEXTURES
        invariant
            i <= N_TEXTURES,
            textures@.len() == N_TEXTURES,
            forall|k: int| 0 <= k < i ==> (#[trigger] textures@[k])@.len() == TEXTURE_PIXELS,
        decreases N_TEXTURES - i,
    {
        if textures[i].len() != TEXTURE_PIXELS {
            return false;
        }
        i += 1;
    }
    true
}

impl Renderer {
    /// The renderer's invariant: both pictures are well formed and the
    /// textures are a full set.
    pub open spec fn wf(&self) -> bool {
        &&& self.render_data.wf()
        &&& self.minimap_data.wf()
        &&& valid_textures(self.image_textures@)
    }

    /// Whether both pictures are well formed and the textures a full set.
    pub fn is_valid(&self) -> (valid: bool)
        ensures
            valid == self.wf(),
    {
        self.render_data.is_valid() && self.minimap_data.is_valid() && check_textures(&self.image_textures)
    }

    /// Whether this is a renderer as `new` makes it for a main view of the
    /// given size: default settings, the given textures, a minimap of
    /// `DEFAULT_MINIMAP_SIDE` pixels a side, and both pictures cleared.
    pub open spec fn fresh(&self, width: u32, height: u32, textures: Vec<Vec<u32>>) -> bool {
        &&& self.image_textures == textures
        &&& self.render_data.width == width
        &&& self.render_data.height == height
        &&& self.minimap_data.width == DEFAULT_MINIMAP_SIDE
        &&& self.minimap_data.height == DEFAULT_MINIMAP_SIDE
        &&& self.render_context == (RenderContext {
            desired_frame_time: 16_000_000,
            dev_fixed_wall_height: false,
            dev_fixed_wall_height_value: 20,
            wall_height: 1,
            floor_colour: 0x505050ff,
            ceil_colour: 0x828282ff,
            show_minimap: true,
            minimap_scale: 6,
        })
        &&& forall|i: int| 0 <= i < self.render_data.data@.len() ==> self.render_data.data@[i] == 0
        &&& forall|i: int| 0 <= i < self.minimap_data.data@.len() ==> self.minimap_data.data@[i] == 0
    }

    /// A renderer for a main view of the given size, with the default
    /// settings, the given textures and both pictures cleared. A set of
    /// textures that is not full is refused first, then a view with more
    /// than `MAX_PIXELS` pixels.
    pub fn new(width: u32, height: u32, textures: Vec<Vec<u32>>) -> (result: Result<Renderer, RenderError>)
        ensures
            result is Ok <==> valid_textures(textures@) && width * height <= MAX_PIXELS,
            result matches Err(fault) ==> fault == (if !valid_textures(textures@) {
                RenderError::BadTextures
            } else {
                RenderError::SurfaceTooLarge
            }),
            result matches Ok(renderer) ==> renderer.wf() && renderer.fresh(width, height, textures),
    {
        if !check_textures(&textures) {
            return Err(RenderError::BadTextures);
        }
        let render_data = match PixelBuffer::new(width, height) {
            Some(buffer) => buffer,
            None => {
                return Err(RenderError::SurfaceTooLarge);
            },
        };
        let minimap_data = match PixelBuffer::new(DEFAULT_MINIMAP_SIDE, DEFAULT_MINIMAP_SIDE) {
            Some(buffer) => buffer,
            None => {
                return Err(RenderError::SurfaceTooLarge);
            },
        };
        Ok(Renderer { render_context: RenderContext::new(), image_textures: textures, render_data, minimap_data })
    }

    /// Where the minimap goes when it is shown over the main view: the
    /// coordinates of its upper left corner, which put it in the lower
    /// right corner of the view, `MINIMAP_MARGIN` pixels from the edges.
    /// The corner lies outside the view when the minimap is larger than the
    /// view allows.
    pub fn minimap_corner(&self) -> (corner: (i32, i32))
        ensures
            corner.0 == limited(
                self.render_data.width - self.minimap_data.width - MINIMAP_MARGIN,
                i32::MIN as int,
                i32::MAX as int,
            ),
            corner.1 == limited(
                self.render_data.height - self.minimap_data.height - MINIMAP_MARGIN,
                i32::MIN as int,
                i32::MAX as int,
            ),
    {
        let x: i64 = self.render_data.width as i64 - self.minimap_data.width as i64 - MINIMAP_MARGIN;
        let y: i64 = self.render_data.height as i64 - self.minimap_data.height as i64 - MINIMAP_MARGIN;
        (limit_to_i32(x), limit_to_i32(y))
    }

    /// Casts the ray of every column of the main view and draws its wall
    /// strip; on the minimap, if it is shown, draws the ray of every fifth
    /// column.
    pub fn draw_world(&mut self, game: &GameContext)
        requires
            old(self).wf(),
            game.wf(),
        ensures
            final(self).wf(),
            final(self).render_context == old(self).render_context,
            final(self).image_textures == old(self).image_textures,
            final(self).render_data.same_shape(&old(self).render_data),
            final(self).minimap_data.same_shape(&old(self).minimap_data),
            forall|px: int, py: int|
                old(self).render_data.holds(px, py) ==> #[trigger] final(self).render_data.pixel(px, py) == (match cast(
                    game.world,
                    game.player,
                    px,
                    old(self).render_data.width as int,
                ) {
                    Some(hit) => if in_strip(
                        old(self).render_data.height as int,
                        old(self).render_context.line_height(old(self).render_data.height as int, hit.distance),
                        py,
                    ) {
                        wall_colour(
                            old(self).image_textures@,
                            hit,
                            old(self).render_data.height as int,
                            old(self).render_context.line_height(old(self).render_data.height as int, hit.distance),
                            py,
                        )
                    } else {
                        old(self).render_data.pixel(px, py)
                    },
                    None => old(self).render_data.pixel(px, py),
                }),
            forall|px: int, py: int|
                old(self).minimap_data.holds(px, py) ==> #[trigger] final(self).minimap_data.pixel(px, py) == (if old(self).render_context.show_minimap && rays_cover(
                    game.world,
                    game.player,
                    old(self).render_data.width as int,
                    old(self).render_context.minimap_scale as int,
                    old(self).render_data.width as int,
                    px,
                    py,
                ) {
                    RAY_COLOUR
                } else {
                    old(self).minimap_data.pixel(px, py)
                }),
    {
        let context: RenderContext = self.render_context;
        let width: u32 = self.render_data.width;
        let ghost height = self.render_data.height as int;
        let ghost cell = context.minimap_scale as int;
        let mut column: u32 = 0;
        while column < width
            invariant
                column <= width,
                game.wf(),
                self.wf(),
                context == old(self).render_context,
                self.render_context == old(self).render_context,
                self.image_textures == old(self).image_textures,
                width == old(self).render_data.width,
                height == old(self).render_data.height,
                cell == context.minimap_scale,
                self.render_data.same_shape(&old(self).render_data),
                self.minimap_data.same_shape(&old(self).minimap_data),
                forall|px: int, py: int|
                    old(self).render_data.holds(px, py) ==> #[trigger] self.render_data.pixel(px, py) == (match cast(
                        game.world,
                        game.player,
                        px,
                        width as int,
                    ) {
                        Some(hit) => if px < column && in_strip(height, context.line_height(height, hit.distance), py) {
                            wall_colour(
                                self.image_textures@,
                                hit,
                                height,
                                context.line_height(height, hit.distance),
                                py,
                            )
                        } else {
                            old(self).render_data.pixel(px, py)
                        },
                        None => old(self).render_data.pixel(px, py),
                    }),
                forall|px: int, py: int|
                    old(self).minimap_data.holds(px, py) ==> #[trigger] self.minimap_data.pixel(px, py) == (
                    if context.show_minimap && rays_cover(
                        game.world,
                        game.player,
                        width as int,
                        cell,
                        column as int,
                        px,
                        py,
                    ) {
                        RAY_COLOUR
                    } else {
                        old(self).minimap_data.pixel(px, py)
                    }),
            decreases width - column,
        {
            let ghost view_before = self.render_data;
            let ghost map_before = self.minimap_data;
            match cast_ray(&game.world, &game.player, column, width) {
                Some(hit) => {
                    if column % RAY_STRIDE == 0 && context.show_minimap {
                        self.minimap_data.draw_ray(&game.player, &hit, context.minimap_scale);
                    }
                    self.render_data.draw_wall_strip(&context, &self.image_textures, &hit, column);
                },
                None => {},
            }
            proof {
                assert forall|px: int, py: int| old(self).minimap_data.holds(px, py) implies #[trigger]
                    self.minimap_data.pixel(px, py) == (if context.show_minimap && rays_cover(
                    game.world,
                    game.player,
                    width as int,
                    cell,
                    column + 1,
                    px,
                    py,
                ) {
                    RAY_COLOUR
                } else {
                    old(self).minimap_data.pixel(px, py)
                }) by {
                    assert(map_before.holds(px, py));
                }
                assert forall|px: int, py: int| old(self).render_data.holds(px, py) implies #[trigger]
                    self.render_data.pixel(px, py) == (match cast(game.world, game.player, px, width as int) {
                    Some(hit) => if px < column + 1 && in_strip(height, context.line_height(height, hit.distance), py) {
                        wall_colour(self.image_textures@, hit, height, context.line_height(height, hit.distance), py)
                    } else {
                        old(self).render_data.pixel(px, py)
                    },
                    None => old(self).render_data.pixel(px, py),
                }) by {
                    assert(view_before.holds(px, py));
                }
            }
            column += 1;
        }
    }

    /// Draws a frame. The main view becomes the background with the wall
    /// strips over it; the minimap is made anew, of the size that the world
    /// and the scale ask for, and shows the world and the player if it is
    /// switched on. Nothing is drawn when the minimap would be too large.
    pub fn draw(&mut self, game: &GameContext) -> (result: Result<(), RenderError>)
        requires
            old(self).wf(),
            game.wf(),
        ensures
            final(self).wf(),
            final(self).render_context == old(self).render_context,
            final(self).image_textures == old(self).image_textures,
            final(self).render_data.same_shape(&old(self).render_data),
            result is Ok <==> minimap_fits(old(self).render_context.minimap_scale as int, game.world.size as int),
            result is Err ==> result->Err_0 == RenderError::MinimapTooLarge && *final(self) == *old(self),
            result is Ok ==> {
                &&& final(self).minimap_data.width == old(self).render_context.minimap_scale * game.world.size
                &&& final(self).minimap_data.height == old(self).render_context.minimap_scale * game.world.size
                &&& forall|px: int, py: int|
                    final(self).render_data.holds(px, py) ==> #[trigger] final(self).render_data.pixel(px, py)
                        == scene_pixel(
                        old(self).render_context,
                        old(self).image_textures@,
                        game.world,
                        game.player,
                        old(self).render_data.width as int,
                        old(self).render_data.height as int,
                        px,
                        py,
                    )
                &&& forall|px: int, py: int|
                    final(self).minimap_data.holds(px, py) ==> #[trigger] final(self).minimap_data.pixel(px, py)
                        == minimap_pixel(
                        old(self).render_context,
                        game.world,
                        game.player,
                        old(self).render_data.width as int,
                        px,
                        py,
                    )
            },
    {
        let context: RenderContext = self.render_context;
        assert(0 <= context.minimap_scale * game.world.size <= 0xffff_ffff * 16384) by (nonlinear_arith)
            requires
                0 <= context.minimap_scale <= 0xffff_ffff,
                0 <= game.world.size <= 16384,
        ;
        let side: u64 = (context.minimap_scale as u64) * (game.world.size as u64);
        if side > u32::MAX as u64 {
            return Err(RenderError::MinimapTooLarge);
        }
        let cleared = match PixelBuffer::new(side as u32, side as u32) {
            Some(buffer) => buffer,
            None => {
                return Err(RenderError::MinimapTooLarge);
            },
        };
        proof {
            assert forall|px: int, py: int| cleared.holds(px, py) implies #[trigger] cleared.pixel(px, py) == 0 by {
                lemma_pixel_index(cleared.width as int, cleared.height as int, px, py);
            }
        }
        self.minimap_data = cleared;
        self.render_data.draw_background(&context);
        self.draw_world(game);
        if context.show_minimap {
            self.minimap_data.draw_minimap_cells(&context, &game.world);
            self.minimap_data.draw_player_on_minimap(&context, &game.player);
        }
        Ok(())
    }
}

} // verus!
