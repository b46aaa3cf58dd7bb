//! The engine: the game state and the renderer, and the decisions of the
//! frame loop. The loop itself belongs to the caller, who polls the input,
//! presents the pictures and sleeps; every decision in between is made
//! here.

use vstd::prelude::*;
use crate::fixed::Fixed;
use crate::game::{GameContext, Intents, Rotation};
use crate::render::{minimap_fits, minimap_pixel, scene_pixel, RenderError, Renderer};
use crate::texture::valid_textures;

verus! {

/// Nanoseconds in a millisecond.
pub const NANOS_PER_MILLI: u64 = 1000000;

/// What the input system reported, as far as the engine cares.
#[derive(Clone, Copy, Debug, PartialEq, Eq, Structural)]
pub enum InputEvent {
    /// The user asked to close the program.
    Quit,
    /// The escape key went down.
    EscapePressed,
    /// Anything else.
    Other,
}

/// The game state, the renderer, and the duration of the last frame in
/// nanoseconds.
#[derive(Debug)]
pub struct Engine {
    pub game_context: GameContext,
    pub renderer: Renderer,
    pub delta_time: u64,
}

/// Whether one of the events asks to quit.
pub open spec fn asks_to_quit(events: Seq<InputEvent>) -> bool {
    exists|i: int|
        0 <= i < events.len() && ((#[trigger] events[i]) == InputEvent::Quit || events[i] == InputEvent::EscapePressed)
}

/// The frame time that a target rate calls for, in nanoseconds: a whole
/// number of milliseconds, or zero, which stands for no cap, when the rate
/// is not positive.
pub open spec fn frame_time_for(fps: int) -> int {
    if fps <= 0 {
        0
    } else {
        (1000int / fps) * 1000000
    }
}

impl Engine {
    /// The engine's invariant: that of its game state and of its renderer.
    pub open spec fn wf(&self) -> bool {
        self.game_context.wf() && self.renderer.wf()
    }

    /// Whether the game state and the renderer are both valid.
    pub fn is_valid(&self) -> (valid: bool)
        ensures
            valid == self.wf(),
    {
        self.game_context.is_valid() && self.renderer.is_valid()
    }

    /// An engine with a new game and a new renderer for a window of the
    /// given size; no frame has been timed yet. It fails exactly when the
    /// renderer cannot be made.
    pub fn new(window_width: u32, window_height: u32, textures: Vec<Vec<u32>>) -> (result: Result<
        Engine,
        RenderError,
    >)
        ensures
            result is Ok <==> valid_textures(textures@) && window_width * window_height <= crate::canvas::MAX_PIXELS,
            result matches Err(fault) ==> fault == (if !valid_textures(textures@) {
                RenderError::BadTextures
            } else {
                RenderError::SurfaceTooLarge
            }),
            result matches Ok(engine) ==> {
                &&& engine.wf()
                &&& engine.delta_time == 0
                &&& engine.game_context.fresh()
                &&& engine.game_context.standing_open()
                &&& engine.renderer.fresh(window_width, window_height, textures)
            },
    {
        let renderer = match Renderer::new(window_width, window_height, textures) {
            Ok(renderer) => renderer,
            Err(fault) => {
                return Err(fault);
            },
        };
        match GameContext::new() {
            Ok(game_context) => Ok(Engine { game_context, renderer, delta_time: 0 }),
            Err(_) => vstd::pervasive::unreached(),
        }
    }

    /// Sets the target frame rate. A rate that is not positive lifts the
    /// cap.
    pub fn set_target_fps(&mut self, fps: i32)
        ensures
            final(self).renderer.render_context.desired_frame_time == frame_time_for(fps as int),
            final(self).renderer.render_context == (crate::render::RenderContext {
                desired_frame_time: final(self).renderer.render_context.desired_frame_time,
                ..old(self).renderer.render_context
            }),
            final(self).renderer.image_textures == old(self).renderer.image_textures,
            final(self).renderer.render_data == old(self).renderer.render_data,
            final(self).renderer.minimap_data == old(self).renderer.minimap_data,
            final(self).game_context == old(self).game_context,
            final(self).delta_time == old(self).delta_time,
    {
        self.renderer.render_context.desired_frame_time = if fps <= 0 {
            0
        } else {
            ((1000 / fps) as u64) * NANOS_PER_MILLI
        };
    }

    /// Takes in the input of a frame. Returns `true`, and changes nothing,
    /// when one of the events asks to quit; otherwise asserts the intent of
    /// every movement key that is held.
    pub fn handle_events(&mut self, events: &Vec<InputEvent>, held: Intents) -> (quit: bool)
        ensures
            quit == asks_to_quit(events@),
            quit ==> *final(self) == *old(self),
            !quit ==> *final(self) == (Engine {
                game_context: GameContext {
                    move_state: Intents {
                        forward: old(self).game_context.move_state.forward || held.forward,
                        backward: old(self).game_context.move_state.backward || held.backward,
                        turn_left: old(self).game_context.move_state.turn_left || held.turn_left,
                        turn_right: old(self).game_context.move_state.turn_right || held.turn_right,
                    },
                    ..old(self).game_context
                },
                ..*old(self)
            }),
    {
        let mut i: usize = 0;
        while i < events.len()
            invariant
                i <= events@.len(),
                forall|k: int| 0 <= k < i ==> #[trigger] events@[k] == InputEvent::Other,
            decreases events@.len() - i,
        {
            match events[i] {
                InputEvent::Other => {},
                _ => {
                    return true;
                },
            }
            i += 1;
        }
        if held.forward {
            self.game_context.move_forward();
        }
        if held.backward {
            self.game_context.move_backwards();
        }
        if held.turn_left {
            self.game_context.turn_left();
        }
        if held.turn_right {
            self.game_context.turn_right();
        }
        false
    }

    /// The angle by which the player turns in the coming tick, in radians.
    pub fn rotation_angle(&self) -> (angle: Fixed)
        requires
            self.wf(),
        ensures
            angle.raw == self.game_context.turn_step(self.delta_time as int),
    {
        self.game_context.rotation_angle(self.delta_time)
    }

    /// Computes a frame: advances the game by the duration of the last
    /// frame, with `rotation` as the turn of that tick, and draws the
    /// result.
    pub fn frame(&mut self, rotation: Rotation) -> (result: Result<(), RenderError>)
        requires
            old(self).wf(),
            rotation.wf(),
        ensures
            final(self).wf(),
            final(self).delta_time == old(self).delta_time,
            final(self).game_context.world == old(self).game_context.world,
            final(self).game_context.move_state == (Intents {
                forward: false,
                backward: false,
                turn_left: false,
                turn_right: false,
            }),
            (
                final(self).game_context.player.position.x.raw as int,
                final(self).game_context.player.position.y.raw as int,
            ) == old(self).game_context.position_after(old(self).delta_time as int),
            (
                final(self).game_context.player.camera_direction.x.raw as int,
                final(self).game_context.player.camera_direction.y.raw as int,
            ) == old(self).game_context.vector_after(
                rotation,
                old(self).game_context.player.camera_direction.x.raw as int,
                old(self).game_context.player.camera_direction.y.raw as int,
            ),
            (
                final(self).game_context.player.camera_plane.x.raw as int,
                final(self).game_context.player.camera_plane.y.raw as int,
            ) == old(self).game_context.vector_after(
                rotation,
                old(self).game_context.player.camera_plane.x.raw as int,
                old(self).game_context.player.camera_plane.y.raw as int,
            ),
            old(self).game_context.standing_open() ==> final(self).game_context.standing_open(),
            final(self).renderer.render_context == old(self).renderer.render_context,
            final(self).renderer.image_textures == old(self).renderer.image_textures,
            final(self).renderer.render_data.same_shape(&old(self).renderer.render_data),
            result is Ok <==> minimap_fits(
                old(self).renderer.render_context.minimap_scale as int,
                old(self).game_context.world.size as int,
            ),
            result is Err ==> result->Err_0 == RenderError::MinimapTooLarge && final(self).renderer == old(self).renderer,
            result is Ok ==> {
                &&& forall|px: int, py: int|
                    final(self).renderer.render_data.holds(px, py) ==> #[trigger] final(self).renderer.render_data.pixel(px, py) == scene_pixel(
                        final(self).renderer.render_context,
                        final(self).renderer.image_textures@,
                        final(self).game_context.world,
                        final(self).game_context.player,
                        final(self).renderer.render_data.width as int,
                        final(self).renderer.render_data.height as int,
                        px,
                        py,
                    )
                &&& forall|px: int, py: int|
                    final(self).renderer.minimap_data.holds(px, py) ==> #[trigger] final(self).renderer.minimap_data.pixel(px, py) == minimap_pixel(
                        final(self).renderer.render_context,
                        final(self).game_context.world,
                        final(self).game_context.player,
                        final(self).renderer.render_data.width as int,
                        px,
                        py,
                    )
            },
    {
        self.game_context.tick(self.delta_time, rotation);
        self.renderer.draw(&self.game_context)
    }

    /// Paces the loop at the end of a frame that took `frame_time`
    /// nanoseconds. Returns how long to sleep: what is left of the target
    /// frame time, if anything. The duration of the frame is recorded as
    /// the target frame time if the frame was faster than that, and as
    /// `frame_time` otherwise.
    pub fn wait(&mut self, frame_time: u64) -> (sleep: u64)
        ensures
            sleep == (if frame_time <= old(self).renderer.render_context.desired_frame_time {
                old(self).renderer.render_context.desired_frame_time - frame_time
            } else {
                0
            }),
            final(self).delta_time == (if frame_time <= old(self).renderer.render_context.desired_frame_time {
                old(self).renderer.render_context.desired_frame_time
            } else {
                frame_time
            }),
            final(self).game_context == old(self).game_context,
            final(self).renderer == old(self).renderer,
    {
        let desired: u64 = self.renderer.render_context.desired_frame_time;
        if frame_time <= desired {
            self.delta_time = desired;
            desired - frame_time
        } else {
            self.delta_time = frame_time;
            0
        }
    }
}

} // verus!
