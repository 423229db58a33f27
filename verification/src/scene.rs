//! The scene: the meshes, the camera and the input, and the two steps of a
//! frame. [`Scene::update`] turns what is held into what the camera and the
//! window are to do; [`Scene::render`] draws every mesh into a colour
//! buffer.

use vstd::prelude::*;
use crate::camera::Camera;
use crate::fixed::{floor_div, ONE};
use crate::input_manager::{
    CursorGrabMode, InputManager, InputState, MouseButton, VirtualKeyCode,
};
use crate::object::Object;
use crate::raster::{draw_triangle, draw_triangle_spec, Frame, RenderError};
use crate::vector::{Vec2, Vec3};

verus! {

/// Thousandths of a unit that the camera moves in a millisecond while a
/// key is held.
pub const MOVE_PER_MILLE: i64 = 1;

/// Thousandths of a radian that the camera turns for a unit of mouse
/// movement.
pub const TURN_PER_MILLE: i64 = 4;

/// What is to be done after an update: how to show the pointer, and how
/// the camera moves.
#[derive(Clone, Copy, Debug, PartialEq, Eq, Structural)]
pub struct SceneUpdate {
    /// Whether the window is to show the pointer.
    pub cursor_visible: bool,
    /// How the window is to tie the pointer.
    pub cursor_mode: CursorGrabMode,
    /// How far the camera moves along its own axes: `x` sideways, `y`
    /// vertically, `z` along its line of sight.
    pub movement: Vec3,
    /// The angle, in radians, by which the camera turns in its xz-plane.
    pub turn: i64,
}

/// The meshes to draw, the camera that looks at them, and the input that
/// steers it.
pub struct Scene {
    pub objects: Vec<Object>,
    pub camera: Camera,
    pub input_manager: InputManager,
}

/// How the pointer is tied and whether it is shown after an update: the
/// escape key frees and shows it; failing that, the left mouse button
/// locks and hides it; failing both, it stays as it was.
pub open spec fn cursor_after(state: InputState) -> (CursorGrabMode, bool) {
    if state.keycodes.contains(VirtualKeyCode::Escape) {
        (CursorGrabMode::Free, true)
    } else if state.mouse_buttons.contains(MouseButton::Left) {
        (CursorGrabMode::Locked, false)
    } else {
        (state.cursor_mode, state.cursor_visible)
    }
}

/// The distance that a held key moves the camera in `delta_millis`
/// milliseconds.
pub open spec fn step_spec(delta_millis: u32) -> int {
    (delta_millis * MOVE_PER_MILLE * ONE) / 1000
}

/// The movement along one axis: a step forth if `forth` is held, a step
/// back if `back` is held, and none if both are or neither is.
pub open spec fn axis_motion(forth: bool, back: bool, step: int) -> int {
    (if forth { step } else { 0 }) - (if back { step } else { 0 })
}

/// The camera's movement for the keys that `state` holds.
pub open spec fn movement_spec(state: InputState, delta_millis: u32) -> Vec3 {
    let step = step_spec(delta_millis);
    Vec3 {
        x: axis_motion(
            state.keycodes.contains(VirtualKeyCode::A),
            state.keycodes.contains(VirtualKeyCode::D),
            step,
        ) as i64,
        y: axis_motion(
            state.keycodes.contains(VirtualKeyCode::LControl),
            state.keycodes.contains(VirtualKeyCode::Space),
            step,
        ) as i64,
        z: axis_motion(
            state.keycodes.contains(VirtualKeyCode::W),
            state.keycodes.contains(VirtualKeyCode::S),
            step,
        ) as i64,
    }
}

/// The angle that the camera turns by for a mouse movement of `dx`.
pub open spec fn turn_spec(dx: i64) -> int {
    (dx * TURN_PER_MILLE) / 1000
}

/// A depth buffer in which every pixel is as far as can be.
pub open spec fn cleared_depth(len: nat) -> Seq<i64> {
    Seq::new(len, |i: int| ONE)
}

/// The frame after the first `count` faces of `object` are drawn into it,
/// in order.
pub open spec fn draw_faces(frame: Frame, camera: Camera, object: Object, count: int) -> Frame
    decreases count,
{
    if count <= 0 {
        frame
    } else {
        let clip = object.triangle_spec(object.triangles@[count - 1]);
        draw_triangle_spec(
            draw_faces(frame, camera, object, count - 1),
            camera.width() as int,
            camera.height() as int,
            camera.to_screen_spec(clip.truncated_spec()),
            clip.depths_spec(),
        )
    }
}

/// The frame after the first `count` of `objects` are drawn into it, in
/// order, each with all its faces.
pub open spec fn draw_objects(frame: Frame, camera: Camera, objects: Seq<Object>, count: int) -> Frame
    decreases count,
{
    if count <= 0 {
        frame
    } else {
        draw_faces(
            draw_objects(frame, camera, objects, count - 1),
            camera,
            objects[count - 1],
            objects[count - 1].triangles@.len() as int,
        )
    }
}

/// The colours of a frame after all of `objects` are drawn over `color`,
/// starting from a cleared depth buffer.
pub open spec fn render_spec(color: Seq<u32>, camera: Camera, objects: Seq<Object>) -> Seq<u32> {
    draw_objects(
        Frame { color, depth: cleared_depth(color.len()) },
        camera,
        objects,
        objects.len() as int,
    ).color
}

/// Whether every face of every one of `objects` is in range.
pub open spec fn all_valid(objects: Seq<Object>) -> bool {
    forall|i: int| 0 <= i < objects.len() ==> (#[trigger] objects[i]).valid()
}

fn cleared_depth_buffer(len: usize) -> (r: Vec<i64>)
    ensures
        r@ == cleared_depth(len as nat),
{
    let mut r: Vec<i64> = Vec::new();
    let mut i: usize = 0;
    while i < len
        invariant
            i <= len,
            r@.len() == i,
            forall|j: int| 0 <= j < i ==> r@[j] == ONE,
        decreases len - i,
    {
        r.push(ONE);
        i += 1;
    }
    proof {
        assert(r@ =~= cleared_depth(len as nat));
    }
    r
}

impl Scene {
    /// A scene of `objects` seen on a screen of `screen_width` by
    /// `screen_height` pixels, with nothing held.
    pub fn new(objects: Vec<Object>, screen_width: u32, screen_height: u32) -> (r: Self)
        ensures
            r.objects == objects,
            r.camera == Camera::sized(screen_width, screen_height),
            r.input_manager@ == InputManager::initial(),
    {
        Scene {
            objects,
            camera: Camera::new(screen_width, screen_height),
            input_manager: InputManager::new(),
        }
    }

    /// One step of the input: decides from what is held how the pointer is
    /// shown and how the camera moves in `delta_millis` milliseconds.
    ///
    /// The movement of the mouse turns the camera only while the pointer is
    /// hidden, and is then used up.
    pub fn update(&mut self, delta_millis: u32) -> (r: SceneUpdate)
        ensures
            final(self).objects == old(self).objects,
            final(self).camera == old(self).camera,
            r.cursor_mode == cursor_after(old(self).input_manager@).0,
            r.cursor_visible == cursor_after(old(self).input_manager@).1,
            r.movement == movement_spec(old(self).input_manager@, delta_millis),
            r.turn == if r.cursor_visible {
                0
            } else {
                turn_spec(old(self).input_manager@.mouse_delta.x)
            },
            final(self).input_manager@ == (InputState {
                cursor_mode: r.cursor_mode,
                cursor_visible: r.cursor_visible,
                mouse_delta: if r.cursor_visible {
                    old(self).input_manager@.mouse_delta
                } else {
                    Vec2 { x: 0, y: 0 }
                },
                ..old(self).input_manager@
            }),
    {
        if self.input_manager.is_keycode_held(VirtualKeyCode::Escape) {
            self.input_manager.set_cursor(CursorGrabMode::Free, true);
        } else if self.input_manager.is_mouse_button_held(MouseButton::Left) {
            self.input_manager.set_cursor(CursorGrabMode::Locked, false);
        }
        let cursor_visible = self.input_manager.cursor_visible();
        let cursor_mode = self.input_manager.cursor_mode();

        let step: i64 = ((delta_millis as i64) * MOVE_PER_MILLE * ONE) / 1000;
        let mut movement = Vec3::new(0, 0, 0);
        if self.input_manager.is_keycode_held(VirtualKeyCode::W) {
            movement.z = movement.z + step;
        }
        if self.input_manager.is_keycode_held(VirtualKeyCode::S) {
            movement.z = movement.z - step;
        }
        if self.input_manager.is_keycode_held(VirtualKeyCode::A) {
            movement.x = movement.x + step;
        }
        if self.input_manager.is_keycode_held(VirtualKeyCode::D) {
            movement.x = movement.x - step;
        }
        if self.input_manager.is_keycode_held(VirtualKeyCode::LControl) {
            movement.y = movement.y + step;
        }
        if self.input_manager.is_keycode_held(VirtualKeyCode::Space) {
            movement.y = movement.y - step;
        }

        let mut turn: i64 = 0;
        if !cursor_visible {
            let mouse_delta = self.input_manager.use_mouse_delta();
            turn = floor_div((mouse_delta.x as i128) * (TURN_PER_MILLE as i128), 1000) as i64;
        }
        SceneUpdate { cursor_visible, cursor_mode, movement, turn }
    }

    /// Draws the scene into `buffer`, one packed colour for each pixel of a
    /// screen of `width` by `height`, row by row.
    ///
    /// The camera takes the new size of the screen. Each vertex is read as
    /// a point in clip space. Every face of every mesh is then projected
    /// to the screen and drawn over a cleared depth buffer, meshes and faces
    /// in their order, so that the same scene gives the same picture.
    ///
    /// Fails, leaving `buffer` as it is, when `buffer` does not hold
    /// `width * height` colours, or else when a face names a vertex that
    /// its mesh does not have.
    pub fn render(&mut self, buffer: &mut Vec<u32>, width: u32, height: u32) -> (r: Result<
        (),
        RenderError,
    >)
        ensures
            final(self).objects == old(self).objects,
            final(self).input_manager == old(self).input_manager,
            final(self).camera == Camera::sized(width, height),
            r == Err::<(), RenderError>(RenderError::BufferSizeMismatch) <==> old(buffer)@.len()
                != width * height,
            r == Err::<(), RenderError>(RenderError::IndexOutOfRange) <==> old(buffer)@.len()
                == width * height && !all_valid(old(self).objects@),
            r is Ok <==> old(buffer)@.len() == width * height && all_valid(old(self).objects@),
            r is Err ==> final(buffer)@ == old(buffer)@,
            r is Ok ==> final(buffer)@ == render_spec(
                old(buffer)@,
                Camera::sized(width, height),
                old(self).objects@,
            ),
    {
        self.camera.update_screen_dimensions(width, height);
        let len: usize = buffer.len();
        let size: usize = match (width as usize).checked_mul(height as usize) {
            Some(size) => size,
            None => {
                return Err(RenderError::BufferSizeMismatch);
            },
        };
        if len != size {
            return Err(RenderError::BufferSizeMismatch);
        }
        let mut checked: usize = 0;
        while checked < self.objects.len()
            invariant
                checked <= self.objects@.len(),
                self.objects == old(self).objects,
                self.input_manager == old(self).input_manager,
                self.camera == Camera::sized(width, height),
                buffer@ == old(buffer)@,
                old(buffer)@.len() == width * height,
                forall|i: int| 0 <= i < checked ==> (#[trigger] self.objects@[i]).valid(),
            decreases self.objects@.len() - checked,
        {
            if !self.objects[checked].is_valid() {
                return Err(RenderError::IndexOutOfRange);
            }
            checked += 1;
        }
        let mut camera = self.camera;
        let mut depth_buffer = cleared_depth_buffer(size);
        let ghost start = Frame { color: buffer@, depth: depth_buffer@ };
        let mut i: usize = 0;
        while i < self.objects.len()
            invariant
                i <= self.objects@.len(),
                self.objects == old(self).objects,
                self.input_manager == old(self).input_manager,
                self.camera == Camera::sized(width, height),
                camera == Camera::sized(width, height),
                camera.width() == width,
                camera.height() == height,
                old(buffer)@.len() == width * height,
                all_valid(old(self).objects@),
                all_valid(self.objects@),
                start.fits(width as int, height as int),
                (Frame { color: buffer@, depth: depth_buffer@ }) == draw_objects(
                    start,
                    camera,
                    self.objects@,
                    i as int,
                ),
                (Frame { color: buffer@, depth: depth_buffer@ }).fits(width as int, height as int),
            decreases self.objects@.len() - i,
        {
            let object = &self.objects[i];
            let ghost object_start = Frame { color: buffer@, depth: depth_buffer@ };
            let mut j: usize = 0;
            while j < object.triangles.len()
                invariant
                    j <= object.triangles@.len(),
                    self.objects == old(self).objects,
                    self.input_manager == old(self).input_manager,
                    self.camera == Camera::sized(width, height),
                    camera == Camera::sized(width, height),
                    camera.width() == width,
                    camera.height() == height,
                    old(buffer)@.len() == width * height,
                    all_valid(old(self).objects@),
                    object.valid(),
                    object_start.fits(width as int, height as int),
                    (Frame { color: buffer@, depth: depth_buffer@ }) == draw_faces(
                        object_start,
                        camera,
                        *object,
                        j as int,
                    ),
                    (Frame { color: buffer@, depth: depth_buffer@ }).fits(
                        width as int,
                        height as int,
                    ),
                decreases object.triangles@.len() - j,
            {
                let clip = object.get_triangle_unchecked(object.triangles[j]);
                let (screen_triangle, z_depth) = camera.project_triangle(clip);
                let drawn = draw_triangle(
                    &camera,
                    &screen_triangle,
                    &z_depth,
                    buffer,
                    &mut depth_buffer,
                );
                if drawn.is_err() {
                    return drawn;
                }
                j += 1;
            }
            i += 1;
        }
        Ok(())
    }
}

} // verus!
