//! Render state, camera intents and the lazy-recompute discipline.
//!
//! The renderer owns the scene, the camera state, the frame buffer and a
//! staleness flag.  Camera-mutating intents mark the frame stale; the
//! read path recomputes at most once per intent.  Floating-point camera
//! arithmetic (basis derivation, the view-projection transform, intent
//! steps) is performed by the embedding application, which hands the
//! per-splat projection results back for the verified culling, sorting
//! and compositing stages.

use vstd::prelude::*;

use crate::compositing::{compose_frame, render_spec, ProjectedSplat};
use crate::configuration::Configuration;
use crate::splat_decoder::{Splats, Vector3Bits};

verus! {

/// Bit pattern of `3.0f32`: the default camera position is `(3, 3, 3)`.
pub const DEFAULT_CAMERA_POSITION_COMPONENT_BITS: u32 = 0x4040_0000;

/// Bit pattern of `0.0f32`.
pub const F32_ZERO_BITS: u32 = 0x0000_0000;

/// Bit pattern of `1.0f32`: the default up hint is `(0, 1, 0)`.
pub const F32_ONE_BITS: u32 = 0x3F80_0000;

/// Bit pattern of `2.0f32`, the default splat scaling factor.
pub const DEFAULT_SPLAT_SCALING_FACTOR_BITS: u32 = 0x4000_0000;

/// Bit pattern of `45.0f32`, the perspective vertical field of view.
pub const PERSPECTIVE_FOV_BITS: u32 = 0x4234_0000;

/// Bit pattern of `0.1f32`, the perspective near plane.
pub const PERSPECTIVE_NEAR_PLANE_BITS: u32 = 0x3DCC_CCCD;

/// Bit pattern of `100.0f32`, the perspective far plane.
pub const PERSPECTIVE_FAR_PLANE_BITS: u32 = 0x42C8_0000;

/// Bit pattern of `0.1f32`, the fixed step of one camera-movement intent.
pub const CAMERA_MOVE_STEP_BITS: u32 = 0x3DCC_CCCD;

/// The mutable camera state: position, look target and the up vector,
/// each as three f32 bit patterns.  The orthonormal basis is re-derived
/// from these on every recompute, never stored as the source of truth.
#[derive(Clone, Copy, PartialEq, Eq, Structural, Debug)]
pub struct CameraState {
    pub position: Vector3Bits,
    pub look_target: Vector3Bits,
    pub up: Vector3Bits,
}

/// Modifier and mouse-button state that gates keyboard camera intents.
#[derive(Clone, Copy, PartialEq, Eq, Structural, Debug)]
pub struct UserControlState {
    pub left_mouse_pressed: bool,
    pub control_key_pressed: bool,
}

/// A world axis along which a movement intent shifts the camera.
#[derive(Clone, Copy, PartialEq, Eq, Structural, Debug)]
pub enum CameraAxis {
    X,
    Y,
    Z,
}

/// The discrete intent decided from one window event.  The embedding
/// application performs the floating-point step it calls for and hands
/// any new camera position back to the renderer.
#[derive(Clone, Copy, PartialEq, Eq, Structural, Debug)]
pub enum CameraAction {
    /// No camera effect.
    Nothing,
    /// Save the current frame to disk as a screenshot.
    SaveScreenshot,
    /// Move the camera position along a world axis by the fixed step.
    MoveAlongAxis { axis: CameraAxis, negative: bool },
    /// Move the camera backwards along the view direction by the step.
    ZoomOutward,
    /// Move the camera forwards along the view direction by the step.
    ZoomInward,
}

/// A window event reduced to the plain values the renderer decides on.
#[derive(Clone, PartialEq, Debug)]
pub enum WindowInput {
    /// A keyboard event whose logical key is the named Control key.
    ControlKey { pressed: bool },
    /// A keyboard event carrying a character key.
    CharacterKey { key: String, pressed: bool },
    /// A left-mouse-button event.
    LeftMouseButton { pressed: bool },
    /// The cursor left the window.
    CursorLeft,
    /// Any other window event.
    Other,
}

/// The action decided for a released character key, given the current
/// modifier and mouse state: `Ctrl+s` saves a screenshot; while Control
/// is held without the left mouse button, movement keys are ignored;
/// otherwise `s`/`w` move along x, `d`/`e` along y, `f`/`r` along z, and
/// `t`/`g` zoom outward and inward.
pub open spec fn character_key_action(
    key: Seq<char>,
    control_pressed: bool,
    left_mouse_pressed: bool,
) -> CameraAction {
    if key == "s"@ && control_pressed {
        CameraAction::SaveScreenshot
    } else if !left_mouse_pressed && control_pressed {
        CameraAction::Nothing
    } else if key == "s"@ {
        CameraAction::MoveAlongAxis { axis: CameraAxis::X, negative: true }
    } else if key == "w"@ {
        CameraAction::MoveAlongAxis { axis: CameraAxis::X, negative: false }
    } else if key == "d"@ {
        CameraAction::MoveAlongAxis { axis: CameraAxis::Y, negative: true }
    } else if key == "e"@ {
        CameraAction::MoveAlongAxis { axis: CameraAxis::Y, negative: false }
    } else if key == "f"@ {
        CameraAction::MoveAlongAxis { axis: CameraAxis::Z, negative: true }
    } else if key == "r"@ {
        CameraAction::MoveAlongAxis { axis: CameraAxis::Z, negative: false }
    } else if key == "t"@ {
        CameraAction::ZoomOutward
    } else if key == "g"@ {
        CameraAction::ZoomInward
    } else {
        CameraAction::Nothing
    }
}

/// How one window event updates the modifier and mouse-button state.
pub open spec fn control_state_update(u: UserControlState, event: WindowInput) -> UserControlState {
    match event {
        WindowInput::ControlKey { pressed } => UserControlState {
            control_key_pressed: pressed,
            ..u
        },
        WindowInput::LeftMouseButton { pressed } => UserControlState {
            left_mouse_pressed: pressed,
            ..u
        },
        WindowInput::CursorLeft => UserControlState { left_mouse_pressed: false, ..u },
        _ => u,
    }
}

/// The intent decided from one window event: character keys act on
/// release only, judged against the modifier state before the event.
pub open spec fn window_input_action(u: UserControlState, event: WindowInput) -> CameraAction {
    match event {
        WindowInput::CharacterKey { key, pressed } => if pressed {
            CameraAction::Nothing
        } else {
            character_key_action(key@, u.control_key_pressed, u.left_mouse_pressed)
        },
        _ => CameraAction::Nothing,
    }
}

/// The decision the frame-serving read path takes.
#[derive(Clone, Copy, PartialEq, Eq, Structural, Debug)]
pub enum RenderReadAction {
    /// The frame is stale: recompute it once, then serve it.
    Recompute,
    /// The frame is fresh: serve the cached frame, recomputing nothing.
    ServeCached,
}

/// The read decision for a given renderer state.
pub open spec fn read_action_spec(r: SplatRenderer) -> RenderReadAction {
    if r.pending_rerender {
        RenderReadAction::Recompute
    } else {
        RenderReadAction::ServeCached
    }
}

/// Character-level string equality.
fn str_eq(a: &str, b: &str) -> (r: bool)
    ensures
        r == (a@ == b@),
{
    let len_a: usize = a.unicode_len();
    let len_b: usize = b.unicode_len();
    if len_a != len_b {
        proof {
            if a@ == b@ {
                assert(a@.len() == b@.len());
            }
        }
        return false;
    }
    let mut i: usize = 0;
    while i < len_a
        invariant
            i <= len_a,
            len_a == a@.len(),
            len_a == b@.len(),
            forall|m: int| 0 <= m < i ==> a@[m] == b@[m],
        decreases len_a - i,
    {
        if a.get_char(i) != b.get_char(i) {
            proof {
                if a@ == b@ {
                    assert(a@[i as int] == b@[i as int]);
                }
            }
            return false;
        }
        i = i + 1;
    }
    proof {
        assert(a@ =~= b@);
    }
    true
}

/// The action the window loop takes for a character key: `q` quits.
#[derive(Clone, Copy, PartialEq, Eq, Structural, Debug)]
pub enum WindowAction {
    Nothing,
    Quit,
}

/// Decides the window-loop action for a character key (`q` quits the
/// program; every other key is left to the renderer).
pub fn handle_keyboard_input(key: &str) -> (a: WindowAction)
    ensures
        a == (if key@ == "q"@ {
            WindowAction::Quit
        } else {
            WindowAction::Nothing
        }),
{
    if str_eq(key, "q") {
        WindowAction::Quit
    } else {
        WindowAction::Nothing
    }
}

/// A renderer serving frames to a pixel surface.
pub trait PixelSurfaceRenderer {
    /// Length in bytes of the frame this renderer serves.
    spec fn surface_frame_len(&self) -> nat;

    /// Whether the cached frame is fresh; drawing serves the cache and
    /// requires it.
    spec fn surface_ready(&self) -> bool;

    /// The frame this renderer serves.
    spec fn surface_frame(&self) -> Seq<u8>;

    /// Copies the renderer's current frame into `frame`.
    fn draw(&self, frame: &mut Vec<u8>)
        requires
            self.surface_ready(),
            old(frame)@.len() == self.surface_frame_len(),
        ensures
            final(frame)@ == self.surface_frame(),
    ;
}

/// The splat renderer: owns the scene, the camera state, the frame
/// buffer and the staleness flag, and realizes the lazy-recompute state
/// machine (Fresh / Stale).
pub struct SplatRenderer {
    /// The resolved configuration (consulted for the screenshot path by
    /// the embedding application).
    pub configuration: Configuration,
    /// Width of the render canvas in pixels.
    pub render_width: u32,
    /// Height of the render canvas in pixels.
    pub render_height: u32,
    /// The scene; built once and never mutated.
    pub splat_file: Splats,
    /// The splat-size scaling factor, as an f32 bit pattern.
    pub splat_scaling_factor_bits: u32,
    /// Modifier and mouse-button state.
    pub user_control: UserControlState,
    /// The mutable camera state.
    pub camera: CameraState,
    /// True exactly while the frame buffer is stale relative to the
    /// camera state.
    pub pending_rerender: bool,
    /// Row-major RGBA frame buffer, 4 bytes per pixel, top-left origin.
    pub frame: Vec<u8>,
}

impl SplatRenderer {
    /// Structural well-formedness: a non-degenerate viewport whose frame
    /// buffer has exactly `width * height * 4` bytes.
    pub open spec fn wf(self) -> bool {
        &&& self.render_width >= 1
        &&& self.render_height >= 1
        &&& (self.render_width as int) * (self.render_height as int) * 4 <= usize::MAX as int
        &&& self.frame@.len() == (self.render_width as int) * (self.render_height as int) * 4
    }

    /// Builds a renderer in the Stale state over an all-zero frame
    /// buffer.  Unsupplied parameters take their documented defaults:
    /// scaling factor 2.0, camera position `(3, 3, 3)`, up hint
    /// `(0, 1, 0)` (the caller normalizes a supplied up hint and supplies
    /// the look target, by default the mean of the splat positions).
    pub fn new(
        configuration: Configuration,
        render_width: u32,
        render_height: u32,
        splat_file: Splats,
        splat_scaling_factor_bits: Option<u32>,
        initial_camera_position: Option<Vector3Bits>,
        initial_camera_look_target: Vector3Bits,
        initial_camera_up_vector: Option<Vector3Bits>,
    ) -> (r: SplatRenderer)
        requires
            render_width >= 1,
            render_height >= 1,
            (render_width as int) * (render_height as int) * 4 <= usize::MAX as int,
        ensures
            r.wf(),
            r.render_width == render_width,
            r.render_height == render_height,
            r.splat_file.splats@ == splat_file.splats@,
            r.splat_scaling_factor_bits == (match splat_scaling_factor_bits {
                Some(bits) => bits,
                None => DEFAULT_SPLAT_SCALING_FACTOR_BITS,
            }),
            r.camera.position == (match initial_camera_position {
                Some(p) => p,
                None => Vector3Bits {
                    x: DEFAULT_CAMERA_POSITION_COMPONENT_BITS,
                    y: DEFAULT_CAMERA_POSITION_COMPONENT_BITS,
                    z: DEFAULT_CAMERA_POSITION_COMPONENT_BITS,
                },
            }),
            r.camera.look_target == initial_camera_look_target,
            r.camera.up == (match initial_camera_up_vector {
                Some(u) => u,
                None => Vector3Bits { x: F32_ZERO_BITS, y: F32_ONE_BITS, z: F32_ZERO_BITS },
            }),
            r.user_control == (UserControlState {
                left_mouse_pressed: false,
                control_key_pressed: false,
            }),
            r.pending_rerender == true,
            r.frame@ == Seq::new(
                ((render_width as nat) * (render_height as nat) * 4) as nat,
                |i: int| 0u8,
            ),
            r.configuration == configuration,
    {
        let splat_scaling_factor_bits = match splat_scaling_factor_bits {
            Some(bits) => bits,
            None => DEFAULT_SPLAT_SCALING_FACTOR_BITS,
        };
        let camera_position = match initial_camera_position {
            Some(p) => p,
            None => Vector3Bits {
                x: DEFAULT_CAMERA_POSITION_COMPONENT_BITS,
                y: DEFAULT_CAMERA_POSITION_COMPONENT_BITS,
                z: DEFAULT_CAMERA_POSITION_COMPONENT_BITS,
            },
        };
        let up_vector = match initial_camera_up_vector {
            Some(u) => u,
            None => Vector3Bits { x: F32_ZERO_BITS, y: F32_ONE_BITS, z: F32_ZERO_BITS },
        };

        proof {
            assert((render_width as int) * (render_height as int) <= (render_width as int) * (
            render_height as int) * 4) by (nonlinear_arith)
                requires
                    render_width >= 1,
                    render_height >= 1,
            ;
        }
        let pixel_count: usize = (render_width as usize) * (render_height as usize);
        let frame_len: usize = pixel_count * 4;
        let mut frame: Vec<u8> = Vec::new();
        let mut i: usize = 0;
        while i < frame_len
            invariant
                i <= frame_len,
                frame@.len() == i,
                forall|m: int| 0 <= m < i ==> frame@[m] == 0u8,
            decreases frame_len - i,
        {
            frame.push(0);
            i = i + 1;
        }
        proof {
            assert(frame@ =~= Seq::new(
                ((render_width as nat) * (render_height as nat) * 4) as nat,
                |i: int| 0u8,
            ));
        }

        SplatRenderer {
            configuration,
            render_width,
            render_height,
            splat_file,
            splat_scaling_factor_bits,
            user_control: UserControlState { left_mouse_pressed: false, control_key_pressed: false },
            camera: CameraState {
                position: camera_position,
                look_target: initial_camera_look_target,
                up: up_vector,
            },
            pending_rerender: true,
            frame,
        }
    }

    /// The read decision of the lazy-recompute discipline: recompute
    /// exactly once while stale, serve the cache while fresh.
    pub fn read_action(&self) -> (a: RenderReadAction)
        ensures
            a == read_action_spec(*self),
    {
        if self.pending_rerender {
            RenderReadAction::Recompute
        } else {
            RenderReadAction::ServeCached
        }
    }

    /// Updates the modifier and mouse-button state from a window event
    /// and decides the camera intent it calls for.  Nothing else of the
    /// renderer changes; the caller applies the intent (performing its
    /// floating-point step) through [`SplatRenderer::apply_camera_position`].
    pub fn handle_window_event(&mut self, event: &WindowInput) -> (action: CameraAction)
        ensures
            action == window_input_action(old(self).user_control, *event),
            final(self).user_control == control_state_update(old(self).user_control, *event),
            final(self).configuration == old(self).configuration,
            final(self).render_width == old(self).render_width,
            final(self).render_height == old(self).render_height,
            final(self).splat_file == old(self).splat_file,
            final(self).splat_scaling_factor_bits == old(self).splat_scaling_factor_bits,
            final(self).camera == old(self).camera,
            final(self).pending_rerender == old(self).pending_rerender,
            final(self).frame == old(self).frame,
    {
        match event {
            WindowInput::ControlKey { pressed } => {
                self.user_control.control_key_pressed = *pressed;
                CameraAction::Nothing
            },
            WindowInput::CharacterKey { key, pressed } => {
                if *pressed {
                    return CameraAction::Nothing;
                }
                if str_eq(key.as_str(), "s") && self.user_control.control_key_pressed {
                    return CameraAction::SaveScreenshot;
                }
                if !self.user_control.left_mouse_pressed && self.user_control.control_key_pressed {
                    return CameraAction::Nothing;
                }
                if str_eq(key.as_str(), "s") {
                    CameraAction::MoveAlongAxis { axis: CameraAxis::X, negative: true }
                } else if str_eq(key.as_str(), "w") {
                    CameraAction::MoveAlongAxis { axis: CameraAxis::X, negative: false }
                } else if str_eq(key.as_str(), "d") {
                    CameraAction::MoveAlongAxis { axis: CameraAxis::Y, negative: true }
                } else if str_eq(key.as_str(), "e") {
                    CameraAction::MoveAlongAxis { axis: CameraAxis::Y, negative: false }
                } else if str_eq(key.as_str(), "f") {
                    CameraAction::MoveAlongAxis { axis: CameraAxis::Z, negative: true }
                } else if str_eq(key.as_str(), "r") {
                    CameraAction::MoveAlongAxis { axis: CameraAxis::Z, negative: false }
                } else if str_eq(key.as_str(), "t") {
                    CameraAction::ZoomOutward
                } else if str_eq(key.as_str(), "g") {
                    CameraAction::ZoomInward
                } else {
                    CameraAction::Nothing
                }
            },
            WindowInput::LeftMouseButton { pressed } => {
                self.user_control.left_mouse_pressed = *pressed;
                CameraAction::Nothing
            },
            WindowInput::CursorLeft => {
                self.user_control.left_mouse_pressed = false;
                CameraAction::Nothing
            },
            WindowInput::Other => CameraAction::Nothing,
        }
    }

    /// Stores a new camera position and marks the frame stale.
    pub fn apply_camera_position(&mut self, new_position: Vector3Bits)
        ensures
            camera_intent_transition(*old(self), *final(self), new_position),
    {
        self.camera.position = new_position;
        self.pending_rerender = true;
    }

    /// Recomputes the frame synchronously: culls, depth-sorts and
    /// composites the projected splats (which the caller computed from
    /// the current camera state, re-deriving the orthonormal basis from
    /// the stored position, target and up hint for this pass) into a
    /// fresh frame, and clears the staleness flag.  The camera state —
    /// the up hint included — is untouched: the derived basis is an
    /// output of the projection, never stored.
    pub fn render_in_place(&mut self, prepared_splats: &Vec<ProjectedSplat>)
        requires
            old(self).wf(),
        ensures
            final(self).wf(),
            render_transition(*old(self), *final(self), prepared_splats@),
    {
        let frame = compose_frame(prepared_splats, self.render_width, self.render_height);
        self.frame = frame;
        self.pending_rerender = false;
    }

    /// The frame with every pixel's alpha forced fully opaque, as a
    /// screenshot export wants it; the stored frame itself is untouched.
    pub fn opaque_export_frame(&self) -> (r: Vec<u8>)
        ensures
            r@.len() == self.frame@.len(),
            forall|i: int|
                0 <= i < r@.len() ==> r@[i] == (if i % 4 == 3 {
                    255u8
                } else {
                    self.frame@[i]
                }),
    {
        let len: usize = self.frame.len();
        let mut out: Vec<u8> = Vec::new();
        let mut i: usize = 0;
        while i < len
            invariant
                i <= len,
                len == self.frame@.len(),
                out@.len() == i,
                forall|m: int|
                    0 <= m < i ==> out@[m] == (if m % 4 == 3 {
                        255u8
                    } else {
                        self.frame@[m]
                    }),
            decreases len - i,
        {
            if i % 4 == 3 {
                out.push(255);
            } else {
                out.push(self.frame[i]);
            }
            i = i + 1;
        }
        out
    }
}

impl PixelSurfaceRenderer for SplatRenderer {
    open spec fn surface_frame_len(&self) -> nat {
        self.frame@.len()
    }

    open spec fn surface_ready(&self) -> bool {
        !self.pending_rerender
    }

    open spec fn surface_frame(&self) -> Seq<u8> {
        self.frame@
    }

    fn draw(&self, frame: &mut Vec<u8>) {
        let len: usize = self.frame.len();
        let mut i: usize = 0;
        while i < len
            invariant
                i <= len,
                len == self.frame@.len(),
                frame@.len() == len,
                forall|m: int| 0 <= m < i ==> frame@[m] == self.frame@[m],
            decreases len - i,
        {
            let value = self.frame[i];
            frame[i] = value;
            i = i + 1;
        }
        proof {
            assert(frame@ =~= self.frame@);
        }
    }
}

/// The transition a camera-mutating intent makes: the position changes,
/// the state becomes Stale, and everything else — the frame included —
/// stays as it was.
pub open spec fn camera_intent_transition(
    pre: SplatRenderer,
    post: SplatRenderer,
    new_position: Vector3Bits,
) -> bool {
    &&& post.camera.position == new_position
    &&& post.camera.look_target == pre.camera.look_target
    &&& post.camera.up == pre.camera.up
    &&& post.pending_rerender == true
    &&& post.frame == pre.frame
    &&& post.configuration == pre.configuration
    &&& post.render_width == pre.render_width
    &&& post.render_height == pre.render_height
    &&& post.splat_file == pre.splat_file
    &&& post.splat_scaling_factor_bits == pre.splat_scaling_factor_bits
    &&& post.user_control == pre.user_control
}

/// The transition a recompute makes: the frame becomes exactly the
/// rendering of the projected splats at the current viewport, the state
/// becomes Fresh, and everything else — the camera state with its up
/// hint included — stays as it was.
pub open spec fn render_transition(
    pre: SplatRenderer,
    post: SplatRenderer,
    prepared: Seq<ProjectedSplat>,
) -> bool {
    &&& post.frame@ == render_spec(prepared, pre.render_width as int, pre.render_height as int)
    &&& post.pending_rerender == false
    &&& post.camera == pre.camera
    &&& post.configuration == pre.configuration
    &&& post.render_width == pre.render_width
    &&& post.render_height == pre.render_height
    &&& post.splat_file == pre.splat_file
    &&& post.splat_scaling_factor_bits == pre.splat_scaling_factor_bits
    &&& post.user_control == pre.user_control
}

/// Idempotence: the frame a recompute installs is a function of the
/// projected scene and the viewport alone — whatever frames the two
/// states held before, recomputing both from the same inputs yields
/// bit-identical frames.
pub proof fn lemma_recompute_idempotent(
    pre1: SplatRenderer,
    post1: SplatRenderer,
    pre2: SplatRenderer,
    post2: SplatRenderer,
    prepared: Seq<ProjectedSplat>,
)
    requires
        render_transition(pre1, post1, prepared),
        render_transition(pre2, post2, prepared),
        pre1.render_width == pre2.render_width,
        pre1.render_height == pre2.render_height,
    ensures
        post1.frame@ == post2.frame@,
{
}

/// Lazy recompute: applying an intent leaves the state Stale, so the
/// next read decides to recompute; that one recompute leaves it Fresh,
/// so a further read with no intervening intent serves the cache and
/// recomputes nothing.
pub proof fn lemma_lazy_recompute(
    s0: SplatRenderer,
    s1: SplatRenderer,
    s2: SplatRenderer,
    new_position: Vector3Bits,
    prepared: Seq<ProjectedSplat>,
)
    requires
        camera_intent_transition(s0, s1, new_position),
        render_transition(s1, s2, prepared),
    ensures
        s1.pending_rerender,
        read_action_spec(s1) == RenderReadAction::Recompute,
        !s2.pending_rerender,
        read_action_spec(s2) == RenderReadAction::ServeCached,
        s2.frame@ == render_spec(prepared, s0.render_width as int, s0.render_height as int),
{
}

} // verus!
