//! Tests for the render state machine, camera intents and input handling.

use splat_render::configuration::{
    BasePathsConfiguration, Configuration, LoggingConfiguration, ScreenshotConfiguration,
};
use splat_render::renderer::{
    handle_keyboard_input, CameraAction, CameraAxis, PixelSurfaceRenderer, RenderReadAction,
    SplatRenderer, WindowAction, WindowInput, CAMERA_MOVE_STEP_BITS,
    DEFAULT_CAMERA_POSITION_COMPONENT_BITS, DEFAULT_SPLAT_SCALING_FACTOR_BITS, F32_ONE_BITS,
    PERSPECTIVE_FAR_PLANE_BITS, PERSPECTIVE_FOV_BITS, PERSPECTIVE_NEAR_PLANE_BITS,
};
use splat_render::scene::get_testing_splat_scene;
use splat_render::splat_decoder::Vector3Bits;

fn test_configuration() -> Configuration {
    Configuration {
        file_path: String::from("/tmp/configuration.toml"),
        base_paths: BasePathsConfiguration {
            base_data_directory_path: String::from("/tmp/data"),
        },
        logging: LoggingConfiguration {
            console_output_level_filter: String::from("info"),
            log_file_output_level_filter: String::from("debug"),
            log_file_output_directory: String::from("/tmp/data/logs"),
        },
        screenshot: ScreenshotConfiguration {
            screenshot_directory_path: String::from("/tmp/data/screenshots"),
        },
    }
}

fn test_renderer() -> SplatRenderer {
    SplatRenderer::new(
        test_configuration(),
        4,
        4,
        get_testing_splat_scene(),
        None,
        None,
        Vector3Bits { x: 0, y: 0, z: 0 },
        None,
    )
}

#[test]
fn constant_bit_patterns_match_their_floats() {
    assert_eq!(DEFAULT_CAMERA_POSITION_COMPONENT_BITS, 3.0f32.to_bits());
    assert_eq!(DEFAULT_SPLAT_SCALING_FACTOR_BITS, 2.0f32.to_bits());
    assert_eq!(F32_ONE_BITS, 1.0f32.to_bits());
    assert_eq!(PERSPECTIVE_FOV_BITS, 45.0f32.to_bits());
    assert_eq!(PERSPECTIVE_NEAR_PLANE_BITS, 0.1f32.to_bits());
    assert_eq!(PERSPECTIVE_FAR_PLANE_BITS, 100.0f32.to_bits());
    assert_eq!(CAMERA_MOVE_STEP_BITS, 0.1f32.to_bits());
}

#[test]
fn new_renderer_applies_defaults_and_starts_stale() {
    let renderer = test_renderer();
    assert_eq!(renderer.render_width, 4);
    assert_eq!(renderer.render_height, 4);
    assert_eq!(renderer.splat_scaling_factor_bits, 2.0f32.to_bits());
    assert_eq!(renderer.camera.position.x, 3.0f32.to_bits());
    assert_eq!(renderer.camera.position.y, 3.0f32.to_bits());
    assert_eq!(renderer.camera.position.z, 3.0f32.to_bits());
    assert_eq!(renderer.camera.up.x, 0.0f32.to_bits());
    assert_eq!(renderer.camera.up.y, 1.0f32.to_bits());
    assert_eq!(renderer.camera.up.z, 0.0f32.to_bits());
    assert!(renderer.pending_rerender);
    assert_eq!(renderer.frame, vec![0u8; 4 * 4 * 4]);
}

#[test]
fn new_renderer_keeps_supplied_camera() {
    let position = Vector3Bits { x: 1, y: 2, z: 3 };
    let target = Vector3Bits { x: 4, y: 5, z: 6 };
    let up = Vector3Bits { x: 7, y: 8, z: 9 };
    let renderer = SplatRenderer::new(
        test_configuration(),
        2,
        2,
        get_testing_splat_scene(),
        Some(5.0f32.to_bits()),
        Some(position),
        target,
        Some(up),
    );
    assert_eq!(renderer.splat_scaling_factor_bits, 5.0f32.to_bits());
    assert_eq!(renderer.camera.position, position);
    assert_eq!(renderer.camera.look_target, target);
    assert_eq!(renderer.camera.up, up);
}

#[test]
fn lazy_recompute_runs_exactly_once_per_intent() {
    let mut renderer = test_renderer();

    // A fresh renderer is stale: the first read recomputes.
    assert_eq!(renderer.read_action(), RenderReadAction::Recompute);
    renderer.render_in_place(&Vec::new());

    // Fresh now: further reads with no intent recompute nothing.
    assert_eq!(renderer.read_action(), RenderReadAction::ServeCached);
    assert_eq!(renderer.read_action(), RenderReadAction::ServeCached);

    // An intent makes it stale again; one recompute clears it.
    renderer.apply_camera_position(Vector3Bits { x: 1, y: 2, z: 3 });
    assert!(renderer.pending_rerender);
    assert_eq!(renderer.read_action(), RenderReadAction::Recompute);
    renderer.render_in_place(&Vec::new());
    assert_eq!(renderer.read_action(), RenderReadAction::ServeCached);
}

#[test]
fn recompute_is_idempotent() {
    let mut renderer = test_renderer();
    let camera_before = renderer.camera;
    renderer.render_in_place(&Vec::new());
    let first = renderer.frame.clone();
    renderer.render_in_place(&Vec::new());
    assert_eq!(renderer.frame, first);
    // The camera state, the up hint included, is never touched by a
    // recompute.
    assert_eq!(renderer.camera, camera_before);
}

#[test]
fn recompute_resets_canvas_to_opaque_black() {
    let mut renderer = test_renderer();
    renderer.render_in_place(&Vec::new());
    for p in renderer.frame.chunks_exact(4) {
        assert_eq!(p, &[0, 0, 0, 255]);
    }
}

#[test]
fn draw_serves_the_cached_frame() {
    let mut renderer = test_renderer();
    renderer.render_in_place(&Vec::new());
    let mut surface = vec![7u8; renderer.frame.len()];
    renderer.draw(&mut surface);
    assert_eq!(surface, renderer.frame);
}

#[test]
fn opaque_export_frame_forces_alpha() {
    let mut renderer = test_renderer();
    renderer.render_in_place(&Vec::new());
    let export = renderer.opaque_export_frame();
    assert_eq!(export.len(), renderer.frame.len());
    for (i, byte) in export.iter().enumerate() {
        if i % 4 == 3 {
            assert_eq!(*byte, 255);
        } else {
            assert_eq!(*byte, renderer.frame[i]);
        }
    }
}

fn character(key: &str, pressed: bool) -> WindowInput {
    WindowInput::CharacterKey { key: String::from(key), pressed }
}

#[test]
fn movement_keys_map_to_axis_intents() {
    let mut renderer = test_renderer();
    let cases = [
        ("s", CameraAxis::X, true),
        ("w", CameraAxis::X, false),
        ("d", CameraAxis::Y, true),
        ("e", CameraAxis::Y, false),
        ("f", CameraAxis::Z, true),
        ("r", CameraAxis::Z, false),
    ];
    for (key, axis, negative) in cases {
        let action = renderer.handle_window_event(&character(key, false));
        assert_eq!(action, CameraAction::MoveAlongAxis { axis, negative }, "key {}", key);
    }
    assert_eq!(
        renderer.handle_window_event(&character("t", false)),
        CameraAction::ZoomOutward
    );
    assert_eq!(
        renderer.handle_window_event(&character("g", false)),
        CameraAction::ZoomInward
    );
    assert_eq!(
        renderer.handle_window_event(&character("x", false)),
        CameraAction::Nothing
    );
}

#[test]
fn key_presses_do_nothing_until_released() {
    let mut renderer = test_renderer();
    assert_eq!(
        renderer.handle_window_event(&character("w", true)),
        CameraAction::Nothing
    );
}

#[test]
fn control_and_s_saves_a_screenshot() {
    let mut renderer = test_renderer();
    renderer.handle_window_event(&WindowInput::ControlKey { pressed: true });
    assert!(renderer.user_control.control_key_pressed);
    assert_eq!(
        renderer.handle_window_event(&character("s", false)),
        CameraAction::SaveScreenshot
    );
    renderer.handle_window_event(&WindowInput::ControlKey { pressed: false });
    assert!(!renderer.user_control.control_key_pressed);
    assert_eq!(
        renderer.handle_window_event(&character("s", false)),
        CameraAction::MoveAlongAxis { axis: CameraAxis::X, negative: true }
    );
}

#[test]
fn control_without_mouse_blocks_movement() {
    let mut renderer = test_renderer();
    renderer.handle_window_event(&WindowInput::ControlKey { pressed: true });
    assert_eq!(
        renderer.handle_window_event(&character("w", false)),
        CameraAction::Nothing
    );
    // Holding the left mouse button allows movement again.
    renderer.handle_window_event(&WindowInput::LeftMouseButton { pressed: true });
    assert_eq!(
        renderer.handle_window_event(&character("w", false)),
        CameraAction::MoveAlongAxis { axis: CameraAxis::X, negative: false }
    );
    // The cursor leaving the window releases the mouse state.
    renderer.handle_window_event(&WindowInput::CursorLeft);
    assert!(!renderer.user_control.left_mouse_pressed);
    assert_eq!(
        renderer.handle_window_event(&character("w", false)),
        CameraAction::Nothing
    );
}

#[test]
fn intents_do_not_touch_the_frame() {
    let mut renderer = test_renderer();
    renderer.render_in_place(&Vec::new());
    let frame_before = renderer.frame.clone();
    renderer.apply_camera_position(Vector3Bits { x: 9, y: 9, z: 9 });
    assert_eq!(renderer.frame, frame_before);
    assert_eq!(renderer.camera.position, Vector3Bits { x: 9, y: 9, z: 9 });
}

#[test]
fn q_quits_the_window_loop() {
    assert_eq!(handle_keyboard_input("q"), WindowAction::Quit);
    assert_eq!(handle_keyboard_input("w"), WindowAction::Nothing);
    assert_eq!(handle_keyboard_input(""), WindowAction::Nothing);
}
