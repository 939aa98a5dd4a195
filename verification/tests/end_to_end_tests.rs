//! End-to-end render of a one-splat scene through the real camera
//! pipeline: the floating-point projection is computed here exactly as
//! the embedding application computes it, and the verified culling,
//! sorting and compositing stages produce the frame.

use nalgebra::{Matrix4, Perspective3, Point3, Vector3, Vector4};

use splat_render::compositing::ProjectedSplat;
use splat_render::configuration::{
    BasePathsConfiguration, Configuration, LoggingConfiguration, ScreenshotConfiguration,
};
use splat_render::renderer::SplatRenderer;
use splat_render::splat_decoder::{
    ColorRgba, QuaternionBytes, Splat, Splats, Vector3Bits,
};

fn minimal_configuration() -> Configuration {
    Configuration {
        file_path: String::from("configuration.toml"),
        base_paths: BasePathsConfiguration { base_data_directory_path: String::from("data") },
        logging: LoggingConfiguration {
            console_output_level_filter: String::from("info"),
            log_file_output_level_filter: String::from("info"),
            log_file_output_directory: String::from("data/logs"),
        },
        screenshot: ScreenshotConfiguration {
            screenshot_directory_path: String::from("data/screenshots"),
        },
    }
}

fn float_of(bits: u32) -> f32 {
    f32::from_bits(bits)
}

/// The projection stage as the embedding application runs it: basis
/// re-derivation from the persistent up hint, joint matrix, per-splat
/// clip transform, distance and billboard size, perspective and depth
/// divides, and the pixel mapping.
fn project_scene(
    splats: &[Splat],
    camera_position: Vector3Bits,
    camera_look_target: Vector3Bits,
    camera_up: Vector3Bits,
    render_width: u32,
    render_height: u32,
    scaling_factor_bits: u32,
) -> Vec<ProjectedSplat> {
    let position = Point3::new(
        float_of(camera_position.x),
        float_of(camera_position.y),
        float_of(camera_position.z),
    );
    let target = Point3::new(
        float_of(camera_look_target.x),
        float_of(camera_look_target.y),
        float_of(camera_look_target.z),
    );
    let up = Vector3::new(float_of(camera_up.x), float_of(camera_up.y), float_of(camera_up.z));
    let scaling_factor = float_of(scaling_factor_bits);

    let forward = (target - position).normalize();
    let side = forward.cross(&up).normalize();
    let updated_up = side.cross(&forward).normalize();

    let look_at = Matrix4::<f32>::look_at_rh(&position, &target, &updated_up);
    let projection = Perspective3::<f32>::new(
        render_width as f32 / render_height as f32,
        45f32,
        0.1,
        100.0,
    );
    let joint = projection.as_matrix() * look_at;

    let mut prepared = Vec::new();
    for splat in splats {
        let world = Vector4::new(
            float_of(splat.position.x),
            float_of(splat.position.y),
            float_of(splat.position.z),
            1f32,
        );
        let clip = joint * world;
        let distance = clip.xyz().norm();
        let billboard_size = (2.0 * scaling_factor / distance).round() as u32;

        let mut x = clip.x;
        let mut y = clip.y;
        let mut z = clip.z;
        let w = clip.w;
        x *= 1f32 / w;
        y *= 1f32 / w;
        z *= 1f32 / w;
        x *= 1f32 / z;
        y *= 1f32 / z;

        let center_x = (((x + 1.0) / 2.0) * (render_width as f32 - 1.0)).round() as u32;
        let center_y = (((y + 1.0) / 2.0) * (render_height as f32 - 1.0)).round() as u32;

        prepared.push(ProjectedSplat {
            ndc_x_bits: x.to_bits(),
            ndc_y_bits: y.to_bits(),
            depth_bits: distance.to_bits(),
            center_x,
            center_y,
            billboard_size,
            color: splat.color,
        });
    }
    prepared
}

#[test]
fn single_red_splat_renders_one_centered_cluster() {
    let red_splat = Splat::new(
        Vector3Bits { x: 0, y: 0, z: 0 },
        Vector3Bits {
            x: 1.0f32.to_bits(),
            y: 1.0f32.to_bits(),
            z: 1.0f32.to_bits(),
        },
        ColorRgba { r: 255, g: 0, b: 0, a: 255 },
        QuaternionBytes { c0: 128, c1: 128, c2: 128, c3: 128 },
    );
    let scene = Splats::from_entries(vec![red_splat]);

    let mut renderer = SplatRenderer::new(
        minimal_configuration(),
        64,
        64,
        scene,
        None,
        None,
        Vector3Bits { x: 0, y: 0, z: 0 },
        None,
    );

    let prepared = project_scene(
        &renderer.splat_file.splats.clone(),
        renderer.camera.position,
        renderer.camera.look_target,
        renderer.camera.up,
        renderer.render_width,
        renderer.render_height,
        renderer.splat_scaling_factor_bits,
    );
    assert_eq!(prepared.len(), 1);
    let projected = prepared[0];

    // The origin projects near the viewport centre and survives culling.
    let ndc_x = float_of(projected.ndc_x_bits);
    let ndc_y = float_of(projected.ndc_y_bits);
    assert!(ndc_x.abs() <= 1.0 && ndc_y.abs() <= 1.0);
    assert!((projected.center_x as i64 - 32).abs() <= 2);
    assert!((projected.center_y as i64 - 32).abs() <= 2);
    assert!(projected.billboard_size >= 1);

    renderer.render_in_place(&prepared);

    // The footprint: a square window of side `billboard_size` (at least
    // 1) around the centre — an even side extends one pixel fewer after
    // the centre than before it — clipped to the viewport.
    let side = projected.billboard_size.max(1);
    let before = side / 2;
    let after = (side - 1) / 2;
    let x0 = projected.center_x.saturating_sub(before);
    let x1 = (projected.center_x + after).min(63);
    let y0 = projected.center_y.saturating_sub(before);
    let y1 = (projected.center_y + after).min(63);

    let mut red_pixels = 0usize;
    for y in 0..64u32 {
        for x in 0..64u32 {
            let idx = ((y * 64 + x) * 4) as usize;
            let pixel = &renderer.frame[idx..idx + 4];
            if (x0..=x1).contains(&x) && (y0..=y1).contains(&y) {
                assert_eq!(pixel, &[255, 0, 0, 255], "expected red at ({}, {})", x, y);
                red_pixels += 1;
            } else {
                assert_eq!(pixel, &[0, 0, 0, 255], "expected background at ({}, {})", x, y);
            }
        }
    }
    assert_eq!(red_pixels as u64, ((x1 - x0 + 1) * (y1 - y0 + 1)) as u64);

    // The export copy of that frame is already fully opaque.
    let export = renderer.opaque_export_frame();
    assert_eq!(export, renderer.frame);
}
