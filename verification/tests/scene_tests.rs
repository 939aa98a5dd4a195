//! Tests for the built-in testing scene.

use splat_render::scene::get_testing_splat_scene;
use splat_render::splat_decoder::{ColorRgba, QuaternionBytes, Vector3Bits};

#[test]
fn testing_scene_has_five_splats() {
    let scene = get_testing_splat_scene();
    assert_eq!(scene.splats.len(), 5);
}

#[test]
fn testing_scene_matches_the_original_values() {
    let scene = get_testing_splat_scene();
    let zero = 0.0f32.to_bits();
    let one = 1.0f32.to_bits();
    let tenth = 0.1f32.to_bits();
    let neg_tenth = (-0.1f32).to_bits();

    let positions = [
        Vector3Bits { x: zero, y: zero, z: zero },
        Vector3Bits { x: tenth, y: zero, z: zero },
        Vector3Bits { x: zero, y: tenth, z: zero },
        Vector3Bits { x: zero, y: zero, z: tenth },
        Vector3Bits { x: zero, y: neg_tenth, z: zero },
    ];
    let colors = [
        ColorRgba { r: 244, g: 130, b: 80, a: 220 },
        ColorRgba { r: 200, g: 22, b: 1, a: 123 },
        ColorRgba { r: 200, g: 255, b: 255, a: 22 },
        ColorRgba { r: 22, g: 255, b: 255, a: 90 },
        ColorRgba { r: 22, g: 2, b: 255, a: 100 },
    ];

    for (i, splat) in scene.splats.iter().enumerate() {
        assert_eq!(splat.position, positions[i], "splat {}", i);
        assert_eq!(splat.color, colors[i], "splat {}", i);
        assert_eq!(splat.scale, Vector3Bits { x: one, y: one, z: one });
        // Every rotation byte stands for the component value 0.0.
        assert_eq!(splat.rotation, QuaternionBytes { c0: 128, c1: 128, c2: 128, c3: 128 });
    }
}
