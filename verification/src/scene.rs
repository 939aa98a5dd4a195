//! The built-in testing scene.

use vstd::prelude::*;

use crate::renderer::{F32_ONE_BITS, F32_ZERO_BITS};
use crate::splat_decoder::{ColorRgba, QuaternionBytes, Splat, Splats, Vector3Bits};

verus! {

/// Bit pattern of `0.1f32`, the offset of the testing splats from the
/// origin.
pub const TESTING_SCENE_OFFSET_BITS: u32 = 0x3DCC_CCCD;

/// Bit pattern of `-0.1f32`.
pub const TESTING_SCENE_NEGATIVE_OFFSET_BITS: u32 = 0xBDCC_CCCD;

/// The identity-like rotation of the testing splats: every quantized
/// component stands for `0.0` (byte 128).
pub open spec fn zero_rotation() -> QuaternionBytes {
    QuaternionBytes { c0: 128, c1: 128, c2: 128, c3: 128 }
}

/// Unit scale, `(1, 1, 1)`.
pub open spec fn unit_scale() -> Vector3Bits {
    Vector3Bits { x: F32_ONE_BITS, y: F32_ONE_BITS, z: F32_ONE_BITS }
}

/// The five splats of the testing scene: one at the world origin and
/// four offset by 0.1 along an axis, in mixed colours and alphas.
pub open spec fn testing_scene_spec() -> Seq<Splat> {
    seq![
        Splat {
            position: Vector3Bits { x: F32_ZERO_BITS, y: F32_ZERO_BITS, z: F32_ZERO_BITS },
            scale: unit_scale(),
            color: ColorRgba { r: 244, g: 130, b: 80, a: 220 },
            rotation: zero_rotation(),
        },
        Splat {
            position: Vector3Bits {
                x: TESTING_SCENE_OFFSET_BITS,
                y: F32_ZERO_BITS,
                z: F32_ZERO_BITS,
            },
            scale: unit_scale(),
            color: ColorRgba { r: 200, g: 22, b: 1, a: 123 },
            rotation: zero_rotation(),
        },
        Splat {
            position: Vector3Bits {
                x: F32_ZERO_BITS,
                y: TESTING_SCENE_OFFSET_BITS,
                z: F32_ZERO_BITS,
            },
            scale: unit_scale(),
            color: ColorRgba { r: 200, g: 255, b: 255, a: 22 },
            rotation: zero_rotation(),
        },
        Splat {
            position: Vector3Bits {
                x: F32_ZERO_BITS,
                y: F32_ZERO_BITS,
                z: TESTING_SCENE_OFFSET_BITS,
            },
            scale: unit_scale(),
            color: ColorRgba { r: 22, g: 255, b: 255, a: 90 },
            rotation: zero_rotation(),
        },
        Splat {
            position: Vector3Bits {
                x: F32_ZERO_BITS,
                y: TESTING_SCENE_NEGATIVE_OFFSET_BITS,
                z: F32_ZERO_BITS,
            },
            scale: unit_scale(),
            color: ColorRgba { r: 22, g: 2, b: 255, a: 100 },
            rotation: zero_rotation(),
        },
    ]
}

/// Builds the simple five-splat testing scene shown when no scene file is
/// supplied.
pub fn get_testing_splat_scene() -> (s: Splats)
    ensures
        s.splats@ == testing_scene_spec(),
{
    let zero_rotation = QuaternionBytes { c0: 128, c1: 128, c2: 128, c3: 128 };
    let unit_scale = Vector3Bits { x: F32_ONE_BITS, y: F32_ONE_BITS, z: F32_ONE_BITS };

    let mut entries: Vec<Splat> = Vec::new();
    entries.push(
        Splat::new(
            Vector3Bits { x: F32_ZERO_BITS, y: F32_ZERO_BITS, z: F32_ZERO_BITS },
            unit_scale,
            ColorRgba { r: 244, g: 130, b: 80, a: 220 },
            zero_rotation,
        ),
    );
    entries.push(
        Splat::new(
            Vector3Bits { x: TESTING_SCENE_OFFSET_BITS, y: F32_ZERO_BITS, z: F32_ZERO_BITS },
            unit_scale,
            ColorRgba { r: 200, g: 22, b: 1, a: 123 },
            zero_rotation,
        ),
    );
    entries.push(
        Splat::new(
            Vector3Bits { x: F32_ZERO_BITS, y: TESTING_SCENE_OFFSET_BITS, z: F32_ZERO_BITS },
            unit_scale,
            ColorRgba { r: 200, g: 255, b: 255, a: 22 },
            zero_rotation,
        ),
    );
    entries.push(
        Splat::new(
            Vector3Bits { x: F32_ZERO_BITS, y: F32_ZERO_BITS, z: TESTING_SCENE_OFFSET_BITS },
            unit_scale,
            ColorRgba { r: 22, g: 255, b: 255, a: 90 },
            zero_rotation,
        ),
    );
    entries.push(
        Splat::new(
            Vector3Bits {
                x: F32_ZERO_BITS,
                y: TESTING_SCENE_NEGATIVE_OFFSET_BITS,
                z: F32_ZERO_BITS,
            },
            unit_scale,
            ColorRgba { r: 22, g: 2, b: 255, a: 100 },
            zero_rotation,
        ),
    );
    proof {
        assert(entries@ =~= testing_scene_spec());
    }
    Splats::from_entries(entries)
}

} // verus!
