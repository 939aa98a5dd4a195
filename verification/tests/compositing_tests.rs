//! Tests for culling, depth sorting and billboard compositing.

use splat_render::compositing::{
    blend_channel, compose_frame, is_visible, sort_splats_back_to_front,
    BillboardCoordinatesIterator, ProjectedSplat,
};
use splat_render::splat_decoder::ColorRgba;

fn projected(
    ndc_x: f32,
    ndc_y: f32,
    depth: f32,
    center: (u32, u32),
    size: u32,
    color: [u8; 4],
) -> ProjectedSplat {
    ProjectedSplat {
        ndc_x_bits: ndc_x.to_bits(),
        ndc_y_bits: ndc_y.to_bits(),
        depth_bits: depth.to_bits(),
        center_x: center.0,
        center_y: center.1,
        billboard_size: size,
        color: ColorRgba { r: color[0], g: color[1], b: color[2], a: color[3] },
    }
}

/// The per-channel "over" blend computed in normalized f32 space and
/// rounded back to 8 bits; the library's integer blend must agree with it.
fn float_blend(dst: u8, src: u8, alpha: u8) -> u8 {
    let a = alpha as f32 / 255.0;
    let blended = (1.0 - a) * (dst as f32 / 255.0) + a * (src as f32 / 255.0);
    (blended * 255.0).round() as u8
}

fn pixel(frame: &[u8], width: u32, x: u32, y: u32) -> [u8; 4] {
    let idx = ((y * width + x) * 4) as usize;
    [frame[idx], frame[idx + 1], frame[idx + 2], frame[idx + 3]]
}

#[test]
fn blend_channel_exact_values() {
    assert_eq!(blend_channel(0, 255, 255), 255);
    assert_eq!(blend_channel(77, 200, 0), 77);
    assert_eq!(blend_channel(0, 255, 128), 128);
    assert_eq!(blend_channel(255, 0, 255), 0);
    assert_eq!(blend_channel(100, 100, 37), 100);
}

#[test]
fn blend_channel_matches_float_blend() {
    for alpha in (0u16..=255).step_by(3) {
        for dst in (0u16..=255).step_by(17) {
            for src in (0u16..=255).step_by(23) {
                let (alpha, dst, src) = (alpha as u8, dst as u8, src as u8);
                assert_eq!(
                    blend_channel(dst, src, alpha),
                    float_blend(dst, src, alpha),
                    "alpha={} dst={} src={}",
                    alpha,
                    dst,
                    src
                );
            }
        }
    }
}

#[test]
fn billboard_iterator_window() {
    let mut it = BillboardCoordinatesIterator::from_center_and_size((10, 10), (5, 5), 3);
    let mut seen = Vec::new();
    while let Some(p) = it.next() {
        seen.push((p.x, p.y));
    }
    // side 3: one pixel before and one after the centre in each
    // direction -> the square [4, 6] x [4, 6], row-major.
    let mut expected = Vec::new();
    for y in 4..=6u32 {
        for x in 4..=6u32 {
            expected.push((x, y));
        }
    }
    assert_eq!(seen, expected);
}

#[test]
fn billboard_iterator_single_pixel() {
    // Side 1 (the minimum) is exactly the centre pixel.
    let mut it = BillboardCoordinatesIterator::from_center_and_size((10, 10), (5, 5), 1);
    let mut seen = Vec::new();
    while let Some(p) = it.next() {
        seen.push((p.x, p.y));
    }
    assert_eq!(seen, vec![(5, 5)]);
}

#[test]
fn billboard_iterator_even_side_favours_before() {
    // An even side extends one pixel fewer after the centre than before:
    // side 2 at (3, 3) covers [2, 3] x [2, 3].
    let mut it = BillboardCoordinatesIterator::from_center_and_size((10, 10), (3, 3), 2);
    let mut seen = Vec::new();
    while let Some(p) = it.next() {
        seen.push((p.x, p.y));
    }
    assert_eq!(seen, vec![(2, 2), (3, 2), (2, 3), (3, 3)]);
}

#[test]
fn billboard_iterator_clips_to_viewport() {
    let mut it = BillboardCoordinatesIterator::from_center_and_size((4, 3), (0, 0), 4);
    let mut seen = Vec::new();
    while let Some(p) = it.next() {
        seen.push((p.x, p.y));
    }
    // side 4 at the top-left corner: two pixels before the centre fall
    // off the canvas, one pixel after stays -> [0, 1] x [0, 1].
    assert_eq!(seen, vec![(0, 0), (1, 0), (0, 1), (1, 1)]);
}

#[test]
fn empty_scene_is_opaque_black_background() {
    let frame = compose_frame(&Vec::new(), 4, 3);
    assert_eq!(frame.len(), 4 * 3 * 4);
    for p in frame.chunks_exact(4) {
        assert_eq!(p, &[0, 0, 0, 255]);
    }
}

#[test]
fn single_opaque_splat_paints_its_footprint() {
    let red = projected(0.0, 0.0, 1.0, (2, 2), 3, [255, 0, 0, 255]);
    let frame = compose_frame(&vec![red], 8, 8);
    for y in 0..8u32 {
        for x in 0..8u32 {
            let expected = if (1..=3).contains(&x) && (1..=3).contains(&y) {
                [255, 0, 0, 255]
            } else {
                [0, 0, 0, 255]
            };
            assert_eq!(pixel(&frame, 8, x, y), expected, "x={} y={}", x, y);
        }
    }
}

#[test]
fn size_one_splat_paints_exactly_its_centre_pixel() {
    let red = projected(0.0, 0.0, 1.0, (2, 2), 1, [255, 0, 0, 255]);
    let frame = compose_frame(&vec![red], 8, 8);
    for y in 0..8u32 {
        for x in 0..8u32 {
            let expected = if (x, y) == (2, 2) {
                [255, 0, 0, 255]
            } else {
                [0, 0, 0, 255]
            };
            assert_eq!(pixel(&frame, 8, x, y), expected, "x={} y={}", x, y);
        }
    }
}

#[test]
fn culled_splat_never_appears() {
    let visible = projected(0.0, 0.0, 1.0, (2, 2), 1, [10, 20, 30, 200]);
    let culled_x = projected(1.5, 0.0, 1.0, (3, 3), 4, [255, 255, 255, 255]);
    let culled_y = projected(0.0, -1.0625, 1.0, (4, 4), 4, [255, 255, 255, 255]);
    let nan_depth = projected(0.0, 0.0, f32::NAN, (4, 4), 4, [255, 255, 255, 255]);

    assert!(is_visible(&visible, 8, 8));
    assert!(!is_visible(&culled_x, 8, 8));
    assert!(!is_visible(&culled_y, 8, 8));
    assert!(!is_visible(&nan_depth, 8, 8));

    let with_culled = compose_frame(
        &vec![culled_x, visible.clone(), culled_y, nan_depth],
        8,
        8,
    );
    let without_culled = compose_frame(&vec![visible], 8, 8);
    assert_eq!(with_culled, without_culled);
}

#[test]
fn boundary_ndc_values_are_kept() {
    let on_edge = projected(1.0, -1.0, 1.0, (7, 0), 1, [0, 255, 0, 255]);
    assert!(is_visible(&on_edge, 8, 8));
    let frame = compose_frame(&vec![on_edge], 8, 8);
    assert_eq!(pixel(&frame, 8, 7, 0), [0, 255, 0, 255]);
}

#[test]
fn depth_ordering_is_independent_of_scene_order() {
    let near = projected(0.0, 0.0, 1.0, (2, 2), 1, [255, 0, 0, 128]);
    let far = projected(0.0, 0.0, 2.0, (2, 2), 1, [0, 0, 255, 128]);

    let near_first = compose_frame(&vec![near.clone(), far.clone()], 8, 8);
    let far_first = compose_frame(&vec![far.clone(), near.clone()], 8, 8);
    assert_eq!(near_first, far_first);

    // The overlap pixel must equal blending the far splat onto the
    // background first and the near one over it.
    let expected_r = blend_channel(blend_channel(0, 0, 128), 255, 128);
    let expected_g = blend_channel(blend_channel(0, 0, 128), 0, 128);
    let expected_b = blend_channel(blend_channel(0, 255, 128), 0, 128);
    assert_eq!(pixel(&near_first, 8, 2, 2), [expected_r, expected_g, expected_b, 255]);
}

#[test]
fn equal_depth_splats_keep_scene_order() {
    // The documented tie-break: splats at equal distance composite in
    // their order within the culled scene.
    let first = projected(0.0, 0.0, 1.5, (2, 2), 1, [200, 0, 0, 128]);
    let second = projected(0.0, 0.0, 1.5, (2, 2), 1, [0, 200, 0, 128]);
    let frame = compose_frame(&vec![first, second], 8, 8);
    let expected_r = blend_channel(blend_channel(0, 200, 128), 0, 128);
    let expected_g = blend_channel(blend_channel(0, 0, 128), 200, 128);
    assert_eq!(pixel(&frame, 8, 2, 2), [expected_r, expected_g, 0, 255]);
}

#[test]
fn compose_frame_is_deterministic() {
    let splats = vec![
        projected(0.25, -0.5, 3.0, (1, 2), 2, [9, 8, 7, 100]),
        projected(-0.75, 0.5, 1.0, (3, 1), 3, [100, 150, 200, 30]),
        projected(0.0, 0.0, 2.0, (2, 2), 1, [255, 255, 0, 222]),
    ];
    let first = compose_frame(&splats, 6, 5);
    let second = compose_frame(&splats, 6, 5);
    assert_eq!(first, second);
}

#[test]
fn scene_order_never_matters_with_distinct_depths() {
    let splats = vec![
        projected(0.1, 0.1, 1.0, (2, 2), 2, [255, 0, 0, 120]),
        projected(-0.2, 0.0, 3.5, (2, 3), 3, [0, 255, 0, 80]),
        projected(0.0, -0.1, 2.25, (3, 2), 1, [0, 0, 255, 200]),
        projected(0.5, 0.5, 0.75, (5, 5), 2, [128, 128, 0, 60]),
    ];
    let reference = compose_frame(&splats, 8, 8);
    // Try several permutations of the same scene.
    let orders: [[usize; 4]; 5] = [
        [3, 2, 1, 0],
        [1, 0, 3, 2],
        [2, 3, 0, 1],
        [0, 2, 1, 3],
        [3, 0, 2, 1],
    ];
    for order in orders {
        let permuted: Vec<_> = order.iter().map(|&i| splats[i].clone()).collect();
        assert_eq!(compose_frame(&permuted, 8, 8), reference, "order {order:?}");
    }
}

#[test]
fn sort_orders_back_to_front_and_is_stable() {
    let a = projected(0.0, 0.0, 1.0, (0, 0), 1, [1, 0, 0, 255]);
    let b = projected(0.0, 0.0, 3.0, (1, 0), 1, [2, 0, 0, 255]);
    let c = projected(0.0, 0.0, 2.0, (2, 0), 1, [3, 0, 0, 255]);
    let d = projected(0.0, 0.0, 3.0, (3, 0), 1, [4, 0, 0, 255]);

    let mut v = vec![a.clone(), b.clone(), c.clone(), d.clone()];
    sort_splats_back_to_front(&mut v);
    // Descending distance; b and d share a distance and keep their order.
    assert_eq!(v, vec![b, d, c, a]);
}
