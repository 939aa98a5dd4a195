//! Projection-result filtering, depth sorting and billboard compositing.
//!
//! The stage takes per-splat projection results (normalized device
//! coordinates and a camera distance, both as IEEE 754 single-precision
//! bit patterns, plus an integer pixel footprint), discards splats that
//! fall outside the viewport, orders the survivors back to front and
//! alpha-blends square billboards into an RGBA frame buffer.

use vstd::arithmetic::div_mod::lemma_fundamental_div_mod_converse;
use vstd::math::{max, min};
use vstd::multiset::Multiset;
use vstd::prelude::*;

use crate::splat_decoder::ColorRgba;

verus! {

/// A pixel coordinate inside (or, for an iterator driven outside the
/// viewport, around) the render canvas.
#[derive(Clone, Copy, PartialEq, Eq, Structural, Debug)]
pub struct PixelPosition {
    pub x: u32,
    pub y: u32,
}

/// `a - b`, clamped at zero (`u32::saturating_sub`).
pub open spec fn sat_sub_u32(a: u32, b: u32) -> u32 {
    if a >= b {
        (a - b) as u32
    } else {
        0u32
    }
}

/// `a + b`, clamped at `u32::MAX` (`u32::saturating_add`).
pub open spec fn sat_add_u32(a: u32, b: u32) -> u32 {
    if a + b > u32::MAX {
        u32::MAX
    } else {
        (a + b) as u32
    }
}

/// How far the billboard footprint extends before (left of, or above)
/// its centre pixel: half the side, rounded down.  The side is
/// `billboard_size_pixels`, with a minimum of 1.
pub open spec fn footprint_reach_before(billboard_size_pixels: u32) -> u32 {
    let m: u32 = if billboard_size_pixels < 1 {
        1u32
    } else {
        billboard_size_pixels
    };
    (m / 2) as u32
}

/// How far the billboard footprint extends after (right of, or below)
/// its centre pixel: the rest of the side.  The centring rule for an
/// even side: it extends one pixel fewer after the centre than before
/// it, so the window's side is always exactly the (minimum-1) size.
pub open spec fn footprint_reach_after(billboard_size_pixels: u32) -> u32 {
    let m: u32 = if billboard_size_pixels < 1 {
        1u32
    } else {
        billboard_size_pixels
    };
    (((m - 1) / 2)) as u32
}

/// Row-major enumeration of the pixel coordinates of a square billboard
/// footprint, clipped on the right and bottom to the viewport bounds.
pub struct BillboardCoordinatesIterator {
    pub x_start: u32,
    pub x_stop: u32,
    pub y_stop: u32,
    pub x_max: u32,
    pub y_max: u32,
    pub next_x: u32,
    pub next_y: u32,
    pub finished: bool,
}

impl BillboardCoordinatesIterator {
    /// Sets up the enumeration of the square window of side
    /// `billboard_size_pixels` (minimum 1) centred on `center_pixel` —
    /// an even side extends one pixel fewer after the centre than before
    /// it — clipped to the viewport.
    pub fn from_center_and_size(
        viewport_size: (u32, u32),
        center_pixel: (u32, u32),
        billboard_size_pixels: u32,
    ) -> (it: BillboardCoordinatesIterator)
        requires
            viewport_size.0 >= 1,
            viewport_size.1 >= 1,
        ensures
            it.x_start == sat_sub_u32(
                center_pixel.0,
                footprint_reach_before(billboard_size_pixels),
            ),
            it.x_stop == sat_add_u32(center_pixel.0, footprint_reach_after(billboard_size_pixels)),
            it.y_stop == sat_add_u32(center_pixel.1, footprint_reach_after(billboard_size_pixels)),
            it.x_max == viewport_size.0 - 1,
            it.y_max == viewport_size.1 - 1,
            it.next_x == it.x_start,
            it.next_y == sat_sub_u32(
                center_pixel.1,
                footprint_reach_before(billboard_size_pixels),
            ),
            !it.finished,
    {
        let (viewport_width, viewport_height) = viewport_size;
        let (center_x, center_y) = center_pixel;
        let clamped_size: u32 = if billboard_size_pixels < 1 {
            1
        } else {
            billboard_size_pixels
        };
        let reach_before: u32 = clamped_size / 2;
        let reach_after: u32 = (clamped_size - 1) / 2;

        let x_start: u32 = if center_x >= reach_before {
            center_x - reach_before
        } else {
            0
        };
        let x_stop: u32 = if center_x <= u32::MAX - reach_after {
            center_x + reach_after
        } else {
            u32::MAX
        };

        let y_start: u32 = if center_y >= reach_before {
            center_y - reach_before
        } else {
            0
        };
        let y_stop: u32 = if center_y <= u32::MAX - reach_after {
            center_y + reach_after
        } else {
            u32::MAX
        };

        BillboardCoordinatesIterator {
            x_start,
            x_stop,
            y_stop,
            x_max: viewport_width - 1,
            y_max: viewport_height - 1,
            next_x: x_start,
            next_y: y_start,
            finished: false,
        }
    }

    /// Yields the next footprint pixel, advancing in row-major order:
    /// columns run from `x_start` to the lesser of `x_stop` and `x_max`,
    /// then the row advances; the enumeration finishes once the row
    /// passes both `y_stop` and `y_max`.
    pub fn next(&mut self) -> (r: Option<PixelPosition>)
        requires
            old(self).finished || (old(self).next_x < u32::MAX && old(self).next_y < u32::MAX),
        ensures
            final(self).x_start == old(self).x_start,
            final(self).x_stop == old(self).x_stop,
            final(self).y_stop == old(self).y_stop,
            final(self).x_max == old(self).x_max,
            final(self).y_max == old(self).y_max,
            old(self).finished ==> r is None && *final(self) == *old(self),
            !old(self).finished ==> {
                &&& r == Some(PixelPosition { x: old(self).next_x, y: old(self).next_y })
                &&& (if old(self).next_x + 1 > old(self).x_stop
                    || old(self).next_x + 1 > old(self).x_max {
                    final(self).next_x == old(self).x_start
                        && final(self).next_y == old(self).next_y + 1
                } else {
                    final(self).next_x == old(self).next_x + 1
                        && final(self).next_y == old(self).next_y
                })
                &&& final(self).finished == (final(self).next_y > old(self).y_stop
                    || final(self).next_y > old(self).y_max)
            },
    {
        if self.finished {
            return None;
        }

        let current_x: u32 = self.next_x;
        let current_y: u32 = self.next_y;

        self.next_x = self.next_x + 1;

        if self.next_x > self.x_stop || self.next_x > self.x_max {
            self.next_x = self.x_start;
            self.next_y = self.next_y + 1;
        }

        if self.next_y > self.y_stop || self.next_y > self.y_max {
            self.finished = true;
        }

        Some(PixelPosition { x: current_x, y: current_y })
    }
}

/// `|v| <= 1` on the IEEE 754 single-precision value with bit pattern
/// `bits`: clearing the sign bit must not exceed the pattern of `1.0`
/// (`0x3F80_0000`).  This is exactly the `f32` test `-1.0 <= v <= 1.0`;
/// it is false for every NaN pattern.
pub open spec fn bits_within_unit_range(bits: u32) -> bool {
    (bits & 0x7FFF_FFFFu32) <= 0x3F80_0000u32
}

/// Executable form of [`bits_within_unit_range`].
pub fn f32_bits_within_unit_range(bits: u32) -> (r: bool)
    ensures
        r == bits_within_unit_range(bits),
{
    (bits & 0x7FFF_FFFF) <= 0x3F80_0000
}

/// The IEEE 754 single-precision value with bit pattern `bits` is finite
/// and has a clear sign bit: the pattern stays below that of positive
/// infinity (`0x7F80_0000`).  Finite non-negative values order exactly as
/// their bit patterns do.
pub open spec fn bits_finite_non_negative(bits: u32) -> bool {
    bits < 0x7F80_0000u32
}

/// Executable form of [`bits_finite_non_negative`].
pub fn f32_bits_finite_non_negative(bits: u32) -> (r: bool)
    ensures
        r == bits_finite_non_negative(bits),
{
    bits < 0x7F80_0000
}

/// One splat after projection: normalized device coordinates and the
/// camera distance as f32 bit patterns, the projected centre pixel, the
/// billboard side in pixels and the splat's colour.
#[derive(Clone, Copy, PartialEq, Eq, Structural, Debug)]
pub struct ProjectedSplat {
    /// Normalized device x after the perspective and depth divides.
    pub ndc_x_bits: u32,
    /// Normalized device y after the perspective and depth divides.
    pub ndc_y_bits: u32,
    /// Euclidean norm of the clip-space `(x, y, z)` triple; the
    /// back-to-front sort key.
    pub depth_bits: u32,
    /// Column of the projected centre pixel.
    pub center_x: u32,
    /// Row of the projected centre pixel.
    pub center_y: u32,
    /// Side of the square billboard footprint, in pixels.
    pub billboard_size: u32,
    /// Straight-alpha RGBA colour.
    pub color: ColorRgba,
}

/// A projected splat takes part in compositing only when its normalized
/// x and y lie within `[-1, 1]`, its distance is a finite non-negative
/// float (a non-finite distance is a geometry defect and is excluded
/// before sorting), and its centre pixel lies inside the viewport (a
/// centre outside it is a geometry defect and is skipped defensively).
pub open spec fn visible(s: ProjectedSplat, w: int, h: int) -> bool {
    &&& bits_within_unit_range(s.ndc_x_bits)
    &&& bits_within_unit_range(s.ndc_y_bits)
    &&& bits_finite_non_negative(s.depth_bits)
    &&& s.center_x < w
    &&& s.center_y < h
}

/// Executable form of [`visible`].
pub fn is_visible(s: &ProjectedSplat, render_width: u32, render_height: u32) -> (r: bool)
    ensures
        r == visible(*s, render_width as int, render_height as int),
{
    f32_bits_within_unit_range(s.ndc_x_bits) && f32_bits_within_unit_range(s.ndc_y_bits)
        && f32_bits_finite_non_negative(s.depth_bits) && s.center_x < render_width && s.center_y
        < render_height
}

/// The "over" operator on one 8-bit channel with an 8-bit straight alpha:
/// the nearest 8-bit value to `(1 - a) * dst + a * src` where
/// `a = alpha / 255`.  The rounding is exact rational rounding; a tie
/// cannot occur because the numerator below is always odd.
pub open spec fn blend_channel_spec(dst: u8, src: u8, alpha: u8) -> u8 {
    ((((255 - alpha) * dst + alpha * src) * 2 + 255) / 510) as u8
}

/// Executable form of [`blend_channel_spec`].
pub fn blend_channel(dst: u8, src: u8, alpha: u8) -> (r: u8)
    ensures
        r == blend_channel_spec(dst, src, alpha),
{
    let inverted: u32 = 255 - (alpha as u32);
    proof {
        assert(inverted * dst <= 255 * 255) by (nonlinear_arith)
            requires
                inverted <= 255,
                dst <= 255,
        ;
        assert((alpha as int) * (src as int) <= 255 * 255) by (nonlinear_arith)
            requires
                alpha <= 255,
                src <= 255,
        ;
    }
    let numerator: u32 = inverted * (dst as u32) + (alpha as u32) * (src as u32);
    ((numerator * 2 + 255) / 510) as u8
}

/// Stable insertion of `x` into `s` for the back-to-front order: `x` goes
/// after every element whose distance is at least `x`'s, so splats at
/// equal distance keep their existing relative order (the deterministic
/// tie-break of the depth sorter).
pub open spec fn insert_back_to_front(s: Seq<ProjectedSplat>, x: ProjectedSplat) -> Seq<
    ProjectedSplat,
>
    decreases s.len(),
{
    if s.len() == 0 {
        seq![x]
    } else if s[0].depth_bits >= x.depth_bits {
        seq![s[0]] + insert_back_to_front(s.drop_first(), x)
    } else {
        seq![x] + s
    }
}

/// The visible splats ordered back to front (farthest first), by
/// descending distance bit pattern; finite non-negative IEEE 754 values
/// order exactly as their bit patterns do.  Splats at equal distance keep
/// their relative order.
pub open spec fn sort_back_to_front(s: Seq<ProjectedSplat>) -> Seq<ProjectedSplat>
    decreases s.len(),
{
    if s.len() == 0 {
        Seq::<ProjectedSplat>::empty()
    } else {
        insert_back_to_front(sort_back_to_front(s.drop_last()), s.last())
    }
}

/// The sequence is ordered by non-increasing distance.
pub open spec fn sorted_back_to_front(s: Seq<ProjectedSplat>) -> bool {
    forall|m: int, k: int| 0 <= m < k < s.len() ==> s[m].depth_bits >= s[k].depth_bits
}

/// Where the first `j` elements of `t` have distance at least `x`'s and
/// the element at `j` (if any) has a smaller distance, the stable insert
/// places `x` exactly at position `j`.
proof fn lemma_insert_characterization(t: Seq<ProjectedSplat>, x: ProjectedSplat, j: int)
    requires
        0 <= j <= t.len(),
        forall|m: int| 0 <= m < j ==> t[m].depth_bits >= x.depth_bits,
        j < t.len() ==> t[j].depth_bits < x.depth_bits,
    ensures
        insert_back_to_front(t, x) == t.take(j) + seq![x] + t.skip(j),
    decreases t.len(),
{
    if t.len() == 0 {
        assert(insert_back_to_front(t, x) =~= t.take(j) + seq![x] + t.skip(j));
    } else if j == 0 {
        assert(t[0].depth_bits < x.depth_bits);
        assert(insert_back_to_front(t, x) =~= t.take(0) + seq![x] + t.skip(0));
    } else {
        assert(t[0].depth_bits >= x.depth_bits);
        lemma_insert_characterization(t.drop_first(), x, j - 1);
        assert(seq![t[0]] + (t.drop_first().take(j - 1) + seq![x] + t.drop_first().skip(j - 1))
            =~= t.take(j) + seq![x] + t.skip(j));
    }
}

/// The stable insert keeps a back-to-front sequence back to front.
proof fn lemma_insert_preserves_sorted(t: Seq<ProjectedSplat>, x: ProjectedSplat)
    requires
        sorted_back_to_front(t),
    ensures
        sorted_back_to_front(insert_back_to_front(t, x)),
        insert_back_to_front(t, x).len() == t.len() + 1,
    decreases t.len(),
{
    if t.len() == 0 {
    } else if t[0].depth_bits >= x.depth_bits {
        assert(sorted_back_to_front(t.drop_first()));
        lemma_insert_preserves_sorted(t.drop_first(), x);
        let r = seq![t[0]] + insert_back_to_front(t.drop_first(), x);
        let inner = insert_back_to_front(t.drop_first(), x);
        assert forall|m: int, k: int| 0 <= m < k < r.len() implies r[m].depth_bits
            >= r[k].depth_bits by {
            if m > 0 {
                assert(inner[m - 1].depth_bits >= inner[k - 1].depth_bits);
            } else {
                assert(r[k] == inner[k - 1]);
                lemma_insert_head_bound(t.drop_first(), x, k - 1, t[0].depth_bits);
            }
        }
    } else {
    }
}

/// Every element of the insert result is bounded by any distance that
/// bounds both the inserted element and every element of the sequence.
proof fn lemma_insert_head_bound(t: Seq<ProjectedSplat>, x: ProjectedSplat, k: int, bound: u32)
    requires
        0 <= k < insert_back_to_front(t, x).len(),
        bound >= x.depth_bits,
        forall|m: int| 0 <= m < t.len() ==> bound >= (#[trigger] t[m]).depth_bits,
    ensures
        bound >= insert_back_to_front(t, x)[k].depth_bits,
    decreases t.len(),
{
    if t.len() == 0 {
    } else if t[0].depth_bits >= x.depth_bits {
        if k > 0 {
            assert(forall|m: int|
                0 <= m < t.drop_first().len() ==> bound >= (#[trigger] t.drop_first()[m]).depth_bits);
            lemma_insert_head_bound(t.drop_first(), x, k - 1, bound);
        }
    } else {
    }
}

/// The spec-level sort really sorts: its result is back to front and has
/// the input's length.
pub proof fn lemma_sort_back_to_front_sorted(s: Seq<ProjectedSplat>)
    ensures
        sorted_back_to_front(sort_back_to_front(s)),
        sort_back_to_front(s).len() == s.len(),
    decreases s.len(),
{
    if s.len() > 0 {
        lemma_sort_back_to_front_sorted(s.drop_last());
        lemma_insert_preserves_sorted(sort_back_to_front(s.drop_last()), s.last());
    }
}

/// The spec-level sort permutes the input: the multiset of entries is
/// unchanged.
pub proof fn lemma_sort_back_to_front_multiset(s: Seq<ProjectedSplat>)
    ensures
        sort_back_to_front(s).to_multiset() == s.to_multiset(),
    decreases s.len(),
{
    broadcast use vstd::seq_lib::group_to_multiset_ensures;

    if s.len() > 0 {
        lemma_sort_back_to_front_multiset(s.drop_last());
        lemma_insert_multiset(sort_back_to_front(s.drop_last()), s.last());
        assert(s =~= s.drop_last().push(s.last()));
        assert(s.drop_last().push(s.last()).to_multiset() =~= s.drop_last().to_multiset().insert(
            s.last(),
        ));
        assert(sort_back_to_front(s).to_multiset() =~= s.to_multiset());
    }
}

/// Inserting one element adds exactly that element to the multiset.
proof fn lemma_insert_multiset(t: Seq<ProjectedSplat>, x: ProjectedSplat)
    ensures
        insert_back_to_front(t, x).to_multiset() == t.to_multiset().insert(x),
    decreases t.len(),
{
    broadcast use vstd::seq_lib::group_to_multiset_ensures;

    if t.len() == 0 {
        assert(seq![x] =~= Seq::<ProjectedSplat>::empty().push(x));
        assert(insert_back_to_front(t, x).to_multiset() =~= t.to_multiset().insert(x));
    } else if t[0].depth_bits >= x.depth_bits {
        lemma_insert_multiset(t.drop_first(), x);
        let inner = insert_back_to_front(t.drop_first(), x);
        vstd::seq_lib::lemma_multiset_commutative(seq![t[0]], inner);
        vstd::seq_lib::lemma_multiset_commutative(seq![t[0]], t.drop_first());
        assert(t =~= seq![t[0]] + t.drop_first());
        assert((seq![t[0]] + inner).to_multiset() =~= t.to_multiset().insert(x));
    } else {
        vstd::seq_lib::lemma_multiset_commutative(seq![x], t);
        assert(seq![x].to_multiset() =~= Multiset::<ProjectedSplat>::empty().insert(x));
        assert((seq![x] + t).to_multiset() =~= t.to_multiset().insert(x));
    }
}

/// Sorts the splats back to front (farthest first) by descending distance
/// bit pattern, keeping the relative order of splats at equal distance.
pub fn sort_splats_back_to_front(splats: &mut Vec<ProjectedSplat>)
    ensures
        final(splats)@ == sort_back_to_front(old(splats)@),
{
    let ghost orig = splats@;
    let mut i: usize = 0;
    while i < splats.len()
        invariant
            i <= splats@.len(),
            splats@.len() == orig.len(),
            splats@.take(i as int) == sort_back_to_front(orig.take(i as int)),
            splats@.skip(i as int) == orig.skip(i as int),
        decreases splats@.len() - i,
    {
        let ghost v1 = splats@;
        let x = splats[i];
        proof {
            assert(v1[i as int] == orig.skip(i as int)[0]);
            assert(x == orig[i as int]);
        }
        let mut j: usize = 0;
        while j < i && splats[j].depth_bits >= x.depth_bits
            invariant
                j <= i,
                i < splats@.len(),
                splats@ == v1,
                forall|m: int| 0 <= m < j ==> (#[trigger] v1[m]).depth_bits >= x.depth_bits,
            decreases i - j,
        {
            j = j + 1;
        }
        splats.remove(i);
        splats.insert(j, x);
        proof {
            let sorted_prefix = v1.take(i as int);
            lemma_insert_characterization(sorted_prefix, x, j as int);
            assert(splats@ =~= v1.remove(i as int).insert(j as int, x));
            assert(splats@.take(i as int + 1) =~= sorted_prefix.take(j as int) + seq![x]
                + sorted_prefix.skip(j as int));
            assert(splats@.take(i as int + 1) == insert_back_to_front(sorted_prefix, x));
            assert(orig.take(i as int + 1).drop_last() =~= orig.take(i as int));
            assert(orig.take(i as int + 1).last() == orig[i as int]);
            assert(splats@.take(i as int + 1) == sort_back_to_front(orig.take(i as int + 1)));
            assert forall|m: int| 0 <= m < splats@.len() - (i + 1) implies #[trigger] splats@.skip(
                i as int + 1,
            )[m] == orig.skip(i as int + 1)[m] by {
                assert(splats@[i as int + 1 + m] == v1.remove(i as int).insert(j as int, x)[i as int
                    + 1 + m]);
                assert(v1.remove(i as int).insert(j as int, x)[i as int + 1 + m] == v1.remove(
                    i as int,
                )[i as int + m]);
                assert(v1.remove(i as int)[i as int + m] == v1[i as int + 1 + m]);
                assert(v1.skip(i as int)[m + 1] == orig.skip(i as int)[m + 1]);
            }
            assert(splats@.skip(i as int + 1) =~= orig.skip(i as int + 1));
        }
        i = i + 1;
    }
    proof {
        assert(orig.take(orig.len() as int) =~= orig);
        assert(splats@.take(orig.len() as int) =~= splats@);
    }
}

/// Leftmost column of a splat's billboard footprint.
pub open spec fn footprint_x_low(s: ProjectedSplat) -> int {
    max(s.center_x - footprint_reach_before(s.billboard_size), 0)
}

/// Rightmost column of a splat's billboard footprint, clipped to the
/// viewport.
pub open spec fn footprint_x_high(s: ProjectedSplat, w: int) -> int {
    min(s.center_x + footprint_reach_after(s.billboard_size), w - 1)
}

/// Topmost row of a splat's billboard footprint.
pub open spec fn footprint_y_low(s: ProjectedSplat) -> int {
    max(s.center_y - footprint_reach_before(s.billboard_size), 0)
}

/// Bottom row of a splat's billboard footprint, clipped to the viewport.
pub open spec fn footprint_y_high(s: ProjectedSplat, h: int) -> int {
    min(s.center_y + footprint_reach_after(s.billboard_size), h - 1)
}

/// The billboard footprint of `s` — the square window of side
/// `billboard_size` (minimum 1) around the centre pixel, clipped to the
/// viewport — covers pixel `(x, y)`.
pub open spec fn covers(s: ProjectedSplat, w: int, h: int, x: int, y: int) -> bool {
    &&& footprint_x_low(s) <= x <= footprint_x_high(s, w)
    &&& footprint_y_low(s) <= y <= footprint_y_high(s, h)
}

/// Colour channel `k` (0 red, 1 green, 2 blue) of an RGBA colour.
pub open spec fn channel_of(c: ColorRgba, k: int) -> u8 {
    if k == 0 {
        c.r
    } else if k == 1 {
        c.g
    } else {
        c.b
    }
}

/// The reset canvas: every pixel opaque black `(0, 0, 0, 255)`, row-major
/// RGBA.
pub open spec fn background_spec(w: int, h: int) -> Seq<u8> {
    Seq::new((w * h * 4) as nat, |i: int| if i % 4 == 3 { 255u8 } else { 0u8 })
}

/// One splat alpha-blended over a frame: every covered pixel's red, green
/// and blue channels are blended with the splat's colour; alpha channels
/// and uncovered pixels are untouched.
pub open spec fn composite_splat_spec(frame: Seq<u8>, s: ProjectedSplat, w: int, h: int) -> Seq<
    u8,
> {
    Seq::new(
        frame.len(),
        |i: int|
            {
                let x = (i / 4) % w;
                let y = (i / 4) / w;
                let k = i % 4;
                if covers(s, w, h, x, y) && k < 3 {
                    blend_channel_spec(frame[i], channel_of(s.color, k), s.color.a)
                } else {
                    frame[i]
                }
            },
    )
}

/// A whole sequence of splats blended over a frame, first entry first;
/// with a back-to-front sequence this realizes back-to-front compositing.
pub open spec fn composite_all_spec(frame: Seq<u8>, ss: Seq<ProjectedSplat>, w: int, h: int) -> Seq<
    u8,
>
    decreases ss.len(),
{
    if ss.len() == 0 {
        frame
    } else {
        composite_splat_spec(composite_all_spec(frame, ss.drop_last(), w, h), ss.last(), w, h)
    }
}

/// The subsequence of splats that take part in compositing, in input
/// order.
pub open spec fn visible_splats(ss: Seq<ProjectedSplat>, w: int, h: int) -> Seq<ProjectedSplat>
    decreases ss.len(),
{
    if ss.len() == 0 {
        Seq::<ProjectedSplat>::empty()
    } else {
        let rest = visible_splats(ss.drop_first(), w, h);
        if visible(ss[0], w, h) {
            seq![ss[0]] + rest
        } else {
            rest
        }
    }
}

/// The full frame computed from a sequence of projection results: cull,
/// sort back to front, reset the canvas, composite.
pub open spec fn render_spec(ss: Seq<ProjectedSplat>, w: int, h: int) -> Seq<u8> {
    composite_all_spec(
        background_spec(w, h),
        sort_back_to_front(visible_splats(ss, w, h)),
        w,
        h,
    )
}

/// Every entry of the culled subsequence is visible.
pub proof fn lemma_visible_splats_all_visible(ss: Seq<ProjectedSplat>, w: int, h: int)
    ensures
        forall|k: int|
            0 <= k < visible_splats(ss, w, h).len() ==> visible(
                #[trigger] visible_splats(ss, w, h)[k],
                w,
                h,
            ),
    decreases ss.len(),
{
    if ss.len() > 0 {
        lemma_visible_splats_all_visible(ss.drop_first(), w, h);
        let rest = visible_splats(ss.drop_first(), w, h);
        assert forall|k: int| 0 <= k < visible_splats(ss, w, h).len() implies visible(
            #[trigger] visible_splats(ss, w, h)[k],
            w,
            h,
        ) by {
            if visible(ss[0], w, h) {
                if k > 0 {
                    assert(visible_splats(ss, w, h)[k] == rest[k - 1]);
                }
            } else {
                assert(visible_splats(ss, w, h)[k] == rest[k]);
            }
        }
    }
}

/// Builds the reset canvas.
fn background_frame(render_width: u32, render_height: u32) -> (frame: Vec<u8>)
    requires
        render_width >= 1,
        render_height >= 1,
        (render_width as int) * (render_height as int) * 4 <= usize::MAX as int,
    ensures
        frame@ == background_spec(render_width as int, render_height as int),
{
    proof {
        assert((render_width as int) * (render_height as int) <= (render_width as int) * (
        render_height as int) * 4) by (nonlinear_arith)
            requires
                render_width >= 1,
                render_height >= 1,
        ;
    }
    let total_pixels: usize = (render_width as usize) * (render_height as usize);
    let mut frame: Vec<u8> = Vec::new();
    let mut p: usize = 0;
    while p < total_pixels
        invariant
            p <= total_pixels,
            total_pixels == (render_width as int) * (render_height as int),
            total_pixels * 4 <= usize::MAX,
            frame@.len() == 4 * p,
            forall|i: int|
                0 <= i < frame@.len() ==> frame@[i] == (if i % 4 == 3 {
                    255u8
                } else {
                    0u8
                }),
        decreases total_pixels - p,
    {
        frame.push(0);
        frame.push(0);
        frame.push(0);
        frame.push(255);
        p = p + 1;
    }
    proof {
        assert(frame@ =~= background_spec(render_width as int, render_height as int));
    }
    frame
}

/// The frame during one splat's compositing: covered pixels strictly
/// before the row-major cursor `(cur_x, cur_y)` are blended, the rest are
/// still the incoming frame.
spec fn partial_composite(
    f0: Seq<u8>,
    s: ProjectedSplat,
    w: int,
    h: int,
    cur_x: int,
    cur_y: int,
) -> Seq<u8> {
    Seq::new(
        f0.len(),
        |i: int|
            {
                let x = (i / 4) % w;
                let y = (i / 4) / w;
                let k = i % 4;
                if covers(s, w, h, x, y) && k < 3 && (y < cur_y || (y == cur_y && x < cur_x)) {
                    blend_channel_spec(f0[i], channel_of(s.color, k), s.color.a)
                } else {
                    f0[i]
                }
            },
    )
}

/// Blends one splat's billboard into the frame, enumerating the clipped
/// footprint with a [`BillboardCoordinatesIterator`].
fn composite_splat_into(
    frame: &mut Vec<u8>,
    s: &ProjectedSplat,
    render_width: u32,
    render_height: u32,
)
    requires
        render_width >= 1,
        render_height >= 1,
        old(frame)@.len() == (render_width as int) * (render_height as int) * 4,
        (render_width as int) * (render_height as int) * 4 <= usize::MAX as int,
        s.center_x < render_width,
        s.center_y < render_height,
    ensures
        final(frame)@ == composite_splat_spec(
            old(frame)@,
            *s,
            render_width as int,
            render_height as int,
        ),
{
    let ghost w = render_width as int;
    let ghost h = render_height as int;
    let ghost f0 = frame@;
    let ghost x_low = footprint_x_low(*s);
    let ghost x_high = footprint_x_high(*s, w);
    let ghost y_low = footprint_y_low(*s);
    let ghost y_high = footprint_y_high(*s, h);

    let mut it = BillboardCoordinatesIterator::from_center_and_size(
        (render_width, render_height),
        (s.center_x, s.center_y),
        s.billboard_size,
    );

    proof {
        assert(it.x_start == x_low);
        assert(it.next_y == y_low);
        assert(x_low <= s.center_x <= x_high);
        assert(y_low <= s.center_y <= y_high);
        assert(min(it.x_stop as int, it.x_max as int) == x_high);
        assert(min(it.y_stop as int, it.y_max as int) == y_high);
        assert(frame@ =~= partial_composite(f0, *s, w, h, x_low, y_low));
    }

    loop
        invariant
            w == render_width as int,
            h == render_height as int,
            w >= 1,
            h >= 1,
            w * h * 4 == f0.len(),
            w * h * 4 <= usize::MAX,
            frame@.len() == f0.len(),
            s.center_x < w,
            s.center_y < h,
            x_low == footprint_x_low(*s),
            x_high == footprint_x_high(*s, w),
            y_low == footprint_y_low(*s),
            y_high == footprint_y_high(*s, h),
            it.x_start == x_low,
            it.x_max == w - 1,
            it.y_max == h - 1,
            min(it.x_stop as int, it.x_max as int) == x_high,
            min(it.y_stop as int, it.y_max as int) == y_high,
            !it.finished ==> x_low <= it.next_x <= x_high && y_low <= it.next_y <= y_high,
            !it.finished ==> frame@ == partial_composite(
                f0,
                *s,
                w,
                h,
                it.next_x as int,
                it.next_y as int,
            ),
            it.finished ==> frame@ == composite_splat_spec(f0, *s, w, h),
        ensures
            frame@ == composite_splat_spec(f0, *s, w, h),
        decreases
                (if it.finished {
                    0int
                } else {
                    1int
                }),
                (if it.finished {
                    0int
                } else {
                    y_high + 1 - it.next_y
                }),
                (if it.finished {
                    0int
                } else {
                    x_high + 1 - it.next_x
                }),
    {
        let ghost it_old = it;
        let ghost frame_old = frame@;
        let next_pixel = it.next();
        match next_pixel {
            None => {
                break ;
            },
            Some(pixel) => {
                proof {
                    assert(!it_old.finished);
                    assert(pixel.x == it_old.next_x && pixel.y == it_old.next_y);
                    assert(pixel.x < w && pixel.y < h);
                    assert((pixel.y as int) * w + (pixel.x as int) < h * w) by (nonlinear_arith)
                        requires
                            pixel.x < w,
                            pixel.y < h,
                            w >= 1,
                            h >= 1,
                    ;
                    assert(((pixel.y as int) * w + (pixel.x as int)) * 4 + 3 < w * h * 4)
                        by (nonlinear_arith)
                        requires
                            (pixel.y as int) * w + (pixel.x as int) < h * w,
                            w >= 1,
                            h >= 1,
                    ;
                }
                let idx: usize = ((pixel.y as usize) * (render_width as usize) + (
                pixel.x as usize)) * 4;
                proof {
                    assert(idx + 3 < f0.len()) by (nonlinear_arith)
                        requires
                            idx == ((pixel.y as int) * w + (pixel.x as int)) * 4,
                            (pixel.y as int) * w + (pixel.x as int) < h * w,
                            f0.len() == w * h * 4,
                    ;
                    lemma_fundamental_div_mod_converse(
                        (pixel.y as int) * w + (pixel.x as int),
                        w,
                        pixel.y as int,
                        pixel.x as int,
                    );
                }
                let dst_r = frame[idx];
                let blended_r = blend_channel(dst_r, s.color.r, s.color.a);
                frame[idx] = blended_r;
                let dst_g = frame[idx + 1];
                let blended_g = blend_channel(dst_g, s.color.g, s.color.a);
                frame[idx + 1] = blended_g;
                let dst_b = frame[idx + 2];
                let blended_b = blend_channel(dst_b, s.color.b, s.color.a);
                frame[idx + 2] = blended_b;
                proof {
                    lemma_composite_step(
                        f0,
                        frame_old,
                        frame@,
                        *s,
                        w,
                        h,
                        it_old,
                        it,
                        idx as int,
                    );
                }
            },
        }
    }
}

/// One iteration of the footprint walk keeps the partial-compositing
/// invariant: after blending the cursor pixel's three colour channels,
/// the frame matches the partial composite at the advanced cursor (or the
/// full composite once the walk finishes).
proof fn lemma_composite_step(
    f0: Seq<u8>,
    frame_old: Seq<u8>,
    frame_new: Seq<u8>,
    s: ProjectedSplat,
    w: int,
    h: int,
    it_old: BillboardCoordinatesIterator,
    it_new: BillboardCoordinatesIterator,
    idx: int,
)
    requires
        w >= 1,
        h >= 1,
        w * h * 4 == f0.len(),
        frame_old.len() == f0.len(),
        frame_new.len() == f0.len(),
        s.center_x < w,
        s.center_y < h,
        it_old.x_start == footprint_x_low(s),
        it_old.x_max == w - 1,
        it_old.y_max == h - 1,
        min(it_old.x_stop as int, it_old.x_max as int) == footprint_x_high(s, w),
        min(it_old.y_stop as int, it_old.y_max as int) == footprint_y_high(s, h),
        !it_old.finished,
        footprint_x_low(s) <= it_old.next_x <= footprint_x_high(s, w),
        footprint_y_low(s) <= it_old.next_y <= footprint_y_high(s, h),
        frame_old == partial_composite(f0, s, w, h, it_old.next_x as int, it_old.next_y as int),
        idx == ((it_old.next_y as int) * w + (it_old.next_x as int)) * 4,
        idx + 3 < f0.len(),
        frame_new == frame_old.update(
            idx,
            blend_channel_spec(frame_old[idx], channel_of(s.color, 0), s.color.a),
        ).update(
            idx + 1,
            blend_channel_spec(frame_old[idx + 1], channel_of(s.color, 1), s.color.a),
        ).update(
            idx + 2,
            blend_channel_spec(frame_old[idx + 2], channel_of(s.color, 2), s.color.a),
        ),
        it_new.x_start == it_old.x_start,
        it_new.x_stop == it_old.x_stop,
        it_new.y_stop == it_old.y_stop,
        it_new.x_max == it_old.x_max,
        it_new.y_max == it_old.y_max,
        (if it_old.next_x + 1 > it_old.x_stop || it_old.next_x + 1 > it_old.x_max {
            it_new.next_x == it_old.x_start && it_new.next_y == it_old.next_y + 1
        } else {
            it_new.next_x == it_old.next_x + 1 && it_new.next_y == it_old.next_y
        }),
        it_new.finished == (it_new.next_y > it_old.y_stop || it_new.next_y > it_old.y_max),
    ensures
        !it_new.finished ==> footprint_x_low(s) <= it_new.next_x <= footprint_x_high(s, w)
            && footprint_y_low(s) <= it_new.next_y <= footprint_y_high(s, h),
        !it_new.finished ==> frame_new == partial_composite(
            f0,
            s,
            w,
            h,
            it_new.next_x as int,
            it_new.next_y as int,
        ),
        it_new.finished ==> frame_new == composite_splat_spec(f0, s, w, h),
{
    let px = it_old.next_x as int;
    let py = it_old.next_y as int;
    let x_high = footprint_x_high(s, w);
    let y_high = footprint_y_high(s, h);
    let wrapped = it_old.next_x + 1 > it_old.x_stop || it_old.next_x + 1 > it_old.x_max;
    let cur_x = it_new.next_x as int;
    let cur_y = it_new.next_y as int;

    assert(covers(s, w, h, px, py));
    if wrapped {
        assert(px == x_high);
    }
    if it_new.finished {
        assert(cur_y > y_high);
        assert(wrapped);
    }

    assert forall|i: int| 0 <= i < f0.len() implies frame_new[i] == partial_composite(
        f0,
        s,
        w,
        h,
        cur_x,
        cur_y,
    )[i] by {
        let x = (i / 4) % w;
        let y = (i / 4) / w;
        let k = i % 4;
        vstd::arithmetic::div_mod::lemma_fundamental_div_mod(i, 4);
        if idx <= i <= idx + 3 {
            lemma_fundamental_div_mod_converse(i, 4, py * w + px, i - idx);
            lemma_fundamental_div_mod_converse(py * w + px, w, py, px);
            assert(x == px && y == py);
            assert(k == i - idx);
            assert(frame_old[i] == f0[i]);
        } else {
            assert(frame_new[i] == frame_old[i]);
            assert(i / 4 != py * w + px);
            assert(x != px || y != py) by {
                if x == px && y == py {
                    vstd::arithmetic::div_mod::lemma_fundamental_div_mod(i / 4, w);
                    assert(i / 4 == w * ((i / 4) / w) + (i / 4) % w);
                    assert(w * py == py * w) by (nonlinear_arith);
                    assert(i / 4 == py * w + px);
                }
            }
        }
    }
    if it_new.finished {
        assert(frame_new =~= composite_splat_spec(f0, s, w, h));
    } else {
        assert(frame_new =~= partial_composite(f0, s, w, h, cur_x, cur_y));
    }
}

/// Composites a whole prepared scene: discards invisible splats, sorts
/// the survivors back to front, resets the canvas and blends every
/// billboard, yielding the finished frame.
pub fn compose_frame(
    prepared: &Vec<ProjectedSplat>,
    render_width: u32,
    render_height: u32,
) -> (frame: Vec<u8>)
    requires
        render_width >= 1,
        render_height >= 1,
        (render_width as int) * (render_height as int) * 4 <= usize::MAX as int,
    ensures
        frame@ == render_spec(prepared@, render_width as int, render_height as int),
        frame@.len() == (render_width as int) * (render_height as int) * 4,
{
    let ghost w = render_width as int;
    let ghost h = render_height as int;

    let mut vis: Vec<ProjectedSplat> = Vec::new();
    proof {
        assert(prepared@.skip(0) =~= prepared@);
        assert(Seq::<ProjectedSplat>::empty() + visible_splats(prepared@, w, h) =~= visible_splats(
            prepared@,
            w,
            h,
        ));
    }
    let mut j: usize = 0;
    while j < prepared.len()
        invariant
            w == render_width as int,
            h == render_height as int,
            j <= prepared@.len(),
            visible_splats(prepared@, w, h) == vis@ + visible_splats(prepared@.skip(j as int), w, h),
        decreases prepared@.len() - j,
    {
        let ghost pre = vis@;
        let candidate = prepared[j];
        if is_visible(&candidate, render_width, render_height) {
            vis.push(candidate);
        }
        proof {
            assert(prepared@.skip(j as int).drop_first() =~= prepared@.skip(j as int + 1));
            assert(prepared@.skip(j as int)[0] == prepared@[j as int]);
            if visible(prepared@[j as int], w, h) {
                assert((pre + (seq![prepared@[j as int]] + visible_splats(
                    prepared@.skip(j as int + 1),
                    w,
                    h,
                ))) =~= (vis@ + visible_splats(prepared@.skip(j as int + 1), w, h)));
            }
        }
        j = j + 1;
    }
    proof {
        assert(prepared@.skip(prepared@.len() as int) =~= Seq::<ProjectedSplat>::empty());
        assert(vis@ + Seq::<ProjectedSplat>::empty() =~= vis@);
        assert(vis@ == visible_splats(prepared@, w, h));
        lemma_visible_splats_all_visible(prepared@, w, h);
    }
    let ghost culled = vis@;

    sort_splats_back_to_front(&mut vis);
    proof {
        lemma_sort_back_to_front_sorted(culled);
        lemma_sort_back_to_front_multiset(culled);
        broadcast use vstd::seq_lib::group_to_multiset_ensures;

        assert forall|k: int| 0 <= k < vis@.len() implies visible(#[trigger] vis@[k], w, h) by {
            assert(vis@.to_multiset().count(vis@[k]) > 0);
            assert(culled.to_multiset().count(vis@[k]) > 0);
            assert(culled.contains(vis@[k]));
            let k0 = choose|k0: int| 0 <= k0 < culled.len() && culled[k0] == vis@[k];
            assert(visible(culled[k0], w, h));
        }
    }

    let mut frame = background_frame(render_width, render_height);
    let mut m: usize = 0;
    while m < vis.len()
        invariant
            w == render_width as int,
            h == render_height as int,
            render_width >= 1,
            render_height >= 1,
            w * h * 4 <= usize::MAX,
            m <= vis@.len(),
            forall|k: int| 0 <= k < vis@.len() ==> visible(#[trigger] vis@[k], w, h),
            frame@ == composite_all_spec(background_spec(w, h), vis@.take(m as int), w, h),
            frame@.len() == w * h * 4,
            vis@ == sort_back_to_front(culled),
            culled == visible_splats(prepared@, w, h),
        decreases vis@.len() - m,
    {
        let next_splat = vis[m];
        composite_splat_into(&mut frame, &next_splat, render_width, render_height);
        proof {
            assert(vis@.take(m as int + 1).drop_last() =~= vis@.take(m as int));
            assert(vis@.take(m as int + 1).last() == vis@[m as int]);
        }
        m = m + 1;
    }
    proof {
        assert(vis@.take(vis@.len() as int) =~= vis@);
    }
    frame
}

/// Removing an invisible splat does not change the culled subsequence.
proof fn lemma_visible_splats_remove(ss: Seq<ProjectedSplat>, i: int, w: int, h: int)
    requires
        0 <= i < ss.len(),
        !visible(ss[i], w, h),
    ensures
        visible_splats(ss.remove(i), w, h) == visible_splats(ss, w, h),
    decreases ss.len(),
{
    if i == 0 {
        assert(ss.remove(0) =~= ss.drop_first());
    } else {
        let tail = ss.drop_first();
        lemma_visible_splats_remove(tail, i - 1, w, h);
        assert(ss.remove(i).drop_first() =~= tail.remove(i - 1));
        assert(ss.remove(i)[0] == ss[0]);
        assert(ss.remove(i).len() == ss.len() - 1);
    }
}

/// Culling: a splat whose normalized projected x or y lies outside
/// `[-1, 1]` never appears in the composited frame — the frame rendered
/// with it equals the frame rendered without it, so no pixel write is
/// attributable to it.
pub proof fn lemma_culled_splat_invisible(ss: Seq<ProjectedSplat>, i: int, w: int, h: int)
    requires
        0 <= i < ss.len(),
        !bits_within_unit_range(ss[i].ndc_x_bits) || !bits_within_unit_range(ss[i].ndc_y_bits),
    ensures
        render_spec(ss, w, h) == render_spec(ss.remove(i), w, h),
{
    lemma_visible_splats_remove(ss, i, w, h);
}

/// Depth ordering: for two overlapping splats, the nearer one (smaller
/// distance) is always composited over the farther one, whatever their
/// order in the input scene — both orders render as "farther first, then
/// nearer over it".
pub proof fn lemma_depth_ordering(near: ProjectedSplat, far: ProjectedSplat, w: int, h: int)
    requires
        visible(near, w, h),
        visible(far, w, h),
        near.depth_bits < far.depth_bits,
    ensures
        render_spec(seq![near, far], w, h) == composite_splat_spec(
            composite_splat_spec(background_spec(w, h), far, w, h),
            near,
            w,
            h,
        ),
        render_spec(seq![far, near], w, h) == render_spec(seq![near, far], w, h),
{
    let bg = background_spec(w, h);

    assert(seq![near, far].drop_first() =~= seq![far]);
    assert(seq![far, near].drop_first() =~= seq![near]);
    assert(seq![near].drop_first() =~= Seq::<ProjectedSplat>::empty());
    assert(seq![far].drop_first() =~= Seq::<ProjectedSplat>::empty());
    assert(visible_splats(Seq::<ProjectedSplat>::empty(), w, h) =~= Seq::<ProjectedSplat>::empty());
    assert(visible_splats(seq![near], w, h) =~= seq![near]);
    assert(visible_splats(seq![far], w, h) =~= seq![far]);
    assert(visible_splats(seq![near, far], w, h) =~= seq![near, far]);
    assert(visible_splats(seq![far, near], w, h) =~= seq![far, near]);

    assert(seq![near, far].drop_last() =~= seq![near]);
    assert(seq![far, near].drop_last() =~= seq![far]);
    assert(seq![near].drop_last() =~= Seq::<ProjectedSplat>::empty());
    assert(seq![far].drop_last() =~= Seq::<ProjectedSplat>::empty());
    assert(sort_back_to_front(Seq::<ProjectedSplat>::empty())
        =~= Seq::<ProjectedSplat>::empty());
    assert(insert_back_to_front(Seq::<ProjectedSplat>::empty(), near) =~= seq![near]);
    assert(insert_back_to_front(Seq::<ProjectedSplat>::empty(), far) =~= seq![far]);
    assert(sort_back_to_front(seq![near]) == insert_back_to_front(
        Seq::<ProjectedSplat>::empty(),
        near,
    ));
    assert(sort_back_to_front(seq![near]) =~= seq![near]);
    assert(sort_back_to_front(seq![far]) =~= seq![far]);
    assert(sort_back_to_front(seq![near, far]) == insert_back_to_front(seq![near], far));
    assert(insert_back_to_front(seq![near], far) =~= seq![far, near]);
    assert(sort_back_to_front(seq![far, near]) == insert_back_to_front(seq![far], near));
    assert(insert_back_to_front(seq![far], near) =~= seq![far] + insert_back_to_front(
        Seq::<ProjectedSplat>::empty(),
        near,
    ));
    assert(insert_back_to_front(seq![far], near) =~= seq![far, near]);

    let ordered = seq![far, near];
    assert(ordered.drop_last() =~= seq![far]);
    assert(composite_all_spec(bg, ordered, w, h) == composite_splat_spec(
        composite_all_spec(bg, seq![far], w, h),
        near,
        w,
        h,
    ));
    assert(composite_all_spec(bg, seq![far], w, h) == composite_splat_spec(
        composite_all_spec(bg, Seq::<ProjectedSplat>::empty(), w, h),
        far,
        w,
        h,
    ));
}

/// No two entries share a distance bit pattern.
pub open spec fn distinct_depths(s: Seq<ProjectedSplat>) -> bool {
    forall|i: int, j: int| 0 <= i < j < s.len() ==> s[i].depth_bits != s[j].depth_bits
}

/// How often each splat occurs among the visible ones: its own count
/// when visible, zero when not.
proof fn lemma_visible_splats_count(ss: Seq<ProjectedSplat>, w: int, h: int, x: ProjectedSplat)
    ensures
        visible_splats(ss, w, h).to_multiset().count(x) == (if visible(x, w, h) {
            ss.to_multiset().count(x)
        } else {
            0nat
        }),
    decreases ss.len(),
{
    broadcast use vstd::seq_lib::group_to_multiset_ensures;

    if ss.len() == 0 {
        assert(visible_splats(ss, w, h).to_multiset() =~= Multiset::<ProjectedSplat>::empty());
        assert(ss.to_multiset() =~= Multiset::<ProjectedSplat>::empty());
    } else {
        let tail = ss.drop_first();
        lemma_visible_splats_count(tail, w, h, x);
        assert(ss.remove(0) =~= tail);
        assert(ss.remove(0).to_multiset() =~= ss.to_multiset().remove(ss[0]));
        assert(ss.to_multiset().count(ss[0]) > 0) by {
            assert(ss.contains(ss[0]));
        }
        assert(tail.to_multiset().count(x) == ss.to_multiset().count(x) - (if x == ss[0] {
            1nat
        } else {
            0nat
        }));
        if visible(ss[0], w, h) {
            let combined = seq![ss[0]] + visible_splats(tail, w, h);
            vstd::seq_lib::lemma_multiset_commutative(seq![ss[0]], visible_splats(tail, w, h));
            assert(seq![ss[0]].to_multiset() =~= Multiset::<ProjectedSplat>::empty().insert(
                ss[0],
            )) by {
                assert(seq![ss[0]] =~= Seq::<ProjectedSplat>::empty().push(ss[0]));
            }
        }
    }
}

/// Two positions holding the same splat give it a count of at least two.
proof fn lemma_two_indices_count(s: Seq<ProjectedSplat>, i: int, j: int)
    requires
        0 <= i < j < s.len(),
        s[i] == s[j],
    ensures
        s.to_multiset().count(s[i]) >= 2,
{
    broadcast use vstd::seq_lib::group_to_multiset_ensures;

    assert(s.remove(i).to_multiset() =~= s.to_multiset().remove(s[i]));
    assert(s.remove(i)[j - 1] == s[j]);
    assert(s.remove(i).contains(s[i]));
    assert(s.remove(i).to_multiset().count(s[i]) > 0);
}

/// A count of at least two yields two distinct positions holding the
/// splat.
proof fn lemma_count_two_indices(s: Seq<ProjectedSplat>, x: ProjectedSplat)
    requires
        s.to_multiset().count(x) >= 2,
    ensures
        exists|i: int, j: int| 0 <= i < j < s.len() && s[i] == x && s[j] == x,
{
    broadcast use vstd::seq_lib::group_to_multiset_ensures;

    assert(s.contains(x));
    let i = choose|i: int| 0 <= i < s.len() && s[i] == x;
    assert(s.remove(i).to_multiset() =~= s.to_multiset().remove(s[i]));
    assert(s.remove(i).to_multiset().count(x) > 0);
    assert(s.remove(i).contains(x));
    let k = choose|k: int| 0 <= k < s.remove(i).len() && s.remove(i)[k] == x;
    if k < i {
        assert(s[k] == x);
        assert(0 <= k < i < s.len() && s[k] == x && s[i] == x);
    } else {
        assert(s[k + 1] == x);
        assert(0 <= i < k + 1 < s.len() && s[i] == x && s[k + 1] == x);
    }
}

/// Depth distinctness is a property of the entries alone: it carries
/// over to any reordering.
proof fn lemma_distinct_depths_transfer(a: Seq<ProjectedSplat>, b: Seq<ProjectedSplat>)
    requires
        a.to_multiset() == b.to_multiset(),
        distinct_depths(a),
    ensures
        distinct_depths(b),
{
    broadcast use vstd::seq_lib::group_to_multiset_ensures;

    assert forall|i: int, j: int| 0 <= i < j < b.len() implies b[i].depth_bits
        != b[j].depth_bits by {
        if b[i].depth_bits == b[j].depth_bits {
            if b[i] == b[j] {
                lemma_two_indices_count(b, i, j);
                lemma_count_two_indices(a, b[i]);
                let (p, q) = choose|p: int, q: int|
                    0 <= p < q < a.len() && a[p] == b[i] && a[q] == b[i];
                assert(a[p].depth_bits == a[q].depth_bits);
            } else {
                assert(b.contains(b[i]));
                assert(a.to_multiset().count(b[i]) > 0);
                assert(a.contains(b[i]));
                assert(b.contains(b[j]));
                assert(a.to_multiset().count(b[j]) > 0);
                assert(a.contains(b[j]));
                let p = choose|p: int| 0 <= p < a.len() && a[p] == b[i];
                let q = choose|q: int| 0 <= q < a.len() && a[q] == b[j];
                assert(p != q);
                if p < q {
                    assert(a[p].depth_bits != a[q].depth_bits);
                } else {
                    assert(a[q].depth_bits != a[p].depth_bits);
                }
            }
        }
    }
}

/// Two back-to-front sequences with the same entries and pairwise
/// distinct distances are identical.
proof fn lemma_sorted_unique(a: Seq<ProjectedSplat>, b: Seq<ProjectedSplat>)
    requires
        sorted_back_to_front(a),
        sorted_back_to_front(b),
        distinct_depths(a),
        a.to_multiset() == b.to_multiset(),
    ensures
        a == b,
    decreases a.len(),
{
    broadcast use vstd::seq_lib::group_to_multiset_ensures;

    assert(a.len() == a.to_multiset().len());
    assert(b.len() == b.to_multiset().len());
    assert(a.len() == b.len());
    if a.len() == 0 {
        assert(a =~= b);
    } else {
        assert(a.contains(a[0]));
        assert(b.to_multiset().count(a[0]) > 0);
        assert(b.contains(a[0]));
        let k = choose|k: int| 0 <= k < b.len() && b[k] == a[0];
        assert(b[0].depth_bits >= b[k].depth_bits);

        assert(b.contains(b[0]));
        assert(a.to_multiset().count(b[0]) > 0);
        assert(a.contains(b[0]));
        let m = choose|m: int| 0 <= m < a.len() && a[m] == b[0];
        assert(a[0].depth_bits >= a[m].depth_bits);

        assert(a[0].depth_bits == b[0].depth_bits);
        assert(m == 0) by {
            if m > 0 {
                assert(a[0].depth_bits != a[m].depth_bits);
            }
        }
        assert(a[0] == b[0]);

        let a_tail = a.remove(0);
        let b_tail = b.remove(0);
        assert(a_tail.to_multiset() =~= a.to_multiset().remove(a[0]));
        assert(b_tail.to_multiset() =~= b.to_multiset().remove(b[0]));
        assert(a_tail.to_multiset() == b_tail.to_multiset());
        assert(sorted_back_to_front(a_tail)) by {
            assert(forall|i: int, j: int|
                0 <= i < j < a_tail.len() ==> a_tail[i] == a[i + 1] && a_tail[j] == a[j + 1]);
        }
        assert(sorted_back_to_front(b_tail)) by {
            assert(forall|i: int, j: int|
                0 <= i < j < b_tail.len() ==> b_tail[i] == b[i + 1] && b_tail[j] == b[j + 1]);
        }
        assert(distinct_depths(a_tail)) by {
            assert(forall|i: int, j: int|
                0 <= i < j < a_tail.len() ==> a_tail[i] == a[i + 1] && a_tail[j] == a[j + 1]);
        }
        lemma_sorted_unique(a_tail, b_tail);
        assert(a =~= b) by {
            assert(forall|i: int| 1 <= i < a.len() ==> a[i] == a_tail[i - 1] && b[i] == b_tail[i
                - 1]);
        }
    }
}

/// Scene-order independence: two scenes holding the same splats, however
/// ordered, render to the same frame, provided no two visible splats
/// share a distance.  (With shared distances the documented tie-break is
/// the scene order.)
pub proof fn lemma_render_independent_of_scene_order(
    s1: Seq<ProjectedSplat>,
    s2: Seq<ProjectedSplat>,
    w: int,
    h: int,
)
    requires
        s1.to_multiset() == s2.to_multiset(),
        distinct_depths(visible_splats(s1, w, h)),
    ensures
        render_spec(s1, w, h) == render_spec(s2, w, h),
{
    let vs1 = visible_splats(s1, w, h);
    let vs2 = visible_splats(s2, w, h);
    assert(vs1.to_multiset() =~= vs2.to_multiset()) by {
        assert forall|x: ProjectedSplat| vs1.to_multiset().count(x) == vs2.to_multiset().count(
            x,
        ) by {
            lemma_visible_splats_count(s1, w, h, x);
            lemma_visible_splats_count(s2, w, h, x);
        }
    }
    lemma_sort_back_to_front_multiset(vs1);
    lemma_sort_back_to_front_multiset(vs2);
    lemma_sort_back_to_front_sorted(vs1);
    lemma_sort_back_to_front_sorted(vs2);
    lemma_distinct_depths_transfer(vs1, sort_back_to_front(vs1));
    lemma_sorted_unique(sort_back_to_front(vs1), sort_back_to_front(vs2));
}

/// Blending a fully opaque source replaces the destination channel.
proof fn lemma_blend_opaque(dst: u8, src: u8)
    ensures
        blend_channel_spec(dst, src, 255) == src,
{
}

/// A scene of one fully opaque splat renders as exactly its clipped
/// billboard footprint in the splat's own colour over the opaque black
/// background: every covered pixel holds the splat's RGB, every other
/// pixel stays black, and every alpha byte stays 255.
pub proof fn lemma_single_opaque_splat_frame(s: ProjectedSplat, w: int, h: int)
    requires
        visible(s, w, h),
        s.color.a == 255,
    ensures
        render_spec(seq![s], w, h) == Seq::new(
            (w * h * 4) as nat,
            |i: int|
                {
                    let x = (i / 4) % w;
                    let y = (i / 4) / w;
                    let k = i % 4;
                    if k == 3 {
                        255u8
                    } else if covers(s, w, h, x, y) {
                        channel_of(s.color, k)
                    } else {
                        0u8
                    }
                },
        ),
{
    let bg = background_spec(w, h);

    assert(seq![s].drop_first() =~= Seq::<ProjectedSplat>::empty());
    assert(visible_splats(Seq::<ProjectedSplat>::empty(), w, h)
        =~= Seq::<ProjectedSplat>::empty());
    assert(visible_splats(seq![s], w, h) =~= seq![s]);

    assert(seq![s].drop_last() =~= Seq::<ProjectedSplat>::empty());
    assert(sort_back_to_front(Seq::<ProjectedSplat>::empty())
        =~= Seq::<ProjectedSplat>::empty());
    assert(insert_back_to_front(Seq::<ProjectedSplat>::empty(), s) =~= seq![s]);
    assert(sort_back_to_front(seq![s]) == insert_back_to_front(
        Seq::<ProjectedSplat>::empty(),
        s,
    ));

    assert(composite_all_spec(bg, seq![s], w, h) == composite_splat_spec(
        composite_all_spec(bg, Seq::<ProjectedSplat>::empty(), w, h),
        s,
        w,
        h,
    ));

    assert forall|i: int| 0 <= i < w * h * 4 implies composite_splat_spec(bg, s, w, h)[i] == ({
        let x = (i / 4) % w;
        let y = (i / 4) / w;
        let k = i % 4;
        if k == 3 {
            255u8
        } else if covers(s, w, h, x, y) {
            channel_of(s.color, k)
        } else {
            0u8
        }
    }) by {
        let x = (i / 4) % w;
        let y = (i / 4) / w;
        let k = i % 4;
        if covers(s, w, h, x, y) && k < 3 {
            lemma_blend_opaque(bg[i], channel_of(s.color, k));
        }
    }
    assert(render_spec(seq![s], w, h) =~= Seq::new(
        (w * h * 4) as nat,
        |i: int|
            {
                let x = (i / 4) % w;
                let y = (i / 4) / w;
                let k = i % 4;
                if k == 3 {
                    255u8
                } else if covers(s, w, h, x, y) {
                    channel_of(s.color, k)
                } else {
                    0u8
                }
            },
    ));
}

} // verus!
