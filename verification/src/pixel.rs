use vstd::prelude::*;
use vstd::arithmetic::div_mod::{
    lemma_fundamental_div_mod, lemma_fundamental_div_mod_converse, lemma_mod_pos_bound,
};

verus! {

/// A channel value built from an 8-bit pixel component.
pub trait FromPixel: Sized {
    /// The value that `from_pixel` builds from `p`.
    spec fn pixel_value(p: u8) -> Self;

    fn from_pixel(p: u8) -> (r: Self)
        ensures
            r == Self::pixel_value(p),
    ;
}

impl FromPixel for u8 {
    open spec fn pixel_value(p: u8) -> u8 {
        p
    }

    fn from_pixel(p: u8) -> (r: u8) {
        p
    }
}

/// Where the value at position `k` of a channel-major (CHW) image of height
/// `h` and width `w` comes from in the pixel-major (HWC, three channels)
/// layout: pixel `k % (h * w)`, channel `k / (h * w)`.
pub open spec fn hwc_source(k: int, h: int, w: int) -> int {
    (k % (h * w)) * 3 + k / (h * w)
}

/// Where the value at position `j` of a pixel-major (HWC) image goes in the
/// channel-major (CHW) layout.
pub open spec fn chw_target(j: int, h: int, w: int) -> int {
    (j % 3) * (h * w) + j / 3
}

/// Channel `c` of the pixel in row `y`, column `x` of a pixel-major image sits
/// at position `c * h * w + y * w + x` of the channel-major image.
pub proof fn law_chw_position(c: int, y: int, x: int, h: int, w: int)
    requires
        0 <= c < 3,
        0 <= y < h,
        0 <= x < w,
    ensures
        0 <= y * w + x < h * w,
        c * (h * w) + y * w + x < 3 * (h * w),
        (y * w + x) * 3 + c < 3 * (h * w),
        hwc_source(c * (h * w) + y * w + x, h, w) == (y * w + x) * 3 + c,
{
    assert(0 <= y * w + x < h * w) by (nonlinear_arith)
        requires
            0 <= y < h,
            0 <= x < w,
    ;
    assert(c * (h * w) + y * w + x < 3 * (h * w)) by (nonlinear_arith)
        requires
            0 <= c < 3,
            0 <= y * w + x < h * w,
    ;
    lemma_fundamental_div_mod_converse(c * (h * w) + y * w + x, h * w, c, y * w + x);
}

/// Rearranges a three-channel image from pixel-major (HWC) order, as a camera
/// delivers it, to channel-major (CHW) order, converting each component with
/// `P::from_pixel`.
pub fn hwc_to_chw<P: FromPixel>(data: &[u8], h: usize, w: usize) -> (r: Vec<P>)
    requires
        3 * (h * w) <= data@.len(),
    ensures
        r@.len() == 3 * (h * w),
        forall|k: int|
            0 <= k < r@.len() ==> #[trigger] r@[k] == P::pixel_value(
                data@[hwc_source(k, h as int, w as int)],
            ),
{
    let ghost hw: int = h * w;
    let len: usize = data.len();
    assert(len == data@.len());
    let plane: usize = h * w;
    let mut chw_data: Vec<P> = Vec::new();
    let mut c: usize = 0;
    while c < 3
        invariant
            c <= 3,
            plane == hw,
            hw == h * w,
            3 * hw <= data@.len(),
            data@.len() == len,
            chw_data@.len() == c * hw,
            forall|k: int|
                0 <= k < chw_data@.len() ==> #[trigger] chw_data@[k] == P::pixel_value(
                    data@[hwc_source(k, h as int, w as int)],
                ),
        decreases 3 - c,
    {
        let mut y: usize = 0;
        while y < h
            invariant
                c < 3,
                y <= h,
                plane == hw,
                hw == h * w,
                3 * hw <= data@.len(),
                data@.len() == len,
                chw_data@.len() == c * hw + y * w,
                forall|k: int|
                    0 <= k < chw_data@.len() ==> #[trigger] chw_data@[k] == P::pixel_value(
                        data@[hwc_source(k, h as int, w as int)],
                    ),
            decreases h - y,
        {
            let mut x: usize = 0;
            while x < w
                invariant
                    c < 3,
                    y < h,
                    x <= w,
                    plane == hw,
                    hw == h * w,
                    3 * hw <= data@.len(),
                    data@.len() == len,
                    chw_data@.len() == c * hw + y * w + x,
                    forall|k: int|
                        0 <= k < chw_data@.len() ==> #[trigger] chw_data@[k] == P::pixel_value(
                            data@[hwc_source(k, h as int, w as int)],
                        ),
                decreases w - x,
            {
                proof {
                    law_chw_position(c as int, y as int, x as int, h as int, w as int);
                }
                let hwc_idx: usize = (y * w + x) * 3 + c;
                let value: P = P::from_pixel(data[hwc_idx]);
                chw_data.push(value);
                x = x + 1;
            }
            proof {
                assert(c * hw + y * w + w == c * hw + (y + 1) * w) by (nonlinear_arith);
            }
            y = y + 1;
        }
        proof {
            assert(c * hw + h * w == (c + 1) * hw) by (nonlinear_arith)
                requires
                    hw == h * w,
            ;
        }
        c = c + 1;
    }
    chw_data
}

/// The channel-major rearrangement is a permutation of the three planes: the
/// value of each channel of each pixel lands at exactly one position, and each
/// position is filled from exactly one channel of one pixel.
pub proof fn law_chw_is_permutation(h: nat, w: nat)
    requires
        h * w > 0,
    ensures
        forall|k: int|
            0 <= k < 3 * (h * w) ==> 0 <= #[trigger] hwc_source(k, h as int, w as int) < 3 * (h * w)
                && chw_target(hwc_source(k, h as int, w as int), h as int, w as int) == k,
        forall|j: int|
            0 <= j < 3 * (h * w) ==> 0 <= #[trigger] chw_target(j, h as int, w as int) < 3 * (h * w)
                && hwc_source(chw_target(j, h as int, w as int), h as int, w as int) == j,
{
    let hw: int = (h * w) as int;
    assert forall|k: int| 0 <= k < 3 * hw implies 0 <= #[trigger] hwc_source(k, h as int, w as int) < 3 * hw
        && chw_target(hwc_source(k, h as int, w as int), h as int, w as int) == k by {
        let c = k / hw;
        let p = k % hw;
        lemma_fundamental_div_mod(k, hw);
        lemma_mod_pos_bound(k, hw);
        assert(0 <= c < 3) by (nonlinear_arith)
            requires
                hw > 0,
                0 <= k < 3 * hw,
                k == hw * c + p,
                0 <= p < hw,
        ;
        lemma_fundamental_div_mod_converse(p * 3 + c, 3, p, c);
        assert(0 <= p * 3 + c < 3 * hw) by (nonlinear_arith)
            requires
                0 <= c < 3,
                0 <= p < hw,
        ;
    }
    assert forall|j: int| 0 <= j < 3 * hw implies 0 <= #[trigger] chw_target(j, h as int, w as int) < 3 * hw
        && hwc_source(chw_target(j, h as int, w as int), h as int, w as int) == j by {
        let c = j % 3;
        let p = j / 3;
        assert(0 <= p < hw) by (nonlinear_arith)
            requires
                0 <= j < 3 * hw,
                p == j / 3,
        ;
        assert(0 <= c * hw + p < 3 * hw) by (nonlinear_arith)
            requires
                0 <= c < 3,
                0 <= p < hw,
        ;
        lemma_fundamental_div_mod_converse(c * hw + p, hw, c, p);
    }
}

}
