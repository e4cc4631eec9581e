//! Sizes, rectangles and the scale-to-fit rule shared by the rasterizer and
//! the print dispatcher.

use vstd::prelude::*;

verus! {

/// A width and a height in whole units: pixels for a raster, device units for
/// a printable area, document units for a page.
#[derive(Clone, Copy, Debug, PartialEq, Eq, Structural)]
pub struct Size {
    pub width: u32,
    pub height: u32,
}

/// An axis-aligned rectangle in device units.
#[derive(Clone, Copy, Debug, PartialEq, Eq, Structural)]
pub struct Rect {
    pub x: u32,
    pub y: u32,
    pub width: u32,
    pub height: u32,
}

impl Size {
    /// A size is empty when it covers no area.
    pub open spec fn is_empty_spec(self) -> bool {
        self.width == 0 || self.height == 0
    }

    /// Whether the size covers no area.
    #[verifier::when_used_as_spec(is_empty_spec)]
    pub fn is_empty(self) -> (empty: bool)
        ensures
            empty == self.is_empty_spec(),
    {
        self.width == 0 || self.height == 0
    }
}

/// `source` is relatively wider than `bounds`, that is
/// `source.width / source.height > bounds.width / bounds.height`,
/// stated without division.
pub open spec fn is_wider(source: Size, bounds: Size) -> bool {
    source.width * bounds.height > source.height * bounds.width
}

/// Width of `source` after scaling it to fit `bounds`.
pub open spec fn fitted_width(source: Size, bounds: Size) -> int {
    if is_wider(source, bounds) {
        bounds.width as int
    } else {
        (bounds.height * source.width) / (source.height as int)
    }
}

/// Height of `source` after scaling it to fit `bounds`.
pub open spec fn fitted_height(source: Size, bounds: Size) -> int {
    if is_wider(source, bounds) {
        (bounds.width * source.height) / (source.width as int)
    } else {
        bounds.height as int
    }
}

/// The fitted size never leaves the bounds.
pub proof fn lemma_fit_stays_within_bounds(source: Size, bounds: Size)
    requires
        !source.is_empty(),
    ensures
        0 <= fitted_width(source, bounds) <= bounds.width,
        0 <= fitted_height(source, bounds) <= bounds.height,
{
    let sw = source.width as int;
    let sh = source.height as int;
    let bw = bounds.width as int;
    let bh = bounds.height as int;
    if is_wider(source, bounds) {
        assert(0 <= (bw * sh) / sw <= bh) by (nonlinear_arith)
            requires
                sw > 0,
                sh > 0,
                bw >= 0,
                bh >= 0,
                sw * bh > sh * bw,
        ;
    } else {
        assert(0 <= (bh * sw) / sh <= bw) by (nonlinear_arith)
            requires
                sw > 0,
                sh > 0,
                bw >= 0,
                bh >= 0,
                sw * bh <= sh * bw,
        ;
    }
}

/// The fitted size has the proportions of the source, up to the rounding of
/// one division: the cross products differ by less than one source side.
pub proof fn lemma_fit_keeps_proportions(source: Size, bounds: Size)
    requires
        !source.is_empty(),
    ensures
        is_wider(source, bounds) ==> 0 <= fitted_width(source, bounds) * source.height
            - fitted_height(source, bounds) * source.width < source.width,
        !is_wider(source, bounds) ==> 0 <= fitted_height(source, bounds) * source.width
            - fitted_width(source, bounds) * source.height < source.height,
{
    let sw = source.width as int;
    let sh = source.height as int;
    let bw = bounds.width as int;
    let bh = bounds.height as int;
    if is_wider(source, bounds) {
        assert(0 <= bw * sh - ((bw * sh) / sw) * sw < sw) by (nonlinear_arith)
            requires
                sw > 0,
                sh > 0,
                bw >= 0,
        ;
    } else {
        assert(0 <= bh * sw - ((bh * sw) / sh) * sh < sh) by (nonlinear_arith)
            requires
                sw > 0,
                sh > 0,
                bh >= 0,
        ;
    }
}

/// Scaling to fit always fills the bounds along at least one axis.
pub proof fn lemma_fit_fills_one_side(source: Size, bounds: Size)
    requires
        !source.is_empty(),
    ensures
        fitted_width(source, bounds) == bounds.width || fitted_height(source, bounds)
            == bounds.height,
{
}

/// The destination of a raster on a printable area, case by case: a raster
/// that is relatively wider than the area gets the area's width, and the
/// height that keeps its proportions; one that is relatively narrower gets
/// the area's height, and the width that keeps its proportions.
pub proof fn lemma_fit_by_width_or_by_height(raster: Size, printable: Size)
    requires
        !raster.is_empty(),
    ensures
        raster.width * printable.height > raster.height * printable.width ==> {
            &&& fitted_width(raster, printable) == printable.width
            &&& fitted_height(raster, printable) == (printable.width * raster.height) / (
            raster.width as int)
        },
        raster.width * printable.height < raster.height * printable.width ==> {
            &&& fitted_height(raster, printable) == printable.height
            &&& fitted_width(raster, printable) == (printable.height * raster.width) / (
            raster.height as int)
        },
{
}

/// Where source and bounds have the same proportions, the fitted size is the
/// bounds themselves.
pub proof fn lemma_fit_of_equal_proportions(source: Size, bounds: Size)
    requires
        !source.is_empty(),
        source.width * bounds.height == source.height * bounds.width,
    ensures
        fitted_width(source, bounds) == bounds.width,
        fitted_height(source, bounds) == bounds.height,
{
    let sw = source.width as int;
    let sh = source.height as int;
    let bw = bounds.width as int;
    let bh = bounds.height as int;
    assert((bh * sw) / sh == bw) by (nonlinear_arith)
        requires
            sh > 0,
            sw * bh == sh * bw,
    ;
}

/// Scales `source` to the largest size of the same proportions that fits
/// inside `bounds`. Where the source is relatively wider than the bounds the
/// width becomes `bounds.width` and the height `bounds.width * source.height /
/// source.width`; otherwise the height becomes `bounds.height` and the width
/// `bounds.height * source.width / source.height`. Divisions round down.
///
/// An empty source has no proportions: the answer is `None`.
pub fn scale_to_fit(source: Size, bounds: Size) -> (fitted: Option<Size>)
    ensures
        fitted is Some <==> !source.is_empty(),
        fitted matches Some(size) ==> {
            &&& size.width == fitted_width(source, bounds)
            &&& size.height == fitted_height(source, bounds)
            &&& size.width <= bounds.width
            &&& size.height <= bounds.height
        },
{
    if source.is_empty() {
        return None;
    }
    proof {
        lemma_fit_stays_within_bounds(source, bounds);
    }
    let sw: u64 = source.width as u64;
    let sh: u64 = source.height as u64;
    let bw: u64 = bounds.width as u64;
    let bh: u64 = bounds.height as u64;
    assert(sw * bh <= 0xffff_ffff * 0xffff_ffff && sh * bw <= 0xffff_ffff * 0xffff_ffff
        && bw * sh <= 0xffff_ffff * 0xffff_ffff && bh * sw <= 0xffff_ffff * 0xffff_ffff)
        by (nonlinear_arith)
        requires
            sw <= 0xffff_ffff,
            sh <= 0xffff_ffff,
            bw <= 0xffff_ffff,
            bh <= 0xffff_ffff,
    ;
    if sw * bh > sh * bw {
        let height: u64 = (bw * sh) / sw;
        Some(Size { width: bounds.width, height: height as u32 })
    } else {
        let width: u64 = (bh * sw) / sh;
        Some(Size { width: width as u32, height: bounds.height })
    }
}

/// Where on the printable area a raster of size `raster` is drawn: scaled to
/// fit `printable`, anchored at the printable area's origin.
pub fn destination_rect(raster: Size, printable: Size) -> (dest: Option<Rect>)
    ensures
        dest is Some <==> !raster.is_empty(),
        dest matches Some(rect) ==> {
            &&& rect.x == 0
            &&& rect.y == 0
            &&& rect.width == fitted_width(raster, printable)
            &&& rect.height == fitted_height(raster, printable)
        },
{
    match scale_to_fit(raster, printable) {
        Some(size) => Some(Rect { x: 0, y: 0, width: size.width, height: size.height }),
        None => None,
    }
}

} // verus!
