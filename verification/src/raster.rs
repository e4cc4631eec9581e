//! The page rasterizer's side of the job: how large a page is rendered, and
//! the pixel buffer in the byte order that a device wants.

use vstd::prelude::*;
use vstd::arithmetic::div_mod::lemma_fundamental_div_mod_converse;
use crate::geometry::{
    fitted_height, fitted_width, lemma_fit_keeps_proportions, lemma_fit_stays_within_bounds,
    scale_to_fit, Size,
};

verus! {

/// Width of the box into which a page is rendered, in pixels: four inches
/// at 300 dots per inch.
pub const TARGET_WIDTH: u32 = 1200;

/// Height of the box into which a page is rendered, in pixels: six inches
/// at 300 dots per inch.
pub const TARGET_HEIGHT: u32 = 1800;

/// In which order the three channels of a pixel stand in memory.
#[derive(Clone, Copy, Debug, PartialEq, Eq, Structural)]
pub enum ChannelOrder {
    Rgb,
    Bgr,
}

/// Whether the first row in memory is the top or the bottom of the picture.
#[derive(Clone, Copy, Debug, PartialEq, Eq, Structural)]
pub enum RowOrder {
    TopDown,
    BottomUp,
}

/// How a picture of 8-bit RGB pixels lies in memory.
#[derive(Clone, Copy, Debug, PartialEq, Eq, Structural)]
pub struct PixelLayout {
    pub channels: ChannelOrder,
    pub rows: RowOrder,
    /// Every row starts at a multiple of this many bytes; what is left of a
    /// row after its pixels is padding. Zero and one both mean no padding.
    pub row_alignment: u32,
}

/// Why a page could not be rasterized.
#[derive(Clone, Debug, PartialEq, Eq)]
pub enum RenderError {
    /// The rendering backend cannot be located.
    BackendUnavailable(String),
    /// The backend could not rasterize the page.
    PageFailed(String),
    /// The page has no area, or would have none at the target size.
    EmptyPage,
    /// The backend's pixel buffer has not the length that its size and
    /// layout call for.
    BadBuffer,
    /// The picture does not fit into memory in the layout asked for.
    TooLarge,
}

/// The size at which a page of size `page` is rendered into `target`, where
/// that size has an area.
pub open spec fn rendered_size(page: Size, target: Size) -> Option<Size> {
    if page.is_empty() || fitted_width(page, target) == 0 || fitted_height(page, target) == 0 {
        None
    } else {
        Some(
            Size {
                width: fitted_width(page, target) as u32,
                height: fitted_height(page, target) as u32,
            },
        )
    }
}

/// The pixel size at which a page is rendered: the page scaled to fit the
/// target box, keeping its proportions. A page without area, or one so thin
/// that nothing is left of it at this size, cannot be rendered.
pub fn raster_size(page: Size, target: Size) -> (size: Result<Size, RenderError>)
    ensures
        size matches Ok(s) ==> rendered_size(page, target) == Some(s) && s.width <= target.width
            && s.height <= target.height && !s.is_empty(),
        size matches Err(e) ==> rendered_size(page, target) is None && e == RenderError::EmptyPage,
{
    match scale_to_fit(page, target) {
        Some(fitted) => {
            if fitted.is_empty() {
                Err(RenderError::EmptyPage)
            } else {
                Ok(fitted)
            }
        },
        None => Err(RenderError::EmptyPage),
    }
}

/// A rendered page fits the target box and has the page's proportions, up
/// to the rounding of one division: the cross products of the two sizes
/// differ by less than one side of the page.
pub proof fn lemma_rendered_page_fits_and_keeps_proportions(page: Size, target: Size)
    requires
        rendered_size(page, target) is Some,
    ensures
        ({
            let size = rendered_size(page, target).unwrap();
            let across = size.width * page.height - size.height * page.width;
            &&& 0 < size.width <= target.width
            &&& 0 < size.height <= target.height
            &&& size.width == target.width || size.height == target.height
            &&& -(page.height as int) < across < page.width
        }),
{
    lemma_fit_stays_within_bounds(page, target);
    lemma_fit_keeps_proportions(page, target);
}

/// Bytes from the start of one row to the start of the next.
pub open spec fn row_stride(width: int, alignment: int) -> int {
    let unit = if alignment <= 0 {
        1
    } else {
        alignment
    };
    ((3 * width + unit - 1) / unit) * unit
}

/// The row of the picture, counted from the top, that stands at place `row`
/// in memory; and the other way round.
pub open spec fn mirrored_row(rows: RowOrder, height: int, row: int) -> int {
    match rows {
        RowOrder::TopDown => row,
        RowOrder::BottomUp => height - 1 - row,
    }
}

/// The channel, counted as red 0, green 1, blue 2, that stands at place
/// `channel` of a pixel in memory; and the other way round.
pub open spec fn mirrored_channel(channels: ChannelOrder, channel: int) -> int {
    match channels {
        ChannelOrder::Rgb => channel,
        ChannelOrder::Bgr => 2 - channel,
    }
}

/// The mathematical content of a [`RasterBuffer`]: its size and its bytes,
/// three to a pixel in the order red, green, blue, rows from the top, no
/// padding.
pub struct RasterView {
    pub width: int,
    pub height: int,
    pub data: Seq<u8>,
}

impl RasterView {
    pub open spec fn well_formed(self) -> bool {
        &&& 0 < self.width <= u32::MAX
        &&& 0 < self.height <= u32::MAX
        &&& self.data.len() == 3 * self.width * self.height
    }

    /// Channel `channel` (red 0, green 1, blue 2) of the pixel in column `x`
    /// of row `y`, counted from the top left.
    pub open spec fn channel(self, x: int, y: int, channel: int) -> u8 {
        self.data[(y * self.width + x) * 3 + channel]
    }

    /// The byte that a device with this layout finds at column `column` of
    /// its row `row`: a channel of a pixel, or zero in the padding.
    pub open spec fn device_byte(self, layout: PixelLayout, row: int, column: int) -> u8 {
        if column < 3 * self.width {
            self.channel(
                column / 3,
                mirrored_row(layout.rows, self.height, row),
                mirrored_channel(layout.channels, column % 3),
            )
        } else {
            0u8
        }
    }

    /// The picture as a device with this layout wants it.
    pub open spec fn laid_out(self, layout: PixelLayout) -> Seq<u8> {
        let stride = row_stride(self.width, layout.row_alignment as int);
        Seq::new(
            (stride * self.height) as nat,
            |i: int| self.device_byte(layout, i / stride, i % stride),
        )
    }
}

/// Where in a buffer of layout `layout` the channel `channel` of the pixel
/// `(x, y)` of a picture `width` wide and `height` high stands.
pub open spec fn native_position(
    layout: PixelLayout,
    width: int,
    height: int,
    x: int,
    y: int,
    channel: int,
) -> int {
    mirrored_row(layout.rows, height, y) * row_stride(width, layout.row_alignment as int) + 3 * x
        + mirrored_channel(layout.channels, channel)
}

/// The picture that a buffer of layout `layout` holds, as red, green, blue
/// from the top left without padding.
pub open spec fn read_native(bytes: Seq<u8>, width: int, height: int, layout: PixelLayout) -> Seq<
    u8,
> {
    Seq::new(
        (3 * width * height) as nat,
        |i: int|
            bytes[native_position(layout, width, height, (i / 3) % width, (i / 3) / width, i % 3)],
    )
}

/// One page, rasterized: 8-bit RGB pixels, rows from the top, no padding.
/// A buffer always has an area, and its bytes are exactly its pixels.
pub struct RasterBuffer {
    width: u32,
    height: u32,
    data: Vec<u8>,
}

impl View for RasterBuffer {
    type V = RasterView;

    closed spec fn view(&self) -> RasterView {
        RasterView { width: self.width as int, height: self.height as int, data: self.data@ }
    }
}

/// The stride of a row, computed.
fn stride_of(width: u32, alignment: u32) -> (stride: u64)
    ensures
        stride == row_stride(width as int, alignment as int),
        3 * width <= stride < 3 * width + 0x1_0000_0000,
{
    let unit: u64 = if alignment == 0 {
        1
    } else {
        alignment as u64
    };
    let total: u64 = 3 * (width as u64) + unit - 1;
    let rows: u64 = total / unit;
    assert(total - unit < rows * unit <= total) by (nonlinear_arith)
        requires
            rows == total / unit,
            unit > 0,
    ;
    rows * unit
}

/// The number of bytes of `height` rows of `stride` bytes, where that is a
/// length that a buffer can have.
fn buffer_length(stride: u64, height: u32) -> (length: Option<usize>)
    requires
        stride < 0x4_0000_0000,
    ensures
        length matches Some(n) ==> n == stride * height,
        length is None ==> stride * height > usize::MAX,
{
    assert(stride * height <= 0x4_0000_0000 * 0x1_0000_0000) by (nonlinear_arith)
        requires
            stride < 0x4_0000_0000,
            height < 0x1_0000_0000,
    ;
    let total: u128 = (stride as u128) * (height as u128);
    if total > usize::MAX as u128 {
        None
    } else {
        Some(total as usize)
    }
}

impl RasterBuffer {
    #[verifier::type_invariant]
    spec fn consistent(self) -> bool {
        &&& self.width > 0
        &&& self.height > 0
        &&& self.data@.len() == 3 * self.width * self.height
    }

    /// A buffer of `width` by `height` pixels from their bytes: red, green,
    /// blue for each pixel, rows from the top, no padding.
    pub fn new(width: u32, height: u32, data: Vec<u8>) -> (buffer: Result<RasterBuffer, RenderError>)
        ensures
            buffer matches Ok(b) ==> b@ == (RasterView {
                width: width as int,
                height: height as int,
                data: data@,
            }) && b@.well_formed(),
            buffer matches Err(e) ==> e == (if width == 0 || height == 0 {
                RenderError::EmptyPage
            } else {
                RenderError::BadBuffer
            }),
            buffer is Ok <==> width > 0 && height > 0 && data@.len() == 3 * width * height,
    {
        if width == 0 || height == 0 {
            return Err(RenderError::EmptyPage);
        }
        let given: usize = data.len();
        match buffer_length(3 * (width as u64), height) {
            Some(length) => {
                if given == length {
                    Ok(RasterBuffer { width, height, data })
                } else {
                    Err(RenderError::BadBuffer)
                }
            },
            None => Err(RenderError::BadBuffer),
        }
    }

    /// Takes over the picture that a rendering backend has produced in its
    /// own layout: the rows are put top down, the channels in the order red,
    /// green, blue, and the padding is dropped.
    #[verifier::loop_isolation(false)]
    pub fn from_native(width: u32, height: u32, bytes: &[u8], layout: PixelLayout) -> (buffer:
        Result<RasterBuffer, RenderError>)
        ensures
            buffer matches Ok(b) ==> b@ == (RasterView {
                width: width as int,
                height: height as int,
                data: read_native(bytes@, width as int, height as int, layout),
            }) && b@.well_formed(),
            buffer matches Err(e) ==> e == (if width == 0 || height == 0 {
                RenderError::EmptyPage
            } else {
                RenderError::BadBuffer
            }),
            buffer is Ok <==> width > 0 && height > 0 && bytes@.len() == row_stride(
                width as int,
                layout.row_alignment as int,
            ) * height,
    {
        if width == 0 || height == 0 {
            return Err(RenderError::EmptyPage);
        }
        let given: usize = bytes.len();
        let stride64: u64 = stride_of(width, layout.row_alignment);
        let total: usize = match buffer_length(stride64, height) {
            Some(total) => total,
            None => {
                return Err(RenderError::BadBuffer);
            },
        };
        if given != total {
            return Err(RenderError::BadBuffer);
        }
        let ghost wanted = read_native(bytes@, width as int, height as int, layout);
        assert(stride64 <= total && 3 * width * height <= total) by (nonlinear_arith)
            requires
                total == stride64 * height,
                3 * width <= stride64,
                height >= 1,
        ;
        let stride: usize = stride64 as usize;
        let wide: usize = width as usize;
        let high: usize = height as usize;
        assert(wanted.len() == 3 * wide * high);
        let mut data: Vec<u8> = Vec::new();
        let mut y: usize = 0;
        while y < high
            invariant
                y <= high,
                data@.len() == (y * wide) * 3,
                data@.len() <= wanted.len(),
                forall|i: int| 0 <= i < data@.len() ==> data@[i] == wanted[i],
            decreases high - y,
        {
            let row: usize = match layout.rows {
                RowOrder::TopDown => y,
                RowOrder::BottomUp => high - 1 - y,
            };
            assert(0 <= row * stride && row * stride + stride <= total) by (nonlinear_arith)
                requires
                    0 <= row < high,
                    total == stride * high,
            ;
            assert(((y + 1) * wide) * 3 == (y * wide + wide) * 3 && (y * wide + wide) * 3 <= 3
                * wide * high) by (nonlinear_arith)
                requires
                    0 <= y < high,
                    0 <= wide,
            ;
            let mut x: usize = 0;
            while x < wide
                invariant
                    x <= wide,
                    data@.len() == (y * wide + x) * 3,
                    data@.len() <= wanted.len(),
                    forall|i: int| 0 <= i < data@.len() ==> data@[i] == wanted[i],
                decreases wide - x,
            {
                proof {
                    lemma_pixel_in_range(wide as int, high as int, x as int, y as int);
                }
                let base: usize = row * stride + 3 * x;
                let first: u8 = bytes[base];
                let second: u8 = bytes[base + 1];
                let third: u8 = bytes[base + 2];
                let ghost start = data@.len() as int;
                match layout.channels {
                    ChannelOrder::Rgb => {
                        data.push(first);
                        data.push(second);
                        data.push(third);
                    },
                    ChannelOrder::Bgr => {
                        data.push(third);
                        data.push(second);
                        data.push(first);
                    },
                }
                assert(data@[start] == wanted[start]);
                assert(data@[start + 1] == wanted[start + 1]);
                assert(data@[start + 2] == wanted[start + 2]);
                x += 1;
            }
            y += 1;
        }
        assert((high * wide) * 3 == 3 * wide * high) by (nonlinear_arith);
        assert(data@ =~= wanted);
        Ok(RasterBuffer { width, height, data })
    }

    /// Width in pixels.
    pub fn width(&self) -> (width: u32)
        ensures
            width == self@.width,
            self@.well_formed(),
    {
        proof {
            use_type_invariant(self);
        }
        self.width
    }

    /// Height in pixels.
    pub fn height(&self) -> (height: u32)
        ensures
            height == self@.height,
            self@.well_formed(),
    {
        proof {
            use_type_invariant(self);
        }
        self.height
    }

    /// Width and height in pixels.
    pub fn size(&self) -> (size: Size)
        ensures
            size.width == self@.width,
            size.height == self@.height,
            !size.is_empty(),
    {
        proof {
            use_type_invariant(self);
        }
        Size { width: self.width, height: self.height }
    }

    /// The bytes: red, green, blue for each pixel, rows from the top.
    pub fn data(&self) -> (data: &Vec<u8>)
        ensures
            data@ == self@.data,
    {
        &self.data
    }

    /// Hands the picture over in the byte order that a device with this
    /// layout wants: its rows in the device's order, each pixel's channels in
    /// the device's order, each row padded with zero bytes to the device's
    /// alignment. The buffer is used up by this, so that one rasterized page
    /// is submitted once.
    #[verifier::loop_isolation(false)]
    pub fn into_device(self, layout: PixelLayout) -> (bytes: Result<Vec<u8>, RenderError>)
        ensures
            bytes matches Ok(b) ==> b@ == self@.laid_out(layout),
            bytes matches Err(e) ==> e == RenderError::TooLarge,
            bytes is Ok <==> row_stride(self@.width, layout.row_alignment as int) * self@.height
                <= usize::MAX,
    {
        proof {
            use_type_invariant(&self);
        }
        let stride64: u64 = stride_of(self.width, layout.row_alignment);
        let total: usize = match buffer_length(stride64, self.height) {
            Some(total) => total,
            None => {
                return Err(RenderError::TooLarge);
            },
        };
        let ghost full = self@.laid_out(layout);
        let ghost wide = self.width as int;
        let ghost high = self.height as int;
        assert(stride64 <= total && 3 * wide <= self.data@.len()) by (nonlinear_arith)
            requires
                total == stride64 * high,
                high >= 1,
                wide >= 1,
                self.data@.len() == 3 * wide * high,
        ;
        let stride: usize = stride64 as usize;
        let width: usize = self.width as usize;
        let height: usize = self.height as usize;
        let row_bytes: usize = 3 * width;
        let length: usize = self.data.len();
        assert(full.len() == total);
        assert(length == 3 * width * height);
        let mut out: Vec<u8> = Vec::new();
        let mut row: usize = 0;
        while row < height
            invariant
                row <= height,
                out@.len() == row * stride,
                out@.len() <= total,
                forall|i: int| 0 <= i < out@.len() ==> out@[i] == full[i],
            decreases height - row,
        {
            let y: usize = match layout.rows {
                RowOrder::TopDown => row,
                RowOrder::BottomUp => height - 1 - row,
            };
            assert((row + 1) * stride <= total && (row + 1) * stride == row * stride + stride)
                by (nonlinear_arith)
                requires
                    row < height,
                    total == stride * height,
            ;
            let mut x: usize = 0;
            while x < width
                invariant
                    x <= width,
                    out@.len() == row * stride + 3 * x,
                    out@.len() <= total,
                    forall|i: int| 0 <= i < out@.len() ==> out@[i] == full[i],
                decreases width - x,
            {
                proof {
                    lemma_pixel_in_range(width as int, height as int, x as int, y as int);
                    lemma_place(row as int, stride as int, 3 * x);
                    lemma_place(row as int, stride as int, 3 * x + 1);
                    lemma_place(row as int, stride as int, 3 * x + 2);
                    assert(0 <= y * width <= y * width + x) by (nonlinear_arith)
                        requires
                            0 <= y,
                            0 <= width,
                            0 <= x,
                    ;
                }
                let base: usize = (y * width + x) * 3;
                let red: u8 = self.data[base];
                let green: u8 = self.data[base + 1];
                let blue: u8 = self.data[base + 2];
                let ghost start = out@.len() as int;
                match layout.channels {
                    ChannelOrder::Rgb => {
                        out.push(red);
                        out.push(green);
                        out.push(blue);
                    },
                    ChannelOrder::Bgr => {
                        out.push(blue);
                        out.push(green);
                        out.push(red);
                    },
                }
                assert(out@[start] == full[start]);
                assert(out@[start + 1] == full[start + 1]);
                assert(out@[start + 2] == full[start + 2]);
                x += 1;
            }
            let mut column: usize = row_bytes;
            while column < stride
                invariant
                    row_bytes <= column <= stride,
                    out@.len() == row * stride + column,
                    out@.len() <= total,
                    forall|i: int| 0 <= i < out@.len() ==> out@[i] == full[i],
                decreases stride - column,
            {
                proof {
                    lemma_place(row as int, stride as int, column as int);
                }
                out.push(0);
                column += 1;
            }
            row += 1;
        }
        assert(height * stride == total) by (nonlinear_arith)
            requires
                total == stride * height,
        ;
        assert(out@ =~= full);
        Ok(out)
    }
}

/// A row is at least as long as its pixels, shorter than that plus the
/// alignment, and a multiple of the alignment.
pub proof fn lemma_row_stride_bounds(width: int, alignment: int)
    requires
        0 <= width,
        0 <= alignment,
    ensures
        3 * width <= row_stride(width, alignment),
        alignment > 0 ==> row_stride(width, alignment) < 3 * width + alignment
            && row_stride(width, alignment) % alignment == 0,
        alignment <= 1 ==> row_stride(width, alignment) == 3 * width,
{
    let unit: int = if alignment == 0 {
        1
    } else {
        alignment
    };
    let total: int = 3 * width + unit - 1;
    assert(total - unit < (total / unit) * unit <= total && ((total / unit) * unit) % unit == 0)
        by (nonlinear_arith)
        requires
            unit > 0,
            total >= 0,
    ;
}

/// Laying a picture out for a device loses nothing: read back in the same
/// layout, it is the picture again.
pub proof fn lemma_layout_round_trip(picture: RasterView, layout: PixelLayout)
    requires
        picture.well_formed(),
    ensures
        read_native(picture.laid_out(layout), picture.width, picture.height, layout)
            == picture.data,
{
    let width = picture.width;
    let height = picture.height;
    let stride = row_stride(width, layout.row_alignment as int);
    let device = picture.laid_out(layout);
    let back = read_native(device, width, height, layout);
    lemma_row_stride_bounds(width, layout.row_alignment as int);
    assert(back.len() == picture.data.len());
    assert(3 * width * height == 3 * (width * height)) by (nonlinear_arith);
    assert forall|i: int| 0 <= i < back.len() implies back[i] == picture.data[i] by {
        let pixel = i / 3;
        let channel = i % 3;
        let x = pixel % width;
        let y = pixel / width;
        assert(0 <= y < height && 0 <= x < width && pixel == y * width + x) by (nonlinear_arith)
            requires
                0 <= pixel < width * height,
                width > 0,
                x == pixel % width,
                y == pixel / width,
        ;
        let row = mirrored_row(layout.rows, height, y);
        let column = 3 * x + mirrored_channel(layout.channels, channel);
        lemma_place(row, stride, column);
        assert(row * stride + column < stride * height) by (nonlinear_arith)
            requires
                0 <= row < height,
                0 <= column < stride,
        ;
        assert(device[row * stride + column] == picture.device_byte(layout, row, column));
    }
    assert(back =~= picture.data);
}

proof fn lemma_place(row: int, stride: int, column: int)
    requires
        0 <= column < stride,
        0 <= row,
    ensures
        (row * stride + column) / stride == row,
        (row * stride + column) % stride == column,
        0 <= row * stride,
{
    lemma_fundamental_div_mod_converse(row * stride + column, stride, row, column);
    assert(0 <= row * stride) by (nonlinear_arith)
        requires
            0 <= row,
            0 < stride,
    ;
}

proof fn lemma_pixel_in_range(width: int, height: int, x: int, y: int)
    requires
        0 <= x < width,
        0 <= y < height,
    ensures
        0 <= (y * width + x) * 3,
        (y * width + x) * 3 + 3 <= 3 * width * height,
        (y * width + x) / width == y,
        (y * width + x) % width == x,
{
    lemma_place(y, width, x);
    assert((y * width + x) * 3 + 3 <= 3 * width * height) by (nonlinear_arith)
        requires
            0 <= x < width,
            0 <= y < height,
    ;
}

} // verus!
