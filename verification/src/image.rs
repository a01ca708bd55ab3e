//! The pixel side of a wallpaper: the destination layouts, the size of a
//! buffer, and the conversion of decoded RGB rows into a buffer.

use vstd::prelude::*;
use fast_image_resize::images::Image;
use fast_image_resize::{FilterType, PixelType, ResizeAlg, ResizeError, ResizeOptions, Resizer};

verus! {

/// The resizer of `fast_image_resize`, carried through unopened.
#[verifier::external_type_specification]
#[verifier::external_body]
pub struct ExResizer(Resizer);

/// The error of `fast_image_resize::Resizer::resize`, carried through
/// unopened.
#[verifier::external_type_specification]
#[verifier::external_body]
pub struct ExResizeError(ResizeError);

/// A pixel format as the display server advertises it.
#[derive(Clone, Copy, Debug, PartialEq, Eq, Structural)]
pub enum ShmFormat {
    Xrgb8888,
    Bgr888,
    /// Any format this library builds no buffers in.
    Other,
}

/// The layout of the buffers this library fills.
#[derive(Clone, Copy, Debug, PartialEq, Eq, Structural)]
pub enum PixelLayout {
    /// Four bytes per pixel: blue, green, red, and one byte of padding.
    /// Every display server supports it.
    Xrgb8888,
    /// Three bytes per pixel, each row padded to a multiple of four bytes.
    Bgr888,
}

/// Position, pitch and size of one image in shared memory.
#[derive(Clone, Copy, Debug, PartialEq, Eq, Structural)]
pub struct BufferLayout {
    /// Bytes from the start of one row to the start of the next.
    pub stride: usize,
    /// Bytes of the whole buffer: `stride` times the height.
    pub size: usize,
}

/// Whether `formats` holds [`ShmFormat::Bgr888`].
pub open spec fn advertises_bgr888(formats: Seq<ShmFormat>) -> bool {
    exists|i: int| 0 <= i < formats.len() && formats[i] == ShmFormat::Bgr888
}

/// The packed layout where the display server advertises it and the
/// four-byte layout is not forced; the four-byte layout otherwise.
pub open spec fn preferred_layout(force_xrgb8888: bool, formats: Seq<ShmFormat>) -> PixelLayout {
    if !force_xrgb8888 && advertises_bgr888(formats) {
        PixelLayout::Bgr888
    } else {
        PixelLayout::Xrgb8888
    }
}

/// The bytes of one row of `width` pixels: four per pixel, or three per
/// pixel rounded up to the next multiple of four.
pub open spec fn stride_of(layout: PixelLayout, width: int) -> int {
    match layout {
        PixelLayout::Xrgb8888 => width * 4,
        PixelLayout::Bgr888 => ((width * 3 + 3) / 4) * 4,
    }
}

/// The bytes of a buffer of `width` by `height` pixels.
pub open spec fn buffer_size_of(layout: PixelLayout, width: int, height: int) -> int {
    stride_of(layout, width) * height
}

/// Chooses the layout for all buffers: see [`preferred_layout`].
pub fn select_pixel_layout(force_xrgb8888: bool, formats: &Vec<ShmFormat>) -> (layout: PixelLayout)
    ensures
        layout == preferred_layout(force_xrgb8888, formats@),
{
    if !force_xrgb8888 {
        let mut index: usize = 0;
        while index < formats.len()
            invariant
                !force_xrgb8888,
                index <= formats.len(),
                forall|i: int| 0 <= i < index ==> formats@[i] != ShmFormat::Bgr888,
            decreases formats.len() - index,
        {
            if formats[index] == ShmFormat::Bgr888 {
                assert(formats@[index as int] == ShmFormat::Bgr888);
                return PixelLayout::Bgr888;
            }
            index += 1;
        }
    }
    PixelLayout::Xrgb8888
}

impl BufferLayout {
    /// The layout of a buffer of `width` by `height` pixels, where the
    /// measures are positive, the stride fits the display protocol's signed
    /// 32-bit field and the size fits this machine's addresses.
    pub fn new(layout: PixelLayout, width: i32, height: i32) -> (buffer: Option<BufferLayout>)
        ensures
            buffer is Some <==> width > 0 && height > 0 && stride_of(layout, width as int)
                <= i32::MAX && buffer_size_of(layout, width as int, height as int) <= usize::MAX,
            buffer matches Some(b) ==> b.stride == stride_of(layout, width as int) && b.size
                == buffer_size_of(layout, width as int, height as int),
    {
        if width <= 0 || height <= 0 {
            return None;
        }
        let wide: u64 = width as u64;
        let stride: u64 = match layout {
            PixelLayout::Xrgb8888 => wide * 4,
            PixelLayout::Bgr888 => ((wide * 3 + 3) / 4) * 4,
        };
        if stride > i32::MAX as u64 {
            return None;
        }
        assert(stride * height <= 0x7fff_ffff * 0x7fff_ffff) by (nonlinear_arith)
            requires
                0 <= stride <= 0x7fff_ffff,
                0 < height <= 0x7fff_ffff,
        ;
        let size: u64 = stride * (height as u64);
        if size > usize::MAX as u64 {
            return None;
        }
        Some(BufferLayout { stride: stride as usize, size: size as usize })
    }
}

/// `dst` with row `row` of `src` copied in: `src_stride` bytes from
/// `row * src_stride` on go to `row * dst_stride` on.
pub open spec fn row_copied(
    src: Seq<u8>,
    dst: Seq<u8>,
    src_stride: int,
    dst_stride: int,
    row: int,
) -> Seq<u8> {
    Seq::new(
        dst.len(),
        |i: int|
            if row * dst_stride <= i < row * dst_stride + src_stride {
                src[row * src_stride + (i - row * dst_stride)]
            } else {
                dst[i]
            },
    )
}

/// `dst` with the first `rows` rows of `src` copied in, one after the other.
pub open spec fn rows_copied(
    src: Seq<u8>,
    dst: Seq<u8>,
    src_stride: int,
    dst_stride: int,
    rows: int,
) -> Seq<u8>
    decreases rows,
{
    if rows <= 0 {
        dst
    } else {
        row_copied(
            src,
            rows_copied(src, dst, src_stride, dst_stride, rows - 1),
            src_stride,
            dst_stride,
            rows - 1,
        )
    }
}

/// Whether `height` rows of `src_stride` bytes lie in a source of `src_len`
/// bytes, and their places lie in a destination of `dst_len` bytes.
pub open spec fn rows_fit(
    src_len: int,
    dst_len: int,
    src_stride: int,
    dst_stride: int,
    height: int,
) -> bool {
    height == 0 || (height * src_stride <= src_len && (height - 1) * dst_stride + src_stride
        <= dst_len)
}

/// Copying rows keeps the length of the destination.
pub proof fn lemma_rows_copied_len(
    src: Seq<u8>,
    dst: Seq<u8>,
    src_stride: int,
    dst_stride: int,
    rows: int,
)
    ensures
        rows_copied(src, dst, src_stride, dst_stride, rows).len() == dst.len(),
    decreases rows,
{
    if rows > 0 {
        lemma_rows_copied_len(src, dst, src_stride, dst_stride, rows - 1);
    }
}

/// Where the rows do not overlap in the destination, byte `column` of row
/// `row` of the source stands at `row * dst_stride + column`, and the bytes
/// between the rows are what they were.
pub proof fn lemma_rows_copied_at(
    src: Seq<u8>,
    dst: Seq<u8>,
    src_stride: int,
    dst_stride: int,
    rows: int,
    i: int,
)
    requires
        0 <= src_stride <= dst_stride,
        0 < dst_stride,
        0 <= rows,
        0 <= i < dst.len(),
    ensures
        rows_copied(src, dst, src_stride, dst_stride, rows)[i] == if i / dst_stride < rows && i
            % dst_stride < src_stride {
            src[(i / dst_stride) * src_stride + i % dst_stride]
        } else {
            dst[i]
        },
    decreases rows,
{
    if rows > 0 {
        lemma_rows_copied_len(src, dst, src_stride, dst_stride, rows - 1);
        lemma_rows_copied_at(src, dst, src_stride, dst_stride, rows - 1, i);
        let row = rows - 1;
        vstd::arithmetic::div_mod::lemma_fundamental_div_mod(i, dst_stride);
        if row * dst_stride <= i < row * dst_stride + src_stride {
            vstd::arithmetic::div_mod::lemma_fundamental_div_mod_converse(
                i,
                dst_stride,
                row,
                i - row * dst_stride,
            );
        } else if i / dst_stride == row {
            assert(dst_stride * (i / dst_stride) == row * dst_stride) by (nonlinear_arith)
                requires
                    i / dst_stride == row,
            ;
        } else {
        }
    }
}

/// Copies `height` rows of `src_stride` bytes from `src`, where they follow
/// each other, into `dst`, where each starts `dst_stride` bytes after the
/// one before.
pub fn copy_pad_stride(
    src: &[u8],
    dst: &mut [u8],
    src_stride: usize,
    dst_stride: usize,
    height: usize,
)
    requires
        rows_fit(
            src@.len() as int,
            old(dst)@.len() as int,
            src_stride as int,
            dst_stride as int,
            height as int,
        ),
    ensures
        final(dst)@ == rows_copied(
            src@,
            old(dst)@,
            src_stride as int,
            dst_stride as int,
            height as int,
        ),
{
    let ghost before = dst@;
    let src_len: usize = src.len();
    let dst_len: usize = dst.len();
    let mut row: usize = 0;
    while row < height
        invariant
            row <= height,
            src@.len() == src_len,
            before.len() == dst_len,
            dst@.len() == before.len(),
            rows_fit(
                src@.len() as int,
                before.len() as int,
                src_stride as int,
                dst_stride as int,
                height as int,
            ),
            dst@ == rows_copied(src@, before, src_stride as int, dst_stride as int, row as int),
        decreases height - row,
    {
        assert(row * src_stride + src_stride <= height * src_stride && row * dst_stride <= (height
            - 1) * dst_stride) by (nonlinear_arith)
            requires
                row < height,
                src_stride >= 0,
                dst_stride >= 0,
        ;
        let src_at: usize = row * src_stride;
        let dst_at: usize = row * dst_stride;
        let ghost rows_before = dst@;
        let mut column: usize = 0;
        while column < src_stride
            invariant
                column <= src_stride,
                src@.len() == src_len,
                before.len() == dst_len,
                dst@.len() == before.len(),
                rows_before.len() == before.len(),
                src_at == row * src_stride,
                dst_at == row * dst_stride,
                src_at + src_stride <= src@.len(),
                dst_at + src_stride <= before.len(),
                forall|i: int|
                    0 <= i < dst@.len() ==> dst@[i] == if dst_at <= i < dst_at + column {
                        src@[src_at + (i - dst_at)]
                    } else {
                        rows_before[i]
                    },
            decreases src_stride - column,
        {
            dst[dst_at + column] = src[src_at + column];
            column += 1;
        }
        proof {
            assert(dst@ =~= row_copied(
                src@,
                rows_before,
                src_stride as int,
                dst_stride as int,
                row as int,
            ));
        }
        row += 1;
    }
}

/// The four-byte pixels of `src`, three-byte pixels of red, green and blue:
/// blue, green, red, and a byte of 255.
pub open spec fn swizzled(src: Seq<u8>) -> Seq<u8> {
    Seq::new(
        ((src.len() / 3) * 4) as nat,
        |i: int|
            if i % 4 == 3 {
                255u8
            } else {
                src[(i / 4) * 3 + (2 - i % 4)]
            },
    )
}

/// `dst` with its first `pixel_count` four-byte pixels taken from `src`.
pub open spec fn swizzled_prefix(src: Seq<u8>, dst: Seq<u8>, pixel_count: int) -> Seq<u8> {
    Seq::new(
        dst.len(),
        |i: int|
            if i < 4 * pixel_count {
                if i % 4 == 3 {
                    255u8
                } else {
                    src[(i / 4) * 3 + (2 - i % 4)]
                }
            } else {
                dst[i]
            },
    )
}

/// Writes the first `pixel_count` pixels of `src` to `dst` as blue, green,
/// red and a byte of 255; the rest of `dst` stays.
pub fn bgra_from_rgb(src: &[u8], dst: &mut [u8], pixel_count: usize)
    requires
        3 * pixel_count <= src@.len(),
        4 * pixel_count <= old(dst)@.len(),
    ensures
        final(dst)@ == swizzled_prefix(src@, old(dst)@, pixel_count as int),
{
    let ghost before = dst@;
    let src_len: usize = src.len();
    let dst_len: usize = dst.len();
    let mut pixel: usize = 0;
    while pixel < pixel_count
        invariant
            pixel <= pixel_count,
            src@.len() == src_len,
            before.len() == dst_len,
            3 * pixel_count <= src@.len(),
            4 * pixel_count <= before.len(),
            dst@.len() == before.len(),
            dst@ == swizzled_prefix(src@, before, pixel as int),
        decreases pixel_count - pixel,
    {
        let ghost pixels_before = dst@;
        let from: usize = pixel * 3;
        let to: usize = pixel * 4;
        dst[to] = src[from + 2];
        dst[to + 1] = src[from + 1];
        dst[to + 2] = src[from];
        dst[to + 3] = 255u8;
        proof {
            assert(dst@ =~= swizzled_prefix(src@, before, pixel + 1));
        }
        pixel += 1;
    }
}

/// Fills `dst` with the pixels of `src` as blue, green, red and a byte of
/// 255.
pub fn swizzle_bgra_from_rgb(src: &[u8], dst: &mut [u8])
    requires
        old(dst)@.len() % 4 == 0,
        src@.len() == (old(dst)@.len() / 4) * 3,
    ensures
        final(dst)@ == swizzled(src@),
{
    let pixel_count = dst.len() / 4;
    bgra_from_rgb(src, dst, pixel_count);
    proof {
        assert(dst@ =~= swizzled(src@));
    }
}

/// What a decoder says of an image before it decodes it.
#[derive(Clone, Copy, Debug, PartialEq, Eq, Structural)]
pub struct ImageHeader {
    pub width: u32,
    pub height: u32,
    /// The bytes of the decoded image.
    pub total_bytes: u64,
    /// Whether the image decodes to three bytes per pixel: red, green, blue.
    pub is_rgb8: bool,
}

/// The buffer that an image is loaded into.
#[derive(Clone, Copy, Debug, PartialEq, Eq, Structural)]
pub struct Surface {
    pub width: u32,
    pub height: u32,
    pub stride: usize,
    pub layout: PixelLayout,
}

/// Why an image did not reach its buffer.
#[derive(Clone, Copy, Debug, PartialEq, Eq, Structural)]
pub enum LoadError {
    /// The image is empty, or too large for this machine.
    InvalidDimensions,
    /// The decoded pixels are not three bytes for each pixel of the image.
    SourceSize,
    /// The buffer is empty or is not the buffer of the surface.
    DestinationSize,
    /// The resizer refused the image.
    Resize,
}

/// How an image is brought into its buffer.
#[derive(Clone, Copy, Debug, PartialEq, Eq, Structural)]
pub enum LoadPlan {
    /// The decoder writes into the first bytes of the buffer, this many.
    DecodeInto(usize),
    /// The image is decoded apart, adjusted, resized where `resize` says
    /// so, and then written by [`write_pixels`].
    Convert { resize: bool },
}

impl Surface {
    /// Whether a buffer of `len` bytes is the buffer of this surface: rows
    /// of `stride` bytes, each wide enough for its pixels, and in the
    /// four-byte layout no wider.
    pub open spec fn accepts(self, len: int) -> bool {
        match self.layout {
            PixelLayout::Bgr888 => self.width * 3 <= self.stride && len == self.stride
                * self.height,
            PixelLayout::Xrgb8888 => self.width * 4 == self.stride && len == self.stride
                * self.height,
        }
    }

    /// The buffer `before` after `rgb`, the pixels of an image of the
    /// surface's size, was written to it.
    pub open spec fn converted(self, rgb: Seq<u8>, before: Seq<u8>) -> Seq<u8> {
        match self.layout {
            PixelLayout::Bgr888 => rows_copied(
                rgb,
                before,
                self.width * 3,
                self.stride as int,
                self.height as int,
            ),
            PixelLayout::Xrgb8888 => swizzled(rgb),
        }
    }

    /// Whether a buffer of `len` bytes is the buffer of this surface.
    pub fn fits(&self, len: usize) -> (fits: bool)
        ensures
            fits == self.accepts(len as int),
    {
        assert(self.stride * self.height <= 0xffff_ffff_ffff_ffff * 0xffff_ffff)
            by (nonlinear_arith)
            requires
                0 <= self.stride <= 0xffff_ffff_ffff_ffff,
                0 <= self.height <= 0xffff_ffff,
        ;
        let size: u128 = (self.stride as u128) * (self.height as u128);
        let row: u128 = match self.layout {
            PixelLayout::Bgr888 => (self.width as u128) * 3,
            PixelLayout::Xrgb8888 => (self.width as u128) * 4,
        };
        let wide_enough = match self.layout {
            PixelLayout::Bgr888 => row <= self.stride as u128,
            PixelLayout::Xrgb8888 => row == self.stride as u128,
        };
        wide_enough && len as u128 == size
    }
}

/// The plan for an image: see [`plan_load`].
pub open spec fn plan_of(header: ImageHeader, surface: Surface, adjust_colors: bool) -> Result<
    LoadPlan,
    LoadError,
> {
    if header.width == 0 || header.height == 0 || header.total_bytes > isize::MAX {
        Err(LoadError::InvalidDimensions)
    } else if header.width == surface.width && header.height == surface.height && header.is_rgb8
        && surface.layout == PixelLayout::Bgr888 && !adjust_colors && surface.width * 3
        == surface.stride {
        Ok(LoadPlan::DecodeInto(header.total_bytes as usize))
    } else {
        Ok(
            LoadPlan::Convert {
                resize: header.width != surface.width || header.height != surface.height,
            },
        )
    }
}

/// Decides how an image reaches its buffer. An image without pixels, or of
/// more bytes than this machine can address, is refused. An image of the
/// surface's size that decodes to red, green and blue bytes is decoded
/// straight into a packed buffer without padding, where no colour
/// adjustment is asked for. Every other image is converted, and resized
/// where its size is not the surface's.
pub fn plan_load(header: &ImageHeader, surface: &Surface, adjust_colors: bool) -> (plan: Result<
    LoadPlan,
    LoadError,
>)
    ensures
        plan == plan_of(*header, *surface, adjust_colors),
{
    if header.width == 0 || header.height == 0 || header.total_bytes > isize::MAX as u64 {
        return Err(LoadError::InvalidDimensions);
    }
    let needs_resize = header.width != surface.width || header.height != surface.height;
    let packed = match surface.layout {
        PixelLayout::Bgr888 => true,
        PixelLayout::Xrgb8888 => false,
    };
    if !needs_resize && header.is_rgb8 && packed && !adjust_colors && (surface.width as u64) * 3
        == surface.stride as u64 {
        Ok(LoadPlan::DecodeInto(header.total_bytes as usize))
    } else {
        Ok(LoadPlan::Convert { resize: needs_resize })
    }
}

/// Calls `Resizer::resize` of `fast_image_resize` on an image of
/// three-byte pixels, with the source cropped about its centre to the
/// destination's proportions and the Lanczos3 convolution. The contract
/// claims only the length of what comes back: three bytes for each pixel
/// of the destination, as `Image::new` allocates them. Which bytes they
/// are is not stated: the crate picks its arithmetic by the processor.
#[verifier::external_body]
fn resize_rgb(
    resizer: &mut Resizer,
    src: Vec<u8>,
    src_width: u32,
    src_height: u32,
    dst_width: u32,
    dst_height: u32,
) -> (resized: Result<Vec<u8>, ResizeError>)
    requires
        src_width > 0,
        src_height > 0,
        dst_width > 0,
        dst_height > 0,
        src@.len() == src_width * src_height * 3,
        dst_width * dst_height * 3 <= usize::MAX,
    ensures
        resized matches Ok(pixels) ==> pixels@.len() == dst_width * dst_height * 3,
{
    let src_image = Image::from_vec_u8(src_width, src_height, src, PixelType::U8x3).unwrap();
    let mut dst_image = Image::new(dst_width, dst_height, PixelType::U8x3);
    let options = ResizeOptions::new().fit_into_destination(None).resize_alg(
        ResizeAlg::Convolution(FilterType::Lanczos3),
    );
    resizer.resize(&src_image, &mut dst_image, &options)?;
    Ok(dst_image.into_vec())
}

/// Whether `len` is three bytes for each pixel of `width` by `height`.
fn is_rgb_len(len: usize, width: u32, height: u32) -> (is: bool)
    ensures
        is == (len == width * height * 3),
{
    assert(width * height <= 0xffff_ffff * 0xffff_ffff) by (nonlinear_arith)
        requires
            0 <= width <= 0xffff_ffff,
            0 <= height <= 0xffff_ffff,
    ;
    len as u128 == (width as u128) * (height as u128) * 3
}

/// Writes `rgb`, the red, green and blue bytes of an image of the
/// surface's size, into the surface's buffer `dst`: row by row into a
/// packed buffer, pixel by pixel with blue first into a four-byte buffer.
/// Where a length is not what the surface asks for, nothing is written.
pub fn convert_rows(rgb: &[u8], dst: &mut [u8], surface: &Surface) -> (done: Result<(), LoadError>)
    ensures
        done is Ok <==> rgb@.len() == surface.width * surface.height * 3 && surface.accepts(
            old(dst)@.len() as int,
        ),
        rgb@.len() != surface.width * surface.height * 3 <==> done == Err::<(), LoadError>(
            LoadError::SourceSize,
        ),
        rgb@.len() == surface.width * surface.height * 3 && !surface.accepts(
            old(dst)@.len() as int,
        ) <==> done == Err::<(), LoadError>(LoadError::DestinationSize),
        done is Ok ==> final(dst)@ == surface.converted(rgb@, old(dst)@),
        done is Err ==> final(dst)@ == old(dst)@,
{
    if !is_rgb_len(rgb.len(), surface.width, surface.height) {
        return Err(LoadError::SourceSize);
    }
    if !surface.fits(dst.len()) {
        return Err(LoadError::DestinationSize);
    }
    match surface.layout {
        PixelLayout::Bgr888 => {
            let row_len: usize = (surface.width as usize) * 3;
            proof {
                let w = surface.width as int;
                let h = surface.height as int;
                let stride = surface.stride as int;
                assert(h > 0 ==> (h - 1) * stride + w * 3 <= stride * h && h * (w * 3) == w * h
                    * 3) by (nonlinear_arith)
                    requires
                        w * 3 <= stride,
                        0 <= h,
                        0 <= w,
                ;
            }
            copy_pad_stride(rgb, dst, row_len, surface.stride, surface.height as usize);
        },
        PixelLayout::Xrgb8888 => {
            proof {
                let w = surface.width as int;
                let h = surface.height as int;
                assert(w * 4 * h == 4 * (w * h)) by (nonlinear_arith);
                assert((4 * (w * h)) % 4 == 0 && (4 * (w * h)) / 4 == w * h);
            }
            swizzle_bgra_from_rgb(rgb, dst);
        },
    }
    Ok(())
}

/// Brings the decoded pixels `rgb` of an image of `image_width` by
/// `image_height` into the buffer `dst` of `surface`: resized to the
/// surface's size where the image has another, then written as
/// [`convert_rows`] writes.
///
/// The lengths are checked first, so that a refusal leaves the buffer as it
/// was. Of a resized image the contract says what the buffer holds in terms
/// of the resized pixels, whatever they are.
pub fn write_pixels(
    rgb: Vec<u8>,
    image_width: u32,
    image_height: u32,
    dst: &mut [u8],
    surface: &Surface,
    resizer: &mut Resizer,
) -> (done: Result<(), LoadError>)
    ensures
        image_width == 0 || image_height == 0 <==> done == Err::<(), LoadError>(
            LoadError::InvalidDimensions,
        ),
        image_width != 0 && image_height != 0 && rgb@.len() != image_width * image_height * 3
            <==> done == Err::<(), LoadError>(LoadError::SourceSize),
        image_width != 0 && image_height != 0 && rgb@.len() == image_width * image_height * 3 && (
        surface.width == 0 || surface.height == 0 || !surface.accepts(old(dst)@.len() as int))
            <==> done == Err::<(), LoadError>(LoadError::DestinationSize),
        done == Err::<(), LoadError>(LoadError::Resize) ==> image_width != surface.width
            || image_height != surface.height,
        image_width == surface.width && image_height == surface.height ==> (done is Ok
            <==> image_width != 0 && image_height != 0 && rgb@.len() == image_width * image_height
            * 3 && surface.accepts(old(dst)@.len() as int)),
        done is Err ==> final(dst)@ == old(dst)@,
        done is Ok && image_width == surface.width && image_height == surface.height
            ==> final(dst)@ == surface.converted(rgb@, old(dst)@),
        done is Ok ==> exists|pixels: Seq<u8>|
            pixels.len() == surface.width * surface.height * 3 && final(dst)@
                == #[trigger] surface.converted(pixels, old(dst)@),
{
    if image_width == 0 || image_height == 0 {
        return Err(LoadError::InvalidDimensions);
    }
    if !is_rgb_len(rgb.len(), image_width, image_height) {
        return Err(LoadError::SourceSize);
    }
    if surface.width == 0 || surface.height == 0 || !surface.fits(dst.len()) {
        return Err(LoadError::DestinationSize);
    }
    let pixels = if image_width != surface.width || image_height != surface.height {
        proof {
            let w = surface.width as int;
            let h = surface.height as int;
            let stride = surface.stride as int;
            assert(w * h * 3 <= stride * h) by (nonlinear_arith)
                requires
                    w * 3 <= stride,
                    0 <= h,
                    0 <= w,
            ;
        }
        match resize_rgb(
            resizer,
            rgb,
            image_width,
            image_height,
            surface.width,
            surface.height,
        ) {
            Ok(pixels) => pixels,
            Err(_) => {
                return Err(LoadError::Resize);
            },
        }
    } else {
        rgb
    };
    let done = convert_rows(pixels.as_slice(), dst, surface);
    proof {
        assert(dst@ == surface.converted(pixels@, old(dst)@));
    }
    done
}

} // verus!
