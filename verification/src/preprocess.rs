//! From a captured image to the bytes of the encoder's input tensor.
//!
//! The image is stretched to the model's input size by nearest-neighbour
//! sampling, reduced to three colour channels and laid out channel first.
//! Scaling the bytes into the model's value range is left to the caller.

use crate::error::OcrError;
use vstd::prelude::*;

verus! {

/// Width of the encoder's input in pixels.
pub const INPUT_WIDTH: u32 = 224;

/// Height of the encoder's input in pixels.
pub const INPUT_HEIGHT: u32 = 224;

/// Colour channels of the encoder's input.
pub const INPUT_CHANNELS: usize = 3;

/// Bytes of one RGBA pixel.
pub const RGBA_CHANNELS: usize = 4;

/// `ndarray::ShapeError`, carried through as an opaque value.
#[verifier::external_type_specification]
#[verifier::external_body]
pub struct ExShapeError(ndarray::ShapeError);

/// The RGBA bytes of the image that `image::DynamicImage::resize_exact` makes
/// with the nearest-neighbour filter from an RGBA image of the given size and
/// bytes.
pub uninterp spec fn nearest_resized(
    width: u32,
    height: u32,
    data: Seq<u8>,
    nwidth: u32,
    nheight: u32,
) -> Seq<u8>;

/// The bytes of an RGBA image without its alpha channel: of every pixel the
/// first three of its four bytes.
pub open spec fn without_alpha(width: u32, height: u32, data: Seq<u8>) -> Seq<u8> {
    Seq::new(
        (INPUT_CHANNELS * width * height) as nat,
        |i: int| data[RGBA_CHANNELS * (i / 3) + i % 3],
    )
}

/// A buffer of `len` bytes holds an RGBA image of this size, and the bytes of
/// one row can be counted on this machine.
pub open spec fn rgba_fits(width: u32, height: u32, len: nat) -> bool {
    &&& RGBA_CHANNELS * width <= usize::MAX
    &&& RGBA_CHANNELS * width * height <= len
}

/// The buffers that resizing allocates on the way fit the address space.
pub open spec fn resize_in_reach(width: u32, nwidth: u32, nheight: u32) -> bool {
    &&& 16 * width * nheight <= isize::MAX
    &&& RGBA_CHANNELS * nwidth * nheight <= isize::MAX
}

/// Calls `DynamicImage::resize_exact` with `FilterType::Nearest` on the RGBA
/// image built by `ImageBuffer::from_raw`, and hands out the raw bytes of the
/// result: they are `nearest_resized` of the arguments, four for each pixel of
/// the new size.
#[verifier::external_body]
fn resize_nearest(width: u32, height: u32, data: &Vec<u8>, nwidth: u32, nheight: u32) -> (out: Vec<
    u8,
>)
    requires
        rgba_fits(width, height, data@.len()),
        resize_in_reach(width, nwidth, nheight),
    ensures
        out@ == nearest_resized(width, height, data@, nwidth, nheight),
        out@.len() == RGBA_CHANNELS * nwidth * nheight,
{
    let source = image::RgbaImage::from_raw(width, height, data.clone()).unwrap();
    image::DynamicImage::ImageRgba8(source)
        .resize_exact(nwidth, nheight, image::imageops::FilterType::Nearest)
        .into_rgba8()
        .into_raw()
}

/// Calls `DynamicImage::to_rgb8` on the RGBA image built by
/// `ImageBuffer::from_raw`, and hands out the raw bytes of the result: red,
/// green and blue of every pixel as they were, the alpha left out.
#[verifier::external_body]
fn rgba_to_rgb(width: u32, height: u32, data: &Vec<u8>) -> (out: Vec<u8>)
    requires
        rgba_fits(width, height, data@.len()),
    ensures
        out@ == without_alpha(width, height, data@),
{
    let source = image::RgbaImage::from_raw(width, height, data.clone()).unwrap();
    image::DynamicImage::ImageRgba8(source).to_rgb8().into_raw()
}

/// A dimension as it counts toward the size limit of a view: an empty
/// dimension counts as one.
pub open spec fn counted(d: usize) -> int {
    if d == 0 {
        1
    } else {
        d as int
    }
}

/// A buffer of `len` elements can be viewed as `height` rows of `width`
/// pixels of `channels` elements each.
pub open spec fn view_fits(height: usize, width: usize, channels: usize, len: nat) -> bool {
    &&& counted(height) * counted(width) * counted(channels) <= isize::MAX
    &&& height * width * channels <= len
}

/// The elements of a pixel-interleaved buffer, channel by channel: all of the
/// first channel row by row, then all of the second, and so on.
pub open spec fn channel_first(height: usize, width: usize, channels: usize, raw: Seq<u8>) -> Seq<
    u8,
> {
    Seq::new(
        (height * width * channels) as nat,
        |i: int| raw[(i % (height * width)) * channels + i / (height * width)],
    )
}

/// Views `raw` through `ndarray::ArrayView::from_shape` as one batch of
/// `height` by `width` pixels of `channels` elements, moves the channel axis
/// in front of the rows with `permuted_axes`, and copies the elements out in
/// the view's own order. The view is refused exactly where the buffer is too
/// short or the shape too large for the address space.
#[verifier::external_body]
fn to_channel_first(height: usize, width: usize, channels: usize, raw: &Vec<u8>) -> (out: Result<
    Vec<u8>,
    ndarray::ShapeError,
>)
    ensures
        out is Ok <==> view_fits(height, width, channels, raw@.len()),
        out matches Ok(v) ==> v@ == channel_first(height, width, channels, raw@),
{
    let view = ndarray::ArrayView::from_shape((1, height, width, channels), raw.as_slice())?;
    Ok(view.permuted_axes([0, 3, 1, 2]).iter().copied().collect())
}

/// An RGBA image, one byte per channel, rows from the top.
pub struct Image {
    width: u32,
    height: u32,
    data: Vec<u8>,
}

impl Image {
    #[verifier::type_invariant]
    closed spec fn well_formed(&self) -> bool {
        rgba_fits(self.width, self.height, self.data@.len())
    }

    /// Pixels per row.
    pub closed spec fn width(&self) -> u32 {
        self.width
    }

    /// Number of rows.
    pub closed spec fn height(&self) -> u32 {
        self.height
    }

    /// The bytes, four per pixel; bytes beyond the last pixel are carried but
    /// never read as pixels.
    pub closed spec fn data(&self) -> Seq<u8> {
        self.data@
    }

    /// The image can be resized to the encoder's input size on this machine.
    pub open spec fn resizable(&self) -> bool {
        resize_in_reach(self.width(), INPUT_WIDTH, INPUT_HEIGHT)
    }

    /// An image over `data`, unless `data` is too short for that many pixels
    /// or a row is too long for this machine.
    pub fn from_raw(width: u32, height: u32, data: Vec<u8>) -> (made: Option<Image>)
        ensures
            made is Some <==> rgba_fits(width, height, data@.len()),
            made matches Some(img) ==> img.width() == width && img.height() == height && img.data()
                == data@,
    {
        let len = data.len();
        let row = match RGBA_CHANNELS.checked_mul(width as usize) {
            Some(row) => row,
            None => {
                return None;
            },
        };
        match row.checked_mul(height as usize) {
            Some(needed) => {
                if needed <= len {
                    Some(Image { width, height, data })
                } else {
                    None
                }
            },
            None => None,
        }
    }

    /// Pixels per row and number of rows.
    pub fn dimensions(&self) -> (size: (u32, u32))
        ensures
            size.0 == self.width(),
            size.1 == self.height(),
    {
        (self.width, self.height)
    }

    /// The bytes the image was made over.
    pub fn as_raw(&self) -> (bytes: &Vec<u8>)
        ensures
            bytes@ == self.data(),
    {
        &self.data
    }

    /// Whether `resizable` holds.
    pub fn can_resize(&self) -> (ok: bool)
        ensures
            ok == self.resizable(),
    {
        let per_column: u64 = 16 * (INPUT_HEIGHT as u64);
        assert(per_column == 3584);
        let widest: u64 = per_column * (self.width as u64);
        assert(widest == 16 * self.width * INPUT_HEIGHT) by (nonlinear_arith)
            requires
                widest == 3584 * self.width,
                INPUT_HEIGHT == 224,
        ;
        let limit: u64 = isize::MAX as u64;
        widest <= limit
    }
}

/// The image of a clipboard capture: its sizes cut down to 32 bits, its bytes
/// taken as RGBA. `None` where the bytes are too few for that size.
pub fn to_dyn_image(width: usize, height: usize, bytes: Vec<u8>) -> (made: Option<Image>)
    ensures
        made is Some <==> rgba_fits(width as u32, height as u32, bytes@.len()),
        made matches Some(img) ==> img.width() == width as u32 && img.height() == height as u32
            && img.data() == bytes@,
{
    Image::from_raw(#[verifier::truncate] (width as u32), #[verifier::truncate] (height as u32), bytes)
}

/// An RGB image as decoded: its stated size and its raw bytes, which may not
/// agree.
pub struct RgbImage {
    pub width: u32,
    pub height: u32,
    pub data: Vec<u8>,
}

/// The bytes of an RGB image as a tensor of shape (1, 3, height, width).
/// Fails with `Shape` where the bytes cannot be viewed at the stated size.
pub fn rgb_to_array(img: &RgbImage) -> (tensor: Result<Vec<u8>, OcrError>)
    ensures
        tensor is Ok <==> view_fits(
            img.height as usize,
            img.width as usize,
            INPUT_CHANNELS,
            img.data@.len(),
        ),
        tensor matches Ok(t) ==> t@ == channel_first(
            img.height as usize,
            img.width as usize,
            INPUT_CHANNELS,
            img.data@,
        ),
        tensor matches Err(e) ==> e == OcrError::Shape,
{
    match to_channel_first(img.height as usize, img.width as usize, INPUT_CHANNELS, &img.data) {
        Ok(t) => Ok(t),
        Err(_) => Err(OcrError::Shape),
    }
}

/// The bytes of the encoder's input for an RGBA image of the given size and
/// bytes.
pub open spec fn preprocessed(width: u32, height: u32, data: Seq<u8>) -> Seq<u8> {
    channel_first(
        INPUT_HEIGHT as usize,
        INPUT_WIDTH as usize,
        INPUT_CHANNELS,
        without_alpha(
            INPUT_WIDTH,
            INPUT_HEIGHT,
            nearest_resized(width, height, data, INPUT_WIDTH, INPUT_HEIGHT),
        ),
    )
}

/// The encoder's input for `img` as bytes, in the layout (1, 3, 224, 224):
/// the image stretched to 224 by 224 without regard to its proportions, its
/// alpha dropped, channel first.
pub fn preprocess(img: &Image) -> (tensor: Result<Vec<u8>, OcrError>)
    requires
        img.resizable(),
    ensures
        tensor matches Ok(t) && t@ == preprocessed(img.width(), img.height(), img.data()) && t@.len()
            == INPUT_CHANNELS * INPUT_HEIGHT * INPUT_WIDTH,
{
    proof {
        use_type_invariant(img);
    }
    let resized = resize_nearest(img.width, img.height, &img.data, INPUT_WIDTH, INPUT_HEIGHT);
    let rgb = RgbImage {
        width: INPUT_WIDTH,
        height: INPUT_HEIGHT,
        data: rgba_to_rgb(INPUT_WIDTH, INPUT_HEIGHT, &resized),
    };
    rgb_to_array(&rgb)
}

/// Preprocessing depends on nothing but the image's size and bytes: two
/// images that agree in these give the same tensor.
pub proof fn lemma_preprocess_deterministic(a: Image, b: Image)
    requires
        a.width() == b.width(),
        a.height() == b.height(),
        a.data() == b.data(),
    ensures
        preprocessed(a.width(), a.height(), a.data()) == preprocessed(
            b.width(),
            b.height(),
            b.data(),
        ),
{
}

} // verus!
