use vstd::prelude::*;
use crate::types::{ImageFormat, RgbImage, Screenshot, TerminalFrame};
use crate::halfblock::{HalfBlockConverter, cell_spec, cell_of};
use fast_image_resize as fr;
use std::num::NonZeroU32;

verus! {

/// Why a screenshot did not become a frame.
#[derive(Debug, Clone, Copy, PartialEq, Eq, Structural)]
pub enum RenderError {
    /// The bytes are not an image of the stated format.
    Decode,
    /// The image cannot be scaled to the requested size.
    Scale,
}

/// What the image decoder makes of `data`, read as PNG where `png` holds and
/// as JPEG otherwise: the RGB8 bytes with width and height, or nothing.
pub uninterp spec fn decoded_of(data: Seq<u8>, png: bool) -> Option<(Seq<u8>, u32, u32)>;

/// What Lanczos3 resampling makes of a width x height RGB8 image at
/// target_width x target_height.
pub uninterp spec fn lanczos3_of(
    data: Seq<u8>,
    width: u32,
    height: u32,
    target_width: u32,
    target_height: u32,
) -> Seq<u8>;

/// A decoder's output with its buffer as a sequence.
pub open spec fn decoded_view(r: Option<(Vec<u8>, u32, u32)>) -> Option<(Seq<u8>, u32, u32)> {
    match r {
        Some((d, w, h)) => Some((d@, w, h)),
        None => None,
    }
}

/// Relies on image's `load_from_memory_with_format` and
/// `DynamicImage::to_rgb8`: `Some` with the RGB8 buffer and its width and
/// height where the bytes decode, `None` where they do not; the outcome
/// depends on the bytes and the format alone. Nothing is assumed of the
/// buffer's length.
#[verifier::external_body]
fn decode_rgb8(data: &[u8], format: ImageFormat) -> (r: Option<(Vec<u8>, u32, u32)>)
    ensures
        decoded_view(r) == decoded_of(data@, format == ImageFormat::Png),
{
    let format = match format {
        ImageFormat::Jpeg => image::ImageFormat::Jpeg,
        ImageFormat::Png => image::ImageFormat::Png,
    };
    match image::load_from_memory_with_format(data, format) {
        Ok(img) => {
            let rgb = img.to_rgb8();
            let (width, height) = rgb.dimensions();
            Some((rgb.into_raw(), width, height))
        },
        Err(_) => None,
    }
}

/// Number of pixels of a width x height image.
fn pixel_count(width: u32, height: u32) -> (n: u64)
    ensures
        n == width * height,
{
    assert(width * height <= 0xFFFF_FFFFint * 0xFFFF_FFFFint) by (nonlinear_arith)
        requires
            width <= 0xFFFF_FFFFint,
            height <= 0xFFFF_FFFFint,
    ;
    (width as u64) * (height as u64)
}

/// Turns a decoder's output into an image: `Decode` where there was none or
/// where its length does not match its dimensions.
pub fn image_from_decoded(decoded: Option<(Vec<u8>, u32, u32)>) -> (r: Result<RgbImage, RenderError>)
    ensures
        decoded.is_none() ==> r == Err::<RgbImage, RenderError>(RenderError::Decode),
        decoded matches Some((d, w, h)) ==> {
            &&& d@.len() == 3 * (w as int) * (h as int) ==> (r matches Ok(img) && img.data@ == d@
                && img.width == w && img.height == h)
            &&& d@.len() != 3 * (w as int) * (h as int) ==> r == Err::<RgbImage, RenderError>(
                RenderError::Decode,
            )
        },
        r matches Ok(img) ==> img.wf(),
{
    match decoded {
        Some((data, width, height)) => {
            let n = pixel_count(width, height);
            let len = data.len();
            assert(3 * (width as int) * (height as int) == 3 * ((width as int) * (height as int)))
                by (nonlinear_arith);
            if n <= (usize::MAX / 3) as u64 && len == 3 * (n as usize) {
                Ok(RgbImage::new(data, width, height))
            } else {
                assert(len != 3 * n);
                Err(RenderError::Decode)
            }
        },
        None => Err(RenderError::Decode),
    }
}

/// The RGB8 bytes and size of a screenshot, where it decodes to a buffer
/// whose length matches its size.
pub open spec fn screenshot_pixels(s: Screenshot) -> Option<(Seq<u8>, u32, u32)> {
    match decoded_of(s.data@, s.format == ImageFormat::Png) {
        Some((d, w, h)) => if d.len() == 3 * (w as int) * (h as int) {
            Some((d, w, h))
        } else {
            None
        },
        None => None,
    }
}

/// Decodes a screenshot to RGB.
pub fn decode_screenshot(screenshot: &Screenshot) -> (r: Result<RgbImage, RenderError>)
    ensures
        r is Ok <==> screenshot_pixels(*screenshot) is Some,
        r matches Ok(img) ==> img.wf() && screenshot_pixels(*screenshot) == Some(
            (img.data@, img.width, img.height),
        ),
        r matches Err(e) ==> e == RenderError::Decode,
{
    image_from_decoded(decode_rgb8(screenshot.data.as_slice(), screenshot.format))
}

/// Relies on fast_image_resize 2.x: `Image::from_vec_u8` and `Image::new`
/// with `PixelType::U8x3` (never misaligned, and the source buffer holds
/// `3 * width * height` bytes), `Resizer::resize` between two U8x3 images
/// (never an error), and `into_vec`, which hands back the destination's
/// buffer of `3 * target_width * target_height` bytes. The pixels depend on
/// the source and the two sizes alone.
#[verifier::external_body]
fn resize_lanczos3(
    data: &Vec<u8>,
    width: u32,
    height: u32,
    target_width: u32,
    target_height: u32,
) -> (r: Vec<u8>)
    requires
        data@.len() == 3 * (width as int) * (height as int),
        0 < width,
        0 < height,
        0 < target_width,
        0 < target_height,
        width * height <= u32::MAX,
        target_width * target_height <= u32::MAX,
    ensures
        r@.len() == 3 * (target_width as int) * (target_height as int),
        r@ == lanczos3_of(data@, width, height, target_width, target_height),
{
    let (w, h) = (NonZeroU32::new(width).unwrap(), NonZeroU32::new(height).unwrap());
    let (tw, th) = (NonZeroU32::new(target_width).unwrap(), NonZeroU32::new(target_height).unwrap());
    let src = fr::Image::from_vec_u8(w, h, data.clone(), fr::PixelType::U8x3).unwrap();
    let mut dst = fr::Image::new(tw, th, fr::PixelType::U8x3);
    let mut resizer = fr::Resizer::new(fr::ResizeAlg::Convolution(fr::FilterType::Lanczos3));
    resizer.resize(&src.view(), &mut dst.view_mut()).unwrap();
    dst.into_vec()
}

/// A width x height image can be scaled to target_width x target_height:
/// the sizes agree, or all are positive and both pixel counts fit in 32 bits.
pub open spec fn scalable(width: u32, height: u32, target_width: u32, target_height: u32) -> bool {
    (width == target_width && height == target_height) || (0 < width && 0 < height && 0
        < target_width && 0 < target_height && width * height <= u32::MAX && target_width
        * target_height <= u32::MAX)
}

/// The bytes of an image scaled to target_width x target_height: the image
/// itself where the sizes agree, else its Lanczos3 resampling; nothing where
/// it cannot be scaled.
pub open spec fn scaled_pixels(
    data: Seq<u8>,
    width: u32,
    height: u32,
    target_width: u32,
    target_height: u32,
) -> Option<Seq<u8>> {
    if width == target_width && height == target_height {
        Some(data)
    } else if scalable(width, height, target_width, target_height) {
        Some(lanczos3_of(data, width, height, target_width, target_height))
    } else {
        None
    }
}

/// The bytes a screenshot becomes at term_width x (2 * term_height) pixels.
pub open spec fn render_source(s: Screenshot, term_width: int, term_height: int) -> Option<
    Seq<u8>,
> {
    match screenshot_pixels(s) {
        Some((d, w, h)) => scaled_pixels(d, w, h, term_width as u32, (2 * term_height) as u32),
        None => None,
    }
}

/// Scales an image to (target_width, target_height) with Lanczos3. An image
/// already of that size comes back as it is; `Scale` where either size is
/// zero or a pixel count does not fit in 32 bits.
pub fn scale_image(image: &RgbImage, target_width: u32, target_height: u32) -> (r: Result<
    RgbImage,
    RenderError,
>)
    requires
        image.wf(),
    ensures
        image.width == target_width && image.height == target_height ==> (r matches Ok(s)
            && s.data@ == image.data@),
        !(image.width == target_width && image.height == target_height) ==> (r is Ok <==> (0
            < image.width && 0 < image.height && 0 < target_width && 0 < target_height
            && image.width * image.height <= u32::MAX && target_width * target_height
            <= u32::MAX)),
        r is Err ==> r == Err::<RgbImage, RenderError>(RenderError::Scale),
        r matches Ok(s) ==> s.wf() && s.width == target_width && s.height == target_height,
        r matches Ok(s) ==> s.data@ == scaled_pixels(
            image.data@,
            image.width,
            image.height,
            target_width,
            target_height,
        ).unwrap(),
{
    if image.width == target_width && image.height == target_height {
        return Ok(RgbImage::new(image.data.clone(), image.width, image.height));
    }
    if image.width == 0 || image.height == 0 || target_width == 0 || target_height == 0 {
        return Err(RenderError::Scale);
    }
    let source_pixels = pixel_count(image.width, image.height);
    let target_pixels = pixel_count(target_width, target_height);
    if source_pixels > u32::MAX as u64 || target_pixels > u32::MAX as u64 {
        return Err(RenderError::Scale);
    }
    let data = resize_lanczos3(&image.data, image.width, image.height, target_width, target_height);
    Ok(RgbImage::new(data, target_width, target_height))
}

/// Screenshot to terminal frame: decode, scale to (cols, 2 * rows), convert.
pub struct RenderPipeline {
    converter: HalfBlockConverter,
}

impl RenderPipeline {
    /// The converter's table is built.
    pub closed spec fn wf(&self) -> bool {
        self.converter.wf()
    }

    pub fn new() -> (p: RenderPipeline)
        ensures
            p.wf(),
    {
        RenderPipeline { converter: HalfBlockConverter::new() }
    }

    /// Converts an image already scaled to (term_width, 2 * term_height).
    pub fn render_scaled(&self, scaled: &RgbImage, term_width: usize, term_height: usize) -> (frame:
        TerminalFrame)
        requires
            self.wf(),
            scaled.wf(),
            scaled.width == term_width,
            scaled.height == 2 * term_height,
        ensures
            frame.wf(),
            frame.width == term_width,
            frame.height == term_height,
            forall|x: int, y: int|
                0 <= x < term_width && 0 <= y < term_height ==> #[trigger] frame.cell(x, y)
                    == cell_spec(*scaled, x, y),
    {
        assert(term_width * term_height <= scaled.width * scaled.height) by (nonlinear_arith)
            requires
                scaled.width == term_width,
                scaled.height == 2 * term_height,
        ;
        let len = scaled.data.len();
        assert(scaled.width * scaled.height <= len) by (nonlinear_arith)
            requires
                len == 3 * (scaled.width as int) * (scaled.height as int),
        ;
        self.converter.convert(scaled, term_width, term_height)
    }

    /// Converts a screenshot into a frame of term_width x term_height cells:
    /// the half-block conversion of the screenshot scaled to
    /// (term_width, 2 * term_height). `Decode` where the screenshot does not
    /// decode, `Scale` where the size is zero or the image cannot be scaled.
    pub fn render(&self, screenshot: &Screenshot, term_width: usize, term_height: usize) -> (r:
        Result<TerminalFrame, RenderError>)
        requires
            self.wf(),
            term_width <= u32::MAX,
            2 * term_height <= u32::MAX,
        ensures
            term_width == 0 || term_height == 0 ==> r is Err,
            term_width > 0 && term_height > 0 ==> (r is Ok <==> render_source(
                *screenshot,
                term_width as int,
                term_height as int,
            ) is Some),
            screenshot_pixels(*screenshot) is None ==> r == Err::<TerminalFrame, RenderError>(
                RenderError::Decode,
            ),
            r matches Ok(frame) ==> frame.wf() && frame.width == term_width && frame.height
                == term_height && forall|x: int, y: int|
                0 <= x < term_width && 0 <= y < term_height ==> #[trigger] frame.cell(x, y)
                    == cell_of(
                    render_source(*screenshot, term_width as int, term_height as int).unwrap(),
                    term_width as int,
                    2 * term_height,
                    x,
                    y,
                ),
    {
        let image = match decode_screenshot(screenshot) {
            Ok(image) => image,
            Err(e) => return Err(e),
        };
        if term_width == 0 || term_height == 0 {
            return Err(RenderError::Scale);
        }
        let scaled = match scale_image(&image, term_width as u32, (term_height * 2) as u32) {
            Ok(scaled) => scaled,
            Err(e) => return Err(e),
        };
        Ok(self.render_scaled(&scaled, term_width, term_height))
    }
}

} // verus!
