//! The work on one picture: which files are taken, the size a picture is
//! scaled to, and the logo laid over it.

use vstd::prelude::*;
use vstd::string::StrSliceExecFns;

use fast_image_resize::images::Image as ResizeImage;
use fast_image_resize::{FilterType, PixelType, ResizeAlg, ResizeOptions, Resizer};
use image::imageops::overlay;
use image::{ImageBuffer, Rgba};

use crate::options::Settings;
use crate::resolution::{lemma_scaled_side_unique, scaled_side, spells, spells_word, Resolution};

verus! {

/// The largest number of bytes a buffer can hold.
pub const BUFFER_MAX: u64 = 0x7fff_ffff_ffff_ffff;

/// Whether a file extension names a JPEG file: `jpg` or `jpeg`, in any ASCII
/// case.
pub fn is_jpeg_extension(ext: &str) -> (r: bool)
    ensures
        r == (spells(ext@, seq!['j', 'p', 'g']) || spells(ext@, seq!['j', 'p', 'e', 'g'])),
{
    spells_word(ext, &vec!['j', 'p', 'g']) || spells_word(ext, &vec!['j', 'p', 'e', 'g'])
}

/// Bounds the byte count of a picture.
proof fn lemma_byte_count_fits(width: u32, height: u32)
    ensures
        4 * (width as int) * (height as int) < 0x4_0000_0000_0000_0000,
{
    assert(4 * (width as int) * (height as int) < 0x4_0000_0000_0000_0000) by (nonlinear_arith)
        requires
            width <= 0xffff_ffff,
            height <= 0xffff_ffff,
    ;
}

/// A picture of RGBA pixels, four bytes each, row by row.
pub struct Picture {
    width: u32,
    height: u32,
    pixels: Vec<u8>,
}

impl View for Picture {
    /// Width, height and bytes.
    type V = (u32, u32, Seq<u8>);

    closed spec fn view(&self) -> (u32, u32, Seq<u8>) {
        (self.width, self.height, self.pixels@)
    }
}

impl Picture {
    #[verifier::type_invariant]
    spec fn sized(&self) -> bool {
        self.pixels.len() == 4 * self.width * self.height
    }

    /// A picture over `pixels`, if it holds exactly `width * height` pixels.
    pub fn from_raw(width: u32, height: u32, pixels: Vec<u8>) -> (r: Option<Picture>)
        ensures
            r is Some <==> pixels.len() == 4 * width * height,
            r matches Some(p) ==> p@ == (width, height, pixels@),
    {
        proof {
            lemma_byte_count_fits(width, height);
        }
        let count: u128 = 4 * (width as u128) * (height as u128);
        if pixels.len() as u128 == count {
            Some(Picture { width, height, pixels })
        } else {
            None
        }
    }

    pub fn width(&self) -> (r: u32)
        ensures
            r == self@.0,
    {
        self.width
    }

    pub fn height(&self) -> (r: u32)
        ensures
            r == self@.1,
    {
        self.height
    }

    /// The bytes of the picture.
    pub fn into_raw(self) -> (r: Vec<u8>)
        ensures
            r@ == self@.2,
            r.len() == 4 * self@.0 * self@.1,
    {
        proof {
            use_type_invariant(&self);
        }
        self.pixels
    }
}

/// Relies on fast_image_resize: `Image::from_vec_u8` takes a buffer of
/// exactly `4 * width * height` bytes as U8x4 pixels, and `Resizer::resize`
/// (here with a Lanczos3 convolution) succeeds between two U8x4 images,
/// writing into the destination that `Image::new` made of the target size.
#[verifier::external_body]
fn resize_rgba(pixels: Vec<u8>, width: u32, height: u32, to_width: u32, to_height: u32) -> (r:
    Vec<u8>)
    requires
        pixels.len() == 4 * width * height,
        width > 0,
        height > 0,
        to_width > 0,
        to_height > 0,
        4 * to_width * to_height <= BUFFER_MAX,
    ensures
        r.len() == 4 * to_width * to_height,
{
    let src = ResizeImage::from_vec_u8(width, height, pixels, PixelType::U8x4).unwrap();
    let mut dst = ResizeImage::new(to_width, to_height, PixelType::U8x4);
    let options = ResizeOptions::new().resize_alg(ResizeAlg::Convolution(FilterType::Lanczos3));
    Resizer::new().resize(&src, &mut dst, &options).unwrap();
    dst.into_vec()
}

/// The bytes of a `width` x `height` RGBA background after a
/// `logo_width` x `logo_height` RGBA logo is blended onto it with its top
/// left corner at `(x, y)`.
pub uninterp spec fn overlaid(
    background: Seq<u8>,
    width: u32,
    height: u32,
    logo: Seq<u8>,
    logo_width: u32,
    logo_height: u32,
    x: i64,
    y: i64,
) -> Seq<u8>;

/// Relies on image's `imageops::overlay`: it blends the logo onto the
/// background in place, clips what falls outside, and leaves the
/// background's size as it was; the result depends on its arguments alone.
#[verifier::external_body]
fn overlay_rgba(
    background: Vec<u8>,
    width: u32,
    height: u32,
    logo: &Vec<u8>,
    logo_width: u32,
    logo_height: u32,
    x: i64,
    y: i64,
) -> (r: Vec<u8>)
    requires
        background.len() == 4 * width * height,
        logo.len() == 4 * logo_width * logo_height,
    ensures
        r@ == overlaid(background@, width, height, logo@, logo_width, logo_height, x, y),
        r.len() == background.len(),
{
    let mut bottom = ImageBuffer::<Rgba<u8>, Vec<u8>>::from_raw(width, height, background).unwrap();
    let top = ImageBuffer::<Rgba<u8>, &[u8]>::from_raw(logo_width, logo_height, logo.as_slice()).unwrap();
    overlay(&mut bottom, &top, x, y);
    bottom.into_raw()
}

/// Why a picture could not be rendered.
#[derive(Debug, PartialEq, Eq)]
pub enum ProcessError {
    /// The picture has no pixels.
    EmptyPicture,
    /// The scaled picture would not fit in memory.
    TooLarge,
}

/// The side that `scaled_side` describes; there is exactly one.
pub open spec fn side_for(area: int, side: int, other: int) -> int {
    choose|out: int| scaled_side(out, area, side, other)
}

/// Scales `photo` to the settings' resolution and lays `logo` over it at the
/// settings' position. The scaled bytes come from the resizer; the logo is
/// then blended over them, clipped to the picture.
pub fn render(settings: &Settings, photo: Picture, logo: &Picture) -> (r: Result<
    Picture,
    ProcessError,
>)
    ensures
        (photo@.0 == 0 || photo@.1 == 0) <==> r matches Err(ProcessError::EmptyPicture),
        ({
            let area = settings@.resolution.0 * settings@.resolution.1;
            let w = side_for(area, photo@.0 as int, photo@.1 as int);
            let h = side_for(area, photo@.1 as int, photo@.0 as int);
            let at = settings@.logo_position.place_spec(w, h, logo@.0 as int, logo@.1 as int);
            &&& photo@.0 > 0 && photo@.1 > 0 ==> (r matches Err(ProcessError::TooLarge) <==> 4 * w
                * h > BUFFER_MAX)
            &&& photo@.0 > 0 && photo@.1 > 0 && 4 * w * h <= BUFFER_MAX ==> r is Ok
            &&& r matches Ok(p) ==> {
                &&& p@.0 == w
                &&& p@.1 == h
                &&& exists|scaled: Seq<u8>|
                    scaled.len() == 4 * w * h && p@.2 == overlaid(
                        scaled,
                        w as u32,
                        h as u32,
                        logo@.2,
                        logo@.0,
                        logo@.1,
                        at.0 as i64,
                        at.1 as i64,
                    )
            }
        }),
{
    proof {
        use_type_invariant(&photo);
        use_type_invariant(logo);
    }
    let resolution = settings.resolution();
    let width = photo.width;
    let height = photo.height;
    let (to_width, to_height) = match resolution.scaled_size(width, height) {
        None => {
            return Err(ProcessError::EmptyPicture);
        },
        Some(size) => size,
    };
    let ghost area = settings@.resolution.0 * settings@.resolution.1;
    proof {
        let w = side_for(area, width as int, height as int);
        let h = side_for(area, height as int, width as int);
        lemma_scaled_side_unique(w, to_width as int, area, width as int, height as int);
        lemma_scaled_side_unique(h, to_height as int, area, height as int, width as int);
    }
    proof {
        lemma_byte_count_fits(to_width, to_height);
    }
    let bytes: u128 = 4 * (to_width as u128) * (to_height as u128);
    if bytes > BUFFER_MAX as u128 {
        return Err(ProcessError::TooLarge);
    }
    let resized = resize_rgba(photo.pixels, width, height, to_width, to_height);
    let (x, y) = settings.logo_position().place(to_width, to_height, logo.width, logo.height);
    let pixels = overlay_rgba(resized, to_width, to_height, &logo.pixels, logo.width, logo.height, x, y);
    assert(resized@.len() == 4 * to_width * to_height);
    Ok(Picture { width: to_width, height: to_height, pixels })
}

} // verus!
