use vstd::prelude::*;
use crate::grid::MAX_SIDE;

verus! {

/// The layout of the pixels of a decoded image.
#[derive(Debug, Clone, Copy, PartialEq, Eq, Structural)]
pub enum PixelFormat {
    Red,
    Rg,
    Rgb,
    Rgba,
}

impl PixelFormat {
    /// The number of bytes per pixel.
    pub open spec fn channels_spec(self) -> nat {
        match self {
            PixelFormat::Red => 1,
            PixelFormat::Rg => 2,
            PixelFormat::Rgb => 3,
            PixelFormat::Rgba => 4,
        }
    }

    /// The number of bytes per pixel.
    pub fn channels(self) -> (n: usize)
        ensures
            n == self.channels_spec(),
    {
        match self {
            PixelFormat::Red => 1,
            PixelFormat::Rg => 2,
            PixelFormat::Rgb => 3,
            PixelFormat::Rgba => 4,
        }
    }

    /// The format of an image with `depth` bytes per pixel, if there is one.
    pub open spec fn for_depth_spec(depth: nat) -> Option<PixelFormat> {
        if depth == 1 {
            Some(PixelFormat::Red)
        } else if depth == 2 {
            Some(PixelFormat::Rg)
        } else if depth == 3 {
            Some(PixelFormat::Rgb)
        } else if depth == 4 {
            Some(PixelFormat::Rgba)
        } else {
            None
        }
    }

    /// The format of an image with `depth` bytes per pixel, if there is one.
    pub fn for_depth(depth: usize) -> (r: Option<PixelFormat>)
        ensures
            r == Self::for_depth_spec(depth as nat),
    {
        match depth {
            1 => Some(PixelFormat::Red),
            2 => Some(PixelFormat::Rg),
            3 => Some(PixelFormat::Rgb),
            4 => Some(PixelFormat::Rgba),
            _ => None,
        }
    }
}

/// What the image decoder made of a buffer.
pub enum Decoded {
    /// The buffer is no image that the decoder knows; the text says why.
    Failed(String),
    /// An image of 8-bit channels.
    Bytes { width: usize, height: usize, depth: usize, data: Vec<u8> },
    /// An image of floating-point channels, whose pixels are not kept.
    Floats { width: usize, height: usize, depth: usize },
}

/// Why a buffer yields no texture.
#[derive(Debug)]
pub enum TextureError {
    /// The buffer is longer than the decoder can address.
    BufferTooLong,
    /// The decoder refused the buffer; the text says why.
    Decode(String),
    /// The image has floating-point channels.
    FloatChannels,
    /// The image has a number of bytes per pixel other than one to four.
    UnsupportedDepth(usize),
    /// A side of the image is longer than a texture's side can be.
    TooLarge,
    /// The image does not hold one value per channel of every pixel.
    Truncated,
}

/// An image ready to be uploaded as a texture.
pub struct TextureImage {
    pub width: u32,
    pub height: u32,
    pub format: PixelFormat,
    pub data: Vec<u8>,
}

impl TextureImage {
    /// The sides fit a texture, and the data holds every channel of every
    /// pixel.
    pub open spec fn wf(&self) -> bool {
        &&& self.width <= MAX_SIDE
        &&& self.height <= MAX_SIDE
        &&& self.data@.len() == self.width * self.height * self.format.channels_spec()
    }
}

/// What becomes of an image of 8-bit channels with the given sides, depth
/// and number of bytes: the fault, if any.
pub open spec fn image_fault(width: nat, height: nat, depth: nat, len: nat) -> Option<TextureError> {
    if !(1 <= depth <= 4) {
        Some(TextureError::UnsupportedDepth(depth as usize))
    } else if width > MAX_SIDE || height > MAX_SIDE {
        Some(TextureError::TooLarge)
    } else if len != width * height * depth {
        Some(TextureError::Truncated)
    } else {
        None
    }
}

/// The texture image of a decoded buffer, or the reason why there is none.
pub fn texture_from_decoded(decoded: Decoded) -> (r: Result<TextureImage, TextureError>)
    ensures
        match decoded {
            Decoded::Failed(reason) => r matches Err(TextureError::Decode(text)) && text@ == reason@,
            Decoded::Floats { .. } => r matches Err(TextureError::FloatChannels),
            Decoded::Bytes { width, height, depth, data } => match r {
                Ok(image) => {
                    &&& image_fault(width as nat, height as nat, depth as nat, data@.len()) is None
                    &&& image.width == width
                    &&& image.height == height
                    &&& Some(image.format) == PixelFormat::for_depth_spec(depth as nat)
                    &&& image.data@ == data@
                    &&& image.wf()
                },
                Err(e) => image_fault(width as nat, height as nat, depth as nat, data@.len()) == Some(e),
            },
        },
{
    match decoded {
        Decoded::Failed(reason) => Err(TextureError::Decode(reason)),
        Decoded::Floats { .. } => Err(TextureError::FloatChannels),
        Decoded::Bytes { width, height, depth, data } => {
            let format = match PixelFormat::for_depth(depth) {
                Some(format) => format,
                None => {
                    return Err(TextureError::UnsupportedDepth(depth));
                },
            };
            if width > MAX_SIDE as usize || height > MAX_SIDE as usize {
                return Err(TextureError::TooLarge);
            }
            assert((width as int) * (height as int) * (depth as int) <= 0x3fff_ffff_0000_0001 * 4) by (nonlinear_arith)
                requires
                    0 <= width <= 0x7fff_ffff,
                    0 <= height <= 0x7fff_ffff,
                    1 <= depth <= 4,
            ;
            assert(0 <= (width as int) * (height as int) <= 0x3fff_ffff_0000_0001) by (nonlinear_arith)
                requires
                    0 <= width <= 0x7fff_ffff,
                    0 <= height <= 0x7fff_ffff,
            ;
            let expected: u64 = (width as u64) * (height as u64) * (depth as u64);
            if data.len() as u64 != expected {
                return Err(TextureError::Truncated);
            }
            Ok(TextureImage { width: width as u32, height: height as u32, format, data })
        },
    }
}

/// Hands the buffer to the decoder of the `stb_image` crate,
/// `stb_image::image::load_from_memory`, and moves the result into a value
/// of this crate. Nothing is claimed of what the decoder finds: it reads
/// settings of its own that are global to the process. The buffer has to be
/// short enough for the length that the decoder takes, a C `int`.
#[verifier::external_body]
fn decode(data: &[u8]) -> (decoded: Decoded)
    requires
        data@.len() <= MAX_SIDE,
{
    match stb_image::image::load_from_memory(data) {
        stb_image::image::LoadResult::Error(reason) => Decoded::Failed(reason),
        stb_image::image::LoadResult::ImageU8(i) => Decoded::Bytes {
            width: i.width,
            height: i.height,
            depth: i.depth,
            data: i.data,
        },
        stb_image::image::LoadResult::ImageF32(i) => Decoded::Floats {
            width: i.width,
            height: i.height,
            depth: i.depth,
        },
    }
}

/// Decodes an encoded image and prepares it for upload. Whatever the
/// decoder returns, an image that comes out is well formed, and a buffer
/// too long for the decoder is refused before it is called.
pub fn load_image(data: &[u8]) -> (r: Result<TextureImage, TextureError>)
    ensures
        data@.len() > MAX_SIDE ==> r matches Err(TextureError::BufferTooLong),
        r matches Ok(image) ==> image.wf(),
        data@.len() <= MAX_SIDE ==> !(r matches Err(TextureError::BufferTooLong)),
{
    if data.len() > MAX_SIDE as usize {
        return Err(TextureError::BufferTooLong);
    }
    texture_from_decoded(decode(data))
}

} // verus!
