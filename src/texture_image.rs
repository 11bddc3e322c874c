use crate::error::ResourceError;
use vstd::prelude::*;

verus! {

/// What the image crate makes of an encoded image: decoded (its format
/// guessed from its first bytes) and flipped vertically, as width, height,
/// channels per pixel, bytes per pixel and the raw pixel bytes row by row;
/// `None` when the bytes do not decode. It depends on the bytes alone.
pub uninterp spec fn decoded_flipped(bytes: Seq<u8>) -> Option<(u32, u32, u8, u8, Seq<u8>)>;

/// Relies on image::load_from_memory to decode, then on
/// image::DynamicImage::flipv, width, height, color and into_bytes and on
/// image::ColorType::channel_count and bytes_per_pixel to describe the
/// flipped image.
#[verifier::external_body]
fn decode_flipped(bytes: &[u8]) -> (r: Option<(u32, u32, u8, u8, Vec<u8>)>)
    ensures
        match r {
            Some(p) => decoded_flipped(bytes@) == Some((p.0, p.1, p.2, p.3, p.4@)),
            None => decoded_flipped(bytes@) is None,
        },
{
    match image::load_from_memory(bytes) {
        Ok(img) => {
            let img = img.flipv();
            let color = img.color();
            Some((img.width(), img.height(), color.channel_count(), color.bytes_per_pixel(), img.into_bytes()))
        },
        Err(_) => None,
    }
}

/// The device pixel format of an image with 8-bit channels.
#[derive(Clone, Copy, Debug, PartialEq, Eq, Structural)]
pub enum PixelFormat {
    /// One channel.
    Red,
    /// Two channels.
    Rg,
    /// Three channels.
    Rgb,
    /// Four channels.
    Rgba,
}

/// The format for a channel count; there is none past four channels.
pub open spec fn format_of(channels: u8) -> Option<PixelFormat> {
    if channels == 1 {
        Some(PixelFormat::Red)
    } else if channels == 2 {
        Some(PixelFormat::Rg)
    } else if channels == 3 {
        Some(PixelFormat::Rgb)
    } else if channels == 4 {
        Some(PixelFormat::Rgba)
    } else {
        None
    }
}

/// The channels of one pixel in format `f`.
pub open spec fn channels_of(f: PixelFormat) -> u8 {
    match f {
        PixelFormat::Red => 1,
        PixelFormat::Rg => 2,
        PixelFormat::Rgb => 3,
        PixelFormat::Rgba => 4,
    }
}

/// The upload format for an image with `channels` channels of 8 bits.
pub fn format_for_channels(channels: u8) -> (r: Result<PixelFormat, ResourceError>)
    ensures
        match format_of(channels) {
            Some(f) => r == Ok::<PixelFormat, ResourceError>(f),
            None => r == Err::<PixelFormat, ResourceError>(ResourceError::UnsupportedFormat),
        },
{
    match channels {
        1 => Ok(PixelFormat::Red),
        2 => Ok(PixelFormat::Rg),
        3 => Ok(PixelFormat::Rgb),
        4 => Ok(PixelFormat::Rgba),
        _ => Err(ResourceError::UnsupportedFormat),
    }
}

/// Why decoded pixels cannot be uploaded, if they cannot: a channel count
/// with no format, or channels wider than 8 bits, is an unsupported format; a
/// side longer than the device can take is an allocation failure; an empty
/// image, or pixel data of the wrong size, is an unsupported format.
pub open spec fn image_error(
    width: nat,
    height: nat,
    channels: u8,
    bytes_per_pixel: u8,
    len: nat,
) -> Option<ResourceError> {
    if format_of(channels) is None || bytes_per_pixel != channels {
        Some(ResourceError::UnsupportedFormat)
    } else if width > i32::MAX || height > i32::MAX {
        Some(ResourceError::GpuAllocationFailure)
    } else if width == 0 || height == 0 || len != width * height * channels {
        Some(ResourceError::UnsupportedFormat)
    } else {
        None
    }
}

/// A decoded image, flipped so that its first row is the bottom one, ready
/// for upload: `width * height` pixels of the format's channel count.
pub struct TextureImage {
    width: u32,
    height: u32,
    format: PixelFormat,
    pixels: Vec<u8>,
}

impl TextureImage {
    pub closed spec fn width_spec(&self) -> u32 {
        self.width
    }

    pub closed spec fn height_spec(&self) -> u32 {
        self.height
    }

    pub closed spec fn format_spec(&self) -> PixelFormat {
        self.format
    }

    pub closed spec fn pixel_seq(&self) -> Seq<u8> {
        self.pixels@
    }

    /// The pixel data fills exactly `width * height` pixels and both sides
    /// fit a device size argument.
    pub open spec fn wf(&self) -> bool {
        image_error(
            self.width_spec() as nat,
            self.height_spec() as nat,
            channels_of(self.format_spec()),
            channels_of(self.format_spec()),
            self.pixel_seq().len(),
        ) is None
    }

    /// An image from decoded parts, or why they cannot be uploaded.
    pub fn from_parts(width: u32, height: u32, channels: u8, bytes_per_pixel: u8, pixels: Vec<u8>) -> (r:
        Result<TextureImage, ResourceError>)
        ensures
            match image_error(width as nat, height as nat, channels, bytes_per_pixel, pixels@.len()) {
                Some(e) => r == Err::<TextureImage, ResourceError>(e),
                None => r is Ok,
            },
            r matches Ok(img) ==> {
                &&& img.wf()
                &&& img.width_spec() == width
                &&& img.height_spec() == height
                &&& format_of(channels) == Some(img.format_spec())
                &&& img.pixel_seq() == pixels@
            },
    {
        let format = match format_for_channels(channels) {
            Ok(f) => f,
            Err(e) => return Err(e),
        };
        if bytes_per_pixel != channels {
            return Err(ResourceError::UnsupportedFormat);
        }
        if width > i32::MAX as u32 || height > i32::MAX as u32 {
            return Err(ResourceError::GpuAllocationFailure);
        }
        assert((width as nat) * (height as nat) * (channels as nat) < 0x1_0000_0000_0000_0000) by (
        nonlinear_arith)
            requires
                width <= 0x7fff_ffff,
                height <= 0x7fff_ffff,
                channels <= 4,
        ;
        let expected: u64 = (width as u64) * (height as u64) * (channels as u64);
        if width == 0 || height == 0 || pixels.len() as u64 != expected {
            return Err(ResourceError::UnsupportedFormat);
        }
        Ok(TextureImage { width, height, format, pixels })
    }

    pub fn width(&self) -> (r: u32)
        ensures
            r == self.width_spec(),
    {
        self.width
    }

    pub fn height(&self) -> (r: u32)
        ensures
            r == self.height_spec(),
    {
        self.height
    }

    pub fn format(&self) -> (r: PixelFormat)
        ensures
            r == self.format_spec(),
    {
        self.format
    }

    pub fn pixels(&self) -> (r: &Vec<u8>)
        ensures
            r@ == self.pixel_seq(),
    {
        &self.pixels
    }
}

/// Decodes an image file's bytes and flips the image vertically, so that its
/// rows run bottom to top as texture coordinates do. Bytes that do not decode
/// are an unreadable file; a decoded image that cannot be uploaded fails as
/// `image_error` says; otherwise the image is the decoded one.
pub fn decode_texture(bytes: &[u8]) -> (r: Result<TextureImage, ResourceError>)
    ensures
        match decoded_flipped(bytes@) {
            None => r == Err::<TextureImage, ResourceError>(ResourceError::FileNotFound),
            Some((w, h, c, b, px)) => match image_error(w as nat, h as nat, c, b, px.len()) {
                Some(e) => r == Err::<TextureImage, ResourceError>(e),
                None => r matches Ok(img) && img.wf() && img.width_spec() == w && img.height_spec() == h
                    && format_of(c) == Some(img.format_spec()) && img.pixel_seq() == px,
            },
        },
{
    match decode_flipped(bytes) {
        Some((width, height, channels, bytes_per_pixel, pixels)) => TextureImage::from_parts(
            width,
            height,
            channels,
            bytes_per_pixel,
            pixels,
        ),
        None => Err(ResourceError::FileNotFound),
    }
}

} // verus!
