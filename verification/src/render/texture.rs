//! The pixels of a texture, before they are handed to the graphics driver.

use crate::ressources;
use crate::utils::color::rgb::RgbColor;
use vstd::prelude::*;

verus! {

/// Code of one 8-bit unsigned channel per pixel.
pub const R8UI: u32 = 0x8232;

/// Code of two 8-bit unsigned channels per pixel.
pub const RG8UI: u32 = 0x8238;

/// Code of three 8-bit unsigned channels per pixel.
pub const RGB8UI: u32 = 0x8D7D;

/// Code of four 8-bit unsigned channels per pixel.
pub const RGBA8UI: u32 = 0x8D7C;

/// Code of storage with three 8-bit channels per pixel.
pub const RGB8: u32 = 0x8051;

/// Code of storage with four 8-bit channels per pixel.
pub const RGBA8: u32 = 0x8058;

/// Code of data with three channels per pixel.
pub const RGB: u32 = 0x1907;

/// Code of data with four channels per pixel.
pub const RGBA: u32 = 0x1908;

/// Which channels a pixel has.
#[derive(Clone, Copy, Debug, PartialEq, Eq, Structural)]
pub enum TextureFormat {
    /// Red, green, blue.
    RGB,
    /// Red, green, blue, opacity.
    RGBA,
    /// Grey.
    GS,
    /// Grey, opacity.
    GSA,
}

impl TextureFormat {
    /// The driver's code of the format.
    pub open spec fn spec_gl_type(self) -> u32 {
        match self {
            TextureFormat::GS => R8UI,
            TextureFormat::GSA => RG8UI,
            TextureFormat::RGB => RGB8UI,
            TextureFormat::RGBA => RGBA8UI,
        }
    }

    /// The number of bytes of one pixel: one for each channel.
    pub open spec fn spec_pixel_size(self) -> int {
        match self {
            TextureFormat::GS => 1,
            TextureFormat::GSA => 2,
            TextureFormat::RGB => 3,
            TextureFormat::RGBA => 4,
        }
    }

    /// Returns the driver's code of the format.
    pub fn get_gl_type(&self) -> (code: u32)
        ensures
            code == self.spec_gl_type(),
    {
        match self {
            TextureFormat::GS => R8UI,
            TextureFormat::GSA => RG8UI,
            TextureFormat::RGB => RGB8UI,
            TextureFormat::RGBA => RGBA8UI,
        }
    }

    /// Returns the number of bytes of one pixel.
    pub fn get_pixel_size(&self) -> (size: usize)
        ensures
            size == self.spec_pixel_size(),
    {
        match self {
            TextureFormat::GS => 1,
            TextureFormat::GSA => 2,
            TextureFormat::RGB => 3,
            TextureFormat::RGBA => 4,
        }
    }
}

/// Why a texture could not be made.
#[derive(Debug)]
pub enum Error {
    /// The data are not as long as width, height and format require.
    SizeMismatch,
    Res(ressources::Error),
}

/// What a texture holds.
pub struct TextureView {
    pub format: TextureFormat,
    pub data: Seq<u8>,
    pub width: nat,
    pub height: nat,
}

/// The pixels of a two-dimensional texture.
pub struct Texture {
    format: TextureFormat,
    data: Vec<u8>,
    width: usize,
    height: usize,
}

impl View for Texture {
    type V = TextureView;

    closed spec fn view(&self) -> TextureView {
        TextureView {
            format: self.format,
            data: self.data@,
            width: self.width as nat,
            height: self.height as nat,
        }
    }
}

/// The codes of the storage and of the data of a decoded image, by the
/// number of its channels: three or four.
pub open spec fn spec_channel_formats(channels: u8) -> Option<(u32, u32)> {
    if channels == 3 {
        Some((RGB8, RGB))
    } else if channels == 4 {
        Some((RGBA8, RGBA))
    } else {
        None
    }
}

/// Finds the codes of the storage and of the data of a decoded image with
/// `channels` channels. Only three and four channels have any.
pub fn channel_formats(channels: u8) -> (r: Result<(u32, u32), Error>)
    ensures
        r is Ok <==> spec_channel_formats(channels) is Some,
        r matches Ok(codes) ==> spec_channel_formats(channels) == Some(codes),
        r matches Err(e) ==> e is SizeMismatch,
{
    let storage_format: u32 = match channels {
        3 => RGB8,
        4 => RGBA8,
        _ => {
            return Err(Error::SizeMismatch);
        },
    };
    let data_format: u32 = match channels {
        3 => RGB,
        4 => RGBA,
        _ => {
            return Err(Error::SizeMismatch);
        },
    };
    Ok((storage_format, data_format))
}

/// Byte `k` of the pixels of one colour: its red, green and blue parts and
/// its opacity in turn, with full opacity where the colour has none.
pub open spec fn color_byte(color: RgbColor, k: int) -> u8 {
    let part = k % 4;
    if part == 0 {
        color.red
    } else if part == 1 {
        color.green
    } else if part == 2 {
        color.blue
    } else {
        match color.alpha {
            Some(alpha) => alpha,
            None => 255u8,
        }
    }
}

/// Where the three bytes that `set_pixel` writes for row `i` and column
/// `j` start: three bytes for each pixel before it.
pub open spec fn pixel_start(width: int, i: int, j: int) -> int {
    (i * width + j) * 3
}

impl Texture {
    /// Takes over pixel data, if they are as long as `width`, `height` and
    /// `format` require.
    pub fn from_data(format: TextureFormat, data: Vec<u8>, width: usize, height: usize) -> (r:
        Result<Self, Error>)
        ensures
            r is Ok <==> data@.len() == width * height * format.spec_pixel_size(),
            r matches Ok(t) ==> t@ == (TextureView {
                format,
                data: data@,
                width: width as nat,
                height: height as nat,
            }),
            r matches Err(e) ==> e is SizeMismatch,
    {
        let size: usize = format.get_pixel_size();
        let given: usize = data.len();
        let area: usize = match width.checked_mul(height) {
            Some(area) => area,
            None => {
                proof {
                    assert(width * height * size >= width * height) by (nonlinear_arith)
                        requires
                            size >= 1,
                            width * height >= 0,
                    ;
                }
                return Err(Error::SizeMismatch);
            },
        };
        let len: usize = match area.checked_mul(size) {
            Some(len) => len,
            None => {
                return Err(Error::SizeMismatch);
            },
        };
        if given != len {
            return Err(Error::SizeMismatch);
        }
        Ok(Self { format, data, width, height })
    }

    /// Tells whether four bytes for each pixel of a texture of this size can
    /// be counted on this machine.
    pub fn area_fits(width: usize, height: usize) -> (ok: bool)
        ensures
            ok == (width * height * 4 <= usize::MAX),
    {
        match width.checked_mul(height) {
            Some(area) => area.checked_mul(4).is_some(),
            None => {
                proof {
                    assert(width * height * 4 >= width * height) by (nonlinear_arith)
                        requires
                            width * height >= 0,
                    ;
                }
                false
            },
        }
    }

    /// Makes a texture of one colour, four bytes to the pixel whatever the
    /// format.
    pub fn from_color(format: TextureFormat, width: usize, height: usize, color: RgbColor) -> (t:
        Self)
        requires
            width * height * 4 <= usize::MAX,
        ensures
            t@.format == format,
            t@.width == width,
            t@.height == height,
            t@.data.len() == width * height * 4,
            forall|k: int| 0 <= k < t@.data.len() ==> #[trigger] t@.data[k] == color_byte(color, k),
    {
        proof {
            assert(width * height <= width * height * 4) by (nonlinear_arith)
                requires
                    width >= 0,
                    height >= 0,
            ;
        }
        let parts: [u8; 4] = [
            color.red,
            color.green,
            color.blue,
            match color.alpha {
                Some(alpha) => alpha,
                None => 255,
            },
        ];
        let len: usize = width * height * 4;
        let mut data: Vec<u8> = Vec::new();
        let mut k: usize = 0;
        while k < len
            invariant
                k <= len,
                data@.len() == k,
                parts[0] == color.red,
                parts[1] == color.green,
                parts[2] == color.blue,
                parts[3] == color_byte(color, 3),
                forall|m: int| 0 <= m < k ==> #[trigger] data@[m] == color_byte(color, m),
            decreases len - k,
        {
            data.push(parts[k % 4]);
            k = k + 1;
        }
        Self { format, data, width, height }
    }

    /// Makes a texture without pixel data.
    pub fn new_blank(format: TextureFormat, width: usize, height: usize) -> (t: Self)
        requires
            width * height * 4 <= usize::MAX,
        ensures
            t@ == (TextureView {
                format,
                data: Seq::<u8>::empty(),
                width: width as nat,
                height: height as nat,
            }),
    {
        proof {
            assert(width * height <= width * height * 4) by (nonlinear_arith)
                requires
                    width >= 0,
                    height >= 0,
            ;
        }
        Self { format, data: Vec::with_capacity(width * height * 4), width, height }
    }

    /// Tells whether `set_pixel` may write at row `i` and column `j`.
    pub fn has_pixel(&self, i: usize, j: usize) -> (ok: bool)
        ensures
            ok == (pixel_start(self@.width as int, i as int, j as int) + 2 < self@.data.len()),
    {
        let len: usize = self.data.len();
        proof {
            lemma_pixel_start_grows(self.width as int, i as int, j as int);
        }
        let row: usize = match i.checked_mul(self.width) {
            Some(row) => row,
            None => {
                return false;
            },
        };
        let cell: usize = match row.checked_add(j) {
            Some(cell) => cell,
            None => {
                return false;
            },
        };
        let start: usize = match cell.checked_mul(3) {
            Some(start) => start,
            None => {
                return false;
            },
        };
        match start.checked_add(2) {
            Some(end) => end < len,
            None => false,
        }
    }

    /// Writes the red, blue and green parts of `color`, in that order, at
    /// the three bytes that start at `pixel_start`.
    pub fn set_pixel(&mut self, i: usize, j: usize, color: RgbColor)
        requires
            pixel_start(old(self)@.width as int, i as int, j as int) + 2 < old(self)@.data.len(),
        ensures
            final(self)@.format == old(self)@.format,
            final(self)@.width == old(self)@.width,
            final(self)@.height == old(self)@.height,
            ({
                let start = pixel_start(old(self)@.width as int, i as int, j as int);
                final(self)@.data == old(self)@.data.update(start, color.red).update(
                    start + 1,
                    color.blue,
                ).update(start + 2, color.green)
            }),
    {
        let len: usize = self.data.len();
        proof {
            lemma_pixel_start_grows(self.width as int, i as int, j as int);
        }
        let start: usize = (i * self.width + j) * 3;
        self.data[start] = color.red;
        self.data[start + 1] = color.blue;
        self.data[start + 2] = color.green;
    }

    /// Returns the format.
    pub fn format(&self) -> (f: TextureFormat)
        ensures
            f == self@.format,
    {
        self.format
    }

    /// Returns the pixel data.
    pub fn data(&self) -> (d: &[u8])
        ensures
            d@ == self@.data,
    {
        self.data.as_slice()
    }

    /// Returns the width in pixels.
    pub fn width(&self) -> (w: usize)
        ensures
            w == self@.width,
    {
        self.width
    }

    /// Returns the height in pixels.
    pub fn height(&self) -> (h: usize)
        ensures
            h == self@.height,
    {
        self.height
    }
}

/// The start of a pixel is no less than any part it is made of.
pub proof fn lemma_pixel_start_grows(width: int, i: int, j: int)
    requires
        0 <= width,
        0 <= i,
        0 <= j,
    ensures
        0 <= i * width <= i * width + j <= (i * width + j) * 3,
        (i * width + j) * 3 == pixel_start(width, i, j),
{
    assert(0 <= i * width) by (nonlinear_arith)
        requires
            i >= 0,
            width >= 0,
    ;
}

/// Pixels of different cells start at least three bytes apart, so what
/// `set_pixel` writes for one never touches what it writes for another.
pub proof fn lemma_pixels_apart(width: int, i: int, j: int, k: int, l: int)
    requires
        0 <= j < width,
        0 <= l < width,
        0 <= i,
        0 <= k,
        i != k || j != l,
    ensures
        pixel_start(width, i, j) + 3 <= pixel_start(width, k, l) || pixel_start(width, k, l) + 3
            <= pixel_start(width, i, j),
{
    if i < k {
        assert(i * width + width <= k * width) by (nonlinear_arith)
            requires
                i + 1 <= k,
                width >= 0,
        ;
    } else if k < i {
        assert(k * width + width <= i * width) by (nonlinear_arith)
            requires
                k + 1 <= i,
                width >= 0,
        ;
    }
}

} // verus!
