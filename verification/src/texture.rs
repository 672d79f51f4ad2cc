//! Images that shaders sample by texture coordinate.
use vstd::prelude::*;
use crate::grid::{lemma_cell_offset, lemma_row_major, lemma_row_major_bound};
use crate::scalar::{Scalar, ONE_RAW};
use crate::primitives::float2::Float2;
use crate::primitives::float3::Float3;

verus! {

/// How the samples of a decoded PNG frame are laid out.
#[derive(Clone, Copy, Debug, PartialEq, Eq, Structural)]
pub enum PngColor {
    Grayscale,
    Rgb,
    Indexed,
    GrayscaleAlpha,
    Rgba,
}

/// One decoded PNG frame: its size in pixels, its layout, and its rows
/// from the top down.
#[derive(Clone, Debug)]
pub struct PngFrame {
    pub width: u32,
    pub height: u32,
    pub color: PngColor,
    pub data: Vec<u8>,
}

/// A decoded frame as plain values.
pub struct PngFrameParts {
    pub width: u32,
    pub height: u32,
    pub color: PngColor,
    pub data: Seq<u8>,
}

impl View for PngFrame {
    type V = PngFrameParts;

    open spec fn view(&self) -> PngFrameParts {
        PngFrameParts {
            width: self.width,
            height: self.height,
            color: self.color,
            data: self.data@,
        }
    }
}

/// Why no texture could be made.
#[derive(Clone, Copy, Debug, PartialEq, Eq, Structural)]
pub enum TextureError {
    /// The file name ends in neither `png` nor `bytes`.
    UnsupportedExtension,
    /// The PNG decoder refused the file.
    Decode,
    /// The PNG holds neither RGB nor RGBA samples.
    UnsupportedColorType,
    /// The samples do not fill the stated width and height, or one of the
    /// two is zero.
    DimensionMismatch,
    /// Fewer than the four bytes that state width and height.
    TooShort,
}

/// The two kinds of texture file.
#[derive(Clone, Copy, Debug, PartialEq, Eq, Structural)]
pub enum TextureFormat {
    Png,
    Bytes,
}

/// The colour that three bytes encode: each channel is its byte divided by
/// 255.
pub open spec fn rgb_at(bytes: Seq<u8>, offset: int) -> Float3 {
    Float3::new(
        Scalar::from_int_spec(bytes[offset] as int),
        Scalar::from_int_spec(bytes[offset + 1] as int),
        Scalar::from_int_spec(bytes[offset + 2] as int),
    ).shrink(Scalar::from_int_spec(255))
}

/// A texture as plain values: `data` holds the rows from the bottom up.
pub struct TextureParts {
    pub width: nat,
    pub height: nat,
    pub data: Seq<Float3>,
}

impl TextureParts {
    /// Fractional part of `u`, stretched over `cells - 1` steps, as a whole
    /// number of steps.
    pub open spec fn wrap(u: Scalar, cells: nat) -> int {
        u.sub(u.floor()).mul(Scalar::from_index_spec(cells - 1)).index_spec()
    }

    /// The index in `data` of the sample nearest to `uv`, wrapping around.
    pub open spec fn sample_index(self, uv: Float2) -> int {
        Self::wrap(uv.y, self.height) * self.width + Self::wrap(uv.x, self.width)
    }

    /// Whether there is a sample for every place of the grid, so that
    /// every texture coordinate has one.
    pub open spec fn is_complete(self) -> bool {
        self.width * self.height <= self.data.len()
    }

    /// What the raw format decodes to: two little-endian 16-bit numbers for
    /// width and height, then one RGB triple for each sample.
    pub open spec fn of_bytes(bytes: Seq<u8>) -> TextureParts {
        TextureParts {
            width: (bytes[0] as nat) + 256 * (bytes[1] as nat),
            height: (bytes[2] as nat) + 256 * (bytes[3] as nat),
            data: Seq::new(((bytes.len() - 4) / 3) as nat, |i: int| rgb_at(bytes, 4 + 3 * i)),
        }
    }

    /// Bytes per sample of the layouts that can be read.
    pub open spec fn channels(color: PngColor) -> Option<int> {
        match color {
            PngColor::Rgb => Some(3),
            PngColor::Rgba => Some(4),
            _ => None,
        }
    }

    /// Whether the rows of `frame` hold exactly `height` full rows of
    /// `width` samples of `channels` bytes.
    pub open spec fn frame_fits(frame: PngFrameParts, channels: int) -> bool {
        &&& frame.width > 0
        &&& frame.height > 0
        &&& (frame.data.len() as int) / (frame.width * channels) == frame.height
    }

    /// What a frame decodes to: the same samples with the rows in the
    /// opposite order, since an image starts at the top and texture
    /// coordinates at the bottom.
    pub open spec fn of_frame(frame: PngFrameParts, channels: int) -> TextureParts {
        TextureParts {
            width: frame.width as nat,
            height: frame.height as nat,
            data: Seq::new(
                (frame.width * frame.height) as nat,
                |i: int|
                    rgb_at(
                        frame.data,
                        ((frame.height - 1 - i / (frame.width as int)) * frame.width + i % (
                        frame.width as int)) * channels,
                    ),
            ),
        }
    }
}

/// What reading the raw format gives.
pub open spec fn texture_of_bytes(bytes: Seq<u8>) -> Result<TextureParts, TextureError> {
    let parts = TextureParts::of_bytes(bytes);
    if bytes.len() < 4 {
        Err(TextureError::TooShort)
    } else if parts.width > 0 && parts.height > 0 {
        Ok(parts)
    } else {
        Err(TextureError::DimensionMismatch)
    }
}

/// What a decoded frame gives.
pub open spec fn texture_of_frame(frame: PngFrameParts) -> Result<TextureParts, TextureError> {
    match TextureParts::channels(frame.color) {
        None => Err(TextureError::UnsupportedColorType),
        Some(channels) => if TextureParts::frame_fits(frame, channels) {
            Ok(TextureParts::of_frame(frame, channels))
        } else {
            Err(TextureError::DimensionMismatch)
        },
    }
}

/// What a PNG file gives, from what the decoder makes of it.
pub open spec fn texture_of_png(decoded: Option<PngFrameParts>) -> Result<
    TextureParts,
    TextureError,
> {
    match decoded {
        None => Err(TextureError::Decode),
        Some(frame) => texture_of_frame(frame),
    }
}

/// What a file with the given extension and contents gives.
pub open spec fn texture_of_file(extension: Seq<char>, contents: Seq<u8>) -> Result<
    TextureParts,
    TextureError,
> {
    if extension == "png"@ {
        texture_of_png(png_decoded(contents))
    } else if extension == "bytes"@ {
        texture_of_bytes(contents)
    } else {
        Err(TextureError::UnsupportedExtension)
    }
}

/// Whether a result is the one that `expected` describes.
pub open spec fn gives(r: Result<Texture, TextureError>, expected: Result<
    TextureParts,
    TextureError,
>) -> bool {
    match expected {
        Ok(parts) => r matches Ok(t) && t@ == parts,
        Err(e) => r matches Err(x) && x == e,
    }
}

/// A grid of colours.
#[derive(Debug)]
pub struct Texture {
    width: usize,
    height: usize,
    scale: Float2,
    data: Vec<Float3>,
}

/// A texture as width, height and samples.  The steps by which a
/// coordinate is stretched are not part of the view: they are the width
/// and the height less one, always.
impl View for Texture {
    type V = TextureParts;

    closed spec fn view(&self) -> TextureParts {
        TextureParts { width: self.width as nat, height: self.height as nat, data: self.data@ }
    }
}

/// The trusted name of what the PNG decoder makes of a file: the first
/// frame, or `None` where it refuses the file.
pub uninterp spec fn png_decoded(bytes: Seq<u8>) -> Option<PngFrameParts>;

/// The error type of the PNG decoder.
#[verifier::external_type_specification]
#[verifier::external_body]
pub struct ExDecodingError(png::DecodingError);

/// Decodes the first frame of a PNG file held in memory, with
/// `png::Decoder::new`, `Decoder::read_info` and `Reader::next_frame` on a
/// buffer of `Reader::output_buffer_size` bytes.  The decoder is a function
/// of the bytes alone; the contract gives its result the name
/// [`png_decoded`] and claims nothing else of it.
#[verifier::external_body]
fn decode_png(bytes: &[u8]) -> (r: Result<PngFrame, png::DecodingError>)
    ensures
        r matches Ok(frame) ==> png_decoded(bytes@) == Some(frame@),
        r is Err ==> png_decoded(bytes@).is_none(),
{
    let mut reader = png::Decoder::new(bytes).read_info()?;
    let mut data = vec![0u8; reader.output_buffer_size()];
    let info = reader.next_frame(&mut data)?;
    let color = match info.color_type {
        png::ColorType::Grayscale => PngColor::Grayscale,
        png::ColorType::Rgb => PngColor::Rgb,
        png::ColorType::Indexed => PngColor::Indexed,
        png::ColorType::GrayscaleAlpha => PngColor::GrayscaleAlpha,
        png::ColorType::Rgba => PngColor::Rgba,
    };
    Ok(PngFrame { width: info.width, height: info.height, color, data })
}

fn texel(bytes: &[u8], offset: usize) -> (r: Float3)
    requires
        offset + 2 < bytes@.len(),
    ensures
        r == rgb_at(bytes@, offset as int),
{
    Float3::new(
        Scalar::from_int(bytes[offset] as i32),
        Scalar::from_int(bytes[offset + 1] as i32),
        Scalar::from_int(bytes[offset + 2] as i32),
    ).shrink(Scalar::from_int(255))
}

/// A wrapped coordinate names one of the `cells` samples of its axis.
pub proof fn lemma_wrap_in_range(u: Scalar, cells: nat)
    requires
        0 < cells <= usize::MAX,
    ensures
        0 <= TextureParts::wrap(u, cells) < cells,
{
    let frac = u.sub(u.floor());
    let steps = Scalar::from_index_spec(cells - 1);
    assert(0 <= frac.raw < ONE_RAW);
    assert(0 <= steps.raw <= (cells - 1) * ONE_RAW);
    let product = frac.raw * steps.raw;
    assert(0 <= product <= ONE_RAW * steps.raw) by (nonlinear_arith)
        requires
            0 <= frac.raw <= ONE_RAW,
            0 <= steps.raw,
            product == frac.raw * steps.raw,
    ;
    assert(product / (ONE_RAW as int) <= steps.raw) by (nonlinear_arith)
        requires
            0 <= product <= ONE_RAW * steps.raw,
            ONE_RAW == 0x1_0000_0000,
    ;
    let scaled = frac.mul(steps);
    assert(0 <= scaled.raw <= steps.raw);
    assert((scaled.raw as int) / (ONE_RAW as int) <= cells - 1);
}

/// A complete texture has a sample for every coordinate.
pub proof fn lemma_complete_has_every_sample(parts: TextureParts, uv: Float2)
    requires
        0 < parts.width <= usize::MAX,
        0 < parts.height <= usize::MAX,
        parts.is_complete(),
    ensures
        0 <= parts.sample_index(uv) < parts.data.len(),
{
    lemma_wrap_in_range(uv.x, parts.width);
    lemma_wrap_in_range(uv.y, parts.height);
    lemma_row_major_bound(
        TextureParts::wrap(uv.y, parts.height),
        TextureParts::wrap(uv.x, parts.width),
        parts.width as int,
        parts.height as int,
    );
}

impl TextureFormat {
    /// The format that a file name extension stands for: `png` or `bytes`,
    /// in lower case.
    pub fn from_extension(extension: &str) -> (r: Option<TextureFormat>)
        ensures
            r == if extension@ == "png"@ {
                Some(TextureFormat::Png)
            } else if extension@ == "bytes"@ {
                Some(TextureFormat::Bytes)
            } else {
                None::<TextureFormat>
            },
    {
        proof {
            reveal_strlit("png");
            reveal_strlit("bytes");
        }
        if !extension.is_ascii() {
            return None;
        }
        let b = extension.as_bytes();
        assert(b@ =~= Seq::new(extension@.len(), |i: int| extension@[i] as u8)) by {
            vstd::string::is_ascii_spec_bytes(extension);
        }
        if b.len() == 3 && b[0] == 112 && b[1] == 110 && b[2] == 103 {
            assert(extension@ =~= "png"@);
            Some(TextureFormat::Png)
        } else if b.len() == 5 && b[0] == 98 && b[1] == 121 && b[2] == 116 && b[3] == 101 && b[4]
            == 115 {
            assert(extension@ =~= "bytes"@);
            Some(TextureFormat::Bytes)
        } else {
            None
        }
    }
}

impl Clone for Texture {
    /// A texture of the same size with the same samples.
    fn clone(&self) -> (r: Texture)
        ensures
            r@ == self@,
    {
        proof {
            use_type_invariant(self);
        }
        let data = self.data.clone();
        assert(data@ =~= self.data@);
        Texture { width: self.width, height: self.height, scale: self.scale, data }
    }
}

impl Texture {
    #[verifier::type_invariant]
    spec fn inv(self) -> bool {
        &&& self.width > 0
        &&& self.height > 0
        &&& self.scale == Float2::new(
            Scalar::from_index_spec(self.width - 1),
            Scalar::from_index_spec(self.height - 1),
        )
    }

    /// Width in samples.
    pub fn width(&self) -> (r: usize)
        ensures
            r == self@.width,
            r > 0,
    {
        proof {
            use_type_invariant(self);
        }
        self.width
    }

    /// Height in samples.
    pub fn height(&self) -> (r: usize)
        ensures
            r == self@.height,
            r > 0,
    {
        proof {
            use_type_invariant(self);
        }
        self.height
    }

    /// Reads the raw format: width and height as little-endian 16-bit
    /// numbers, then an RGB triple for each sample, rows from the bottom up.
    /// Bytes that fill no triple are dropped.  The samples are taken as
    /// they come, however many there are: a file with fewer than width
    /// times height gives a texture that is not complete, of which only
    /// the coordinates that have a sample can be sampled.  A width or
    /// height of zero is an error.
    pub fn from_bytes(bytes: &[u8]) -> (r: Result<Texture, TextureError>)
        ensures
            gives(r, texture_of_bytes(bytes@)),
    {
        if bytes.len() < 4 {
            return Err(TextureError::TooShort);
        }
        let width: usize = bytes[0] as usize + 256 * (bytes[1] as usize);
        let height: usize = bytes[2] as usize + 256 * (bytes[3] as usize);
        let count: usize = (bytes.len() - 4) / 3;
        let mut data: Vec<Float3> = Vec::new();
        let mut i: usize = 0;
        while i < count
            invariant
                4 + 3 * count <= bytes@.len() <= usize::MAX,
                count == (bytes@.len() - 4) / 3,
                i <= count,
                data@.len() == i,
                forall|j: int| 0 <= j < i ==> data@[j] == rgb_at(bytes@, 4 + 3 * j),
            decreases count - i,
        {
            data.push(texel(bytes, 4 + 3 * i));
            i += 1;
        }
        assert(data@ =~= TextureParts::of_bytes(bytes@).data);
        if width == 0 || height == 0 {
            return Err(TextureError::DimensionMismatch);
        }
        Ok(
            Texture {
                width,
                height,
                scale: Float2::new(Scalar::from_index(width - 1), Scalar::from_index(height - 1)),
                data,
            },
        )
    }

    /// Makes a texture of a decoded PNG frame of RGB or RGBA samples; alpha
    /// is dropped and the rows are turned upside down.
    pub fn from_png_frame(frame: &PngFrame) -> (r: Result<Texture, TextureError>)
        ensures
            gives(r, texture_of_frame(frame@)),
    {
        let channels: usize = match frame.color {
            PngColor::Rgb => 3,
            PngColor::Rgba => 4,
            _ => {
                return Err(TextureError::UnsupportedColorType);
            },
        };
        let width: usize = frame.width as usize;
        let height: usize = frame.height as usize;
        if width == 0 || height == 0 {
            return Err(TextureError::DimensionMismatch);
        }
        assert(width * channels <= 0xffff_ffff * 4) by (nonlinear_arith)
            requires
                width <= 0xffff_ffff,
                channels <= 4,
        ;
        let row_len: u64 = (width as u64) * (channels as u64);
        let rows: u64 = (frame.data.len() as u64) / row_len;
        if rows != height as u64 {
            return Err(TextureError::DimensionMismatch);
        }
        assert(height * row_len <= frame.data@.len()) by (nonlinear_arith)
            requires
                (frame.data@.len() as int) / (row_len as int) == height,
                row_len > 0,
        ;
        let bytes = frame.data.as_slice();
        let mut data: Vec<Float3> = Vec::new();
        let mut y: usize = 0;
        while y < height
            invariant
                0 < width == frame.width,
                0 < height == frame.height,
                3 <= channels <= 4,
                row_len == width * channels,
                height * row_len <= bytes@.len() <= usize::MAX,
                bytes@ == frame.data@,
                y <= height,
                data@.len() == y * width,
                forall|i: int|
                    0 <= i < y * width ==> data@[i] == rgb_at(
                        bytes@,
                        ((height - 1 - i / (width as int)) * width + i % (width as int)) * channels,
                    ),
            decreases height - y,
        {
            let source_row: usize = height - 1 - y;
            let mut x: usize = 0;
            assert(y * width + width == (y + 1) * width) by (nonlinear_arith);
            while x < width
                invariant
                    0 < width == frame.width,
                    0 < height == frame.height,
                    3 <= channels <= 4,
                    row_len == width * channels,
                    height * row_len <= bytes@.len() <= usize::MAX,
                    bytes@ == frame.data@,
                    y < height,
                    source_row == height - 1 - y,
                    x <= width,
                    data@.len() == y * width + x,
                    forall|i: int|
                        0 <= i < y * width + x ==> data@[i] == rgb_at(
                            bytes@,
                            ((height - 1 - i / (width as int)) * width + i % (width as int))
                                * channels,
                        ),
                decreases width - x,
            {
                proof {
                    lemma_cell_offset(
                        source_row as int,
                        x as int,
                        width as int,
                        height as int,
                        channels as int,
                    );
                    lemma_row_major(y as int, x as int, width as int);
                }
                let offset: usize = (source_row * width + x) * channels;
                data.push(texel(bytes, offset));
                x += 1;
            }
            y += 1;
        }
        assert(y * width == width * height) by (nonlinear_arith)
            requires
                y == height,
        ;
        assert(data@ =~= TextureParts::of_frame(frame@, channels as int).data);
        Ok(
            Texture {
                width,
                height,
                scale: Float2::new(Scalar::from_index(width - 1), Scalar::from_index(height - 1)),
                data,
            },
        )
    }

    /// Decodes a PNG file held in memory and makes a texture of its first
    /// frame.
    pub fn from_png(bytes: &[u8]) -> (r: Result<Texture, TextureError>)
        ensures
            gives(r, texture_of_png(png_decoded(bytes@))),
    {
        match decode_png(bytes) {
            Ok(frame) => Texture::from_png_frame(&frame),
            Err(_) => Err(TextureError::Decode),
        }
    }

    /// Makes a texture of the contents of a file, read as the format that
    /// the extension of its name stands for.
    pub fn from_file(extension: &str, contents: &[u8]) -> (r: Result<Texture, TextureError>)
        ensures
            gives(r, texture_of_file(extension@, contents@)),
    {
        proof {
            reveal_strlit("png");
            reveal_strlit("bytes");
        }
        let format = TextureFormat::from_extension(extension);
        assert("png"@ != "bytes"@) by {
            assert("png"@.len() == 3 && "bytes"@.len() == 5);
        }
        match format {
            Some(TextureFormat::Png) => Texture::from_png(contents),
            Some(TextureFormat::Bytes) => Texture::from_bytes(contents),
            None => Err(TextureError::UnsupportedExtension),
        }
    }

    /// Whether there is a sample for every place of the grid.
    pub fn is_complete(&self) -> (r: bool)
        ensures
            r == self@.is_complete(),
    {
        let samples: u128 = self.data.len() as u128;
        assert(self.width * self.height <= usize::MAX * usize::MAX) by (nonlinear_arith)
            requires
                self.width <= usize::MAX,
                self.height <= usize::MAX,
        ;
        (self.width as u128) * (self.height as u128) <= samples
    }

    /// The colour at the texture coordinate `uv`.  Coordinates wrap around:
    /// only their fractional part counts, which is stretched over the width
    /// and the height less one and rounded down to a sample.  The sample
    /// has to be there, which it is for every coordinate of a complete
    /// texture.
    pub fn sample(&self, uv: Float2) -> (r: Float3)
        requires
            self@.sample_index(uv) < self@.data.len(),
        ensures
            r == self@.data[self@.sample_index(uv)],
    {
        proof {
            use_type_invariant(self);
        }
        let samples: usize = self.data.len();
        let uv_idx = uv.sub(uv.floor()).mul(self.scale);
        let x: usize = uv_idx.x.to_index();
        let y: usize = uv_idx.y.to_index();
        proof {
            lemma_wrap_in_range(uv.x, self.width as nat);
            lemma_wrap_in_range(uv.y, self.height as nat);
            assert(0 <= y * self.width) by (nonlinear_arith)
                requires
                    0 <= y,
                    0 <= self.width,
            ;
            assert(y * self.width + x < samples);
        }
        self.data[y * self.width + x]
    }

    /// The colour at the texture coordinate `uv`, or `None` where the
    /// texture has no sample there.
    pub fn sample_checked(&self, uv: Float2) -> (r: Option<Float3>)
        ensures
            r == if self@.sample_index(uv) < self@.data.len() {
                Some(self@.data[self@.sample_index(uv)])
            } else {
                None::<Float3>
            },
    {
        proof {
            use_type_invariant(self);
        }
        let uv_idx = uv.sub(uv.floor()).mul(self.scale);
        let x: u128 = uv_idx.x.to_index() as u128;
        let y: u128 = uv_idx.y.to_index() as u128;
        proof {
            lemma_wrap_in_range(uv.x, self.width as nat);
            lemma_wrap_in_range(uv.y, self.height as nat);
            assert(0 <= y * self.width <= usize::MAX * usize::MAX) by (nonlinear_arith)
                requires
                    0 <= y <= usize::MAX,
                    0 <= self.width <= usize::MAX,
            ;
        }
        let index: u128 = y * (self.width as u128) + x;
        if index < self.data.len() as u128 {
            Some(self.data[index as usize])
        } else {
            None
        }
    }

    /// Number of samples held.
    pub fn len(&self) -> (r: usize)
        ensures
            r == self@.data.len(),
    {
        self.data.len()
    }
}

} // verus!
