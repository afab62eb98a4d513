//! Texture files: a header, a container of images with their mipmaps, and,
//! for sprite sheets, the placement of the frames.
//!
//! Numbers are 32 bits wide, least significant byte first; the version tags
//! are eight ASCII letters followed by a zero byte.

use vstd::prelude::*;
use crate::file_reading_utils::{
    le_i32, le_u32, read_color, read_i32, read_null_terminated_bytes, read_u32, taken,
    terminated_len, terminated_text, Cursor, ReadError,
};

verus! {

/// Why bytes are no texture file.
#[derive(Clone, Copy, Debug, PartialEq, Eq, Structural)]
pub enum TexError {
    /// The bytes end too early.
    Read(ReadError),
    /// The file does not begin with the tags `TEXV0005` and `TEXI0001`.
    BadMagic,
    /// The texture format is none of the known ones.
    UnknownTextureFormat,
    /// The texture flags hold a bit without a meaning.
    UnknownTextureFlags,
    /// The container's tag is none of `TEXB0001`, `TEXB0002`, `TEXB0003`.
    UnknownContainerVersion,
    /// The image format is none of the known ones.
    UnknownImageFormat,
    /// A mipmap's compression flag is neither 0 nor 1.
    BadCompressionFlag,
    /// A mipmap is too large to be decompressed on this machine.
    TooLarge,
    /// A compressed mipmap could not be decompressed.
    Decompression,
    /// A decompressed mipmap has not the size that the file names.
    SizeMismatch,
    /// The frame information's tag is none of `TEXS0001`, `TEXS0002`,
    /// `TEXS0003`.
    UnknownFrameInfoVersion,
    /// Bytes are left behind the last part of the file.
    TrailingBytes,
}

/// How the pixels of a texture are stored.
#[derive(Debug, Clone, Copy, PartialEq, Eq, Structural)]
pub enum TextureFormat {
    RGBA8888,
    DXT5,
    DXT3,
    DXT1,
    RG88,
    R8,
}

/// The texture format that a number of the file stands for.
pub open spec fn texture_format_of(value: u32) -> Option<TextureFormat> {
    if value == 0 {
        Some(TextureFormat::RGBA8888)
    } else if value == 4 {
        Some(TextureFormat::DXT5)
    } else if value == 6 {
        Some(TextureFormat::DXT3)
    } else if value == 7 {
        Some(TextureFormat::DXT1)
    } else if value == 8 {
        Some(TextureFormat::RG88)
    } else if value == 9 {
        Some(TextureFormat::R8)
    } else {
        None
    }
}

impl TextureFormat {
    pub fn try_from(value: u32) -> (r: Option<Self>)
        ensures
            r == texture_format_of(value),
    {
        if value == 0 {
            Some(TextureFormat::RGBA8888)
        } else if value == 4 {
            Some(TextureFormat::DXT5)
        } else if value == 6 {
            Some(TextureFormat::DXT3)
        } else if value == 7 {
            Some(TextureFormat::DXT1)
        } else if value == 8 {
            Some(TextureFormat::RG88)
        } else if value == 9 {
            Some(TextureFormat::R8)
        } else {
            None
        }
    }

    /// The number that stands for the format in a file.
    pub fn number(&self) -> (n: u32)
        ensures
            texture_format_of(n) == Some(*self),
    {
        match self {
            TextureFormat::RGBA8888 => 0,
            TextureFormat::DXT5 => 4,
            TextureFormat::DXT3 => 6,
            TextureFormat::DXT1 => 7,
            TextureFormat::RG88 => 8,
            TextureFormat::R8 => 9,
        }
    }
}

/// The switches of a texture: one bit each.
#[derive(Debug, Clone, Copy, PartialEq, Eq, Structural)]
pub struct TextureFlags {
    pub bits: u32,
}

pub const NO_INTERPOLATION: u32 = 1;

pub const CLAMP_UVS: u32 = 2;

pub const IS_SPRITESHEET: u32 = 4;

impl TextureFlags {
    /// The flags with the given bits; none where a bit has no meaning.
    pub fn from_bits(bits: u32) -> (r: Option<Self>)
        ensures
            r == if bits < 8 {
                Some(TextureFlags { bits })
            } else {
                None
            },
    {
        if bits < 8 {
            Some(TextureFlags { bits })
        } else {
            None
        }
    }

    pub fn bits(&self) -> (b: u32)
        ensures
            b == self.bits,
    {
        self.bits
    }

    /// Whether the texture is a sheet of sprites.
    pub open spec fn spritesheet(&self) -> bool {
        self.bits >= 4
    }

    pub fn is_spritesheet(&self) -> (b: bool)
        requires
            self.bits < 8,
        ensures
            b == self.spritesheet(),
            b == (self.bits & IS_SPRITESHEET == IS_SPRITESHEET),
    {
        let bits: u32 = self.bits;
        assert(bits < 8 ==> ((bits & 4 == 4) <==> bits >= 4)) by (bit_vector);
        self.bits & IS_SPRITESHEET == IS_SPRITESHEET
    }

    /// Whether every bit of `flag` is set.
    pub fn contains(&self, flag: u32) -> (b: bool)
        ensures
            b == (self.bits & flag == flag),
    {
        self.bits & flag == flag
    }
}

/// The version of the image container.
#[derive(Debug, Clone, Copy, PartialEq, Eq, Structural)]
pub enum ContainerVersion {
    TEXB001,
    TEXB002,
    TEXB003,
}

/// The version of the frame information.
#[derive(Debug, Clone, Copy, PartialEq, Eq, Structural)]
pub enum FrameInfoContainerVersion {
    TEXS0001,
    TEXS0002,
    TEXS0003,
}

/// The eight letters `TEX`, `letter`, `000`, `digit`.
pub open spec fn tag(letter: u8, digit: u8) -> Seq<u8> {
    seq![0x54u8, 0x45u8, 0x58u8, letter, 0x30u8, 0x30u8, 0x30u8, digit]
}

/// Whether `name` is the tag with this letter and this digit.
pub fn is_tag(name: &Vec<u8>, letter: u8, digit: u8) -> (b: bool)
    ensures
        b == (name@ == tag(letter, digit)),
{
    let b: bool = name.len() == 8 && name[0] == 0x54 && name[1] == 0x45 && name[2] == 0x58
        && name[3] == letter && name[4] == 0x30 && name[5] == 0x30 && name[6] == 0x30 && name[7]
        == digit;
    proof {
        if b {
            assert(name@ =~= tag(letter, digit));
        } else if name@.len() == 8 {
            let t = tag(letter, digit);
            assert(t[0] == 0x54 && t[1] == 0x45 && t[2] == 0x58 && t[3] == letter && t[4] == 0x30
                && t[5] == 0x30 && t[6] == 0x30 && t[7] == digit);
        } else {
            assert(tag(letter, digit).len() == 8);
        }
    }
    b
}

/// The container version that a tag names.
pub open spec fn container_version_of(name: Seq<u8>) -> Option<ContainerVersion> {
    if name == tag(0x42, 0x31) {
        Some(ContainerVersion::TEXB001)
    } else if name == tag(0x42, 0x32) {
        Some(ContainerVersion::TEXB002)
    } else if name == tag(0x42, 0x33) {
        Some(ContainerVersion::TEXB003)
    } else {
        None
    }
}

/// The frame information version that a tag names.
pub open spec fn frame_info_version_of(name: Seq<u8>) -> Option<FrameInfoContainerVersion> {
    if name == tag(0x53, 0x31) {
        Some(FrameInfoContainerVersion::TEXS0001)
    } else if name == tag(0x53, 0x32) {
        Some(FrameInfoContainerVersion::TEXS0002)
    } else if name == tag(0x53, 0x33) {
        Some(FrameInfoContainerVersion::TEXS0003)
    } else {
        None
    }
}

impl ContainerVersion {
    /// The version that the tag `TEXB0001`, `TEXB0002` or `TEXB0003` names.
    pub fn try_from(name: &Vec<u8>) -> (r: Option<Self>)
        ensures
            r == container_version_of(name@),
    {
        if is_tag(name, 0x42, 0x31) {
            Some(ContainerVersion::TEXB001)
        } else if is_tag(name, 0x42, 0x32) {
            Some(ContainerVersion::TEXB002)
        } else if is_tag(name, 0x42, 0x33) {
            Some(ContainerVersion::TEXB003)
        } else {
            None
        }
    }
}

impl FrameInfoContainerVersion {
    /// The version that the tag `TEXS0001`, `TEXS0002` or `TEXS0003` names.
    pub fn try_from(name: &Vec<u8>) -> (r: Option<Self>)
        ensures
            r == frame_info_version_of(name@),
    {
        if is_tag(name, 0x53, 0x31) {
            Some(FrameInfoContainerVersion::TEXS0001)
        } else if is_tag(name, 0x53, 0x32) {
            Some(FrameInfoContainerVersion::TEXS0002)
        } else if is_tag(name, 0x53, 0x33) {
            Some(FrameInfoContainerVersion::TEXS0003)
        } else {
            None
        }
    }
}

/// The head of a texture file.
#[derive(Debug, Clone, Copy)]
pub struct Header {
    pub format: TextureFormat,
    pub texture_flags: TextureFlags,
    pub texture_width: u32,
    pub texture_height: u32,
    pub image_width: u32,
    pub image_height: u32,
    pub dominant_color: (u8, u8, u8, u8),
}

/// What is left of `rest` behind a string that ends with a zero byte.
pub open spec fn behind_text(rest: Seq<u8>) -> Seq<u8> {
    rest.skip(terminated_len(rest))
}

/// The head that `rest` begins with, and what is left behind it.
pub open spec fn header_of(rest: Seq<u8>) -> Result<(Header, Seq<u8>), TexError> {
    let second = behind_text(rest);
    let body = behind_text(second);
    if terminated_text(rest) != tag(0x56, 0x35) || terminated_text(second) != tag(0x49, 0x31) {
        Err(TexError::BadMagic)
    } else if body.len() < 4 {
        Err(TexError::Read(ReadError::UnexpectedEof))
    } else if texture_format_of(le_u32(body) as u32) is None {
        Err(TexError::UnknownTextureFormat)
    } else if body.len() < 8 {
        Err(TexError::Read(ReadError::UnexpectedEof))
    } else if le_u32(body.skip(4)) >= 8 {
        Err(TexError::UnknownTextureFlags)
    } else if body.len() < 28 {
        Err(TexError::Read(ReadError::UnexpectedEof))
    } else {
        Ok(
            (
                Header {
                    format: texture_format_of(le_u32(body) as u32)->Some_0,
                    texture_flags: TextureFlags { bits: le_u32(body.skip(4)) as u32 },
                    texture_width: le_u32(body.skip(8)) as u32,
                    texture_height: le_u32(body.skip(12)) as u32,
                    image_width: le_u32(body.skip(16)) as u32,
                    image_height: le_u32(body.skip(20)) as u32,
                    dominant_color: (body[24], body[25], body[26], body[27]),
                },
                body.skip(28),
            ),
        )
    }
}

/// Reads a number of the file.
fn number(cursor: &mut Cursor) -> (r: Result<u32, TexError>)
    ensures
        final(cursor).bytes() == old(cursor).bytes(),
        r is Ok <==> old(cursor).rest().len() >= 4,
        r matches Ok(v) ==> v == le_u32(old(cursor).rest()) && final(cursor).rest() == old(
            cursor,
        ).rest().skip(4),
        r is Err ==> r == Err::<u32, TexError>(TexError::Read(ReadError::UnexpectedEof)),
{
    match read_u32(cursor) {
        Ok(v) => Ok(v),
        Err(e) => Err(TexError::Read(e)),
    }
}

/// Reads the head of a texture file: the two tags, the format, the flags,
/// the sizes of the texture and of the image, and the dominant colour.
pub fn read_header(cursor: &mut Cursor) -> (r: Result<Header, TexError>)
    ensures
        final(cursor).bytes() == old(cursor).bytes(),
        r is Ok <==> header_of(old(cursor).rest()) is Ok,
        r is Err ==> header_of(old(cursor).rest()) == Err::<(Header, Seq<u8>), TexError>(
            r->Err_0,
        ),
        r matches Ok(header) ==> {
            &&& header == header_of(old(cursor).rest())->Ok_0.0
            &&& final(cursor).rest() == header_of(old(cursor).rest())->Ok_0.1
        },
{
    let version: Vec<u8> = read_null_terminated_bytes(cursor);
    if !is_tag(&version, 0x56, 0x35) {
        return Err(TexError::BadMagic);
    }
    let version2: Vec<u8> = read_null_terminated_bytes(cursor);
    if !is_tag(&version2, 0x49, 0x31) {
        return Err(TexError::BadMagic);
    }
    let ghost body = cursor.rest();
    let format: TextureFormat = match TextureFormat::try_from(number(cursor)?) {
        Some(f) => f,
        None => {
            return Err(TexError::UnknownTextureFormat);
        },
    };
    let texture_flags: TextureFlags = match TextureFlags::from_bits(number(cursor)?) {
        Some(f) => f,
        None => {
            return Err(TexError::UnknownTextureFlags);
        },
    };
    proof {
        assert(cursor.rest() =~= body.skip(8));
    }
    let texture_width: u32 = number(cursor)?;
    proof {
        assert(cursor.rest() =~= body.skip(12));
    }
    let texture_height: u32 = number(cursor)?;
    proof {
        assert(cursor.rest() =~= body.skip(16));
    }
    let image_width: u32 = number(cursor)?;
    proof {
        assert(cursor.rest() =~= body.skip(20));
    }
    let image_height: u32 = number(cursor)?;
    proof {
        assert(cursor.rest() =~= body.skip(24));
    }
    let dominant_color: (u8, u8, u8, u8) = match read_color(cursor) {
        Ok(c) => c,
        Err(e) => {
            return Err(TexError::Read(e));
        },
    };
    proof {
        assert(cursor.rest() =~= body.skip(28));
    }
    Ok(
        Header {
            format,
            texture_flags,
            texture_width,
            texture_height,
            image_width,
            image_height,
            dominant_color,
        },
    )
}

/// The image formats of the FreeImage library, by which a container names
/// the format of its images.
#[derive(Debug, Clone, Copy, PartialEq, Eq, Structural)]
pub enum FreeImageFormat {
    Bmp,
    Ico,
    Jpeg,
    Jng,
    Koala,
    LbmOrIff,
    Mng,
    Pbm,
    PbmRaw,
    Pcd,
    Pcx,
    Pgm,
    PgmRaw,
    Png,
    Ppm,
    PpmRaw,
    Ras,
    Targa,
    Tiff,
    Wbmp,
    Psd,
    Cut,
    Xbm,
    Xpm,
    Dds,
    Gif,
    Hdr,
    Sgi,
    Exr,
    J2K,
    Jp2,
    Pfm,
    Pict,
    Raw,
    WebP,
    Jxr,
}

/// The image formats for which there is a decoder.
#[derive(Debug, Clone, Copy, PartialEq, Eq, Structural)]
pub enum ImageFormat {
    Png,
    Jpeg,
    Gif,
    WebP,
    Pnm,
    Tiff,
    Tga,
    Dds,
    Bmp,
    Ico,
    Hdr,
    OpenExr,
}

impl FreeImageFormat {
    /// The number that stands for the format in a file.
    pub open spec fn spec_number(self) -> int {
        match self {
            FreeImageFormat::Bmp => 0,
            FreeImageFormat::Ico => 1,
            FreeImageFormat::Jpeg => 2,
            FreeImageFormat::Jng => 3,
            FreeImageFormat::Koala => 4,
            FreeImageFormat::LbmOrIff => 5,
            FreeImageFormat::Mng => 6,
            FreeImageFormat::Pbm => 7,
            FreeImageFormat::PbmRaw => 8,
            FreeImageFormat::Pcd => 9,
            FreeImageFormat::Pcx => 10,
            FreeImageFormat::Pgm => 11,
            FreeImageFormat::PgmRaw => 12,
            FreeImageFormat::Png => 13,
            FreeImageFormat::Ppm => 14,
            FreeImageFormat::PpmRaw => 15,
            FreeImageFormat::Ras => 16,
            FreeImageFormat::Targa => 17,
            FreeImageFormat::Tiff => 18,
            FreeImageFormat::Wbmp => 19,
            FreeImageFormat::Psd => 20,
            FreeImageFormat::Cut => 21,
            FreeImageFormat::Xbm => 22,
            FreeImageFormat::Xpm => 23,
            FreeImageFormat::Dds => 24,
            FreeImageFormat::Gif => 25,
            FreeImageFormat::Hdr => 26,
            FreeImageFormat::Sgi => 28,
            FreeImageFormat::Exr => 29,
            FreeImageFormat::J2K => 30,
            FreeImageFormat::Jp2 => 31,
            FreeImageFormat::Pfm => 32,
            FreeImageFormat::Pict => 33,
            FreeImageFormat::Raw => 34,
            FreeImageFormat::WebP => 35,
            FreeImageFormat::Jxr => 36,
        }
    }

    /// The decoder's name for the format, if there is a decoder for it. The
    /// six kinds of portable bitmap share one.
    pub open spec fn decoder_format(self) -> Option<ImageFormat> {
        match self {
            FreeImageFormat::Bmp => Some(ImageFormat::Bmp),
            FreeImageFormat::Ico => Some(ImageFormat::Ico),
            FreeImageFormat::Jpeg => Some(ImageFormat::Jpeg),
            FreeImageFormat::Pbm | FreeImageFormat::PbmRaw | FreeImageFormat::Pgm
            | FreeImageFormat::PgmRaw | FreeImageFormat::Ppm | FreeImageFormat::PpmRaw => Some(
                ImageFormat::Pnm,
            ),
            FreeImageFormat::Png => Some(ImageFormat::Png),
            FreeImageFormat::Targa => Some(ImageFormat::Tga),
            FreeImageFormat::Tiff => Some(ImageFormat::Tiff),
            FreeImageFormat::Dds => Some(ImageFormat::Dds),
            FreeImageFormat::Gif => Some(ImageFormat::Gif),
            FreeImageFormat::Hdr => Some(ImageFormat::Hdr),
            FreeImageFormat::Exr => Some(ImageFormat::OpenExr),
            FreeImageFormat::WebP => Some(ImageFormat::WebP),
            _ => None,
        }
    }

    pub fn number(&self) -> (n: u32)
        ensures
            n == self.spec_number(),
    {
        match self {
            FreeImageFormat::Bmp => 0,
            FreeImageFormat::Ico => 1,
            FreeImageFormat::Jpeg => 2,
            FreeImageFormat::Jng => 3,
            FreeImageFormat::Koala => 4,
            FreeImageFormat::LbmOrIff => 5,
            FreeImageFormat::Mng => 6,
            FreeImageFormat::Pbm => 7,
            FreeImageFormat::PbmRaw => 8,
            FreeImageFormat::Pcd => 9,
            FreeImageFormat::Pcx => 10,
            FreeImageFormat::Pgm => 11,
            FreeImageFormat::PgmRaw => 12,
            FreeImageFormat::Png => 13,
            FreeImageFormat::Ppm => 14,
            FreeImageFormat::PpmRaw => 15,
            FreeImageFormat::Ras => 16,
            FreeImageFormat::Targa => 17,
            FreeImageFormat::Tiff => 18,
            FreeImageFormat::Wbmp => 19,
            FreeImageFormat::Psd => 20,
            FreeImageFormat::Cut => 21,
            FreeImageFormat::Xbm => 22,
            FreeImageFormat::Xpm => 23,
            FreeImageFormat::Dds => 24,
            FreeImageFormat::Gif => 25,
            FreeImageFormat::Hdr => 26,
            FreeImageFormat::Sgi => 28,
            FreeImageFormat::Exr => 29,
            FreeImageFormat::J2K => 30,
            FreeImageFormat::Jp2 => 31,
            FreeImageFormat::Pfm => 32,
            FreeImageFormat::Pict => 33,
            FreeImageFormat::Raw => 34,
            FreeImageFormat::WebP => 35,
            FreeImageFormat::Jxr => 36,
        }
    }

    /// The format that a number of the file stands for: the numbers up to 36
    /// but 27 stand for one.
    pub fn try_from(value: u32) -> (r: Option<Self>)
        ensures
            r is Some <==> value <= 36 && value != 27,
            r matches Some(f) ==> f.spec_number() == value,
    {
        match value {
            0 => Some(FreeImageFormat::Bmp),
            1 => Some(FreeImageFormat::Ico),
            2 => Some(FreeImageFormat::Jpeg),
            3 => Some(FreeImageFormat::Jng),
            4 => Some(FreeImageFormat::Koala),
            5 => Some(FreeImageFormat::LbmOrIff),
            6 => Some(FreeImageFormat::Mng),
            7 => Some(FreeImageFormat::Pbm),
            8 => Some(FreeImageFormat::PbmRaw),
            9 => Some(FreeImageFormat::Pcd),
            10 => Some(FreeImageFormat::Pcx),
            11 => Some(FreeImageFormat::Pgm),
            12 => Some(FreeImageFormat::PgmRaw),
            13 => Some(FreeImageFormat::Png),
            14 => Some(FreeImageFormat::Ppm),
            15 => Some(FreeImageFormat::PpmRaw),
            16 => Some(FreeImageFormat::Ras),
            17 => Some(FreeImageFormat::Targa),
            18 => Some(FreeImageFormat::Tiff),
            19 => Some(FreeImageFormat::Wbmp),
            20 => Some(FreeImageFormat::Psd),
            21 => Some(FreeImageFormat::Cut),
            22 => Some(FreeImageFormat::Xbm),
            23 => Some(FreeImageFormat::Xpm),
            24 => Some(FreeImageFormat::Dds),
            25 => Some(FreeImageFormat::Gif),
            26 => Some(FreeImageFormat::Hdr),
            28 => Some(FreeImageFormat::Sgi),
            29 => Some(FreeImageFormat::Exr),
            30 => Some(FreeImageFormat::J2K),
            31 => Some(FreeImageFormat::Jp2),
            32 => Some(FreeImageFormat::Pfm),
            33 => Some(FreeImageFormat::Pict),
            34 => Some(FreeImageFormat::Raw),
            35 => Some(FreeImageFormat::WebP),
            36 => Some(FreeImageFormat::Jxr),
            _ => None,
        }
    }

    /// The decoder's name for the format; an error where there is no
    /// decoder for it.
    pub fn try_into(self) -> (r: Result<ImageFormat, ()>)
        ensures
            r is Ok <==> self.decoder_format() is Some,
            r matches Ok(f) ==> Some(f) == self.decoder_format(),
    {
        match self {
            FreeImageFormat::Bmp => Ok(ImageFormat::Bmp),
            FreeImageFormat::Ico => Ok(ImageFormat::Ico),
            FreeImageFormat::Jpeg => Ok(ImageFormat::Jpeg),
            FreeImageFormat::Jng => Err(()),
            FreeImageFormat::Koala => Err(()),
            FreeImageFormat::LbmOrIff => Err(()),
            FreeImageFormat::Mng => Err(()),
            FreeImageFormat::Pbm => Ok(ImageFormat::Pnm),
            FreeImageFormat::PbmRaw => Ok(ImageFormat::Pnm),
            FreeImageFormat::Pcd => Err(()),
            FreeImageFormat::Pcx => Err(()),
            FreeImageFormat::Pgm => Ok(ImageFormat::Pnm),
            FreeImageFormat::PgmRaw => Ok(ImageFormat::Pnm),
            FreeImageFormat::Png => Ok(ImageFormat::Png),
            FreeImageFormat::Ppm => Ok(ImageFormat::Pnm),
            FreeImageFormat::PpmRaw => Ok(ImageFormat::Pnm),
            FreeImageFormat::Ras => Err(()),
            FreeImageFormat::Targa => Ok(ImageFormat::Tga),
            FreeImageFormat::Tiff => Ok(ImageFormat::Tiff),
            FreeImageFormat::Wbmp => Err(()),
            FreeImageFormat::Psd => Err(()),
            FreeImageFormat::Cut => Err(()),
            FreeImageFormat::Xbm => Err(()),
            FreeImageFormat::Xpm => Err(()),
            FreeImageFormat::Dds => Ok(ImageFormat::Dds),
            FreeImageFormat::Gif => Ok(ImageFormat::Gif),
            FreeImageFormat::Hdr => Ok(ImageFormat::Hdr),
            FreeImageFormat::Sgi => Err(()),
            FreeImageFormat::Exr => Ok(ImageFormat::OpenExr),
            FreeImageFormat::J2K => Err(()),
            FreeImageFormat::Jp2 => Err(()),
            FreeImageFormat::Pfm => Err(()),
            FreeImageFormat::Pict => Err(()),
            FreeImageFormat::Raw => Err(()),
            FreeImageFormat::WebP => Ok(ImageFormat::WebP),
            FreeImageFormat::Jxr => Err(()),
        }
    }
}

/// Two formats with one number are one format.
pub proof fn lemma_format_numbers_differ(a: FreeImageFormat, b: FreeImageFormat)
    requires
        a.spec_number() == b.spec_number(),
    ensures
        a == b,
{
}

/// What a container says of its images.
#[derive(Debug, Clone, Copy, PartialEq, Eq, Structural)]
pub struct Container {
    pub version: ContainerVersion,
    pub image_count: u32,
    pub freeimage_format: Option<FreeImageFormat>,
}

/// The format with the given number, if there is one.
pub open spec fn free_image_format_of(value: int) -> Option<FreeImageFormat> {
    if exists|f: FreeImageFormat| f.spec_number() == value {
        Some(choose|f: FreeImageFormat| f.spec_number() == value)
    } else {
        None
    }
}

/// The container's head that `rest` begins with, and what is left behind
/// it. Only the third version names an image format, and a number that is not
/// positive names none.
pub open spec fn container_of(rest: Seq<u8>) -> Result<(Container, Seq<u8>), TexError> {
    let body = behind_text(rest);
    match container_version_of(terminated_text(rest)) {
        None => Err(TexError::UnknownContainerVersion),
        Some(version) => if body.len() < 4 {
            Err(TexError::Read(ReadError::UnexpectedEof))
        } else if version != ContainerVersion::TEXB003 {
            Ok(
                (
                    Container {
                        version,
                        image_count: le_u32(body) as u32,
                        freeimage_format: None,
                    },
                    body.skip(4),
                ),
            )
        } else if body.len() < 8 {
            Err(TexError::Read(ReadError::UnexpectedEof))
        } else if le_i32(body.skip(4)) > 0 && free_image_format_of(le_i32(body.skip(4))) is None {
            Err(TexError::UnknownImageFormat)
        } else {
            Ok(
                (
                    Container {
                        version,
                        image_count: le_u32(body) as u32,
                        freeimage_format: if le_i32(body.skip(4)) > 0 {
                            free_image_format_of(le_i32(body.skip(4)))
                        } else {
                            None
                        },
                    },
                    body.skip(8),
                ),
            )
        },
    }
}

/// Reads the head of the image container: its tag, the number of images
/// and, in the third version, the format of the images.
pub fn read_container(cursor: &mut Cursor) -> (r: Result<Container, TexError>)
    ensures
        final(cursor).bytes() == old(cursor).bytes(),
        r is Ok <==> container_of(old(cursor).rest()) is Ok,
        r is Err ==> container_of(old(cursor).rest()) == Err::<(Container, Seq<u8>), TexError>(
            r->Err_0,
        ),
        r matches Ok(container) ==> {
            &&& container == container_of(old(cursor).rest())->Ok_0.0
            &&& final(cursor).rest() == container_of(old(cursor).rest())->Ok_0.1
        },
{
    let name: Vec<u8> = read_null_terminated_bytes(cursor);
    let version: ContainerVersion = match ContainerVersion::try_from(&name) {
        Some(v) => v,
        None => {
            return Err(TexError::UnknownContainerVersion);
        },
    };
    let ghost body = cursor.rest();
    let image_count: u32 = number(cursor)?;
    let freeimage_format: Option<FreeImageFormat> = match version {
        ContainerVersion::TEXB003 => {
            let format: i32 = match read_i32(cursor) {
                Ok(v) => v,
                Err(e) => {
                    return Err(TexError::Read(e));
                },
            };
            proof {
                assert(cursor.rest() =~= body.skip(8));
            }
            if format > 0 {
                match FreeImageFormat::try_from(format as u32) {
                    Some(f) => {
                        proof {
                            let g = choose|g: FreeImageFormat| g.spec_number() == format;
                            lemma_format_numbers_differ(f, g);
                        }
                        Some(f)
                    },
                    None => {
                        proof {
                            assert forall|g: FreeImageFormat| g.spec_number() != format by {
                                assert(0 <= g.spec_number() <= 36 && g.spec_number() != 27);
                            }
                        }
                        return Err(TexError::UnknownImageFormat);
                    },
                }
            } else {
                None
            }
        },
        _ => None,
    };
    Ok(Container { version, image_count, freeimage_format })
}

/// One size of an image.
#[derive(Debug, Clone)]
pub struct MipmapEntry {
    pub width: u32,
    pub height: u32,
    /// The pixels, decompressed.
    pub bytes: Vec<u8>,
}

/// A mipmap as a value.
pub struct MipmapSpec {
    pub width: u32,
    pub height: u32,
    pub bytes: Seq<u8>,
}

impl View for MipmapEntry {
    type V = MipmapSpec;

    open spec fn view(&self) -> MipmapSpec {
        MipmapSpec { width: self.width, height: self.height, bytes: self.bytes@ }
    }
}

/// What the file says of a mipmap, and the bytes that it holds for it.
pub struct MipmapLayout {
    pub width: u32,
    pub height: u32,
    pub compressed: bool,
    /// The size that the pixels have once decompressed; named from the
    /// second version of the container on.
    pub uncompressed_size: u32,
    pub stored: Seq<u8>,
}

/// What the LZ4 block decoder makes of `input` when it is given room for
/// `room` bytes; nothing where it reports an error.
pub uninterp spec fn lz4_block(input: Seq<u8>, room: nat) -> Option<Seq<u8>>;

/// The error of the LZ4 block decoder.
#[verifier::external_type_specification]
#[verifier::external_body]
pub struct ExDecompressError(lz4_flex::block::DecompressError);

/// Whether a block of `stored` bytes can be handed to the decoder with room
/// for `room` bytes: the room can be allocated, and no length that the
/// decoder adds up while it reads the block leaves the range of `usize`.
pub open spec fn decodable(stored: int, room: int) -> bool {
    &&& room <= isize::MAX
    &&& 255 * stored + room <= usize::MAX
}

/// Decodes an LZ4 block.
///
/// Trusted: `lz4_flex::decompress`, with the bounds-checked decoder that the
/// crate's default features select, depends on its two arguments alone and
/// returns either the decoded bytes or an error; it reports a block that does
/// not fit the room as an error.
#[verifier::external_body]
fn lz4_decompress(input: &Vec<u8>, room: usize) -> (r: Result<
    Vec<u8>,
    lz4_flex::block::DecompressError,
>)
    requires
        decodable(input@.len() as int, room as int),
    ensures
        r is Ok <==> lz4_block(input@, room as nat) is Some,
        r matches Ok(bytes) ==> Some(bytes@) == lz4_block(input@, room as nat),
{
    lz4_flex::decompress(input, room)
}

/// Whether `decodable` holds of a block of `stored` bytes and this room.
pub fn is_decodable(stored: usize, room: usize) -> (b: bool)
    ensures
        b == decodable(stored as int, room as int),
{
    room <= isize::MAX as usize && stored <= (usize::MAX - room) / 255
}

/// The pixels of a mipmap: its stored bytes, or, where they are compressed,
/// what the decoder makes of them, which must have the size that the file
/// names.
pub open spec fn pixels_of(layout: MipmapLayout) -> Result<Seq<u8>, TexError> {
    if !layout.compressed {
        Ok(layout.stored)
    } else if !decodable(layout.stored.len() as int, layout.uncompressed_size as int) {
        Err(TexError::TooLarge)
    } else {
        decoded_pixels(
            lz4_block(layout.stored, layout.uncompressed_size as nat),
            layout.uncompressed_size,
        )
    }
}

/// The pixels that the decoder's answer stands for.
pub open spec fn decoded_pixels(decoded: Option<Seq<u8>>, uncompressed_size: u32) -> Result<
    Seq<u8>,
    TexError,
> {
    match decoded {
        None => Err(TexError::Decompression),
        Some(bytes) => if bytes.len() != uncompressed_size {
            Err(TexError::SizeMismatch)
        } else {
            Ok(bytes)
        },
    }
}

/// The decoder's answer as a value.
pub open spec fn decoded_view(decoded: Option<Vec<u8>>) -> Option<Seq<u8>> {
    match decoded {
        Some(bytes) => Some(bytes@),
        None => None,
    }
}

/// Takes the decoder's answer for a mipmap: the answer must be there and
/// must have the size that the file names.
pub fn mipmap_from_decoded(
    width: u32,
    height: u32,
    uncompressed_size: u32,
    decoded: Option<Vec<u8>>,
) -> (r: Result<MipmapEntry, TexError>)
    ensures
        r is Ok <==> decoded_pixels(decoded_view(decoded), uncompressed_size) is Ok,
        r matches Ok(m) ==> Ok::<Seq<u8>, TexError>(m@.bytes) == decoded_pixels(
            decoded_view(decoded),
            uncompressed_size,
        ) && m@.width == width && m@.height == height,
        r is Err ==> decoded_pixels(decoded_view(decoded), uncompressed_size) == Err::<
            Seq<u8>,
            TexError,
        >(r->Err_0),
{
    match decoded {
        None => Err(TexError::Decompression),
        Some(bytes) => {
            if bytes.len() as u64 != uncompressed_size as u64 {
                Err(TexError::SizeMismatch)
            } else {
                Ok(MipmapEntry { width, height, bytes })
            }
        },
    }
}

/// The layout of the mipmap that `rest` begins with, and what is left behind
/// it. From the second version of the container on, a compression flag of 0
/// or 1 and the uncompressed size stand before the stored size. Of the stored
/// bytes as many are taken as the file holds.
pub open spec fn layout_of(rest: Seq<u8>, version: ContainerVersion) -> Result<
    (MipmapLayout, Seq<u8>),
    TexError,
> {
    let head = if version == ContainerVersion::TEXB001 {
        8int
    } else {
        16int
    };
    if rest.len() < 8 {
        Err(TexError::Read(ReadError::UnexpectedEof))
    } else if version != ContainerVersion::TEXB001 && rest.len() < 12 {
        Err(TexError::Read(ReadError::UnexpectedEof))
    } else if version != ContainerVersion::TEXB001 && le_u32(rest.skip(8)) > 1 {
        Err(TexError::BadCompressionFlag)
    } else if rest.len() < head + 4 {
        Err(TexError::Read(ReadError::UnexpectedEof))
    } else {
        let data = rest.skip(head + 4);
        let n = taken(data.len() as int, le_u32(rest.skip(head)));
        Ok(
            (
                MipmapLayout {
                    width: le_u32(rest) as u32,
                    height: le_u32(rest.skip(4)) as u32,
                    compressed: version != ContainerVersion::TEXB001 && le_u32(rest.skip(8)) == 1,
                    uncompressed_size: if version == ContainerVersion::TEXB001 {
                        0
                    } else {
                        le_u32(rest.skip(12)) as u32
                    },
                    stored: data.take(n),
                },
                data.skip(n),
            ),
        )
    }
}

/// The mipmap that `rest` begins with, and what is left behind it.
pub open spec fn mipmap_of(rest: Seq<u8>, version: ContainerVersion) -> Result<
    (MipmapSpec, Seq<u8>),
    TexError,
> {
    match layout_of(rest, version) {
        Err(e) => Err(e),
        Ok((layout, after)) => match pixels_of(layout) {
            Err(e) => Err(e),
            Ok(bytes) => Ok(
                (MipmapSpec { width: layout.width, height: layout.height, bytes }, after),
            ),
        },
    }
}

/// Reads one mipmap and decompresses its pixels where they are compressed.
pub fn read_mipmap(cursor: &mut Cursor, container_version: &ContainerVersion) -> (r: Result<
    MipmapEntry,
    TexError,
>)
    ensures
        final(cursor).bytes() == old(cursor).bytes(),
        r is Ok <==> mipmap_of(old(cursor).rest(), *container_version) is Ok,
        r is Err ==> mipmap_of(old(cursor).rest(), *container_version) == Err::<
            (MipmapSpec, Seq<u8>),
            TexError,
        >(r->Err_0),
        r matches Ok(mipmap) ==> {
            &&& mipmap@ == mipmap_of(old(cursor).rest(), *container_version)->Ok_0.0
            &&& final(cursor).rest() == mipmap_of(old(cursor).rest(), *container_version)->Ok_0.1
        },
{
    let ghost rest = cursor.rest();
    let width: u32 = number(cursor)?;
    let height: u32 = number(cursor)?;
    proof {
        assert(cursor.rest() =~= rest.skip(8));
    }
    let mut is_compressed: bool = false;
    let mut uncompressed_size: u32 = 0;
    match container_version {
        ContainerVersion::TEXB001 => {},
        _ => {
            let compression_flag: u32 = number(cursor)?;
            if compression_flag > 1 {
                return Err(TexError::BadCompressionFlag);
            }
            is_compressed = compression_flag != 0;
            proof {
                assert(cursor.rest() =~= rest.skip(12));
            }
            uncompressed_size = number(cursor)?;
            proof {
                assert(cursor.rest() =~= rest.skip(16));
            }
        },
    }
    let ghost head: int = if *container_version == ContainerVersion::TEXB001 {
        8int
    } else {
        16int
    };
    let image_size: u32 = number(cursor)?;
    proof {
        assert(cursor.rest() =~= rest.skip(head + 4));
    }
    let stored: Vec<u8> = cursor.take(image_size as usize);
    if !is_compressed {
        return Ok(MipmapEntry { width, height, bytes: stored });
    }
    if !is_decodable(stored.len(), uncompressed_size as usize) {
        return Err(TexError::TooLarge);
    }
    let decoded: Option<Vec<u8>> = match lz4_decompress(&stored, uncompressed_size as usize) {
        Ok(bytes) => Some(bytes),
        Err(_) => None,
    };
    mipmap_from_decoded(width, height, uncompressed_size, decoded)
}

/// The mipmaps as values.
pub open spec fn mipmap_views(mipmaps: Seq<MipmapEntry>) -> Seq<MipmapSpec> {
    mipmaps.map_values(|m: MipmapEntry| m@)
}

/// The images as values.
pub open spec fn image_views(images: Seq<Vec<MipmapEntry>>) -> Seq<Seq<MipmapSpec>> {
    images.map_values(|i: Vec<MipmapEntry>| mipmap_views(i@))
}

/// The first `count` mipmaps that `rest` begins with, and what is left
/// behind them.
pub open spec fn mipmaps_of(rest: Seq<u8>, version: ContainerVersion, count: nat) -> Result<
    (Seq<MipmapSpec>, Seq<u8>),
    TexError,
>
    decreases count,
{
    if count == 0 {
        Ok((Seq::empty(), rest))
    } else {
        match mipmap_of(rest, version) {
            Err(e) => Err(e),
            Ok((mipmap, after)) => match mipmaps_of(after, version, (count - 1) as nat) {
                Err(e) => Err(e),
                Ok((more, left)) => Ok((seq![mipmap] + more, left)),
            },
        }
    }
}

/// The image that `rest` begins with: the number of its mipmaps, then the
/// mipmaps.
pub open spec fn image_of(rest: Seq<u8>, version: ContainerVersion) -> Result<
    (Seq<MipmapSpec>, Seq<u8>),
    TexError,
> {
    if rest.len() < 4 {
        Err(TexError::Read(ReadError::UnexpectedEof))
    } else {
        mipmaps_of(rest.skip(4), version, le_u32(rest) as nat)
    }
}

/// The first `count` images that `rest` begins with, and what is left behind
/// them.
pub open spec fn images_of(rest: Seq<u8>, version: ContainerVersion, count: nat) -> Result<
    (Seq<Seq<MipmapSpec>>, Seq<u8>),
    TexError,
>
    decreases count,
{
    if count == 0 {
        Ok((Seq::empty(), rest))
    } else {
        match image_of(rest, version) {
            Err(e) => Err(e),
            Ok((image, after)) => match images_of(after, version, (count - 1) as nat) {
                Err(e) => Err(e),
                Ok((more, left)) => Ok((seq![image] + more, left)),
            },
        }
    }
}

/// The items `done` before the items of `more`.
pub open spec fn items_after<T>(done: Seq<T>, more: Result<(Seq<T>, Seq<u8>), TexError>) -> Result<
    (Seq<T>, Seq<u8>),
    TexError,
> {
    match more {
        Err(e) => Err(e),
        Ok((items, left)) => Ok((done + items, left)),
    }
}

/// Reads `count` mipmaps.
pub fn read_mipmaps(cursor: &mut Cursor, version: &ContainerVersion, count: u32) -> (r: Result<
    Vec<MipmapEntry>,
    TexError,
>)
    ensures
        final(cursor).bytes() == old(cursor).bytes(),
        r is Ok <==> mipmaps_of(old(cursor).rest(), *version, count as nat) is Ok,
        r is Err ==> mipmaps_of(old(cursor).rest(), *version, count as nat) == Err::<
            (Seq<MipmapSpec>, Seq<u8>),
            TexError,
        >(r->Err_0),
        r matches Ok(mipmaps) ==> {
            &&& mipmap_views(mipmaps@) == mipmaps_of(old(cursor).rest(), *version, count as nat)->Ok_0.0
            &&& final(cursor).rest() == mipmaps_of(old(cursor).rest(), *version, count as nat)->Ok_0.1
        },
{
    let mut entries: Vec<MipmapEntry> = Vec::new();
    let ghost rest = cursor.rest();
    let mut i: u32 = 0;
    proof {
        assert(mipmap_views(entries@) =~= Seq::<MipmapSpec>::empty());
        match mipmaps_of(rest, *version, count as nat) {
            Ok((items, left)) => {
                assert(Seq::<MipmapSpec>::empty() + items =~= items);
            },
            Err(_) => {},
        }
    }
    while i < count
        invariant
            i <= count,
            cursor.bytes() == old(cursor).bytes(),
            rest == old(cursor).rest(),
            entries@.len() == i,
            mipmaps_of(rest, *version, count as nat) == items_after(
                mipmap_views(entries@),
                mipmaps_of(cursor.rest(), *version, (count - i) as nat),
            ),
        decreases count - i,
    {
        let ghost here = cursor.rest();
        let ghost before = mipmap_views(entries@);
        let entry: MipmapEntry = match read_mipmap(cursor, version) {
            Ok(m) => m,
            Err(e) => {
                proof {
                    assert(mipmaps_of(here, *version, (count - i) as nat) == Err::<
                        (Seq<MipmapSpec>, Seq<u8>),
                        TexError,
                    >(e));
                }
                return Err(e);
            },
        };
        entries.push(entry);
        proof {
            assert(mipmap_views(entries@) =~= before + seq![entry@]);
            match mipmaps_of(cursor.rest(), *version, (count - i - 1) as nat) {
                Ok((items, left)) => {
                    assert(before + (seq![entry@] + items) =~= (before + seq![entry@]) + items);
                },
                Err(_) => {},
            }
        }
        i = i + 1;
    }
    proof {
        assert(mipmap_views(entries@) + Seq::<MipmapSpec>::empty() =~= mipmap_views(entries@));
    }
    Ok(entries)
}

/// Reads the images of a container, each with its mipmaps.
pub fn read_images(cursor: &mut Cursor, container: &Container) -> (r: Result<
    Vec<Vec<MipmapEntry>>,
    TexError,
>)
    ensures
        final(cursor).bytes() == old(cursor).bytes(),
        r is Ok <==> images_of(
            old(cursor).rest(),
            container.version,
            container.image_count as nat,
        ) is Ok,
        r is Err ==> images_of(old(cursor).rest(), container.version, container.image_count as nat)
            == Err::<(Seq<Seq<MipmapSpec>>, Seq<u8>), TexError>(r->Err_0),
        r matches Ok(images) ==> {
            &&& image_views(images@) == images_of(
                old(cursor).rest(),
                container.version,
                container.image_count as nat,
            )->Ok_0.0
            &&& final(cursor).rest() == images_of(
                old(cursor).rest(),
                container.version,
                container.image_count as nat,
            )->Ok_0.1
        },
{
    let mut images: Vec<Vec<MipmapEntry>> = Vec::new();
    let ghost rest = cursor.rest();
    let count: u32 = container.image_count;
    let version: ContainerVersion = container.version;
    let mut i: u32 = 0;
    proof {
        assert(image_views(images@) =~= Seq::<Seq<MipmapSpec>>::empty());
        match images_of(rest, version, count as nat) {
            Ok((items, left)) => {
                assert(Seq::<Seq<MipmapSpec>>::empty() + items =~= items);
            },
            Err(_) => {},
        }
    }
    while i < count
        invariant
            i <= count,
            cursor.bytes() == old(cursor).bytes(),
            rest == old(cursor).rest(),
            images@.len() == i,
            version == container.version,
            count == container.image_count,
            images_of(rest, version, count as nat) == items_after(
                image_views(images@),
                images_of(cursor.rest(), version, (count - i) as nat),
            ),
        decreases count - i,
    {
        let ghost here = cursor.rest();
        let ghost before = image_views(images@);
        let mipmap_count: u32 = match number(cursor) {
            Ok(n) => n,
            Err(e) => {
                proof {
                    assert(images_of(here, version, (count - i) as nat) == Err::<
                        (Seq<Seq<MipmapSpec>>, Seq<u8>),
                        TexError,
                    >(e));
                }
                return Err(e);
            },
        };
        let mipmap_entries: Vec<MipmapEntry> = match read_mipmaps(cursor, &version, mipmap_count) {
            Ok(m) => m,
            Err(e) => {
                proof {
                    assert(images_of(here, version, (count - i) as nat) == Err::<
                        (Seq<Seq<MipmapSpec>>, Seq<u8>),
                        TexError,
                    >(e));
                }
                return Err(e);
            },
        };
        let ghost image = mipmap_views(mipmap_entries@);
        images.push(mipmap_entries);
        proof {
            assert(image_views(images@) =~= before + seq![image]);
            match images_of(cursor.rest(), version, (count - i - 1) as nat) {
                Ok((items, left)) => {
                    assert(before + (seq![image] + items) =~= (before + seq![image]) + items);
                },
                Err(_) => {},
            }
        }
        i = i + 1;
    }
    proof {
        assert(image_views(images@) + Seq::<Seq<MipmapSpec>>::empty() =~= image_views(images@));
    }
    Ok(images)
}

/// Where one frame of a sprite sheet lies, as the file holds it: eight
/// 32-bit words. `frame_time` is the bit pattern of a float. The others but
/// `image_id` are signed integers in the first version of the frame
/// information and bit patterns of floats in the later ones.
#[derive(Debug, Clone, Copy)]
pub struct FrameInfo {
    pub image_id: i32,
    pub frame_time: u32,
    pub x: u32,
    pub y: u32,
    pub x_axis: (u32, u32),
    pub y_axis: (u32, u32),
}

/// The frames of a sprite sheet.
#[derive(Debug, Clone)]
pub struct FrameInfoContainer {
    pub version: FrameInfoContainerVersion,
    pub frame_infos: Vec<FrameInfo>,
    /// Width and height of a sprite; named in the third version only.
    pub sprite_size: Option<(u32, u32)>,
}

/// The frames of a sprite sheet, as a value.
pub struct FrameInfoSpec {
    pub version: FrameInfoContainerVersion,
    pub frame_infos: Seq<FrameInfo>,
    pub sprite_size: Option<(u32, u32)>,
}

impl View for FrameInfoContainer {
    type V = FrameInfoSpec;

    open spec fn view(&self) -> FrameInfoSpec {
        FrameInfoSpec {
            version: self.version,
            frame_infos: self.frame_infos@,
            sprite_size: self.sprite_size,
        }
    }
}

/// The word that stands `at` bytes into `rest`.
pub open spec fn word(rest: Seq<u8>, at: int) -> u32 {
    le_u32(rest.skip(at)) as u32
}

/// The frame that `rest` begins with, and what is left behind it.
pub open spec fn frame_of(rest: Seq<u8>) -> Result<(FrameInfo, Seq<u8>), TexError> {
    if rest.len() < 32 {
        Err(TexError::Read(ReadError::UnexpectedEof))
    } else {
        Ok(
            (
                FrameInfo {
                    image_id: le_i32(rest) as i32,
                    frame_time: word(rest, 4),
                    x: word(rest, 8),
                    y: word(rest, 12),
                    x_axis: (word(rest, 16), word(rest, 20)),
                    y_axis: (word(rest, 24), word(rest, 28)),
                },
                rest.skip(32),
            ),
        )
    }
}

/// The first `count` frames that `rest` begins with, and what is left behind
/// them.
pub open spec fn frames_of(rest: Seq<u8>, count: nat) -> Result<(Seq<FrameInfo>, Seq<u8>), TexError>
    decreases count,
{
    if count == 0 {
        Ok((Seq::empty(), rest))
    } else {
        match frame_of(rest) {
            Err(e) => Err(e),
            Ok((frame, after)) => match frames_of(after, (count - 1) as nat) {
                Err(e) => Err(e),
                Ok((more, left)) => Ok((seq![frame] + more, left)),
            },
        }
    }
}

/// The frame information that `rest` begins with, and what is left behind
/// it: the tag, the number of frames, in the third version the size of a
/// sprite, then the frames. A number of frames below zero counts as zero.
pub open spec fn frame_info_of(rest: Seq<u8>) -> Result<(FrameInfoSpec, Seq<u8>), TexError> {
    let body = behind_text(rest);
    match frame_info_version_of(terminated_text(rest)) {
        None => Err(TexError::UnknownFrameInfoVersion),
        Some(version) => {
            let sized = version == FrameInfoContainerVersion::TEXS0003;
            let head = if sized {
                12int
            } else {
                4int
            };
            if body.len() < head {
                Err(TexError::Read(ReadError::UnexpectedEof))
            } else {
                let count = if le_i32(body) > 0 {
                    le_i32(body) as nat
                } else {
                    0nat
                };
                match frames_of(body.skip(head), count) {
                    Err(e) => Err(e),
                    Ok((frames, left)) => Ok(
                        (
                            FrameInfoSpec {
                                version,
                                frame_infos: frames,
                                sprite_size: if sized {
                                    Some((word(body, 4), word(body, 8)))
                                } else {
                                    None
                                },
                            },
                            left,
                        ),
                    ),
                }
            }
        },
    }
}

/// Reads the eight words of one frame.
pub fn read_frame(cursor: &mut Cursor) -> (r: Result<FrameInfo, TexError>)
    ensures
        final(cursor).bytes() == old(cursor).bytes(),
        r is Ok <==> frame_of(old(cursor).rest()) is Ok,
        r is Err ==> r == Err::<FrameInfo, TexError>(TexError::Read(ReadError::UnexpectedEof)),
        r matches Ok(frame) ==> {
            &&& frame == frame_of(old(cursor).rest())->Ok_0.0
            &&& final(cursor).rest() == frame_of(old(cursor).rest())->Ok_0.1
        },
{
    let ghost rest = cursor.rest();
    if cursor.remaining() < 32 {
        return Err(TexError::Read(ReadError::UnexpectedEof));
    }
    let image_id: i32 = match read_i32(cursor) {
        Ok(v) => v,
        Err(e) => {
            return Err(TexError::Read(e));
        },
    };
    proof {
        assert(cursor.rest() =~= rest.skip(4));
    }
    let frame_time: u32 = number(cursor)?;
    proof {
        assert(cursor.rest() =~= rest.skip(8));
    }
    let x: u32 = number(cursor)?;
    proof {
        assert(cursor.rest() =~= rest.skip(12));
    }
    let y: u32 = number(cursor)?;
    proof {
        assert(cursor.rest() =~= rest.skip(16));
    }
    let x_axis_x: u32 = number(cursor)?;
    proof {
        assert(cursor.rest() =~= rest.skip(20));
    }
    let x_axis_y: u32 = number(cursor)?;
    proof {
        assert(cursor.rest() =~= rest.skip(24));
    }
    let y_axis_x: u32 = number(cursor)?;
    proof {
        assert(cursor.rest() =~= rest.skip(28));
    }
    let y_axis_y: u32 = number(cursor)?;
    proof {
        assert(cursor.rest() =~= rest.skip(32));
    }
    Ok(
        FrameInfo {
            image_id,
            frame_time,
            x,
            y,
            x_axis: (x_axis_x, x_axis_y),
            y_axis: (y_axis_x, y_axis_y),
        },
    )
}

/// Reads the frame information of a sprite sheet.
#[verifier::loop_isolation(false)]
pub fn read_frame_info(cursor: &mut Cursor) -> (r: Result<FrameInfoContainer, TexError>)
    ensures
        final(cursor).bytes() == old(cursor).bytes(),
        r is Ok <==> frame_info_of(old(cursor).rest()) is Ok,
        r is Err ==> frame_info_of(old(cursor).rest()) == Err::<
            (FrameInfoSpec, Seq<u8>),
            TexError,
        >(r->Err_0),
        r matches Ok(info) ==> {
            &&& info@ == frame_info_of(old(cursor).rest())->Ok_0.0
            &&& final(cursor).rest() == frame_info_of(old(cursor).rest())->Ok_0.1
        },
{
    let name: Vec<u8> = read_null_terminated_bytes(cursor);
    let version: FrameInfoContainerVersion = match FrameInfoContainerVersion::try_from(&name) {
        Some(v) => v,
        None => {
            return Err(TexError::UnknownFrameInfoVersion);
        },
    };
    let ghost body = cursor.rest();
    let ghost head: int = if version == FrameInfoContainerVersion::TEXS0003 {
        12int
    } else {
        4int
    };
    let frame_count: i32 = match read_i32(cursor) {
        Ok(v) => v,
        Err(e) => {
            return Err(TexError::Read(e));
        },
    };
    let sprite_size: Option<(u32, u32)> = match version {
        FrameInfoContainerVersion::TEXS0003 => {
            if cursor.remaining() < 8 {
                return Err(TexError::Read(ReadError::UnexpectedEof));
            }
            let width: u32 = number(cursor)?;
            proof {
                assert(cursor.rest() =~= body.skip(8));
            }
            let height: u32 = number(cursor)?;
            proof {
                assert(cursor.rest() =~= body.skip(12));
            }
            Some((width, height))
        },
        _ => None,
    };
    let count: u32 = if frame_count > 0 {
        frame_count as u32
    } else {
        0
    };
    let mut frames: Vec<FrameInfo> = Vec::new();
    let ghost start = cursor.rest();
    let mut i: u32 = 0;
    proof {
        assert(start == body.skip(head));
        match frames_of(start, count as nat) {
            Ok((items, left)) => {
                assert(Seq::<FrameInfo>::empty() + items =~= items);
            },
            Err(_) => {},
        }
    }
    while i < count
        invariant
            i <= count,
            cursor.bytes() == old(cursor).bytes(),
            frames@.len() == i,
            frames_of(start, count as nat) == items_after(
                frames@,
                frames_of(cursor.rest(), (count - i) as nat),
            ),
        decreases count - i,
    {
        let ghost here = cursor.rest();
        let ghost before = frames@;
        let frame: FrameInfo = match read_frame(cursor) {
            Ok(f) => f,
            Err(e) => {
                proof {
                    assert(frames_of(here, (count - i) as nat) == Err::<
                        (Seq<FrameInfo>, Seq<u8>),
                        TexError,
                    >(e));
                }
                return Err(e);
            },
        };
        frames.push(frame);
        proof {
            assert(frames@ =~= before + seq![frame]);
            match frames_of(cursor.rest(), (count - i - 1) as nat) {
                Ok((items, left)) => {
                    assert(before + (seq![frame] + items) =~= (before + seq![frame]) + items);
                },
                Err(_) => {},
            }
        }
        i = i + 1;
    }
    proof {
        assert(frames@ + Seq::<FrameInfo>::empty() =~= frames@);
    }
    Ok(FrameInfoContainer { version, frame_infos: frames, sprite_size })
}

/// A texture file, read.
pub struct TexFile {
    pub header: Header,
    pub container: Container,
    /// The images, each with its mipmaps.
    pub images: Vec<Vec<MipmapEntry>>,
    /// The frames, if the texture is a sprite sheet.
    pub frames_infos: Option<FrameInfoContainer>,
}

/// A texture file as a value.
pub struct TexSpec {
    pub header: Header,
    pub container: Container,
    pub images: Seq<Seq<MipmapSpec>>,
    pub frames_infos: Option<FrameInfoSpec>,
}

impl View for TexFile {
    type V = TexSpec;

    open spec fn view(&self) -> TexSpec {
        TexSpec {
            header: self.header,
            container: self.container,
            images: image_views(self.images@),
            frames_infos: match self.frames_infos {
                Some(info) => Some(info@),
                None => None,
            },
        }
    }
}

/// The frame information that follows the images, if the texture is a sprite
/// sheet, and what is left behind it.
pub open spec fn frames_part_of(header: Header, rest: Seq<u8>) -> Result<
    (Option<FrameInfoSpec>, Seq<u8>),
    TexError,
> {
    if header.texture_flags.spritesheet() {
        match frame_info_of(rest) {
            Err(e) => Err(e),
            Ok((info, left)) => Ok((Some(info), left)),
        }
    } else {
        Ok((None, rest))
    }
}

/// The texture file that the bytes are: head, container, images and, for a
/// sprite sheet, frames, with nothing behind them.
pub open spec fn tex_file_of(bytes: Seq<u8>) -> Result<TexSpec, TexError> {
    match header_of(bytes) {
        Err(e) => Err(e),
        Ok((header, a)) => match container_of(a) {
            Err(e) => Err(e),
            Ok((container, b)) => match images_of(
                b,
                container.version,
                container.image_count as nat,
            ) {
                Err(e) => Err(e),
                Ok((images, c)) => match frames_part_of(header, c) {
                    Err(e) => Err(e),
                    Ok((frames_infos, left)) => if left.len() != 0 {
                        Err(TexError::TrailingBytes)
                    } else {
                        Ok(TexSpec { header, container, images, frames_infos })
                    },
                },
            },
        },
    }
}

impl TexFile {
    /// Reads a texture file from its bytes.
    pub fn from_bytes(bytes: Vec<u8>) -> (r: Result<Self, TexError>)
        ensures
            r is Ok <==> tex_file_of(bytes@) is Ok,
            r is Err ==> tex_file_of(bytes@) == Err::<TexSpec, TexError>(r->Err_0),
            r matches Ok(file) ==> Ok::<TexSpec, TexError>(file@) == tex_file_of(bytes@),
    {
        let mut data: Cursor = Cursor::new(bytes);
        proof {
            assert(data.rest() =~= bytes@);
        }
        let header: Header = read_header(&mut data)?;
        let container: Container = read_container(&mut data)?;
        let images: Vec<Vec<MipmapEntry>> = read_images(&mut data, &container)?;
        let frames_infos: Option<FrameInfoContainer> = if header.texture_flags.is_spritesheet() {
            Some(read_frame_info(&mut data)?)
        } else {
            None
        };
        if data.remaining() != 0 {
            return Err(TexError::TrailingBytes);
        }
        Ok(TexFile { header, container, images, frames_infos })
    }
}

} // verus!
