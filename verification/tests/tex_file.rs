use waypaper_engine::file_reading_utils::{Cursor, ReadError};
use waypaper_engine::tex_file::{
    is_decodable, is_tag, mipmap_from_decoded, read_container, read_frame, read_frame_info,
    read_header, read_images, read_mipmap, read_mipmaps, Container, ContainerVersion,
    FrameInfoContainerVersion, FreeImageFormat, ImageFormat, TexError, TexFile, TextureFlags,
    TextureFormat, CLAMP_UVS, IS_SPRITESHEET, NO_INTERPOLATION,
};

fn words(values: &[u32]) -> Vec<u8> {
    values.iter().flat_map(|v| v.to_le_bytes()).collect()
}

fn header(format: u32, flags: u32) -> Vec<u8> {
    let mut out = b"TEXV0005\0TEXI0001\0".to_vec();
    out.extend_from_slice(&words(&[format, flags, 256, 128, 200, 100]));
    out.extend_from_slice(&[10, 20, 30, 40]);
    out
}

fn eof<T>() -> Result<T, TexError> {
    Err(TexError::Read(ReadError::UnexpectedEof))
}

#[test]
fn texture_format_numbers() {
    let known = [
        (0, TextureFormat::RGBA8888),
        (4, TextureFormat::DXT5),
        (6, TextureFormat::DXT3),
        (7, TextureFormat::DXT1),
        (8, TextureFormat::RG88),
        (9, TextureFormat::R8),
    ];
    for (n, f) in known {
        assert_eq!(TextureFormat::try_from(n), Some(f));
        assert_eq!(f.number(), n);
    }
    for n in [1, 2, 3, 5, 10, u32::MAX] {
        assert_eq!(TextureFormat::try_from(n), None);
    }
}

#[test]
fn texture_flags_know_three_bits() {
    assert_eq!(TextureFlags::from_bits(8), None);
    assert_eq!(TextureFlags::from_bits(u32::MAX), None);
    let f = TextureFlags::from_bits(5).unwrap();
    assert_eq!(f.bits(), 5);
    assert!(f.contains(NO_INTERPOLATION));
    assert!(!f.contains(CLAMP_UVS));
    assert!(f.contains(IS_SPRITESHEET));
    assert!(f.is_spritesheet());
    assert!(!TextureFlags::from_bits(3).unwrap().is_spritesheet());
    assert!(TextureFlags::from_bits(0).unwrap().contains(0));
}

#[test]
fn tags_are_eight_letters() {
    assert!(is_tag(&b"TEXB0002".to_vec(), b'B', b'2'));
    assert!(!is_tag(&b"TEXB0002".to_vec(), b'B', b'3'));
    assert!(!is_tag(&b"TEXB002".to_vec(), b'B', b'2'));
    assert!(!is_tag(&b"TEXB00020".to_vec(), b'B', b'2'));
    assert!(!is_tag(&b"texb0002".to_vec(), b'B', b'2'));
    assert_eq!(ContainerVersion::try_from(&b"TEXB0001".to_vec()), Some(ContainerVersion::TEXB001));
    assert_eq!(ContainerVersion::try_from(&b"TEXB0002".to_vec()), Some(ContainerVersion::TEXB002));
    assert_eq!(ContainerVersion::try_from(&b"TEXB0003".to_vec()), Some(ContainerVersion::TEXB003));
    assert_eq!(ContainerVersion::try_from(&b"TEXB0004".to_vec()), None);
    assert_eq!(ContainerVersion::try_from(&b"TEXS0001".to_vec()), None);
    assert_eq!(
        FrameInfoContainerVersion::try_from(&b"TEXS0001".to_vec()),
        Some(FrameInfoContainerVersion::TEXS0001)
    );
    assert_eq!(
        FrameInfoContainerVersion::try_from(&b"TEXS0002".to_vec()),
        Some(FrameInfoContainerVersion::TEXS0002)
    );
    assert_eq!(
        FrameInfoContainerVersion::try_from(&b"TEXS0003".to_vec()),
        Some(FrameInfoContainerVersion::TEXS0003)
    );
    assert_eq!(FrameInfoContainerVersion::try_from(&Vec::new()), None);
}

#[test]
fn free_image_format_numbers() {
    assert_eq!(FreeImageFormat::try_from(0), Some(FreeImageFormat::Bmp));
    assert_eq!(FreeImageFormat::try_from(13), Some(FreeImageFormat::Png));
    assert_eq!(FreeImageFormat::try_from(26), Some(FreeImageFormat::Hdr));
    assert_eq!(FreeImageFormat::try_from(27), None);
    assert_eq!(FreeImageFormat::try_from(28), Some(FreeImageFormat::Sgi));
    assert_eq!(FreeImageFormat::try_from(36), Some(FreeImageFormat::Jxr));
    assert_eq!(FreeImageFormat::try_from(37), None);
    for n in 0..40u32 {
        if let Some(f) = FreeImageFormat::try_from(n) {
            assert_eq!(f.number(), n);
        }
    }
}

#[test]
fn free_image_format_to_decoder_format() {
    assert_eq!(FreeImageFormat::Png.try_into(), Ok(ImageFormat::Png));
    assert_eq!(FreeImageFormat::Jpeg.try_into(), Ok(ImageFormat::Jpeg));
    assert_eq!(FreeImageFormat::Targa.try_into(), Ok(ImageFormat::Tga));
    assert_eq!(FreeImageFormat::Exr.try_into(), Ok(ImageFormat::OpenExr));
    for f in [
        FreeImageFormat::Pbm,
        FreeImageFormat::PbmRaw,
        FreeImageFormat::Pgm,
        FreeImageFormat::PgmRaw,
        FreeImageFormat::Ppm,
        FreeImageFormat::PpmRaw,
    ] {
        assert_eq!(f.try_into(), Ok(ImageFormat::Pnm));
    }
    for f in [FreeImageFormat::Jng, FreeImageFormat::Psd, FreeImageFormat::Jxr, FreeImageFormat::Raw]
    {
        assert_eq!(f.try_into(), Err(()));
    }
    let decodable = (0..37).filter_map(FreeImageFormat::try_from).filter(|f| FreeImageFormat::try_into(*f).is_ok());
    assert_eq!(decodable.count(), 17);
}

#[test]
fn header_is_read() {
    let mut data = header(4, 6);
    data.push(99);
    let mut c = Cursor::new(data);
    let h = read_header(&mut c).unwrap();
    assert_eq!(h.format, TextureFormat::DXT5);
    assert_eq!(h.texture_flags.bits(), 6);
    assert_eq!((h.texture_width, h.texture_height), (256, 128));
    assert_eq!((h.image_width, h.image_height), (200, 100));
    assert_eq!(h.dominant_color, (10, 20, 30, 40));
    assert_eq!(c.position(), 46);
    assert_eq!(c.remaining(), 1);
}

#[test]
fn header_errors() {
    let bad = |data: Vec<u8>| read_header(&mut Cursor::new(data)).err();
    assert_eq!(bad(Vec::new()), Some(TexError::BadMagic));
    assert_eq!(bad(b"TEXV0004\0TEXI0001\0".to_vec()), Some(TexError::BadMagic));
    assert_eq!(bad(b"TEXV0005\0TEXI0002\0".to_vec()), Some(TexError::BadMagic));
    assert_eq!(bad(b"TEXV0005\0TEXI0001".to_vec()), Some(TexError::BadMagic));
    assert_eq!(bad(b"TEXV0005\0TEXI0001\0\x04\0\0".to_vec()), eof::<()>().err());
    assert_eq!(bad(header(5, 0)), Some(TexError::UnknownTextureFormat));
    assert_eq!(bad(header(0, 8)), Some(TexError::UnknownTextureFlags));
    let mut short = header(0, 0);
    short.pop();
    assert_eq!(bad(short), eof::<()>().err());
    // the format is judged before the flags are read
    assert_eq!(
        bad(b"TEXV0005\0TEXI0001\0\x05\0\0\0".to_vec()),
        Some(TexError::UnknownTextureFormat)
    );
}

#[test]
fn container_is_read() {
    let mut data = b"TEXB0002\0".to_vec();
    data.extend_from_slice(&words(&[3, 77]));
    let mut c = Cursor::new(data);
    let k = read_container(&mut c).unwrap();
    assert_eq!(
        k,
        Container { version: ContainerVersion::TEXB002, image_count: 3, freeimage_format: None }
    );
    assert_eq!(c.remaining(), 4);

    let mut data = b"TEXB0003\0".to_vec();
    data.extend_from_slice(&words(&[1, 13]));
    let k = read_container(&mut Cursor::new(data)).unwrap();
    assert_eq!(k.version, ContainerVersion::TEXB003);
    assert_eq!(k.freeimage_format, Some(FreeImageFormat::Png));

    for none in [0u32, u32::MAX, 0x8000_0000] {
        let mut data = b"TEXB0003\0".to_vec();
        data.extend_from_slice(&words(&[1, none]));
        let k = read_container(&mut Cursor::new(data)).unwrap();
        assert_eq!(k.freeimage_format, None);
    }
}

#[test]
fn container_errors() {
    let bad = |data: Vec<u8>| read_container(&mut Cursor::new(data)).err();
    assert_eq!(bad(b"TEXB0009\0\0\0\0\0".to_vec()), Some(TexError::UnknownContainerVersion));
    assert_eq!(bad(b"TEXB0001\0\0\0\0".to_vec()), eof::<()>().err());
    let mut data = b"TEXB0003\0".to_vec();
    data.extend_from_slice(&words(&[1]));
    assert_eq!(bad(data.clone()), eof::<()>().err());
    data.extend_from_slice(&words(&[27]));
    assert_eq!(bad(data), Some(TexError::UnknownImageFormat));
    let mut data = b"TEXB0003\0".to_vec();
    data.extend_from_slice(&words(&[1, 37]));
    assert_eq!(bad(data), Some(TexError::UnknownImageFormat));
}

#[test]
fn plain_mipmap_of_the_first_version() {
    let mut data = words(&[4, 2, 3]);
    data.extend_from_slice(&[7, 8, 9, 10]);
    let mut c = Cursor::new(data);
    let m = read_mipmap(&mut c, &ContainerVersion::TEXB001).unwrap();
    assert_eq!((m.width, m.height), (4, 2));
    assert_eq!(m.bytes, vec![7, 8, 9]);
    assert_eq!(c.remaining(), 1);
}

#[test]
fn plain_mipmap_of_a_later_version() {
    let mut data = words(&[4, 2, 0, 999, 2]);
    data.extend_from_slice(&[7, 8, 9]);
    let mut c = Cursor::new(data);
    let m = read_mipmap(&mut c, &ContainerVersion::TEXB003).unwrap();
    assert_eq!(m.bytes, vec![7, 8]);
    assert_eq!(c.remaining(), 1);
}

#[test]
fn stored_bytes_may_fall_short() {
    let mut data = words(&[1, 1, 10]);
    data.extend_from_slice(&[7, 8]);
    let mut c = Cursor::new(data);
    let m = read_mipmap(&mut c, &ContainerVersion::TEXB001).unwrap();
    assert_eq!(m.bytes, vec![7, 8]);
    assert_eq!(c.remaining(), 0);
}

#[test]
fn compressed_mipmap_is_decompressed() {
    let pixels: Vec<u8> = (0..200u32).map(|i| (i % 7) as u8).collect();
    let packed = lz4_flex::compress(&pixels);
    assert!(packed.len() < pixels.len());
    let mut data = words(&[10, 5, 1, pixels.len() as u32, packed.len() as u32]);
    data.extend_from_slice(&packed);
    data.push(0xee);
    let mut c = Cursor::new(data);
    let m = read_mipmap(&mut c, &ContainerVersion::TEXB002).unwrap();
    assert_eq!((m.width, m.height), (10, 5));
    assert_eq!(m.bytes, pixels);
    assert_eq!(c.remaining(), 1);
}

#[test]
fn compressed_mipmap_errors() {
    let pixels = vec![5u8; 64];
    let packed = lz4_flex::compress(&pixels);
    let read = |sizes: [u32; 2], body: &[u8]| {
        let mut data = words(&[1, 1, 1, sizes[0], sizes[1]]);
        data.extend_from_slice(body);
        read_mipmap(&mut Cursor::new(data), &ContainerVersion::TEXB003).err()
    };
    // room for more than the block holds
    assert_eq!(read([65, packed.len() as u32], &packed), Some(TexError::SizeMismatch));
    // room for less than the block holds
    assert_eq!(read([63, packed.len() as u32], &packed), Some(TexError::Decompression));
    // a block cut short
    assert_eq!(
        read([64, packed.len() as u32 - 1], &packed[..packed.len() - 1]),
        Some(TexError::Decompression)
    );
    assert_eq!(read([4, 3], &[0xf0, 1, 2]), Some(TexError::Decompression));
}

#[test]
fn mipmap_layout_errors() {
    let read = |version: ContainerVersion, data: Vec<u8>| {
        read_mipmap(&mut Cursor::new(data), &version).err()
    };
    assert_eq!(read(ContainerVersion::TEXB001, words(&[1])), eof::<()>().err());
    assert_eq!(read(ContainerVersion::TEXB001, words(&[1, 1])), eof::<()>().err());
    assert_eq!(read(ContainerVersion::TEXB002, words(&[1, 1])), eof::<()>().err());
    assert_eq!(
        read(ContainerVersion::TEXB002, words(&[1, 1, 2])),
        Some(TexError::BadCompressionFlag)
    );
    assert_eq!(read(ContainerVersion::TEXB002, words(&[1, 1, 1])), eof::<()>().err());
    assert_eq!(read(ContainerVersion::TEXB002, words(&[1, 1, 1, 5])), eof::<()>().err());
    assert_eq!(read(ContainerVersion::TEXB001, words(&[1, 1, 0])), None);
}

#[test]
fn decoder_answer_is_checked() {
    let m = mipmap_from_decoded(3, 4, 2, Some(vec![1, 2])).unwrap();
    assert_eq!((m.width, m.height, m.bytes), (3, 4, vec![1, 2]));
    assert_eq!(mipmap_from_decoded(3, 4, 2, None).err(), Some(TexError::Decompression));
    assert_eq!(mipmap_from_decoded(3, 4, 2, Some(vec![1])).err(), Some(TexError::SizeMismatch));
    assert_eq!(mipmap_from_decoded(3, 4, 0, Some(vec![1])).err(), Some(TexError::SizeMismatch));
    assert!(mipmap_from_decoded(3, 4, 0, Some(Vec::new())).is_ok());
}

#[test]
fn decodable_sizes() {
    assert!(is_decodable(0, 0));
    assert!(is_decodable(1 << 20, 1 << 24));
    assert!(!is_decodable(0, usize::MAX));
    assert!(!is_decodable(usize::MAX / 255 + 1, 0));
    assert!(is_decodable(usize::MAX / 255, 0));
    assert!(!is_decodable(usize::MAX / 255, 255));
}

#[test]
fn images_hold_their_mipmaps() {
    let mut data = words(&[2]);
    data.extend_from_slice(&words(&[2, 2, 1]));
    data.push(0xaa);
    data.extend_from_slice(&words(&[1, 1, 2]));
    data.extend_from_slice(&[0xbb, 0xcc]);
    data.extend_from_slice(&words(&[0]));
    data.extend_from_slice(&[0xdd]);
    let container =
        Container { version: ContainerVersion::TEXB001, image_count: 2, freeimage_format: None };
    let mut c = Cursor::new(data.clone());
    let images = read_images(&mut c, &container).unwrap();
    assert_eq!(images.len(), 2);
    assert_eq!(images[0].len(), 2);
    assert_eq!(images[0][0].bytes, vec![0xaa]);
    assert_eq!(images[0][1].bytes, vec![0xbb, 0xcc]);
    assert_eq!((images[0][1].width, images[0][1].height), (1, 1));
    assert!(images[1].is_empty());
    assert_eq!(c.remaining(), 1);

    let three = Container { image_count: 3, ..container };
    assert_eq!(read_images(&mut Cursor::new(data.clone()), &three).err(), eof::<()>().err());
    let none = Container { image_count: 0, ..container };
    let mut c = Cursor::new(data.clone());
    assert!(read_images(&mut c, &none).unwrap().is_empty());
    assert_eq!(c.position(), 0);

    let mut c = Cursor::new(data[4..].to_vec());
    let mipmaps = read_mipmaps(&mut c, &ContainerVersion::TEXB001, 2).unwrap();
    assert_eq!(mipmaps.len(), 2);
    assert_eq!(c.position(), 27);
    let mut c = Cursor::new(words(&[1, 1, 0, 0, 0, 1, 1, 7]));
    assert_eq!(
        read_mipmaps(&mut c, &ContainerVersion::TEXB002, 2).err(),
        Some(TexError::BadCompressionFlag)
    );
}

#[test]
fn frame_is_eight_words() {
    let mut data = words(&[0xffff_fffe, 0x3fc0_0000, 1, 2, 3, 4, 5, 6]);
    data.push(9);
    let mut c = Cursor::new(data);
    let f = read_frame(&mut c).unwrap();
    assert_eq!(f.image_id, -2);
    assert_eq!(f32::from_bits(f.frame_time), 1.5);
    assert_eq!((f.x, f.y), (1, 2));
    assert_eq!(f.x_axis, (3, 4));
    assert_eq!(f.y_axis, (5, 6));
    assert_eq!(c.position(), 32);
    assert_eq!(read_frame(&mut c).err(), eof::<()>().err());
    assert_eq!(c.position(), 32);
    assert_eq!(read_frame(&mut Cursor::new(vec![0; 31])).err(), eof::<()>().err());
}

#[test]
fn frame_info_of_each_version() {
    let frames = words(&[0, 10, 1, 2, 3, 4, 5, 6, 1, 20, 7, 8, 9, 10, 11, 12]);
    let mut data = b"TEXS0002\0".to_vec();
    data.extend_from_slice(&words(&[2]));
    data.extend_from_slice(&frames);
    data.push(1);
    let mut c = Cursor::new(data);
    let info = read_frame_info(&mut c).unwrap();
    assert_eq!(info.version, FrameInfoContainerVersion::TEXS0002);
    assert_eq!(info.sprite_size, None);
    assert_eq!(info.frame_infos.len(), 2);
    assert_eq!(info.frame_infos[1].image_id, 1);
    assert_eq!(info.frame_infos[1].frame_time, 20);
    assert_eq!(info.frame_infos[1].y_axis, (11, 12));
    assert_eq!(c.remaining(), 1);

    let mut data = b"TEXS0003\0".to_vec();
    data.extend_from_slice(&words(&[1, 64, 32]));
    data.extend_from_slice(&frames[..32]);
    let info = read_frame_info(&mut Cursor::new(data)).unwrap();
    assert_eq!(info.sprite_size, Some((64, 32)));
    assert_eq!(info.frame_infos.len(), 1);
    assert_eq!(info.frame_infos[0].x_axis, (3, 4));

    let mut data = b"TEXS0001\0".to_vec();
    data.extend_from_slice(&words(&[0xffff_ffff]));
    let mut c = Cursor::new(data);
    let info = read_frame_info(&mut c).unwrap();
    assert!(info.frame_infos.is_empty());
    assert_eq!(c.remaining(), 0);
}

#[test]
fn frame_info_errors() {
    let bad = |data: Vec<u8>| read_frame_info(&mut Cursor::new(data)).err();
    assert_eq!(bad(b"TEXS0004\0".to_vec()), Some(TexError::UnknownFrameInfoVersion));
    assert_eq!(bad(b"TEXS0001\0\x01\0\0".to_vec()), eof::<()>().err());
    let mut data = b"TEXS0003\0".to_vec();
    data.extend_from_slice(&words(&[0, 1]));
    assert_eq!(bad(data), eof::<()>().err());
    let mut data = b"TEXS0001\0".to_vec();
    data.extend_from_slice(&words(&[1, 0, 0, 0, 0, 0, 0, 0]));
    assert_eq!(bad(data), eof::<()>().err());
}

fn tex_file(flags: u32, with_frames: bool, trailing: &[u8]) -> Vec<u8> {
    let pixels: Vec<u8> = (0..96u32).map(|i| (i / 8) as u8).collect();
    let packed = lz4_flex::compress(&pixels);
    let mut data = header(0, flags);
    data.extend_from_slice(b"TEXB0003\0");
    data.extend_from_slice(&words(&[1, 13]));
    data.extend_from_slice(&words(&[2]));
    data.extend_from_slice(&words(&[8, 4, 1, 96, packed.len() as u32]));
    data.extend_from_slice(&packed);
    data.extend_from_slice(&words(&[4, 2, 0, 0, 3]));
    data.extend_from_slice(&[1, 2, 3]);
    if with_frames {
        data.extend_from_slice(b"TEXS0003\0");
        data.extend_from_slice(&words(&[1, 16, 16]));
        data.extend_from_slice(&words(&[0, 0x3f80_0000, 0, 0, 16, 0, 0, 16]));
    }
    data.extend_from_slice(trailing);
    data
}

#[test]
fn whole_texture_file() {
    let t = TexFile::from_bytes(tex_file(2, false, &[])).ok().unwrap();
    assert_eq!(t.header.format, TextureFormat::RGBA8888);
    assert_eq!(t.container.freeimage_format, Some(FreeImageFormat::Png));
    assert_eq!(t.images.len(), 1);
    assert_eq!(t.images[0].len(), 2);
    assert_eq!(t.images[0][0].bytes.len(), 96);
    assert_eq!(t.images[0][0].bytes[95], 11);
    assert_eq!(t.images[0][1].bytes, vec![1, 2, 3]);
    assert!(t.frames_infos.is_none());
}

#[test]
fn whole_sprite_sheet() {
    let t = TexFile::from_bytes(tex_file(4, true, &[])).ok().unwrap();
    let info = t.frames_infos.unwrap();
    assert_eq!(info.sprite_size, Some((16, 16)));
    assert_eq!(info.frame_infos.len(), 1);
    assert_eq!(f32::from_bits(info.frame_infos[0].frame_time), 1.0);
}

#[test]
fn whole_file_errors() {
    let err = |data: Vec<u8>| TexFile::from_bytes(data).err();
    assert_eq!(err(tex_file(2, false, &[0])), Some(TexError::TrailingBytes));
    // frames behind a texture that is no sprite sheet are trailing bytes
    assert_eq!(err(tex_file(2, true, &[])), Some(TexError::TrailingBytes));
    // a sprite sheet without frames
    assert_eq!(err(tex_file(4, false, &[])), Some(TexError::UnknownFrameInfoVersion));
    assert_eq!(err(tex_file(4, true, &[0])), Some(TexError::TrailingBytes));
    assert_eq!(err(Vec::new()), Some(TexError::BadMagic));
    assert_eq!(err(header(0, 0)), Some(TexError::UnknownContainerVersion));
    let mut cut = tex_file(2, false, &[]);
    cut.truncate(60);
    assert_eq!(err(cut), eof::<()>().err());
}
