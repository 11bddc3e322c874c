use engine::texture::resolve_path;
use engine::texture_image::{decode_texture, format_for_channels};
use engine::{PixelFormat, ResourceError, Texture, TextureCache, TextureImage, TextureKind};

fn texture(id: u32, kind: TextureKind, path: &str) -> Texture {
    Texture { id, kind, path: path.to_string() }
}

#[test]
fn cached_texture_is_returned_each_time() {
    let mut cache = TextureCache::new();
    assert_eq!(cache.get("wall.png"), None);
    cache.insert(texture(5, TextureKind::Diffuse, "wall.png"));
    let first = cache.get("wall.png").unwrap();
    let second = cache.get("wall.png").unwrap();
    assert_eq!(first, second);
    assert_eq!(first.id, 5);
    assert_eq!(cache.len(), 1);
}

#[test]
fn caching_another_path_keeps_earlier_entry() {
    let mut cache = TextureCache::new();
    cache.insert(texture(5, TextureKind::Diffuse, "wall.png"));
    cache.insert(texture(6, TextureKind::Specular, "floor.png"));
    assert_eq!(cache.get("wall.png"), Some(texture(5, TextureKind::Diffuse, "wall.png")));
    assert_eq!(cache.get("floor.png"), Some(texture(6, TextureKind::Specular, "floor.png")));
    assert_eq!(cache.get("roof.png"), None);
    assert_eq!(cache.len(), 2);
    assert_eq!(cache.entry(1), &texture(6, TextureKind::Specular, "floor.png"));
}

#[test]
fn cache_release_hands_out_ids_once() {
    let mut cache = TextureCache::new();
    cache.insert(texture(5, TextureKind::Diffuse, "wall.png"));
    cache.insert(texture(6, TextureKind::Normal, "bump.png"));
    assert_eq!(cache.release(), vec![5, 6]);
    assert_eq!(cache.len(), 0);
    assert_eq!(cache.release(), Vec::<u32>::new());
}

#[test]
fn texture_path_is_resolved_against_directory() {
    assert_eq!(resolve_path("models/house", "wall.png"), "models/house/wall.png");
    assert_eq!(resolve_path("", "wall.png"), "/wall.png");
}

#[test]
fn kind_names_match_shader_convention() {
    assert_eq!(TextureKind::Diffuse.name(), "texture_diffuse");
    assert_eq!(TextureKind::Specular.name(), "texture_specular");
    assert_eq!(TextureKind::Normal.name(), "texture_normal");
}

#[test]
fn channel_counts_map_to_formats() {
    assert_eq!(format_for_channels(1), Ok(PixelFormat::Red));
    assert_eq!(format_for_channels(2), Ok(PixelFormat::Rg));
    assert_eq!(format_for_channels(3), Ok(PixelFormat::Rgb));
    assert_eq!(format_for_channels(4), Ok(PixelFormat::Rgba));
    assert_eq!(format_for_channels(0), Err(ResourceError::UnsupportedFormat));
}

#[test]
fn five_channels_are_unsupported() {
    assert_eq!(format_for_channels(5), Err(ResourceError::UnsupportedFormat));
    let r = TextureImage::from_parts(1, 1, 5, 5, vec![0; 5]);
    assert_eq!(r.err(), Some(ResourceError::UnsupportedFormat));
}

#[test]
fn wide_channels_are_unsupported() {
    let r = TextureImage::from_parts(1, 1, 3, 6, vec![0; 6]);
    assert_eq!(r.err(), Some(ResourceError::UnsupportedFormat));
}

#[test]
fn oversized_image_is_an_allocation_failure() {
    let r = TextureImage::from_parts(u32::MAX, 1, 4, 4, Vec::new());
    assert_eq!(r.err(), Some(ResourceError::GpuAllocationFailure));
}

#[test]
fn pixel_data_must_fill_image() {
    let r = TextureImage::from_parts(2, 2, 3, 3, vec![0; 11]);
    assert_eq!(r.err(), Some(ResourceError::UnsupportedFormat));
    let r = TextureImage::from_parts(0, 2, 3, 3, Vec::new());
    assert_eq!(r.err(), Some(ResourceError::UnsupportedFormat));
}

#[test]
fn image_parts_are_kept() {
    let img = TextureImage::from_parts(2, 1, 2, 2, vec![1, 2, 3, 4]).unwrap();
    assert_eq!(img.width(), 2);
    assert_eq!(img.height(), 1);
    assert_eq!(img.format(), PixelFormat::Rg);
    assert_eq!(img.pixels(), &vec![1, 2, 3, 4]);
}

#[test]
fn undecodable_bytes_are_unreadable() {
    let r = decode_texture(&[1, 2, 3, 4, 5]);
    assert_eq!(r.err(), Some(ResourceError::FileNotFound));
}

#[test]
fn decoded_image_is_flipped_vertically() {
    let mut img = image::RgbImage::new(1, 2);
    img.put_pixel(0, 0, image::Rgb([1, 2, 3]));
    img.put_pixel(0, 1, image::Rgb([4, 5, 6]));
    let mut bytes: Vec<u8> = Vec::new();
    image::DynamicImage::ImageRgb8(img)
        .write_to(&mut std::io::Cursor::new(&mut bytes), image::ImageFormat::Png)
        .unwrap();
    let t = decode_texture(&bytes).unwrap();
    assert_eq!(t.width(), 1);
    assert_eq!(t.height(), 2);
    assert_eq!(t.format(), PixelFormat::Rgb);
    assert_eq!(t.pixels(), &vec![4, 5, 6, 1, 2, 3]);
}

#[test]
fn decoded_gray_alpha_image_has_two_channels() {
    let img = image::GrayAlphaImage::new(3, 2);
    let mut bytes: Vec<u8> = Vec::new();
    image::DynamicImage::ImageLumaA8(img)
        .write_to(&mut std::io::Cursor::new(&mut bytes), image::ImageFormat::Png)
        .unwrap();
    let t = decode_texture(&bytes).unwrap();
    assert_eq!(t.format(), PixelFormat::Rg);
    assert_eq!(t.pixels().len(), 12);
}

#[test]
fn decoded_sixteen_bit_image_is_unsupported() {
    let img = image::ImageBuffer::<image::Rgb<u16>, Vec<u16>>::new(2, 2);
    let mut bytes: Vec<u8> = Vec::new();
    image::DynamicImage::ImageRgb16(img)
        .write_to(&mut std::io::Cursor::new(&mut bytes), image::ImageFormat::Png)
        .unwrap();
    assert_eq!(decode_texture(&bytes).err(), Some(ResourceError::UnsupportedFormat));
}
