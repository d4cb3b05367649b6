use omaview::image_loader::{decode_image, decode_image_file, generate_thumbnail, premultiply_rgba, BoundedCache, ImageCache};
use omaview::util::format_file_size;
use image::{DynamicImage, GenericImageView, Rgba, RgbaImage};
use omaview::image_ops::{apply_geometry, ImageEdits};
use omaview::paths::{normalize_path, same_path_bytes};

#[test]
fn test_rotation_cycle() {
    let mut edits = ImageEdits::default();
    assert_eq!(edits.rotation, 0);

    edits.rotate_cw();
    assert_eq!(edits.rotation, 90);

    edits.rotate_cw();
    assert_eq!(edits.rotation, 180);

    edits.rotate_cw();
    assert_eq!(edits.rotation, 270);

    edits.rotate_cw();
    assert_eq!(edits.rotation, 0);

    edits.rotate_ccw();
    assert_eq!(edits.rotation, 270);

    edits.rotate_ccw();
    assert_eq!(edits.rotation, 180);
}

#[test]
fn test_flip_toggles() {
    let mut edits = ImageEdits::default();
    assert!(!edits.flip_h);
    assert!(!edits.flip_v);

    edits.toggle_flip_h();
    assert!(edits.flip_h);

    edits.toggle_flip_v();
    assert!(edits.flip_v);

    edits.toggle_flip_h();
    assert!(!edits.flip_h);
}

#[test]
fn turns_undo_each_other() {
    for start in [0u16, 90, 180, 270] {
        let mut e = ImageEdits::default();
        e.rotation = start;
        e.rotate_cw();
        e.rotate_ccw();
        assert_eq!(e.rotation, start);
        e.rotate_ccw();
        e.rotate_cw();
        assert_eq!(e.rotation, start);
    }
}

#[test]
fn edits_and_reset() {
    let mut e = ImageEdits::default();
    assert!(!e.has_any_edits());
    e.rotate_cw();
    assert!(e.has_geometry_edits());
    assert!(e.has_any_edits());
    e.rotate_ccw();
    assert!(!e.has_geometry_edits());
    e.cropped = true;
    assert!(e.has_geometry_edits());
    e.adjusted = true;
    assert!(e.has_adjustments());
    e.reset_adjustments();
    assert!(!e.has_adjustments());
    assert!(e.has_any_edits());
    e.toggle_flip_v();
    e.reset_all();
    assert!(!e.has_any_edits());
    assert_eq!(e.rotation, 0);
    assert!(!e.flip_v);
}

#[test]
fn cache_evicts_least_recently_used_first() {
    let mut c: BoundedCache<u32> = BoundedCache::new(2);
    c.put(b"a".to_vec(), 1);
    c.put(b"b".to_vec(), 2);
    c.put(b"a".to_vec(), 10);
    assert_eq!(c.len(), 2);
    c.put(b"c".to_vec(), 3);
    assert_eq!(c.len(), 2);
    assert_eq!(c.get(b"b"), None);
    assert_eq!(c.get(b"a"), Some(&10));
    assert_eq!(c.get(b"c"), Some(&3));
    // Reading "a" keeps it: "c" is now the least recently used.
    assert_eq!(c.get(b"a"), Some(&10));
    c.put(b"d".to_vec(), 4);
    assert_eq!(c.get(b"c"), None);
    assert_eq!(c.get(b"a"), Some(&10));
    c.remove(b"a");
    assert_eq!(c.get(b"a"), None);
    assert_eq!(c.len(), 1);
    c.remove(b"zzz");
    assert_eq!(c.len(), 1);
}

#[test]
fn cache_read_after_write() {
    let mut c: BoundedCache<&str> = BoundedCache::new(1);
    c.put(b"/p/1.png".to_vec(), "one");
    assert_eq!(c.get(b"/p/1.png"), Some(&"one"));
    c.put(b"/p/2.png".to_vec(), "two");
    assert_eq!(c.get(b"/p/2.png"), Some(&"two"));
    assert_eq!(c.get(b"/p/1.png"), None);
}

#[test]
fn image_cache_keeps_images_and_thumbnails_apart() {
    let mut cache: ImageCache<u8, char> = ImageCache::new(2, 3);
    cache.put_image(b"x".to_vec(), 7);
    cache.put_thumbnail(b"x".to_vec(), 't');
    cache.put_thumbnail(b"y".to_vec(), 'u');
    assert_eq!(cache.get_image(b"x"), Some(&7));
    assert_eq!(cache.get_thumbnail(b"x"), Some(&'t'));
    assert_eq!(cache.get_image(b"y"), None);
    cache.put_image(b"y".to_vec(), 8);
    cache.put_image(b"z".to_vec(), 9);
    assert_eq!(cache.get_image(b"x"), None);
    assert_eq!(cache.get_thumbnail(b"x"), Some(&'t'));
    cache.remove(b"x");
    assert_eq!(cache.get_thumbnail(b"x"), None);
    assert_eq!(cache.get_thumbnail(b"y"), Some(&'u'));
    assert_eq!(cache.get_image(b"z"), Some(&9));
    assert_eq!(cache.get_image(b"y"), Some(&8));
}

#[test]
fn normal_forms_of_paths() {
    assert_eq!(normalize_path(b"/a/./b//"), b"/a/b".to_vec());
    assert_eq!(normalize_path(b"./x/"), b"./x".to_vec());
    assert_eq!(normalize_path(b"x/./y"), b"x/y".to_vec());
    assert_eq!(normalize_path(b"/"), b"/".to_vec());
    assert_eq!(normalize_path(b"//"), b"/".to_vec());
    assert_eq!(normalize_path(b""), b"".to_vec());
    assert_eq!(normalize_path(b"a/../b"), b"a/../b".to_vec());
    let spellings: [&[u8]; 9] = [b"a/b", b"a/./b", b"a//b/", b"/a/b", b"./a/b", b".", b"./", b"", b"/"];
    for a in spellings.iter() {
        for b in spellings.iter() {
            assert_eq!(same_path_bytes(a, b), normalize_path(a) == normalize_path(b));
        }
    }
}

#[test]
fn image_cache_reads_a_path_under_any_spelling() {
    let mut cache: ImageCache<u8, char> = ImageCache::new(2, 2);
    cache.put_image(b"a/b".to_vec(), 1);
    assert_eq!(cache.get_image(b"a/./b"), Some(&1));
    assert_eq!(cache.get_image(b"a//b/"), Some(&1));
    assert_eq!(cache.get_image(b"/a/b"), None);
    assert_eq!(cache.get_image(b"./a/b"), None);
    cache.put_image(b"a/b/".to_vec(), 2);
    assert_eq!(cache.get_image(b"a/b"), Some(&2));
    cache.put_thumbnail(b"/p//q.png".to_vec(), 'q');
    assert_eq!(cache.get_thumbnail(b"/p/./q.png"), Some(&'q'));
    cache.remove(b"/p/q.png/");
    assert_eq!(cache.get_thumbnail(b"/p//q.png"), None);
    assert_eq!(cache.get_image(b"a/b"), Some(&2));
}

fn reference_premultiply(r: u32, g: u32, b: u32, a: u32) -> u32 {
    if a == 255 {
        (255 << 24) | (r << 16) | (g << 8) | b
    } else if a == 0 {
        0
    } else {
        let pr = (r * a + 127) / 255;
        let pg = (g * a + 127) / 255;
        let pb = (b * a + 127) / 255;
        (a << 24) | (pr << 16) | (pg << 8) | pb
    }
}

#[test]
fn premultiply_known_pixels() {
    let raw = [10u8, 20, 30, 255, 200, 100, 50, 0, 255, 255, 255, 128, 1, 2];
    let words = premultiply_rgba(&raw);
    assert_eq!(words.len(), 3);
    assert_eq!(words[0], 0xff0a141e);
    assert_eq!(words[1], 0);
    assert_eq!(words[2], 0x80808080);
}

#[test]
fn premultiply_matches_bit_packing() {
    let mut raw = Vec::new();
    let mut x: u32 = 12345;
    for _ in 0..4000 {
        x = x.wrapping_mul(1103515245).wrapping_add(12345);
        raw.push((x >> 16) as u8);
    }
    for a in 0..=255u8 {
        raw.extend_from_slice(&[255, 128, 1, a]);
    }
    let words = premultiply_rgba(&raw);
    assert_eq!(words.len(), raw.len() / 4);
    for (i, w) in words.iter().enumerate() {
        let p = &raw[4 * i..4 * i + 4];
        assert_eq!(*w, reference_premultiply(p[0] as u32, p[1] as u32, p[2] as u32, p[3] as u32));
    }
}

fn gradient(w: u32, h: u32) -> DynamicImage {
    let mut img = RgbaImage::new(w, h);
    for (x, y, pixel) in img.enumerate_pixels_mut() {
        *pixel = Rgba([x as u8, y as u8, 128, 255]);
    }
    DynamicImage::ImageRgba8(img)
}

#[test]
fn crop_then_rotate_sizes() {
    // A 100x50 image cropped to its top-left 50x25 quarter, then turned a quarter.
    let mut edits = ImageEdits::default();
    edits.rotation = 90;
    let out = apply_geometry(&gradient(100, 50), Some((0, 0, 50, 25)), &edits);
    assert_eq!(out.dimensions(), (25, 50));
    edits.rotation = 180;
    let out = apply_geometry(&gradient(100, 50), Some((0, 0, 50, 25)), &edits);
    assert_eq!(out.dimensions(), (50, 25));
    edits.rotation = 270;
    let out = apply_geometry(&gradient(100, 50), None, &edits);
    assert_eq!(out.dimensions(), (50, 100));
}

#[test]
fn test_apply_crop_and_rotate() {
    // A 100x50 image; the crop keeps half its width and half its height from
    // the top-left corner, the pixel rectangle (0, 0, 50, 25); then a quarter turn.
    let mut edits = ImageEdits::default();
    edits.rotation = 90;
    let result = apply_geometry(&gradient(100, 50), Some((0, 0, 50, 25)), &edits);
    let (w, h) = result.dimensions();
    assert_eq!(w, 25);
    assert_eq!(h, 50);
    assert_eq!(result.get_pixel(0, 0), Rgba([0, 24, 128, 255]));
}

#[test]
fn crop_is_held_inside_the_image() {
    let edits = ImageEdits::default();
    let out = apply_geometry(&gradient(100, 50), Some((90, 40, 50, 50)), &edits);
    assert_eq!(out.dimensions(), (10, 10));
    assert_eq!(out.get_pixel(0, 0), Rgba([90, 40, 128, 255]));
    let out = apply_geometry(&gradient(100, 50), Some((200, 10, 5, 5)), &edits);
    assert_eq!(out.dimensions(), (0, 5));
}

#[test]
fn flips_and_turns_move_pixels() {
    let mut edits = ImageEdits::default();
    edits.flip_h = true;
    let out = apply_geometry(&gradient(3, 2), None, &edits);
    assert_eq!(out.get_pixel(0, 0), Rgba([2, 0, 128, 255]));
    edits.flip_h = false;
    edits.flip_v = true;
    let out = apply_geometry(&gradient(3, 2), None, &edits);
    assert_eq!(out.get_pixel(0, 0), Rgba([0, 1, 128, 255]));
    edits.flip_v = false;
    edits.rotation = 180;
    let out = apply_geometry(&gradient(3, 2), None, &edits);
    assert_eq!(out.get_pixel(0, 0), Rgba([2, 1, 128, 255]));
    edits.rotation = 90;
    let out = apply_geometry(&gradient(3, 2), None, &edits);
    assert_eq!(out.get_pixel(0, 0), Rgba([0, 1, 128, 255]));
    edits.rotation = 0;
    let out = apply_geometry(&gradient(3, 2), None, &edits);
    assert_eq!(out.get_pixel(2, 1), Rgba([2, 1, 128, 255]));
}

#[test]
fn crop_then_rotate_moves_the_matching_pixel() {
    let mut edits = ImageEdits::default();
    edits.rotation = 90;
    let out = apply_geometry(&gradient(100, 50), Some((0, 0, 50, 25)), &edits);
    assert_eq!(out.get_pixel(0, 0), Rgba([0, 24, 128, 255]));
    assert_eq!(out.get_pixel(24, 49), Rgba([49, 0, 128, 255]));
}

#[test]
fn no_edit_keeps_the_image() {
    let base = gradient(7, 5);
    let out = apply_geometry(&base, None, &ImageEdits::default());
    assert_eq!(out, base);
}

fn png_bytes(w: u32, h: u32) -> Vec<u8> {
    let mut bytes: Vec<u8> = Vec::new();
    gradient(w, h)
        .write_to(&mut std::io::Cursor::new(&mut bytes), image::ImageFormat::Png)
        .unwrap();
    bytes
}

#[test]
fn decoding_image_files() {
    let bytes = png_bytes(30, 20);
    let d = decode_image_file(&bytes).expect("a PNG");
    assert_eq!((d.width, d.height), (30, 20));
    assert_eq!(d.image.get_pixel(3, 4), Rgba([3, 4, 128, 255]));
    assert_eq!(d.file_size_formatted, format_file_size(bytes.len() as u64));
    assert!(decode_image_file(b"not an image").is_none());
    assert!(decode_image(&[]).is_none());
    assert_eq!(decode_image(&bytes).unwrap().dimensions(), (30, 20));
}

#[test]
fn thumbnails_fit_the_square() {
    let t = generate_thumbnail(&gradient(400, 100), 180);
    assert_eq!((t.width, t.height), (180, 45));
    assert_eq!(t.image.dimensions(), (180, 45));
}
