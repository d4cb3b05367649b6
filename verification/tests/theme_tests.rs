use omaview::albums::{
    add_album_entry, album_heading, albums_or_default, config_path_from, remove_album_entries, AlbumConfig,
};
use omaview::metadata::{exif_info_from_displays, extract_exif, image_detail_rows, metadata_label_text};
use omaview::theme::{
    builtin_theme, css_colors_cut_cleanly, generate_css, hex_color_cuts_cleanly, parse_hex_rgb,
    theme_or_builtin, OmarchyColors,
};
use omaview::util::position_of;

#[test]
fn hex_colors() {
    assert_eq!(parse_hex_rgb("#7aa2f7"), Some((122, 162, 247)));
    assert_eq!(parse_hex_rgb("  ##1A1b26\n"), Some((26, 27, 38)));
    assert_eq!(parse_hex_rgb("ffffff"), Some((255, 255, 255)));
    assert_eq!(parse_hex_rgb("#fff"), None);
    assert_eq!(parse_hex_rgb("#12345g"), None);
    assert_eq!(parse_hex_rgb("#1234567"), None);
    assert_eq!(parse_hex_rgb("+1+2+3"), Some((1, 2, 3)));
    assert_eq!(parse_hex_rgb(""), None);
    assert!(hex_color_cuts_cleanly("#7aa2f7"));
    assert!(hex_color_cuts_cleanly("é"));
    assert!(!hex_color_cuts_cleanly("aé123"));
}

#[test]
fn builtin_theme_is_tokyo_night() {
    let t = builtin_theme();
    assert_eq!(t.mode.as_deref(), Some("dark"));
    assert_eq!(t.accent.as_deref(), Some("#7aa2f7"));
    assert_eq!(t.dark_background.as_deref(), Some("#13141c"));
    assert_eq!(t.magenta.as_deref(), Some("#ad8ee6"));
    let mut own = OmarchyColors::default();
    own.accent = Some("#ff0000".to_string());
    let chosen = theme_or_builtin(Some(own));
    assert_eq!(chosen.accent.as_deref(), Some("#ff0000"));
    assert_eq!(chosen.background, None);
    assert_eq!(theme_or_builtin(None).red.as_deref(), Some("#f7768e"));
}

#[test]
fn css_for_the_builtin_theme() {
    let t = builtin_theme();
    assert!(css_colors_cut_cleanly(&t));
    let css = generate_css(&t);
    assert!(css.starts_with("\n:root {\n  @define-color destructive_color #f7768e;"));
    assert!(css.contains("  --accent: #7aa2f7;\n  --accent-r: 122;\n"));
    assert!(css.contains("  --accent-g: 162;\n  --accent-b: 247;\n"));
    assert!(css.contains("  --pill-bg: rgba(19, 20, 28, 0.80);"));
    assert!(css.contains("background: rgba(122, 162, 247, 0.12);"));
    assert!(css.contains("background-color: rgba(247, 118, 142, 0.85);"));
    assert!(css.ends_with("  opacity: 1.0;\n}\n"));
}

#[test]
fn css_falls_back_for_missing_and_broken_colors() {
    let mut c = OmarchyColors::default();
    c.accent = Some("blue".to_string());
    c.red = Some("#zzzzzz".to_string());
    assert!(css_colors_cut_cleanly(&c));
    let css = generate_css(&c);
    assert!(css.contains("  --accent: blue;\n  --accent-r: 122;\n  --accent-g: 163;\n  --accent-b: 247;\n"));
    assert!(css.contains("  --bg: #1a1b26;"));
    assert!(css.contains("  --pill-bg: rgba(19, 20, 28, 0.80);"));
    assert!(css.contains("background: rgba(122, 163, 247, 0.12);"));
    assert!(css.contains("background-color: rgba(247, 117, 143, 0.85);"));
    let mut d = OmarchyColors::default();
    d.dark_background = Some("oops".to_string());
    let css = generate_css(&d);
    assert!(css.contains("  --window-bg: oops;\n  --pill-bg: rgba(18, 20, 28, 0.80);"));
}

#[test]
fn css_for_the_default_colors() {
    let css = generate_css(&OmarchyColors::default());
    assert!(css.contains("--accent: #7aa2f7;"));
    assert!(css.contains("--accent-r: 122;"));
    assert!(css.contains("--accent-g: 162;"));
    assert!(css.contains("--accent-b: 247;"));
    assert!(css.contains("background: rgba(122, 162, 247, 0.12);"));
    assert!(css.contains("--pill-bg: rgba(19, 20, 28, 0.80);"));
    assert!(css.contains("background-color: rgba(247, 118, 142, 0.85);"));
}

#[test]
fn css_writes_accent_bytes_exactly() {
    let mut c = OmarchyColors::default();
    c.accent = Some("#ff0000".to_string());
    c.dark_background = Some("#000000".to_string());
    c.red = Some("#00ff00".to_string());
    let css = generate_css(&c);
    assert!(css.contains("--accent: #ff0000;"));
    assert!(css.contains("--accent-r: 255;"));
    assert!(css.contains("--accent-g: 0;"));
    assert!(css.contains("--accent-b: 0;"));
    assert!(css.contains("background: rgba(255, 0, 0, 0.12);"));
    assert!(css.contains("--dark-bg: #000000;"));
    assert!(css.contains("--window-bg: #000000;"));
    assert!(css.contains("--pill-bg: rgba(0, 0, 0, 0.80);"));
    assert!(css.contains("@define-color destructive_color #00ff00;"));
    assert!(css.contains("background-color: rgba(0, 255, 0, 0.85);"));
    c.accent = Some("#01fe80".to_string());
    let css = generate_css(&c);
    assert!(css.contains("--accent-r: 1;\n  --accent-g: 254;\n  --accent-b: 128;"));
    assert!(css.contains("rgba(1, 254, 128, 0.35)"));
}

#[test]
fn css_keeps_unreadable_colors_verbatim() {
    let mut c = OmarchyColors::default();
    c.accent = Some("blue".to_string());
    c.dark_background = Some("#12345".to_string());
    c.red = Some("#gg0000".to_string());
    assert!(css_colors_cut_cleanly(&c));
    let css = generate_css(&c);
    assert!(css.contains("--accent: blue;"));
    assert!(css.contains("--accent-r: 122;"));
    assert!(css.contains("--accent-g: 163;"));
    assert!(css.contains("--accent-b: 247;"));
    assert!(css.contains("rgba(122, 163, 247, 0.12)"));
    assert!(css.contains("--dark-bg: #12345;"));
    assert!(css.contains("--pill-bg: rgba(18, 20, 28, 0.80);"));
    assert!(css.contains("@define-color destructive_color #gg0000;"));
    assert!(css.contains("rgba(247, 117, 143, 0.85)"));
}

#[test]
fn broken_multibyte_colors_are_reported() {
    let mut c = OmarchyColors::default();
    c.red = Some("a€12".to_string());
    assert!(!css_colors_cut_cleanly(&c));
}

#[test]
fn config_locations() {
    assert_eq!(config_path_from(Some("/x/cfg"), Some("/home/u")), "/x/cfg/omaview/albums.toml");
    assert_eq!(config_path_from(Some("/x/cfg/"), None), "/x/cfg/omaview/albums.toml");
    assert_eq!(config_path_from(None, Some("/home/u")), "/home/u/.config/omaview/albums.toml");
    assert_eq!(config_path_from(None, None), "albums.toml");
}

#[test]
fn stored_albums_or_default() {
    let stored = AlbumConfig { albums: vec!["/a".to_string(), "/b".to_string()] };
    assert_eq!(albums_or_default(Some(stored), "/home/u/Pictures".to_string()), (vec!["/a".to_string(), "/b".to_string()], false));
    let empty = AlbumConfig { albums: vec![] };
    assert_eq!(albums_or_default(Some(empty), "/p".to_string()), (vec!["/p".to_string()], true));
    assert_eq!(albums_or_default(None, "/p".to_string()), (vec!["/p".to_string()], true));
}

#[test]
fn adding_and_removing_albums() {
    let mut albums = vec!["/photos".to_string()];
    let mut canonical = vec!["/data/photos".to_string()];
    assert!(!add_album_entry(&mut albums, &mut canonical, "/link".to_string(), "/data/photos".to_string()));
    assert_eq!(albums.len(), 1);
    assert!(add_album_entry(&mut albums, &mut canonical, "/trips".to_string(), "/data/trips".to_string()));
    assert_eq!(albums, vec!["/photos".to_string(), "/trips".to_string()]);
    let left = remove_album_entries(&albums, &canonical, &"/data/trips".to_string());
    assert_eq!(left, vec!["/photos".to_string()]);
    let all = remove_album_entries(&albums, &canonical, &"/elsewhere".to_string());
    assert_eq!(all, albums);
    assert!(!add_album_entry(&mut albums, &mut canonical, "/again".to_string(), "/data/./trips/".to_string()));
    let left = remove_album_entries(&albums, &canonical, &"/data//photos/".to_string());
    assert_eq!(left, vec!["/trips".to_string()]);
}

#[test]
fn album_headings() {
    let h = album_heading("/home/u/Pictures", 12);
    assert_eq!(h.title, "Pictures");
    assert_eq!(h.badge, "12 photos");
    assert!(h.can_open);
    let h = album_heading("/", 0);
    assert_eq!(h.title, "Album");
    assert_eq!(h.badge, "0 photos");
    assert!(!h.can_open);
}

#[test]
fn opened_file_position() {
    let listing = vec![b"/p/a.png".to_vec(), b"/p/b.png".to_vec(), b"/p/b.png".to_vec()];
    assert_eq!(position_of(&listing, b"/p/b.png"), Some(1));
    assert_eq!(position_of(&listing, b"/p/c.png"), None);
    assert_eq!(position_of(&listing, b"/p/./b.png"), Some(1));
    assert_eq!(position_of(&Vec::new(), b""), None);
}

#[test]
fn metadata_pill_text() {
    assert_eq!(metadata_label_text("a&amp;b.png", 640, 480, 100, 0, 3), "a&amp;b.png | 640x480 | 100% | 1/3");
    assert_eq!(metadata_label_text("x", 1, 2, 3, 4, 0), "No image open");
}

#[test]
fn exif_details_from_displayed_values() {
    let info = exif_info_from_displays(
        Some("\"Canon\"".to_string()),
        Some("\"EOS R\"".to_string()),
        None,
        Some("50 mm".to_string()),
        Some("1.8".to_string()),
        Some("1/200".to_string()),
        Some("400".to_string()),
        Some("2024-05-01 10:00:00".to_string()),
    );
    assert_eq!(info.make.as_deref(), Some("Canon"));
    assert_eq!(info.model.as_deref(), Some("EOS R"));
    assert_eq!(info.lens, None);
    assert_eq!(info.aperture.as_deref(), Some("f/1.8"));
    assert_eq!(info.exposure_time.as_deref(), Some("1/200s"));
    assert_eq!(info.iso.as_deref(), Some("ISO 400"));
    let rows = image_detail_rows(Some("pic.jpeg"), 4000, 3000, "2.5 MB", Some("jpeg"), Some(info));
    let expect: Vec<(String, String)> = vec![
        ("File Name", "pic.jpeg"),
        ("Dimensions", "4000 × 3000 px"),
        ("File Size", "2.5 MB"),
        ("Format", "JPEG"),
        ("Camera", "Canon"),
        ("Focal Length", "50 mm"),
        ("Aperture", "f/1.8"),
        ("Shutter", "1/200s"),
        ("ISO", "ISO 400"),
        ("Captured", "2024-05-01 10:00:00"),
    ]
    .into_iter()
    .map(|(a, b)| (a.to_string(), b.to_string()))
    .collect();
    assert_eq!(rows, expect);
    let rows = image_detail_rows(None, 1, 1, "1 B", None, None);
    assert_eq!(rows.len(), 3);
    assert_eq!(rows[0].1, "Unknown");
}

#[test]
fn no_exif_in_plain_bytes() {
    assert!(extract_exif(b"not an image at all").is_none());
    assert!(extract_exif(&[]).is_none());
}

#[test]
fn exif_read_from_a_tiff_header() {
    // A little-endian TIFF whose first IFD holds Make = "Acme".
    let mut tiff: Vec<u8> = vec![b'I', b'I', 42, 0, 8, 0, 0, 0];
    tiff.extend_from_slice(&[1, 0]);
    tiff.extend_from_slice(&[0x0f, 0x01, 2, 0, 5, 0, 0, 0, 26, 0, 0, 0]);
    tiff.extend_from_slice(&[0, 0, 0, 0]);
    tiff.extend_from_slice(b"Acme\0");
    let info = extract_exif(&tiff).expect("readable");
    assert_eq!(info.make.as_deref(), Some("Acme"));
    assert_eq!(info.model, None);
}

#[test]
fn exif_make_and_model_stay_apart() {
    // A little-endian TIFF whose first IFD holds Make = "Acme" and Model = "Z9".
    let mut tiff: Vec<u8> = vec![b'I', b'I', 42, 0, 8, 0, 0, 0];
    tiff.extend_from_slice(&[2, 0]);
    tiff.extend_from_slice(&[0x0f, 0x01, 2, 0, 5, 0, 0, 0, 38, 0, 0, 0]);
    tiff.extend_from_slice(&[0x10, 0x01, 2, 0, 3, 0, 0, 0, b'Z', b'9', 0, 0]);
    tiff.extend_from_slice(&[0, 0, 0, 0]);
    tiff.extend_from_slice(b"Acme\0");
    let info = extract_exif(&tiff).expect("readable");
    assert_eq!(info.make.as_deref(), Some("Acme"));
    assert_eq!(info.model.as_deref(), Some("Z9"));
    assert_eq!(info.lens, None);
}
