use omaview::natural::{natural_order, natural_sort_key, SortChunk};
use omaview::util::{extension, file_name, format_file_size, is_supported_image};

#[test]
fn test_is_supported_image() {
    assert!(is_supported_image("photo.PNG"));
    assert!(is_supported_image("photo.jpg"));
    assert!(is_supported_image("photo.jpeg"));
    assert!(is_supported_image("photo.webp"));
    assert!(is_supported_image("photo.gif"));
    assert!(is_supported_image("photo.bmp"));
    assert!(is_supported_image("photo.tiff"));
    assert!(is_supported_image("photo.ico"));
    assert!(!is_supported_image("notes.txt"));
    assert!(!is_supported_image("video.mp4"));
}

#[test]
fn test_format_file_size() {
    assert_eq!(format_file_size(500), "500 B");
    assert_eq!(format_file_size(2048), "2 KB");
    assert_eq!(format_file_size(1024 * 1024 * 3), "3.0 MB");
    assert_eq!(format_file_size(1024 * 1024 * 1024 * 2), "2.0 GB");
}

#[test]
fn test_natural_sort() {
    let mut names = vec!["img10.png", "img1.png", "img2.png", "img20.png", "img3.png"];
    names.sort_by(|a, b| natural_sort_key(a).cmp(&natural_sort_key(b)));
    assert_eq!(names, vec!["img1.png", "img2.png", "img3.png", "img10.png", "img20.png"]);
}

fn float_size(bytes: u64) -> String {
    const KB: u64 = 1024;
    const MB: u64 = KB * 1024;
    const GB: u64 = MB * 1024;
    if bytes >= GB {
        format!("{:.1} GB", bytes as f64 / GB as f64)
    } else if bytes >= MB {
        format!("{:.1} MB", bytes as f64 / MB as f64)
    } else if bytes >= KB {
        format!("{:.0} KB", bytes as f64 / KB as f64)
    } else {
        format!("{} B", bytes)
    }
}

#[test]
fn file_size_matches_float_formatting() {
    let samples: Vec<u64> = vec![
        0, 1, 1023, 1024, 1535, 1536, 1537, 2560, 3584, 1048575, 1048576, 1101004, 1101005,
        1153433, 1572864, 1625293, 1677722, 5 * 1048576 + 52428, 1073741823, 1073741824,
        1127428915, 1181116006, 3 * 1073741824 + 53687091, 3 * 1073741824 + 161061273,
        (1u64 << 53) - 1, 1u64 << 53, (1u64 << 53) + 1, (1u64 << 60) + 12345, u64::MAX - 1,
        u64::MAX,
    ];
    for b in samples {
        assert_eq!(format_file_size(b), float_size(b), "bytes = {}", b);
    }
    let mut x: u64 = 0x9E37_79B9_7F4A_7C15;
    for _ in 0..20000 {
        x ^= x << 13;
        x ^= x >> 7;
        x ^= x << 17;
        let b = x >> (x % 64);
        assert_eq!(format_file_size(b), float_size(b), "bytes = {}", b);
    }
}

#[test]
fn file_size_ties_round_to_even() {
    assert_eq!(format_file_size(1536), "2 KB");
    assert_eq!(format_file_size(2560), "2 KB");
    assert_eq!(format_file_size(1048576 + 52428), "1.0 MB");
}

#[test]
fn natural_order_is_stable_and_numeric() {
    let names: Vec<String> = vec!["b10", "B2", "a", "b2", "10", "9", ""]
        .into_iter()
        .map(String::from)
        .collect();
    let order = natural_order(&names);
    let sorted: Vec<&str> = order.iter().map(|&i| names[i].as_str()).collect();
    assert_eq!(sorted, vec!["", "a", "B2", "b2", "b10", "9", "10"]);
    let mut expect: Vec<usize> = (0..names.len()).collect();
    expect.sort_by(|&a, &b| natural_sort_key(&names[a]).cmp(&natural_sort_key(&names[b])));
    assert_eq!(order, expect);
}

#[test]
fn natural_key_drops_oversized_numbers() {
    let key = natural_sort_key("x99999999999999999999y");
    assert_eq!(key.len(), 2);
}

#[test]
fn path_components() {
    assert_eq!(file_name("/a/b/c.png"), Some("c.png".to_string()));
    assert_eq!(file_name("a/b/"), Some("b".to_string()));
    assert_eq!(file_name("a/."), Some("a".to_string()));
    assert_eq!(file_name("a/.."), None);
    assert_eq!(file_name("/"), None);
    assert_eq!(extension(".bashrc"), None);
    assert_eq!(extension("a.tar.gz"), Some("gz".to_string()));
    assert_eq!(extension("a."), Some("".to_string()));
    assert!(is_supported_image("dir.png/"));
    assert!(!is_supported_image(".png"));
}

#[test]
fn natural_key_lowercases_text_and_reads_numbers() {
    assert_eq!(
        natural_sort_key("IMG_0042.JPG"),
        vec![SortChunk::Text("img_".to_string()), SortChunk::Number(42), SortChunk::Text(".jpg".to_string())]
    );
    assert_eq!(natural_sort_key("Ärger2"), vec![SortChunk::Text("ärger".to_string()), SortChunk::Number(2)]);
}
