use snapfilething::error::AppError;
use snapfilething::utils::mime_type::{
    get_extension_from_mime, get_mime_type, is_image_mime_type, lower_extension, mime_for_extension,
};
use snapfilething::utils::path::{extension, file_name, file_stem};
use snapfilething::utils::text;
use snapfilething::utils::text::{
    before_first, chars_of, contains, decimal, ends_with, opt_str_eq, parse_number, signed_decimal,
    split, split_once, split_trimmed, starts_with, str_eq, str_less, strip_prefix, trim,
};
use snapfilething::utils::validation::{
    clean, detect_file_type, sanitize_filename, sanitize_filename_with, short_tag,
    settle_file_type, validate_file_size, validate_file_type,
};
use std::path::Path;

const SAMPLES: [&str; 14] = [
    "", "a", "ab", "abc", "b", "é", "e", "日本語", "a b", "A", "aé", "\u{10000}", "\u{ffff}", "ba",
];

#[test]
fn text_matches_std_on_samples() {
    for a in SAMPLES {
        assert_eq!(chars_of(a), a.chars().collect::<Vec<char>>());
        assert_eq!(trim(a), a.trim());
        for b in SAMPLES {
            assert_eq!(str_eq(a, b), a == b);
            assert_eq!(str_less(a, b), a < b);
            assert_eq!(starts_with(a, b), a.starts_with(b));
            assert_eq!(ends_with(a, b), a.ends_with(b));
            assert_eq!(contains(a, b), a.contains(b));
            assert_eq!(text::concat(a, b), format!("{}{}", a, b));
            assert_eq!(strip_prefix(a, b), a.strip_prefix(b).map(|s| s.to_string()));
        }
    }
}

#[test]
fn concat_joins_in_order() {
    assert_eq!(text::concat("ab", "cd"), "abcd");
    assert_eq!(text::concat3("a", "-", "b"), "a-b");
    assert_eq!(text::concat3("", "", ""), "");
}

#[test]
fn optional_texts_compare() {
    assert!(opt_str_eq(&None, &None));
    assert!(opt_str_eq(&Some("a".to_string()), &Some("a".to_string())));
    assert!(!opt_str_eq(&Some("a".to_string()), &Some("b".to_string())));
    assert!(!opt_str_eq(&Some("".to_string()), &None));
    assert!(!opt_str_eq(&None, &Some("".to_string())));
}

#[test]
fn trim_takes_off_white_space_only() {
    assert_eq!(trim("  a b  "), "a b");
    assert_eq!(trim("\t\n\r\u{b}\u{c} x \u{85}\u{a0}\u{1680}\u{2000}\u{200a}"), "x");
    assert_eq!(trim("\u{2028}\u{2029}\u{202f}\u{205f}\u{3000}"), "");
    assert_eq!(trim("\u{200b}x\u{200b}"), "\u{200b}x\u{200b}");
    assert_eq!(trim("_x_"), "_x_");
    for c in 0..0x3100u32 {
        if let Some(ch) = char::from_u32(c) {
            let s = format!("{}x{}", ch, ch);
            assert_eq!(trim(&s), s.trim());
        }
    }
}

#[test]
fn splitting() {
    assert_eq!(split("a,b,,c", ','), vec!["a", "b", "", "c"]);
    assert_eq!(split("", ','), vec![""]);
    assert_eq!(split(",", ','), vec!["", ""]);
    assert_eq!(split("abc", ','), vec!["abc"]);
    assert_eq!(split_trimmed(" a , b,c ,, ", ','), vec!["a", "b", "c", "", ""]);
    for s in ["a.b.c", "...", "x", "", ".a", "a.", "é.日"] {
        let expected: Vec<&str> = s.split('.').collect();
        assert_eq!(split(s, '.'), expected);
    }
    assert_eq!(split_once("a:b:c", ':'), Some(("a".to_string(), "b:c".to_string())));
    assert_eq!(split_once(":", ':'), Some((String::new(), String::new())));
    assert_eq!(split_once("abc", ':'), None);
    assert_eq!(before_first("a,b", ','), "a");
    assert_eq!(before_first("ab", ','), "ab");
    assert_eq!(before_first(",ab", ','), "");
}

#[test]
fn numbers_in_base_ten() {
    assert_eq!(decimal(0), "0");
    assert_eq!(decimal(7), "7");
    assert_eq!(decimal(10), "10");
    assert_eq!(decimal(104857600), "104857600");
    assert_eq!(decimal(usize::MAX), usize::MAX.to_string());
    assert_eq!(signed_decimal(0), "0");
    assert_eq!(signed_decimal(-1), "-1");
    assert_eq!(signed_decimal(1700000000), "1700000000");
    assert_eq!(signed_decimal(i64::MIN), i64::MIN.to_string());
    assert_eq!(signed_decimal(i64::MAX), i64::MAX.to_string());
}

#[test]
fn parsing_numbers() {
    assert_eq!(parse_number("0", 10), Some(0));
    assert_eq!(parse_number("8080", 65535), Some(8080));
    assert_eq!(parse_number("+7", 10), Some(7));
    assert_eq!(parse_number("007", 10), Some(7));
    assert_eq!(parse_number("65535", 65535), Some(65535));
    assert_eq!(parse_number("65536", 65535), None);
    assert_eq!(parse_number("18446744073709551615", u64::MAX), Some(u64::MAX));
    assert_eq!(parse_number("18446744073709551616", u64::MAX), None);
    assert_eq!(parse_number("99999999999999999999999", u64::MAX), None);
    for bad in ["", "+", "-1", "1 ", " 1", "1.0", "0x10", "++1", "1+", "١"] {
        assert_eq!(parse_number(bad, 1000), None);
    }
    for s in ["0", "255", "256", "+255", "-0", "000255", "", "+", "25a", "a"] {
        assert_eq!(parse_number(s, 255), s.parse::<u8>().ok().map(|n| n as u64));
        assert_eq!(parse_number(s, 65535), s.parse::<u16>().ok().map(|n| n as u64));
    }
}

const PATHS: [&str; 40] = [
    "", "a", "a.png", "a.tar.gz", ".hidden", ".hidden.txt", "a.", "a..", "..", ".", "...",
    "dir/a.png", "dir/", "dir/.", "dir/..", "/", "//", "/a", "/a/", "a//b.txt", "a/./b.txt",
    "a/b/.", "a/b/./", "./a.b", "../a.b", "a/.b", "a/b.", "dir.d/file", "dir.d/", "x/y.z/",
    "a b.PNG", "é.日本", "a\\b.txt", "a.b\\c", ".a.", "..a", "a/...", "a/.../", "./", "./.",
];

#[test]
fn paths_are_read_as_std_reads_them() {
    for path in PATHS {
        let p = Path::new(path);
        let name = p.file_name().map(|s| s.to_str().unwrap().to_string());
        let stem = p.file_stem().map(|s| s.to_str().unwrap().to_string());
        let ext = p.extension().map(|s| s.to_str().unwrap().to_string());
        assert_eq!(file_name(path), name);
        assert_eq!(file_stem(path), stem);
        assert_eq!(extension(path), ext);
    }
}

#[test]
fn extension_and_stem() {
    assert_eq!(extension("photo.JPG"), Some("JPG".to_string()));
    assert_eq!(file_stem("photo.JPG"), Some("photo".to_string()));
    assert_eq!(extension("archive.tar.gz"), Some("gz".to_string()));
    assert_eq!(file_stem("archive.tar.gz"), Some("archive.tar".to_string()));
    assert_eq!(extension(".bashrc"), None);
    assert_eq!(file_stem(".bashrc"), Some(".bashrc".to_string()));
    assert_eq!(extension("name."), Some(String::new()));
    assert_eq!(extension("../../etc/passwd.txt"), Some("txt".to_string()));
    assert_eq!(file_stem("../../etc/passwd.txt"), Some("passwd".to_string()));
    assert_eq!(file_name("a/b/"), Some("b".to_string()));
    assert_eq!(lower_extension("photo.JPG"), Some("jpg".to_string()));
    assert_eq!(lower_extension("photo"), None);
}

#[test]
fn mime_types_by_extension() {
    let table = [
        ("jpg", "image/jpeg"), ("jpeg", "image/jpeg"), ("png", "image/png"),
        ("gif", "image/gif"), ("webp", "image/webp"), ("bmp", "image/bmp"),
        ("tiff", "image/tiff"), ("tif", "image/tiff"), ("svg", "image/svg+xml"),
        ("ico", "image/x-icon"), ("pdf", "application/pdf"), ("doc", "application/msword"),
        ("docx", "application/vnd.openxmlformats-officedocument.wordprocessingml.document"),
        ("xls", "application/vnd.ms-excel"),
        ("xlsx", "application/vnd.openxmlformats-officedocument.spreadsheetml.sheet"),
        ("ppt", "application/vnd.ms-powerpoint"),
        ("pptx", "application/vnd.openxmlformats-officedocument.presentationml.presentation"),
        ("txt", "text/plain"), ("csv", "text/csv"), ("html", "text/html"),
        ("htm", "text/html"), ("css", "text/css"), ("js", "application/javascript"),
        ("json", "application/json"), ("xml", "application/xml"), ("zip", "application/zip"),
        ("rar", "application/vnd.rar"), ("7z", "application/x-7z-compressed"),
        ("tar", "application/x-tar"), ("gz", "application/gzip"), ("mp3", "audio/mpeg"),
        ("wav", "audio/wav"), ("ogg", "audio/ogg"), ("m4a", "audio/mp4"),
        ("flac", "audio/flac"), ("mp4", "video/mp4"), ("avi", "video/x-msvideo"),
        ("mov", "video/quicktime"), ("wmv", "video/x-ms-wmv"), ("flv", "video/x-flv"),
        ("webm", "video/webm"), ("mkv", "video/x-matroska"),
    ];
    for (ext, mime) in table {
        assert_eq!(mime_for_extension(Some(ext)), mime);
        assert_eq!(get_mime_type(&format!("file.{}", ext)), mime);
        assert_eq!(get_mime_type(&format!("dir/FILE.{}", ext.to_uppercase())), mime);
    }
    assert_eq!(mime_for_extension(None), "application/octet-stream");
    assert_eq!(mime_for_extension(Some("")), "application/octet-stream");
    assert_eq!(mime_for_extension(Some("PNG")), "application/octet-stream");
    assert_eq!(get_mime_type("noext"), "application/octet-stream");
    assert_eq!(get_mime_type(".png"), "application/octet-stream");
    assert_eq!(get_mime_type("a.png/"), "image/png");
    assert_eq!(get_mime_type("a.unknown"), "application/octet-stream");
}

#[test]
fn image_mime_types() {
    assert!(is_image_mime_type("image/png"));
    assert!(is_image_mime_type("image/"));
    assert!(!is_image_mime_type("image"));
    assert!(!is_image_mime_type("Image/png"));
    assert!(!is_image_mime_type("text/image/"));
}

#[test]
fn extensions_by_mime_type() {
    let table = [
        ("image/jpeg", "jpg"), ("image/png", "png"), ("image/gif", "gif"),
        ("image/webp", "webp"), ("image/bmp", "bmp"), ("image/tiff", "tiff"),
        ("text/plain", "txt"), ("application/pdf", "pdf"), ("application/zip", "zip"),
        ("audio/mpeg", "mp3"), ("video/mp4", "mp4"),
    ];
    for (mime, ext) in table {
        assert_eq!(get_extension_from_mime(mime), Some(ext));
    }
    assert_eq!(get_extension_from_mime("image/svg+xml"), None);
    assert_eq!(get_extension_from_mime(""), None);
    assert_eq!(get_extension_from_mime("IMAGE/PNG"), None);
}

#[test]
fn file_size_limit() {
    assert!(validate_file_size(0, 0).is_ok());
    assert!(validate_file_size(10, 10).is_ok());
    assert!(matches!(validate_file_size(11, 10), Err(AppError::FileTooLarge(11))));
    assert!(matches!(validate_file_size(1, 0), Err(AppError::FileTooLarge(1))));
    assert!(validate_file_size(usize::MAX, usize::MAX).is_ok());
}

fn padded(head: &[u8], len: usize) -> Vec<u8> {
    let mut data = head.to_vec();
    while data.len() < len {
        data.push(0);
    }
    data
}

#[test]
fn file_types_by_leading_bytes() {
    let cases: Vec<(Vec<u8>, Option<&str>)> = vec![
        (padded(&[0xFF, 0xD8, 0xFF], 4), Some("image/jpeg")),
        (vec![0xFF, 0xD8, 0xFF], None),
        (padded(&[0x89, 0x50, 0x4E, 0x47, 0x0D, 0x0A, 0x1A, 0x0A], 8), Some("image/png")),
        (padded(&[0x89, 0x50, 0x4E, 0x47, 0x0D, 0x0A, 0x1A], 8), None),
        (b"GIF87a".to_vec(), Some("image/gif")),
        (b"GIF89a..".to_vec(), Some("image/gif")),
        (b"GIF88a".to_vec(), None),
        (b"GIF8".to_vec(), None),
        (b"RIFF\x01\x02\x03\x04WEBP".to_vec(), Some("image/webp")),
        (b"RIFF\x01\x02\x03\x04WEBPx".to_vec(), None),
        (b"RIFF\x01\x02\x03\x04WAVE".to_vec(), None),
        (b"BM\x00\x00".to_vec(), Some("image/bmp")),
        (b"II*\x00".to_vec(), Some("image/tiff")),
        (b"MM\x00*".to_vec(), Some("image/tiff")),
        (b"%PDF-1.7".to_vec(), Some("application/pdf")),
        (b"PK\x03\x04".to_vec(), Some("application/zip")),
        (b"PK\x05\x06".to_vec(), Some("application/zip")),
        (b"PK\x07\x08".to_vec(), Some("application/zip")),
        (b"PK\x01\x02".to_vec(), None),
        (b"Rar!\x1a\x07\x00".to_vec(), Some("application/vnd.rar")),
        (b"Rar!\x1a\x07".to_vec(), None),
        (b"7z\xbc\xaf\x27\x1c".to_vec(), Some("application/x-7z-compressed")),
        (b"\xff\xfb\x00\x00".to_vec(), Some("audio/mpeg")),
        (b"\xff\xf3\x00\x00".to_vec(), Some("audio/mpeg")),
        (b"\xff\xf2\x00\x00".to_vec(), Some("audio/mpeg")),
        (b"ID3\x04".to_vec(), Some("audio/mpeg")),
        (b"\x00\x00\x00\x18ftypmp41".to_vec(), Some("video/mp4")),
        (b"\x00\x00\x00\x18ftypmp42".to_vec(), Some("video/mp4")),
        (b"\x00\x00\x00\x18ftypisom".to_vec(), Some("video/mp4")),
        (b"\x00\x00\x00\x18ftypiso2".to_vec(), Some("video/mp4")),
        (b"\x00\x00\x00\x18ftypqt  ".to_vec(), None),
        (b"\x00\x00\x00\x18ftypmp4".to_vec(), None),
        (b"\x00\x00\x00\x18ftyp".to_vec(), None),
        (b"BMftypmp41xx".to_vec(), Some("image/bmp")),
        (b"hello world!".to_vec(), None),
        (Vec::new(), None),
        (b"BM".to_vec(), None),
    ];
    for (data, expected) in cases {
        assert_eq!(detect_file_type(&data), expected.map(|s| s.to_string()));
    }
}

#[test]
fn file_type_validation() {
    let png = padded(&[0x89, 0x50, 0x4E, 0x47, 0x0D, 0x0A, 0x1A, 0x0A], 64);
    assert_eq!(validate_file_type(&png, "a.txt").unwrap(), "image/png");
    assert_eq!(validate_file_type(&png, "a.jpg").unwrap(), "image/png");
    assert_eq!(validate_file_type(b"hello", "a.txt").unwrap(), "text/plain");
    assert_eq!(validate_file_type(b"hello", "a").unwrap(), "application/octet-stream");
    assert_eq!(validate_file_type(b"", "a.svg").unwrap(), "image/svg+xml");
    for name in ["a.jpg", "a.JPEG", "a.png", "a.gif", "a.bmp", "a.tiff", "a.tif", "a.Webp"] {
        assert!(matches!(
            validate_file_type(b"hello world", name),
            Err(AppError::InvalidFileType(_))
        ));
    }
    let webp = b"RIFF\x01\x02\x03\x04WEBPVP8 more bytes".to_vec();
    assert_eq!(validate_file_type(&webp, "a.webp").unwrap(), "image/webp");
    let mp4 = b"\x00\x00\x00\x18ftypisom\x00\x00".to_vec();
    assert_eq!(validate_file_type(&mp4, "a.bin").unwrap(), "video/mp4");
}

#[test]
fn cleaning_names() {
    assert_eq!(clean("my photo (1)"), "my_photo_1");
    assert_eq!(clean("a/b\\c:d*e?f\"g<h>i|j"), "abcdefghij");
    assert_eq!(clean("__a___b__"), "a_b");
    assert_eq!(clean("a - b"), "a_-_b");
    assert_eq!(clean("a.b_c-d"), "a.b_c-d");
    assert_eq!(clean("!!!"), "");
    assert_eq!(clean(" \t\n"), "");
    assert_eq!(clean("a!@#$%^&()+=b"), "a_b");
    assert_eq!(clean("é ü"), "é_ü");
    assert_eq!(clean(""), "");
    assert_eq!(clean("_"), "");
    assert_eq!(clean("a_:_b"), "a_b");
}

#[test]
fn sanitized_names() {
    assert_eq!(sanitize_filename_with("My Photo (1).JPG", "x"), "my_photo_1.jpg");
    assert_eq!(sanitize_filename_with("../../etc/passwd.txt", "x"), "passwd.txt");
    assert_eq!(sanitize_filename_with("report.final.PDF", "x"), "report.final.pdf");
    assert_eq!(sanitize_filename_with("noext", "x"), "noext");
    assert_eq!(sanitize_filename_with(".hidden", "abcd1234"), "file_abcd1234");
    assert_eq!(sanitize_filename_with("???.png", "abcd1234"), "file_abcd1234.png");
    assert_eq!(sanitize_filename_with("", "abcd1234"), "file_abcd1234");
    assert_eq!(sanitize_filename_with("..", "abcd1234"), "file_abcd1234");
    assert_eq!(sanitize_filename_with("a.", "x"), "a");
    assert_eq!(sanitize_filename_with("ÉCOLE.TXT", "x"), "école.txt");
    assert_eq!(sanitize_filename_with("a/b", "x"), "b");
    assert_eq!(sanitize_filename_with("dir/", "x"), "dir");
    assert_eq!(sanitize_filename_with("x..png", "x"), "x..png");
    assert_eq!(sanitize_filename_with("._.png", "tag"), "file_tag.png");
}

#[test]
fn sanitized_fallback_is_random() {
    let a = sanitize_filename("???");
    let b = sanitize_filename("???");
    assert!(a.starts_with("file_"));
    assert_eq!(a.len(), 13);
    assert_ne!(a, b);
    assert_eq!(sanitize_filename("Hello World.TXT"), "hello_world.txt");
}

#[test]
fn short_tags() {
    assert_eq!(short_tag("0123456789"), "01234567");
    assert_eq!(short_tag("01234567"), "01234567");
    assert_eq!(short_tag("abc"), "abc");
    assert_eq!(short_tag(""), "");
    assert_eq!(short_tag("ééééééééé"), "éééééééé");
}

#[test]
fn file_type_is_settled_by_the_bytes_first() {
    let png = Some("image/png".to_string());
    assert_eq!(settle_file_type(png.clone(), Some("txt")).unwrap(), "image/png");
    assert_eq!(settle_file_type(png.clone(), Some("jpg")).unwrap(), "image/png");
    assert_eq!(settle_file_type(png, None).unwrap(), "image/png");
    assert_eq!(settle_file_type(Some(String::new()), Some("png")).unwrap(), "");
    assert_eq!(settle_file_type(None, Some("txt")).unwrap(), "text/plain");
    assert_eq!(settle_file_type(None, Some("pdf")).unwrap(), "application/pdf");
    assert_eq!(settle_file_type(None, Some("svg")).unwrap(), "image/svg+xml");
    assert_eq!(settle_file_type(None, Some("nope")).unwrap(), "application/octet-stream");
    assert_eq!(settle_file_type(None, None).unwrap(), "application/octet-stream");
    assert_eq!(settle_file_type(None, Some("PNG")).unwrap(), "application/octet-stream");
    for ext in ["jpg", "jpeg", "png", "gif", "bmp", "tiff", "tif", "webp"] {
        assert!(matches!(settle_file_type(None, Some(ext)), Err(AppError::InvalidFileType(_))));
    }
}
