use poubelle::detect::{detect, needs_sniffing, type_by_extension, type_by_filename};
use poubelle::mime_type::MimeType;
use poubelle::sniff::{
    detect_classified, detect_content, get_mime, has_prefix, line_of, sniff_magic, sniffed_type,
    SniffError,
};

fn essence(m: Option<MimeType>) -> Option<String> {
    m.map(|t| t.essence())
}

#[test]
fn declared_type_wins() {
    let declared = MimeType::new("image", "png");
    let sniffed = MimeType::new("application", "pdf");
    let m = detect(Some(&declared), Some("notes.txt"), Some(&sniffed));
    assert_eq!(m.essence(), "image/png");
}

#[test]
fn placeholder_is_not_trusted() {
    let declared = MimeType::new("application", "octet-stream");
    let sniffed = MimeType::new("application", "pdf");
    let m = detect(Some(&declared), Some("notes.txt"), Some(&sniffed));
    assert_eq!(m.essence(), "text/plain");
    let m = detect(Some(&declared), Some("photo.jpeg"), Some(&sniffed));
    assert_eq!(m.essence(), "image/jpeg");
}

#[test]
fn extension_comes_before_sniffing() {
    let sniffed = MimeType::new("application", "pdf");
    let m = detect(None, Some("page.html"), Some(&sniffed));
    assert_eq!(m.essence(), "text/html");
}

#[test]
fn sniffing_decides_without_a_known_extension() {
    let sniffed = MimeType::new("application", "pdf");
    assert_eq!(detect(None, Some("report"), Some(&sniffed)).essence(), "application/pdf");
    assert_eq!(detect(None, Some("report.xyz"), Some(&sniffed)).essence(), "application/pdf");
    assert_eq!(detect(None, None, Some(&sniffed)).essence(), "application/pdf");
    let declared = MimeType::new("application", "octet-stream");
    assert_eq!(detect(Some(&declared), None, Some(&sniffed)).essence(), "application/pdf");
}

#[test]
fn the_default_is_text_plain() {
    assert_eq!(detect(None, None, None).essence(), "text/plain");
    assert_eq!(detect(None, Some("report"), None).essence(), "text/plain");
    let declared = MimeType::new("application", "octet-stream");
    assert_eq!(detect(Some(&declared), Some("report.xyz"), None).essence(), "text/plain");
}

#[test]
fn needs_sniffing_when_the_early_steps_fail() {
    let png = MimeType::new("image", "png");
    let placeholder = MimeType::new("application", "octet-stream");
    assert!(!needs_sniffing(Some(&png), None));
    assert!(!needs_sniffing(Some(&placeholder), Some("a.gif")));
    assert!(!needs_sniffing(None, Some("a.gif")));
    assert!(needs_sniffing(Some(&placeholder), Some("a.unknown")));
    assert!(needs_sniffing(Some(&placeholder), None));
    assert!(needs_sniffing(None, Some("a")));
    assert!(needs_sniffing(None, None));
}

#[test]
fn extension_table() {
    let cases: Vec<(&str, &str)> = vec![
        ("txt", "text/plain"),
        ("html", "text/html"),
        ("htm", "text/html"),
        ("css", "text/css"),
        ("csv", "text/csv"),
        ("md", "text/markdown"),
        ("js", "text/javascript"),
        ("json", "application/json"),
        ("xml", "application/xml"),
        ("pdf", "application/pdf"),
        ("zip", "application/zip"),
        ("gz", "application/gzip"),
        ("tar", "application/x-tar"),
        ("wasm", "application/wasm"),
        ("png", "image/png"),
        ("jpg", "image/jpeg"),
        ("jpeg", "image/jpeg"),
        ("gif", "image/gif"),
        ("webp", "image/webp"),
        ("bmp", "image/bmp"),
        ("svg", "image/svg+xml"),
        ("mp3", "audio/mpeg"),
        ("wav", "audio/wav"),
        ("ogg", "audio/ogg"),
        ("mp4", "video/mp4"),
        ("webm", "video/webm"),
    ];
    for (ext, expected) in cases {
        let chars: Vec<char> = ext.chars().collect();
        assert_eq!(essence(type_by_extension(&chars)), Some(expected.to_string()));
    }
    let unknown: Vec<char> = "exe".chars().collect();
    assert!(type_by_extension(&unknown).is_none());
    let upper: Vec<char> = "PNG".chars().collect();
    assert!(type_by_extension(&upper).is_none());
    assert!(type_by_extension(&Vec::new()).is_none());
}

#[test]
fn file_names_and_their_extensions() {
    assert_eq!(essence(type_by_filename("notes.txt")), Some("text/plain".to_string()));
    assert_eq!(essence(type_by_filename("NOTES.TXT")), Some("text/plain".to_string()));
    assert_eq!(essence(type_by_filename("photo.JpEg")), Some("image/jpeg".to_string()));
    assert_eq!(essence(type_by_filename("archive.tar.gz")), Some("application/gzip".to_string()));
    assert_eq!(essence(type_by_filename("a.b/c.png")), Some("image/png".to_string()));
    assert!(type_by_filename("png").is_none());
    assert!(type_by_filename(".png").is_none());
    assert!(type_by_filename("name.").is_none());
    assert!(type_by_filename("").is_none());
    assert!(type_by_filename("a.png/b").is_none());
    assert!(type_by_filename("caf\u{e9}.unknown").is_none());
    assert_eq!(essence(type_by_filename("caf\u{e9}.gif")), Some("image/gif".to_string()));
}

#[test]
fn first_line() {
    assert_eq!(line_of("image/png\n"), "image/png");
    assert_eq!(line_of("image/png"), "image/png");
    assert_eq!(line_of("a\nb\nc"), "a");
    assert_eq!(line_of("\nrest"), "");
    assert_eq!(line_of(""), "");
}

#[test]
fn classifier_answer_is_read() {
    let m = get_mime(true, Some(0), b"image/png\n").unwrap();
    assert_eq!(m.essence(), "image/png");
    let m = get_mime(true, Some(0), b"application/pdf").unwrap();
    assert_eq!(m.essence(), "application/pdf");
    let m = get_mime(true, None, b"Text/X-Shellscript\nignored").unwrap();
    assert_eq!(m.essence(), "text/x-shellscript");
}

#[test]
fn unreadable_answer_is_text_plain() {
    assert_eq!(get_mime(true, Some(0), b"").unwrap().essence(), "text/plain");
    assert_eq!(get_mime(true, Some(0), b"cannot open\n").unwrap().essence(), "text/plain");
    assert_eq!(get_mime(true, Some(0), b"\nimage/png\n").unwrap().essence(), "text/plain");
}

#[test]
fn failed_classifier_is_an_error() {
    assert_eq!(get_mime(false, Some(1), b"image/png\n").unwrap_err(), SniffError::Exit(1));
    assert_eq!(get_mime(false, Some(127), b"").unwrap_err(), SniffError::Exit(127));
    assert_eq!(get_mime(false, None, b"image/png\n").unwrap_err(), SniffError::Exit(0));
}

#[test]
fn output_that_is_not_utf8_is_an_error() {
    assert_eq!(get_mime(true, Some(0), &[0xff, 0xfe, 0x0a]).unwrap_err(), SniffError::NotText);
    assert_eq!(
        get_mime(true, Some(0), &[b'a', b'/', b'b', b'\n', 0xc3]).unwrap_err(),
        SniffError::NotText
    );
    assert_eq!(get_mime(false, Some(2), &[0xff]).unwrap_err(), SniffError::Exit(2));
}

#[test]
fn prefixes() {
    assert!(has_prefix(b"GIF89a...", &b"GIF89a".to_vec()));
    assert!(has_prefix(b"GIF89a", &b"GIF89a".to_vec()));
    assert!(has_prefix(b"anything", &Vec::new()));
    assert!(has_prefix(b"", &Vec::new()));
    assert!(!has_prefix(b"GIF89", &b"GIF89a".to_vec()));
    assert!(!has_prefix(b"GIF88a", &b"GIF89a".to_vec()));
    assert!(!has_prefix(b"", &b"G".to_vec()));
}

#[test]
fn signatures_are_recognised() {
    let cases: Vec<(&[u8], &str)> = vec![
        (b"\x89PNG\r\n\x1a\n\x00\x00\x00\rIHDR", "image/png"),
        (b"\xff\xd8\xff\xe0\x00\x10JFIF", "image/jpeg"),
        (b"GIF87a\x01\x00", "image/gif"),
        (b"GIF89a\x01\x00", "image/gif"),
        (b"BM\x36\x00", "image/bmp"),
        (b"%PDF-1.7\n", "application/pdf"),
        (b"PK\x03\x04\x14\x00", "application/zip"),
        (b"\x1f\x8b\x08\x00", "application/gzip"),
        (b"\x00asm\x01\x00\x00\x00", "application/wasm"),
        (b"OggS\x00\x02", "audio/ogg"),
        (b"\x1f\x8b", "application/gzip"),
    ];
    for (data, expected) in cases {
        assert_eq!(essence(sniff_magic(data)), Some(expected.to_string()));
    }
}

#[test]
fn content_without_a_signature_is_undecided() {
    assert!(sniff_magic(b"").is_none());
    assert!(sniff_magic(b"hello, world\n").is_none());
    assert!(sniff_magic(b"\x89PNG").is_none());
    assert!(sniff_magic(b"GIF88a").is_none());
    assert!(sniff_magic(b"\x1f").is_none());
    assert!(sniff_magic(b" %PDF-1.7").is_none());
    assert!(sniff_magic(b"PK\x05\x06").is_none());
}

#[test]
fn undecided_content_ends_as_text_plain() {
    let sniffed = sniff_magic(b"just some notes\n");
    assert_eq!(detect(None, Some("notes"), sniffed.as_ref()).essence(), "text/plain");
    let sniffed = sniff_magic(b"%PDF-1.4");
    assert_eq!(detect(None, Some("notes"), sniffed.as_ref()).essence(), "application/pdf");
}

#[test]
fn chain_over_the_content() {
    let png = b"\x89PNG\r\n\x1a\n";
    assert_eq!(detect_content(None, None, png).essence(), "image/png");
    assert_eq!(detect_content(None, Some("a.gif"), png).essence(), "image/gif");
    let declared = MimeType::new("text", "css");
    assert_eq!(detect_content(Some(&declared), Some("a.gif"), png).essence(), "text/css");
    let placeholder = MimeType::new("application", "octet-stream");
    assert_eq!(detect_content(Some(&placeholder), Some("a"), png).essence(), "image/png");
    assert_eq!(detect_content(None, None, b"plain words").essence(), "text/plain");
}

#[test]
fn a_failed_classifier_leaves_the_file_unsniffed() {
    assert_eq!(essence(sniffed_type(true, Some(0), b"image/png\n")), Some("image/png".to_string()));
    assert_eq!(essence(sniffed_type(true, Some(0), b"nonsense\n")), Some("text/plain".to_string()));
    assert!(sniffed_type(false, Some(1), b"image/png\n").is_none());
    assert!(sniffed_type(false, None, b"").is_none());
    assert!(sniffed_type(true, Some(0), &[0xff, 0xfe]).is_none());
}

#[test]
fn chain_over_the_classifier() {
    let out = b"application/pdf\n";
    assert_eq!(detect_classified(None, None, true, Some(0), out).essence(), "application/pdf");
    assert_eq!(detect_classified(None, Some("a.gif"), true, Some(0), out).essence(), "image/gif");
    let declared = MimeType::new("text", "css");
    assert_eq!(
        detect_classified(Some(&declared), Some("a.gif"), true, Some(0), out).essence(),
        "text/css"
    );
    let placeholder = MimeType::new("application", "octet-stream");
    assert_eq!(
        detect_classified(Some(&placeholder), Some("a"), true, Some(0), out).essence(),
        "application/pdf"
    );
}

#[test]
fn a_failed_classifier_degrades_to_the_default() {
    let out = b"application/pdf\n";
    assert_eq!(detect_classified(None, None, false, Some(1), out).essence(), "text/plain");
    assert_eq!(detect_classified(None, Some("a"), false, None, out).essence(), "text/plain");
    assert_eq!(detect_classified(None, None, true, Some(0), &[0xff]).essence(), "text/plain");
    assert_eq!(detect_classified(None, Some("a.gif"), false, Some(1), out).essence(), "image/gif");
    let declared = MimeType::new("text", "css");
    assert_eq!(
        detect_classified(Some(&declared), None, false, Some(1), out).essence(),
        "text/css"
    );
}
