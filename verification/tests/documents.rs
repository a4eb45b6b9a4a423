use lxp::documents::{base64_decode, base64_encode, checksum, has_pdf_extension, has_pdf_header};
use lxp::lxptypes::{resolve_mode, ApiMode};

#[test]
fn pdf_header_check() {
    assert!(has_pdf_header(b"%PDF-1.7"));
    assert!(has_pdf_header(b"%PDF-"));
    assert!(!has_pdf_header(b"not a PDF"));
    assert!(!has_pdf_header(b"%PDF"));
    assert!(!has_pdf_header(b""));
}

#[test]
fn pdf_extension_check() {
    for (name, expected) in [
        ("letter.pdf", true),
        ("LETTER.PDF", true),
        ("archive.tar.Pdf", true),
        ("letter.pdf.txt", false),
        (".pdf", false),
        ("..pdf", true),
        ("pdf", false),
        ("letter.", false),
        ("letter.pdfx", false),
        ("", false),
    ] {
        let by_path = std::path::Path::new(name)
            .extension()
            .is_some_and(|ext| ext.eq_ignore_ascii_case("pdf"));
        assert_eq!(by_path, expected, "{name}");
        assert_eq!(has_pdf_extension(name), expected, "{name}");
    }
}

#[test]
fn base64_encoding() {
    for (input, expected) in [
        (&b""[..], ""),
        (b"f", "Zg=="),
        (b"fo", "Zm8="),
        (b"foo", "Zm9v"),
        (b"foob", "Zm9vYg=="),
        (b"fooba", "Zm9vYmE="),
        (b"foobar", "Zm9vYmFy"),
        (&[0xff, 0xfe, 0x3e, 0x3f], "//4+Pw=="),
    ] {
        assert_eq!(base64_encode(input), expected.as_bytes());
    }
}

#[test]
fn mode_selection() {
    assert_eq!(resolve_mode(Some(ApiMode::Test), Some("live")), Some(ApiMode::Test));
    assert_eq!(resolve_mode(Some(ApiMode::Live), None), Some(ApiMode::Live));
    assert_eq!(resolve_mode(None, Some("live")), Some(ApiMode::Live));
    assert_eq!(resolve_mode(None, Some("test")), Some(ApiMode::Test));
    assert_eq!(resolve_mode(None, None), Some(ApiMode::Test));
    assert_eq!(resolve_mode(None, Some("LIVE")), None);
}

#[test]
fn base64_decoding() {
    for (text, expected) in [
        ("", &b""[..]),
        ("Zg==", b"f"),
        ("Zm8=", b"fo"),
        ("Zm9v", b"foo"),
        ("Zm9vYg==", b"foob"),
        ("Zm9vYmE=", b"fooba"),
        ("Zm9vYmFy", b"foobar"),
        ("//4+Pw==", &[0xff, 0xfe, 0x3e, 0x3f]),
    ] {
        assert_eq!(base64_decode(text.as_bytes()).as_deref(), Some(expected), "{text}");
    }
    for text in ["Zg=", "Zg", "Zh==", "Zm9=", "Zg==Zg==", "Zm9v!A==", "Z===", "===="] {
        assert_eq!(base64_decode(text.as_bytes()), None, "{text}");
    }
}

#[test]
fn base64_round_trip() {
    let data: Vec<u8> = (0..=255u8).chain([0, 1, 2]).collect();
    for len in 0..data.len() {
        let encoded = base64_encode(&data[..len]);
        assert_eq!(base64_decode(&encoded).as_deref(), Some(&data[..len]));
    }
}

#[test]
fn checksum_is_md5_in_lowercase_hex() {
    assert_eq!(checksum(b""), "d41d8cd98f00b204e9800998ecf8427e");
    assert_eq!(checksum(b"JVBERi0xLjc="), "5b229f541413df9daaac95915f91c884");
}
