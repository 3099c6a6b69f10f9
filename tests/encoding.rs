use llama_chat::encoding::{detect_mime, encode_data_uri, parse_data_uri, select_mime};

const PNG_HEADER: [u8; 12] = [0x89, 0x50, 0x4E, 0x47, 0x0D, 0x0A, 0x1A, 0x0A, 0, 0, 0, 13];

#[test]
fn png_magic_selects_png_mime() {
    assert_eq!(detect_mime(&PNG_HEADER), "image/png");
}

#[test]
fn unrecognized_bytes_select_default_mime() {
    assert_eq!(detect_mime(b"plain words, no magic"), "image/jpeg");
    assert_eq!(detect_mime(&[]), "image/jpeg");
}

#[test]
fn gif_magic_selects_gif_mime() {
    assert_eq!(detect_mime(b"GIF89a\x01\x00"), "image/gif");
}

#[test]
fn select_mime_keeps_detected_type() {
    assert_eq!(select_mime(Some("image/webp".to_string())), "image/webp");
    assert_eq!(select_mime(None), "image/jpeg");
}

#[test]
fn data_uri_padding_cases() {
    assert_eq!(encode_data_uri("image/png", b""), "data:image/png;base64,");
    assert_eq!(encode_data_uri("image/png", b"a"), "data:image/png;base64,YQ==");
    assert_eq!(encode_data_uri("image/png", b"ab"), "data:image/png;base64,YWI=");
    assert_eq!(encode_data_uri("image/png", b"abc"), "data:image/png;base64,YWJj");
    assert_eq!(
        encode_data_uri("image/jpeg", &[0xFF, 0xD8, 0xFF, 0xE0]),
        "data:image/jpeg;base64,/9j/4A=="
    );
}

#[test]
fn data_uri_round_trip_recovers_bytes() {
    let all: Vec<u8> = (0..=255u8).collect();
    let cases: Vec<Vec<u8>> = vec![vec![], vec![0], vec![1, 2], vec![250, 251, 252], PNG_HEADER.to_vec(), all];
    for bytes in cases {
        for mime in ["image/png", "image/jpeg", ""] {
            let uri = encode_data_uri(mime, &bytes);
            assert_eq!(parse_data_uri(&uri), Some((mime.to_string(), bytes.clone())));
        }
    }
}

#[test]
fn parse_data_uri_rejects_malformed() {
    assert_eq!(parse_data_uri("data:image/png;base64,YQ="), None);
    assert_eq!(parse_data_uri("data:image/png;base64,YR=="), None);
    assert_eq!(parse_data_uri("data:image/png;base64,Y!=="), None);
    assert_eq!(parse_data_uri("image/png;base64,YQ=="), None);
    assert_eq!(parse_data_uri("data:image/png,YQ=="), None);
    assert_eq!(parse_data_uri("data:image/png;charset,YQ=="), None);
    assert_eq!(parse_data_uri("data:imäge/png;base64,YQ=="), None);
}
