use ftp_browser::clock::{now_millis, system_time_millis};
use ftp_browser::exif::{
    decode_bytes_utf16, decode_utf16, entry_to_string, entry_to_timestamp, entry_to_u32,
    parse_exif_datetime, parse_exif_rating, parse_exif_tags, MetaValue,
};
use ftp_browser::mime::{data_url, mime_from_path};

#[test]
fn utf16_payloads_decode_up_to_nul() {
    let units: Vec<u16> = vec![104, 105, 0, 120];
    assert_eq!(decode_utf16(&units), Some("hi".to_string()));
    assert_eq!(decode_utf16(&[0, 104]), None);
    assert_eq!(decode_utf16(&[]), None);
    // a lone surrogate is invalid UTF-16
    assert_eq!(decode_utf16(&[0xD800]), None);
}

#[test]
fn utf16_byte_payloads_decode_little_endian() {
    let bytes: Vec<u8> = vec![104, 0, 105, 0];
    assert_eq!(decode_bytes_utf16(&bytes), Some("hi".to_string()));
    assert_eq!(decode_bytes_utf16(&[104, 0, 105]), None);
    // 0x0142 little-endian: one non-ASCII character
    assert_eq!(decode_bytes_utf16(&[0x42, 0x01]), Some("\u{142}".to_string()));
}

#[test]
fn tag_lists_split_trim_and_drop_empties() {
    assert_eq!(parse_exif_tags("a; b,,c "), vec!["a", "b", "c"]);
    assert_eq!(parse_exif_tags(" ; , "), Vec::<String>::new());
    assert_eq!(parse_exif_tags("one two; three"), vec!["one two", "three"]);
    assert_eq!(parse_exif_tags(""), Vec::<String>::new());
}

#[test]
fn ratings_read_the_digits() {
    assert_eq!(parse_exif_rating("Rating: 5"), Some(5));
    assert_eq!(parse_exif_rating("75%"), Some(75));
    assert_eq!(parse_exif_rating("4 out of 5"), Some(45));
    assert_eq!(parse_exif_rating("none"), None);
    assert_eq!(parse_exif_rating("99999999999999"), None);
}

#[test]
fn exif_datetimes_parse_both_layouts() {
    let colon = parse_exif_datetime("2023:01:02 03:04:05");
    let dash = parse_exif_datetime(" 2023-01-02 03:04:05 ");
    assert_eq!(colon, Some(1672628645000));
    assert_eq!(dash, colon);
    assert_eq!(parse_exif_datetime(""), None);
    assert_eq!(parse_exif_datetime("   "), None);
    assert_eq!(parse_exif_datetime("not a date"), None);
}

#[test]
fn entry_values_reduce_to_strings() {
    assert_eq!(
        entry_to_string(&MetaValue::Text("hello".to_string())),
        Some("hello".to_string())
    );
    assert_eq!(
        entry_to_string(&MetaValue::U8Array(b"plain".to_vec())),
        Some("plain".to_string())
    );
    // multi-byte UTF-8 decodes to one character
    assert_eq!(
        entry_to_string(&MetaValue::U8Array(vec![0xC3, 0xA9])),
        Some("\u{e9}".to_string())
    );
    assert_eq!(entry_to_string(&MetaValue::U8Array(vec![0xFF])), None);
    assert_eq!(
        entry_to_string(&MetaValue::U16Array(vec![104, 105, 0])),
        Some("hi".to_string())
    );
    // an undefined payload tries UTF-16 first, then UTF-8
    assert_eq!(
        entry_to_string(&MetaValue::Undefined(vec![104, 0, 105, 0])),
        Some("hi".to_string())
    );
    assert_eq!(
        entry_to_string(&MetaValue::Undefined(b"abc".to_vec())),
        Some("abc".to_string())
    );
    assert_eq!(entry_to_string(&MetaValue::Other), None);
    assert_eq!(entry_to_string(&MetaValue::Unsigned(5)), None);
}

#[test]
fn entry_values_reduce_to_timestamps() {
    let dated = MetaValue::Timestamped {
        formatted: "2023:01:02 03:04:05".to_string(),
        millis: 42,
    };
    assert_eq!(entry_to_timestamp(&dated), Some(42));
    let text = MetaValue::Text("2023:01:02 03:04:05".to_string());
    assert_eq!(entry_to_timestamp(&text), Some(1672628645000));
    assert_eq!(entry_to_timestamp(&MetaValue::Other), None);
}

#[test]
fn entry_values_reduce_to_numbers() {
    assert_eq!(entry_to_u32(&MetaValue::Unsigned(5)), Some(5));
    assert_eq!(entry_to_u32(&MetaValue::Unsigned(0x1_0000_0005)), Some(5));
    assert_eq!(entry_to_u32(&MetaValue::Signed(-1)), Some(4294967295));
    assert_eq!(entry_to_u32(&MetaValue::Signed(7)), Some(7));
    assert_eq!(
        entry_to_u32(&MetaValue::Text("Rating 4".to_string())),
        Some(4)
    );
    assert_eq!(entry_to_u32(&MetaValue::Other), None);
}

#[test]
fn mime_types_follow_the_extension() {
    assert_eq!(mime_from_path("photo.png"), "image/png");
    assert_eq!(mime_from_path("PHOTO.PNG"), "image/png");
    assert_eq!(mime_from_path("a.jpg"), "image/jpeg");
    assert_eq!(mime_from_path("a.jpeg"), "image/jpeg");
    assert_eq!(mime_from_path("a.gif"), "image/gif");
    assert_eq!(mime_from_path("a.bmp"), "image/bmp");
    assert_eq!(mime_from_path("a.webp"), "image/webp");
    assert_eq!(mime_from_path("a.tif"), "image/tiff");
    assert_eq!(mime_from_path("a.tiff"), "image/tiff");
    assert_eq!(mime_from_path("a.mp4"), "video/mp4");
    assert_eq!(mime_from_path("a.m4v"), "video/mp4");
    assert_eq!(mime_from_path("a.mov"), "video/quicktime");
    assert_eq!(mime_from_path("a.webm"), "video/webm");
    assert_eq!(mime_from_path("a.mkv"), "video/x-matroska");
    assert_eq!(mime_from_path("a.avi"), "video/x-msvideo");
    assert_eq!(mime_from_path("a.txt"), "application/octet-stream");
    assert_eq!(mime_from_path("nodot"), "application/octet-stream");
}

#[test]
fn data_urls_carry_base64_payload() {
    assert_eq!(data_url("image/png", &vec![1, 2, 3]), "data:image/png;base64,AQID");
    assert_eq!(data_url("video/mp4", &vec![]), "data:video/mp4;base64,");
    // padded output for a length that is not a multiple of three
    assert_eq!(data_url("image/gif", &vec![255]), "data:image/gif;base64,/w==");
}

#[test]
fn clock_readings_are_plausible() {
    assert_eq!(system_time_millis(std::time::UNIX_EPOCH), Some(0));
    let later = std::time::UNIX_EPOCH + std::time::Duration::from_millis(1500);
    assert_eq!(system_time_millis(later), Some(1500));
    assert!(now_millis() > 0);
}
