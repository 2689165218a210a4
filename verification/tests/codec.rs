use gmail_mcp::chars::{chars_to_string, str_to_chars};
use gmail_mcp::json::Json;
use gmail_mcp::mime::{build_mime_message, Attachment};
use gmail_mcp::parse::parse_json;
use gmail_mcp::ser::to_json_string;

fn roundtrip(s: &str) -> Option<String> {
    let cs = str_to_chars(s);
    parse_json(&cs).map(|j| to_json_string(&j))
}

#[test]
fn parse_and_reserialize_compactly() {
    assert_eq!(
        roundtrip(" {\"a\": [1, true, null, \"x\\n\"], \"b\": -2.5e3} ").as_deref(),
        Some("{\"a\":[1,true,null,\"x\\n\"],\"b\":-2.5e3}")
    );
    assert_eq!(roundtrip("\"\\u0041\\u00e9\"").as_deref(), Some("\"A\u{e9}\""));
    assert_eq!(roundtrip("\"\\ud83d\\ude00\"").as_deref(), Some("\"\u{1F600}\""));
    assert_eq!(roundtrip("[]").as_deref(), Some("[]"));
    assert_eq!(roundtrip("{}").as_deref(), Some("{}"));
}

#[test]
fn parse_refuses_malformed_text() {
    assert!(roundtrip("").is_none());
    assert!(roundtrip("   ").is_none());
    assert!(roundtrip("{").is_none());
    assert!(roundtrip("[1,]").is_none());
    assert!(roundtrip("01").is_none());
    assert!(roundtrip("1 2").is_none());
    assert!(roundtrip("\"unterminated").is_none());
    assert!(roundtrip("\"\\ud83d\"").is_none());
    assert!(roundtrip("{\"a\" 1}").is_none());
    assert!(roundtrip("nul").is_none());
}

#[test]
fn parse_limits_nesting_depth() {
    let deep_ok = format!("{}1{}", "[".repeat(128), "]".repeat(128));
    assert!(roundtrip(&deep_ok).is_some());
    let deep_bad = format!("{}1{}", "[".repeat(129), "]".repeat(129));
    assert!(roundtrip(&deep_bad).is_none());
}

#[test]
fn serializer_escapes_controls() {
    let j = Json::Str(str_to_chars("q\"b\\c\u{8}\u{c}\n\r\t\u{1f}"));
    assert_eq!(
        to_json_string(&j),
        "\"q\\\"b\\\\c\\b\\f\\n\\r\\t\\u001f\""
    );
}

#[test]
fn chars_conversions_roundtrip() {
    let v = str_to_chars("héllo \u{1F600}");
    assert_eq!(chars_to_string(&v), "héllo \u{1F600}");
}

#[test]
fn mime_without_attachment_is_exact() {
    let m = build_mime_message("a@b.com", "S", "B", None);
    assert_eq!(
        m,
        "To: a@b.com\r\nSubject: S\r\nContent-Type: multipart/mixed; boundary=\"boundary_marker\"\r\n\r\n--boundary_marker\r\nContent-Type: text/plain; charset=\"UTF-8\"\r\n\r\nB\r\n\r\n--boundary_marker--\r\n"
    );
}

#[test]
fn mime_with_attachment_encodes_base64() {
    let att = Attachment { path: String::from("/tmp/f.txt"), content: b"hello".to_vec() };
    let m = build_mime_message("a@b.com", "S", "B", Some(&att));
    assert_eq!(
        m,
        "To: a@b.com\r\nSubject: S\r\nContent-Type: multipart/mixed; boundary=\"boundary_marker\"\r\n\r\n--boundary_marker\r\nContent-Type: text/plain; charset=\"UTF-8\"\r\n\r\nB\r\n\r\n--boundary_marker\r\nContent-Type: text/plain; name=\"f.txt\"\r\nContent-Transfer-Encoding: base64\r\nContent-Disposition: attachment; filename=\"f.txt\"\r\n\r\naGVsbG8=\r\n\r\n--boundary_marker--\r\n"
    );
}

#[test]
fn mime_unknown_extension_is_octet_stream() {
    let att = Attachment { path: String::from("/tmp/blob.zzz9"), content: vec![0u8, 255u8] };
    let m = build_mime_message("a@b.com", "S", "B", Some(&att));
    assert!(m.contains("Content-Type: application/octet-stream; name=\"blob.zzz9\""));
    assert!(m.contains("\r\n\r\nAP8=\r\n\r\n"));
}
