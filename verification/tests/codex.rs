use cloche::codex::payload_image;
use cloche::codex::turn_payload;
use cloche::contract::ImageDetail;
use cloche::contract::ImageInfo;
use cloche::json::JsonValue;

fn to_serde(value: JsonValue) -> serde_json::Value {
    match value {
        JsonValue::Null => serde_json::Value::Null,
        JsonValue::Bool(b) => serde_json::Value::Bool(b),
        JsonValue::Number(_) => serde_json::Value::Null,
        JsonValue::Str(s) => serde_json::Value::String(s),
        JsonValue::Array(items) => serde_json::Value::Array(items.into_iter().map(to_serde).collect()),
        JsonValue::Object(fields) => {
            serde_json::Value::Object(fields.into_iter().map(|(k, v)| (k, to_serde(v))).collect())
        }
    }
}

#[test]
fn the_payload_attaches_text_and_image() {
    let payload = to_serde(turn_payload("t-1", "Appshot attached.", Some("  Save\n"), "/tmp/a.png", ImageDetail::High));
    let expected: serde_json::Value = serde_json::from_str(
        r#"{"method":"turn/start","params":{"threadId":"t-1","input":[
            {"type":"text","text":"Appshot attached.","textElements":[]},
            {"type":"text","text":"Available app text:\nSave","textElements":[]},
            {"type":"localImage","path":"/tmp/a.png","detail":"high"}]}}"#,
    )
    .expect("valid JSON");
    assert_eq!(payload, expected);
}

#[test]
fn blank_app_text_is_left_out() {
    let payload = to_serde(turn_payload("t", "m", Some(" \n "), "/p.png", ImageDetail::Original));
    assert_eq!(payload["params"]["input"].as_array().map(Vec::len), Some(2));
}

#[test]
fn a_failed_capture_has_no_payload() {
    let image = ImageInfo {
        path: "/tmp/a.png".to_string(),
        width: None,
        height: None,
        bytes: 1,
        mime: "image/png".to_string(),
        detail: ImageDetail::High,
    };
    assert!(payload_image(false, false, Some(&image), None).unwrap_err().contains("not successful"));
    assert_eq!(payload_image(true, false, None, None).unwrap_err(), "capture metadata does not include an image");
    assert_eq!(payload_image(true, false, Some(&image), None).unwrap(), "/tmp/a.png");
}

#[test]
fn the_card_flag_attaches_the_presentation_image() {
    let raw = ImageInfo {
        path: "/tmp/a.raw.png".to_string(),
        width: None,
        height: None,
        bytes: 1,
        mime: "image/png".to_string(),
        detail: ImageDetail::Original,
    };
    let card = ImageInfo { path: "/tmp/a.png".to_string(), ..raw.clone() };
    assert_eq!(payload_image(true, true, Some(&raw), Some(&card)).unwrap(), "/tmp/a.png");
    assert_eq!(payload_image(true, false, Some(&raw), Some(&card)).unwrap(), "/tmp/a.raw.png");
    assert_eq!(
        payload_image(true, true, Some(&raw), None).unwrap_err(),
        "capture metadata does not include a presentation image"
    );
}
