use transformrs::Content;
use transformrs::Json;
use transformrs::Message;
use transformrs::SubContent;

fn text_of(j: &Json) -> Option<&str> {
    match j {
        Json::Str(s) => Some(s.as_str()),
        _ => None,
    }
}

#[test]
fn text_message_round_trip_keeps_a_bare_string() {
    let m = Message::from_str("user", "hi");
    let j = m.to_json();
    let content = j.get("content").unwrap();
    assert_eq!(text_of(content), Some("hi"));
    assert_eq!(text_of(j.get("role").unwrap()), Some("user"));
    let back = Message::from_json(&j).unwrap();
    assert_eq!(back.role, "user");
    match back.content {
        Content::Text(t) => assert_eq!(t, "hi"),
        Content::Collection(_) => panic!("text came back as parts"),
    }
}

#[test]
fn two_part_message_round_trip() {
    let m = Message {
        role: "user".to_string(),
        content: Content::Collection(vec![
            SubContent::new("text", "What is this?"),
            SubContent::new("image_url", "https://x.example/a.png"),
        ]),
    };
    let j = m.to_json();
    match j.get("content").unwrap() {
        Json::Array(items) => {
            assert_eq!(items.len(), 2);
            assert_eq!(text_of(items[0].get("type").unwrap()), Some("text"));
            assert_eq!(text_of(items[0].get("text").unwrap()), Some("What is this?"));
            assert_eq!(text_of(items[1].get("type").unwrap()), Some("image_url"));
            let inner = items[1].get("image_url").unwrap();
            assert_eq!(text_of(inner.get("url").unwrap()), Some("https://x.example/a.png"));
        }
        _ => panic!("parts are not an array"),
    }
    let back = Message::from_json(&j).unwrap();
    match back.content {
        Content::Collection(parts) => {
            assert_eq!(parts.len(), 2);
            match &parts[0] {
                SubContent::TextContent { text } => assert_eq!(text, "What is this?"),
                _ => panic!("first part changed kind"),
            }
            match &parts[1] {
                SubContent::ImageUrlContent { image_url } => assert_eq!(image_url, "https://x.example/a.png"),
                _ => panic!("second part changed kind"),
            }
        }
        Content::Text(_) => panic!("parts came back as text"),
    }
}

#[test]
fn content_of_the_wrong_shape_is_rejected() {
    assert!(Content::from_json(&Json::Bool(true)).is_none());
    let bad_part = Json::Array(vec![Json::Object(vec![("type".to_string(), Json::Str("audio".to_string()))])]);
    assert!(Content::from_json(&bad_part).is_none());
}

#[test]
fn image_url_message_has_one_part() {
    let m = Message::from_image_url("user", "https://transformrs.org/sunset.jpg");
    match m.content {
        Content::Collection(parts) => {
            assert_eq!(parts.len(), 1);
            match &parts[0] {
                SubContent::ImageUrlContent { image_url } => {
                    assert_eq!(image_url, "https://transformrs.org/sunset.jpg")
                }
                _ => panic!("not an image part"),
            }
        }
        Content::Text(_) => panic!("not parts"),
    }
}

#[test]
fn image_bytes_become_a_base64_data_url() {
    let m = Message::from_image_bytes("user", "jpeg", &[1, 2, 3, 255]);
    match m.content {
        Content::Collection(parts) => match &parts[0] {
            SubContent::ImageUrlContent { image_url } => assert_eq!(image_url, "data:image/jpeg;base64,AQID/w=="),
            _ => panic!("not an image part"),
        },
        Content::Text(_) => panic!("not parts"),
    }
}

#[test]
fn sub_content_kinds() {
    match SubContent::new("text", "a") {
        SubContent::TextContent { text } => assert_eq!(text, "a"),
        _ => panic!("wrong kind"),
    }
    match SubContent::new("image_url", "u") {
        SubContent::ImageUrlContent { image_url } => assert_eq!(image_url, "u"),
        _ => panic!("wrong kind"),
    }
}
