use crablet::multimodal::{describe_request, guess_mime_type};
use crablet::types::ContentPart;

#[test]
fn mime_type_follows_extension() {
    assert_eq!(guess_mime_type("a.png"), "image/png");
    assert_eq!(guess_mime_type("a.jpg"), "image/jpeg");
    assert_eq!(guess_mime_type("a.jpeg"), "image/jpeg");
    assert_eq!(guess_mime_type("dir/a.webp"), "image/webp");
    assert_eq!(guess_mime_type("a.gif"), "image/jpeg");
    assert_eq!(guess_mime_type("png"), "image/jpeg");
}

#[test]
fn describe_request_carries_a_data_url() {
    let m = describe_request(b"hi", "cat.png");
    assert_eq!(m.role, "user");
    let parts = m.content.unwrap();
    assert_eq!(parts.len(), 2);
    match &parts[0] {
        ContentPart::Text { text } => assert_eq!(text, "Please describe this image in detail."),
        _ => panic!("first part is not text"),
    }
    match &parts[1] {
        ContentPart::ImageUrl { image_url } => assert_eq!(image_url.url, "data:image/png;base64,aGk="),
        _ => panic!("second part is not an image"),
    }
    match &describe_request(b"", "x.jpg").content.unwrap()[1] {
        ContentPart::ImageUrl { image_url } => assert_eq!(image_url.url, "data:image/jpeg;base64,"),
        _ => panic!("second part is not an image"),
    }
}
