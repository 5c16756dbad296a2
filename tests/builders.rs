use tgbot::media::{InputMediaVideo, ParseMode};
use tgbot::message::{TextEntity, TextEntityPosition};
use tgbot::order::{OrderInfo, ShippingAddress};

#[test]
fn video_fields_are_set() {
    let video = InputMediaVideo::default()
        .with_caption("caption".to_string())
        .with_duration(10)
        .with_has_spoiler(true)
        .with_height(200)
        .with_show_caption_above_media(false)
        .with_supports_streaming(true)
        .with_width(300);
    assert_eq!(video.caption.as_deref(), Some("caption"));
    assert_eq!(video.duration, Some(10));
    assert_eq!(video.has_spoiler, Some(true));
    assert_eq!(video.height, Some(200));
    assert_eq!(video.show_caption_above_media, Some(false));
    assert_eq!(video.supports_streaming, Some(true));
    assert_eq!(video.width, Some(300));
    assert_eq!(video.parse_mode, None);
    assert_eq!(video.caption_entities, None);
}

#[test]
fn caption_entities_and_parse_mode_exclude_each_other() {
    let entity = TextEntity::Bold(TextEntityPosition { offset: 0, length: 3 });
    let video = InputMediaVideo::default()
        .with_caption_parse_mode(ParseMode::Markdown)
        .with_caption_entities(vec![entity.clone()]);
    assert_eq!(video.caption_entities, Some(vec![entity.clone()]));
    assert_eq!(video.parse_mode, None);

    let video = video.with_caption_parse_mode(ParseMode::Html);
    assert_eq!(video.parse_mode, Some(ParseMode::Html));
    assert_eq!(video.caption_entities, None);
}

#[test]
fn default_video_is_empty() {
    let video = InputMediaVideo::default();
    assert_eq!(video.caption, None);
    assert_eq!(video.width, None);
}

#[test]
fn order_fields_are_set() {
    let address = ShippingAddress {
        country_code: "RU".to_string(),
        state: "Chechen Republic".to_string(),
        city: "Gudermes".to_string(),
        street_line1: "Nuradilov st., 12".to_string(),
        street_line2: String::new(),
        post_code: "366200".to_string(),
    };
    let order = OrderInfo::default()
        .with_email("u@h.z".to_string())
        .with_name("User".to_string())
        .with_phone_number("+79001231212".to_string())
        .with_shipping_address(address.clone());
    assert_eq!(order.email.as_deref(), Some("u@h.z"));
    assert_eq!(order.name.as_deref(), Some("User"));
    assert_eq!(order.phone_number.as_deref(), Some("+79001231212"));
    assert_eq!(order.shipping_address, Some(address));
}

#[test]
fn default_order_is_empty() {
    let order = OrderInfo::default();
    assert_eq!(order.email, None);
    assert_eq!(order.name, None);
    assert_eq!(order.phone_number, None);
    assert_eq!(order.shipping_address, None);
}
