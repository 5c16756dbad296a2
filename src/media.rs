//! A video to be sent, described field by field.
use vstd::prelude::*;

use crate::message::{Integer, TextEntities};

verus! {

/// How the text of a caption is to be read for formatting.
#[derive(Clone, Copy, Debug, PartialEq, Eq)]
pub enum ParseMode {
    Html,
    Markdown,
    MarkdownV2,
}

/// A video to be sent. Every field is optional; a caption carries either
/// explicit entities or a parse mode, and setting one clears the other.
#[derive(Clone, Debug, PartialEq, Eq)]
pub struct InputMediaVideo {
    /// The caption, 0 to 1024 characters.
    pub caption: Option<String>,
    /// The special entities of the caption.
    pub caption_entities: Option<TextEntities>,
    /// The duration.
    pub duration: Option<Integer>,
    /// Whether the video is covered with a spoiler animation.
    pub has_spoiler: Option<bool>,
    /// The height.
    pub height: Option<Integer>,
    /// How the caption is read for formatting.
    pub parse_mode: Option<ParseMode>,
    /// Whether the caption is shown above the video.
    pub show_caption_above_media: Option<bool>,
    /// Whether the video suits streaming.
    pub supports_streaming: Option<bool>,
    /// The width.
    pub width: Option<Integer>,
}

impl Default for InputMediaVideo {
    fn default() -> (r: InputMediaVideo)
        ensures
            r.caption is None,
            r.caption_entities is None,
            r.duration is None,
            r.has_spoiler is None,
            r.height is None,
            r.parse_mode is None,
            r.show_caption_above_media is None,
            r.supports_streaming is None,
            r.width is None,
    {
        InputMediaVideo {
            caption: None,
            caption_entities: None,
            duration: None,
            has_spoiler: None,
            height: None,
            parse_mode: None,
            show_caption_above_media: None,
            supports_streaming: None,
            width: None,
        }
    }
}

impl InputMediaVideo {
    /// Sets the caption (0 to 1024 characters).
    pub fn with_caption(self, value: String) -> (r: Self)
        ensures
            r == (InputMediaVideo { caption: Some(value), ..self }),
    {
        InputMediaVideo { caption: Some(value), ..self }
    }

    /// Sets the entities of the caption; clears the parse mode.
    pub fn with_caption_entities(self, value: TextEntities) -> (r: Self)
        ensures
            r == (InputMediaVideo { caption_entities: Some(value), parse_mode: None, ..self }),
    {
        InputMediaVideo { caption_entities: Some(value), parse_mode: None, ..self }
    }

    /// Sets the parse mode of the caption; clears the caption entities.
    pub fn with_caption_parse_mode(self, value: ParseMode) -> (r: Self)
        ensures
            r == (InputMediaVideo { parse_mode: Some(value), caption_entities: None, ..self }),
    {
        InputMediaVideo { parse_mode: Some(value), caption_entities: None, ..self }
    }

    /// Sets the duration.
    pub fn with_duration(self, value: Integer) -> (r: Self)
        ensures
            r == (InputMediaVideo { duration: Some(value), ..self }),
    {
        InputMediaVideo { duration: Some(value), ..self }
    }

    /// Sets whether the video is covered with a spoiler animation.
    pub fn with_has_spoiler(self, value: bool) -> (r: Self)
        ensures
            r == (InputMediaVideo { has_spoiler: Some(value), ..self }),
    {
        InputMediaVideo { has_spoiler: Some(value), ..self }
    }

    /// Sets the height.
    pub fn with_height(self, value: Integer) -> (r: Self)
        ensures
            r == (InputMediaVideo { height: Some(value), ..self }),
    {
        InputMediaVideo { height: Some(value), ..self }
    }

    /// Sets whether the caption is shown above the video.
    pub fn with_show_caption_above_media(self, value: bool) -> (r: Self)
        ensures
            r == (InputMediaVideo { show_caption_above_media: Some(value), ..self }),
    {
        InputMediaVideo { show_caption_above_media: Some(value), ..self }
    }

    /// Sets whether the video suits streaming.
    pub fn with_supports_streaming(self, value: bool) -> (r: Self)
        ensures
            r == (InputMediaVideo { supports_streaming: Some(value), ..self }),
    {
        InputMediaVideo { supports_streaming: Some(value), ..self }
    }

    /// Sets the width.
    pub fn with_width(self, value: Integer) -> (r: Self)
        ensures
            r == (InputMediaVideo { width: Some(value), ..self }),
    {
        InputMediaVideo { width: Some(value), ..self }
    }
}

} // verus!
