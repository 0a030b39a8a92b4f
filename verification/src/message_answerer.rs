//! What is decided when a message goes out: its text, and how its media
//! are sent.

use vstd::prelude::*;

verus! {

/// How a message goes out, by the number of media that the store holds for
/// its literal.
#[derive(Clone, Copy, Debug, PartialEq, Eq, Structural)]
pub enum AnswerKind {
    /// just a text
    Text,
    /// single media
    SingleMedia,
    /// >= 2, should use media group
    MediaGroup,
}

/// The text that stands in for a literal without content.
pub open spec fn missing_content_text() -> Seq<char> {
    "Please, set content of this message"@
}

/// The text of a message: the text of the variant where there is one, the
/// text of the literal otherwise, and a stand-in where the store holds
/// neither.
pub fn get_text(variant_text: Option<String>, literal_text: Option<String>) -> (text: String)
    ensures
        text@ == match (variant_text, literal_text) {
            (Some(v), _) => v@,
            (None, Some(l)) => l@,
            (None, None) => missing_content_text(),
        },
{
    match variant_text {
        Some(text) => text,
        None => match literal_text {
            Some(text) => text,
            None => "Please, set content of this message".to_owned(),
        },
    }
}

/// Whether the admin is told that a variant has no text: only where a
/// variant was asked for, the store holds none, and the message is not an
/// edit in place.
pub fn variant_is_missing(variant_asked: bool, variant_found: bool, is_replace: bool) -> (missing:
    bool)
    ensures
        missing == (variant_asked && !variant_found && !is_replace),
{
    variant_asked && !variant_found && !is_replace
}

/// How a message with `media_count` media goes out.
pub fn answer_kind(media_count: usize) -> (kind: AnswerKind)
    ensures
        kind == if media_count == 0 {
            AnswerKind::Text
        } else if media_count == 1 {
            AnswerKind::SingleMedia
        } else {
            AnswerKind::MediaGroup
        },
{
    if media_count == 0 {
        AnswerKind::Text
    } else if media_count == 1 {
        AnswerKind::SingleMedia
    } else {
        AnswerKind::MediaGroup
    }
}

/// The caption of the medium at the place `index` of a group: the text
/// stands under the first medium, and an empty text is no caption.
pub fn group_caption(index: usize, text: &str) -> (caption: Option<String>)
    ensures
        match caption {
            Some(c) => index == 0 && text@.len() > 0 && c@ == text@,
            None => index != 0 || text@.len() == 0,
        },
{
    if index == 0 && text.unicode_len() > 0 {
        Some(text.to_owned())
    } else {
        None
    }
}

} // verus!
