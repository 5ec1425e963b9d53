//! Clip / track media types and text alignment.

use vstd::prelude::*;

verus! {

/// Clip / track media type. The lowercase names (`as_str`) are part of the
/// wire format.
#[derive(Debug, Clone, Copy, PartialEq, Eq, Structural)]
pub enum ClipType {
    Video,
    Audio,
    Image,
    Text,
    Lottie,
}

/// Text alignment inside a text clip's box.
#[derive(Debug, Clone, Copy, PartialEq, Eq, Structural)]
pub enum Alignment {
    Left,
    Center,
    Right,
}

impl ClipType {
    /// Every type but audio is visual.
    pub open spec fn spec_is_visual(self) -> bool {
        !(self is Audio)
    }

    /// Same type, or both visual.
    pub open spec fn spec_is_compatible_with(self, other: ClipType) -> bool {
        self == other || (self.spec_is_visual() && other.spec_is_visual())
    }

    pub open spec fn spec_name(self) -> Seq<char> {
        match self {
            ClipType::Video => "video"@,
            ClipType::Audio => "audio"@,
            ClipType::Image => "image"@,
            ClipType::Text => "text"@,
            ClipType::Lottie => "lottie"@,
        }
    }

    /// Visual tracks hold any visual clip type (video / image / text /
    /// lottie); audio holds only audio.
    pub fn is_visual(self) -> (r: bool)
        ensures
            r == self.spec_is_visual(),
    {
        match self {
            ClipType::Video | ClipType::Image | ClipType::Text | ClipType::Lottie => true,
            ClipType::Audio => false,
        }
    }

    pub fn is_compatible_with(self, other: Self) -> (r: bool)
        ensures
            r == self.spec_is_compatible_with(other),
    {
        self == other || (self.is_visual() && other.is_visual())
    }

    /// The lowercase wire name.
    pub fn as_str(self) -> (r: &'static str)
        ensures
            r@ == self.spec_name(),
    {
        match self {
            ClipType::Video => "video",
            ClipType::Audio => "audio",
            ClipType::Image => "image",
            ClipType::Text => "text",
            ClipType::Lottie => "lottie",
        }
    }
}

pub open spec fn spec_clip_type_label(t: ClipType) -> Seq<char> {
    match t {
        ClipType::Video => "Video"@,
        ClipType::Audio => "Audio"@,
        ClipType::Image => "Image"@,
        ClipType::Text => "Text"@,
        ClipType::Lottie => "Lottie"@,
    }
}

/// Short capitalised label for a media type.
pub fn clip_type_label(t: ClipType) -> (r: &'static str)
    ensures
        r@ == spec_clip_type_label(t),
{
    match t {
        ClipType::Video => "Video",
        ClipType::Audio => "Audio",
        ClipType::Image => "Image",
        ClipType::Text => "Text",
        ClipType::Lottie => "Lottie",
    }
}

impl Alignment {
    pub open spec fn spec_name(self) -> Seq<char> {
        match self {
            Alignment::Left => "left"@,
            Alignment::Center => "center"@,
            Alignment::Right => "right"@,
        }
    }

    /// The lowercase wire name.
    pub fn as_str(self) -> (r: &'static str)
        ensures
            r@ == self.spec_name(),
    {
        match self {
            Alignment::Left => "left",
            Alignment::Center => "center",
            Alignment::Right => "right",
        }
    }
}

} // verus!
