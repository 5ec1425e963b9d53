//! The static catalog of generation models and its JSON descriptions.

use vstd::prelude::*;
use crate::json::{
    Json, JsonNumber, JsonValue, int_number, json_of_members, json_of_seq, lemma_find_key_absent, lemma_find_key_first,
    lemma_json_of_members, lemma_json_of_seq,
};
use crate::reals::Real;
use crate::text::string_of;

verus! {

/// Capabilities of a video model.
pub struct VideoCaps {
    pub durations: Vec<i64>,
    pub resolutions: Option<Vec<&'static str>>,
    pub aspect_ratios: Vec<&'static str>,
    pub supports_first_frame: bool,
    pub supports_last_frame: bool,
    pub max_reference_images: usize,
    pub max_reference_videos: usize,
    pub max_reference_audios: usize,
    pub max_total_references: Option<usize>,
    /// Whole seconds.
    pub max_combined_video_ref_seconds: Option<i64>,
    /// Whole seconds.
    pub max_combined_audio_ref_seconds: Option<i64>,
    pub frames_and_references_exclusive: bool,
    pub reference_tag_noun: &'static str,
    pub requires_source_video: bool,
    pub requires_reference_image: bool,
}

/// A video generation model.
pub struct VideoModelConfig {
    pub id: &'static str,
    pub display_name: &'static str,
    /// Provider / vendor name.
    pub provider: &'static str,
    pub caps: VideoCaps,
    /// Credits per second, by resolution (empty: any).
    pub credits_per_second: Vec<(&'static str, Real)>,
}

/// Capabilities of an image model.
pub struct ImageCaps {
    pub resolutions: Option<Vec<&'static str>>,
    pub aspect_ratios: Vec<&'static str>,
    pub qualities: Option<Vec<&'static str>>,
    pub supports_image_reference: bool,
    pub max_images: usize,
}

/// An image generation model.
pub struct ImageModelConfig {
    pub id: &'static str,
    pub display_name: &'static str,
    pub provider: &'static str,
    pub caps: ImageCaps,
    /// Credits per image, by resolution.
    pub credits_per_image: Vec<(&'static str, Real)>,
}

pub ghost struct VideoCapsView {
    pub durations: Seq<i64>,
    pub resolutions: Option<Seq<Seq<char>>>,
    pub aspect_ratios: Seq<Seq<char>>,
    pub supports_first_frame: bool,
    pub supports_last_frame: bool,
    pub max_reference_images: usize,
    pub max_reference_videos: usize,
    pub max_reference_audios: usize,
    pub max_total_references: Option<usize>,
    pub max_combined_video_ref_seconds: Option<i64>,
    pub max_combined_audio_ref_seconds: Option<i64>,
    pub frames_and_references_exclusive: bool,
    pub reference_tag_noun: Seq<char>,
    pub requires_source_video: bool,
    pub requires_reference_image: bool,
}

pub ghost struct VideoModelView {
    pub id: Seq<char>,
    pub display_name: Seq<char>,
    pub provider: Seq<char>,
    pub caps: VideoCapsView,
    pub credits_per_second: Seq<(Seq<char>, Real)>,
}

pub ghost struct ImageCapsView {
    pub resolutions: Option<Seq<Seq<char>>>,
    pub aspect_ratios: Seq<Seq<char>>,
    pub qualities: Option<Seq<Seq<char>>>,
    pub supports_image_reference: bool,
    pub max_images: usize,
}

pub ghost struct ImageModelView {
    pub id: Seq<char>,
    pub display_name: Seq<char>,
    pub provider: Seq<char>,
    pub caps: ImageCapsView,
    pub credits_per_image: Seq<(Seq<char>, Real)>,
}

pub open spec fn opt_strs(v: Option<Vec<&'static str>>) -> Option<Seq<Seq<char>>> {
    match v {
        Some(x) => Some(strs_of(x@)),
        None => None,
    }
}

pub open spec fn prices(v: Seq<(&'static str, Real)>) -> Seq<(Seq<char>, Real)> {
    v.map_values(|p: (&'static str, Real)| (p.0@, p.1))
}

impl View for VideoCaps {
    type V = VideoCapsView;

    open spec fn view(&self) -> VideoCapsView {
        let c = *self;
        VideoCapsView {
                durations: c.durations@,
                resolutions: opt_strs(c.resolutions),
                aspect_ratios: strs_of(c.aspect_ratios@),
                supports_first_frame: c.supports_first_frame,
                supports_last_frame: c.supports_last_frame,
                max_reference_images: c.max_reference_images,
                max_reference_videos: c.max_reference_videos,
                max_reference_audios: c.max_reference_audios,
                max_total_references: c.max_total_references,
                max_combined_video_ref_seconds: c.max_combined_video_ref_seconds,
                max_combined_audio_ref_seconds: c.max_combined_audio_ref_seconds,
                frames_and_references_exclusive: c.frames_and_references_exclusive,
                reference_tag_noun: c.reference_tag_noun@,
                requires_source_video: c.requires_source_video,
                requires_reference_image: c.requires_reference_image,
        }
    }
}

impl View for VideoModelConfig {
    type V = VideoModelView;

    open spec fn view(&self) -> VideoModelView {
        VideoModelView {
            id: self.id@,
            display_name: self.display_name@,
            provider: self.provider@,
            caps: self.caps@,
            credits_per_second: prices(self.credits_per_second@),
        }
    }
}

impl View for ImageCaps {
    type V = ImageCapsView;

    open spec fn view(&self) -> ImageCapsView {
        ImageCapsView {
            resolutions: opt_strs(self.resolutions),
            aspect_ratios: strs_of(self.aspect_ratios@),
            qualities: opt_strs(self.qualities),
            supports_image_reference: self.supports_image_reference,
            max_images: self.max_images,
        }
    }
}

impl View for ImageModelConfig {
    type V = ImageModelView;

    open spec fn view(&self) -> ImageModelView {
        ImageModelView {
            id: self.id@,
            display_name: self.display_name@,
            provider: self.provider@,
            caps: self.caps@,
            credits_per_image: prices(self.credits_per_image@),
        }
    }
}

pub open spec fn strs_of(v: Seq<&'static str>) -> Seq<Seq<char>> {
    v.map_values(|x: &'static str| x@)
}

/// A JSON array of strings.
pub open spec fn str_array(v: Seq<Seq<char>>) -> Json {
    Json::Array(v.map_values(|x: Seq<char>| Json::Str(x)))
}

/// A JSON array of integers.
pub open spec fn int_array(v: Seq<i64>) -> Json {
    Json::Array(v.map_values(|x: i64| Json::Number(int_number(x))))
}

/// A non-negative count as JSON.
pub open spec fn count_json(n: usize) -> Json {
    Json::Number(JsonNumber::PosInt(n as u64))
}

/// `[(key, value)]` when `cond`, else nothing.
pub open spec fn member_if(cond: bool, key: Seq<char>, value: Json) -> Seq<(Seq<char>, Json)> {
    if cond { seq![(key, value)] } else { Seq::empty() }
}

/// `s` with `(key, value)` appended when `cond`.
pub open spec fn push_if(s: Seq<(Seq<char>, Json)>, cond: bool, key: Seq<char>, value: Json) -> Seq<(Seq<char>, Json)> {
    if cond { s.push((key, value)) } else { s }
}

/// `s` followed by the reference limits of a model that takes references.
pub open spec fn with_ref_members(s: Seq<(Seq<char>, Json)>, c: VideoCapsView) -> Seq<(Seq<char>, Json)> {
    let w1 = push_if(s, c.max_reference_images > 0, "maxReferenceImages"@, count_json(c.max_reference_images));
    let w2 = push_if(w1, c.max_reference_videos > 0, "maxReferenceVideos"@, count_json(c.max_reference_videos));
    let w3 = push_if(w2, c.max_reference_audios > 0, "maxReferenceAudios"@, count_json(c.max_reference_audios));
    let w4 = match c.max_total_references {
        Some(t) => w3.push(("maxTotalReferences"@, count_json(t))),
        None => w3,
    };
    let w5 = match c.max_combined_video_ref_seconds {
        Some(x) => w4.push(("maxCombinedVideoRefSeconds"@, Json::Number(int_number(x)))),
        None => w4,
    };
    let w6 = match c.max_combined_audio_ref_seconds {
        Some(x) => w5.push(("maxCombinedAudioRefSeconds"@, Json::Number(int_number(x)))),
        None => w5,
    };
    let w7 = push_if(w6, c.frames_and_references_exclusive, "framesAndReferencesExclusive"@, Json::Bool(true));
    w7.push(("referenceTagNoun"@, Json::Str(c.reference_tag_noun)))
}

fn push_ref_members(m: &mut Vec<(String, JsonValue)>, c: &VideoCaps)
    ensures
        json_of_members(final(m)@) == with_ref_members(json_of_members(old(m)@), c@),
{
    if c.max_reference_images > 0 {
        push_member(m, "maxReferenceImages", count_value(c.max_reference_images));
    }
    if c.max_reference_videos > 0 {
        push_member(m, "maxReferenceVideos", count_value(c.max_reference_videos));
    }
    if c.max_reference_audios > 0 {
        push_member(m, "maxReferenceAudios", count_value(c.max_reference_audios));
    }
    match c.max_total_references {
        Some(t) => push_member(m, "maxTotalReferences", count_value(t)),
        None => {},
    }
    match c.max_combined_video_ref_seconds {
        Some(x) => push_member(m, "maxCombinedVideoRefSeconds", JsonValue::integer(x)),
        None => {},
    }
    match c.max_combined_audio_ref_seconds {
        Some(x) => push_member(m, "maxCombinedAudioRefSeconds", JsonValue::integer(x)),
        None => {},
    }
    if c.frames_and_references_exclusive {
        push_member(m, "framesAndReferencesExclusive", JsonValue::Bool(true));
    }
    push_member(m, "referenceTagNoun", JsonValue::string(c.reference_tag_noun));
}

pub open spec fn refs_of(c: VideoCapsView) -> bool {
    c.max_reference_images > 0 || c.max_reference_videos > 0 || c.max_reference_audios > 0
}

/// The members of a video model's JSON description before the reference
/// limits: the required ones, `type` when asked for, `resolutions` when known.
pub open spec fn video_head(v: VideoModelView, include_type: bool) -> Seq<(Seq<char>, Json)> {
    let c = v.caps;
    let b = seq![
        ("id"@, Json::Str(v.id)),
        ("displayName"@, Json::Str(v.display_name)),
        ("durations"@, int_array(c.durations)),
        ("aspectRatios"@, str_array(c.aspect_ratios)),
        ("supportsFirstFrame"@, Json::Bool(c.supports_first_frame)),
        ("supportsLastFrame"@, Json::Bool(c.supports_last_frame)),
        ("supportsReferences"@, Json::Bool(refs_of(c))),
    ];
    let b1 = push_if(b, include_type, "type"@, Json::Str("video"@));
    match c.resolutions {
        Some(r) => b1.push(("resolutions"@, str_array(r))),
        None => b1,
    }
}

/// The members of a video model's JSON description, in order: the required
/// ones, `type` when asked for, `resolutions` when known, then the reference
/// limits when the model takes references.
pub open spec fn video_members(v: VideoModelView, include_type: bool) -> Seq<(Seq<char>, Json)> {
    if refs_of(v.caps) { with_ref_members(video_head(v, include_type), v.caps) } else { video_head(v, include_type) }
}

/// The members of an image model's JSON description.
pub open spec fn image_members(v: ImageModelView, include_type: bool) -> Seq<(Seq<char>, Json)> {
    let c = v.caps;
    let b = seq![
        ("id"@, Json::Str(v.id)),
        ("displayName"@, Json::Str(v.display_name)),
        ("aspectRatios"@, str_array(c.aspect_ratios)),
        ("supportsImageReference"@, Json::Bool(c.supports_image_reference)),
    ];
    let b1 = push_if(b, include_type, "type"@, Json::Str("image"@));
    let b2 = match c.resolutions {
        Some(r) => b1.push(("resolutions"@, str_array(r))),
        None => b1,
    };
    match c.qualities {
        Some(q) => b2.push(("qualities"@, str_array(q))),
        None => b2,
    }
}

impl VideoModelConfig {
    /// Whether the model accepts any reference media.
    pub fn supports_references(&self) -> (r: bool)
        ensures
            r == refs_of(self@.caps),
    {
        self.caps.max_reference_images > 0 || self.caps.max_reference_videos > 0 || self.caps.max_reference_audios > 0
    }

    /// The model's JSON description (`"type": "video"` when asked for).
    pub fn to_json(&self, include_type: bool) -> (r: JsonValue)
        ensures
            r@ == Json::Object(video_members(self@, include_type)),
    {
        let c = &self.caps;
        let refs = self.supports_references();
        let mut m: Vec<(String, JsonValue)> = Vec::new();
        proof { lemma_json_of_members(m@); }
        push_member(&mut m, "id", JsonValue::string(self.id));
        push_member(&mut m, "displayName", JsonValue::string(self.display_name));
        push_member(&mut m, "durations", int_array_json(&c.durations));
        push_member(&mut m, "aspectRatios", str_array_json(&c.aspect_ratios));
        push_member(&mut m, "supportsFirstFrame", JsonValue::Bool(c.supports_first_frame));
        push_member(&mut m, "supportsLastFrame", JsonValue::Bool(c.supports_last_frame));
        push_member(&mut m, "supportsReferences", JsonValue::Bool(refs));
        let ghost v = self@;
        let ghost b = seq![
            ("id"@, Json::Str(v.id)),
            ("displayName"@, Json::Str(v.display_name)),
            ("durations"@, int_array(v.caps.durations)),
            ("aspectRatios"@, str_array(v.caps.aspect_ratios)),
            ("supportsFirstFrame"@, Json::Bool(v.caps.supports_first_frame)),
            ("supportsLastFrame"@, Json::Bool(v.caps.supports_last_frame)),
            ("supportsReferences"@, Json::Bool(refs_of(v.caps))),
        ];
        assert(json_of_members(m@) =~= b);
        if include_type {
            push_member(&mut m, "type", JsonValue::string("video"));
        }
        let ghost b1 = push_if(b, include_type, "type"@, Json::Str("video"@));
        assert(json_of_members(m@) == b1);
        match &c.resolutions {
            Some(r) => push_member(&mut m, "resolutions", str_array_json(r)),
            None => {},
        }
        let ghost b2 = match v.caps.resolutions {
            Some(r) => b1.push(("resolutions"@, str_array(r))),
            None => b1,
        };
        assert(json_of_members(m@) == b2);
        assert(b2 == video_head(v, include_type));
        if refs {
            push_ref_members(&mut m, c);
        }
        assert(json_of_members(m@) == video_members(self@, include_type));
        JsonValue::Object(m)
    }
}

impl ImageModelConfig {
    /// The model's JSON description (`"type": "image"` when asked for).
    pub fn to_json(&self, include_type: bool) -> (r: JsonValue)
        ensures
            r@ == Json::Object(image_members(self@, include_type)),
    {
        let c = &self.caps;
        let mut m: Vec<(String, JsonValue)> = Vec::new();
        proof { lemma_json_of_members(m@); }
        push_member(&mut m, "id", JsonValue::string(self.id));
        push_member(&mut m, "displayName", JsonValue::string(self.display_name));
        push_member(&mut m, "aspectRatios", str_array_json(&c.aspect_ratios));
        push_member(&mut m, "supportsImageReference", JsonValue::Bool(c.supports_image_reference));
        if include_type {
            push_member(&mut m, "type", JsonValue::string("image"));
        }
        match &c.resolutions {
            Some(r) => push_member(&mut m, "resolutions", str_array_json(r)),
            None => {},
        }
        match &c.qualities {
            Some(q) => push_member(&mut m, "qualities", str_array_json(q)),
            None => {},
        }
        assert(json_of_members(m@) =~= image_members(self@, include_type));
        JsonValue::Object(m)
    }
}

/// Appends a member.
pub(crate) fn push_member(m: &mut Vec<(String, JsonValue)>, key: &str, v: JsonValue)
    ensures
        json_of_members(final(m)@) == json_of_members(old(m)@).push((key@, v@)),
{
    let ghost vv = v@;
    m.push((string_of(key), v));
    proof {
        lemma_json_of_members(m@);
        lemma_json_of_members(old(m)@);
        assert(json_of_members(m@) =~= json_of_members(old(m)@).push((key@, vv)));
    }
}

fn count_value(n: usize) -> (r: JsonValue)
    ensures
        r@ == count_json(n),
{
    JsonValue::Number(JsonNumber::PosInt(n as u64))
}

fn str_array_json(v: &Vec<&'static str>) -> (r: JsonValue)
    ensures
        r@ == str_array(strs_of(v@)),
        r@ == str_array(v@.map_values(|x: &'static str| x@)),
{
    let mut items: Vec<JsonValue> = Vec::new();
    let mut i: usize = 0;
    while i < v.len()
        invariant
            0 <= i <= v@.len(),
            items@.len() == i,
            forall|j: int| 0 <= j < i ==> (#[trigger] items@[j])@ == Json::Str(v@[j]@),
        decreases v.len() - i,
    {
        items.push(JsonValue::string(v[i]));
        i = i + 1;
    }
    proof { lemma_json_of_seq(items@); }
    assert(json_of_seq(items@) =~= strs_of(v@).map_values(|x: Seq<char>| Json::Str(x)));
    JsonValue::Array(items)
}

fn int_array_json(v: &Vec<i64>) -> (r: JsonValue)
    ensures
        r@ == int_array(v@),
{
    let mut items: Vec<JsonValue> = Vec::new();
    let mut i: usize = 0;
    while i < v.len()
        invariant
            0 <= i <= v@.len(),
            items@.len() == i,
            forall|j: int| 0 <= j < i ==> (#[trigger] items@[j])@ == Json::Number(int_number(v@[j])),
        decreases v.len() - i,
    {
        items.push(JsonValue::integer(v[i]));
        i = i + 1;
    }
    proof { lemma_json_of_seq(items@); }
    assert(json_of_seq(items@) =~= v@.map_values(|x: i64| Json::Number(int_number(x))));
    JsonValue::Array(items)
}

// ---------------------------------------------------------------------------
// The static catalog
// ---------------------------------------------------------------------------

pub open spec fn veo_view() -> VideoModelView {
    VideoModelView {
        id: "veo3.1-fast"@,
        display_name: "Veo 3.1 Fast"@,
        provider: "Google"@,
        caps: VideoCapsView {
            durations: seq![8i64],
            resolutions: Some(seq!["720p"@, "1080p"@, "4k"@]),
            aspect_ratios: seq!["16:9"@, "9:16"@, "1:1"@],
            supports_first_frame: true,
            supports_last_frame: false,
            max_reference_images: 0,
            max_reference_videos: 0,
            max_reference_audios: 0,
            max_total_references: None,
            max_combined_video_ref_seconds: None,
            max_combined_audio_ref_seconds: None,
            frames_and_references_exclusive: false,
            reference_tag_noun: "frame"@,
            requires_source_video: false,
            requires_reference_image: false,
        },
        credits_per_second: seq![(""@, Real::Bits(0x4014000000000000))],
    }
}

fn veo() -> (r: VideoModelConfig)
    ensures
        r@ == veo_view(),
{
    let r = VideoModelConfig {
        id: "veo3.1-fast",
        display_name: "Veo 3.1 Fast",
        provider: "Google",
        caps: VideoCaps {
            durations: vec![8i64],
            resolutions: Some(vec!["720p", "1080p", "4k"]),
            aspect_ratios: vec!["16:9", "9:16", "1:1"],
            supports_first_frame: true,
            supports_last_frame: false,
            max_reference_images: 0,
            max_reference_videos: 0,
            max_reference_audios: 0,
            max_total_references: None,
            max_combined_video_ref_seconds: None,
            max_combined_audio_ref_seconds: None,
            frames_and_references_exclusive: false,
            reference_tag_noun: "frame",
            requires_source_video: false,
            requires_reference_image: false,
        },
        credits_per_second: vec![("", Real::Bits(0x4014000000000000))],
    };
    assert(r@.caps.durations =~= seq![8i64]);
    assert(r@.caps.resolutions->0 =~= seq!["720p"@, "1080p"@, "4k"@]);
    assert(r@.caps.aspect_ratios =~= seq!["16:9"@, "9:16"@, "1:1"@]);
    assert(r@.credits_per_second =~= seq![(""@, Real::Bits(0x4014000000000000))]);
    r
}

pub open spec fn seedance_view() -> VideoModelView {
    VideoModelView {
        id: "seedance"@,
        display_name: "Seedance 1.0 Pro"@,
        provider: "ByteDance"@,
        caps: VideoCapsView {
            durations: seq![5i64, 10i64],
            resolutions: Some(seq!["720p"@, "1080p"@]),
            aspect_ratios: seq!["16:9"@, "9:16"@, "1:1"@],
            supports_first_frame: true,
            supports_last_frame: true,
            max_reference_images: 3,
            max_reference_videos: 1,
            max_reference_audios: 1,
            max_total_references: Some(3),
            max_combined_video_ref_seconds: Some(10),
            max_combined_audio_ref_seconds: Some(10),
            frames_and_references_exclusive: false,
            reference_tag_noun: "Element"@,
            requires_source_video: false,
            requires_reference_image: false,
        },
        credits_per_second: seq![(""@, Real::Bits(0x4018000000000000))],
    }
}

fn seedance() -> (r: VideoModelConfig)
    ensures
        r@ == seedance_view(),
{
    let r = VideoModelConfig {
        id: "seedance",
        display_name: "Seedance 1.0 Pro",
        provider: "ByteDance",
        caps: VideoCaps {
            durations: vec![5i64, 10i64],
            resolutions: Some(vec!["720p", "1080p"]),
            aspect_ratios: vec!["16:9", "9:16", "1:1"],
            supports_first_frame: true,
            supports_last_frame: true,
            max_reference_images: 3,
            max_reference_videos: 1,
            max_reference_audios: 1,
            max_total_references: Some(3usize),
            max_combined_video_ref_seconds: Some(10i64),
            max_combined_audio_ref_seconds: Some(10i64),
            frames_and_references_exclusive: false,
            reference_tag_noun: "Element",
            requires_source_video: false,
            requires_reference_image: false,
        },
        credits_per_second: vec![("", Real::Bits(0x4018000000000000))],
    };
    assert(r@.caps.durations =~= seq![5i64, 10i64]);
    assert(r@.caps.resolutions->0 =~= seq!["720p"@, "1080p"@]);
    assert(r@.caps.aspect_ratios =~= seq!["16:9"@, "9:16"@, "1:1"@]);
    assert(r@.credits_per_second =~= seq![(""@, Real::Bits(0x4018000000000000))]);
    r
}

pub open spec fn kling_v3_view() -> VideoModelView {
    VideoModelView {
        id: "kling-v3"@,
        display_name: "Kling V3"@,
        provider: "Kuaishou"@,
        caps: VideoCapsView {
            durations: seq![5i64, 10i64],
            resolutions: Some(seq!["720p"@, "1080p"@]),
            aspect_ratios: seq!["16:9"@, "9:16"@, "1:1"@],
            supports_first_frame: false,
            supports_last_frame: false,
            max_reference_images: 1,
            max_reference_videos: 0,
            max_reference_audios: 0,
            max_total_references: Some(1),
            max_combined_video_ref_seconds: None,
            max_combined_audio_ref_seconds: None,
            frames_and_references_exclusive: true,
            reference_tag_noun: "Image"@,
            requires_source_video: true,
            requires_reference_image: false,
        },
        credits_per_second: seq![(""@, Real::Bits(0x401C000000000000))],
    }
}

fn kling_v3() -> (r: VideoModelConfig)
    ensures
        r@ == kling_v3_view(),
{
    let r = VideoModelConfig {
        id: "kling-v3",
        display_name: "Kling V3",
        provider: "Kuaishou",
        caps: VideoCaps {
            durations: vec![5i64, 10i64],
            resolutions: Some(vec!["720p", "1080p"]),
            aspect_ratios: vec!["16:9", "9:16", "1:1"],
            supports_first_frame: false,
            supports_last_frame: false,
            max_reference_images: 1,
            max_reference_videos: 0,
            max_reference_audios: 0,
            max_total_references: Some(1usize),
            max_combined_video_ref_seconds: None,
            max_combined_audio_ref_seconds: None,
            frames_and_references_exclusive: true,
            reference_tag_noun: "Image",
            requires_source_video: true,
            requires_reference_image: false,
        },
        credits_per_second: vec![("", Real::Bits(0x401C000000000000))],
    };
    assert(r@.caps.durations =~= seq![5i64, 10i64]);
    assert(r@.caps.resolutions->0 =~= seq!["720p"@, "1080p"@]);
    assert(r@.caps.aspect_ratios =~= seq!["16:9"@, "9:16"@, "1:1"@]);
    assert(r@.credits_per_second =~= seq![(""@, Real::Bits(0x401C000000000000))]);
    r
}

pub open spec fn kling_o3_view() -> VideoModelView {
    VideoModelView {
        id: "kling-o3"@,
        display_name: "Kling O3 Elements"@,
        provider: "Kuaishou"@,
        caps: VideoCapsView {
            durations: seq![5i64, 10i64],
            resolutions: Some(seq!["720p"@, "1080p"@]),
            aspect_ratios: seq!["16:9"@, "9:16"@, "1:1"@],
            supports_first_frame: false,
            supports_last_frame: false,
            max_reference_images: 10,
            max_reference_videos: 0,
            max_reference_audios: 0,
            max_total_references: Some(10),
            max_combined_video_ref_seconds: None,
            max_combined_audio_ref_seconds: None,
            frames_and_references_exclusive: false,
            reference_tag_noun: "Element"@,
            requires_source_video: false,
            requires_reference_image: false,
        },
        credits_per_second: seq![(""@, Real::Bits(0x401A000000000000))],
    }
}

fn kling_o3() -> (r: VideoModelConfig)
    ensures
        r@ == kling_o3_view(),
{
    let r = VideoModelConfig {
        id: "kling-o3",
        display_name: "Kling O3 Elements",
        provider: "Kuaishou",
        caps: VideoCaps {
            durations: vec![5i64, 10i64],
            resolutions: Some(vec!["720p", "1080p"]),
            aspect_ratios: vec!["16:9", "9:16", "1:1"],
            supports_first_frame: false,
            supports_last_frame: false,
            max_reference_images: 10,
            max_reference_videos: 0,
            max_reference_audios: 0,
            max_total_references: Some(10usize),
            max_combined_video_ref_seconds: None,
            max_combined_audio_ref_seconds: None,
            frames_and_references_exclusive: false,
            reference_tag_noun: "Element",
            requires_source_video: false,
            requires_reference_image: false,
        },
        credits_per_second: vec![("", Real::Bits(0x401A000000000000))],
    };
    assert(r@.caps.durations =~= seq![5i64, 10i64]);
    assert(r@.caps.resolutions->0 =~= seq!["720p"@, "1080p"@]);
    assert(r@.caps.aspect_ratios =~= seq!["16:9"@, "9:16"@, "1:1"@]);
    assert(r@.credits_per_second =~= seq![(""@, Real::Bits(0x401A000000000000))]);
    r
}

pub open spec fn grok_view() -> VideoModelView {
    VideoModelView {
        id: "grok-video"@,
        display_name: "Grok Video"@,
        provider: "xAI"@,
        caps: VideoCapsView {
            durations: seq![6i64],
            resolutions: Some(seq!["720p"@, "1080p"@]),
            aspect_ratios: seq!["16:9"@, "9:16"@, "1:1"@],
            supports_first_frame: true,
            supports_last_frame: false,
            max_reference_images: 4,
            max_reference_videos: 0,
            max_reference_audios: 0,
            max_total_references: Some(4),
            max_combined_video_ref_seconds: None,
            max_combined_audio_ref_seconds: None,
            frames_and_references_exclusive: false,
            reference_tag_noun: "Image"@,
            requires_source_video: false,
            requires_reference_image: false,
        },
        credits_per_second: seq![(""@, Real::Bits(0x4016000000000000))],
    }
}

fn grok() -> (r: VideoModelConfig)
    ensures
        r@ == grok_view(),
{
    let r = VideoModelConfig {
        id: "grok-video",
        display_name: "Grok Video",
        provider: "xAI",
        caps: VideoCaps {
            durations: vec![6i64],
            resolutions: Some(vec!["720p", "1080p"]),
            aspect_ratios: vec!["16:9", "9:16", "1:1"],
            supports_first_frame: true,
            supports_last_frame: false,
            max_reference_images: 4,
            max_reference_videos: 0,
            max_reference_audios: 0,
            max_total_references: Some(4usize),
            max_combined_video_ref_seconds: None,
            max_combined_audio_ref_seconds: None,
            frames_and_references_exclusive: false,
            reference_tag_noun: "Image",
            requires_source_video: false,
            requires_reference_image: false,
        },
        credits_per_second: vec![("", Real::Bits(0x4016000000000000))],
    };
    assert(r@.caps.durations =~= seq![6i64]);
    assert(r@.caps.resolutions->0 =~= seq!["720p"@, "1080p"@]);
    assert(r@.caps.aspect_ratios =~= seq!["16:9"@, "9:16"@, "1:1"@]);
    assert(r@.credits_per_second =~= seq![(""@, Real::Bits(0x4016000000000000))]);
    r
}

pub open spec fn nano_view() -> ImageModelView {
    ImageModelView {
        id: "nano-banana-pro"@,
        display_name: "Nano Banana Pro"@,
        provider: "Google"@,
        caps: ImageCapsView {
            resolutions: Some(seq!["2K"@, "4K"@]),
            aspect_ratios: seq!["16:9"@, "9:16"@, "1:1"@],
            qualities: Some(seq!["low"@, "medium"@, "high"@]),
            supports_image_reference: true,
            max_images: 4,
        },
        credits_per_image: seq![("2K"@, Real::Bits(0x3FF0000000000000)), ("4K"@, Real::Bits(0x4000000000000000))],
    }
}

fn nano() -> (r: ImageModelConfig)
    ensures
        r@ == nano_view(),
{
    let r = ImageModelConfig {
        id: "nano-banana-pro",
        display_name: "Nano Banana Pro",
        provider: "Google",
        caps: ImageCaps {
            resolutions: Some(vec!["2K", "4K"]),
            aspect_ratios: vec!["16:9", "9:16", "1:1"],
            qualities: Some(vec!["low", "medium", "high"]),
            supports_image_reference: true,
            max_images: 4,
        },
        credits_per_image: vec![("2K", Real::Bits(0x3FF0000000000000)), ("4K", Real::Bits(0x4000000000000000))],
    };
    assert(r@.caps.resolutions->0 =~= seq!["2K"@, "4K"@]);
    assert(r@.caps.aspect_ratios =~= seq!["16:9"@, "9:16"@, "1:1"@]);
    assert(r@.caps.qualities->0 =~= seq!["low"@, "medium"@, "high"@]);
    assert(r@.credits_per_image =~= seq![("2K"@, Real::Bits(0x3FF0000000000000)), ("4K"@, Real::Bits(0x4000000000000000))]);
    r
}

pub open spec fn kling_image_view() -> ImageModelView {
    ImageModelView {
        id: "kling-image"@,
        display_name: "Kling Image"@,
        provider: "Kuaishou"@,
        caps: ImageCapsView {
            resolutions: Some(seq!["2K"@, "4K"@]),
            aspect_ratios: seq!["16:9"@, "9:16"@, "1:1"@],
            qualities: None,
            supports_image_reference: true,
            max_images: 1,
        },
        credits_per_image: seq![("2K"@, Real::Bits(0x3FF0000000000000)), ("4K"@, Real::Bits(0x4000000000000000))],
    }
}

fn kling_image() -> (r: ImageModelConfig)
    ensures
        r@ == kling_image_view(),
{
    let r = ImageModelConfig {
        id: "kling-image",
        display_name: "Kling Image",
        provider: "Kuaishou",
        caps: ImageCaps {
            resolutions: Some(vec!["2K", "4K"]),
            aspect_ratios: vec!["16:9", "9:16", "1:1"],
            qualities: None,
            supports_image_reference: true,
            max_images: 1,
        },
        credits_per_image: vec![("2K", Real::Bits(0x3FF0000000000000)), ("4K", Real::Bits(0x4000000000000000))],
    };
    assert(r@.caps.resolutions->0 =~= seq!["2K"@, "4K"@]);
    assert(r@.caps.aspect_ratios =~= seq!["16:9"@, "9:16"@, "1:1"@]);
    assert(r@.credits_per_image =~= seq![("2K"@, Real::Bits(0x3FF0000000000000)), ("4K"@, Real::Bits(0x4000000000000000))]);
    r
}

pub open spec fn seedance_image_view() -> ImageModelView {
    ImageModelView {
        id: "seedance-image"@,
        display_name: "Seedance Image"@,
        provider: "ByteDance"@,
        caps: ImageCapsView {
            resolutions: Some(seq!["2K"@, "4K"@]),
            aspect_ratios: seq!["16:9"@, "9:16"@, "1:1"@],
            qualities: Some(seq!["low"@, "medium"@, "high"@]),
            supports_image_reference: false,
            max_images: 1,
        },
        credits_per_image: seq![("2K"@, Real::Bits(0x3FF0000000000000)), ("4K"@, Real::Bits(0x3FF8000000000000))],
    }
}

fn seedance_image() -> (r: ImageModelConfig)
    ensures
        r@ == seedance_image_view(),
{
    let r = ImageModelConfig {
        id: "seedance-image",
        display_name: "Seedance Image",
        provider: "ByteDance",
        caps: ImageCaps {
            resolutions: Some(vec!["2K", "4K"]),
            aspect_ratios: vec!["16:9", "9:16", "1:1"],
            qualities: Some(vec!["low", "medium", "high"]),
            supports_image_reference: false,
            max_images: 1,
        },
        credits_per_image: vec![("2K", Real::Bits(0x3FF0000000000000)), ("4K", Real::Bits(0x3FF8000000000000))],
    };
    assert(r@.caps.resolutions->0 =~= seq!["2K"@, "4K"@]);
    assert(r@.caps.aspect_ratios =~= seq!["16:9"@, "9:16"@, "1:1"@]);
    assert(r@.caps.qualities->0 =~= seq!["low"@, "medium"@, "high"@]);
    assert(r@.credits_per_image =~= seq![("2K"@, Real::Bits(0x3FF0000000000000)), ("4K"@, Real::Bits(0x3FF8000000000000))]);
    r
}

/// The video models, in catalog order.
pub open spec fn video_catalog() -> Seq<VideoModelView> {
    seq![veo_view(), seedance_view(), kling_v3_view(), kling_o3_view(), grok_view()]
}

/// The image models, in catalog order.
pub open spec fn image_catalog() -> Seq<ImageModelView> {
    seq![nano_view(), kling_image_view(), seedance_image_view()]
}

/// The static video catalog.
pub fn video_models() -> (r: Vec<VideoModelConfig>)
    ensures
        r@.map_values(|m: VideoModelConfig| m@) == video_catalog(),
{
    let r = vec![veo(), seedance(), kling_v3(), kling_o3(), grok()];
    assert(r@.map_values(|m: VideoModelConfig| m@) =~= video_catalog());
    r
}

/// The static image catalog.
pub fn image_models() -> (r: Vec<ImageModelConfig>)
    ensures
        r@.map_values(|m: ImageModelConfig| m@) == image_catalog(),
{
    let r = vec![nano(), kling_image(), seedance_image()];
    assert(r@.map_values(|m: ImageModelConfig| m@) =~= image_catalog());
    r
}

/// Every video model's description.
pub open spec fn video_catalog_json(include_type: bool) -> Json {
    Json::Array(video_catalog().map_values(|v: VideoModelView| Json::Object(video_members(v, include_type))))
}

/// Every image model's description.
pub open spec fn image_catalog_json(include_type: bool) -> Json {
    Json::Array(image_catalog().map_values(|v: ImageModelView| Json::Object(image_members(v, include_type))))
}

/// The video catalog as JSON, with `"type": "video"` on each entry when
/// asked for.
pub fn video_models_json_with_type(include_type: bool) -> (r: JsonValue)
    ensures
        r@ == video_catalog_json(include_type),
{
    let models = video_models();
    let mut items: Vec<JsonValue> = Vec::new();
    let mut i: usize = 0;
    while i < models.len()
        invariant
            0 <= i <= models@.len(),
            models@.map_values(|m: VideoModelConfig| m@) == video_catalog(),
            items@.len() == i,
            forall|j: int| 0 <= j < i ==> (#[trigger] items@[j])@ == Json::Object(video_members(video_catalog()[j], include_type)),
        decreases models.len() - i,
    {
        assert(video_catalog()[i as int] == models@[i as int]@);
        items.push(models[i].to_json(include_type));
        i = i + 1;
    }
    proof { lemma_json_of_seq(items@); }
    assert(json_of_seq(items@) =~= video_catalog().map_values(|v: VideoModelView| Json::Object(video_members(v, include_type))));
    JsonValue::Array(items)
}

/// The video catalog as `resources/read` returns it (no `type`).
pub fn video_models_json() -> (r: JsonValue)
    ensures
        r@ == video_catalog_json(false),
{
    video_models_json_with_type(false)
}

/// The image catalog as JSON, with `"type": "image"` on each entry when
/// asked for.
pub fn image_models_json_with_type(include_type: bool) -> (r: JsonValue)
    ensures
        r@ == image_catalog_json(include_type),
{
    let models = image_models();
    let mut items: Vec<JsonValue> = Vec::new();
    let mut i: usize = 0;
    while i < models.len()
        invariant
            0 <= i <= models@.len(),
            models@.map_values(|m: ImageModelConfig| m@) == image_catalog(),
            items@.len() == i,
            forall|j: int| 0 <= j < i ==> (#[trigger] items@[j])@ == Json::Object(image_members(image_catalog()[j], include_type)),
        decreases models.len() - i,
    {
        assert(image_catalog()[i as int] == models@[i as int]@);
        items.push(models[i].to_json(include_type));
        i = i + 1;
    }
    proof { lemma_json_of_seq(items@); }
    assert(json_of_seq(items@) =~= image_catalog().map_values(|v: ImageModelView| Json::Object(image_members(v, include_type))));
    JsonValue::Array(items)
}

/// The image catalog as `resources/read` returns it (no `type`).
pub fn image_models_json() -> (r: JsonValue)
    ensures
        r@ == image_catalog_json(false),
{
    image_models_json_with_type(false)
}


/// The keys of the reference limits.
pub open spec fn reference_keys() -> Seq<Seq<char>> {
    seq![
        "maxReferenceImages"@,
        "maxReferenceVideos"@,
        "maxReferenceAudios"@,
        "maxTotalReferences"@,
        "maxCombinedVideoRefSeconds"@,
        "maxCombinedAudioRefSeconds"@,
        "framesAndReferencesExclusive"@,
        "referenceTagNoun"@,
    ]
}

/// Shaped like a reference-limit key, which no other key of a video
/// description is.
spec fn ref_key_shaped(k: Seq<char>) -> bool {
    (k.len() == 18 && k[0] == 'm') || k.len() == 16 || k.len() == 26 || k.len() == 28
}

proof fn lemma_reference_keys_shaped()
    ensures
        forall|k: int| 0 <= k < reference_keys().len() ==> ref_key_shaped(#[trigger] reference_keys()[k]),
{
    reveal_strlit("maxReferenceImages");
    reveal_strlit("maxReferenceVideos");
    reveal_strlit("maxReferenceAudios");
    reveal_strlit("maxTotalReferences");
    reveal_strlit("maxCombinedVideoRefSeconds");
    reveal_strlit("maxCombinedAudioRefSeconds");
    reveal_strlit("framesAndReferencesExclusive");
    reveal_strlit("referenceTagNoun");
    assert forall|k: int| 0 <= k < reference_keys().len() implies ref_key_shaped(#[trigger] reference_keys()[k]) by {
        if k == 0 {} else if k == 1 {} else if k == 2 {} else if k == 3 {} else if k == 4 {} else if k == 5 {} else if k == 6 {} else {}
    }
}

/// The reference limits follow whatever members come before them.
proof fn lemma_ref_members_append(s: Seq<(Seq<char>, Json)>, c: VideoCapsView)
    ensures
        with_ref_members(s, c) == s + with_ref_members(Seq::empty(), c),
{
    let e = Seq::<(Seq<char>, Json)>::empty();
    assert(s + e =~= s);
    assert(s + e.push(("maxReferenceImages"@, count_json(c.max_reference_images))) =~= s.push(
        ("maxReferenceImages"@, count_json(c.max_reference_images)),
    ));
    assert forall|a: Seq<(Seq<char>, Json)>, x: (Seq<char>, Json)| #[trigger] (s + a).push(x) =~= s + a.push(x) by {}
}

proof fn lemma_push_if_shaped(w: Seq<(Seq<char>, Json)>, cond: bool, key: Seq<char>, value: Json)
    requires
        forall|j: int| 0 <= j < w.len() ==> ref_key_shaped(#[trigger] w[j].0),
        ref_key_shaped(key),
    ensures
        forall|j: int| 0 <= j < push_if(w, cond, key, value).len() ==> ref_key_shaped(#[trigger] push_if(w, cond, key, value)[j].0),
{
}

/// Every key that the reference limits add is shaped like one.
proof fn lemma_ref_members_shaped(c: VideoCapsView)
    ensures
        forall|j: int| 0 <= j < with_ref_members(Seq::empty(), c).len()
            ==> ref_key_shaped(#[trigger] with_ref_members(Seq::empty(), c)[j].0),
        with_ref_members(Seq::empty(), c).len() > 0,
        with_ref_members(Seq::empty(), c).last() == ("referenceTagNoun"@, Json::Str(c.reference_tag_noun)),
{
    lemma_reference_keys_shaped();
    assert(ref_key_shaped(reference_keys()[0]));
    assert(ref_key_shaped(reference_keys()[1]));
    assert(ref_key_shaped(reference_keys()[2]));
    assert(ref_key_shaped(reference_keys()[3]));
    assert(ref_key_shaped(reference_keys()[4]));
    assert(ref_key_shaped(reference_keys()[5]));
    assert(ref_key_shaped(reference_keys()[6]));
    assert(ref_key_shaped(reference_keys()[7]));
    let e = Seq::<(Seq<char>, Json)>::empty();
    let w1 = push_if(e, c.max_reference_images > 0, "maxReferenceImages"@, count_json(c.max_reference_images));
    let w2 = push_if(w1, c.max_reference_videos > 0, "maxReferenceVideos"@, count_json(c.max_reference_videos));
    let w3 = push_if(w2, c.max_reference_audios > 0, "maxReferenceAudios"@, count_json(c.max_reference_audios));
    lemma_push_if_shaped(e, c.max_reference_images > 0, "maxReferenceImages"@, count_json(c.max_reference_images));
    lemma_push_if_shaped(w1, c.max_reference_videos > 0, "maxReferenceVideos"@, count_json(c.max_reference_videos));
    lemma_push_if_shaped(w2, c.max_reference_audios > 0, "maxReferenceAudios"@, count_json(c.max_reference_audios));
    let w4 = match c.max_total_references {
        Some(t) => w3.push(("maxTotalReferences"@, count_json(t))),
        None => w3,
    };
    let w5 = match c.max_combined_video_ref_seconds {
        Some(x) => w4.push(("maxCombinedVideoRefSeconds"@, Json::Number(int_number(x)))),
        None => w4,
    };
    let w6 = match c.max_combined_audio_ref_seconds {
        Some(x) => w5.push(("maxCombinedAudioRefSeconds"@, Json::Number(int_number(x)))),
        None => w5,
    };
    assert(forall|j: int| 0 <= j < w4.len() ==> ref_key_shaped(#[trigger] w4[j].0));
    assert(forall|j: int| 0 <= j < w5.len() ==> ref_key_shaped(#[trigger] w5[j].0));
    assert(forall|j: int| 0 <= j < w6.len() ==> ref_key_shaped(#[trigger] w6[j].0));
    lemma_push_if_shaped(w6, c.frames_and_references_exclusive, "framesAndReferencesExclusive"@, Json::Bool(true));
}

/// The keys of the members before the reference limits: none is shaped like
/// a reference key, only `type` (the eighth, when asked for) has four
/// characters, and `supportsReferences` is the seventh and the first of its
/// name.
#[verifier::rlimit(30)]
proof fn lemma_head_keys(v: VideoModelView, include_type: bool)
    ensures
        video_head(v, include_type).len() >= 7,
        video_head(v, include_type)[6] == ("supportsReferences"@, Json::Bool(refs_of(v.caps))),
        forall|j: int| 0 <= j < 6 ==> (#[trigger] video_head(v, include_type)[j]).0 != "supportsReferences"@,
        forall|j: int| 0 <= j < video_head(v, include_type).len() ==> !ref_key_shaped(#[trigger] video_head(v, include_type)[j].0),
        forall|j: int| 0 <= j < video_head(v, include_type).len() && !(include_type && j == 7)
            ==> (#[trigger] video_head(v, include_type)[j]).0.len() != 4,
        include_type ==> video_head(v, include_type).len() >= 8 && video_head(v, include_type)[7] == ("type"@, Json::Str("video"@)),
{
    reveal_strlit("id");
    reveal_strlit("displayName");
    reveal_strlit("durations");
    reveal_strlit("aspectRatios");
    reveal_strlit("supportsFirstFrame");
    reveal_strlit("supportsLastFrame");
    reveal_strlit("supportsReferences");
    reveal_strlit("type");
    reveal_strlit("resolutions");
    let c = v.caps;
    let h = video_head(v, include_type);
    let b = seq![
        ("id"@, Json::Str(v.id)),
        ("displayName"@, Json::Str(v.display_name)),
        ("durations"@, int_array(c.durations)),
        ("aspectRatios"@, str_array(c.aspect_ratios)),
        ("supportsFirstFrame"@, Json::Bool(c.supports_first_frame)),
        ("supportsLastFrame"@, Json::Bool(c.supports_last_frame)),
        ("supportsReferences"@, Json::Bool(refs_of(c))),
    ];
    let b1 = push_if(b, include_type, "type"@, Json::Str("video"@));
    assert(h == match c.resolutions {
        Some(r) => b1.push(("resolutions"@, str_array(r))),
        None => b1,
    });
    assert forall|j: int| 0 <= j < 7 implies #[trigger] h[j] == b[j] by {
        assert(b1[j] == b[j]);
    }
    assert(include_type ==> h[7].0 == "type"@);
    assert(h.len() <= 9);
    assert(h.len() == 9 ==> h[8].0 == "resolutions"@);
    assert(h.len() == 8 ==> h[7].0 == "type"@ || h[7].0 == "resolutions"@);
    assert(h.len() == 8 && !include_type ==> h[7].0 == "resolutions"@);
    assert("supportsFirstFrame"@[8] != "supportsReferences"@[8]);
    assert forall|j: int| 0 <= j < h.len() implies !ref_key_shaped(#[trigger] h[j].0)
        && (!(include_type && j == 7) ==> h[j].0.len() != 4) && (j < 6 ==> h[j].0 != "supportsReferences"@) by {
        if j == 0 {} else if j == 1 {} else if j == 2 {} else if j == 3 {} else if j == 4 {} else if j == 5 {} else if j == 6 {}
        else if j == 7 {} else {}
    }
}

/// What a video model's JSON description holds, however it is asked for:
/// `type` appears only in the typed one, where it is `"video"`, and the typed
/// description is the untyped one with that member inserted right after the
/// seven required members; `supportsReferences` is the seventh member and
/// says whether the model takes references; a model that takes none has none
/// of the reference limits, and one that takes some ends with
/// `referenceTagNoun`.
#[verifier::rlimit(50)]
#[verifier::spinoff_prover]
pub proof fn law_video_json_shape(v: VideoModelView, include_type: bool)
    ensures
        Json::Object(video_members(v, false)).get("type"@) is None,
        Json::Object(video_members(v, true)).get("type"@) == Some(Json::Str("video"@)),
        video_members(v, true) == video_members(v, false).insert(7, ("type"@, Json::Str("video"@))),
        video_members(v, include_type)[6] == ("supportsReferences"@, Json::Bool(refs_of(v.caps))),
        Json::Object(video_members(v, include_type)).get("supportsReferences"@) == Some(Json::Bool(refs_of(v.caps))),
        !refs_of(v.caps) ==> forall|k: int| 0 <= k < reference_keys().len()
            ==> Json::Object(video_members(v, include_type)).get(#[trigger] reference_keys()[k]) is None,
        refs_of(v.caps) ==> video_members(v, include_type).last() == ("referenceTagNoun"@, Json::Str(v.caps.reference_tag_noun)),
{
    let c = v.caps;
    let ty = ("type"@, Json::Str("video"@));
    reveal_strlit("type");
    lemma_head_keys(v, false);
    lemma_head_keys(v, true);
    lemma_head_keys(v, include_type);
    lemma_reference_keys_shaped();
    let hf = video_head(v, false);
    let ht = video_head(v, true);
    let tail = with_ref_members(Seq::empty(), c);
    lemma_ref_members_shaped(c);
    lemma_ref_members_append(hf, c);
    lemma_ref_members_append(ht, c);
    lemma_ref_members_append(video_head(v, include_type), c);
    assert(ht =~= hf.insert(7, ty));
    // Keys by position in either description.
    let mf = video_members(v, false);
    let mt = video_members(v, true);
    let m = video_members(v, include_type);
    let h = video_head(v, include_type);
    let rest = if refs_of(c) { tail } else { Seq::empty() };
    assert(mf =~= hf + (if refs_of(c) { tail } else { Seq::empty() }));
    assert(mt =~= ht + (if refs_of(c) { tail } else { Seq::empty() }));
    assert(m =~= h + rest);
    if refs_of(c) {
        assert(ht + tail =~= (hf + tail).insert(7, ty));
        assert(m.last() == tail.last());
    }
    // `type` is absent from the untyped description.
    assert forall|j: int| 0 <= j < mf.len() implies mf[j].0 != "type"@ by {
        if j < hf.len() {
            assert(mf[j] == hf[j]);
        } else {
            assert(mf[j] == tail[j - hf.len()]);
            assert(ref_key_shaped(tail[j - hf.len()].0));
        }
    }
    lemma_find_key_absent(mf, "type"@);
    // ... and the eighth member of the typed one.
    assert forall|j: int| 0 <= j < 7 implies mt[j].0 != "type"@ by {
        assert(mt[j] == ht[j]);
    }
    assert(mt[7] == ht[7]);
    lemma_find_key_first(mt, 7, "type"@);
    // `supportsReferences` is the seventh member.
    assert(m[6] == h[6]);
    assert forall|j: int| 0 <= j < 6 implies m[j].0 != "supportsReferences"@ by {
        assert(m[j] == h[j]);
    }
    lemma_find_key_first(m, 6, "supportsReferences"@);
    // No reference limits without references.
    if !refs_of(c) {
        assert(m =~= h);
        assert forall|k: int| 0 <= k < reference_keys().len()
            implies Json::Object(m).get(#[trigger] reference_keys()[k]) is None by {
            let key = reference_keys()[k];
            assert(ref_key_shaped(key));
            assert forall|j: int| 0 <= j < m.len() implies m[j].0 != key by {
                assert(!ref_key_shaped(h[j].0));
            }
            lemma_find_key_absent(m, key);
        }
    }
}

} // verus!
