//! The compact JSON form of the timeline that `get_timeline` answers with:
//! fields equal to their defaults are left out.

use vstd::prelude::*;
use crate::catalog::{push_if, push_member};
use crate::clip_type::{Alignment, ClipType};
use crate::color::Rgba;
use crate::json::{Json, JsonNumber, JsonValue, int_number, json_of_members, json_of_seq, lemma_json_of_members, lemma_json_of_seq};
use crate::model::{Clip, ClipView, Crop, EditorState, EditorView, KeyframeTrack, KeyframeView, TextStyle, TextStyleView, Timeline, Track, TrackView, Transform, all_fit, clip_end, total_frames_of, timeline_fits};
use crate::reals::{Real, NINETY_SIX_BITS};
use crate::text::{push_usize, string_of};
use crate::tools::queries::{real_json, real_value};

verus! {

pub open spec fn int_json(n: i64) -> Json {
    Json::Number(int_number(n))
}

pub open spec fn transform_json(t: Transform) -> Json {
    Json::Object(seq![
        ("centerX"@, real_json(t.center_x)),
        ("centerY"@, real_json(t.center_y)),
        ("width"@, real_json(t.width)),
        ("height"@, real_json(t.height)),
        ("rotation"@, real_json(t.rotation)),
        ("flipHorizontal"@, Json::Bool(t.flip_horizontal)),
        ("flipVertical"@, Json::Bool(t.flip_vertical)),
    ])
}

pub open spec fn crop_json(c: Crop) -> Json {
    Json::Object(seq![
        ("left"@, real_json(c.left)),
        ("top"@, real_json(c.top)),
        ("right"@, real_json(c.right)),
        ("bottom"@, real_json(c.bottom)),
    ])
}

/// A channel `byte / 255` as a float.
pub open spec fn channel_json(b: u8) -> Json {
    Json::Number(JsonNumber::Float(Real::Ratio255(b)))
}

pub open spec fn color_json(c: Rgba) -> Json {
    Json::Object(seq![("r"@, channel_json(c.r)), ("g"@, channel_json(c.g)), ("b"@, channel_json(c.b)), ("a"@, channel_json(c.a))])
}

pub open spec fn alignment_name(a: Alignment) -> Seq<char> {
    match a {
        Alignment::Left => "left"@,
        Alignment::Center => "center"@,
        Alignment::Right => "right"@,
    }
}

pub open spec fn style_json(s: TextStyleView) -> Json {
    Json::Object(seq![
        ("fontName"@, Json::Str(s.font_name)),
        ("fontSize"@, real_json(s.font_size)),
        ("fontScale"@, real_json(s.font_scale)),
        ("color"@, color_json(s.color)),
        ("alignment"@, Json::Str(alignment_name(s.alignment))),
    ])
}

/// Whether a text style is the default one (Helvetica-Bold, 96pt, scale 1,
/// white, centered).
pub open spec fn style_is_default(st: TextStyleView) -> bool {
    &&& st.font_name == "Helvetica-Bold"@
    &&& st.font_size == Real::Bits(NINETY_SIX_BITS)
    &&& st.font_scale.spec_eq_one()
    &&& st.color == (Rgba { r: 255, g: 255, b: 255, a: 255 })
    &&& st.alignment == Alignment::Center
}

fn style_default(st: &TextStyle) -> (r: bool)
    ensures
        r == style_is_default(st@),
{
    let size_ok = match st.font_size {
        Real::Bits(b) => b == NINETY_SIX_BITS,
        _ => false,
    };
    let center = match st.alignment {
        Alignment::Center => true,
        _ => false,
    };
    crate::text::str_eq(st.font_name.as_str(), "Helvetica-Bold") && size_ok && st.font_scale.eq_one() && st.color.r == 255
        && st.color.g == 255 && st.color.b == 255 && st.color.a == 255 && center
}

pub open spec fn keyframe_json(k: KeyframeView) -> Json {
    Json::Object(seq![("frame"@, int_json(k.frame)), ("value"@, k.value), ("interpolation_out"@, Json::Str(k.interpolation_out))])
}

pub open spec fn keyframes_json(ks: Seq<KeyframeView>) -> Json {
    Json::Object(seq![("keyframes"@, Json::Array(ks.map_values(|k: KeyframeView| keyframe_json(k))))])
}

/// `s` with `(key, f(value))` appended when the option holds a value.
pub open spec fn push_opt_str(s: Seq<(Seq<char>, Json)>, key: Seq<char>, v: Option<Seq<char>>) -> Seq<(Seq<char>, Json)> {
    match v {
        Some(x) => s.push((key, Json::Str(x))),
        None => s,
    }
}

pub open spec fn push_opt_track(s: Seq<(Seq<char>, Json)>, key: Seq<char>, v: Option<Seq<KeyframeView>>) -> Seq<(Seq<char>, Json)> {
    match v {
        Some(x) => s.push((key, keyframes_json(x))),
        None => s,
    }
}

/// The members of a clip's compact form: `mediaType` only when it is not
/// `video`, `sourceClipType` only when it differs from `mediaType`; a
/// default text style left out; no trims on text clips; scalars at their
/// default (speed / volume / opacity 1, fades and trims 0), an identity
/// transform and an empty crop left out; absent options left out.
pub open spec fn compact_clip_members(c: ClipView) -> Seq<(Seq<char>, Json)> {
    clip_tail_members(clip_head_members(c), c)
}

/// The scalar members of a clip's compact form.
pub open spec fn clip_head_members(c: ClipView) -> Seq<(Seq<char>, Json)> {
    clip_scalar_members(clip_ident_members(c), c)
}

/// Identity, placement and trims of a clip's compact form.
pub open spec fn clip_ident_members(c: ClipView) -> Seq<(Seq<char>, Json)> {
    let text = c.media_type == ClipType::Text;
    let b00 = seq![("id"@, Json::Str(c.id)), ("mediaRef"@, Json::Str(c.media_ref))];
    let b0 = push_if(b00, c.media_type != ClipType::Video, "mediaType"@, Json::Str(c.media_type.spec_name()));
    let b1 = push_if(b0, c.source_clip_type != c.media_type, "sourceClipType"@, Json::Str(c.source_clip_type.spec_name()));
    let b2 = b1.push(("startFrame"@, int_json(c.start_frame))).push(("durationFrames"@, int_json(c.duration_frames)));
    let b3 = push_if(b2, !text && c.trim_start_frame != 0, "trimStartFrame"@, int_json(c.trim_start_frame));
    push_if(b3, !text && c.trim_end_frame != 0, "trimEndFrame"@, int_json(c.trim_end_frame))
}

/// Speed, volume, fades, opacity, transform and crop after `b4`.
pub open spec fn clip_scalar_members(b4: Seq<(Seq<char>, Json)>, c: ClipView) -> Seq<(Seq<char>, Json)> {
    let b5 = push_if(b4, !c.speed.spec_eq_one(), "speed"@, real_json(c.speed));
    let b6 = push_if(b5, !c.volume.spec_eq_one(), "volume"@, real_json(c.volume));
    let b7 = push_if(b6, c.fade_in_frames != 0, "fadeInFrames"@, int_json(c.fade_in_frames));
    let b8 = push_if(b7, c.fade_out_frames != 0, "fadeOutFrames"@, int_json(c.fade_out_frames));
    let b9 = push_if(b8, !c.opacity.spec_eq_one(), "opacity"@, real_json(c.opacity));
    let b10 = push_if(b9, !c.transform.spec_is_identity(), "transform"@, transform_json(c.transform));
    push_if(b10, !c.crop.spec_is_identity(), "crop"@, crop_json(c.crop))
}

/// The optional members of a clip's compact form, after `b11`.
pub open spec fn clip_tail_members(b11: Seq<(Seq<char>, Json)>, c: ClipView) -> Seq<(Seq<char>, Json)> {
    let b12 = push_opt_str(b11, "linkGroupId"@, c.link_group_id);
    let b13 = push_opt_str(b12, "captionGroupId"@, c.caption_group_id);
    let b14 = push_opt_str(b13, "textContent"@, c.text_content);
    let b15 = match c.text_style {
        Some(st) => push_if(b14, !style_is_default(st), "textStyle"@, style_json(st)),
        None => b14,
    };
    let b16 = push_opt_track(b15, "opacityTrack"@, c.opacity_track);
    let b17 = push_opt_track(b16, "positionTrack"@, c.position_track);
    let b18 = push_opt_track(b17, "scaleTrack"@, c.scale_track);
    let b19 = push_opt_track(b18, "rotationTrack"@, c.rotation_track);
    let b20 = push_opt_track(b19, "cropTrack"@, c.crop_track);
    push_opt_track(b20, "volumeTrack"@, c.volume_track)
}

/// Every float of the clip is finite, so that its JSON form reads back as
/// a clip (a non-finite float is written as `null`, which does not).
pub open spec fn clip_readable(c: ClipView) -> bool {
    &&& c.speed.spec_is_finite()
    &&& c.volume.spec_is_finite()
    &&& c.opacity.spec_is_finite()
    &&& c.transform.center_x.spec_is_finite()
    &&& c.transform.center_y.spec_is_finite()
    &&& c.transform.width.spec_is_finite()
    &&& c.transform.height.spec_is_finite()
    &&& c.transform.rotation.spec_is_finite()
    &&& c.crop.left.spec_is_finite()
    &&& c.crop.top.spec_is_finite()
    &&& c.crop.right.spec_is_finite()
    &&& c.crop.bottom.spec_is_finite()
    &&& c.text_style matches Some(st) ==> st.font_size.spec_is_finite() && st.font_scale.spec_is_finite()
}

/// Whether the clip meets the window `[s, e)` (always, without one).
pub open spec fn in_window(c: ClipView, window: Option<(i64, i64)>) -> bool {
    match window {
        Some((s, e)) => c.start_frame < e && clip_end(c) > s,
        None => true,
    }
}

/// The compact clips of a track shown for a window, in order.
pub open spec fn shown_clips(cs: Seq<ClipView>, window: Option<(i64, i64)>) -> Seq<Json>
    decreases cs.len(),
{
    if cs.len() == 0 {
        Seq::empty()
    } else {
        shown_clips(cs.drop_last(), window) + if clip_readable(cs.last()) && in_window(cs.last(), window) {
            seq![Json::Object(compact_clip_members(cs.last()))]
        } else {
            Seq::<Json>::empty()
        }
    }
}

/// `V<n>` for visual tracks, `A<n>` for audio, `n` counted from 1.
pub open spec fn spec_track_label(idx: nat, t: ClipType) -> Seq<char> {
    (if t == ClipType::Audio { "A"@ } else { "V"@ }) + crate::text::dec_nat(idx + 1)
}

/// A track's compact form: `muted` / `hidden` only when set, `syncLocked`
/// only when cleared, its shown clips, and `totalClips` when a window hides
/// some of them.
pub open spec fn compact_track_members(t: TrackView, window: Option<(i64, i64)>) -> Seq<(Seq<char>, Json)> {
    let b0 = seq![("id"@, Json::Str(t.id)), ("type"@, Json::Str(t.track_type.spec_name()))];
    let b1 = push_if(b0, t.muted, "muted"@, Json::Bool(true));
    let b2 = push_if(b1, t.hidden, "hidden"@, Json::Bool(true));
    let b3 = push_if(b2, !t.sync_locked, "syncLocked"@, Json::Bool(false));
    let b4 = b3.push(("clips"@, Json::Array(shown_clips(t.clips, window))));
    push_if(
        b4,
        window is Some && shown_clips(t.clips, window).len() < t.clips.len(),
        "totalClips"@,
        crate::catalog::count_json(t.clips.len() as usize),
    )
}

/// The labelled compact tracks.
pub open spec fn labelled_tracks(ts: Seq<TrackView>, window: Option<(i64, i64)>) -> Seq<Json> {
    Seq::new(
        ts.len(),
        |i: int| Json::Object(compact_track_members(ts[i], window).push(("label"@, Json::Str(spec_track_label(i as nat, ts[i].track_type))))),
    )
}

/// The `get_timeline` document: the timeline's settings and compact
/// tracks, its total length, the playhead, whether generation is enabled,
/// and for a window `[s, e)` the window `[s, min(e, totalFrames)]`.
pub open spec fn timeline_doc(s: EditorView, window: Option<(i64, i64)>) -> Json {
    let t = s.timeline;
    let total = total_frames_of(t.tracks);
    let b = seq![
        ("fps"@, int_json(t.fps)),
        ("width"@, int_json(t.width)),
        ("height"@, int_json(t.height)),
        ("settingsConfigured"@, Json::Bool(t.settings_configured)),
        ("tracks"@, Json::Array(labelled_tracks(t.tracks, window))),
        ("totalFrames"@, int_json(total as i64)),
        ("currentFrame"@, int_json(s.current_frame)),
        ("canGenerate"@, Json::Bool(s.can_generate)),
    ];
    Json::Object(
        match window {
            Some((ws, we)) => b.push(("window"@, Json::Array(seq![int_json(ws), int_json(if we < total { we } else { total as i64 })]))),
            None => b,
        },
    )
}

// ---------------------------------------------------------------------------
// Execution
// ---------------------------------------------------------------------------

fn transform_value(t: &Transform) -> (r: JsonValue)
    ensures
        r@ == transform_json(*t),
{
    let mut m: Vec<(String, JsonValue)> = Vec::new();
    proof { lemma_json_of_members(m@); }
    push_member(&mut m, "centerX", real_value(t.center_x));
    push_member(&mut m, "centerY", real_value(t.center_y));
    push_member(&mut m, "width", real_value(t.width));
    push_member(&mut m, "height", real_value(t.height));
    push_member(&mut m, "rotation", real_value(t.rotation));
    push_member(&mut m, "flipHorizontal", JsonValue::Bool(t.flip_horizontal));
    push_member(&mut m, "flipVertical", JsonValue::Bool(t.flip_vertical));
    assert(json_of_members(m@) =~= transform_json(*t)->Object_0);
    JsonValue::Object(m)
}

fn crop_value(c: &Crop) -> (r: JsonValue)
    ensures
        r@ == crop_json(*c),
{
    let mut m: Vec<(String, JsonValue)> = Vec::new();
    proof { lemma_json_of_members(m@); }
    push_member(&mut m, "left", real_value(c.left));
    push_member(&mut m, "top", real_value(c.top));
    push_member(&mut m, "right", real_value(c.right));
    push_member(&mut m, "bottom", real_value(c.bottom));
    assert(json_of_members(m@) =~= crop_json(*c)->Object_0);
    JsonValue::Object(m)
}

fn channel(b: u8) -> (r: JsonValue)
    ensures
        r@ == channel_json(b),
{
    JsonValue::Number(JsonNumber::Float(Real::Ratio255(b)))
}

fn style_value(st: &TextStyle) -> (r: JsonValue)
    ensures
        r@ == style_json(st@),
{
    let mut c: Vec<(String, JsonValue)> = Vec::new();
    proof { lemma_json_of_members(c@); }
    push_member(&mut c, "r", channel(st.color.r));
    push_member(&mut c, "g", channel(st.color.g));
    push_member(&mut c, "b", channel(st.color.b));
    push_member(&mut c, "a", channel(st.color.a));
    assert(json_of_members(c@) =~= color_json(st.color)->Object_0);
    let align = match st.alignment {
        Alignment::Left => "left",
        Alignment::Center => "center",
        Alignment::Right => "right",
    };
    let mut m: Vec<(String, JsonValue)> = Vec::new();
    proof { lemma_json_of_members(m@); }
    push_member(&mut m, "fontName", JsonValue::string(st.font_name.as_str()));
    push_member(&mut m, "fontSize", real_value(st.font_size));
    push_member(&mut m, "fontScale", real_value(st.font_scale));
    push_member(&mut m, "color", JsonValue::Object(c));
    push_member(&mut m, "alignment", JsonValue::string(align));
    assert(json_of_members(m@) =~= style_json(st@)->Object_0);
    JsonValue::Object(m)
}

fn keyframes_value(t: &KeyframeTrack) -> (r: JsonValue)
    ensures
        r@ == keyframes_json(t@),
{
    let mut items: Vec<JsonValue> = Vec::new();
    let mut i: usize = 0;
    while i < t.keyframes.len()
        invariant
            0 <= i <= t.keyframes@.len(),
            items@.len() == i,
            forall|j: int| 0 <= j < i ==> (#[trigger] items@[j])@ == keyframe_json(t@[j]),
        decreases t.keyframes.len() - i,
    {
        let k = &t.keyframes[i];
        assert(t@[i as int] == k@);
        let mut m: Vec<(String, JsonValue)> = Vec::new();
        proof { lemma_json_of_members(m@); }
        push_member(&mut m, "frame", JsonValue::integer(k.frame));
        push_member(&mut m, "value", k.value.duplicate());
        push_member(&mut m, "interpolation_out", JsonValue::string(k.interpolation_out.as_str()));
        assert(json_of_members(m@) =~= keyframe_json(k@)->Object_0);
        items.push(JsonValue::Object(m));
        i = i + 1;
    }
    proof { lemma_json_of_seq(items@); }
    assert(json_of_seq(items@) =~= t@.map_values(|k: KeyframeView| keyframe_json(k)));
    let mut top: Vec<(String, JsonValue)> = Vec::new();
    proof { lemma_json_of_members(top@); }
    push_member(&mut top, "keyframes", JsonValue::array(items));
    assert(json_of_members(top@) =~= keyframes_json(t@)->Object_0);
    JsonValue::Object(top)
}

#[verifier::spinoff_prover]
fn push_clip_ident(m: &mut Vec<(String, JsonValue)>, c: &Clip)
    requires
        json_of_members(old(m)@) == Seq::<(Seq<char>, Json)>::empty(),
    ensures
        json_of_members(final(m)@) == clip_ident_members(c@),
{
    let text = c.media_type == ClipType::Text;
    push_member(m, "id", JsonValue::string(c.id.as_str()));
    push_member(m, "mediaRef", JsonValue::string(c.media_ref.as_str()));
    let ghost b00 = json_of_members(m@);
    if c.media_type != ClipType::Video {
        push_member(m, "mediaType", JsonValue::string(c.media_type.as_str()));
    }
    let ghost b0 = json_of_members(m@);
    assert(b0 == push_if(b00, c@.media_type != ClipType::Video, "mediaType"@, Json::Str(c@.media_type.spec_name())));
    if c.source_clip_type != c.media_type {
        push_member(m, "sourceClipType", JsonValue::string(c.source_clip_type.as_str()));
    }
    let ghost b1 = json_of_members(m@);
    assert(b1 == push_if(b0, c@.source_clip_type != c@.media_type, "sourceClipType"@, Json::Str(c@.source_clip_type.spec_name())));
    push_member(m, "startFrame", JsonValue::integer(c.start_frame));
    push_member(m, "durationFrames", JsonValue::integer(c.duration_frames));
    let ghost b2 = json_of_members(m@);
    if !text && c.trim_start_frame != 0 {
        push_member(m, "trimStartFrame", JsonValue::integer(c.trim_start_frame));
    }
    let ghost b3 = json_of_members(m@);
    assert(b3 == push_if(b2, !text && c@.trim_start_frame != 0, "trimStartFrame"@, int_json(c@.trim_start_frame)));
    if !text && c.trim_end_frame != 0 {
        push_member(m, "trimEndFrame", JsonValue::integer(c.trim_end_frame));
    }
}

#[verifier::spinoff_prover]
fn push_clip_scalars(m: &mut Vec<(String, JsonValue)>, c: &Clip)
    ensures
        json_of_members(final(m)@) == clip_scalar_members(json_of_members(old(m)@), c@),
{
    let ghost b4 = json_of_members(m@);
    if !c.speed.eq_one() {
        push_member(m, "speed", real_value(c.speed));
    }
    let ghost b5 = json_of_members(m@);
    assert(b5 == push_if(b4, !c@.speed.spec_eq_one(), "speed"@, real_json(c@.speed)));
    if !c.volume.eq_one() {
        push_member(m, "volume", real_value(c.volume));
    }
    let ghost b6 = json_of_members(m@);
    assert(b6 == push_if(b5, !c@.volume.spec_eq_one(), "volume"@, real_json(c@.volume)));
    if c.fade_in_frames != 0 {
        push_member(m, "fadeInFrames", JsonValue::integer(c.fade_in_frames));
    }
    let ghost b7 = json_of_members(m@);
    assert(b7 == push_if(b6, c@.fade_in_frames != 0, "fadeInFrames"@, int_json(c@.fade_in_frames)));
    if c.fade_out_frames != 0 {
        push_member(m, "fadeOutFrames", JsonValue::integer(c.fade_out_frames));
    }
    let ghost b8 = json_of_members(m@);
    assert(b8 == push_if(b7, c@.fade_out_frames != 0, "fadeOutFrames"@, int_json(c@.fade_out_frames)));
    if !c.opacity.eq_one() {
        push_member(m, "opacity", real_value(c.opacity));
    }
    let ghost b9 = json_of_members(m@);
    assert(b9 == push_if(b8, !c@.opacity.spec_eq_one(), "opacity"@, real_json(c@.opacity)));
    if !c.transform.is_identity() {
        push_member(m, "transform", transform_value(&c.transform));
    }
    let ghost b10 = json_of_members(m@);
    assert(b10 == push_if(b9, !c@.transform.spec_is_identity(), "transform"@, transform_json(c@.transform)));
    if !c.crop.is_identity() {
        push_member(m, "crop", crop_value(&c.crop));
    }
}

fn opt_str_member(m: &mut Vec<(String, JsonValue)>, key: &str, v: &Option<String>)
    ensures
        json_of_members(final(m)@) == push_opt_str(json_of_members(old(m)@), key@, crate::model::opt_str(*v)),
{
    match v {
        Some(x) => push_member(m, key, JsonValue::string(x.as_str())),
        None => {},
    }
}

fn opt_track_member(m: &mut Vec<(String, JsonValue)>, key: &str, v: &Option<KeyframeTrack>)
    ensures
        json_of_members(final(m)@) == push_opt_track(json_of_members(old(m)@), key@, crate::model::opt_track_view(*v)),
{
    match v {
        Some(x) => push_member(m, key, keyframes_value(x)),
        None => {},
    }
}

/// The compact JSON form of a clip (defaults left out).
pub fn compact_clip_json(c: &Clip) -> (r: JsonValue)
    ensures
        r@ == Json::Object(compact_clip_members(c@)),
{
    let mut m: Vec<(String, JsonValue)> = Vec::new();
    proof { lemma_json_of_members(m@); }
    push_clip_ident(&mut m, c);
    push_clip_scalars(&mut m, c);
    opt_str_member(&mut m, "linkGroupId", &c.link_group_id);
    opt_str_member(&mut m, "captionGroupId", &c.caption_group_id);
    opt_str_member(&mut m, "textContent", &c.text_content);
    match &c.text_style {
        Some(st) => if !style_default(st) {
            push_member(&mut m, "textStyle", style_value(st));
        },
        None => {},
    }
    opt_track_member(&mut m, "opacityTrack", &c.opacity_track);
    opt_track_member(&mut m, "positionTrack", &c.position_track);
    opt_track_member(&mut m, "scaleTrack", &c.scale_track);
    opt_track_member(&mut m, "rotationTrack", &c.rotation_track);
    opt_track_member(&mut m, "cropTrack", &c.crop_track);
    opt_track_member(&mut m, "volumeTrack", &c.volume_track);
    JsonValue::Object(m)
}

/// Whether every float of the clip is finite.
pub fn is_readable(c: &Clip) -> (r: bool)
    ensures
        r == clip_readable(c@),
{
    let style_ok = match &c.text_style {
        Some(st) => st.font_size.is_finite() && st.font_scale.is_finite(),
        None => true,
    };
    c.speed.is_finite() && c.volume.is_finite() && c.opacity.is_finite() && c.transform.center_x.is_finite()
        && c.transform.center_y.is_finite() && c.transform.width.is_finite() && c.transform.height.is_finite()
        && c.transform.rotation.is_finite() && c.crop.left.is_finite() && c.crop.top.is_finite()
        && c.crop.right.is_finite() && c.crop.bottom.is_finite() && style_ok
}

/// `V<n>` / `A<n>` for the track at index `idx`.
pub fn track_label(idx: usize, t: ClipType) -> (r: String)
    requires
        idx < usize::MAX,
    ensures
        r@ == spec_track_label(idx as nat, t),
{
    let mut s = if t == ClipType::Audio { string_of("A") } else { string_of("V") };
    push_usize(&mut s, idx + 1);
    s
}

/// The compact JSON form of a track, with the clips that meet `window`.
pub fn compact_track_json(t: &Track, window: Option<(i64, i64)>) -> (r: JsonValue)
    requires
        all_fit(t@.clips),
    ensures
        r@ == Json::Object(compact_track_members(t@, window)),
{
    let mut items: Vec<JsonValue> = Vec::new();
    let mut i: usize = 0;
    assert(t@.clips.take(0) =~= Seq::<ClipView>::empty());
    while i < t.clips.len()
        invariant
            0 <= i <= t.clips@.len(),
            t@.clips.len() == t.clips@.len(),
            all_fit(t@.clips),
            json_of_seq(items@) == shown_clips(t@.clips.take(i as int), window),
        decreases t.clips.len() - i,
    {
        let c = &t.clips[i];
        assert(t@.clips[i as int] == c@);
        assert(t@.clips.take(i + 1).drop_last() =~= t@.clips.take(i as int));
        assert(t@.clips.take(i + 1).last() == c@);
        let shown = is_readable(c) && match window {
            Some((s, e)) => c.start_frame < e && c.end_frame() > s,
            None => true,
        };
        let ghost prev = json_of_seq(items@);
        if shown {
            let ghost before = items@;
            items.push(compact_clip_json(c));
            proof {
                lemma_json_of_seq(items@);
                lemma_json_of_seq(before);
            }
            assert(json_of_seq(items@) =~= prev + seq![Json::Object(compact_clip_members(c@))]);
        } else {
            assert(json_of_seq(items@) =~= prev + Seq::<Json>::empty());
        }
        i = i + 1;
    }
    assert(t@.clips.take(i as int) =~= t@.clips);
    let ghost shown = json_of_seq(items@);
    let mut m: Vec<(String, JsonValue)> = Vec::new();
    proof { lemma_json_of_members(m@); }
    push_member(&mut m, "id", JsonValue::string(t.id.as_str()));
    push_member(&mut m, "type", JsonValue::string(t.track_type.as_str()));
    let ghost b0 = json_of_members(m@);
    assert(b0 =~= seq![("id"@, Json::Str(t@.id)), ("type"@, Json::Str(t@.track_type.spec_name()))]);
    if t.muted {
        push_member(&mut m, "muted", JsonValue::Bool(true));
    }
    let ghost b1 = json_of_members(m@);
    assert(b1 == push_if(b0, t@.muted, "muted"@, Json::Bool(true)));
    if t.hidden {
        push_member(&mut m, "hidden", JsonValue::Bool(true));
    }
    let ghost b2 = json_of_members(m@);
    assert(b2 == push_if(b1, t@.hidden, "hidden"@, Json::Bool(true)));
    if !t.sync_locked {
        push_member(&mut m, "syncLocked", JsonValue::Bool(false));
    }
    let ghost b3 = json_of_members(m@);
    assert(b3 == push_if(b2, !t@.sync_locked, "syncLocked"@, Json::Bool(false)));
    let n_shown = items.len();
    proof { lemma_json_of_seq(items@); }
    push_member(&mut m, "clips", JsonValue::Array(items));
    let ghost b4 = json_of_members(m@);
    assert(b4 == b3.push(("clips"@, Json::Array(shown))));
    let n = t.clips.len();
    if window.is_some() && n_shown < n {
        push_member(&mut m, "totalClips", JsonValue::Number(JsonNumber::PosInt(n as u64)));
    }
    assert(json_of_members(m@) == push_if(
        b4,
        window is Some && shown.len() < t@.clips.len(),
        "totalClips"@,
        crate::catalog::count_json(t@.clips.len() as usize),
    ));
    JsonValue::Object(m)
}

/// The labelled compact tracks, in order.
fn labelled_tracks_json(t: &Timeline, window: Option<(i64, i64)>) -> (r: Vec<JsonValue>)
    requires
        timeline_fits(t@),
    ensures
        json_of_seq(r@) == labelled_tracks(t@.tracks, window),
{
    let mut tracks: Vec<JsonValue> = Vec::new();
    let mut i: usize = 0;
    while i < t.tracks.len()
        invariant
            0 <= i <= t.tracks@.len(),
            t@.tracks.len() == t.tracks@.len(),
            timeline_fits(t@),
            tracks@.len() == i,
            forall|j: int| 0 <= j < i ==> (#[trigger] tracks@[j])@ == labelled_tracks(t@.tracks, window)[j],
        decreases t.tracks.len() - i,
    {
        let tr = &t.tracks[i];
        assert(t@.tracks[i as int] == tr@);
        assert(all_fit(t@.tracks[i as int].clips));
        let v = compact_track_json(tr, window);
        let mut obj = match v {
            JsonValue::Object(m) => m,
            _ => Vec::new(),
        };
        assert(json_of_members(obj@) == compact_track_members(tr@, window));
        let label = track_label(i, tr.track_type);
        push_member(&mut obj, "label", JsonValue::string(label.as_str()));
        let item = JsonValue::Object(obj);
        assert(item@ == labelled_tracks(t@.tracks, window)[i as int]);
        tracks.push(item);
        i = i + 1;
    }
    proof { lemma_json_of_seq(tracks@); }
    assert(json_of_seq(tracks@) =~= labelled_tracks(t@.tracks, window));
    tracks
}

/// The whole `get_timeline` document.
#[verifier::spinoff_prover]
pub fn timeline_json(s: &EditorState, window: Option<(i64, i64)>) -> (r: JsonValue)
    requires
        timeline_fits(s@.timeline),
    ensures
        r@ == timeline_doc(s@, window),
{
    proof { crate::model::lemma_editor_view(*s); }
    let t = &s.timeline;
    let tracks = labelled_tracks_json(t, window);
    let total = t.total_frames();
    let mut m: Vec<(String, JsonValue)> = Vec::new();
    proof { lemma_json_of_members(m@); }
    push_member(&mut m, "fps", JsonValue::integer(t.fps));
    push_member(&mut m, "width", JsonValue::integer(t.width));
    push_member(&mut m, "height", JsonValue::integer(t.height));
    push_member(&mut m, "settingsConfigured", JsonValue::Bool(t.settings_configured));
    push_member(&mut m, "tracks", JsonValue::Array(tracks));
    push_member(&mut m, "totalFrames", JsonValue::integer(total));
    push_member(&mut m, "currentFrame", JsonValue::integer(s.current_frame));
    push_member(&mut m, "canGenerate", JsonValue::Bool(s.can_generate));
    let ghost b = json_of_members(m@);
    assert(b =~= seq![
        ("fps"@, int_json(s@.timeline.fps)),
        ("width"@, int_json(s@.timeline.width)),
        ("height"@, int_json(s@.timeline.height)),
        ("settingsConfigured"@, Json::Bool(s@.timeline.settings_configured)),
        ("tracks"@, Json::Array(labelled_tracks(s@.timeline.tracks, window))),
        ("totalFrames"@, int_json(total)),
        ("currentFrame"@, int_json(s@.current_frame)),
        ("canGenerate"@, Json::Bool(s@.can_generate)),
    ]);
    match window {
        Some((ws, we)) => {
            let mut w: Vec<JsonValue> = Vec::new();
            w.push(JsonValue::integer(ws));
            w.push(JsonValue::integer(if we < total { we } else { total }));
            proof { lemma_json_of_seq(w@); }
            assert(json_of_seq(w@) =~= seq![int_json(ws), int_json(if we < total { we } else { total })]);
            push_member(&mut m, "window", JsonValue::Array(w));
        },
        None => {},
    }
    JsonValue::Object(m)
}

} // verus!
