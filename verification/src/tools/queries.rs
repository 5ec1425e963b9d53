//! Read-only tools: media listings, placeholders for the unavailable media
//! pipelines, and the model catalog.

use vstd::prelude::*;
use crate::catalog::{image_catalog_json, image_models_json_with_type, push_member, video_catalog_json, video_models_json_with_type};
use crate::json::{Json, JsonNumber, JsonValue, int_number, json_of_members, json_of_seq, lemma_json_of_members, lemma_json_of_seq};
use crate::model::{AssetView, EditorState, MediaAsset, spec_find_asset};
use crate::reals::Real;
use crate::text::{str_eq, string_of};
use crate::export::{timeline_doc, timeline_json};
use crate::model::timeline_fits;
use crate::text::{dec_int, push_i64, push_str};
use crate::tools::args::{ToolOutcome, arg_opt_i64, arg_opt_str, arg_str, cat2, cat3, cat_int, err, missing_string, ok_json, spec_arg_int, spec_arg_str};

verus! {

/// A float as `serde_json` stores it: a number when finite, else `null`.
pub open spec fn real_json(r: Real) -> Json {
    if r.spec_is_finite() { Json::Number(JsonNumber::Float(r)) } else { Json::Null }
}

pub fn real_value(r: Real) -> (v: JsonValue)
    ensures
        v@ == real_json(r),
{
    if r.is_finite() { JsonValue::Number(JsonNumber::Float(r)) } else { JsonValue::Null }
}

pub open spec fn opt_int_json(v: Option<i64>) -> Json {
    match v {
        Some(n) => Json::Number(int_number(n)),
        None => Json::Null,
    }
}

pub open spec fn opt_real_json(v: Option<Real>) -> Json {
    match v {
        Some(r) => real_json(r),
        None => Json::Null,
    }
}

pub open spec fn opt_str_json(v: Option<Seq<char>>) -> Json {
    match v {
        Some(s) => Json::Str(s),
        None => Json::Null,
    }
}

fn opt_int_value(v: Option<i64>) -> (r: JsonValue)
    ensures
        r@ == opt_int_json(v),
{
    match v {
        Some(n) => JsonValue::integer(n),
        None => JsonValue::Null,
    }
}

fn opt_real_value(v: Option<Real>) -> (r: JsonValue)
    ensures
        r@ == opt_real_json(v),
{
    match v {
        Some(x) => real_value(x),
        None => JsonValue::Null,
    }
}

fn opt_str_value(v: &Option<String>) -> (r: JsonValue)
    ensures
        r@ == opt_str_json(crate::model::opt_str(*v)),
{
    match v {
        Some(x) => JsonValue::string(x.as_str()),
        None => JsonValue::Null,
    }
}

/// An asset as `get_media` lists it.
pub open spec fn media_entry(a: AssetView) -> Json {
    Json::Object(seq![
        ("id"@, Json::Str(a.id)),
        ("name"@, Json::Str(a.name)),
        ("type"@, Json::Str(a.media_type.spec_name())),
        ("duration"@, real_json(a.duration)),
        ("folderId"@, opt_str_json(a.folder_id)),
        ("generationStatus"@, Json::Str(a.generation_status)),
        ("hasAudio"@, Json::Bool(a.has_audio)),
        ("sourceWidth"@, opt_int_json(a.source_width)),
        ("sourceHeight"@, opt_int_json(a.source_height)),
        ("sourceFPS"@, opt_real_json(a.source_fps)),
    ])
}

/// `{"media": [...]}` with every asset.
pub open spec fn media_json(assets: Seq<AssetView>) -> Json {
    Json::Object(seq![("media"@, Json::Array(assets.map_values(|a: AssetView| media_entry(a))))])
}

fn media_entry_value(a: &MediaAsset) -> (r: JsonValue)
    ensures
        r@ == media_entry(a@),
{
    let mut m: Vec<(String, JsonValue)> = Vec::new();
    proof { lemma_json_of_members(m@); }
    push_member(&mut m, "id", JsonValue::string(a.id.as_str()));
    push_member(&mut m, "name", JsonValue::string(a.name.as_str()));
    push_member(&mut m, "type", JsonValue::string(a.media_type.as_str()));
    push_member(&mut m, "duration", real_value(a.duration));
    push_member(&mut m, "folderId", opt_str_value(&a.folder_id));
    push_member(&mut m, "generationStatus", JsonValue::string(a.generation_status.as_str()));
    push_member(&mut m, "hasAudio", JsonValue::Bool(a.has_audio));
    push_member(&mut m, "sourceWidth", opt_int_value(a.source_width));
    push_member(&mut m, "sourceHeight", opt_int_value(a.source_height));
    push_member(&mut m, "sourceFPS", opt_real_value(a.source_fps));
    assert(json_of_members(m@) =~= media_entry(a@)->Object_0);
    JsonValue::Object(m)
}

pub fn tool_get_media(s: &EditorState) -> (r: ToolOutcome)
    ensures
        r matches ToolOutcome::Json(v) && v@ == media_json(s@.media_assets),
{
    proof { crate::model::lemma_editor_view(*s); }
    let mut items: Vec<JsonValue> = Vec::new();
    let mut i: usize = 0;
    while i < s.media_assets.len()
        invariant
            0 <= i <= s.media_assets@.len(),
            s@.media_assets == s.media_assets@.map_values(|a: MediaAsset| a@),
            items@.len() == i,
            forall|j: int| 0 <= j < i ==> (#[trigger] items@[j])@ == media_entry(s@.media_assets[j]),
        decreases s.media_assets.len() - i,
    {
        assert(s@.media_assets[i as int] == s.media_assets@[i as int]@);
        items.push(media_entry_value(&s.media_assets[i]));
        i = i + 1;
    }
    proof { lemma_json_of_seq(items@); }
    assert(json_of_seq(items@) =~= s@.media_assets.map_values(|a: AssetView| media_entry(a)));
    let mut top: Vec<(String, JsonValue)> = Vec::new();
    proof { lemma_json_of_members(top@); }
    push_member(&mut top, "media", JsonValue::array(items));
    assert(json_of_members(top@) =~= media_json(s@.media_assets)->Object_0);
    ok_json(JsonValue::Object(top))
}

/// What `inspect_media` answers for an asset: its metadata, with empty
/// frames and transcript and a note that they are not available.
pub open spec fn inspect_entry(a: AssetView) -> Json {
    Json::Object(seq![
        ("id"@, Json::Str(a.id)),
        ("name"@, Json::Str(a.name)),
        ("type"@, Json::Str(a.media_type.spec_name())),
        ("duration"@, real_json(a.duration)),
        ("hasAudio"@, Json::Bool(a.has_audio)),
        ("sourceWidth"@, opt_int_json(a.source_width)),
        ("sourceHeight"@, opt_int_json(a.source_height)),
        ("sourceFPS"@, opt_real_json(a.source_fps)),
        ("frames"@, Json::Array(Seq::empty())),
        ("transcript"@, Json::Object(seq![("segments"@, Json::Array(Seq::empty())), ("wordTimestamps"@, Json::Array(Seq::empty()))])),
        ("note"@, Json::Str("Frame sampling and transcription not available yet — returns metadata only."@)),
    ])
}

fn empty_array() -> (r: JsonValue)
    ensures
        r@ == Json::Array(Seq::empty()),
{
    let v: Vec<JsonValue> = Vec::new();
    let r = JsonValue::Array(v);
    assert(json_of_seq(v@) =~= Seq::<Json>::empty());
    r
}

#[verifier::rlimit(50)]
pub fn tool_inspect_media(s: &EditorState, args: &JsonValue) -> (r: ToolOutcome)
    ensures
        match spec_arg_str(args@, "mediaRef"@) {
            None => r matches ToolOutcome::Error(m) && m@ == missing_string("mediaRef"@),
            Some(id) => match spec_find_asset(s@.media_assets, id) {
                None => r matches ToolOutcome::Error(m) && m@ == "Media asset not found: "@ + id,
                Some(i) => r matches ToolOutcome::Json(v) && v@ == inspect_entry(s@.media_assets[i]),
            },
        },
{
    proof { crate::model::lemma_editor_view(*s); }
    let media_ref = match arg_str(args, "mediaRef") {
        Ok(r) => r,
        Err(e) => return err(e),
    };
    let a = match s.asset(media_ref.as_str()) {
        Some(a) => a,
        None => return err(cat2("Media asset not found: ", media_ref.as_str())),
    };
    let mut t: Vec<(String, JsonValue)> = Vec::new();
    proof { lemma_json_of_members(t@); }
    push_member(&mut t, "segments", empty_array());
    push_member(&mut t, "wordTimestamps", empty_array());
    assert(json_of_members(t@) =~= seq![("segments"@, Json::Array(Seq::empty())), ("wordTimestamps"@, Json::Array(Seq::empty()))]);
    let tv = JsonValue::Object(t);
    let mut m: Vec<(String, JsonValue)> = Vec::new();
    proof { lemma_json_of_members(m@); }
    push_member(&mut m, "id", JsonValue::string(a.id.as_str()));
    push_member(&mut m, "name", JsonValue::string(a.name.as_str()));
    push_member(&mut m, "type", JsonValue::string(a.media_type.as_str()));
    push_member(&mut m, "duration", real_value(a.duration));
    push_member(&mut m, "hasAudio", JsonValue::Bool(a.has_audio));
    push_member(&mut m, "sourceWidth", opt_int_value(a.source_width));
    push_member(&mut m, "sourceHeight", opt_int_value(a.source_height));
    push_member(&mut m, "sourceFPS", opt_real_value(a.source_fps));
    push_member(&mut m, "frames", empty_array());
    push_member(&mut m, "transcript", tv);
    push_member(&mut m, "note", JsonValue::string("Frame sampling and transcription not available yet — returns metadata only."));
    assert(json_of_members(m@) =~= inspect_entry(a@)->Object_0);
    ok_json(JsonValue::Object(m))
}

/// `get_transcript`'s answer: no clips yet.
pub open spec fn transcript_json() -> Json {
    Json::Object(seq![
        ("clips"@, Json::Array(Seq::empty())),
        ("wordFormat"@, Json::Array(seq![Json::Str("text"@), Json::Str("startFrame"@), Json::Str("endFrame"@)])),
        ("note"@, Json::Str("On-device transcription not available yet — returns empty transcript."@)),
    ])
}

pub fn tool_get_transcript(s: &EditorState, args: &JsonValue) -> (r: ToolOutcome)
    ensures
        r matches ToolOutcome::Json(v) && v@ == transcript_json(),
{
    let mut words: Vec<JsonValue> = Vec::new();
    words.push(JsonValue::string("text"));
    words.push(JsonValue::string("startFrame"));
    words.push(JsonValue::string("endFrame"));
    proof { lemma_json_of_seq(words@); }
    assert(json_of_seq(words@) =~= seq![Json::Str("text"@), Json::Str("startFrame"@), Json::Str("endFrame"@)]);
    let mut m: Vec<(String, JsonValue)> = Vec::new();
    proof { lemma_json_of_members(m@); }
    push_member(&mut m, "clips", empty_array());
    push_member(&mut m, "wordFormat", JsonValue::array(words));
    push_member(&mut m, "note", JsonValue::string("On-device transcription not available yet — returns empty transcript."));
    assert(json_of_members(m@) =~= transcript_json()->Object_0);
    ok_json(JsonValue::Object(m))
}

/// `inspect_timeline`'s answer: no rendered frames yet.
pub open spec fn inspect_timeline_json() -> Json {
    Json::Object(seq![
        ("frameNumbers"@, Json::Array(Seq::empty())),
        ("frames"@, Json::Array(Seq::empty())),
        ("note"@, Json::Str("Timeline frame rendering not available yet — returns empty frame list."@)),
    ])
}

pub fn tool_inspect_timeline(s: &EditorState, args: &JsonValue) -> (r: ToolOutcome)
    ensures
        r matches ToolOutcome::Json(v) && v@ == inspect_timeline_json(),
{
    let mut m: Vec<(String, JsonValue)> = Vec::new();
    proof { lemma_json_of_members(m@); }
    push_member(&mut m, "frameNumbers", empty_array());
    push_member(&mut m, "frames", empty_array());
    push_member(&mut m, "note", JsonValue::string("Timeline frame rendering not available yet — returns empty frame list."));
    assert(json_of_members(m@) =~= inspect_timeline_json()->Object_0);
    ok_json(JsonValue::Object(m))
}

/// `search_media`'s answer: the query echoed, no hits.
pub open spec fn search_json(query: Seq<char>) -> Json {
    Json::Object(seq![
        ("query"@, Json::Str(query)),
        ("visual"@, Json::Object(seq![("hits"@, Json::Array(Seq::empty())), ("status"@, Json::Str("disabled"@))])),
        ("spoken"@, Json::Object(seq![("hits"@, Json::Array(Seq::empty()))])),
        ("note"@, Json::Str("Visual/spoken search index not available yet — returns empty results."@)),
    ])
}

pub fn tool_search_media(s: &EditorState, args: &JsonValue) -> (r: ToolOutcome)
    ensures
        r matches ToolOutcome::Json(v) && v@ == search_json(match spec_arg_str(args@, "query"@) {
            Some(q) => q,
            None => ""@,
        }),
{
    let q = match arg_opt_str(args, "query") {
        Some(q) => JsonValue::string(q.as_str()),
        None => JsonValue::string(""),
    };
    let mut visual: Vec<(String, JsonValue)> = Vec::new();
    proof { lemma_json_of_members(visual@); }
    push_member(&mut visual, "hits", empty_array());
    push_member(&mut visual, "status", JsonValue::string("disabled"));
    assert(json_of_members(visual@) =~= seq![("hits"@, Json::Array(Seq::empty())), ("status"@, Json::Str("disabled"@))]);
    let mut spoken: Vec<(String, JsonValue)> = Vec::new();
    proof { lemma_json_of_members(spoken@); }
    push_member(&mut spoken, "hits", empty_array());
    assert(json_of_members(spoken@) =~= seq![("hits"@, Json::Array(Seq::empty()))]);
    let mut m: Vec<(String, JsonValue)> = Vec::new();
    proof { lemma_json_of_members(m@); }
    push_member(&mut m, "query", q);
    push_member(&mut m, "visual", JsonValue::Object(visual));
    push_member(&mut m, "spoken", JsonValue::Object(spoken));
    push_member(&mut m, "note", JsonValue::string("Visual/spoken search index not available yet — returns empty results."));
    assert(json_of_members(m@) =~= search_json(match spec_arg_str(args@, "query"@) {
        Some(q) => q,
        None => ""@,
    })->Object_0);
    ok_json(JsonValue::Object(m))
}

/// The models `list_models` answers for a type filter; `None` for an
/// unknown filter. Audio and upscale catalogs are empty.
pub open spec fn listed_models(filter: Option<Seq<char>>) -> Option<Seq<Json>> {
    match filter {
        None => Some(video_catalog_json(true)->Array_0 + image_catalog_json(true)->Array_0),
        Some(f) => if f == "video"@ {
            Some(video_catalog_json(true)->Array_0)
        } else if f == "image"@ {
            Some(image_catalog_json(true)->Array_0)
        } else if f == "audio"@ || f == "upscale"@ {
            Some(Seq::empty())
        } else {
            None
        },
    }
}

pub fn tool_list_models(args: &JsonValue) -> (r: ToolOutcome)
    ensures
        match listed_models(spec_arg_str(args@, "type"@)) {
            None => r matches ToolOutcome::Error(m) && m@ == "Unknown type filter '"@ + spec_arg_str(args@, "type"@)->0
                + "'. Expected one of: video, image, audio, upscale."@,
            Some(ms) => r matches ToolOutcome::Json(v) && v@ == Json::Object(seq![("models"@, Json::Array(ms)), ("loaded"@, Json::Bool(true))]),
        },
{
    let filter = arg_opt_str(args, "type");
    let mut models: Vec<JsonValue> = Vec::new();
    let want_video;
    let want_image;
    match filter {
        None => {
            want_video = true;
            want_image = true;
        },
        Some(f) => {
            if str_eq(f.as_str(), "video") {
                want_video = true;
                want_image = false;
            } else if str_eq(f.as_str(), "image") {
                want_video = false;
                want_image = true;
            } else if str_eq(f.as_str(), "audio") || str_eq(f.as_str(), "upscale") {
                want_video = false;
                want_image = false;
            } else {
                return err(cat3("Unknown type filter '", f.as_str(), "'. Expected one of: video, image, audio, upscale."));
            }
        },
    }
    let ghost want: Seq<Json> = (if want_video { video_catalog_json(true)->Array_0 } else { Seq::empty() }) + (if want_image {
        image_catalog_json(true)->Array_0
    } else {
        Seq::empty()
    });
    if want_video {
        match video_models_json_with_type(true) {
            JsonValue::Array(items) => {
                let mut it = items;
                models.append(&mut it);
            },
            _ => {},
        }
    }
    let ghost mid = models@;
    proof { lemma_json_of_seq(mid); }
    assert(json_of_seq(mid) =~= if want_video { video_catalog_json(true)->Array_0 } else { Seq::empty() });
    if want_image {
        match image_models_json_with_type(true) {
            JsonValue::Array(items) => {
                let ghost iv = items@;
                proof { lemma_json_of_seq(iv); }
                let mut it = items;
                models.append(&mut it);
                assert(models@ =~= mid + iv);
            },
            _ => {},
        }
    }
    proof { lemma_json_of_seq(models@); }
    assert(json_of_seq(models@) =~= want);
    let mut m: Vec<(String, JsonValue)> = Vec::new();
    proof { lemma_json_of_members(m@); }
    push_member(&mut m, "models", JsonValue::array(models));
    push_member(&mut m, "loaded", JsonValue::Bool(true));
    assert(json_of_members(m@) =~= seq![("models"@, Json::Array(want)), ("loaded"@, Json::Bool(true))]);
    ok_json(JsonValue::Object(m))
}

/// The window that `get_timeline` reads from `startFrame` / `endFrame`:
/// `None` without either, `[s, e)` with both when `s < e`, `[s, i64::MAX)`
/// with only a start, `[0, e)` with only an end; `Err` with both and
/// `s >= e`.
pub open spec fn spec_window(args: Json) -> Result<Option<(i64, i64)>, (i64, i64)> {
    match (spec_arg_int(args, "startFrame"@), spec_arg_int(args, "endFrame"@)) {
        (Some(st), Some(en)) => if st < en { Ok(Some((st, en))) } else { Err((st, en)) },
        (Some(st), None) => Ok(Some((st, i64::MAX))),
        (None, Some(en)) => Ok(Some((0, en))),
        (None, None) => Ok(None),
    }
}

/// The message for a window whose start is not before its end.
pub open spec fn invalid_window_message(st: i64, en: i64) -> Seq<char> {
    "Invalid window [Some("@ + dec_int(st as int) + "), Some("@ + dec_int(en as int)
        + ")): startFrame must be less than endFrame"@
}

/// `get_timeline`: the compact timeline document, cut to the window given
/// by `startFrame` / `endFrame`.
pub fn tool_get_timeline(s: &EditorState, args: &JsonValue) -> (r: ToolOutcome)
    requires
        timeline_fits(s@.timeline),
    ensures
        match spec_window(args@) {
            Ok(w) => r matches ToolOutcome::Json(v) && v@ == timeline_doc(s@, w),
            Err((st, en)) => r matches ToolOutcome::Error(m) && m@ == invalid_window_message(st, en),
        },
{
    let start = arg_opt_i64(args, "startFrame");
    let end = arg_opt_i64(args, "endFrame");
    let window = match (start, end) {
        (Some(st), Some(en)) => {
            if st < en {
                Some((st, en))
            } else {
                let mut m = cat_int("Invalid window [Some(", st, "), Some(");
                push_i64(&mut m, en);
                push_str(&mut m, ")): startFrame must be less than endFrame");
                return err(m);
            }
        },
        (Some(st), None) => Some((st, i64::MAX)),
        (None, Some(en)) => Some((0, en)),
        (None, None) => None,
    };
    ok_json(timeline_json(s, window))
}

/// The message of `add_captions`: captions need a transcription engine
/// that this editor does not have.
pub open spec fn captions_message() -> Seq<char> {
    "Caption auto-generation requires the on-device transcription engine, which is not available yet. Use add_texts to place text clips manually."@
}

/// `add_captions`: always a tool-level error; the state is left as it is.
pub fn tool_add_captions(s: &mut EditorState, args: &JsonValue) -> (r: ToolOutcome)
    ensures
        r matches ToolOutcome::Error(m) && m@ == captions_message(),
        final(s)@ == old(s)@,
{
    err(string_of("Caption auto-generation requires the on-device transcription engine, which is not available yet. Use add_texts to place text clips manually."))
}
} // verus!
