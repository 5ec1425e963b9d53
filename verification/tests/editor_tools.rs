use palmier_pro_windows::clip_type::ClipType;
use palmier_pro_windows::export::compact_clip_json;
use palmier_pro_windows::json::{JsonNumber, JsonValue};
use palmier_pro_windows::model::{Clip, Crop, EditorState, MediaAsset, Transform};
use palmier_pro_windows::reals::Real;
use palmier_pro_windows::tools::args::ToolOutcome;
use palmier_pro_windows::tools::dispatch::dispatch_inner;

fn float(x: f64) -> Real {
    Real::Bits(x.to_bits())
}

fn as_f64(r: &Real) -> f64 {
    match r {
        Real::Bits(b) => f64::from_bits(*b),
        Real::Ratio255(n) => *n as f64 / 255.0,
    }
}

fn obj(members: Vec<(&str, JsonValue)>) -> JsonValue {
    JsonValue::Object(members.into_iter().map(|(k, v)| (k.to_string(), v)).collect())
}

fn num(n: i64) -> JsonValue {
    JsonValue::integer(n)
}

fn text(s: &str) -> JsonValue {
    JsonValue::Str(s.to_string())
}

fn empty() -> JsonValue {
    obj(vec![])
}

fn defaults(s: &EditorState) -> Vec<i64> {
    s.media_assets.iter().map(|a| (as_f64(&a.duration) * s.timeline.fps as f64).round() as i64).collect()
}

fn run(name: &str, args: JsonValue, s: &mut EditorState) -> ToolOutcome {
    let d = defaults(s);
    let g = rescaled(s, &args);
    dispatch_inner(name, &args, s, &d, &g)
}

/// Each clip's length rescaled to the call's `speed`, as the server works it out.
fn rescaled(s: &EditorState, args: &JsonValue) -> Vec<Vec<i64>> {
    let speed = match args {
        JsonValue::Object(m) => m.iter().find(|(k, _)| k == "speed").and_then(|(_, v)| match v {
            JsonValue::Number(JsonNumber::Float(Real::Bits(b))) => Some(f64::from_bits(*b)),
            JsonValue::Number(JsonNumber::PosInt(u)) => Some(*u as f64),
            _ => None,
        }),
        _ => None,
    }
    .filter(|v| v.is_finite() && *v > 0.0);
    s.timeline
        .tracks
        .iter()
        .map(|t| {
            t.clips
                .iter()
                .map(|c| {
                    let old = match c.speed {
                        Real::Bits(b) => f64::from_bits(b),
                        Real::Ratio255(n) => f64::from(n) / 255.0,
                    };
                    match speed {
                        Some(sp) => ((c.duration_frames as f64) * old / sp).round().max(1.0) as i64,
                        None => c.duration_frames,
                    }
                })
                .collect()
        })
        .collect()
}


fn succeeded(r: &ToolOutcome) -> bool {
    r.is_error().is_none() || r.is_error() == Some(false)
}

fn doc(r: &ToolOutcome) -> &JsonValue {
    match r.json() {
        Some(v) => v,
        None => panic!("expected text content"),
    }
}

fn field<'a>(v: &'a JsonValue, key: &str) -> &'a JsonValue {
    v.get(key).unwrap()
}

fn items(v: &JsonValue) -> &Vec<JsonValue> {
    v.as_array().unwrap()
}

fn sample_asset(duration: f64, with_source: bool) -> MediaAsset {
    MediaAsset {
        id: "asset-1".to_string(),
        name: "Sample".to_string(),
        media_type: ClipType::Video,
        duration: float(duration),
        folder_id: None,
        generation_status: "none".to_string(),
        generation_input: None,
        source_width: if with_source { Some(1920) } else { None },
        source_height: if with_source { Some(1080) } else { None },
        source_fps: if with_source { Some(float(30.0)) } else { None },
        has_audio: true,
    }
}

fn one_entry(start: i64, duration: i64) -> JsonValue {
    obj(vec![(
        "entries",
        JsonValue::Array(vec![obj(vec![
            ("mediaRef", text("asset-1")),
            ("startFrame", num(start)),
            ("durationFrames", num(duration)),
        ])]),
    )])
}

fn seed_single_clip(s: &mut EditorState, duration_frames: i64, start_frame: i64) -> String {
    s.media_assets.push(sample_asset(10.0, true));
    let r = run("add_clips", one_entry(start_frame, duration_frames), s);
    assert!(succeeded(&r), "add_clips failed");
    let ids = timeline_clip_ids(s);
    assert_eq!(ids.len(), 1, "seed_single_clip expected 1 clip, got {ids:?}");
    ids.into_iter().next().unwrap()
}

fn timeline_clip_ids(s: &mut EditorState) -> Vec<String> {
    let tl = run("get_timeline", empty(), s);
    let v = doc(&tl);
    let mut ids: Vec<String> = Vec::new();
    for track in items(field(v, "tracks")) {
        for clip in items(field(track, "clips")) {
            ids.push(field(clip, "id").as_str().unwrap().to_string());
        }
    }
    ids
}

fn next_clip_id_after(id: &str) -> String {
    let n: u64 = id
        .strip_prefix("clip-")
        .and_then(|s| s.parse().ok())
        .unwrap_or_else(|| panic!("unexpected clip id format: {id}"));
    format!("clip-{}", n + 1)
}

fn total_duration(s: &mut EditorState) -> i64 {
    let tl = run("get_timeline", empty(), s);
    let v = doc(&tl);
    let clips = items(field(&items(field(v, "tracks"))[0], "clips"));
    clips.iter().map(|c| field(c, "durationFrames").as_i64().unwrap()).sum()
}

#[test]
fn empty_dispatch_returns_unknown_tool() {
    let mut s = EditorState::new();
    let result = run("does_not_exist", JsonValue::Null, &mut s);
    assert!(result.is_error() == Some(true));
}

#[test]
fn add_then_get_timeline_round_trip() {
    let mut s = EditorState::new();
    s.media_assets.push(sample_asset(2.0, true));
    let result = run("add_clips", one_entry(0, 30), &mut s);
    assert!(succeeded(&result));
    let tl = run("get_timeline", empty(), &mut s);
    let v = doc(&tl);
    let tracks = items(field(v, "tracks"));
    assert_eq!(tracks.len(), 1);
    let clips = items(field(&tracks[0], "clips"));
    assert_eq!(clips.len(), 1);
    assert_eq!(field(&clips[0], "startFrame").as_i64().unwrap(), 0);
    assert_eq!(field(&clips[0], "durationFrames").as_i64().unwrap(), 30);
}

#[test]
fn undo_restores_state() {
    let mut s = EditorState::new();
    s.media_assets.push(sample_asset(2.0, false));
    assert_eq!(s.timeline.tracks.len(), 0);
    let _ = run("add_clips", one_entry(0, 30), &mut s);
    assert_eq!(s.timeline.tracks.len(), 1);
    let _ = run("undo", empty(), &mut s);
    assert_eq!(s.timeline.tracks.len(), 0);
}

#[test]
fn compact_clip_strips_defaults() {
    let clip = Clip {
        id: "c1".to_string(),
        media_ref: "m1".to_string(),
        media_type: ClipType::Video,
        source_clip_type: ClipType::Video,
        start_frame: 0,
        duration_frames: 30,
        trim_start_frame: 0,
        trim_end_frame: 0,
        speed: float(1.0),
        volume: float(1.0),
        fade_in_frames: 0,
        fade_out_frames: 0,
        opacity: float(1.0),
        transform: Transform::identity(),
        crop: Crop::none(),
        link_group_id: None,
        caption_group_id: None,
        text_content: None,
        text_style: None,
        opacity_track: None,
        position_track: None,
        scale_track: None,
        rotation_track: None,
        crop_track: None,
        volume_track: None,
    };
    let v = compact_clip_json(&clip);
    assert!(v.get("speed").is_none());
    assert!(v.get("opacity").is_none());
    assert!(v.get("transform").is_none());
    assert!(v.get("crop").is_none());
    assert!(v.get("sourceClipType").is_none());
    assert!(v.get("id").is_some());
    assert!(v.get("mediaRef").is_some());
    assert!(v.get("startFrame").is_some());
    assert!(v.get("durationFrames").is_some());
}

#[test]
fn list_models_returns_loaded_true_with_video_models() {
    let mut s = EditorState::new();
    let result = run("list_models", obj(vec![("type", text("video"))]), &mut s);
    assert!(succeeded(&result));
    let v = doc(&result);
    assert_eq!(field(v, "loaded").as_bool(), Some(true), "loaded must be true");
    let models = items(field(v, "models"));
    assert!(models.len() >= 3, "expected >=3 video models, got {}", models.len());
    for m in models {
        assert_eq!(field(m, "type").as_str().map(|t| t.as_str()), Some("video"), "type field must be 'video'");
        for k in ["id", "displayName", "durations", "aspectRatios", "supportsFirstFrame", "supportsLastFrame", "supportsReferences"] {
            assert!(m.get(k).is_some(), "video model missing required field: {k}");
        }
    }
}

#[test]
fn list_models_returns_loaded_true_with_image_models() {
    let mut s = EditorState::new();
    let result = run("list_models", obj(vec![("type", text("image"))]), &mut s);
    assert!(succeeded(&result));
    let v = doc(&result);
    assert_eq!(field(v, "loaded").as_bool(), Some(true));
    let models = items(field(v, "models"));
    assert!(models.len() >= 1, "expected >=1 image model, got {}", models.len());
    for m in models {
        assert_eq!(field(m, "type").as_str().map(|t| t.as_str()), Some("image"));
        for k in ["id", "displayName", "aspectRatios", "supportsImageReference"] {
            assert!(m.get(k).is_some(), "image model missing required field: {k}");
        }
    }
    let ids: Vec<&str> = models.iter().map(|m| field(m, "id").as_str().unwrap().as_str()).collect();
    assert!(ids.contains(&"nano-banana-pro"), "nano-banana-pro missing: {ids:?}");
}

#[test]
fn list_models_no_filter_returns_all_ported_types() {
    let mut s = EditorState::new();
    let result = run("list_models", empty(), &mut s);
    let v = doc(&result);
    assert_eq!(field(v, "loaded").as_bool(), Some(true));
    let models = items(field(v, "models"));
    assert_eq!(models.len(), 8, "expected 8 models (5 video + 3 image), got {}", models.len());
    let video_count = models.iter().filter(|m| field(m, "type").as_str().map(|t| t.as_str()) == Some("video")).count();
    let image_count = models.iter().filter(|m| field(m, "type").as_str().map(|t| t.as_str()) == Some("image")).count();
    assert_eq!(video_count, 5);
    assert_eq!(image_count, 3);
}

#[test]
fn list_models_audio_filter_returns_empty_but_loaded() {
    let mut s = EditorState::new();
    let result = run("list_models", obj(vec![("type", text("audio"))]), &mut s);
    let v = doc(&result);
    assert_eq!(field(v, "loaded").as_bool(), Some(true));
    assert_eq!(items(field(v, "models")).len(), 0);
}

#[test]
fn list_models_rejects_unknown_type_filter() {
    let mut s = EditorState::new();
    let result = run("list_models", obj(vec![("type", text("bogus"))]), &mut s);
    assert_eq!(result.is_error(), Some(true));
}

fn ranges(rs: &[(i64, i64)]) -> JsonValue {
    obj(vec![(
        "ranges",
        JsonValue::Array(rs.iter().map(|(a, b)| JsonValue::Array(vec![num(*a), num(*b)])).collect()),
    )])
}

#[test]
fn ripple_delete_middle_range_produces_unique_clip_ids() {
    let mut s = EditorState::new();
    let original_id = seed_single_clip(&mut s, 60, 0);
    let next_id = next_clip_id_after(&original_id);
    let r = run("ripple_delete_ranges", ranges(&[(20, 30)]), &mut s);
    assert!(succeeded(&r), "ripple_delete_ranges failed: {:?}", r.message());
    let ids = timeline_clip_ids(&mut s);
    assert_eq!(ids.len(), 2, "expected 2 clips after splitting [0,60) with range [20,30], got {ids:?}");
    assert_eq!(ids[0], original_id, "leftmost survivor should keep the original clip id");
    assert_ne!(ids[1], ids[0], "right segment must NOT share the original clip id (issue #15 regression)");
    assert_eq!(ids[1], next_id, "first minted id after the original clip should be {next_id}, got {}", ids[1]);
    assert_eq!(total_duration(&mut s), 50, "60f clip with [20,30] removed should leave 50f");
}

#[test]
fn ripple_delete_then_remove_right_segment_only_removes_one() {
    let mut s = EditorState::new();
    let original_id = seed_single_clip(&mut s, 60, 0);
    let _ = run("ripple_delete_ranges", ranges(&[(20, 30)]), &mut s);
    let ids_after_split = timeline_clip_ids(&mut s);
    assert_eq!(ids_after_split.len(), 2);
    let right_id = ids_after_split[1].clone();
    let r = run("remove_clips", obj(vec![("clipIds", JsonValue::Array(vec![text(&right_id)]))]), &mut s);
    assert!(succeeded(&r), "remove_clips failed: {:?}", r.message());
    let ids_after_remove = timeline_clip_ids(&mut s);
    assert_eq!(
        ids_after_remove,
        vec![original_id.clone()],
        "remove_clips on the right-segment id must leave only the left segment; got {ids_after_remove:?}"
    );
}

#[test]
fn ripple_delete_multi_range_single_clip_three_segments_unique_ids() {
    let mut s = EditorState::new();
    let original_id = seed_single_clip(&mut s, 100, 0);
    let id_2 = next_clip_id_after(&original_id);
    let id_3 = next_clip_id_after(&id_2);
    let id_4 = next_clip_id_after(&id_3);
    let r = run("ripple_delete_ranges", ranges(&[(10, 20), (40, 50), (70, 80)]), &mut s);
    assert!(succeeded(&r), "ripple_delete_ranges failed: {:?}", r.message());
    let ids = timeline_clip_ids(&mut s);
    assert_eq!(ids.len(), 4, "expected 4 surviving segments from 3 cuts, got {ids:?}");
    assert_eq!(ids[0], original_id, "leftmost survivor should keep the original clip id");
    let mut sorted = ids.clone();
    sorted.sort();
    let mut deduped = sorted.clone();
    deduped.dedup();
    assert_eq!(sorted.len(), deduped.len(), "all segment ids must be unique; got duplicates in {ids:?}");
    assert_eq!(ids[1], id_2, "second segment (left-to-right) should get {id_2}, got {}", ids[1]);
    assert_eq!(ids[2], id_3, "third segment should get {id_3}, got {}", ids[2]);
    assert_eq!(ids[3], id_4, "fourth segment should get {id_4}, got {}", ids[3]);
    assert_eq!(total_duration(&mut s), 70, "100f clip with 3×10f ranges removed should leave 70f");
}

#[test]
fn ripple_delete_range_at_clip_start_survivor_keeps_original_id() {
    let mut s = EditorState::new();
    let original_id = seed_single_clip(&mut s, 60, 0);
    let r = run("ripple_delete_ranges", ranges(&[(0, 10)]), &mut s);
    assert!(succeeded(&r), "ripple_delete_ranges failed: {:?}", r.message());
    let ids = timeline_clip_ids(&mut s);
    assert_eq!(ids.len(), 1, "range [0,10] on clip [0,60) should leave exactly one segment");
    assert_eq!(ids[0], original_id, "the single survivor should keep the original id (no new id minted)");
}

#[test]
fn ripple_delete_full_clip_coverage_leaves_no_clips() {
    let mut s = EditorState::new();
    let _ = seed_single_clip(&mut s, 60, 0);
    let r = run("ripple_delete_ranges", ranges(&[(0, 60)]), &mut s);
    assert!(succeeded(&r), "ripple_delete_ranges failed: {:?}", r.message());
    let ids = timeline_clip_ids(&mut s);
    assert!(ids.is_empty(), "fully-deleted clip should leave no segments; got {ids:?}");
}
