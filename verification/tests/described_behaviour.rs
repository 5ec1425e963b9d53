use palmier_pro_windows::catalog::video_models;
use palmier_pro_windows::clip_type::ClipType;
use palmier_pro_windows::export::{compact_clip_json, compact_track_json};
use palmier_pro_windows::json::{JsonNumber, JsonValue};
use palmier_pro_windows::mcp::{acknowledge_result, ping_result, read_resource_result};
use palmier_pro_windows::model::{EditorState, MediaAsset, TextStyle, Track};
use palmier_pro_windows::reals::Real;
use palmier_pro_windows::tools::args::ToolOutcome;
use palmier_pro_windows::tools::dispatch::{dispatch_inner, is_known_tool};
use palmier_pro_windows::tools::listing::{all_tools, list_tools};

fn obj(members: Vec<(&str, JsonValue)>) -> JsonValue {
    JsonValue::Object(members.into_iter().map(|(k, v)| (k.to_string(), v)).collect())
}

fn num(n: i64) -> JsonValue {
    JsonValue::integer(n)
}

fn text(s: &str) -> JsonValue {
    JsonValue::Str(s.to_string())
}

fn float(x: f64) -> JsonValue {
    JsonValue::Number(palmier_pro_windows::json::JsonNumber::Float(Real::Bits(x.to_bits())))
}

fn run(name: &str, args: JsonValue, s: &mut EditorState) -> ToolOutcome {
    let d: Vec<i64> = s.media_assets.iter().map(|_| 30).collect();
    let g = rescaled(s, &args);
    dispatch_inner(name, &args, s, &d, &g)
}

/// Each clip's length rescaled to the call's `speed`, as the server works it out.
fn rescaled(s: &EditorState, args: &JsonValue) -> Vec<Vec<i64>> {
    let speed = match args {
        JsonValue::Object(m) => m.iter().find(|(k, _)| k == "speed").and_then(|(_, v)| match v {
            JsonValue::Number(JsonNumber::Float(Real::Bits(b))) => Some(f64::from_bits(*b)),
            JsonValue::Number(JsonNumber::PosInt(u)) => Some(*u as f64),
            _ => None,
        }),
        _ => None,
    }
    .filter(|v| v.is_finite() && *v > 0.0);
    s.timeline
        .tracks
        .iter()
        .map(|t| {
            t.clips
                .iter()
                .map(|c| {
                    let old = match c.speed {
                        Real::Bits(b) => f64::from_bits(b),
                        Real::Ratio255(n) => f64::from(n) / 255.0,
                    };
                    match speed {
                        Some(sp) => ((c.duration_frames as f64) * old / sp).round().max(1.0) as i64,
                        None => c.duration_frames,
                    }
                })
                .collect()
        })
        .collect()
}


fn asset() -> MediaAsset {
    MediaAsset {
        id: "asset-1".to_string(),
        name: "Sample".to_string(),
        media_type: ClipType::Video,
        duration: Real::Bits(1.0f64.to_bits()),
        folder_id: None,
        generation_status: "none".to_string(),
        generation_input: None,
        source_width: None,
        source_height: None,
        source_fps: None,
        has_audio: false,
    }
}

fn with_clip(start: i64, duration: i64) -> EditorState {
    let mut s = EditorState::new();
    s.media_assets.push(asset());
    let args = obj(vec![(
        "entries",
        JsonValue::Array(vec![obj(vec![
            ("mediaRef", text("asset-1")),
            ("startFrame", num(start)),
            ("durationFrames", num(duration)),
        ])]),
    )]);
    assert!(run("add_clips", args, &mut s).is_error().is_none());
    s
}

fn keyframe_frames(s: &EditorState) -> Vec<(i64, String)> {
    let c = &s.timeline.tracks[0].clips[0];
    match &c.opacity_track {
        Some(t) => t.keyframes.iter().map(|k| (k.frame, k.interpolation_out.clone())).collect(),
        None => vec![],
    }
}

#[test]
fn parse_hex_takes_only_hex_digits() {
    assert!(TextStyle::parse_hex("#+FFFFF").is_none());
    assert!(TextStyle::parse_hex("#FF+FFF").is_none());
    assert!(TextStyle::parse_hex("#FFFFFF").is_some());
}

#[test]
fn add_texts_creates_a_video_track_at_the_top() {
    let mut s = EditorState::new();
    let r = run(
        "add_texts",
        obj(vec![("entries", JsonValue::Array(vec![obj(vec![("content", text("Hi")), ("startFrame", num(0)), ("durationFrames", num(10))])]))]),
        &mut s,
    );
    assert!(r.is_error().is_none());
    assert_eq!(s.timeline.tracks.len(), 1);
    assert_eq!(s.timeline.tracks[0].track_type, ClipType::Video);
    assert_eq!(s.timeline.tracks[0].clips[0].media_type, ClipType::Text);
}

#[test]
fn add_texts_accepts_an_existing_video_track() {
    let mut s = with_clip(0, 30);
    let r = run(
        "add_texts",
        obj(vec![(
            "entries",
            JsonValue::Array(vec![obj(vec![
                ("trackIndex", num(0)),
                ("content", text("Hi")),
                ("startFrame", num(40)),
                ("durationFrames", num(30)),
            ])]),
        )]),
        &mut s,
    );
    assert!(r.is_error().is_none());
    assert_eq!(s.timeline.tracks.len(), 1);
    assert_eq!(s.timeline.tracks[0].clips.len(), 2);
    assert_eq!(s.timeline.tracks[0].clips[1].media_type, ClipType::Text);
    assert_eq!(s.timeline.tracks[0].clips[1].start_frame, 40);
}

#[test]
fn keyframe_frames_are_stored_as_given_sorted_last_row_wins() {
    let mut s = with_clip(30, 60);
    let id = s.timeline.tracks[0].clips[0].id.clone();
    let rows = JsonValue::Array(vec![
        JsonValue::Array(vec![num(10), float(1.0)]),
        JsonValue::Array(vec![num(0), float(0.0), text("linear")]),
        JsonValue::Array(vec![num(10), float(0.5), text("hold")]),
    ]);
    let r = run("set_keyframes", obj(vec![("clipId", text(&id)), ("property", text("opacity")), ("keyframes", rows)]), &mut s);
    assert!(r.is_error().is_none());
    assert_eq!(keyframe_frames(&s), vec![(0, "linear".to_string()), (10, "hold".to_string())]);
}

#[test]
fn keyframes_reject_bad_rows_and_properties_without_changes() {
    let mut s = with_clip(0, 60);
    let id = s.timeline.tracks[0].clips[0].id.clone();
    let undo_before = s.undo_stack.len();
    let bad_interp = JsonValue::Array(vec![JsonValue::Array(vec![num(0), float(1.0), text("bouncy")])]);
    let r = run("set_keyframes", obj(vec![("clipId", text(&id)), ("property", text("opacity")), ("keyframes", bad_interp)]), &mut s);
    assert_eq!(r.is_error(), Some(true));
    let bad_value = JsonValue::Array(vec![JsonValue::Array(vec![num(0), text("x")])]);
    let r = run("set_keyframes", obj(vec![("clipId", text(&id)), ("property", text("opacity")), ("keyframes", bad_value)]), &mut s);
    assert_eq!(r.is_error(), Some(true));
    let ok_rows = JsonValue::Array(vec![JsonValue::Array(vec![num(0), float(1.0)])]);
    let r = run("set_keyframes", obj(vec![("clipId", text(&id)), ("property", text("blur")), ("keyframes", ok_rows)]), &mut s);
    assert_eq!(r.is_error(), Some(true));
    assert_eq!(s.undo_stack.len(), undo_before);
    assert!(keyframe_frames(&s).is_empty());
}

#[test]
fn import_media_applies_the_source_rules() {
    let mut s = EditorState::new();
    let import = |s: &mut EditorState, source: JsonValue| run("import_media", obj(vec![("source", source)]), s);
    assert_eq!(import(&mut s, obj(vec![("url", text("http://example.com/a.mp4"))])).is_error(), Some(true));
    assert_eq!(import(&mut s, obj(vec![("url", text("https://example.com/a.webp"))])).is_error(), Some(true));
    assert_eq!(import(&mut s, obj(vec![("url", text("https://example.com/a.json"))])).is_error(), Some(true));
    assert_eq!(
        import(&mut s, obj(vec![("url", text("https://example.com/a.mp4")), ("path", text("/tmp/a.mp4"))])).is_error(),
        Some(true)
    );
    assert_eq!(import(&mut s, obj(vec![("bytes", text("AAAA"))])).is_error(), Some(true));
    assert_eq!(import(&mut s, obj(vec![("bytes", text("AAAA")), ("mimeType", text("video/webm"))])).is_error(), Some(true));
    assert!(s.media_assets.is_empty());
    let r = import(&mut s, obj(vec![("bytes", text("AAAA")), ("mimeType", text("audio/mpeg"))]));
    assert!(r.is_error().is_none());
    assert_eq!(s.media_assets[0].media_type, ClipType::Audio);
    let r = import(&mut s, obj(vec![("path", text("/tmp/photo.HEIC"))]));
    assert!(r.is_error().is_none());
    assert_eq!(s.media_assets[1].media_type, ClipType::Image);
}

#[test]
fn invalid_text_style_leaves_the_state_unchanged() {
    let mut s = EditorState::new();
    let r = run(
        "add_texts",
        obj(vec![("entries", JsonValue::Array(vec![obj(vec![("content", text("Hi")), ("startFrame", num(0)), ("durationFrames", num(10))])]))]),
        &mut s,
    );
    assert!(r.is_error().is_none());
    let id = s.timeline.tracks[0].clips[0].id.clone();
    let undo_before = s.undo_stack.len();
    let r = run(
        "set_clip_properties",
        obj(vec![("clipIds", JsonValue::Array(vec![text(&id)])), ("content", text("Changed")), ("color", text("#GG0000"))]),
        &mut s,
    );
    assert_eq!(r.message().map(|m| m.as_str()), Some("Invalid color '#GG0000'. Expected '#RRGGBB' or '#RRGGBBAA'."));
    assert_eq!(s.undo_stack.len(), undo_before);
    assert_eq!(s.timeline.tracks[0].clips[0].text_content.as_deref(), Some("Hi"));
}

#[test]
fn create_folder_batch_is_all_or_nothing() {
    let mut s = EditorState::new();
    let r = run(
        "create_folder",
        obj(vec![(
            "entries",
            JsonValue::Array(vec![obj(vec![("name", text("A"))]), obj(vec![("name", text("B")), ("parentFolderId", text("nope"))])]),
        )]),
        &mut s,
    );
    assert_eq!(r.is_error(), Some(true));
    assert!(s.folders.is_empty());
    let r = run("create_folder", obj(vec![("entries", JsonValue::Array(vec![obj(vec![("name", text("A"))])]))]), &mut s);
    assert!(r.is_error().is_none());
    assert_eq!(s.folders.len(), 1);
    assert_eq!(s.folders[0].id, "folder-1");
}

#[test]
fn tools_list_has_every_tool_with_an_object_schema() {
    let tools = all_tools();
    assert_eq!(tools.len(), 31);
    assert_eq!(tools[0].name, "get_timeline");
    assert_eq!(tools[30].name, "list_models");
    for t in &tools {
        assert!(is_known_tool(&t.name));
        match &t.input_schema {
            JsonValue::Object(m) => {
                assert_eq!(m[0].0, "type");
                assert!(matches!(&m[0].1, JsonValue::Str(x) if x == "object"));
                assert!(m.iter().all(|(k, _)| k != "additionalProperties"));
            },
            _ => panic!("schema must be an object"),
        }
    }
    assert_eq!(list_tools().tools.len(), 31);
}

#[test]
fn ping_initialized_and_read_answers() {
    assert!(matches!(ping_result(), JsonValue::Object(m) if m.is_empty()));
    assert!(matches!(acknowledge_result(), JsonValue::Null));
    let r = read_resource_result("palmier://models/video".to_string(), "[]".to_string());
    assert_eq!(r.contents.len(), 1);
    assert_eq!(r.contents[0].uri, "palmier://models/video");
    assert_eq!(r.contents[0].mime_type, "application/json");
    assert_eq!(r.contents[0].text, "[]");
}

#[test]
fn video_json_type_member_follows_the_required_ones() {
    for m in video_models() {
        let with = m.to_json(true);
        let without = m.to_json(false);
        match (with, without) {
            (JsonValue::Object(a), JsonValue::Object(b)) => {
                assert_eq!(a.len(), b.len() + 1);
                assert_eq!(a[7].0, "type");
                let keys_a: Vec<&String> = a.iter().map(|(k, _)| k).filter(|k| k.as_str() != "type").collect();
                let keys_b: Vec<&String> = b.iter().map(|(k, _)| k).collect();
                assert_eq!(keys_a, keys_b);
            },
            _ => panic!("model descriptions are objects"),
        }
    }
}

#[test]
fn undo_restores_the_media_library() {
    let mut s = EditorState::new();
    s.media_assets.push(asset());
    let r = run("create_folder", obj(vec![("name", text("Shots"))]), &mut s);
    assert!(r.is_error().is_none());
    assert_eq!(s.folders.len(), 1);
    let u = run("undo", obj(vec![]), &mut s);
    assert!(u.is_error().is_none());
    assert!(s.folders.is_empty());
    let r = run("delete_media", obj(vec![("assetIds", JsonValue::Array(vec![text("asset-1")]))]), &mut s);
    assert!(r.is_error().is_none());
    assert!(s.media_assets.is_empty());
    let u = run("undo", obj(vec![]), &mut s);
    assert!(u.is_error().is_none());
    assert_eq!(s.media_assets.len(), 1);
    assert_eq!(s.media_assets[0].id, "asset-1");
}

#[test]
fn delete_folder_removes_its_assets_and_their_clips() {
    let mut s = with_clip(0, 30);
    let r = run("create_folder", obj(vec![("name", text("Shots"))]), &mut s);
    assert!(r.is_error().is_none());
    let fid = s.folders[0].id.clone();
    let m = run("move_to_folder", obj(vec![("assetIds", JsonValue::Array(vec![text("asset-1")])), ("folderId", text(&fid))]), &mut s);
    assert!(m.is_error().is_none());
    let d = run("delete_folder", obj(vec![("folderIds", JsonValue::Array(vec![text(&fid)]))]), &mut s);
    assert_eq!(d.message().map(|m| m.as_str()), Some("Deleted 1 folder (also deleted 1 asset and 1 timeline clip)."));
    assert!(s.folders.is_empty());
    assert!(s.media_assets.is_empty());
    assert!(s.timeline.tracks.iter().all(|t| t.clips.is_empty()));
}

#[test]
fn compact_clip_leaves_out_video_type_and_default_style() {
    let s = with_clip(0, 30);
    let c = &s.timeline.tracks[0].clips[0];
    match compact_clip_json(c) {
        JsonValue::Object(m) => assert!(m.iter().all(|(k, _)| k != "mediaType" && k != "textStyle")),
        _ => panic!("a clip is an object"),
    }
    let mut t = EditorState::new();
    let r = run(
        "add_texts",
        obj(vec![("entries", JsonValue::Array(vec![obj(vec![("content", text("Hi")), ("startFrame", num(0)), ("durationFrames", num(10))])]))]),
        &mut t,
    );
    assert!(r.is_error().is_none());
    match compact_clip_json(&t.timeline.tracks[0].clips[0]) {
        JsonValue::Object(m) => {
            assert!(m.iter().any(|(k, v)| k == "mediaType" && matches!(v, JsonValue::Str(x) if x == "text")));
            assert!(m.iter().all(|(k, _)| k != "textStyle"));
        },
        _ => panic!("a clip is an object"),
    }
    match compact_track_json(&s.timeline.tracks[0], Some((100, 200))) {
        JsonValue::Object(m) => assert!(m.iter().any(|(k, v)| k == "totalClips" && matches!(v, JsonValue::Number(_)))),
        _ => panic!("a track is an object"),
    }
    match compact_track_json(&s.timeline.tracks[0], Some((0, 200))) {
        JsonValue::Object(m) => assert!(m.iter().all(|(k, _)| k != "totalClips")),
        _ => panic!("a track is an object"),
    }
}

fn spans(s: &EditorState, ti: usize) -> Vec<(i64, i64, i64)> {
    s.timeline.tracks[ti].clips.iter().map(|c| (c.start_frame, c.duration_frames, c.trim_start_frame)).collect()
}

#[test]
fn ripple_overlapping_ranges_merge() {
    let mut s = with_clip(0, 60);
    let ranges = JsonValue::Array(vec![JsonValue::Array(vec![num(10), num(30)]), JsonValue::Array(vec![num(20), num(40)])]);
    let r = run("ripple_delete_ranges", obj(vec![("ranges", ranges)]), &mut s);
    assert!(r.is_error().is_none());
    assert_eq!(r.message().map(|m| m.as_str()), Some("Ripple-deleted 2 ranges (total 30f removed)."));
    assert_eq!(spans(&s, 0), vec![(0, 10, 0), (10, 20, 40)]);
}

#[test]
fn ripple_cuts_only_the_anchor_and_shifts_sync_locked_tracks() {
    let mut s = with_clip(0, 60);
    s.timeline.tracks.push(Track::new("track-x".to_string(), ClipType::Video));
    let args = obj(vec![(
        "entries",
        JsonValue::Array(vec![obj(vec![
            ("mediaRef", text("asset-1")),
            ("trackIndex", num(1)),
            ("startFrame", num(30)),
            ("durationFrames", num(60)),
        ])]),
    )]);
    assert!(run("add_clips", args, &mut s).is_error().is_none());
    let ranges = JsonValue::Array(vec![JsonValue::Array(vec![num(10), num(20)])]);
    let r = run("ripple_delete_ranges", obj(vec![("trackIndex", num(0)), ("ranges", ranges)]), &mut s);
    assert!(r.is_error().is_none());
    assert_eq!(spans(&s, 0), vec![(0, 10, 0), (10, 40, 20)]);
    assert_eq!(spans(&s, 1), vec![(20, 60, 0)]);
}

#[test]
fn insert_clips_pushes_sync_locked_tracks_too() {
    let mut s = with_clip(0, 60);
    s.timeline.tracks.push(Track::new("track-x".to_string(), ClipType::Video));
    let mut free = Track::new("track-y".to_string(), ClipType::Video);
    free.sync_locked = false;
    s.timeline.tracks.push(free);
    for ti in [1i64, 2] {
        let args = obj(vec![(
            "entries",
            JsonValue::Array(vec![obj(vec![
                ("mediaRef", text("asset-1")),
                ("trackIndex", num(ti)),
                ("startFrame", num(30)),
                ("durationFrames", num(10)),
            ])]),
        )]);
        assert!(run("add_clips", args, &mut s).is_error().is_none());
    }
    let args = obj(vec![
        ("trackIndex", num(0)),
        ("atFrame", num(20)),
        ("entries", JsonValue::Array(vec![obj(vec![("mediaRef", text("asset-1")), ("durationFrames", num(5))])])),
    ]);
    let r = run("insert_clips", args, &mut s);
    assert!(r.is_error().is_none());
    assert_eq!(spans(&s, 1), vec![(35, 10, 0)]);
    assert_eq!(spans(&s, 2), vec![(30, 10, 0)]);
}

#[test]
fn add_texts_honours_each_entrys_track() {
    let mut s = EditorState::new();
    s.timeline.tracks.push(Track::new("track-a".to_string(), ClipType::Video));
    s.timeline.tracks.push(Track::new("track-b".to_string(), ClipType::Video));
    let r = run(
        "add_texts",
        obj(vec![(
            "entries",
            JsonValue::Array(vec![
                obj(vec![("trackIndex", num(1)), ("content", text("Two")), ("startFrame", num(0)), ("durationFrames", num(10))]),
                obj(vec![("trackIndex", num(0)), ("content", text("One")), ("startFrame", num(0)), ("durationFrames", num(10))]),
            ]),
        )]),
        &mut s,
    );
    assert!(r.is_error().is_none());
    assert_eq!(s.timeline.tracks[0].clips.len(), 1);
    assert_eq!(s.timeline.tracks[1].clips.len(), 1);
    assert_eq!(s.timeline.tracks[0].clips[0].text_content.as_deref(), Some("One"));
    assert_eq!(s.timeline.tracks[1].clips[0].text_content.as_deref(), Some("Two"));
}

#[test]
fn library_batches_are_all_or_nothing() {
    let mut s = EditorState::new();
    s.media_assets.push(asset());
    let r = run("create_folder", obj(vec![("name", text("Shots"))]), &mut s);
    assert!(r.is_error().is_none());
    let fid = s.folders[0].id.clone();
    let undo_before = s.undo_stack.len();
    let r = run(
        "move_to_folder",
        obj(vec![("assetIds", JsonValue::Array(vec![text("asset-1"), text("nope")])), ("folderId", text(&fid))]),
        &mut s,
    );
    assert_eq!(r.is_error(), Some(true));
    assert!(s.media_assets[0].folder_id.is_none());
    let r = run(
        "rename_media",
        obj(vec![(
            "entries",
            JsonValue::Array(vec![
                obj(vec![("mediaRef", text("asset-1")), ("name", text("New"))]),
                obj(vec![("mediaRef", text("nope")), ("name", text("X"))]),
            ]),
        )]),
        &mut s,
    );
    assert_eq!(r.is_error(), Some(true));
    assert_eq!(s.media_assets[0].name, "Sample");
    assert_eq!(s.undo_stack.len(), undo_before);
}

#[test]
fn ripple_clip_mode_cuts_within_that_clip_only() {
    let mut s = with_clip(0, 60);
    let args = obj(vec![(
        "entries",
        JsonValue::Array(vec![obj(vec![
            ("mediaRef", text("asset-1")),
            ("trackIndex", num(0)),
            ("startFrame", num(60)),
            ("durationFrames", num(60)),
        ])]),
    )]);
    assert!(run("add_clips", args, &mut s).is_error().is_none());
    let second = s.timeline.tracks[0].clips[1].id.clone();
    let ranges = || JsonValue::Array(vec![JsonValue::Array(vec![num(50), num(70)])]);
    let both = run("ripple_delete_ranges", obj(vec![("clipId", text(&second)), ("trackIndex", num(0)), ("ranges", ranges())]), &mut s);
    assert_eq!(both.is_error(), Some(true));
    let secs = run("ripple_delete_ranges", obj(vec![("clipId", text(&second)), ("units", text("seconds")), ("ranges", ranges())]), &mut s);
    assert_eq!(secs.is_error(), Some(true));
    let r = run("ripple_delete_ranges", obj(vec![("clipId", text(&second)), ("ranges", ranges())]), &mut s);
    assert!(r.is_error().is_none());
    let first = s.timeline.tracks[0].clips[0].id.clone();
    assert_eq!(
        r.message().unwrap(),
        &format!("Ripple-deleted 1 range (total 10f removed). Track 0: {first} @ 0 for 60, {second} @ 60 for 50.")
    );
    assert_eq!(spans(&s, 0), vec![(0, 60, 0), (60, 50, 10)]);
}

#[test]
fn move_clips_carries_linked_partners_along() {
    let mut s = with_clip(0, 30);
    s.timeline.tracks.push(Track::new("track-x".to_string(), ClipType::Video));
    let args = obj(vec![(
        "entries",
        JsonValue::Array(vec![obj(vec![
            ("mediaRef", text("asset-1")),
            ("trackIndex", num(1)),
            ("startFrame", num(5)),
            ("durationFrames", num(30)),
        ])]),
    )]);
    assert!(run("add_clips", args, &mut s).is_error().is_none());
    s.timeline.tracks[0].clips[0].link_group_id = Some("g1".to_string());
    s.timeline.tracks[1].clips[0].link_group_id = Some("g1".to_string());
    let id = s.timeline.tracks[0].clips[0].id.clone();
    let r = run("move_clips", obj(vec![("moves", JsonValue::Array(vec![obj(vec![("clipId", text(&id)), ("toFrame", num(100))])]))]), &mut s);
    assert!(r.is_error().is_none());
    assert_eq!(spans(&s, 0), vec![(100, 30, 0)]);
    assert_eq!(spans(&s, 1), vec![(105, 30, 0)]);
}

#[test]
fn speed_change_rescales_the_clip_length() {
    let mut s = with_clip(0, 60);
    let id = s.timeline.tracks[0].clips[0].id.clone();
    let r = run("set_clip_properties", obj(vec![("clipIds", JsonValue::Array(vec![text(&id)])), ("speed", float(2.0))]), &mut s);
    assert!(r.is_error().is_none());
    let c = &s.timeline.tracks[0].clips[0];
    assert!(matches!(c.speed, Real::Bits(b) if b == 2.0f64.to_bits()));
    assert_eq!(c.duration_frames, 30);
    let r = run(
        "set_clip_properties",
        obj(vec![("clipIds", JsonValue::Array(vec![text(&id)])), ("speed", float(0.5)), ("durationFrames", num(45))]),
        &mut s,
    );
    assert!(r.is_error().is_none());
    assert_eq!(s.timeline.tracks[0].clips[0].duration_frames, 45);
}

#[test]
fn undoing_a_timeline_edit_keeps_later_imports() {
    let mut s = with_clip(0, 30);
    assert_eq!(s.timeline.tracks[0].clips.len(), 1);
    let r = run("import_media", obj(vec![("source", obj(vec![("path", text("/tmp/later.mp4"))]))]), &mut s);
    assert!(r.is_error().is_none());
    assert_eq!(s.media_assets.len(), 2);
    let u = run("undo", obj(vec![]), &mut s);
    assert!(u.is_error().is_none());
    assert!(s.timeline.tracks.iter().all(|t| t.clips.is_empty()));
    assert_eq!(s.media_assets.len(), 2);
}

fn real_of(r: &Real) -> f64 {
    match r {
        Real::Bits(b) => f64::from_bits(*b),
        Real::Ratio255(n) => f64::from(*n) / 255.0,
    }
}

#[test]
fn add_texts_places_the_box_it_is_given() {
    let mut s = EditorState::new();
    let entry = |t: JsonValue| {
        obj(vec![("content", text("Lower third")), ("startFrame", num(0)), ("durationFrames", num(10)), ("transform", t)])
    };
    let r = run(
        "add_texts",
        obj(vec![("entries", JsonValue::Array(vec![entry(obj(vec![("centerX", float(0.5)), ("centerY", float(0.9))]))]))]),
        &mut s,
    );
    assert!(r.is_error().is_none());
    let t = s.timeline.tracks[0].clips[0].transform;
    assert_eq!((real_of(&t.center_x), real_of(&t.center_y), real_of(&t.width), real_of(&t.height)), (0.5, 0.9, 1.0, 1.0));
    let r = run(
        "add_texts",
        obj(vec![(
            "entries",
            JsonValue::Array(vec![entry(obj(vec![
                ("centerX", float(0.25)),
                ("centerY", float(0.1)),
                ("width", float(0.4)),
                ("height", float(0.2)),
            ]))]),
        )]),
        &mut s,
    );
    assert!(r.is_error().is_none());
    let t = s.timeline.tracks[0].clips[0].transform;
    assert_eq!((real_of(&t.center_x), real_of(&t.center_y), real_of(&t.width), real_of(&t.height)), (0.25, 0.1, 0.4, 0.2));
}

#[test]
fn add_texts_rejects_unknown_fields() {
    let mut s = EditorState::new();
    let r = run(
        "add_texts",
        obj(vec![(
            "entries",
            JsonValue::Array(vec![obj(vec![("content", text("Hi")), ("startFrame", num(0)), ("durationFrames", num(10)), ("font", text("Georgia"))])]),
        )]),
        &mut s,
    );
    match r {
        ToolOutcome::Error(m) => assert_eq!(m, "entries[0]: unknown field 'font'"),
        _ => panic!("expected an error"),
    }
    assert_eq!(s.timeline.tracks.len(), EditorState::new().timeline.tracks.len());
    assert!(s.undo_stack.is_empty());
}

#[test]
fn set_clip_properties_carries_timing_to_linked_partners() {
    let mut s = with_clip(0, 60);
    s.timeline.tracks.push(Track::new("track-x".to_string(), ClipType::Video));
    let args = obj(vec![(
        "entries",
        JsonValue::Array(vec![obj(vec![
            ("mediaRef", text("asset-1")),
            ("trackIndex", num(1)),
            ("startFrame", num(0)),
            ("durationFrames", num(60)),
        ])]),
    )]);
    assert!(run("add_clips", args, &mut s).is_error().is_none());
    s.timeline.tracks[0].clips[0].link_group_id = Some("g1".to_string());
    s.timeline.tracks[1].clips[0].link_group_id = Some("g1".to_string());
    let id = s.timeline.tracks[0].clips[0].id.clone();
    let r = run(
        "set_clip_properties",
        obj(vec![
            ("clipIds", JsonValue::Array(vec![text(&id)])),
            ("speed", float(2.0)),
            ("trimStartFrame", num(4)),
            ("opacity", float(0.5)),
        ]),
        &mut s,
    );
    assert!(r.is_error().is_none());
    let a = &s.timeline.tracks[0].clips[0];
    let b = &s.timeline.tracks[1].clips[0];
    assert_eq!((a.duration_frames, a.trim_start_frame), (30, 4));
    assert_eq!((b.duration_frames, b.trim_start_frame), (30, 4));
    assert!(matches!(b.speed, Real::Bits(x) if x == 2.0f64.to_bits()));
    assert_eq!(real_of(&a.opacity), 0.5);
    assert_eq!(real_of(&b.opacity), 1.0);
}

#[test]
fn ripple_cuts_linked_partners_on_the_same_span() {
    let mut s = with_clip(0, 60);
    s.timeline.tracks.push(Track::new("track-x".to_string(), ClipType::Video));
    let args = obj(vec![(
        "entries",
        JsonValue::Array(vec![obj(vec![
            ("mediaRef", text("asset-1")),
            ("trackIndex", num(1)),
            ("startFrame", num(0)),
            ("durationFrames", num(60)),
        ])]),
    )]);
    assert!(run("add_clips", args, &mut s).is_error().is_none());
    s.timeline.tracks[1].sync_locked = false;
    s.timeline.tracks[0].clips[0].link_group_id = Some("g1".to_string());
    s.timeline.tracks[1].clips[0].link_group_id = Some("g1".to_string());
    let ranges = JsonValue::Array(vec![JsonValue::Array(vec![num(10), num(20)])]);
    let r = run("ripple_delete_ranges", obj(vec![("trackIndex", num(0)), ("ranges", ranges)]), &mut s);
    assert!(r.is_error().is_none());
    assert_eq!(spans(&s, 0), vec![(0, 10, 0), (10, 40, 20)]);
    assert_eq!(spans(&s, 1), vec![(0, 10, 0), (10, 40, 20)]);
}
