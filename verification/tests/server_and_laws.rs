use palmier_pro_windows::clip_type::ClipType;
use palmier_pro_windows::edit::clear_region;
use palmier_pro_windows::json::{JsonNumber, JsonValue};
use palmier_pro_windows::mcp::{
    MethodRoute, McpServerConfig, ProbeResult, format_line, initialize_result, list_resources, resource_body, route_method,
};
use palmier_pro_windows::model::{Clip, EditorState, MediaAsset, Timeline, Track};
use palmier_pro_windows::protocol::MCP_PROTOCOL_VERSION;
use palmier_pro_windows::reals::Real;
use palmier_pro_windows::tools::args::ToolOutcome;
use palmier_pro_windows::tools::dispatch::{dispatch_call, dispatch_inner, is_known_tool};

fn float(x: f64) -> Real {
    Real::Bits(x.to_bits())
}

fn obj(members: Vec<(&str, JsonValue)>) -> JsonValue {
    JsonValue::Object(members.into_iter().map(|(k, v)| (k.to_string(), v)).collect())
}

fn num(n: i64) -> JsonValue {
    JsonValue::integer(n)
}

fn text(s: &str) -> JsonValue {
    JsonValue::Str(s.to_string())
}

fn run(name: &str, args: JsonValue, s: &mut EditorState) -> ToolOutcome {
    let d: Vec<i64> = s.media_assets.iter().map(|_| 30).collect();
    let g = rescaled(s, &args);
    dispatch_inner(name, &args, s, &d, &g)
}

/// Each clip's length rescaled to the call's `speed`, as the server works it out.
fn rescaled(s: &EditorState, args: &JsonValue) -> Vec<Vec<i64>> {
    let speed = match args {
        JsonValue::Object(m) => m.iter().find(|(k, _)| k == "speed").and_then(|(_, v)| match v {
            JsonValue::Number(JsonNumber::Float(Real::Bits(b))) => Some(f64::from_bits(*b)),
            JsonValue::Number(JsonNumber::PosInt(u)) => Some(*u as f64),
            _ => None,
        }),
        _ => None,
    }
    .filter(|v| v.is_finite() && *v > 0.0);
    s.timeline
        .tracks
        .iter()
        .map(|t| {
            t.clips
                .iter()
                .map(|c| {
                    let old = match c.speed {
                        Real::Bits(b) => f64::from_bits(b),
                        Real::Ratio255(n) => f64::from(n) / 255.0,
                    };
                    match speed {
                        Some(sp) => ((c.duration_frames as f64) * old / sp).round().max(1.0) as i64,
                        None => c.duration_frames,
                    }
                })
                .collect()
        })
        .collect()
}


fn error_text(r: &ToolOutcome) -> String {
    match r {
        ToolOutcome::Error(m) => m.clone(),
        _ => panic!("expected an error"),
    }
}

fn asset() -> MediaAsset {
    MediaAsset {
        id: "asset-1".to_string(),
        name: "Sample".to_string(),
        media_type: ClipType::Video,
        duration: float(1.0),
        folder_id: None,
        generation_status: "none".to_string(),
        generation_input: None,
        source_width: None,
        source_height: None,
        source_fps: None,
        has_audio: false,
    }
}

fn add_one(s: &mut EditorState, start: i64, duration: i64) {
    let args = obj(vec![(
        "entries",
        JsonValue::Array(vec![obj(vec![
            ("mediaRef", text("asset-1")),
            ("startFrame", num(start)),
            ("durationFrames", num(duration)),
        ])]),
    )]);
    let r = run("add_clips", args, s);
    assert!(r.is_error().is_none());
}

fn clip_spans(s: &EditorState) -> Vec<(String, i64, i64)> {
    let mut out = Vec::new();
    for t in &s.timeline.tracks {
        for c in &t.clips {
            out.push((c.id.clone(), c.start_frame, c.duration_frames));
        }
    }
    out
}

#[test]
fn route_initialize_and_ping() {
    assert!(matches!(route_method("initialize", &JsonValue::Null), Ok(MethodRoute::Initialize)));
    assert!(matches!(route_method("notifications/initialized", &JsonValue::Null), Ok(MethodRoute::Acknowledge)));
    assert!(matches!(route_method("ping", &JsonValue::Null), Ok(MethodRoute::Ping)));
    assert!(matches!(route_method("tools/list", &JsonValue::Null), Ok(MethodRoute::ListTools)));
    assert!(matches!(route_method("resources/list", &JsonValue::Null), Ok(MethodRoute::ListResources)));
}

#[test]
fn route_tools_call_defaults_arguments_to_empty_object() {
    let params = obj(vec![("name", text("undo"))]);
    match route_method("tools/call", &params) {
        Ok(MethodRoute::CallTool { name, arguments }) => {
            assert_eq!(name, "undo");
            match arguments {
                JsonValue::Object(m) => assert!(m.is_empty()),
                _ => panic!("arguments should default to an object"),
            }
        },
        _ => panic!("expected a tool call"),
    }
}

#[test]
fn route_errors_carry_json_rpc_codes() {
    match route_method("tools/call", &obj(vec![])) {
        Err(e) => {
            assert_eq!(e.code, -32602);
            assert_eq!(e.message, "Missing 'name' in tools/call params");
        },
        _ => panic!("expected invalid params"),
    }
    match route_method("resources/read", &obj(vec![("uri", num(3))])) {
        Err(e) => {
            assert_eq!(e.code, -32602);
            assert_eq!(e.message, "Missing 'uri' in resources/read params");
        },
        _ => panic!("expected invalid params"),
    }
    match route_method("prompts/list", &JsonValue::Null) {
        Err(e) => {
            assert_eq!(e.code, -32601);
            assert_eq!(e.message, "Method not found: prompts/list");
            assert!(e.data.is_none());
        },
        _ => panic!("expected method not found"),
    }
}

#[test]
fn resources_are_the_two_catalogs() {
    let list = list_resources();
    assert_eq!(list.resources.len(), 2);
    assert_eq!(list.resources[0].uri, "palmier://models/video");
    assert_eq!(list.resources[0].name, "Video Models");
    assert_eq!(list.resources[1].uri, "palmier://models/image");
    assert_eq!(list.resources[1].mime_type, "application/json");
    assert_eq!(resource_body("palmier://models/video").as_array().unwrap().len(), 5);
    assert_eq!(resource_body("palmier://models/image").as_array().unwrap().len(), 3);
    match resource_body("palmier://nothing") {
        JsonValue::Str(m) => assert_eq!(m, "Unknown resource: palmier://nothing"),
        _ => panic!("expected a string body"),
    }
}

#[test]
fn initialize_answer_and_default_port() {
    let r = initialize_result("Use the tools.".to_string());
    assert_eq!(r.protocol_version, MCP_PROTOCOL_VERSION);
    assert_eq!(r.protocol_version, "2025-06-18");
    assert!(!r.capabilities.tools.list_changed);
    assert!(!r.capabilities.resources.subscribe);
    assert_eq!(r.server_info.name, "palmier-pro");
    assert_eq!(r.server_info.version, "1.0.0");
    assert_eq!(r.instructions, "Use the tools.");
    assert_eq!(McpServerConfig::default().port, 19789);
}

#[test]
fn log_lines_drop_empty_details() {
    assert_eq!(format_line("mcp", "started", Some("port=19789")), "[mcp] started: port=19789");
    assert_eq!(format_line("mcp", "started", Some("")), "[mcp] started");
    assert_eq!(format_line("editor", "unknown tool", None), "[editor] unknown tool");
}

#[test]
fn probe_results() {
    let ok = ProbeResult::answered(200, Some("{}".to_string()));
    assert_eq!(ok.status, Some(200));
    assert!(ok.error.is_none());
    let failed = ProbeResult::failed("connection refused".to_string());
    assert!(failed.status.is_none() && failed.body.is_none());
    assert_eq!(failed.error.as_deref(), Some("connection refused"));
}

#[test]
fn unknown_tool_names_the_tool_and_changes_nothing() {
    let mut s = EditorState::new();
    assert!(!is_known_tool("does_not_exist"));
    assert!(is_known_tool("delete_folder"));
    let d: Vec<i64> = Vec::new();
    let r = dispatch_call("does_not_exist", &JsonValue::Null, &mut s, &d, &Vec::new());
    assert_eq!(error_text(&r), "Unknown tool: does_not_exist");
    assert_eq!(s.timeline.tracks.len(), 0);
    assert!(s.undo_stack.is_empty());
}

#[test]
fn get_timeline_windows() {
    let mut s = EditorState::new();
    s.media_assets.push(asset());
    add_one(&mut s, 0, 30);
    add_one(&mut s, 100, 30);
    let bad = run("get_timeline", obj(vec![("startFrame", num(5)), ("endFrame", num(5))]), &mut s);
    assert_eq!(error_text(&bad), "Invalid window [Some(5), Some(5)): startFrame must be less than endFrame");
    let neg = run("get_timeline", obj(vec![("startFrame", num(-3)), ("endFrame", num(-7))]), &mut s);
    assert_eq!(error_text(&neg), "Invalid window [Some(-3), Some(-7)): startFrame must be less than endFrame");
    let late = run("get_timeline", obj(vec![("startFrame", num(50))]), &mut s);
    let v = late.json().unwrap();
    let w = v.get("window").unwrap().as_array().unwrap();
    assert_eq!(w[0].as_i64(), Some(50));
    assert_eq!(w[1].as_i64(), Some(130));
    assert_eq!(v.get("totalFrames").unwrap().as_i64(), Some(130));
    let tracks = v.get("tracks").unwrap().as_array().unwrap();
    let shown: usize = tracks.iter().map(|t| t.get("clips").unwrap().as_array().unwrap().len()).sum();
    assert_eq!(shown, 1);
    assert_eq!(tracks[0].get("label").unwrap().as_str().unwrap(), "V1");
}

#[test]
fn add_captions_is_refused_without_change() {
    let mut s = EditorState::new();
    let r = run("add_captions", obj(vec![]), &mut s);
    assert!(error_text(&r).starts_with("Caption auto-generation requires the on-device transcription engine"));
    assert!(s.undo_stack.is_empty());
}

#[test]
fn undo_with_nothing_to_undo_is_an_error() {
    let mut s = EditorState::new();
    let r = run("undo", obj(vec![]), &mut s);
    assert_eq!(error_text(&r), "No assistant edit to undo this session. The user's own edits are theirs to undo.");
}

#[test]
fn undo_after_ripple_delete_gives_back_the_clips() {
    let mut s = EditorState::new();
    s.media_assets.push(asset());
    add_one(&mut s, 0, 60);
    let before = clip_spans(&s);
    let depth = s.undo_stack.len();
    let r = run("ripple_delete_ranges", obj(vec![("ranges", JsonValue::Array(vec![JsonValue::Array(vec![num(20), num(30)])]))]), &mut s);
    assert!(r.is_error().is_none());
    assert_eq!(r.message().unwrap(), "Ripple-deleted 1 range (total 10f removed).");
    assert_ne!(clip_spans(&s), before);
    let u = run("undo", obj(vec![]), &mut s);
    assert!(u.message().unwrap().starts_with("Undid: "));
    assert_eq!(clip_spans(&s), before);
    assert_eq!(s.undo_stack.len(), depth);
}

#[test]
fn compatibility_is_symmetric_on_every_pair() {
    let all = [ClipType::Video, ClipType::Audio, ClipType::Image, ClipType::Text];
    for a in all {
        for b in all {
            assert_eq!(a.is_compatible_with(b), b.is_compatible_with(a));
        }
    }
}

#[test]
fn clearing_a_region_leaves_it_empty() {
    let mut tl = Timeline::default_timeline();
    tl.tracks.push(Track::new("t".to_string(), ClipType::Video));
    tl.tracks[0].clips.push(Clip::fresh("a".to_string(), "m".to_string(), ClipType::Video, 0, 40, 0, 0));
    tl.tracks[0].clips.push(Clip::fresh("b".to_string(), "m".to_string(), ClipType::Video, 50, 10, 0, 0));
    tl.tracks[0].clips.push(Clip::fresh("c".to_string(), "m".to_string(), ClipType::Video, 70, 30, 5, 0));
    clear_region(&mut tl, 0, 20, 80);
    let spans: Vec<(String, i64, i64, i64)> =
        tl.tracks[0].clips.iter().map(|c| (c.id.clone(), c.start_frame, c.duration_frames, c.trim_start_frame)).collect();
    assert_eq!(spans, vec![("a".to_string(), 0, 20, 0), ("c".to_string(), 80, 20, 15)]);
    for c in &tl.tracks[0].clips {
        assert!(!(c.start_frame < 80 && c.start_frame + c.duration_frames > 20));
    }
}

#[test]
fn integer_numbers_read_as_floats() {
    match JsonNumber::PosInt(3).as_f64() {
        Real::Bits(b) => assert_eq!(f64::from_bits(b), 3.0),
        _ => panic!("expected an encoded double"),
    }
    match JsonNumber::NegInt(-2).as_f64() {
        Real::Bits(b) => assert_eq!(f64::from_bits(b), -2.0),
        _ => panic!("expected an encoded double"),
    }
}

#[test]
fn split_clip_mints_a_new_id() {
    let mut s = EditorState::new();
    s.media_assets.push(asset());
    add_one(&mut s, 0, 60);
    let id = s.timeline.tracks[0].clips[0].id.clone();
    let r = run("split_clip", obj(vec![("clipId", text(&id)), ("atFrame", num(25))]), &mut s);
    assert!(r.is_error().is_none());
    let spans = clip_spans(&s);
    assert_eq!(spans.len(), 2);
    assert_eq!(spans[0], (id.clone(), 0, 25));
    assert_eq!((spans[1].1, spans[1].2), (25, 35));
    assert_ne!(spans[1].0, id);
    assert_eq!(r.message().unwrap(), &format!("Split clip {id} at frame 25; new clip {}.", spans[1].0));
}

#[test]
fn move_and_property_summaries_count_the_clips() {
    let mut s = EditorState::new();
    s.media_assets.push(asset());
    add_one(&mut s, 0, 30);
    let id = s.timeline.tracks[0].clips[0].id.clone();
    let moved = run(
        "move_clips",
        obj(vec![("moves", JsonValue::Array(vec![obj(vec![("clipId", text(&id)), ("toFrame", num(100))])]))]),
        &mut s,
    );
    assert_eq!(moved.message().unwrap(), "Moved 1 clip.");
    assert_eq!(s.timeline.tracks[0].clips[0].start_frame, 100);
    let props = run("set_clip_properties", obj(vec![("clipIds", JsonValue::Array(vec![text(&id)])), ("durationFrames", num(12))]), &mut s);
    assert_eq!(props.message().unwrap(), "Updated 1 clip.");
    assert_eq!(s.timeline.tracks[0].clips[0].duration_frames, 12);
}

#[test]
fn import_summary_names_the_new_asset() {
    let mut s = EditorState::new();
    let r = run("import_media", obj(vec![("source", obj(vec![("url", text("https://example.com/clip.mp4"))]))]), &mut s);
    assert_eq!(s.media_assets.len(), 1);
    let id = s.media_assets[0].id.clone();
    assert_eq!(r.message().unwrap(), &format!("Imported Video asset as {id}. The asset is usable in add_clips. Costs nothing."));
    let bad = run("import_media", obj(vec![]), &mut s);
    assert_eq!(error_text(&bad), "Missing 'source' object");
    assert_eq!(s.media_assets.len(), 1);
}

#[test]
fn remove_tracks_counts_each_track_once() {
    let mut s = EditorState::new();
    s.media_assets.push(asset());
    add_one(&mut s, 0, 30);
    assert_eq!(s.timeline.tracks.len(), 1);
    let r = run("remove_tracks", obj(vec![("trackIndexes", JsonValue::Array(vec![num(0), num(0)]))]), &mut s);
    assert_eq!(
        r.message().unwrap(),
        "Removed 1 track — remaining track indexes have shifted; re-read with get_timeline before next index-based call."
    );
    assert_eq!(s.timeline.tracks.len(), 0);
    let bad = run("remove_tracks", obj(vec![("trackIndexes", JsonValue::Array(vec![num(3)]))]), &mut s);
    assert!(bad.is_error() == Some(true));
}

#[test]
fn add_clips_summary_lists_created_tracks_and_clips() {
    let mut s = EditorState::new();
    s.media_assets.push(asset());
    let args = obj(vec![(
        "entries",
        JsonValue::Array(vec![obj(vec![
            ("mediaRef", text("asset-1")),
            ("startFrame", num(5)),
            ("durationFrames", num(30)),
            ("trimStartFrame", num(3)),
        ])]),
    )]);
    let r = run("add_clips", args, &mut s);
    assert_eq!(r.message().unwrap(), "Created track 0 ('Video', video). Added 1 clip: clip-2 on track 0 @ 5 for 30 trimStart 3");
    let t = run(
        "add_texts",
        obj(vec![("entries", JsonValue::Array(vec![obj(vec![("content", text("Hi")), ("startFrame", num(0)), ("durationFrames", num(10))])]))]),
        &mut s,
    );
    assert_eq!(t.message().unwrap(), "Created track 0 ('Video', video). Added 1 text clip: clip-4");
}

#[test]
fn remove_clips_summary_lists_the_ids() {
    let mut s = EditorState::new();
    s.media_assets.push(asset());
    add_one(&mut s, 0, 30);
    let id = s.timeline.tracks[0].clips[0].id.clone();
    let r = run("remove_clips", obj(vec![("clipIds", JsonValue::Array(vec![text(&id)]))]), &mut s);
    assert_eq!(
        r.message().unwrap(),
        &format!("Removed 1 clip. Pruned 1 empty track — track indices have shifted; re-read with get_timeline before next index-based call: {id}")
    );
    assert_eq!(s.timeline.tracks.len(), 0);
}

#[test]
fn folder_summaries_count_what_moved() {
    let mut s = EditorState::new();
    s.media_assets.push(asset());
    let c = run("create_folder", obj(vec![("name", text("Shots"))]), &mut s);
    let fid = s.folders[0].id.clone();
    assert_eq!(c.message().unwrap(), &format!("Created folder {fid}."));
    let m = run("move_to_folder", obj(vec![("assetIds", JsonValue::Array(vec![text("asset-1")])), ("folderId", text(&fid))]), &mut s);
    assert_eq!(m.message().unwrap(), "Moved 1 asset.");
    let r = run("rename_folder", obj(vec![("folderId", text(&fid)), ("name", text("B-roll"))]), &mut s);
    assert_eq!(r.message().unwrap(), &format!("Renamed folder {fid}."));
    add_one(&mut s, 0, 10);
    let d = run("delete_folder", obj(vec![("folderIds", JsonValue::Array(vec![text(&fid), text(&fid)]))]), &mut s);
    assert_eq!(d.message().unwrap(), "Deleted 1 folder (also deleted 1 asset and 1 timeline clip).");
    assert!(s.media_assets.is_empty());
    assert!(s.timeline.tracks.iter().all(|t| t.clips.is_empty()));
    s.media_assets.push(asset());
    add_one(&mut s, 0, 10);
    let dm = run("delete_media", obj(vec![("assetIds", JsonValue::Array(vec![text("asset-1")]))]), &mut s);
    assert_eq!(dm.message().unwrap(), "Deleted 1 asset (also removed 1 timeline clip referencing them).");
    assert!(s.media_assets.is_empty());
}

#[test]
fn error_messages_name_the_problem() {
    let mut s = EditorState::new();
    s.media_assets.push(asset());
    add_one(&mut s, 0, 30);
    let id = s.timeline.tracks[0].clips[0].id.clone();
    let e1 = run("split_clip", obj(vec![("atFrame", num(3))]), &mut s);
    assert_eq!(error_text(&e1), "Missing or invalid 'clipId' (expected string)");
    let e2 = run("split_clip", obj(vec![("clipId", text(&id)), ("atFrame", num(90))]), &mut s);
    assert_eq!(error_text(&e2), format!("atFrame 90 is outside clip {id} range [0..30)"));
    let e3 = run("remove_tracks", obj(vec![("trackIndexes", JsonValue::Array(vec![num(0), text("x")]))]), &mut s);
    assert_eq!(error_text(&e3), "trackIndexes[1]: expected integer");
    let e4 = run("remove_tracks", obj(vec![("trackIndexes", JsonValue::Array(vec![num(4)]))]), &mut s);
    assert_eq!(error_text(&e4), "trackIndexes[0]: index 4 out of range (0..0)");
    let e5 = run(
        "set_keyframes",
        obj(vec![("clipId", text(&id)), ("property", text("blur")), ("keyframes", JsonValue::Array(vec![]))]),
        &mut s,
    );
    assert_eq!(error_text(&e5), "Invalid property 'blur'. Expected one of: volume, opacity, rotation, position, scale, crop.");
    let e6 = run("delete_media", obj(vec![("assetIds", JsonValue::Array(vec![text("asset-1"), text("nope")]))]), &mut s);
    assert_eq!(error_text(&e6), "Asset not found: nope");
    let e7 = run("ripple_delete_ranges", obj(vec![("trackIndex", num(2)), ("ranges", JsonValue::Array(vec![]))]), &mut s);
    assert_eq!(error_text(&e7), "trackIndex 2 out of range (timeline has 1 track)");
    let e8 = run("insert_clips", obj(vec![("trackIndex", num(0)), ("atFrame", num(-5))]), &mut s);
    assert_eq!(error_text(&e8), "atFrame must be >= 0 (got -5)");
    let e9 = run("remove_clips", obj(vec![("clipIds", JsonValue::Array(vec![text("ghost")]))]), &mut s);
    assert_eq!(error_text(&e9), "Clip not found: ghost");
    let e10 = run("set_clip_properties", obj(vec![("clipIds", JsonValue::Array(vec![num(1)]))]), &mut s);
    assert_eq!(error_text(&e10), "clipIds[0]: expected string");
    assert_eq!(s.timeline.tracks[0].clips.len(), 1);
}
