//! The tool list of `tools/list`: each tool's name, description and JSON
//! input schema, in the order clients see them.

use vstd::prelude::*;
use vstd::string::*;
use crate::catalog::push_member;
use crate::json::{Json, JsonNumber, JsonValue, lemma_json_of_members};
use crate::protocol::{ListToolsResult, ToolDescriptor};
use crate::text::string_of;

verus! {

/// The tools in the order `tools/list` gives them.
pub open spec fn listed_tool_names() -> Seq<Seq<char>> {
    seq![
        "get_timeline"@, "get_media"@, "inspect_media"@, "get_transcript"@, "inspect_timeline"@,
        "search_media"@, "add_clips"@, "insert_clips"@, "remove_clips"@, "remove_tracks"@, "move_clips"@,
        "set_clip_properties"@, "set_keyframes"@, "split_clip"@, "ripple_delete_ranges"@, "undo"@,
        "add_texts"@, "add_captions"@, "generate_video"@, "generate_image"@, "generate_audio"@,
        "upscale_media"@, "import_media"@, "list_folders"@, "create_folder"@, "move_to_folder"@,
        "rename_media"@, "rename_folder"@, "delete_media"@, "delete_folder"@, "list_models"@,
    ]
}

/// An input schema: a JSON object whose first member is `"type": "object"`
/// and which has no `additionalProperties` member.
pub open spec fn schema_shape(j: Json) -> bool {
    &&& j is Object
    &&& j.members().len() >= 1
    &&& j.members()[0] == ("type"@, Json::Str("object"@))
    &&& forall|i: int| 0 <= i < j.members().len() ==> (#[trigger] j.members()[i]).0 != "additionalProperties"@
}

/// `{"type": "object"}` with the given properties and required names, when
/// there are any.
fn object_schema(properties: Option<Vec<(String, JsonValue)>>, required: Option<Vec<JsonValue>>) -> (r: JsonValue)
    ensures
        schema_shape(r@),
{
    let mut m: Vec<(String, JsonValue)> = Vec::new();
    proof {
        lemma_json_of_members(m@);
        reveal_strlit("type");
        reveal_strlit("properties");
        reveal_strlit("required");
        reveal_strlit("additionalProperties");
    }
    assert(crate::json::json_of_members(m@) =~= Seq::<(Seq<char>, Json)>::empty());
    push_member(&mut m, "type", JsonValue::string("object"));
    match properties {
        Some(p) => push_member(&mut m, "properties", JsonValue::Object(p)),
        None => {},
    }
    match required {
        Some(q) => push_member(&mut m, "required", JsonValue::Array(q)),
        None => {},
    }
    let ghost ms = crate::json::json_of_members(m@);
    assert(ms[0] == ("type"@, Json::Str("object"@)));
    assert forall|i: int| 0 <= i < ms.len() implies (#[trigger] ms[i]).0 != "additionalProperties"@ by {
        assert(ms[i].0 == "type"@ || ms[i].0 == "properties"@ || ms[i].0 == "required"@);
        assert("additionalProperties"@.len() == 20);
    }
    let r = JsonValue::Object(m);
    assert(r@ == Json::Object(ms));
    r
}

fn typed_prop(ty: &str, description: &str) -> (r: JsonValue) {
    let mut m: Vec<(String, JsonValue)> = Vec::new();
    m.push((string_of("type"), JsonValue::string(ty)));
    m.push((string_of("description"), JsonValue::string(description)));
    JsonValue::Object(m)
}

fn string_prop(description: &str) -> (r: JsonValue) {
    typed_prop("string", description)
}

fn integer_prop(description: &str) -> (r: JsonValue) {
    typed_prop("integer", description)
}

fn number_prop(description: &str) -> (r: JsonValue) {
    typed_prop("number", description)
}

fn bool_prop(description: &str) -> (r: JsonValue) {
    typed_prop("boolean", description)
}

fn enum_string_prop(description: &str, variants: Vec<JsonValue>) -> (r: JsonValue) {
    let mut m: Vec<(String, JsonValue)> = Vec::new();
    m.push((string_of("type"), JsonValue::string("string")));
    m.push((string_of("enum"), JsonValue::Array(variants)));
    m.push((string_of("description"), JsonValue::string(description)));
    JsonValue::Object(m)
}

fn get_timeline() -> (r: ToolDescriptor)
    ensures
        r.name@ == "get_timeline"@,
        schema_shape(r.input_schema@),
{
    let mut props: Vec<(String, JsonValue)> = Vec::new();
    props.push((string_of("startFrame"), integer_prop("Optional. Window start (inclusive); only clips intersecting [startFrame, endFrame) are returned. Tracks report totalClips when the window hides some.")));
    props.push((string_of("endFrame"), integer_prop("Optional. Window end (exclusive).")));
    ToolDescriptor {
        name: string_of("get_timeline"),
        description: string_of("Always call at the start of a session. Returns project settings (fps, resolution, totalFrames), track list with types and order, all clips with their frames and properties, and canGenerate (if false, generation/upscale tools will fail — tell the user to sign in to Palmier and subscribe before attempting them). The clipId/trackId values here are what every other tool accepts.\n\nClip and track fields equal to their defaults are omitted: mediaType 'video', sourceClipType = mediaType, speed 1, volume 1, opacity 1, trims/fades 0, identity transform/crop, default textStyle, track muted/hidden false. Text clips never report trims (no source media).\n\nCaption clips (sharing a captionGroupId) come back per track as captionGroups instead of clips entries: properties common to the group are hoisted into 'shared' and each clip is a [clipId, startFrame, durationFrames, text] row (caption box width/height are auto-fit per text and omitted). Rows are capped at 200 per group — when clipCount exceeds the rows shown, page with startFrame/endFrame. Caption clips whose properties deviate from the group appear individually in clips."),
        input_schema: object_schema(Some(props), None),
    }
}

fn get_media() -> (r: ToolDescriptor)
    ensures
        r.name@ == "get_media"@,
        schema_shape(r.input_schema@),
{
    ToolDescriptor {
        name: string_of("get_media"),
        description: string_of("Call before referencing any asset. Every mediaRef/reference ID in other tools comes from the IDs returned here. Also exposes generationStatus (generating | downloading | failed | none) for async-generated and -imported assets."),
        input_schema: object_schema(None, None),
    }
}

fn inspect_media() -> (r: ToolDescriptor)
    ensures
        r.name@ == "inspect_media"@,
        schema_shape(r.input_schema@),
{
    let mut props: Vec<(String, JsonValue)> = Vec::new();
    props.push((string_of("mediaRef"), string_prop("Asset ID from get_media.")));
    props.push((string_of("clipId"), string_prop("Optional. A clip referencing this mediaRef; transcript times come back as project frames for that clip (out-of-range entries dropped).")));
    props.push((string_of("maxFrames"), integer_prop("Video and Lottie. Sample frame count (default 6, max 12).")));
    props.push((string_of("startSeconds"), number_prop("Video/audio. Source-time window start; scopes frames and transcription.")));
    props.push((string_of("endSeconds"), number_prop("Video/audio. Window end (default: asset duration).")));
    props.push((string_of("wordTimestamps"), bool_prop("Video/audio. Add word-level [text, start, end] tuples (capped at 10000 — most clips return all words at once; narrow with startSeconds/endSeconds only for very long media). Use for word-boundary edits like filler-word removal.")));
    props.push((string_of("overview"), bool_prop("Video only. One storyboard grid of visually distinct, timestamped moments instead of frames — far more coverage per token; few tiles means static footage. maxFrames ignored.")));
    ToolDescriptor {
        name: string_of("inspect_media"),
        description: string_of("Look at a media asset before referencing or editing it. Images: the image plus dimensions and EXIF. Video: sample frames plus a transcription of the audio track. Audio: transcription. Lottie: frames sampled evenly across the animation (over gray), plus framerate and duration — use this to verify a Lottie you wrote looks and moves right. Transcription is sentence-level segments — [text, start, end] tuples, capped at 400 — in source seconds, or project frames when clipId is set. When capped, pass the returned nextStartSeconds as startSeconds for the next page.\n\nLong media: pass overview=true for a one-image storyboard, read the segments, then re-call with startSeconds/endSeconds to zoom — windowed calls only transcribe that span, so they are fast."),
        input_schema: object_schema(Some(props), Some(vec![JsonValue::string("mediaRef")])),
    }
}

fn get_transcript() -> (r: ToolDescriptor)
    ensures
        r.name@ == "get_transcript"@,
        schema_shape(r.input_schema@),
{
    let mut props: Vec<(String, JsonValue)> = Vec::new();
    props.push((string_of("startFrame"), integer_prop("Optional. Only return words ending after this project frame. Use with the returned nextStartFrame to page a long timeline.")));
    props.push((string_of("endFrame"), integer_prop("Optional. Only return words starting before this project frame.")));
    props.push((string_of("clipId"), string_prop("Scope the transcript to a single clip — returns only what that clip says, in project frames. Answers \"what's in clip X?\" without scanning the whole timeline.")));
    ToolDescriptor {
        name: string_of("get_transcript"),
        description: string_of("Returns the spoken transcript of the CURRENT timeline in project frames — the post-edit caption track in one call. Unlike inspect_media (which transcribes one source asset in isolation, in source seconds), this walks every audio/video clip on the timeline, maps each word through that clip's trim/speed/position, and concatenates in timeline order. Deleted ranges are gone by construction, so after cuts this always reflects what's actually audible — no stale results, no per-clip frame math.\n\nReturns clips in timeline order, each with its words nested as compact [text, startFrame, endFrame] rows (the field order is given once in wordFormat) — clipId and trackIndex are stated once per clip, not repeated per word. Words are monotonic and non-overlapping; each is attributed to one clip, so a word split across a clip seam is emitted once, not re-emitted per clip. Pass a clip's clipId and a word's frames straight to ripple_delete_ranges. Capped at 10000 words total; page with startFrame/endFrame using nextStartFrame. Pass clipId to scope to a single clip (\"what does this clip say?\"). Transcription runs on-device.\n\nUse for transcript-driven edits (filler-word / dead-air removal, locating a quote, take selection) and to verify what remains after cutting."),
        input_schema: object_schema(Some(props), None),
    }
}

fn inspect_timeline() -> (r: ToolDescriptor)
    ensures
        r.name@ == "inspect_timeline"@,
        schema_shape(r.input_schema@),
{
    let mut props: Vec<(String, JsonValue)> = Vec::new();
    props.push((string_of("startFrame"), integer_prop("Project frame to render (default 0). With no endFrame, a single frame is returned.")));
    props.push((string_of("endFrame"), integer_prop("Optional. Sample maxFrames evenly across [startFrame, endFrame) instead of one frame.")));
    props.push((string_of("maxFrames"), integer_prop("Frames to sample when endFrame is set (default 6, max 12).")));
    ToolDescriptor {
        name: string_of("inspect_timeline"),
        description: string_of("See the composited timeline — what the user actually sees in the preview at a given frame: all video tracks stacked with their transforms, opacity, crop, and keyframes applied, plus text and caption overlays baked in. Use this to verify your edits landed (a PIP's position, a title's placement, layer order) — inspect_media shows the raw source asset, not the cut.\n\nFrames are project frames (from get_timeline). Pass a single startFrame for one composited frame; add endFrame to sample maxFrames evenly across [startFrame, endFrame) for a transition or sequence. Frames past content render black. Returns frames downscaled for token efficiency, with the frameNumbers sampled."),
        input_schema: object_schema(Some(props), None),
    }
}

fn search_media() -> (r: ToolDescriptor)
    ensures
        r.name@ == "search_media"@,
        schema_shape(r.input_schema@),
{
    let mut props: Vec<(String, JsonValue)> = Vec::new();
    props.push((string_of("query"), string_prop("What to find. Visual: a caption-style scene description. Spoken: the words to match.")));
    props.push((string_of("scope"), enum_string_prop("Optional. Default both.", vec![JsonValue::string("visual"), JsonValue::string("spoken"), JsonValue::string("both")])));
    props.push((string_of("mediaRef"), string_prop("Optional. Restrict the search to one asset from get_media.")));
    props.push((string_of("limit"), integer_prop("Optional. Max hits per group (default 10, max 50).")));
    ToolDescriptor {
        name: string_of("search_media"),
        description: string_of("Search the media library by content: what's on screen (visual) and what's said (spoken). Visual matching is semantic and on-device — phrase the query like an image caption ('a wide shot of a harbor at sunset'), not keywords; covers videos and stills. Spoken matching layers exact keywords over on-device semantic matching of transcript segments — quote the words said, or paraphrase them; transcripts are created automatically while indexing (and by inspect_media and add_captions), so coverage grows as indexing completes. The two groups rank independently and are never blended. Scores are uncalibrated — use them for ordering only.\n\nHits are source-second ranges. To place exactly that moment, multiply by fps and pass as trimStartFrame/trimEndFrame with a matching durationFrames to add_clips or set_clip_properties. Image hits have no time range.\n\nstatus reports the visual index: ready | indexing | modelNotInstalled | downloadingModel | preparing | disabled | failed. When not ready, moments may be empty or incomplete (compare indexedAssets to indexableAssets) — report that instead of concluding the footage doesn't exist, and don't poll in a loop. Spoken results work regardless of status."),
        input_schema: object_schema(Some(props), Some(vec![JsonValue::string("query")])),
    }
}

fn add_clips() -> (r: ToolDescriptor)
    ensures
        r.name@ == "add_clips"@,
        schema_shape(r.input_schema@),
{
    let mut props: Vec<(String, JsonValue)> = Vec::new();
    props.push((string_of("entries"), JsonValue::Object(vec![
        (string_of("type"), JsonValue::string("array")),
        (string_of("description"), JsonValue::string("Clips to add. Each entry is validated up front; one bad entry rejects the whole call with no partial state.")),
        (string_of("items"), JsonValue::Object(vec![
            (string_of("type"), JsonValue::string("object")),
            (string_of("properties"), JsonValue::Object(vec![
            (string_of("mediaRef"), JsonValue::Object(vec![
                (string_of("type"), JsonValue::string("string")),
                (string_of("description"), JsonValue::string("ID of the media asset from get_media")),
            ])),
            (string_of("trackIndex"), JsonValue::Object(vec![
                (string_of("type"), JsonValue::string("integer")),
                (string_of("description"), JsonValue::string("Optional. Track index (0-based). Omit on every entry to auto-create one shared track per asset zone (video/audio).")),
            ])),
            (string_of("startFrame"), JsonValue::Object(vec![
                (string_of("type"), JsonValue::string("integer")),
                (string_of("description"), JsonValue::string("Timeline frame position to place the clip (project frames).")),
            ])),
            (string_of("durationFrames"), JsonValue::Object(vec![
                (string_of("type"), JsonValue::string("integer")),
                (string_of("description"), JsonValue::string("Clip length on the timeline, in project frames.")),
            ])),
            (string_of("trimStartFrame"), JsonValue::Object(vec![
                (string_of("type"), JsonValue::string("integer")),
                (string_of("description"), JsonValue::string("Optional. Frames skipped from the START of the source media before the clip begins — a SOURCE offset, NOT a timeline position, but measured in PROJECT frames (the timeline's fps, same units as startFrame/durationFrames — never the source's own fps). 0 (default) starts at the source's first frame. Set this to trim on placement instead of a follow-up set_clip_properties call; semantics are identical to set_clip_properties.")),
            ])),
            (string_of("trimEndFrame"), JsonValue::Object(vec![
                (string_of("type"), JsonValue::string("integer")),
                (string_of("description"), JsonValue::string("Optional. Frames trimmed off the END of the source media, in PROJECT frames — same units as trimStartFrame. 0 (default) trims nothing off the end.")),
            ])),
        ])),
            (string_of("required"), JsonValue::Array(vec![JsonValue::string("mediaRef"), JsonValue::string("startFrame"), JsonValue::string("durationFrames")])),
        ])),
    ])));
    ToolDescriptor {
        name: string_of("add_clips"),
        description: string_of("Places one or more media assets on the timeline as a single undoable action. Each entry's asset type must be compatible with its target track (video/image are interchangeable across video/image tracks; audio requires an audio track). When a video asset with audio is placed on a video track, a linked audio clip is automatically created on an audio track (an existing one if available, otherwise a new one). The whole batch is one undo step.\n\ntrackIndex is optional. Omit it on all entries and the tool auto-creates the needed tracks — one shared video track for visual entries and one shared audio track for audio entries (matches the captioning pattern in add_texts). To target existing tracks, set trackIndex on every entry. Mixing (some entries specify, others omit) is rejected — split into two calls.\n\nTracks work as layers: clips on the SAME track are sequential — if a new clip's range overlaps an existing clip on that track, the existing clip is trimmed/split/removed to make room, matching the UI's drag-onto-track overwrite behavior."),
        input_schema: object_schema(Some(props), Some(vec![JsonValue::string("entries")])),
    }
}

fn insert_clips() -> (r: ToolDescriptor)
    ensures
        r.name@ == "insert_clips"@,
        schema_shape(r.input_schema@),
{
    let mut props: Vec<(String, JsonValue)> = Vec::new();
    props.push((string_of("trackIndex"), integer_prop("Track index (0-based, from get_timeline) to insert into and ripple.")));
    props.push((string_of("atFrame"), integer_prop("Timeline frame (project frames) where insertion begins. Every clip at or after this frame on rippled tracks shifts right by the total inserted duration.")));
    props.push((string_of("entries"), JsonValue::Object(vec![
        (string_of("type"), JsonValue::string("array")),
        (string_of("description"), JsonValue::string("Clips to insert, placed sequentially from atFrame. Validated up front; one bad entry rejects the whole call.")),
        (string_of("items"), JsonValue::Object(vec![
            (string_of("type"), JsonValue::string("object")),
            (string_of("properties"), JsonValue::Object(vec![
            (string_of("mediaRef"), JsonValue::Object(vec![
                (string_of("type"), JsonValue::string("string")),
                (string_of("description"), JsonValue::string("ID of the media asset from get_media.")),
            ])),
            (string_of("durationFrames"), JsonValue::Object(vec![
                (string_of("type"), JsonValue::string("integer")),
                (string_of("description"), JsonValue::string("Optional. Timeline length in project frames. Omit to use the asset's full source duration.")),
            ])),
            (string_of("trimStartFrame"), JsonValue::Object(vec![
                (string_of("type"), JsonValue::string("integer")),
                (string_of("description"), JsonValue::string("Optional. Frames skipped from the START of the source media — a SOURCE offset in PROJECT frames (same units as atFrame/durationFrames, never the source's own fps). 0 (default) starts at the source's first frame.")),
            ])),
            (string_of("trimEndFrame"), JsonValue::Object(vec![
                (string_of("type"), JsonValue::string("integer")),
                (string_of("description"), JsonValue::string("Optional. Frames trimmed off the END of the source media, in PROJECT frames. 0 (default) trims nothing.")),
            ])),
        ])),
            (string_of("required"), JsonValue::Array(vec![JsonValue::string("mediaRef")])),
        ])),
    ])));
    ToolDescriptor {
        name: string_of("insert_clips"),
        description: string_of("Inserts one or more media assets at a single point and RIPPLES: every clip at or after atFrame is pushed right to open a gap, so nothing is overwritten. This is the non-destructive counterpart to add_clips (which clears the landing region, trimming/splitting/removing whatever's there). Use insert_clips to splice footage in without losing existing clips; use add_clips to fill empty space or deliberately overwrite.\n\nEntries are laid end-to-end starting at atFrame on the target track (entry[0] at atFrame, entry[1] immediately after, ...). The push equals the sum of the entries' durations and is applied to the target track, every sync-locked track, AND the audio track any auto-created linked audio lands on — so a clip and its linked audio stay aligned. As in add_clips, a video asset with audio spawns a linked audio clip. One undoable action; one bad entry rejects the whole call with no partial state.\n\ntrackIndex is required — ripple needs an existing track to push. For placement into empty space, use add_clips."),
        input_schema: object_schema(Some(props), Some(vec![JsonValue::string("trackIndex"), JsonValue::string("atFrame"), JsonValue::string("entries")])),
    }
}

fn remove_clips() -> (r: ToolDescriptor)
    ensures
        r.name@ == "remove_clips"@,
        schema_shape(r.input_schema@),
{
    let mut props: Vec<(String, JsonValue)> = Vec::new();
    props.push((string_of("clipIds"), JsonValue::Object(vec![
        (string_of("type"), JsonValue::string("array")),
        (string_of("description"), JsonValue::string("Clip IDs to remove.")),
        (string_of("items"), JsonValue::Object(vec![
            (string_of("type"), JsonValue::string("string")),
        ])),
    ])));
    ToolDescriptor {
        name: string_of("remove_clips"),
        description: string_of("Removes one or more clips by ID as a single undoable action. Any clip that belongs to a link group (e.g. a video with its paired audio) takes its whole group with it, matching the UI's linked-delete behavior."),
        input_schema: object_schema(Some(props), Some(vec![JsonValue::string("clipIds")])),
    }
}

fn remove_tracks() -> (r: ToolDescriptor)
    ensures
        r.name@ == "remove_tracks"@,
        schema_shape(r.input_schema@),
{
    let mut props: Vec<(String, JsonValue)> = Vec::new();
    props.push((string_of("trackIndexes"), JsonValue::Object(vec![
        (string_of("type"), JsonValue::string("array")),
        (string_of("items"), JsonValue::Object(vec![
            (string_of("type"), JsonValue::string("integer")),
        ])),
        (string_of("description"), JsonValue::string("Track indexes (0-based, from get_timeline) to remove.")),
    ])));
    ToolDescriptor {
        name: string_of("remove_tracks"),
        description: string_of("Removes whole tracks and every clip on them in one undoable action. Linked partners on OTHER tracks are not removed. Remaining track indexes shift down after removal."),
        input_schema: object_schema(Some(props), Some(vec![JsonValue::string("trackIndexes")])),
    }
}

fn move_clips() -> (r: ToolDescriptor)
    ensures
        r.name@ == "move_clips"@,
        schema_shape(r.input_schema@),
{
    let mut props: Vec<(String, JsonValue)> = Vec::new();
    props.push((string_of("moves"), JsonValue::Object(vec![
        (string_of("type"), JsonValue::string("array")),
        (string_of("description"), JsonValue::string("Per-clip move requests. At least one of toTrack or toFrame is required per entry.")),
        (string_of("items"), JsonValue::Object(vec![
            (string_of("type"), JsonValue::string("object")),
            (string_of("properties"), JsonValue::Object(vec![
            (string_of("clipId"), JsonValue::Object(vec![
                (string_of("type"), JsonValue::string("string")),
                (string_of("description"), JsonValue::string("The clip ID to move.")),
            ])),
            (string_of("toTrack"), JsonValue::Object(vec![
                (string_of("type"), JsonValue::string("integer")),
                (string_of("description"), JsonValue::string("Destination track index (0-based). Omit to keep the clip on its current track.")),
            ])),
            (string_of("toFrame"), JsonValue::Object(vec![
                (string_of("type"), JsonValue::string("integer")),
                (string_of("description"), JsonValue::string("Destination start frame. Omit to keep the clip at its current start.")),
            ])),
        ])),
            (string_of("required"), JsonValue::Array(vec![JsonValue::string("clipId")])),
        ])),
    ])));
    ToolDescriptor {
        name: string_of("move_clips"),
        description: string_of("Moves one or more clips to a new track and/or frame position. Single undoable action. Each move specifies the clip ID and at least one of toTrack (must be compatible with the clip's media type) and toFrame. Overlap on the destination is resolved as in add_clips (existing clips on the destination track are trimmed/split/removed). Linked partners follow the named clip: startFrame propagates as a delta to preserve l-cut / j-cut offsets; tracks stay with the named clip."),
        input_schema: object_schema(Some(props), Some(vec![JsonValue::string("moves")])),
    }
}

fn set_clip_properties() -> (r: ToolDescriptor)
    ensures
        r.name@ == "set_clip_properties"@,
        schema_shape(r.input_schema@),
{
    let mut props: Vec<(String, JsonValue)> = Vec::new();
    props.push((string_of("clipIds"), JsonValue::Object(vec![
        (string_of("type"), JsonValue::string("array")),
        (string_of("description"), JsonValue::string("Clip IDs to update. The property values below apply to every clip in this list.")),
        (string_of("items"), JsonValue::Object(vec![
            (string_of("type"), JsonValue::string("string")),
        ])),
    ])));
    props.push((string_of("durationFrames"), integer_prop("New duration in frames.")));
    props.push((string_of("trimStartFrame"), integer_prop("SOURCE-media offset, NOT a timeline frame: frames trimmed off the start of the source — measured in PROJECT frames (the timeline's fps, same units as startFrame/durationFrames; never the source's own fps). To turn a get_transcript project frame P into this clip's source offset, use trimStartFrame + (P − startFrame) × speed; setting trimStartFrame to that value makes the clip begin at P's source content.")));
    props.push((string_of("trimEndFrame"), integer_prop("SOURCE-media offset, NOT a timeline frame: frames trimmed off the end of the source, in PROJECT frames. Maps the same way as trimStartFrame via startFrame/speed.")));
    props.push((string_of("speed"), number_prop("Playback speed multiplier (default 1.0). >1 speeds up, <1 slows down. The clip's timeline length is rescaled to keep the same source content (2x speed → half the frames), unless you also pass durationFrames to set the length explicitly.")));
    props.push((string_of("volume"), number_prop("Volume 0.0-1.0. Clears any existing volume keyframes.")));
    props.push((string_of("opacity"), number_prop("Opacity 0.0-1.0. Clears any existing opacity keyframes.")));
    props.push((string_of("transform"), JsonValue::Object(vec![
        (string_of("type"), JsonValue::string("object")),
        (string_of("description"), JsonValue::string("Partial transform. Any combination of centerX, centerY, width, height, flipHorizontal, flipVertical; omitted fields keep their current value.")),
        (string_of("properties"), JsonValue::Object(vec![
            (string_of("centerX"), JsonValue::Object(vec![
                (string_of("type"), JsonValue::string("number")),
            ])),
            (string_of("centerY"), JsonValue::Object(vec![
                (string_of("type"), JsonValue::string("number")),
            ])),
            (string_of("width"), JsonValue::Object(vec![
                (string_of("type"), JsonValue::string("number")),
            ])),
            (string_of("height"), JsonValue::Object(vec![
                (string_of("type"), JsonValue::string("number")),
            ])),
            (string_of("flipHorizontal"), JsonValue::Object(vec![
                (string_of("type"), JsonValue::string("boolean")),
                (string_of("description"), JsonValue::string("Mirror across the vertical axis.")),
            ])),
            (string_of("flipVertical"), JsonValue::Object(vec![
                (string_of("type"), JsonValue::string("boolean")),
                (string_of("description"), JsonValue::string("Mirror across the horizontal axis.")),
            ])),
        ])),
    ])));
    props.push((string_of("content"), string_prop("Text clips only. New text content.")));
    props.push((string_of("fontName"), string_prop("Text clips only. Font PostScript or family name.")));
    props.push((string_of("fontSize"), number_prop("Text clips only. Font size in canvas points.")));
    props.push((string_of("color"), string_prop("Text clips only. Hex '#RRGGBB' or '#RRGGBBAA'.")));
    props.push((string_of("alignment"), enum_string_prop("Text clips only.", vec![JsonValue::string("left"), JsonValue::string("center"), JsonValue::string("right")])));
    ToolDescriptor {
        name: string_of("set_clip_properties"),
        description: string_of("Apply the same property values to one or more clips in a single undoable action. Pass any combination of durationFrames, trimStartFrame, trimEndFrame, speed, volume, opacity, transform, or — for text clips only — content, fontName, fontSize, color, alignment. All values are applied to every clip in clipIds; for per-clip differences, make separate calls. trimStartFrame/trimEndFrame are offsets from the source media, not the timeline. speed 1.0 is normal, <1.0 slows (clip gets longer on the timeline), >1.0 speeds up. volume and opacity are 0.0–1.0. transform uses 0–1 normalized canvas coords, partial merge (pass only centerY to reposition vertically); flipHorizontal/flipVertical mirror the clip across the corresponding axis (no effect on text clips). When a text clip's content or font changes without an explicit transform, the bounding box auto-refits. Text-only fields with any non-text clip in clipIds are rejected.\n\nFor moves and start-frame changes, use move_clips. For animated values (keyframes), use set_keyframes — setting volume or opacity here clears any existing keyframe track on that property.\n\nTiming changes (durationFrames, trimStartFrame, trimEndFrame, speed) on a linked clip carry over to its linked partner so audio/video stay in sync — same as the timeline UI. Per-clip fields (volume, opacity, transform, text*) don't propagate. trim and speed are skipped for text partners."),
        input_schema: object_schema(Some(props), Some(vec![JsonValue::string("clipIds")])),
    }
}

fn set_keyframes() -> (r: ToolDescriptor)
    ensures
        r.name@ == "set_keyframes"@,
        schema_shape(r.input_schema@),
{
    let mut props: Vec<(String, JsonValue)> = Vec::new();
    props.push((string_of("clipId"), string_prop("The clip ID.")));
    props.push((string_of("property"), enum_string_prop("Which property's keyframe track to set.", vec![JsonValue::string("volume"), JsonValue::string("opacity"), JsonValue::string("rotation"), JsonValue::string("position"), JsonValue::string("scale"), JsonValue::string("crop")])));
    props.push((string_of("keyframes"), JsonValue::Object(vec![
        (string_of("type"), JsonValue::string("array")),
        (string_of("description"), JsonValue::string("Replacement keyframe rows. Empty array clears the track. Row shape depends on property — see tool description.")),
        (string_of("items"), JsonValue::Object(vec![
            (string_of("type"), JsonValue::string("array")),
        ])),
    ])));
    ToolDescriptor {
        name: string_of("set_keyframes"),
        description: string_of("Set animated keyframes on one property of one clip. Replaces the existing keyframe track for that property (pass an empty array to clear). Frames are CLIP-RELATIVE offsets (0 = first frame of the clip), so keyframes follow the clip when it moves. Rows are sorted by frame internally and the LAST row for any duplicate frame wins. Values must be finite numbers. Each row is `[frame, ...values, interp?]` where interp ∈ {linear, hold, smooth} (default smooth).\n\nProperties and their value layouts:\n  • volume `[frame, value]` — value 0.0–1.0\n  • opacity `[frame, value]` — value 0.0–1.0\n  • rotation `[frame, degrees]` — clockwise degrees\n  • position `[frame, topLeftX, topLeftY]` — TOP-LEFT corner in 0–1 normalized canvas coords. NOT the center. (Default static transform centers a full-canvas clip, so top-left of the static is (0, 0); a centered half-size clip has top-left (0.25, 0.25).)\n  • scale `[frame, width, height]` — clip's normalized width and height in 0–1 canvas coords (1.0 = fills the canvas axis). NOT a scale factor.\n  • crop `[frame, top, right, bottom, left]` — side insets in 0–1 of the source media.\n\nMotion keyframes (position/scale/rotation) override the static `transform` value when active."),
        input_schema: object_schema(Some(props), Some(vec![JsonValue::string("clipId"), JsonValue::string("property"), JsonValue::string("keyframes")])),
    }
}

fn split_clip() -> (r: ToolDescriptor)
    ensures
        r.name@ == "split_clip"@,
        schema_shape(r.input_schema@),
{
    let mut props: Vec<(String, JsonValue)> = Vec::new();
    props.push((string_of("clipId"), string_prop("The clip ID to split")));
    props.push((string_of("atFrame"), integer_prop("Frame position to split at (must be between clip start and end)")));
    ToolDescriptor {
        name: string_of("split_clip"),
        description: string_of("Splits a clip into two at atFrame. The frame must be strictly between the clip's start and end — use get_timeline to confirm the range."),
        input_schema: object_schema(Some(props), Some(vec![JsonValue::string("clipId"), JsonValue::string("atFrame")])),
    }
}

fn ripple_delete_ranges() -> (r: ToolDescriptor)
    ensures
        r.name@ == "ripple_delete_ranges"@,
        schema_shape(r.input_schema@),
{
    let mut props: Vec<(String, JsonValue)> = Vec::new();
    props.push((string_of("trackIndex"), integer_prop("Cut project-frame ranges spanning every clip they cross on this track, in one call. From get_transcript's clips array. Mutually exclusive with clipId; requires units 'frames'.")));
    props.push((string_of("clipId"), string_prop("Cut ranges within this single clip only, clamped to its visible span. Mutually exclusive with trackIndex.")));
    props.push((string_of("ranges"), JsonValue::Object(vec![
        (string_of("type"), JsonValue::string("array")),
        (string_of("description"), JsonValue::string("Ranges to remove, each a [start, end] pair (end > start). In the unit given by 'units'.")),
        (string_of("items"), JsonValue::Object(vec![
            (string_of("type"), JsonValue::string("array")),
            (string_of("items"), JsonValue::Object(vec![
                (string_of("type"), JsonValue::string("number")),
            ])),
            (string_of("minItems"), JsonValue::Number(JsonNumber::PosInt(2))),
            (string_of("maxItems"), JsonValue::Number(JsonNumber::PosInt(2))),
        ])),
    ])));
    props.push((string_of("units"), enum_string_prop("Interpretation of range values. 'frames' (default) = project/timeline frames, matching get_transcript and inspect_media-with-clipId. 'seconds' = source-media seconds (clipId mode only).", vec![JsonValue::string("seconds"), JsonValue::string("frames")])));
    ToolDescriptor {
        name: string_of("ripple_delete_ranges"),
        description: string_of("Cuts one or more ranges out and closes the gaps in one undoable action — the fast path for filler-word/dead-air removal. Replaces hand-cranked split_clip → split_clip → remove_clips → move_clips loops: pass every range at once.\n\nTwo modes — pass exactly one of clipId or trackIndex:\n• trackIndex (preferred for transcript-driven cuts): ranges are PROJECT frames and may span any number of clips on that track. get_transcript returns a clips array with nested words in project frames — collect every cut across the whole timeline and pass them in ONE call, no per-clip splitting and no re-reading the timeline between cuts. units must be 'frames'.\n• clipId: ranges are cut within that single clip only, clamped to its visible span. Allows units 'seconds' (source-media seconds, e.g. inspect_media WITHOUT a clipId or search_media hits); 'frames' = project frames. Use when you already have one clip's per-word timestamps.\n\nOverlapping ranges merge. Linked audio/video partners of every touched clip are cut on the same span so A/V stays in sync. Remaining clips shift left to close every gap; sync-locked tracks shift along to preserve alignment (their content isn't cut). Refuses without changing anything if a sync-locked track can't absorb the shift (e.g. it would move past frame 0). Returns the anchor track's post-cut layout (clip ids/frames) so you don't need to re-read."),
        input_schema: object_schema(Some(props), Some(vec![JsonValue::string("ranges")])),
    }
}

fn undo() -> (r: ToolDescriptor)
    ensures
        r.name@ == "undo"@,
        schema_shape(r.input_schema@),
{
    ToolDescriptor {
        name: string_of("undo"),
        description: string_of("Reverts the assistant's most recent timeline edit (a cut, move, trim, split, or clip/text/caption add) as one step. The recovery path when an edit went too far — e.g. a ripple_delete_ranges removed more than intended. Verify a cut first (get_transcript reflects the post-cut audio), then undo if it overshot, then retry with corrected ranges.\n\nUndoes only edits the assistant made this session, most-recent-first — it never touches the user's own manual edits, and refuses if the latest change wasn't the assistant's. After undoing, the timeline is restored to its state before that edit; the ids/frames the edit returned are no longer valid, so re-read with get_timeline or get_transcript if you'll edit again. Takes no arguments."),
        input_schema: object_schema(None, None),
    }
}

fn add_texts() -> (r: ToolDescriptor)
    ensures
        r.name@ == "add_texts"@,
        schema_shape(r.input_schema@),
{
    let mut props: Vec<(String, JsonValue)> = Vec::new();
    props.push((string_of("entries"), JsonValue::Object(vec![
        (string_of("type"), JsonValue::string("array")),
        (string_of("description"), JsonValue::string("Text clips to add. Each entry is independent.")),
        (string_of("items"), JsonValue::Object(vec![
            (string_of("type"), JsonValue::string("object")),
            (string_of("properties"), JsonValue::Object(vec![
            (string_of("trackIndex"), JsonValue::Object(vec![
                (string_of("type"), JsonValue::string("integer")),
                (string_of("description"), JsonValue::string("Optional. Track index (0-based) for an existing non-audio track. Omit on every entry to auto-create one new track for the batch.")),
            ])),
            (string_of("startFrame"), JsonValue::Object(vec![
                (string_of("type"), JsonValue::string("integer")),
                (string_of("description"), JsonValue::string("Frame position to place the clip")),
            ])),
            (string_of("durationFrames"), JsonValue::Object(vec![
                (string_of("type"), JsonValue::string("integer")),
                (string_of("description"), JsonValue::string("Duration in frames (>= 1)")),
            ])),
            (string_of("content"), JsonValue::Object(vec![
                (string_of("type"), JsonValue::string("string")),
                (string_of("description"), JsonValue::string("Text to display. Supports \\n for line breaks.")),
            ])),
            (string_of("transform"), JsonValue::Object(vec![
                (string_of("type"), JsonValue::string("object")),
                (string_of("description"), JsonValue::string("Optional position/size. Omit for center + auto-fit. Pass centerX+centerY only for a specific position with auto-fit size. Pass all four for full override.")),
                (string_of("properties"), JsonValue::Object(vec![
            (string_of("centerX"), JsonValue::Object(vec![
                (string_of("type"), JsonValue::string("number")),
                (string_of("description"), JsonValue::string("Horizontal center 0–1 (0=left edge, 1=right edge)")),
            ])),
            (string_of("centerY"), JsonValue::Object(vec![
                (string_of("type"), JsonValue::string("number")),
                (string_of("description"), JsonValue::string("Vertical center 0–1 (0=top, 1=bottom)")),
            ])),
            (string_of("width"), JsonValue::Object(vec![
                (string_of("type"), JsonValue::string("number")),
                (string_of("description"), JsonValue::string("Width 0–1 (optional; omit for auto-fit)")),
            ])),
            (string_of("height"), JsonValue::Object(vec![
                (string_of("type"), JsonValue::string("number")),
                (string_of("description"), JsonValue::string("Height 0–1 (optional; omit for auto-fit)")),
            ])),
        ])),
            ])),
            (string_of("fontName"), JsonValue::Object(vec![
                (string_of("type"), JsonValue::string("string")),
                (string_of("description"), JsonValue::string("Font PostScript or family name, e.g. 'Helvetica-Bold', 'Georgia-Bold'. Default 'Helvetica-Bold'. Falls back to bold system font if not found.")),
            ])),
            (string_of("fontSize"), JsonValue::Object(vec![
                (string_of("type"), JsonValue::string("number")),
                (string_of("description"), JsonValue::string("Font size in canvas points (default 96). On a 1080p canvas ~50 is a caption, ~120 is a title.")),
            ])),
            (string_of("color"), JsonValue::Object(vec![
                (string_of("type"), JsonValue::string("string")),
                (string_of("description"), JsonValue::string("Hex '#RRGGBB' or '#RRGGBBAA' (default '#FFFFFF')")),
            ])),
            (string_of("alignment"), JsonValue::Object(vec![
                (string_of("type"), JsonValue::string("string")),
                (string_of("enum"), JsonValue::Array(vec![JsonValue::string("left"), JsonValue::string("center"), JsonValue::string("right")])),
                (string_of("description"), JsonValue::string("Text alignment (default 'center')")),
            ])),
        ])),
            (string_of("required"), JsonValue::Array(vec![JsonValue::string("startFrame"), JsonValue::string("durationFrames"), JsonValue::string("content")])),
        ])),
    ])));
    ToolDescriptor {
        name: string_of("add_texts"),
        description: string_of("Adds one or more text clips (titles, captions, lower-thirds) in a single undoable action. Text renders as an overlay on top of visual media. Transform uses 0–1 normalized canvas coords: (0.5,0.5) is center, (0.5,0.1) top-center, (0.5,0.9) bottom-center. Omit transform to center + auto-fit. Pass only centerX/centerY to reposition with auto-fit size (common for lower-thirds). Pass all four fields to override the box entirely. Colors are hex '#RRGGBB' or '#RRGGBBAA'.\n\ntrackIndex is optional. Omit it on all entries and the tool auto-creates one new video track at the top and places all text clips there — the common case for captions. To target existing tracks, set trackIndex on every entry (audio tracks rejected). Mixing (some entries specify, others omit) is rejected — split into two calls.\n\nTracks work as layers: clips on the SAME track are sequential — if a new clip's range overlaps an existing (or earlier-batch) clip on that track, the existing clip is trimmed/split/removed to make room, matching the UI's drag-onto-track overwrite behavior. To show multiple text clips at the same time (stacked titles, simultaneous labels), put each on a DIFFERENT trackIndex so they layer instead of trimming each other.\n\nFor captioning spoken audio, prefer add_captions — it transcribes and places styled caption clips in one call. Use add_texts only for bespoke text (titles, lower-thirds) or captioning a custom range by hand. Unknown fields are rejected."),
        input_schema: object_schema(Some(props), Some(vec![JsonValue::string("entries")])),
    }
}

fn add_captions() -> (r: ToolDescriptor)
    ensures
        r.name@ == "add_captions"@,
        schema_shape(r.input_schema@),
{
    let mut props: Vec<(String, JsonValue)> = Vec::new();
    props.push((string_of("clipIds"), JsonValue::Object(vec![
        (string_of("type"), JsonValue::string("array")),
        (string_of("items"), JsonValue::Object(vec![
            (string_of("type"), JsonValue::string("string")),
        ])),
        (string_of("description"), JsonValue::string("Optional. Audio/video clips to caption. Omit to auto-detect the primary spoken track.")),
    ])));
    props.push((string_of("language"), string_prop("Optional BCP-47 language of the speech (e.g. 'es', 'ja', 'en-GB'). Defaults to the system language — set this when the footage is in another language, or transcription will be garbage.")));
    props.push((string_of("fontName"), string_prop("Optional font PostScript or family name (default 'Helvetica-Bold'). Falls back to bold system font if not found.")));
    props.push((string_of("fontSize"), number_prop("Optional font size in canvas points (default 48).")));
    props.push((string_of("color"), string_prop("Optional hex '#RRGGBB' or '#RRGGBBAA' (default white).")));
    props.push((string_of("centerX"), number_prop("Optional horizontal center 0–1 (default 0.5).")));
    props.push((string_of("centerY"), number_prop("Optional vertical center 0–1 (default 0.9, near the bottom).")));
    props.push((string_of("textCase"), enum_string_prop("Optional letter case (default auto).", vec![JsonValue::string("auto"), JsonValue::string("upper"), JsonValue::string("lower")])));
    props.push((string_of("censorProfanity"), bool_prop("Optional. Mask profanity (default false).")));
    ToolDescriptor {
        name: string_of("add_captions"),
        description: string_of("Auto-caption spoken audio: transcribes on-device and places styled caption clips on a new track — the same pipeline as the editor's Captions tab. This is the reliable path for 'caption this'; prefer it over hand-placing add_texts from a transcript. Omit clipIds to auto-pick the track with the most speech; pass clipIds to caption specific clips (e.g. only the interview)."),
        input_schema: object_schema(Some(props), None),
    }
}

fn generate_video() -> (r: ToolDescriptor)
    ensures
        r.name@ == "generate_video"@,
        schema_shape(r.input_schema@),
{
    let mut props: Vec<(String, JsonValue)> = Vec::new();
    props.push((string_of("prompt"), string_prop("Text description of the video to generate")));
    props.push((string_of("name"), string_prop("Display name for the asset in the media library. Defaults to first 30 chars of prompt.")));
    props.push((string_of("model"), string_prop("Model ID (e.g. 'veo3.1-fast'). Use list_models to see options. Defaults to first available model.")));
    props.push((string_of("duration"), integer_prop("Duration in seconds. Valid values depend on model.")));
    props.push((string_of("aspectRatio"), string_prop("Aspect ratio (e.g. '16:9', '9:16', '1:1')")));
    props.push((string_of("resolution"), string_prop("Resolution (e.g. '720p', '1080p', '4k')")));
    props.push((string_of("startFrameMediaRef"), string_prop("Media asset ID to use as the first frame (image-to-video)")));
    props.push((string_of("endFrameMediaRef"), string_prop("Media asset ID to use as the last frame (supported by some models)")));
    props.push((string_of("sourceVideoMediaRef"), string_prop("Media asset ID of a source video (required by video-to-video edit models; ignores duration/aspectRatio/resolution)")));
    props.push((string_of("sourceClipId"), string_prop("Optional. Clip id (from get_timeline) referencing sourceVideoMediaRef. When set and the clip is trimmed, only the clip's visible range is sent to the model, not the full source — matches the UI's 'Use trimmed portion only'.")));
    props.push((string_of("referenceImageMediaRefs"), JsonValue::Object(vec![
        (string_of("type"), JsonValue::string("array")),
        (string_of("items"), JsonValue::Object(vec![
            (string_of("type"), JsonValue::string("string")),
        ])),
        (string_of("description"), JsonValue::string("Media asset IDs of image references. Covers both reference-to-video generation (Seedance, Kling V3/O3 elements, Grok — refer as @Image1/@Element1 in prompt) and the single-image ref used by video-to-video edit models (Kling V3 Motion Control). See list_models maxReferenceImages for per-model cap.")),
    ])));
    props.push((string_of("referenceVideoMediaRefs"), JsonValue::Object(vec![
        (string_of("type"), JsonValue::string("array")),
        (string_of("items"), JsonValue::Object(vec![
            (string_of("type"), JsonValue::string("string")),
        ])),
        (string_of("description"), JsonValue::string("Media asset IDs of video references (Seedance only). Refer to them as @Video1, @Video2. See maxReferenceVideos and maxCombinedVideoRefSeconds.")),
    ])));
    props.push((string_of("referenceAudioMediaRefs"), JsonValue::Object(vec![
        (string_of("type"), JsonValue::string("array")),
        (string_of("items"), JsonValue::Object(vec![
            (string_of("type"), JsonValue::string("string")),
        ])),
        (string_of("description"), JsonValue::string("Media asset IDs of audio references (Seedance only). Refer to them as @Audio1, @Audio2. See maxReferenceAudios and maxCombinedAudioRefSeconds.")),
    ])));
    props.push((string_of("folderId"), string_prop("Optional. Folder id (from list_folders or create_folder) to place the result in. Omit for the project root.")));
    ToolDescriptor {
        name: string_of("generate_video"),
        description: string_of("Starts an async AI video generation. Returns a placeholder asset ID immediately; generation runs in the background and the asset becomes usable in add_clips once ready. Costs real money and is not undoable."),
        input_schema: object_schema(Some(props), Some(vec![JsonValue::string("prompt")])),
    }
}

fn generate_image() -> (r: ToolDescriptor)
    ensures
        r.name@ == "generate_image"@,
        schema_shape(r.input_schema@),
{
    let mut props: Vec<(String, JsonValue)> = Vec::new();
    props.push((string_of("prompt"), string_prop("Text description of the image to generate")));
    props.push((string_of("name"), string_prop("Display name for the asset in the media library. Defaults to first 30 chars of prompt.")));
    props.push((string_of("model"), string_prop("Model ID (e.g. 'nano-banana-pro'). Use list_models to see options. Defaults to first available model.")));
    props.push((string_of("aspectRatio"), string_prop("Aspect ratio (e.g. '16:9', '9:16')")));
    props.push((string_of("resolution"), string_prop("Resolution (e.g. '2K', '4K')")));
    props.push((string_of("quality"), string_prop("Image quality (e.g. 'low', 'medium', 'high'). Only supported by some models — see list_models.")));
    props.push((string_of("referenceMediaRefs"), JsonValue::Object(vec![
        (string_of("type"), JsonValue::string("array")),
        (string_of("items"), JsonValue::Object(vec![
            (string_of("type"), JsonValue::string("string")),
        ])),
        (string_of("description"), JsonValue::string("Media asset IDs to use as reference images")),
    ])));
    props.push((string_of("folderId"), string_prop("Optional. Folder id (from list_folders or create_folder) to place the result in. Omit for the project root.")));
    ToolDescriptor {
        name: string_of("generate_image"),
        description: string_of("Starts an async AI image generation. Returns a placeholder asset ID immediately; generation runs in the background. Costs real money and is not undoable."),
        input_schema: object_schema(Some(props), Some(vec![JsonValue::string("prompt")])),
    }
}

fn generate_audio() -> (r: ToolDescriptor)
    ensures
        r.name@ == "generate_audio"@,
        schema_shape(r.input_schema@),
{
    let mut props: Vec<(String, JsonValue)> = Vec::new();
    props.push((string_of("prompt"), string_prop("Required for TTS (the text to speak) and text-to-music (style/mood/genre; MiniMax needs ≥10 chars). For Lyria 3 Pro, include lyrics, tempo, language, and vocal style directly in the prompt. Optional style guide for video-to-music models.")));
    props.push((string_of("name"), string_prop("Display name for the asset in the media library. Defaults to first 30 chars of prompt.")));
    props.push((string_of("model"), string_prop("Model ID. Use list_models with type='audio' to see options and their 'inputs'. Defaults to the first model.")));
    props.push((string_of("voice"), string_prop("TTS only. Voice preset name. list_models shows voicesSample (first 3) + voiceCount; any voice supported by the model is accepted. Defaults to the model's defaultVoice. Ignored by music models.")));
    props.push((string_of("lyrics"), string_prop("MiniMax Music only. Lyrics with optional [Verse]/[Chorus] section tags. If omitted and instrumental=false, MiniMax auto-writes lyrics from the prompt.")));
    props.push((string_of("styleInstructions"), string_prop("Gemini TTS only. Optional delivery instructions (e.g. 'warm and slow', 'British accent').")));
    props.push((string_of("instrumental"), bool_prop("Music models only. true = no vocals when the selected model supports it. Defaults to false.")));
    props.push((string_of("duration"), integer_prop("Length in seconds. ElevenLabs Music: 3–600. Sonilo text-to-music: up to 600. For a video source, defaults to the span/clip length. Ignored by TTS, MiniMax, and Lyria 3 Pro.")));
    props.push((string_of("videoSourceStartFrame"), integer_prop("Video-to-audio models only. Start frame (timeline) of a span to render and score — pair with videoSourceEndFrame. Use get_timeline for frame numbers; for the whole timeline use 0 to the timeline's end frame.")));
    props.push((string_of("videoSourceEndFrame"), integer_prop("Video-to-audio models only. End frame (exclusive) of the span to score. Must be > videoSourceStartFrame.")));
    props.push((string_of("videoSourceMediaRef"), string_prop("Video-to-audio models only. Score this existing video asset instead of a timeline span. Mutually exclusive with the videoSource frames.")));
    props.push((string_of("folderId"), string_prop("Optional. Folder id (from list_folders or create_folder) to place the result in. Omit for the project root.")));
    ToolDescriptor {
        name: string_of("generate_audio"),
        description: string_of("Starts an async AI audio generation: text-to-speech, text-to-music, or video-to-music (scoring a video). Returns a placeholder asset ID immediately; the asset appears in get_media and becomes usable in add_clips once ready. TTS models (elevenlabs-tts-v3, gemini-3.1-flash-tts) convert the prompt into speech and accept a 'voice'. Music models (lyria3-pro, minimax-music-v2.6, elevenlabs-music, sonilo-v1.1-video-to-music) generate tracks from a prompt; include lyrics/tempo/vocal style in the prompt for Lyria 3 Pro, pass 'lyrics' for MiniMax vocals, or set 'instrumental' true when the selected model supports it. Video-to-audio models (inputs include 'video' — see list_models, e.g. sonilo-v1.1-video-to-music, mirelo-sfx-v1.5-video-to-audio) generate audio that matches a VIDEO: provide a timeline span via videoSourceStartFrame+videoSourceEndFrame (e.g. to score the timeline), or a video asset via videoSourceMediaRef; the prompt is then an optional style guide. PLACEMENT: when you pass a timeline span, the result is placed on the timeline automatically at that span (no add_clips needed); for a media-asset source or a plain text-to-speech/music result, the asset lands in the library and you place it with add_clips. Use list_models with type='audio' to see each model's 'inputs', category, and voices. Costs real money and is not undoable."),
        input_schema: object_schema(Some(props), None),
    }
}

fn upscale_media() -> (r: ToolDescriptor)
    ensures
        r.name@ == "upscale_media"@,
        schema_shape(r.input_schema@),
{
    let mut props: Vec<(String, JsonValue)> = Vec::new();
    props.push((string_of("mediaRef"), string_prop("ID of the video or image asset to upscale")));
    props.push((string_of("model"), string_prop("Upscaler model ID (e.g. 'bytedance-upscaler', 'seedvr-image-upscaler'). Defaults to the first model that supports the asset's type.")));
    props.push((string_of("sourceClipId"), string_prop("Optional. Video clip id (from get_timeline) referencing mediaRef. When set and the clip is trimmed, only the clip's visible range is upscaled, not the full source.")));
    ToolDescriptor {
        name: string_of("upscale_media"),
        description: string_of("Upscales an existing video or image asset to higher resolution using an AI upscaler. Returns a placeholder asset ID immediately; the upscaled asset appears in get_media once ready. Use list_models with type='upscale' to pick a model that supports the asset's type. Costs real money and is not undoable."),
        input_schema: object_schema(Some(props), Some(vec![JsonValue::string("mediaRef")])),
    }
}

fn import_media() -> (r: ToolDescriptor)
    ensures
        r.name@ == "import_media"@,
        schema_shape(r.input_schema@),
{
    let mut props: Vec<(String, JsonValue)> = Vec::new();
    props.push((string_of("source"), JsonValue::Object(vec![
        (string_of("type"), JsonValue::string("object")),
        (string_of("description"), JsonValue::string("Exactly one of url, path, or bytes must be set. mimeType is required when bytes is set; for url it acts as a type-inference override.")),
        (string_of("properties"), JsonValue::Object(vec![
            (string_of("url"), JsonValue::Object(vec![
                (string_of("type"), JsonValue::string("string")),
                (string_of("description"), JsonValue::string("HTTPS URL. Pre-signed URLs are fine but must not expire mid-download.")),
            ])),
            (string_of("path"), JsonValue::Object(vec![
                (string_of("type"), JsonValue::string("string")),
                (string_of("description"), JsonValue::string("Absolute local file or directory path, readable by the Palmier process. A directory is imported recursively — every openable file is pulled in and the folder structure is replicated as media folders.")),
            ])),
            (string_of("bytes"), JsonValue::Object(vec![
                (string_of("type"), JsonValue::string("string")),
                (string_of("description"), JsonValue::string("Base64-encoded media data. Prefer url or path for anything over ~10MB.")),
            ])),
            (string_of("mimeType"), JsonValue::Object(vec![
                (string_of("type"), JsonValue::string("string")),
                (string_of("description"), JsonValue::string("Required when bytes is set. Optional override for url when its path has no usable extension (e.g. signed URLs). Accepted: video/mp4, video/quicktime, audio/mpeg, audio/wav, audio/aac, audio/mp4, image/png, image/jpeg, image/tiff, image/heic.")),
            ])),
        ])),
    ])));
    props.push((string_of("name"), string_prop("Display name in the library. Defaults to the filename derived from url/path, or 'Imported asset' for bytes.")));
    props.push((string_of("folderId"), string_prop("Optional. Folder id (from list_folders or create_folder) to place the result in. Omit for the project root.")));
    ToolDescriptor {
        name: string_of("import_media"),
        description: string_of("Imports external media into the project's library — the bridge for assets coming from other MCP servers (stock libraries, music services, web search) or local files the user already has. The 'source' object must set exactly one of: url (HTTPS only — downloaded in the background, the dominant case; max 1 GB), path (absolute local file path — referenced in place; may also be a directory, which is imported recursively, mirroring its subfolder structure as media folders), or bytes (base64-encoded inline data — max ~15 MB of base64 ≈ 11 MB binary; use url/path for anything larger). For url, type is inferred from the URL path's file extension unless source.mimeType is set as an override (needed for signed URLs whose path has no usable extension). For bytes, source.mimeType is required.\n\nSupported types and extensions: video (mov, mp4, m4v), audio (mp3, wav, aac, m4a), image (png, jpg, jpeg, tiff, heic). Anything else is rejected — the caller must transcode externally.\n\nReturns a placeholder asset id immediately; URL imports run in the background and the asset becomes usable in add_clips once ready (same async pattern as generate_*). Path and bytes imports finalize synchronously. Costs nothing."),
        input_schema: object_schema(Some(props), Some(vec![JsonValue::string("source")])),
    }
}

fn list_folders() -> (r: ToolDescriptor)
    ensures
        r.name@ == "list_folders"@,
        schema_shape(r.input_schema@),
{
    ToolDescriptor {
        name: string_of("list_folders"),
        description: string_of("Lists every folder in the media panel as {id, name, parentFolderId}. Folders are nested (parentFolderId is nil for top-level). Use to find an existing folder by name before generating new media."),
        input_schema: object_schema(None, None),
    }
}

fn create_folder() -> (r: ToolDescriptor)
    ensures
        r.name@ == "create_folder"@,
        schema_shape(r.input_schema@),
{
    let mut props: Vec<(String, JsonValue)> = Vec::new();
    props.push((string_of("name"), string_prop("Folder name.")));
    props.push((string_of("parentFolderId"), string_prop("Optional parent folder id; omit for top level.")));
    props.push((string_of("entries"), JsonValue::Object(vec![
        (string_of("type"), JsonValue::string("array")),
        (string_of("description"), JsonValue::string("Folders to create in one undoable action.")),
        (string_of("items"), JsonValue::Object(vec![
            (string_of("type"), JsonValue::string("object")),
            (string_of("properties"), JsonValue::Object(vec![
            (string_of("name"), JsonValue::Object(vec![
                (string_of("type"), JsonValue::string("string")),
                (string_of("description"), JsonValue::string("Folder name.")),
            ])),
            (string_of("parentFolderId"), JsonValue::Object(vec![
                (string_of("type"), JsonValue::string("string")),
                (string_of("description"), JsonValue::string("Optional parent folder id; omit for top level.")),
            ])),
        ])),
            (string_of("required"), JsonValue::Array(vec![JsonValue::string("name")])),
        ])),
    ])));
    ToolDescriptor {
        name: string_of("create_folder"),
        description: string_of("Creates folders in the media panel. Pass either name/parentFolderId for one folder or entries for multiple folders, not both. Direct form returns one folder; entries returns { folders }. Undoable. Use to organize related generations (e.g. 'Hero shot variations'). Don't create folders for unrelated concepts."),
        input_schema: object_schema(Some(props), None),
    }
}

fn move_to_folder() -> (r: ToolDescriptor)
    ensures
        r.name@ == "move_to_folder"@,
        schema_shape(r.input_schema@),
{
    let mut props: Vec<(String, JsonValue)> = Vec::new();
    props.push((string_of("assetIds"), JsonValue::Object(vec![
        (string_of("type"), JsonValue::string("array")),
        (string_of("items"), JsonValue::Object(vec![
            (string_of("type"), JsonValue::string("string")),
        ])),
        (string_of("description"), JsonValue::string("Media asset ids to move.")),
    ])));
    props.push((string_of("folderId"), string_prop("Destination folder id. Omit to move to the project root.")));
    props.push((string_of("entries"), JsonValue::Object(vec![
        (string_of("type"), JsonValue::string("array")),
        (string_of("description"), JsonValue::string("Move operations to apply in one undoable action. Each entry can target a different folder.")),
        (string_of("items"), JsonValue::Object(vec![
            (string_of("type"), JsonValue::string("object")),
            (string_of("properties"), JsonValue::Object(vec![
            (string_of("assetIds"), JsonValue::Object(vec![
                (string_of("type"), JsonValue::string("array")),
                (string_of("items"), JsonValue::Object(vec![
                    (string_of("type"), JsonValue::string("string")),
                ])),
                (string_of("description"), JsonValue::string("Media asset ids to move.")),
            ])),
            (string_of("folderId"), JsonValue::Object(vec![
                (string_of("type"), JsonValue::string("string")),
                (string_of("description"), JsonValue::string("Destination folder id. Omit to move to the project root.")),
            ])),
        ])),
            (string_of("required"), JsonValue::Array(vec![JsonValue::string("assetIds")])),
        ])),
    ])));
    ToolDescriptor {
        name: string_of("move_to_folder"),
        description: string_of("Moves media assets to folders. Pass either assetIds/folderId for one destination or entries for multiple destinations, not both. Omit folderId to move to root. Undoable."),
        input_schema: object_schema(Some(props), None),
    }
}

fn rename_media() -> (r: ToolDescriptor)
    ensures
        r.name@ == "rename_media"@,
        schema_shape(r.input_schema@),
{
    let mut props: Vec<(String, JsonValue)> = Vec::new();
    props.push((string_of("mediaRef"), string_prop("Media asset id from get_media.")));
    props.push((string_of("name"), string_prop("New display name.")));
    props.push((string_of("entries"), JsonValue::Object(vec![
        (string_of("type"), JsonValue::string("array")),
        (string_of("description"), JsonValue::string("Media assets to rename in one undoable action.")),
        (string_of("items"), JsonValue::Object(vec![
            (string_of("type"), JsonValue::string("object")),
            (string_of("properties"), JsonValue::Object(vec![
            (string_of("mediaRef"), JsonValue::Object(vec![
                (string_of("type"), JsonValue::string("string")),
                (string_of("description"), JsonValue::string("Media asset id from get_media.")),
            ])),
            (string_of("name"), JsonValue::Object(vec![
                (string_of("type"), JsonValue::string("string")),
                (string_of("description"), JsonValue::string("New display name.")),
            ])),
        ])),
            (string_of("required"), JsonValue::Array(vec![JsonValue::string("mediaRef"), JsonValue::string("name")])),
        ])),
    ])));
    ToolDescriptor {
        name: string_of("rename_media"),
        description: string_of("Renames media assets in the library. Pass either mediaRef/name for one asset or entries for multiple assets, not both. Undoable."),
        input_schema: object_schema(Some(props), None),
    }
}

fn rename_folder() -> (r: ToolDescriptor)
    ensures
        r.name@ == "rename_folder"@,
        schema_shape(r.input_schema@),
{
    let mut props: Vec<(String, JsonValue)> = Vec::new();
    props.push((string_of("folderId"), string_prop("Folder id from list_folders.")));
    props.push((string_of("name"), string_prop("New folder name.")));
    props.push((string_of("entries"), JsonValue::Object(vec![
        (string_of("type"), JsonValue::string("array")),
        (string_of("description"), JsonValue::string("Folders to rename in one undoable action.")),
        (string_of("items"), JsonValue::Object(vec![
            (string_of("type"), JsonValue::string("object")),
            (string_of("properties"), JsonValue::Object(vec![
            (string_of("folderId"), JsonValue::Object(vec![
                (string_of("type"), JsonValue::string("string")),
                (string_of("description"), JsonValue::string("Folder id from list_folders.")),
            ])),
            (string_of("name"), JsonValue::Object(vec![
                (string_of("type"), JsonValue::string("string")),
                (string_of("description"), JsonValue::string("New folder name.")),
            ])),
        ])),
            (string_of("required"), JsonValue::Array(vec![JsonValue::string("folderId"), JsonValue::string("name")])),
        ])),
    ])));
    ToolDescriptor {
        name: string_of("rename_folder"),
        description: string_of("Renames folders in the media panel. Pass either folderId/name for one folder or entries for multiple folders, not both. Undoable."),
        input_schema: object_schema(Some(props), None),
    }
}

fn delete_media() -> (r: ToolDescriptor)
    ensures
        r.name@ == "delete_media"@,
        schema_shape(r.input_schema@),
{
    let mut props: Vec<(String, JsonValue)> = Vec::new();
    props.push((string_of("assetIds"), JsonValue::Object(vec![
        (string_of("type"), JsonValue::string("array")),
        (string_of("items"), JsonValue::Object(vec![
            (string_of("type"), JsonValue::string("string")),
        ])),
        (string_of("description"), JsonValue::string("Media asset ids to delete.")),
    ])));
    ToolDescriptor {
        name: string_of("delete_media"),
        description: string_of("Deletes media assets from the library. Any clips referencing them are removed from the timeline in the same undoable action."),
        input_schema: object_schema(Some(props), Some(vec![JsonValue::string("assetIds")])),
    }
}

fn delete_folder() -> (r: ToolDescriptor)
    ensures
        r.name@ == "delete_folder"@,
        schema_shape(r.input_schema@),
{
    let mut props: Vec<(String, JsonValue)> = Vec::new();
    props.push((string_of("folderIds"), JsonValue::Object(vec![
        (string_of("type"), JsonValue::string("array")),
        (string_of("items"), JsonValue::Object(vec![
            (string_of("type"), JsonValue::string("string")),
        ])),
        (string_of("description"), JsonValue::string("Folder ids to delete.")),
    ])));
    ToolDescriptor {
        name: string_of("delete_folder"),
        description: string_of("Deletes folders and everything inside them (subfolders and assets). Clips referencing any deleted asset are removed from the timeline in the same undoable action."),
        input_schema: object_schema(Some(props), Some(vec![JsonValue::string("folderIds")])),
    }
}

fn list_models() -> (r: ToolDescriptor)
    ensures
        r.name@ == "list_models"@,
        schema_shape(r.input_schema@),
{
    let mut props: Vec<(String, JsonValue)> = Vec::new();
    props.push((string_of("type"), enum_string_prop("Filter by type. Omit to list all models.", vec![JsonValue::string("video"), JsonValue::string("image"), JsonValue::string("audio"), JsonValue::string("upscale")])));
    ToolDescriptor {
        name: string_of("list_models"),
        description: string_of("Lists AI models with their capabilities (durations, aspect ratios, resolutions, first/last frame support, reference support, voices/category for audio, upscaler speed). Always call before generate_video, generate_image, generate_audio, or upscale_media so the model you pick actually supports the constraints you need. Returns { models, loaded } — if loaded=false the catalog hasn't synced yet (e.g. user not signed in); the models array may be empty even when models exist, so do not conclude no models are available. Retry after the user signs in."),
        input_schema: object_schema(Some(props), None),
    }
}

/// Whether the first `k` listed tools are in place with their schemas.
pub open spec fn listed_up_to(v: Seq<ToolDescriptor>, k: int) -> bool {
    &&& v.len() == k
    &&& forall|i: int| 0 <= i < k ==> (#[trigger] v[i]).name@ == listed_tool_names()[i] && schema_shape(v[i].input_schema@)
}

/// Every tool the server offers, in listing order.
#[verifier::rlimit(50)]
pub fn all_tools() -> (r: Vec<ToolDescriptor>)
    ensures
        r@.len() == 31,
        forall|i: int| 0 <= i < 31 ==> (#[trigger] r@[i]).name@ == listed_tool_names()[i] && schema_shape(r@[i].input_schema@),
{
    let mut v: Vec<ToolDescriptor> = Vec::new();
    v.push(get_timeline());
    assert(listed_up_to(v@, 1));
    v.push(get_media());
    assert(listed_up_to(v@, 2));
    v.push(inspect_media());
    assert(listed_up_to(v@, 3));
    v.push(get_transcript());
    assert(listed_up_to(v@, 4));
    v.push(inspect_timeline());
    assert(listed_up_to(v@, 5));
    v.push(search_media());
    assert(listed_up_to(v@, 6));
    v.push(add_clips());
    assert(listed_up_to(v@, 7));
    v.push(insert_clips());
    assert(listed_up_to(v@, 8));
    v.push(remove_clips());
    assert(listed_up_to(v@, 9));
    v.push(remove_tracks());
    assert(listed_up_to(v@, 10));
    v.push(move_clips());
    assert(listed_up_to(v@, 11));
    v.push(set_clip_properties());
    assert(listed_up_to(v@, 12));
    v.push(set_keyframes());
    assert(listed_up_to(v@, 13));
    v.push(split_clip());
    assert(listed_up_to(v@, 14));
    v.push(ripple_delete_ranges());
    assert(listed_up_to(v@, 15));
    v.push(undo());
    assert(listed_up_to(v@, 16));
    v.push(add_texts());
    assert(listed_up_to(v@, 17));
    v.push(add_captions());
    assert(listed_up_to(v@, 18));
    v.push(generate_video());
    assert(listed_up_to(v@, 19));
    v.push(generate_image());
    assert(listed_up_to(v@, 20));
    v.push(generate_audio());
    assert(listed_up_to(v@, 21));
    v.push(upscale_media());
    assert(listed_up_to(v@, 22));
    v.push(import_media());
    assert(listed_up_to(v@, 23));
    v.push(list_folders());
    assert(listed_up_to(v@, 24));
    v.push(create_folder());
    assert(listed_up_to(v@, 25));
    v.push(move_to_folder());
    assert(listed_up_to(v@, 26));
    v.push(rename_media());
    assert(listed_up_to(v@, 27));
    v.push(rename_folder());
    assert(listed_up_to(v@, 28));
    v.push(delete_media());
    assert(listed_up_to(v@, 29));
    v.push(delete_folder());
    assert(listed_up_to(v@, 30));
    v.push(list_models());
    assert(listed_up_to(v@, 31));
    v
}

/// The `tools/list` answer: every tool, in listing order.
pub fn list_tools() -> (r: ListToolsResult)
    ensures
        r.tools@.len() == 31,
        forall|i: int| 0 <= i < 31 ==> (#[trigger] r.tools@[i]).name@ == listed_tool_names()[i] && schema_shape(
            r.tools@[i].input_schema@,
        ),
{
    ListToolsResult { tools: all_tools() }
}

} // verus!
