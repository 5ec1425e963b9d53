//! Routing a `tools/call` by tool name.

use vstd::prelude::*;
use crate::clip_type::ClipType;
use crate::json::{Json, JsonValue};
use crate::model::{EditorState, EditorView, minted_id, timeline_fits};
use crate::export::timeline_doc;
use crate::text::{push_str, str_eq, string_of};
use crate::tools::args::{ToolOutcome, err, missing_string, spec_arg_array, spec_arg_str, spec_arg_str_array};
use crate::tools::add_clips::{add_clips_outcome, tool_add_clips};
use crate::tools::add_texts::{add_texts_outcome, tool_add_texts};
use crate::tools::clip_properties::{fits_grid, grid, props_outcome, tool_set_clip_properties};
use crate::tools::folders::{
    create_folder_effect, delete_folder_outcome, delete_media_outcome, folders_json, listed_asset_total, move_to_folder_effect,
    moved_message, rename_effect, rename_message, tool_create_folder, tool_delete_folder, tool_delete_media, tool_list_folders,
    tool_move_to_folder, tool_rename_folder, tool_rename_media,
};
use crate::tools::insert_clips::{insert_outcome, tool_insert_clips};
use crate::tools::keyframes::{keyframes_outcome, tool_set_keyframes};
use crate::tools::media::{generate_outcome, import_outcome, tool_generate, tool_import_media, tool_upscale_media, upscale_outcome};
use crate::tools::move_clips::{move_outcome, tool_move_clips};
use crate::tools::queries::{
    captions_message, inspect_entry, inspect_timeline_json, invalid_window_message, listed_models, media_json, search_json,
    spec_window, tool_add_captions, tool_get_media, tool_get_timeline, tool_get_transcript, tool_inspect_media,
    tool_inspect_timeline, tool_list_models, tool_search_media, transcript_json,
};
use crate::model::spec_find_asset;
use crate::tools::remove_clips::{remove_clips_ok, remove_clips_outcome, tool_remove_clips};
use crate::tools::ripple_delete::{ripple_outcome, tool_ripple_delete_ranges};
use crate::tools::timeline::{
    overflow_error, overflow_message, remove_tracks_outcome, split_outcome, tool_remove_tracks, tool_split_clip, tool_undo,
    undo_effect,
};

verus! {

/// The names of the tools.
pub open spec fn tool_names() -> Seq<Seq<char>> {
    seq![
        "get_timeline"@, "get_media"@, "inspect_media"@, "get_transcript"@, "inspect_timeline"@, "search_media"@,
        "list_models"@, "add_clips"@, "insert_clips"@, "remove_clips"@, "remove_tracks"@, "move_clips"@,
        "set_clip_properties"@, "set_keyframes"@, "split_clip"@, "ripple_delete_ranges"@, "undo"@, "add_texts"@,
        "add_captions"@, "generate_video"@, "generate_image"@, "generate_audio"@, "upscale_media"@, "import_media"@,
        "list_folders"@, "create_folder"@, "move_to_folder"@, "rename_media"@, "rename_folder"@, "delete_media"@,
        "delete_folder"@,
    ]
}

/// Whether `name` is one of the tools.
pub fn is_known_tool(name: &str) -> (r: bool)
    ensures
        r == tool_names().contains(name@),
{
    let names: [&str; 31] = [
        "get_timeline", "get_media", "inspect_media", "get_transcript", "inspect_timeline", "search_media",
        "list_models", "add_clips", "insert_clips", "remove_clips", "remove_tracks", "move_clips",
        "set_clip_properties", "set_keyframes", "split_clip", "ripple_delete_ranges", "undo", "add_texts",
        "add_captions", "generate_video", "generate_image", "generate_audio", "upscale_media", "import_media",
        "list_folders", "create_folder", "move_to_folder", "rename_media", "rename_folder", "delete_media",
        "delete_folder",
    ];
    assert(names@.map_values(|n: &str| n@) =~= tool_names());
    let mut i: usize = 0;
    while i < 31
        invariant
            0 <= i <= 31,
            names@.len() == 31,
            names@.map_values(|n: &str| n@) == tool_names(),
            forall|j: int| 0 <= j < i ==> tool_names()[j] != name@,
        decreases 31 - i,
    {
        assert(tool_names()[i as int] == names@[i as int]@);
        if str_eq(names[i], name) {
            return true;
        }
        i = i + 1;
    }
    proof { true_if_never(name@); }
    false
}

proof fn true_if_never(name: Seq<char>)
    requires
        forall|j: int| 0 <= j < 31 ==> tool_names()[j] != name,
    ensures
        !tool_names().contains(name),
{
}

/// A tool that may fail after changing the state: `e` gives whether it
/// failed and the state it leaves.
pub open spec fn flagged(e: (bool, EditorView), r: ToolOutcome, n: EditorView) -> bool {
    (r is Error) == e.0 && n == e.1
}

/// What calling the tool `name` with `args` on state `s` answers (`r`) and
/// leaves (`n`); `defaults` gives each asset's default clip length and
/// `rescaled` each clip's length rescaled to a requested speed.
pub open spec fn dispatched(name: Seq<char>, s: EditorView, args: Json, defaults: Seq<i64>, rescaled: Seq<Seq<i64>>, r: ToolOutcome, n: EditorView) -> bool {
    if name == "get_timeline"@ {
        n == s && match spec_window(args) {
            Ok(w) => r matches ToolOutcome::Json(v) && v@ == timeline_doc(s, w),
            Err((st, en)) => r matches ToolOutcome::Error(m) && m@ == invalid_window_message(st, en),
        }
    } else if name == "get_media"@ {
        n == s && (r matches ToolOutcome::Json(v) && v@ == media_json(s.media_assets))
    } else if name == "inspect_media"@ {
        n == s && match spec_arg_str(args, "mediaRef"@) {
            None => r matches ToolOutcome::Error(m) && m@ == missing_string("mediaRef"@),
            Some(id) => match spec_find_asset(s.media_assets, id) {
                None => r matches ToolOutcome::Error(m) && m@ == "Media asset not found: "@ + id,
                Some(i) => r matches ToolOutcome::Json(v) && v@ == inspect_entry(s.media_assets[i]),
            },
        }
    } else if name == "get_transcript"@ {
        n == s && (r matches ToolOutcome::Json(v) && v@ == transcript_json())
    } else if name == "inspect_timeline"@ {
        n == s && (r matches ToolOutcome::Json(v) && v@ == inspect_timeline_json())
    } else if name == "search_media"@ {
        n == s && (r matches ToolOutcome::Json(v) && v@ == search_json(
            match spec_arg_str(args, "query"@) {
                Some(q) => q,
                None => ""@,
            },
        ))
    } else if name == "list_models"@ {
        n == s && match listed_models(spec_arg_str(args, "type"@)) {
            None => r matches ToolOutcome::Error(m) && m@ == "Unknown type filter '"@ + spec_arg_str(args, "type"@)->0
                + "'. Expected one of: video, image, audio, upscale."@,
            Some(ms) => r matches ToolOutcome::Json(v) && v@ == Json::Object(
                seq![("models"@, Json::Array(ms)), ("loaded"@, Json::Bool(true))],
            ),
        }
    } else if name == "add_clips"@ {
        add_clips_outcome(s, args, r, n)
    } else if name == "insert_clips"@ {
        insert_outcome(s, args, defaults, r, n)
    } else if name == "remove_clips"@ {
        remove_clips_outcome(s, args, r, n)
    } else if name == "remove_tracks"@ {
        remove_tracks_outcome(s, args, r, n)
    } else if name == "move_clips"@ {
        move_outcome(s, args, r, n)
    } else if name == "set_clip_properties"@ {
        props_outcome(s, args, rescaled, r, n)
    } else if name == "set_keyframes"@ {
        keyframes_outcome(s, args, r, n)
    } else if name == "split_clip"@ {
        if s.id_counter == u64::MAX {
            n == s && (r matches ToolOutcome::Error(m) && m@ == overflow_message())
        } else {
            split_outcome(s, args, r, n)
        }
    } else if name == "ripple_delete_ranges"@ {
        ripple_outcome(s, args, r, n)
    } else if name == "undo"@ {
        match undo_effect(s) {
            None => n == s && (r matches ToolOutcome::Error(m) && m@
                == "No assistant edit to undo this session. The user's own edits are theirs to undo."@),
            Some(x) => n == x && (r matches ToolOutcome::Text(m) && m@ == "Undid: "@ + s.undo_stack.last().action_name
                + ". The timeline is restored to its state before that edit; re-read with get_timeline or get_transcript before editing again."@),
        }
    } else if name == "add_texts"@ {
        add_texts_outcome(s, args, r, n)
    } else if name == "add_captions"@ {
        n == s && (r matches ToolOutcome::Error(m) && m@ == captions_message())
    } else if name == "generate_video"@ {
        generate_outcome(s, args, ClipType::Video, r, n)
    } else if name == "generate_image"@ {
        generate_outcome(s, args, ClipType::Image, r, n)
    } else if name == "generate_audio"@ {
        generate_outcome(s, args, ClipType::Audio, r, n)
    } else if name == "upscale_media"@ {
        upscale_outcome(s, args, r, n)
    } else if name == "import_media"@ {
        import_outcome(s, args, r, n)
    } else if name == "list_folders"@ {
        n == s && (r matches ToolOutcome::Json(v) && v@ == folders_json(s.folders))
    } else if name == "create_folder"@ {
        flagged(create_folder_effect(s, args), r, n) && (!create_folder_effect(s, args).0 && spec_arg_array(args, "entries"@)
            is None ==> (r matches ToolOutcome::Text(m) && m@ == "Created folder "@ + minted_id("folder"@, (s.id_counter + 1) as nat)
            + "."@))
    } else if name == "move_to_folder"@ {
        flagged(move_to_folder_effect(s, args), r, n) && (!move_to_folder_effect(s, args).0 && spec_arg_array(args, "entries"@)
            is None ==> (r matches ToolOutcome::Text(m) && m@ == moved_message(spec_arg_str_array(args, "assetIds"@)->0.len())))
            && (!move_to_folder_effect(s, args).0 && spec_arg_array(args, "entries"@) is Some && listed_asset_total(
            spec_arg_array(args, "entries"@)->0,
        ) < usize::MAX ==> (r matches ToolOutcome::Text(m) && m@ == moved_message(
            listed_asset_total(spec_arg_array(args, "entries"@)->0),
        )))
    } else if name == "rename_media"@ {
        flagged(rename_effect(s, args, false), r, n) && (!rename_effect(s, args, false).0 ==> (r matches ToolOutcome::Text(m)
            && m@ == rename_message(args, false)))
    } else if name == "rename_folder"@ {
        flagged(rename_effect(s, args, true), r, n) && (!rename_effect(s, args, true).0 ==> (r matches ToolOutcome::Text(m)
            && m@ == rename_message(args, true)))
    } else if name == "delete_media"@ {
        delete_media_outcome(s, args, r, n)
    } else if name == "delete_folder"@ {
        delete_folder_outcome(s, args, r, n)
    } else {
        n == s && (r matches ToolOutcome::Error(m) && m@ == "Unknown tool: "@ + name)
    }
}

/// What a call of `name` requires of the state beyond a timeline whose
/// frame arithmetic fits: `remove_clips` needs what keeps its index
/// arithmetic in range.
pub open spec fn call_allowed(name: Seq<char>, s: EditorView, args: Json) -> bool {
    name == "remove_clips"@ ==> remove_clips_ok(s, args)
}

/// Runs the tool `name` on the editor state.
#[verifier::rlimit(60)]
#[verifier::spinoff_prover]
pub fn dispatch_inner(name: &str, args: &JsonValue, s: &mut EditorState, defaults: &Vec<i64>, rescaled: &Vec<Vec<i64>>) -> (r: ToolOutcome)
    requires
        timeline_fits(old(s)@.timeline),
        defaults@.len() == old(s)@.media_assets.len(),
        fits_grid(old(s)@.timeline, grid(rescaled@)),
        call_allowed(name@, old(s)@, args@),
    ensures
        dispatched(name@, old(s)@, args@, defaults@, grid(rescaled@), r, final(s)@),
{
    if str_eq(name, "get_timeline") {
        tool_get_timeline(s, args)
    } else if str_eq(name, "get_media") {
        tool_get_media(s)
    } else if str_eq(name, "inspect_media") {
        tool_inspect_media(s, args)
    } else if str_eq(name, "get_transcript") {
        tool_get_transcript(s, args)
    } else if str_eq(name, "inspect_timeline") {
        tool_inspect_timeline(s, args)
    } else if str_eq(name, "search_media") {
        tool_search_media(s, args)
    } else if str_eq(name, "list_models") {
        tool_list_models(args)
    } else if str_eq(name, "add_clips") {
        tool_add_clips(s, args)
    } else if str_eq(name, "insert_clips") {
        tool_insert_clips(s, args, defaults)
    } else if str_eq(name, "remove_clips") {
        tool_remove_clips(s, args)
    } else if str_eq(name, "remove_tracks") {
        tool_remove_tracks(s, args)
    } else if str_eq(name, "move_clips") {
        tool_move_clips(s, args)
    } else if str_eq(name, "set_clip_properties") {
        tool_set_clip_properties(s, args, rescaled)
    } else if str_eq(name, "set_keyframes") {
        tool_set_keyframes(s, args)
    } else if str_eq(name, "split_clip") {
        proof { crate::model::lemma_editor_view(*s); }
        let counter = s.id_counter;
        assert(counter == s@.id_counter);
        if counter == u64::MAX {
            overflow_error()
        } else {
            tool_split_clip(s, args)
        }
    } else if str_eq(name, "ripple_delete_ranges") {
        tool_ripple_delete_ranges(s, args)
    } else if str_eq(name, "undo") {
        tool_undo(s)
    } else if str_eq(name, "add_texts") {
        tool_add_texts(s, args)
    } else if str_eq(name, "add_captions") {
        tool_add_captions(s, args)
    } else if str_eq(name, "generate_video") {
        tool_generate(s, args, ClipType::Video)
    } else if str_eq(name, "generate_image") {
        tool_generate(s, args, ClipType::Image)
    } else if str_eq(name, "generate_audio") {
        tool_generate(s, args, ClipType::Audio)
    } else if str_eq(name, "upscale_media") {
        tool_upscale_media(s, args)
    } else if str_eq(name, "import_media") {
        tool_import_media(s, args)
    } else if str_eq(name, "list_folders") {
        tool_list_folders(s)
    } else if str_eq(name, "create_folder") {
        tool_create_folder(s, args)
    } else if str_eq(name, "move_to_folder") {
        tool_move_to_folder(s, args)
    } else if str_eq(name, "rename_media") {
        tool_rename_media(s, args)
    } else if str_eq(name, "rename_folder") {
        tool_rename_folder(s, args)
    } else if str_eq(name, "delete_media") {
        tool_delete_media(s, args)
    } else if str_eq(name, "delete_folder") {
        tool_delete_folder(s, args)
    } else {
        let mut m = string_of("Unknown tool: ");
        push_str(&mut m, name);
        err(m)
    }
}

/// A `tools/call`: an unknown name is a tool-level error
/// (`Unknown tool: <name>`); a known one runs.
pub fn dispatch_call(name: &str, args: &JsonValue, s: &mut EditorState, defaults: &Vec<i64>, rescaled: &Vec<Vec<i64>>) -> (r: ToolOutcome)
    requires
        timeline_fits(old(s)@.timeline),
        defaults@.len() == old(s)@.media_assets.len(),
        fits_grid(old(s)@.timeline, grid(rescaled@)),
        call_allowed(name@, old(s)@, args@),
    ensures
        dispatched(name@, old(s)@, args@, defaults@, grid(rescaled@), r, final(s)@),
        !tool_names().contains(name@) ==> final(s)@ == old(s)@ && (r matches ToolOutcome::Error(m) && m@ == "Unknown tool: "@ + name@),
{
    if !is_known_tool(name) {
        proof { lemma_unknown_falls_through(name@); }
        let mut m = string_of("Unknown tool: ");
        push_str(&mut m, name);
        return err(m);
    }
    dispatch_inner(name, args, s, defaults, rescaled)
}

/// A name outside the tool list matches none of the tool branches.
proof fn lemma_unknown_falls_through(name: Seq<char>)
    requires
        !tool_names().contains(name),
    ensures
        name != "get_timeline"@,
        name != "get_media"@,
        name != "inspect_media"@,
        name != "get_transcript"@,
        name != "inspect_timeline"@,
        name != "search_media"@,
        name != "list_models"@,
        name != "add_clips"@,
        name != "insert_clips"@,
        name != "remove_clips"@,
        name != "remove_tracks"@,
        name != "move_clips"@,
        name != "set_clip_properties"@,
        name != "set_keyframes"@,
        name != "split_clip"@,
        name != "ripple_delete_ranges"@,
        name != "undo"@,
        name != "add_texts"@,
        name != "add_captions"@,
        name != "generate_video"@,
        name != "generate_image"@,
        name != "generate_audio"@,
        name != "upscale_media"@,
        name != "import_media"@,
        name != "list_folders"@,
        name != "create_folder"@,
        name != "move_to_folder"@,
        name != "rename_media"@,
        name != "rename_folder"@,
        name != "delete_media"@,
        name != "delete_folder"@,
{
    let t = tool_names();
    assert(t[0] == "get_timeline"@);
    assert(t[1] == "get_media"@);
    assert(t[2] == "inspect_media"@);
    assert(t[3] == "get_transcript"@);
    assert(t[4] == "inspect_timeline"@);
    assert(t[5] == "search_media"@);
    assert(t[6] == "list_models"@);
    assert(t[7] == "add_clips"@);
    assert(t[8] == "insert_clips"@);
    assert(t[9] == "remove_clips"@);
    assert(t[10] == "remove_tracks"@);
    assert(t[11] == "move_clips"@);
    assert(t[12] == "set_clip_properties"@);
    assert(t[13] == "set_keyframes"@);
    assert(t[14] == "split_clip"@);
    assert(t[15] == "ripple_delete_ranges"@);
    assert(t[16] == "undo"@);
    assert(t[17] == "add_texts"@);
    assert(t[18] == "add_captions"@);
    assert(t[19] == "generate_video"@);
    assert(t[20] == "generate_image"@);
    assert(t[21] == "generate_audio"@);
    assert(t[22] == "upscale_media"@);
    assert(t[23] == "import_media"@);
    assert(t[24] == "list_folders"@);
    assert(t[25] == "create_folder"@);
    assert(t[26] == "move_to_folder"@);
    assert(t[27] == "rename_media"@);
    assert(t[28] == "rename_folder"@);
    assert(t[29] == "delete_media"@);
    assert(t[30] == "delete_folder"@);
}

} // verus!
