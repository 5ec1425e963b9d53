//! Media library tools that register assets: generation and upscale
//! placeholders, and imports.

use vstd::prelude::*;
use crate::clip_type::ClipType;
use crate::json::{Json, JsonValue, json_of_members, lemma_json_of_members};
use crate::model::{AssetView, EditorState, EditorView, MediaAsset, minted, minted_id, spec_find_asset, spec_find_folder};
use crate::reals::Real;
use crate::text::{push_char, push_str, starts_with, str_eq, string_of};
use crate::tools::args::{ToolOutcome, arg_opt_str, arg_str, cat2, cat3, err, missing_string, ok, spec_arg_str};

verus! {

/// The first `n` characters of `s` (all of it when shorter).
pub open spec fn first_chars(s: Seq<char>, n: int) -> Seq<char> {
    if s.len() > n { s.take(n) } else { s }
}

pub fn take_chars(s: &str, n: usize) -> (r: String)
    ensures
        r@ == first_chars(s@, n as int),
{
    let len = s.unicode_len();
    let m = if len > n { n } else { len };
    let mut out = string_of("");
    proof { reveal_strlit(""); }
    let mut i: usize = 0;
    while i < m
        invariant
            0 <= i <= m,
            m <= len,
            len == s@.len(),
            out@ == s@.take(i as int),
        decreases m - i,
    {
        let c = s.get_char(i);
        push_char(&mut out, c);
        assert(s@.take(i + 1) =~= s@.take(i as int).push(c));
        i = i + 1;
    }
    assert(s@.take(m as int) =~= first_chars(s@, n as int));
    out
}

/// Adds an asset to the library.
pub fn push_asset(s: &mut EditorState, a: MediaAsset)
    ensures
        final(s)@ == (EditorView { media_assets: old(s)@.media_assets.push(a@), ..old(s)@ }),
{
    proof { crate::model::lemma_editor_view(*s); }
    let ghost av = a@;
    s.media_assets.push(a);
    proof { crate::model::lemma_editor_view(*s); }
    assert(s@.media_assets =~= old(s)@.media_assets.push(av));
}

/// `{"<key>": "<value>"}`.
pub open spec fn one_member(key: Seq<char>, value: Seq<char>) -> Json {
    Json::Object(seq![(key, Json::Str(value))])
}

fn one_member_json(key: &str, value: &str) -> (r: JsonValue)
    ensures
        r@ == one_member(key@, value@),
{
    let mut m: Vec<(String, JsonValue)> = Vec::new();
    m.push((string_of(key), JsonValue::string(value)));
    proof { lemma_json_of_members(m@); }
    let r = JsonValue::Object(m);
    assert(json_of_members(m@) =~= seq![(key@, Json::Str(value@))]);
    r
}

/// A placeholder asset that is being generated.
pub open spec fn placeholder(id: Seq<char>, name: Seq<char>, t: ClipType, folder: Option<Seq<char>>, input: Json) -> AssetView {
    AssetView {
        id,
        name,
        media_type: t,
        duration: Real::Bits(0),
        folder_id: folder,
        generation_status: "generating"@,
        generation_input: Some(input),
        source_width: None,
        source_height: None,
        source_fps: None,
        has_audio: t == ClipType::Audio || t == ClipType::Video,
    }
}

/// What `generate_video` / `generate_image` / `generate_audio` do: register
/// a placeholder asset named after the first 30 characters of the prompt
/// unless a name is given. Not undoable. `None` for an error.
pub open spec fn generate_effect(s: EditorView, args: Json, t: ClipType) -> Option<EditorView> {
    match spec_arg_str(args, "prompt"@) {
        None => None,
        Some(prompt) => {
            let folder = spec_arg_str(args, "folderId"@);
            if (folder matches Some(f) && spec_find_folder(s.folders, f) is None) || s.id_counter == u64::MAX {
                None
            } else {
                let n = (s.id_counter + 1) as nat;
                let name = match spec_arg_str(args, "name"@) {
                    Some(x) => x,
                    None => first_chars(prompt, 30),
                };
                let a = placeholder(minted_id("asset"@, n), name, t, folder, one_member("prompt"@, prompt));
                Some(EditorView { media_assets: s.media_assets.push(a), id_counter: n as u64, ..s })
            }
        },
    }
}

/// The summary of a started generation: the placeholder's id, minted from
/// the counter.
pub open spec fn generate_message(s: EditorView, t: ClipType) -> Seq<char> {
    let kind = match t {
        ClipType::Video => "video"@,
        ClipType::Image => "image"@,
        ClipType::Audio => "audio"@,
        _ => "media"@,
    };
    "Started async "@ + kind + " generation. Placeholder asset id "@ + minted_id("asset"@, (s.id_counter + 1) as nat)
        + " is in the media library; it will become usable in add_clips once ready. Costs real money and is not undoable."@
}

/// The summary of a started upscale.
pub open spec fn upscale_message(s: EditorView) -> Seq<char> {
    "Started async upscale. Placeholder asset id "@ + minted_id("asset"@, (s.id_counter + 1) as nat)
        + " is in the media library; it will appear in get_media once ready. Costs real money and is not undoable."@
}

/// Everything a `generate_*` tool answers and leaves: the effect and
/// summary, and the message for a missing prompt, an unknown folder or an
/// exhausted id counter.
pub open spec fn generate_outcome(s: EditorView, args: Json, t: ClipType, r: ToolOutcome, n: EditorView) -> bool {
    &&& match generate_effect(s, args, t) {
        None => r is Error && n == s,
        Some(x) => n == x && (r matches ToolOutcome::Text(m) && m@ == generate_message(s, t)),
    }
    &&& match spec_arg_str(args, "prompt"@) {
        None => r matches ToolOutcome::Error(m) && m@ == missing_string("prompt"@),
        Some(_) => match spec_arg_str(args, "folderId"@) {
            Some(f) => if spec_find_folder(s.folders, f) is None {
                r matches ToolOutcome::Error(m) && m@ == "folderId not found: "@ + f
            } else {
                s.id_counter == u64::MAX ==> (r matches ToolOutcome::Error(m) && m@ == crate::tools::timeline::overflow_message())
            },
            None => s.id_counter == u64::MAX ==> (r matches ToolOutcome::Error(m) && m@ == crate::tools::timeline::overflow_message()),
        },
    }
}

/// Everything `upscale_media` answers and leaves: the effect and summary,
/// and the message for a missing or unknown asset or an exhausted id
/// counter.
pub open spec fn upscale_outcome(s: EditorView, args: Json, r: ToolOutcome, n: EditorView) -> bool {
    &&& match upscale_effect(s, args) {
        None => r is Error && n == s,
        Some(x) => n == x && (r matches ToolOutcome::Text(m) && m@ == upscale_message(s)),
    }
    &&& match spec_arg_str(args, "mediaRef"@) {
        None => r matches ToolOutcome::Error(m) && m@ == missing_string("mediaRef"@),
        Some(id) => match spec_find_asset(s.media_assets, id) {
            None => r matches ToolOutcome::Error(m) && m@ == "Media asset not found: "@ + id,
            Some(_) => s.id_counter == u64::MAX ==> (r matches ToolOutcome::Error(m) && m@ == crate::tools::timeline::overflow_message()),
        },
    }
}

/// Checks an optional `folderId`.
fn folder_ok(s: &EditorState, folder: Option<&String>) -> (r: Result<(), String>)
    ensures
        r is Ok <==> !(opt_ref(folder) matches Some(f) && spec_find_folder(s@.folders, f) is None),
        r matches Err(m) ==> m@ == "folderId not found: "@ + opt_ref(folder)->0,
{
    match folder {
        Some(f) => match s.folder(f.as_str()) {
            Some(_) => Ok(()),
            None => Err(cat2("folderId not found: ", f.as_str())),
        },
        None => Ok(()),
    }
}

pub open spec fn opt_ref(v: Option<&String>) -> Option<Seq<char>> {
    match v {
        Some(x) => Some(x@),
        None => None,
    }
}

fn clone_opt(v: Option<&String>) -> (r: Option<String>)
    ensures
        crate::model::opt_str(r) == opt_ref(v),
{
    match v {
        Some(x) => Some(x.clone()),
        None => None,
    }
}

#[verifier::spinoff_prover]
pub fn tool_generate(s: &mut EditorState, args: &JsonValue, t: ClipType) -> (r: ToolOutcome)
    ensures
        generate_outcome(old(s)@, args@, t, r, final(s)@),
{
    proof { crate::model::lemma_editor_view(*s); }
    let prompt = match arg_str(args, "prompt") {
        Ok(p) => p,
        Err(e) => return err(e),
    };
    let name = match arg_opt_str(args, "name") {
        Some(n) => n.clone(),
        None => take_chars(prompt.as_str(), 30),
    };
    let folder = arg_opt_str(args, "folderId");
    match folder_ok(s, folder) {
        Ok(()) => {},
        Err(m) => return err(m),
    }
    if s.id_counter == u64::MAX {
        return crate::tools::timeline::overflow_error();
    }
    let id = s.mint_id("asset");
    proof { crate::model::lemma_editor_view(*s); }
    let a = MediaAsset {
        id: id.clone(),
        name,
        media_type: t,
        duration: Real::zero(),
        folder_id: clone_opt(folder),
        generation_status: string_of("generating"),
        generation_input: Some(one_member_json("prompt", prompt.as_str())),
        source_width: None,
        source_height: None,
        source_fps: None,
        has_audio: t == ClipType::Audio || t == ClipType::Video,
    };
    push_asset(s, a);
    let kind = match t {
        ClipType::Video => "video",
        ClipType::Image => "image",
        ClipType::Audio => "audio",
        _ => "media",
    };
    let mut m = cat3("Started async ", kind, " generation. Placeholder asset id ");
    push_str(&mut m, id.as_str());
    push_str(&mut m, " is in the media library; it will become usable in add_clips once ready. Costs real money and is not undoable.");
    ok(m)
}

/// What `upscale_media` does: register a placeholder copy of the source
/// asset, named `<name> (upscaled)`. Not undoable. `None` for an error.
pub open spec fn upscale_effect(s: EditorView, args: Json) -> Option<EditorView> {
    match spec_arg_str(args, "mediaRef"@) {
        None => None,
        Some(r) => match spec_find_asset(s.media_assets, r) {
            None => None,
            Some(i) => if s.id_counter == u64::MAX {
                None
            } else {
                let src = s.media_assets[i];
                let n = (s.id_counter + 1) as nat;
                let a = AssetView {
                    id: minted_id("asset"@, n),
                    name: src.name + " (upscaled)"@,
                    generation_status: "generating"@,
                    generation_input: Some(one_member("sourceMediaRef"@, r)),
                    ..src
                };
                Some(EditorView { media_assets: s.media_assets.push(a), id_counter: n as u64, ..s })
            },
        },
    }
}

#[verifier::rlimit(60)]
#[verifier::spinoff_prover]
pub fn tool_upscale_media(s: &mut EditorState, args: &JsonValue) -> (r: ToolOutcome)
    ensures
        upscale_outcome(old(s)@, args@, r, final(s)@),
{
    proof { crate::model::lemma_editor_view(*s); }
    let media_ref = match arg_str(args, "mediaRef") {
        Ok(p) => p,
        Err(e) => return err(e),
    };
    let src = match s.asset(media_ref.as_str()) {
        Some(a) => a.duplicate(),
        None => return err(cat2("Media asset not found: ", media_ref.as_str())),
    };
    if s.id_counter == u64::MAX {
        return crate::tools::timeline::overflow_error();
    }
    let id = s.mint_id("asset");
    proof { crate::model::lemma_editor_view(*s); }
    let a = MediaAsset {
        id: id.clone(),
        name: cat2(src.name.as_str(), " (upscaled)"),
        media_type: src.media_type,
        duration: src.duration,
        folder_id: src.folder_id,
        generation_status: string_of("generating"),
        generation_input: Some(one_member_json("sourceMediaRef", media_ref.as_str())),
        source_width: src.source_width,
        source_height: src.source_height,
        source_fps: src.source_fps,
        has_audio: src.has_audio,
    };
    push_asset(s, a);
    let mut m = cat3("Started async upscale. Placeholder asset id ", id.as_str(), " is in the media library; it will appear in get_media once ready. Costs real money and is not undoable.");
    ok(m)
}

// ---------------------------------------------------------------------------
// import_media
// ---------------------------------------------------------------------------

/// ASCII lowercase of one character.
pub open spec fn lower(c: char) -> char {
    if 'A' <= c <= 'Z' { ((c as u32) + 32) as char } else { c }
}

pub open spec fn lower_all(s: Seq<char>) -> Seq<char> {
    s.map_values(|c: char| lower(c))
}

/// Index just after the last `.` of `s`, or 0 when there is none.
pub open spec fn after_last_dot(s: Seq<char>) -> int
    decreases s.len(),
{
    if s.len() == 0 {
        0
    } else if s.last() == '.' {
        s.len() as int
    } else {
        after_last_dot(s.drop_last())
    }
}

/// The extension of a URL or path: what follows its last `.` (the whole
/// string when there is none), lowercased.
pub open spec fn extension(s: Seq<char>) -> Seq<char> {
    lower_all(s.subrange(after_last_dot(s), s.len() as int))
}

/// The media type a file extension names.
pub open spec fn type_of_extension(e: Seq<char>) -> Option<ClipType> {
    if e == "mov"@ || e == "mp4"@ || e == "m4v"@ {
        Some(ClipType::Video)
    } else if e == "mp3"@ || e == "wav"@ || e == "aac"@ || e == "m4a"@ {
        Some(ClipType::Audio)
    } else if e == "png"@ || e == "jpg"@ || e == "jpeg"@ || e == "tiff"@ || e == "heic"@ {
        Some(ClipType::Image)
    } else {
        None
    }
}

pub open spec fn starts(s: Seq<char>, p: Seq<char>) -> bool {
    p.len() <= s.len() && s.subrange(0, p.len() as int) == p
}

/// The media type of an accepted MIME type; `None` for any other.
pub open spec fn type_of_mime(m: Seq<char>) -> Option<ClipType> {
    if m == "video/mp4"@ || m == "video/quicktime"@ {
        Some(ClipType::Video)
    } else if m == "audio/mpeg"@ || m == "audio/wav"@ || m == "audio/aac"@ || m == "audio/mp4"@ {
        Some(ClipType::Audio)
    } else if m == "image/png"@ || m == "image/jpeg"@ || m == "image/tiff"@ || m == "image/heic"@ {
        Some(ClipType::Image)
    } else {
        None
    }
}

/// A source sets exactly one of `url`, `path` and `bytes`; a url is an
/// HTTPS URL, a path a string, and bytes a string that comes with a
/// `mimeType`.
pub open spec fn source_ok(src: Json) -> bool {
    let u = src.get("url"@) is Some;
    let p = src.get("path"@) is Some;
    let b = src.get("bytes"@) is Some;
    &&& (if u { 1int } else { 0int }) + (if p { 1int } else { 0int }) + (if b { 1int } else { 0int }) == 1
    &&& u ==> (spec_arg_str(src, "url"@) matches Some(x) && starts(x, "https://"@))
    &&& p ==> spec_arg_str(src, "path"@) is Some
    &&& b ==> spec_arg_str(src, "bytes"@) is Some && spec_arg_str(src, "mimeType"@) is Some
}

/// The media type of an import source: from its MIME type when one is given
/// (only the accepted ones have a type), else from the extension of its URL
/// (or path).
pub open spec fn source_type(mime: Option<Seq<char>>, url: Option<Seq<char>>, path: Option<Seq<char>>) -> Option<ClipType> {
    match mime {
        Some(m) => type_of_mime(m),
        None => {
            let e = match url {
                Some(u) => extension(u),
                None => match path {
                    Some(p) => extension(p),
                    None => Seq::empty(),
                },
            };
            type_of_extension(e)
        },
    }
}

/// What `import_media` does: register a ready asset of the inferred type.
/// Not undoable. `None` for an error.
pub open spec fn import_effect(s: EditorView, args: Json) -> Option<EditorView> {
    match args.get("source"@) {
        None => None,
        Some(src) => {
            let folder = spec_arg_str(args, "folderId"@);
            let url = spec_arg_str(src, "url"@);
            let path = spec_arg_str(src, "path"@);
            if folder matches Some(f) && spec_find_folder(s.folders, f) is None {
                None
            } else if !source_ok(src) {
                None
            } else {
                match source_type(spec_arg_str(src, "mimeType"@), url, path) {
                    None => None,
                    Some(t) => if s.id_counter == u64::MAX {
                        None
                    } else {
                        let n = (s.id_counter + 1) as nat;
                        let a = AssetView {
                            id: minted_id("asset"@, n),
                            name: match spec_arg_str(args, "name"@) {
                                Some(x) => x,
                                None => "Imported asset"@,
                            },
                            media_type: t,
                            duration: Real::Bits(0),
                            folder_id: folder,
                            generation_status: "none"@,
                            generation_input: None,
                            source_width: None,
                            source_height: None,
                            source_fps: None,
                            has_audio: t == ClipType::Video,
                        };
                        Some(EditorView { media_assets: s.media_assets.push(a), id_counter: n as u64, ..s })
                    },
                }
            }
        },
    }
}

/// The lowercased extension of `s`.
pub fn extension_of(s: &str) -> (r: String)
    ensures
        r@ == extension(s@),
{
    let n = s.unicode_len();
    let mut start: usize = 0;
    let mut i: usize = 0;
    while i < n
        invariant
            0 <= i <= n,
            n == s@.len(),
            start as int == after_last_dot(s@.take(i as int)),
        decreases n - i,
    {
        assert(s@.take(i + 1).drop_last() =~= s@.take(i as int));
        if s.get_char(i) == '.' {
            start = i + 1;
        }
        i = i + 1;
    }
    assert(s@.take(n as int) =~= s@);
    let mut out = string_of("");
    proof { reveal_strlit(""); }
    let mut k: usize = start;
    proof { lemma_after_last_dot_le(s@); }
    while k < n
        invariant
            start <= k <= n,
            n == s@.len(),
            start as int == after_last_dot(s@),
            out@ == lower_all(s@.subrange(start as int, k as int)),
        decreases n - k,
    {
        let c = s.get_char(k);
        let l = if 'A' <= c && c <= 'Z' { char_plus_32(c) } else { c };
        push_char(&mut out, l);
        assert(s@.subrange(start as int, k + 1) =~= s@.subrange(start as int, k as int).push(c));
        assert(lower_all(s@.subrange(start as int, k + 1)) =~= lower_all(s@.subrange(start as int, k as int)).push(lower(c)));
        k = k + 1;
    }
    out
}

proof fn lemma_after_last_dot_le(s: Seq<char>)
    ensures
        0 <= after_last_dot(s) <= s.len(),
    decreases s.len(),
{
    if s.len() > 0 && s.last() != '.' {
        lemma_after_last_dot_le(s.drop_last());
    }
}

/// The lowercase of an uppercase ASCII letter.
fn char_plus_32(c: char) -> (r: char)
    requires
        'A' <= c <= 'Z',
    ensures
        r == lower(c),
{
    let code = (c as u32 + 32) as u8;
    code as char
}

fn type_from_mime(m: &str) -> (r: Option<ClipType>)
    ensures
        r == type_of_mime(m@),
{
    if str_eq(m, "video/mp4") || str_eq(m, "video/quicktime") {
        Some(ClipType::Video)
    } else if str_eq(m, "audio/mpeg") || str_eq(m, "audio/wav") || str_eq(m, "audio/aac") || str_eq(m, "audio/mp4") {
        Some(ClipType::Audio)
    } else if str_eq(m, "image/png") || str_eq(m, "image/jpeg") || str_eq(m, "image/tiff") || str_eq(m, "image/heic") {
        Some(ClipType::Image)
    } else {
        None
    }
}

fn type_from_extension(e: &str) -> (r: Option<ClipType>)
    ensures
        r == type_of_extension(e@),
{
    if str_eq(e, "mov") || str_eq(e, "mp4") || str_eq(e, "m4v") {
        Some(ClipType::Video)
    } else if str_eq(e, "mp3") || str_eq(e, "wav") || str_eq(e, "aac") || str_eq(e, "m4a") {
        Some(ClipType::Audio)
    } else if str_eq(e, "png") || str_eq(e, "jpg") || str_eq(e, "jpeg") || str_eq(e, "tiff") || str_eq(e, "heic") {
        Some(ClipType::Image)
    } else {
        None
    }
}

/// The summary of an import: the new asset's type and id.
pub open spec fn import_message(n: EditorView) -> Seq<char> {
    "Imported "@ + crate::clip_type::spec_clip_type_label(n.media_assets.last().media_type) + " asset as "@ + n.media_assets.last().id
        + ". The asset is usable in add_clips. Costs nothing."@
}

/// Everything `import_media` answers and leaves: the effect and summary,
/// and the message for a missing `source`.
pub open spec fn import_outcome(s: EditorView, args: Json, r: ToolOutcome, n: EditorView) -> bool {
    &&& match import_effect(s, args) {
        None => r is Error && n == s,
        Some(x) => n == x && (r matches ToolOutcome::Text(m) && m@ == import_message(n)),
    }
    &&& (args.get("source"@) is None ==> (r matches ToolOutcome::Error(m) && m@ == "Missing 'source' object"@))
}

/// The extension of the URL, else of the path, else empty.
fn source_extension(url: Option<&String>, path: Option<&String>) -> (r: String)
    ensures
        r@ == match opt_ref(url) {
            Some(u) => extension(u),
            None => match opt_ref(path) {
                Some(p) => extension(p),
                None => Seq::<char>::empty(),
            },
        },
{
    match url {
        Some(u) => extension_of(u.as_str()),
        None => match path {
            Some(p) => extension_of(p.as_str()),
            None => {
                let e = string_of("");
                proof { reveal_strlit(""); }
                assert(e@ =~= Seq::<char>::empty());
                e
            },
        },
    }
}

#[verifier::spinoff_prover]
pub fn tool_import_media(s: &mut EditorState, args: &JsonValue) -> (r: ToolOutcome)
    ensures
        import_outcome(old(s)@, args@, r, final(s)@),
{
    proof { crate::model::lemma_editor_view(*s); }
    let source = match args.get("source") {
        Some(v) => v,
        None => return err(string_of("Missing 'source' object")),
    };
    let name = match arg_opt_str(args, "name") {
        Some(n) => n.clone(),
        None => string_of("Imported asset"),
    };
    let folder = arg_opt_str(args, "folderId");
    match folder_ok(s, folder) {
        Ok(()) => {},
        Err(m) => return err(m),
    }
    let mime = arg_opt_str(source, "mimeType");
    let url = arg_opt_str(source, "url");
    let path = arg_opt_str(source, "path");
    let has_url = source.get("url").is_some();
    let has_path = source.get("path").is_some();
    let has_bytes = source.get("bytes").is_some();
    let count: u8 = (if has_url { 1u8 } else { 0u8 }) + (if has_path { 1u8 } else { 0u8 }) + (if has_bytes { 1u8 } else { 0u8 });
    if count != 1 {
        return err(string_of("source: exactly one of url, path, or bytes must be set"));
    }
    if has_url {
        let https = match url {
            Some(u) => starts_with(u.as_str(), "https://"),
            None => false,
        };
        if !https {
            return err(string_of("source.url must be an HTTPS URL"));
        }
    }
    if has_path && path.is_none() {
        return err(string_of("source.path must be a string"));
    }
    if has_bytes && (arg_opt_str(source, "bytes").is_none() || mime.is_none()) {
        return err(string_of("source.bytes must be a base64 string and needs source.mimeType"));
    }
    let ghost mv = opt_ref(mime);
    let ghost uv = opt_ref(url);
    let ghost pv = opt_ref(path);
    assert(mv == spec_arg_str(source@, "mimeType"@));
    assert(source_ok(source@));
    let t = match mime {
        Some(m) => match type_from_mime(m.as_str()) {
            Some(t) => t,
            None => {
                let mut msg = string_of("Unsupported mimeType '");
                push_str(&mut msg, m.as_str());
                push_str(&mut msg, "'. Accepted: video/mp4, video/quicktime, audio/mpeg, audio/wav, audio/aac, audio/mp4, image/png, image/jpeg, image/tiff, image/heic.");
                return err(msg);
            },
        },
        None => {
            let ext = source_extension(url, path);
            assert(source_type(mv, uv, pv) == type_of_extension(ext@));
            match type_from_extension(ext.as_str()) {
                Some(t) => t,
                None => {
                    let mut m = string_of("Could not infer media type for source (mime=None, ext=");
                    push_str(&mut m, ext.as_str());
                    push_str(&mut m, ")");
                    return err(m);
                },
            }
        },
    };
    if s.id_counter == u64::MAX {
        return crate::tools::timeline::overflow_error();
    }
    let id = s.mint_id("asset");
    proof { crate::model::lemma_editor_view(*s); }
    let a = MediaAsset {
        id: id.clone(),
        name,
        media_type: t,
        duration: Real::zero(),
        folder_id: clone_opt(folder),
        generation_status: string_of("none"),
        generation_input: None,
        source_width: None,
        source_height: None,
        source_fps: None,
        has_audio: t == ClipType::Video,
    };
    push_asset(s, a);
    let mut m = cat3("Imported ", crate::clip_type::clip_type_label(t), " asset as ");
    push_str(&mut m, id.as_str());
    push_str(&mut m, ". The asset is usable in add_clips. Costs nothing.");
    ok(m)
}

} // verus!
