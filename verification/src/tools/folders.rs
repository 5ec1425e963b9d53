//! Folder and library bookkeeping tools.

use vstd::prelude::*;
use crate::json::{Json, JsonValue, json_of_members, json_of_seq, lemma_json_of_members, lemma_json_of_seq};
use crate::model::{
    AssetView, EditorState, EditorView, Folder, FolderView, MediaAsset, minted, minted_id, spec_find_asset,
    spec_find_folder,
};
use crate::text::{dec_nat, push_str, push_usize, string_of};
use crate::tools::args::{
    ToolOutcome, arg_array, arg_opt_str, arg_str, arg_str_array, cat2, cat3, err, indexed, ok, ok_json,
    spec_arg_array, spec_arg_str, spec_arg_str_array, str_array_error, first_where, lemma_first_where,
};

verus! {

// ---------------------------------------------------------------------------
// State edits
// ---------------------------------------------------------------------------

/// `s` with the undo entry `name` pushed, holding its timeline and its media
/// library.
pub open spec fn with_undo(s: EditorView, name: Seq<char>) -> EditorView {
    with_undo_from(s, name, s)
}

/// `n` with an undo entry on top that holds `n`'s timeline and the media
/// library of the earlier state `s`.
pub open spec fn with_undo_from(n: EditorView, name: Seq<char>, s: EditorView) -> EditorView {
    EditorView {
        undo_stack: n.undo_stack.push(
            crate::model::UndoView {
                action_name: name,
                timeline_snapshot: n.timeline,
                library_snapshot: Some((s.media_assets, s.folders)),
            },
        ),
        ..n
    }
}

fn replace_asset(s: &mut EditorState, i: usize, a: MediaAsset)
    requires
        i < old(s)@.media_assets.len(),
    ensures
        final(s)@ == (EditorView { media_assets: old(s)@.media_assets.update(i as int, a@), ..old(s)@ }),
{
    proof { crate::model::lemma_editor_view(*s); }
    let ghost av = a@;
    s.media_assets.set(i, a);
    proof { crate::model::lemma_editor_view(*s); }
    assert(s@.media_assets =~= old(s)@.media_assets.update(i as int, av));
}

fn replace_folder(s: &mut EditorState, i: usize, f: Folder)
    requires
        i < old(s)@.folders.len(),
    ensures
        final(s)@ == (EditorView { folders: old(s)@.folders.update(i as int, f@), ..old(s)@ }),
{
    proof { crate::model::lemma_editor_view(*s); }
    let ghost fv = f@;
    s.folders.set(i, f);
    proof { crate::model::lemma_editor_view(*s); }
    assert(s@.folders =~= old(s)@.folders.update(i as int, fv));
}

fn push_folder(s: &mut EditorState, f: Folder)
    ensures
        final(s)@ == (EditorView { folders: old(s)@.folders.push(f@), ..old(s)@ }),
{
    proof { crate::model::lemma_editor_view(*s); }
    let ghost fv = f@;
    s.folders.push(f);
    proof { crate::model::lemma_editor_view(*s); }
    assert(s@.folders =~= old(s)@.folders.push(fv));
}

/// Drops every folder after the first `n` and sets the id counter back to
/// `counter`.
fn restore_folders(s: &mut EditorState, n: usize, counter: u64)
    requires
        n <= old(s)@.folders.len(),
    ensures
        final(s)@ == (EditorView { folders: old(s)@.folders.take(n as int), id_counter: counter, ..old(s)@ }),
{
    proof { crate::model::lemma_editor_view(*s); }
    let ghost f0 = s@.folders;
    s.folders.truncate(n);
    s.id_counter = counter;
    proof { crate::model::lemma_editor_view(*s); }
    assert(s@.folders =~= f0.take(n as int));
}

/// Puts back a copy of the media library taken earlier.
fn restore_library(s: &mut EditorState, media: Vec<MediaAsset>, folders: Vec<Folder>)
    ensures
        final(s)@ == (EditorView {
            media_assets: media@.map_values(|a: MediaAsset| a@),
            folders: folders@.map_values(|f: Folder| f@),
            ..old(s)@
        }),
{
    proof { crate::model::lemma_editor_view(*s); }
    s.media_assets = media;
    s.folders = folders;
    proof { crate::model::lemma_editor_view(*s); }
}

fn clone_opt(v: Option<&String>) -> (r: Option<String>)
    ensures
        crate::model::opt_str(r) == crate::tools::media::opt_ref(v),
{
    match v {
        Some(x) => Some(x.clone()),
        None => None,
    }
}

// ---------------------------------------------------------------------------
// list_folders
// ---------------------------------------------------------------------------

pub open spec fn opt_json_str(v: Option<Seq<char>>) -> Json {
    match v {
        Some(x) => Json::Str(x),
        None => Json::Null,
    }
}

pub open spec fn folder_json(f: FolderView) -> Json {
    Json::Object(seq![("id"@, Json::Str(f.id)), ("name"@, Json::Str(f.name)), ("parentFolderId"@, opt_json_str(f.parent_folder_id))])
}

/// `{"folders": [{"id", "name", "parentFolderId"}, ...]}`.
pub open spec fn folders_json(fs: Seq<FolderView>) -> Json {
    Json::Object(seq![("folders"@, Json::Array(fs.map_values(|f: FolderView| folder_json(f))))])
}

fn opt_str_json(v: &Option<String>) -> (r: JsonValue)
    ensures
        r@ == opt_json_str(crate::model::opt_str(*v)),
{
    match v {
        Some(x) => JsonValue::string(x.as_str()),
        None => JsonValue::Null,
    }
}

/// A JSON object of the given members.
pub fn object_of(members: Vec<(String, JsonValue)>) -> (r: JsonValue)
    ensures
        r@ == Json::Object(json_of_members(members@)),
{
    JsonValue::Object(members)
}

pub fn tool_list_folders(s: &EditorState) -> (r: ToolOutcome)
    ensures
        r matches ToolOutcome::Json(v) && v@ == folders_json(s@.folders),
{
    proof { crate::model::lemma_editor_view(*s); }
    let mut items: Vec<JsonValue> = Vec::new();
    let mut i: usize = 0;
    while i < s.folders.len()
        invariant
            0 <= i <= s.folders@.len(),
            s@.folders.len() == s.folders@.len(),
            items@.len() == i,
            forall|j: int| 0 <= j < i ==> (#[trigger] items@[j])@ == folder_json(s@.folders[j]),
        decreases s.folders.len() - i,
    {
        proof { crate::model::lemma_editor_view(*s); }
        let f = &s.folders[i];
        assert(s@.folders[i as int] == f@);
        let mut m: Vec<(String, JsonValue)> = Vec::new();
        m.push((string_of("id"), JsonValue::string(f.id.as_str())));
        m.push((string_of("name"), JsonValue::string(f.name.as_str())));
        m.push((string_of("parentFolderId"), opt_str_json(&f.parent_folder_id)));
        proof { lemma_json_of_members(m@); }
        assert(json_of_members(m@) =~= seq![("id"@, Json::Str(f@.id)), ("name"@, Json::Str(f@.name)), ("parentFolderId"@, opt_json_str(f@.parent_folder_id))]);
        items.push(object_of(m));
        i = i + 1;
    }
    proof { lemma_json_of_seq(items@); }
    assert(json_of_seq(items@) =~= s@.folders.map_values(|f: FolderView| folder_json(f)));
    let mut top: Vec<(String, JsonValue)> = Vec::new();
    top.push((string_of("folders"), JsonValue::array(items)));
    proof { lemma_json_of_members(top@); }
    assert(json_of_members(top@) =~= seq![("folders"@, Json::Array(s@.folders.map_values(|f: FolderView| folder_json(f))))]);
    ok_json(object_of(top))
}

// ---------------------------------------------------------------------------
// create_folder
// ---------------------------------------------------------------------------

/// One folder created: `None` when the parent is unknown or ids run out.
pub open spec fn create_one(s: EditorView, name: Seq<char>, parent: Option<Seq<char>>) -> Option<EditorView> {
    if (parent matches Some(p) && spec_find_folder(s.folders, p) is None) || s.id_counter == u64::MAX {
        None
    } else {
        let n = (s.id_counter + 1) as nat;
        Some(
            EditorView {
                folders: s.folders.push(FolderView { id: minted_id("folder"@, n), name, parent_folder_id: parent }),
                id_counter: n as u64,
                ..s
            },
        )
    }
}

/// The `entries` processed in order; the first bad entry stops the run
/// (`true`) with the folders before it kept.
pub open spec fn create_fold(s: EditorView, items: Seq<Json>) -> (bool, EditorView)
    decreases items.len(),
{
    if items.len() == 0 {
        (false, s)
    } else {
        let (e, s1) = create_fold(s, items.drop_last());
        if e {
            (true, s1)
        } else {
            match spec_arg_str(items.last(), "name"@) {
                None => (true, s1),
                Some(name) => match create_one(s1, name, spec_arg_str(items.last(), "parentFolderId"@)) {
                    None => (true, s1),
                    Some(s2) => (false, s2),
                },
            }
        }
    }
}

proof fn lemma_create_fold_stops(s: EditorView, items: Seq<Json>, k: int)
    requires
        0 <= k <= items.len(),
        create_fold(s, items.take(k)).0,
    ensures
        create_fold(s, items) == create_fold(s, items.take(k)),
    decreases items.len(),
{
    if k == items.len() {
        assert(items.take(k) =~= items);
    } else {
        assert(items.drop_last().take(k) =~= items.take(k));
        lemma_create_fold_stops(s, items.drop_last(), k);
    }
}

/// Creating folders only appends folders and advances the id counter.
proof fn lemma_create_fold_appends(s: EditorView, items: Seq<Json>)
    ensures
        create_fold(s, items).1 == (EditorView {
            folders: create_fold(s, items).1.folders,
            id_counter: create_fold(s, items).1.id_counter,
            ..s
        }),
        s.folders.len() <= create_fold(s, items).1.folders.len(),
        create_fold(s, items).1.folders.take(s.folders.len() as int) == s.folders,
    decreases items.len(),
{
    if items.len() > 0 {
        lemma_create_fold_appends(s, items.drop_last());
        let s1 = create_fold(s, items.drop_last()).1;
        assert(s1.folders.take(s.folders.len() as int) == s.folders);
        if let Some(name) = spec_arg_str(items.last(), "name"@) {
            if let Some(s2) = create_one(s1, name, spec_arg_str(items.last(), "parentFolderId"@)) {
                assert(s2.folders.take(s.folders.len() as int) =~= s1.folders.take(s.folders.len() as int));
            }
        }
    } else {
        assert(s.folders.take(s.folders.len() as int) =~= s.folders);
    }
}

/// Ids minted from counter `c`: `folder-(c+1)`, ... for `n` folders.
pub open spec fn minted_ids(prefix: Seq<char>, c: nat, n: nat) -> Seq<Json> {
    Seq::new(n, |k: int| Json::Str(minted_id(prefix, (c + k + 1) as nat)))
}

/// What `create_folder` does: whether it reports an error, and the state
/// after it. With `entries`, folders are created one by one, a later entry
/// may name an earlier one as its parent, and the batch is all or nothing:
/// an error leaves the state as it was; the undo entry is pushed once all
/// succeed.
pub open spec fn create_folder_effect(s: EditorView, args: Json) -> (bool, EditorView) {
    match spec_arg_array(args, "entries"@) {
        Some(items) => if args.get("name"@) is Some {
            (true, s)
        } else {
            let (e, s1) = create_fold(s, items);
            if e { (true, s) } else { (false, with_undo_from(s1, "Create Folders (Agent)"@, s)) }
        },
        None => match spec_arg_str(args, "name"@) {
            None => (true, s),
            Some(name) => match create_one(with_undo(s, "Create Folder (Agent)"@), name, spec_arg_str(args, "parentFolderId"@)) {
                None => (true, s),
                Some(s2) => (false, s2),
            },
        },
    }
}

/// Creates one folder.
fn create_in(s: &mut EditorState, name: String, parent: Option<&String>) -> (r: Option<String>)
    ensures
        r is Some <==> create_one(old(s)@, name@, crate::tools::media::opt_ref(parent)) is Some,
        r matches Some(id) ==> create_one(old(s)@, name@, crate::tools::media::opt_ref(parent)) == Some(final(s)@)
            && id@ == minted_id("folder"@, (old(s)@.id_counter + 1) as nat),
        r is None ==> final(s)@ == old(s)@,
{
    proof { crate::model::lemma_editor_view(*s); }
    match parent {
        Some(p) => if s.folder(p.as_str()).is_none() {
            return None;
        },
        None => {},
    }
    if s.id_counter == u64::MAX {
        return None;
    }
    let id = s.mint_id("folder");
    push_folder(s, Folder { id: id.clone(), name, parent_folder_id: clone_opt(parent) });
    Some(id)
}

#[verifier::rlimit(50)]
#[verifier::spinoff_prover]
pub fn tool_create_folder(s: &mut EditorState, args: &JsonValue) -> (r: ToolOutcome)
    ensures
        (r is Error) == create_folder_effect(old(s)@, args@).0,
        final(s)@ == create_folder_effect(old(s)@, args@).1,
        !(r is Error) && spec_arg_array(args@, "entries"@) is Some ==> (r matches ToolOutcome::Json(v) && v@
            == Json::Object(seq![("folders"@, Json::Array(minted_ids("folder"@, old(s)@.id_counter as nat, spec_arg_array(args@, "entries"@)->0.len())))])),
        !(r is Error) && spec_arg_array(args@, "entries"@) is None ==> (r matches ToolOutcome::Text(m) && m@ == "Created folder "@
            + minted_id("folder"@, (old(s)@.id_counter + 1) as nat) + "."@),
{
    match arg_array(args, "entries") {
        Some(entries) => {
            if args.get("name").is_some() {
                return err(string_of("Pass either name/parentFolderId for one folder or entries for multiple folders, not both."));
            }
            let ghost s0 = s@;
            let ghost items = json_of_seq(entries@);
            proof {
                lemma_json_of_seq(entries@);
                crate::model::lemma_editor_view(*s);
            }
            let n0 = s.folders.len();
            let c0 = s.id_counter;
            let media0 = crate::model::dup_assets(&s.media_assets);
            let folders0 = crate::model::dup_folders(&s.folders);
            let mut ids: Vec<JsonValue> = Vec::new();
            let mut i: usize = 0;
            assert(items.take(0) =~= Seq::<Json>::empty());
            while i < entries.len()
                invariant
                    0 <= i <= entries@.len(),
                    items == json_of_seq(entries@),
                    s0 == old(s)@,
                    media0@.map_values(|a: MediaAsset| a@) == s0.media_assets,
                    folders0@.map_values(|f: Folder| f@) == s0.folders,
                    spec_arg_array(args@, "entries"@) == Some(items),
                    args@.get("name"@) is None,
                    items.len() == entries@.len(),
                    forall|j: int| 0 <= j < entries@.len() ==> #[trigger] items[j] == entries@[j]@,
                    create_fold(s0, items.take(i as int)) == (false, s@),
                    n0 == s0.folders.len(),
                    c0 == s0.id_counter,
                    s@.id_counter == s0.id_counter + i,
                    ids@.len() == i,
                    forall|j: int| 0 <= j < i ==> (#[trigger] ids@[j])@ == Json::Str(minted_id("folder"@, (s0.id_counter + j + 1) as nat)),
                decreases entries.len() - i,
            {
                let raw = &entries[i];
                assert(items[i as int] == raw@);
                assert(items.take(i + 1).drop_last() =~= items.take(i as int));
                assert(items.take(i + 1).last() == raw@);
                let name = match arg_str(raw, "name") {
                    Ok(n) => n.clone(),
                    Err(e) => {
                        proof {
                            assert(create_fold(s0, items.take(i + 1)) == (true, s@));
                            lemma_create_fold_stops(s0, items, i + 1);
                        }
                        proof { lemma_create_fold_appends(s0, items.take(i as int)); }
                        restore_folders(s, n0, c0);
                        assert(s@ == s0);
                        let p = indexed("entries", i);
                        return err(cat3(p.as_str(), ": ", e.as_str()));
                    },
                };
                let parent = arg_opt_str(raw, "parentFolderId");
                match create_in(s, name, parent) {
                    Some(id) => ids.push(JsonValue::string(id.as_str())),
                    None => {
                        proof {
                            assert(create_fold(s0, items.take(i + 1)) == (true, s@));
                            lemma_create_fold_stops(s0, items, i + 1);
                        }
                        proof { lemma_create_fold_appends(s0, items.take(i as int)); }
                        restore_folders(s, n0, c0);
                        assert(s@ == s0);
                        let p = indexed("entries", i);
                        return match parent {
                            Some(pp) => err(cat3(p.as_str(), ": parentFolderId not found: ", pp.as_str())),
                            None => err(cat2(p.as_str(), ": identifier counter exhausted")),
                        };
                    },
                }
                i = i + 1;
            }
            assert(items.take(i as int) =~= items);
            s.push_undo_from(string_of("Create Folders (Agent)"), media0, folders0);
            proof { lemma_json_of_seq(ids@); }
            assert(json_of_seq(ids@) =~= minted_ids("folder"@, s0.id_counter as nat, items.len()));
            let mut top: Vec<(String, JsonValue)> = Vec::new();
            top.push((string_of("folders"), JsonValue::array(ids)));
            proof { lemma_json_of_members(top@); }
            assert(json_of_members(top@) =~= seq![("folders"@, Json::Array(minted_ids("folder"@, s0.id_counter as nat, items.len())))]);
            ok_json(object_of(top))
        },
        None => {
            let name = match arg_str(args, "name") {
                Ok(n) => n.clone(),
                Err(e) => return err(e),
            };
            let parent = arg_opt_str(args, "parentFolderId");
            proof { crate::model::lemma_editor_view(*s); }
            match parent {
                Some(p) => if s.folder(p.as_str()).is_none() {
                    return err(cat2("parentFolderId not found: ", p.as_str()));
                },
                None => {},
            }
            if s.id_counter == u64::MAX {
                return crate::tools::timeline::overflow_error();
            }
            s.push_library_undo(string_of("Create Folder (Agent)"));
            let id = match create_in(s, name, parent) {
                Some(id) => id,
                None => return err(string_of("identifier counter exhausted")),
            };
            ok(cat3("Created folder ", id.as_str(), "."))
        },
    }
}

// ---------------------------------------------------------------------------
// move_to_folder
// ---------------------------------------------------------------------------

/// Assets moved into folder `f` one id at a time; an unknown id stops the
/// run (`true`) with the moves before it kept.
pub open spec fn move_ids(s: EditorView, ids: Seq<Seq<char>>, f: Option<Seq<char>>) -> (bool, EditorView)
    decreases ids.len(),
{
    if ids.len() == 0 {
        (false, s)
    } else {
        let (e, s1) = move_ids(s, ids.drop_last(), f);
        if e {
            (true, s1)
        } else {
            match spec_find_asset(s1.media_assets, ids.last()) {
                None => (true, s1),
                Some(i) => (
                    false,
                    EditorView {
                        media_assets: s1.media_assets.update(i, AssetView { folder_id: f, ..s1.media_assets[i] }),
                        ..s1
                    },
                ),
            }
        }
    }
}

proof fn lemma_move_ids_stops(s: EditorView, ids: Seq<Seq<char>>, f: Option<Seq<char>>, k: int)
    requires
        0 <= k <= ids.len(),
        move_ids(s, ids.take(k), f).0,
    ensures
        move_ids(s, ids, f) == move_ids(s, ids.take(k), f),
    decreases ids.len(),
{
    if k == ids.len() {
        assert(ids.take(k) =~= ids);
    } else {
        assert(ids.drop_last().take(k) =~= ids.take(k));
        lemma_move_ids_stops(s, ids.drop_last(), f, k);
    }
}

pub open spec fn folder_unknown(s: EditorView, f: Option<Seq<char>>) -> bool {
    f matches Some(x) && spec_find_folder(s.folders, x) is None
}

/// Moving assets changes nothing but the assets.
proof fn lemma_move_ids_assets_only(s: EditorView, ids: Seq<Seq<char>>, f: Option<Seq<char>>)
    ensures
        move_ids(s, ids, f).1 == (EditorView { media_assets: move_ids(s, ids, f).1.media_assets, ..s }),
    decreases ids.len(),
{
    if ids.len() > 0 {
        lemma_move_ids_assets_only(s, ids.drop_last(), f);
    }
}

/// One `entries` item of `move_to_folder`.
pub open spec fn move_entry(s: EditorView, raw: Json) -> (bool, EditorView) {
    match spec_arg_str_array(raw, "assetIds"@) {
        None => (true, s),
        Some(ids) => {
            let f = spec_arg_str(raw, "folderId"@);
            if folder_unknown(s, f) { (true, s) } else { move_ids(s, ids, f) }
        },
    }
}

pub open spec fn move_fold(s: EditorView, items: Seq<Json>) -> (bool, EditorView)
    decreases items.len(),
{
    if items.len() == 0 {
        (false, s)
    } else {
        let (e, s1) = move_fold(s, items.drop_last());
        if e { (true, s1) } else { move_entry(s1, items.last()) }
    }
}

/// Moving entries changes nothing but the assets.
proof fn lemma_move_fold_assets_only(s: EditorView, items: Seq<Json>)
    ensures
        move_fold(s, items).1 == (EditorView { media_assets: move_fold(s, items).1.media_assets, ..s }),
    decreases items.len(),
{
    if items.len() > 0 {
        lemma_move_fold_assets_only(s, items.drop_last());
        let s1 = move_fold(s, items.drop_last()).1;
        if let Some(ids) = spec_arg_str_array(items.last(), "assetIds"@) {
            lemma_move_ids_assets_only(s1, ids, spec_arg_str(items.last(), "folderId"@));
        }
    }
}

proof fn lemma_move_fold_stops(s: EditorView, items: Seq<Json>, k: int)
    requires
        0 <= k <= items.len(),
        move_fold(s, items.take(k)).0,
    ensures
        move_fold(s, items) == move_fold(s, items.take(k)),
    decreases items.len(),
{
    if k == items.len() {
        assert(items.take(k) =~= items);
    } else {
        assert(items.drop_last().take(k) =~= items.take(k));
        lemma_move_fold_stops(s, items.drop_last(), k);
    }
}

/// How many asset ids the `entries` list, all told.
pub open spec fn listed_asset_total(items: Seq<Json>) -> nat
    decreases items.len(),
{
    if items.len() == 0 {
        0
    } else {
        listed_asset_total(items.drop_last()) + spec_arg_str_array(items.last(), "assetIds"@)->0.len()
    }
}

proof fn lemma_listed_total_grows(items: Seq<Json>, k: int)
    requires
        0 <= k <= items.len(),
    ensures
        listed_asset_total(items.take(k)) <= listed_asset_total(items),
    decreases items.len(),
{
    if k == items.len() {
        assert(items.take(k) =~= items);
    } else {
        assert(items.drop_last().take(k) =~= items.take(k));
        lemma_listed_total_grows(items.drop_last(), k);
    }
}

/// `Moved <n> asset(s).`
pub open spec fn moved_message(n: nat) -> Seq<char> {
    "Moved "@ + dec_nat(n) + if n == 1 { " asset."@ } else { " assets."@ }
}

/// What `move_to_folder` does. The moves apply in order and the call is
/// all or nothing: an error leaves the state as it was; after a success
/// one undo entry holds the library from before the call.
pub open spec fn move_to_folder_effect(s: EditorView, args: Json) -> (bool, EditorView) {
    match spec_arg_array(args, "entries"@) {
        Some(items) => {
            let (e, s1) = move_fold(s, items);
            if e { (true, s) } else { (false, with_undo_from(s1, "Move to Folders (Agent)"@, s)) }
        },
        None => match spec_arg_str_array(args, "assetIds"@) {
            None => (true, s),
            Some(ids) => {
                let f = spec_arg_str(args, "folderId"@);
                if folder_unknown(s, f) {
                    (true, s)
                } else {
                    let (e, s2) = move_ids(s, ids, f);
                    if e { (true, s) } else { (false, with_undo_from(s2, "Move to Folder (Agent)"@, s)) }
                }
            },
        },
    }
}

/// Moves the listed assets into folder `f`; on an unknown id returns its
/// index.
fn move_assets(s: &mut EditorState, ids: &Vec<String>, f: Option<&String>) -> (r: Result<usize, usize>)
    ensures
        (r is Err) == move_ids(old(s)@, crate::tools::remove_clips::strs(ids@), crate::tools::media::opt_ref(f)).0,
        final(s)@ == move_ids(old(s)@, crate::tools::remove_clips::strs(ids@), crate::tools::media::opt_ref(f)).1,
        r matches Err(i) ==> i < ids@.len(),
        r matches Ok(n) ==> n == ids@.len(),
{
    let ghost s0 = s@;
    let ghost iv = crate::tools::remove_clips::strs(ids@);
    let ghost fv = crate::tools::media::opt_ref(f);
    let mut i: usize = 0;
    assert(iv.take(0) =~= Seq::<Seq<char>>::empty());
    while i < ids.len()
        invariant
            0 <= i <= ids@.len(),
            s0 == old(s)@,
            iv == crate::tools::remove_clips::strs(ids@),
            fv == crate::tools::media::opt_ref(f),
            move_ids(s0, iv.take(i as int), fv) == (false, s@),
        decreases ids.len() - i,
    {
        proof { crate::model::lemma_editor_view(*s); }
        assert(iv[i as int] == ids@[i as int]@);
        assert(iv.take(i + 1).drop_last() =~= iv.take(i as int));
        assert(iv.take(i + 1).last() == iv[i as int]);
        match s.asset_index(ids[i].as_str()) {
            Some(k) => {
                let mut a = s.media_assets[k].duplicate();
                a.folder_id = clone_opt(f);
                replace_asset(s, k, a);
            },
            None => {
                proof { lemma_move_ids_stops(s0, iv, fv, i + 1); }
                return Err(i);
            },
        }
        i = i + 1;
    }
    assert(iv.take(i as int) =~= iv);
    Ok(i)
}

#[verifier::rlimit(50)]
#[verifier::spinoff_prover]
pub fn tool_move_to_folder(s: &mut EditorState, args: &JsonValue) -> (r: ToolOutcome)
    ensures
        (r is Error) == move_to_folder_effect(old(s)@, args@).0,
        final(s)@ == move_to_folder_effect(old(s)@, args@).1,
        !move_to_folder_effect(old(s)@, args@).0 && spec_arg_array(args@, "entries"@) is None ==> (r matches ToolOutcome::Text(m)
            && m@ == moved_message(spec_arg_str_array(args@, "assetIds"@)->0.len())),
        !move_to_folder_effect(old(s)@, args@).0 && spec_arg_array(args@, "entries"@) is Some && listed_asset_total(
            spec_arg_array(args@, "entries"@)->0,
        ) < usize::MAX ==> (r matches ToolOutcome::Text(m) && m@ == moved_message(
            listed_asset_total(spec_arg_array(args@, "entries"@)->0),
        )),
{
    match arg_array(args, "entries") {
        Some(entries) => {
            let ghost s0 = s@;
            let ghost items = json_of_seq(entries@);
            proof {
                lemma_json_of_seq(entries@);
                crate::model::lemma_editor_view(*s);
            }
            let media0 = crate::model::dup_assets(&s.media_assets);
            let folders0 = crate::model::dup_folders(&s.folders);
            let mut total: usize = 0;
            let mut i: usize = 0;
            assert(items.take(0) =~= Seq::<Json>::empty());
            while i < entries.len()
                invariant
                    0 <= i <= entries@.len(),
                    items == json_of_seq(entries@),
                    s0 == old(s)@,
                    media0@.map_values(|a: MediaAsset| a@) == s0.media_assets,
                    folders0@.map_values(|f: Folder| f@) == s0.folders,
                    spec_arg_array(args@, "entries"@) == Some(items),
                    items.len() == entries@.len(),
                    forall|j: int| 0 <= j < entries@.len() ==> #[trigger] items[j] == entries@[j]@,
                    move_fold(s0, items.take(i as int)) == (false, s@),
                    listed_asset_total(items.take(i as int)) < usize::MAX ==> total == listed_asset_total(items.take(i as int)),
                decreases entries.len() - i,
            {
                proof { crate::model::lemma_editor_view(*s); }
                let raw = &entries[i];
                assert(items[i as int] == raw@);
                assert(items.take(i + 1).drop_last() =~= items.take(i as int));
                assert(items.take(i + 1).last() == raw@);
                let p = indexed("entries", i);
                let ids = match arg_str_array(raw, "assetIds") {
                    Ok(v) => v,
                    Err(e) => {
                        proof {
                            lemma_move_fold_stops(s0, items, i + 1);
                            lemma_move_fold_assets_only(s0, items.take(i as int));
                        }
                        restore_library(s, media0, folders0);
                        assert(s@ == s0);
                        return err(cat3(p.as_str(), ": ", e.as_str()));
                    },
                };
                assert(crate::tools::remove_clips::strs(ids@) =~= ids@.map_values(|x: String| x@));
                let f = arg_opt_str(raw, "folderId");
                match f {
                    Some(fid) => if s.folder(fid.as_str()).is_none() {
                        proof {
                            lemma_move_fold_stops(s0, items, i + 1);
                            lemma_move_fold_assets_only(s0, items.take(i as int));
                        }
                        restore_library(s, media0, folders0);
                        assert(s@ == s0);
                        return err(cat3(p.as_str(), ": folderId not found: ", fid.as_str()));
                    },
                    None => {},
                }
                proof {
                    lemma_listed_total_grows(items.take(i + 1), i as int);
                    assert(items.take(i + 1).take(i as int) =~= items.take(i as int));
                    assert(spec_arg_str_array(items.take(i + 1).last(), "assetIds"@)->0.len() == ids@.len());
                }
                let ghost s_before = s@;
                proof { lemma_move_ids_assets_only(s_before, crate::tools::remove_clips::strs(ids@), crate::tools::media::opt_ref(f)); }
                match move_assets(s, &ids, f) {
                    Ok(n) => {
                        total = if total < usize::MAX - n { total + n } else { usize::MAX };
                    },
                    Err(k) => {
                        proof {
                            lemma_move_fold_stops(s0, items, i + 1);
                            lemma_move_fold_assets_only(s0, items.take(i as int));
                        }
                        restore_library(s, media0, folders0);
                        assert(s@ == s0);
                        return err(cat3(p.as_str(), ": asset not found: ", ids[k].as_str()));
                    },
                }
                i = i + 1;
            }
            assert(items.take(i as int) =~= items);
            s.push_undo_from(string_of("Move to Folders (Agent)"), media0, folders0);
            let mut m = string_of("Moved ");
            push_usize(&mut m, total);
            push_str(&mut m, if total == 1 { " asset." } else { " assets." });
            ok(m)
        },
        None => {
            let ids = match arg_str_array(args, "assetIds") {
                Ok(v) => v,
                Err(e) => return err(e),
            };
            assert(crate::tools::remove_clips::strs(ids@) =~= ids@.map_values(|x: String| x@));
            let f = arg_opt_str(args, "folderId");
            proof { crate::model::lemma_editor_view(*s); }
            match f {
                Some(fid) => if s.folder(fid.as_str()).is_none() {
                    return err(cat2("folderId not found: ", fid.as_str()));
                },
                None => {},
            }
            let ghost s0 = s@;
            let media0 = crate::model::dup_assets(&s.media_assets);
            let folders0 = crate::model::dup_folders(&s.folders);
            proof { lemma_move_ids_assets_only(s0, crate::tools::remove_clips::strs(ids@), crate::tools::media::opt_ref(f)); }
            match move_assets(s, &ids, f) {
                Ok(n) => {
                    s.push_undo_from(string_of("Move to Folder (Agent)"), media0, folders0);
                    let mut m = string_of("Moved ");
                    push_usize(&mut m, n);
                    push_str(&mut m, if n == 1 { " asset." } else { " assets." });
                    ok(m)
                },
                Err(k) => {
                    restore_library(s, media0, folders0);
                    assert(s@ == s0);
                    err(cat2("asset not found: ", ids[k].as_str()))
                },
            }
        },
    }
}

// ---------------------------------------------------------------------------
// rename_media / rename_folder
// ---------------------------------------------------------------------------

/// The first asset with id `r` renamed; `None` when there is none.
pub open spec fn rename_asset(s: EditorView, r: Seq<char>, name: Seq<char>) -> Option<EditorView> {
    match spec_find_asset(s.media_assets, r) {
        None => None,
        Some(i) => Some(EditorView { media_assets: s.media_assets.update(i, AssetView { name, ..s.media_assets[i] }), ..s }),
    }
}

/// The first folder with id `r` renamed; `None` when there is none.
pub open spec fn rename_folder_in(s: EditorView, r: Seq<char>, name: Seq<char>) -> Option<EditorView> {
    match spec_find_folder(s.folders, r) {
        None => None,
        Some(i) => Some(EditorView { folders: s.folders.update(i, FolderView { name, ..s.folders[i] }), ..s }),
    }
}

/// Renaming changes nothing but the assets and the folders.
proof fn lemma_rename_fold_library_only(s: EditorView, items: Seq<Json>, key: Seq<char>, folders: bool)
    ensures
        rename_fold(s, items, key, folders).1 == (EditorView {
            media_assets: rename_fold(s, items, key, folders).1.media_assets,
            folders: rename_fold(s, items, key, folders).1.folders,
            ..s
        }),
    decreases items.len(),
{
    if items.len() > 0 {
        lemma_rename_fold_library_only(s, items.drop_last(), key, folders);
    }
}

/// Renames in order; the first bad entry stops the run with the renames
/// before it kept. `key` names the id member, `folders` picks folders over
/// assets.
pub open spec fn rename_fold(s: EditorView, items: Seq<Json>, key: Seq<char>, folders: bool) -> (bool, EditorView)
    decreases items.len(),
{
    if items.len() == 0 {
        (false, s)
    } else {
        let (e, s1) = rename_fold(s, items.drop_last(), key, folders);
        if e {
            (true, s1)
        } else {
            match (spec_arg_str(items.last(), key), spec_arg_str(items.last(), "name"@)) {
                (Some(r), Some(name)) => match if folders { rename_folder_in(s1, r, name) } else { rename_asset(s1, r, name) } {
                    None => (true, s1),
                    Some(s2) => (false, s2),
                },
                _ => (true, s1),
            }
        }
    }
}

proof fn lemma_rename_fold_stops(s: EditorView, items: Seq<Json>, key: Seq<char>, folders: bool, k: int)
    requires
        0 <= k <= items.len(),
        rename_fold(s, items.take(k), key, folders).0,
    ensures
        rename_fold(s, items, key, folders) == rename_fold(s, items.take(k), key, folders),
    decreases items.len(),
{
    if k == items.len() {
        assert(items.take(k) =~= items);
    } else {
        assert(items.drop_last().take(k) =~= items.take(k));
        lemma_rename_fold_stops(s, items.drop_last(), key, folders, k);
    }
}

/// What `rename_media` (`folders == false`) or `rename_folder` does. The
/// renames apply in order and the call is all or nothing: an error leaves
/// the state as it was; after a success one undo entry holds the library
/// from before the call.
pub open spec fn rename_effect(s: EditorView, args: Json, folders: bool) -> (bool, EditorView) {
    let key = if folders { "folderId"@ } else { "mediaRef"@ };
    match spec_arg_array(args, "entries"@) {
        Some(items) => {
            let (e, s1) = rename_fold(s, items, key, folders);
            let name = if folders { "Rename Folders (Agent)"@ } else { "Rename Media (Agent)"@ };
            if e { (true, s) } else { (false, with_undo_from(s1, name, s)) }
        },
        None => match (spec_arg_str(args, key), spec_arg_str(args, "name"@)) {
            (Some(r), Some(name)) => match if folders { rename_folder_in(s, r, name) } else { rename_asset(s, r, name) } {
                None => (true, s),
                Some(s2) => (false, with_undo_from(s2, if folders { "Rename Folder (Agent)"@ } else { "Rename Media (Agent)"@ }, s)),
            },
            _ => (true, s),
        },
    }
}

/// The summary of a successful rename: how many were renamed with
/// `entries`, else which one.
pub open spec fn rename_message(args: Json, folders: bool) -> Seq<char> {
    let what = if folders { "folder"@ } else { "asset"@ };
    match spec_arg_array(args, "entries"@) {
        Some(items) => "Renamed "@ + dec_nat(items.len()) + " "@ + what + if items.len() == 1 { "."@ } else { "s."@ },
        None => "Renamed "@ + what + " "@ + spec_arg_str(args, if folders { "folderId"@ } else { "mediaRef"@ })->0 + "."@,
    }
}

/// Renames one asset or folder; `false` when it is not found.
fn rename_one(s: &mut EditorState, r: &str, name: String, folders: bool) -> (ok: bool)
    ensures
        ok == (if folders { rename_folder_in(old(s)@, r@, name@) } else { rename_asset(old(s)@, r@, name@) }) is Some,
        ok ==> Some(final(s)@) == if folders { rename_folder_in(old(s)@, r@, name@) } else { rename_asset(old(s)@, r@, name@) },
        !ok ==> final(s)@ == old(s)@,
{
    proof { crate::model::lemma_editor_view(*s); }
    if folders {
        match s.folder_index(r) {
            Some(k) => {
                let f = Folder {
                    id: s.folders[k].id.clone(),
                    name,
                    parent_folder_id: crate::model::dup_opt_string(&s.folders[k].parent_folder_id),
                };
                replace_folder(s, k, f);
                true
            },
            None => false,
        }
    } else {
        match s.asset_index(r) {
            Some(k) => {
                let mut a = s.media_assets[k].duplicate();
                a.name = name;
                replace_asset(s, k, a);
                true
            },
            None => false,
        }
    }
}

#[verifier::rlimit(50)]
#[verifier::spinoff_prover]
fn rename_tool(s: &mut EditorState, args: &JsonValue, folders: bool) -> (r: ToolOutcome)
    ensures
        (r is Error) == rename_effect(old(s)@, args@, folders).0,
        final(s)@ == rename_effect(old(s)@, args@, folders).1,
        !rename_effect(old(s)@, args@, folders).0 ==> (r matches ToolOutcome::Text(m) && m@ == rename_message(args@, folders)),
{
    let key = if folders { "folderId" } else { "mediaRef" };
    let what = if folders { "folder" } else { "asset" };
    match arg_array(args, "entries") {
        Some(entries) => {
            let ghost s0 = s@;
            let ghost items = json_of_seq(entries@);
            proof {
                lemma_json_of_seq(entries@);
                crate::model::lemma_editor_view(*s);
            }
            let media0 = crate::model::dup_assets(&s.media_assets);
            let folders0 = crate::model::dup_folders(&s.folders);
            let mut i: usize = 0;
            assert(items.take(0) =~= Seq::<Json>::empty());
            while i < entries.len()
                invariant
                    0 <= i <= entries@.len(),
                    items == json_of_seq(entries@),
                    s0 == old(s)@,
                    media0@.map_values(|a: MediaAsset| a@) == s0.media_assets,
                    folders0@.map_values(|f: Folder| f@) == s0.folders,
                    key@ == if folders { "folderId"@ } else { "mediaRef"@ },
                    spec_arg_array(args@, "entries"@) == Some(items),
                    items.len() == entries@.len(),
                    forall|j: int| 0 <= j < entries@.len() ==> #[trigger] items[j] == entries@[j]@,
                    rename_fold(s0, items.take(i as int), key@, folders) == (false, s@),
                decreases entries.len() - i,
            {
                let raw = &entries[i];
                assert(items[i as int] == raw@);
                assert(items.take(i + 1).drop_last() =~= items.take(i as int));
                assert(items.take(i + 1).last() == raw@);
                let p = indexed("entries", i);
                let r = match arg_str(raw, key) {
                    Ok(v) => v,
                    Err(e) => {
                        proof {
                            lemma_rename_fold_stops(s0, items, key@, folders, i + 1);
                            lemma_rename_fold_library_only(s0, items.take(i as int), key@, folders);
                        }
                        restore_library(s, media0, folders0);
                        assert(s@ == s0);
                        return err(cat3(p.as_str(), ": ", e.as_str()));
                    },
                };
                let name = match arg_str(raw, "name") {
                    Ok(v) => v.clone(),
                    Err(e) => {
                        proof {
                            lemma_rename_fold_stops(s0, items, key@, folders, i + 1);
                            lemma_rename_fold_library_only(s0, items.take(i as int), key@, folders);
                        }
                        restore_library(s, media0, folders0);
                        assert(s@ == s0);
                        return err(cat3(p.as_str(), ": ", e.as_str()));
                    },
                };
                if !rename_one(s, r.as_str(), name, folders) {
                    proof {
                            lemma_rename_fold_stops(s0, items, key@, folders, i + 1);
                            lemma_rename_fold_library_only(s0, items.take(i as int), key@, folders);
                        }
                        restore_library(s, media0, folders0);
                        assert(s@ == s0);
                    let mut m = cat3(p.as_str(), ": ", what);
                    push_str(&mut m, " not found: ");
                    push_str(&mut m, r.as_str());
                    return err(m);
                }
                i = i + 1;
            }
            assert(items.take(i as int) =~= items);
            s.push_undo_from(string_of(if folders { "Rename Folders (Agent)" } else { "Rename Media (Agent)" }), media0, folders0);
            let mut m = string_of("Renamed ");
            push_usize(&mut m, i);
            push_str(&mut m, " ");
            push_str(&mut m, what);
            push_str(&mut m, if i == 1 { "." } else { "s." });
            ok(m)
        },
        None => {
            let r = match arg_str(args, key) {
                Ok(v) => v,
                Err(e) => return err(e),
            };
            let name = match arg_str(args, "name") {
                Ok(v) => v.clone(),
                Err(e) => return err(e),
            };
            proof { crate::model::lemma_editor_view(*s); }
            let media0 = crate::model::dup_assets(&s.media_assets);
            let folders0 = crate::model::dup_folders(&s.folders);
            if !rename_one(s, r.as_str(), name, folders) {
                let mut m = string_of(what);
                push_str(&mut m, " not found: ");
                push_str(&mut m, r.as_str());
                return err(m);
            }
            s.push_undo_from(string_of(if folders { "Rename Folder (Agent)" } else { "Rename Media (Agent)" }), media0, folders0);
            let mut m = string_of("Renamed ");
            push_str(&mut m, what);
            push_str(&mut m, " ");
            push_str(&mut m, r.as_str());
            push_str(&mut m, ".");
            ok(m)
        },
    }
}

pub fn tool_rename_media(s: &mut EditorState, args: &JsonValue) -> (r: ToolOutcome)
    ensures
        (r is Error) == rename_effect(old(s)@, args@, false).0,
        final(s)@ == rename_effect(old(s)@, args@, false).1,
        !rename_effect(old(s)@, args@, false).0 ==> (r matches ToolOutcome::Text(m) && m@ == rename_message(args@, false)),
{
    rename_tool(s, args, false)
}

pub fn tool_rename_folder(s: &mut EditorState, args: &JsonValue) -> (r: ToolOutcome)
    ensures
        (r is Error) == rename_effect(old(s)@, args@, true).0,
        final(s)@ == rename_effect(old(s)@, args@, true).1,
        !rename_effect(old(s)@, args@, true).0 ==> (r matches ToolOutcome::Text(m) && m@ == rename_message(args@, true)),
{
    rename_tool(s, args, true)
}

// ---------------------------------------------------------------------------
// delete_media / delete_folder
// ---------------------------------------------------------------------------

/// The assets whose id is not listed.
pub open spec fn keep_assets(a: Seq<AssetView>, ids: Seq<Seq<char>>) -> Seq<AssetView>
    decreases a.len(),
{
    if a.len() == 0 {
        a
    } else {
        keep_assets(a.drop_last(), ids) + if ids.contains(a.last().id) { Seq::<AssetView>::empty() } else { seq![a.last()] }
    }
}

/// The clips whose media is not listed.
pub open spec fn keep_media_clips(c: Seq<crate::model::ClipView>, ids: Seq<Seq<char>>) -> Seq<crate::model::ClipView>
    decreases c.len(),
{
    if c.len() == 0 {
        c
    } else {
        keep_media_clips(c.drop_last(), ids) + if ids.contains(c.last().media_ref) {
            Seq::<crate::model::ClipView>::empty()
        } else {
            seq![c.last()]
        }
    }
}

/// Keeping the clips of unlisted media never adds clips.
proof fn lemma_keep_media_len(c: Seq<crate::model::ClipView>, ids: Seq<Seq<char>>)
    ensures
        keep_media_clips(c, ids).len() <= c.len(),
    decreases c.len(),
{
    if c.len() > 0 {
        lemma_keep_media_len(c.drop_last(), ids);
    }
}

/// How many clips of `tracks` use a listed medium.
pub open spec fn media_clip_total(tracks: Seq<crate::model::TrackView>, ids: Seq<Seq<char>>) -> int
    decreases tracks.len(),
{
    if tracks.len() == 0 {
        0
    } else {
        media_clip_total(tracks.drop_last(), ids) + (tracks.last().clips.len() - keep_media_clips(tracks.last().clips, ids).len())
    }
}

proof fn lemma_media_total_grows(tracks: Seq<crate::model::TrackView>, ids: Seq<Seq<char>>, k: int)
    requires
        0 <= k <= tracks.len(),
    ensures
        0 <= media_clip_total(tracks.take(k), ids) <= media_clip_total(tracks, ids),
    decreases tracks.len(),
{
    if k == tracks.len() {
        assert(tracks.take(k) =~= tracks);
        if tracks.len() > 0 {
            lemma_media_total_grows(tracks.drop_last(), ids, k - 1);
            assert(tracks.drop_last().take(k - 1) =~= tracks.drop_last());
            lemma_keep_media_len(tracks.last().clips, ids);
        }
    } else {
        assert(tracks.drop_last().take(k) =~= tracks.take(k));
        lemma_media_total_grows(tracks.drop_last(), ids, k);
        lemma_keep_media_len(tracks.last().clips, ids);
    }
}

/// The summary of a successful `delete_media`: how many different assets
/// went and how many clips used them.
pub open spec fn delete_media_message(s: EditorView, args: Json) -> Seq<char> {
    let ids = spec_arg_str_array(args, "assetIds"@)->0;
    let a = ids.to_set().len();
    let c = media_clip_total(s.timeline.tracks, ids) as nat;
    "Deleted "@ + dec_nat(a) + (if a == 1 { " asset (also removed "@ } else { " assets (also removed "@ }) + dec_nat(c) + if c
        == 1 {
        " timeline clip referencing them)."@
    } else {
        " timeline clips referencing them)."@
    }
}

/// Everything `delete_media` answers and leaves: the effect and summary,
/// and the message for a bad id list or the first id that names no asset.
pub open spec fn delete_media_outcome(s: EditorView, args: Json, r: ToolOutcome, n: EditorView) -> bool {
    &&& match delete_media_effect(s, args) {
        None => r is Error && n == s,
        Some(x) => n == x && !(r is Error) && (media_clip_total(
            s.timeline.tracks,
            spec_arg_str_array(args, "assetIds"@)->0,
        ) < usize::MAX ==> (r matches ToolOutcome::Text(m) && m@ == delete_media_message(s, args))),
    }
    &&& match spec_arg_str_array(args, "assetIds"@) {
        None => r matches ToolOutcome::Error(m) && m@ == str_array_error(args, "assetIds"@),
        Some(ids) => if ids.len() == 0 {
            r matches ToolOutcome::Error(m) && m@ == "Missing or empty 'assetIds' array"@
        } else {
            first_where(ids, |x: Seq<char>| spec_find_asset(s.media_assets, x) is None) matches Some(k) ==> (r matches ToolOutcome::Error(
                m,
            ) && m@ == "Asset not found: "@ + ids[k])
        },
    }
}

pub open spec fn assets_found(s: EditorView, ids: Seq<Seq<char>>) -> bool {
    forall|k: int| 0 <= k < ids.len() ==> (#[trigger] spec_find_asset(s.media_assets, ids[k])) is Some
}

/// What `delete_media` does: the listed assets go, with every clip that
/// uses one of them. `None` for an error.
pub open spec fn delete_media_effect(s: EditorView, args: Json) -> Option<EditorView> {
    match spec_arg_str_array(args, "assetIds"@) {
        None => None,
        Some(ids) => if ids.len() == 0 || !assets_found(s, ids) {
            None
        } else {
            let s1 = with_undo(s, "Delete Media (Agent)"@);
            Some(
                EditorView {
                    media_assets: keep_assets(s.media_assets, ids),
                    timeline: crate::model::TimelineView {
                        tracks: s.timeline.tracks.map_values(
                            |t: crate::model::TrackView| crate::model::TrackView { clips: keep_media_clips(t.clips, ids), ..t },
                        ),
                        ..s.timeline
                    },
                    ..s1
                },
            )
        },
    }
}

fn contains(v: &Vec<String>, x: &str) -> (r: bool)
    ensures
        r == crate::tools::remove_clips::strs(v@).contains(x@),
{
    crate::tools::remove_clips::contains_str(v, x)
}

/// Drops the clips that use a listed asset; returns how many went.
fn drop_media_clips(clips: &Vec<crate::model::Clip>, ids: &Vec<String>) -> (r: Vec<crate::model::Clip>)
    ensures
        crate::model::clips_view(r@) == keep_media_clips(crate::model::clips_view(clips@), crate::tools::remove_clips::strs(ids@)),
{
    let ghost cv = crate::model::clips_view(clips@);
    let ghost iv = crate::tools::remove_clips::strs(ids@);
    let mut out: Vec<crate::model::Clip> = Vec::new();
    let mut i: usize = 0;
    assert(cv.take(0) =~= Seq::<crate::model::ClipView>::empty());
    while i < clips.len()
        invariant
            0 <= i <= clips@.len(),
            cv == crate::model::clips_view(clips@),
            iv == crate::tools::remove_clips::strs(ids@),
            crate::model::clips_view(out@) == keep_media_clips(cv.take(i as int), iv),
        decreases clips.len() - i,
    {
        assert(cv[i as int] == clips@[i as int]@);
        assert(cv.take(i + 1).drop_last() =~= cv.take(i as int));
        assert(cv.take(i + 1).last() == cv[i as int]);
        let ghost prev = crate::model::clips_view(out@);
        if !contains(ids, clips[i].media_ref.as_str()) {
            out.push(clips[i].duplicate());
            assert(crate::model::clips_view(out@) =~= prev + seq![cv[i as int]]);
        } else {
            assert(crate::model::clips_view(out@) =~= prev + Seq::<crate::model::ClipView>::empty());
        }
        i = i + 1;
    }
    assert(cv.take(i as int) =~= cv);
    out
}

/// The listed assets go, with every clip that uses one of them; returns
/// how many clips went.
#[verifier::rlimit(60)]
#[verifier::spinoff_prover]
fn remove_assets(s: &mut EditorState, ids: &Vec<String>) -> (removed_clips: usize)
    ensures
        final(s)@ == (EditorView {
            media_assets: keep_assets(old(s)@.media_assets, crate::tools::remove_clips::strs(ids@)),
            timeline: crate::model::TimelineView {
                tracks: old(s)@.timeline.tracks.map_values(
                    |t: crate::model::TrackView| crate::model::TrackView {
                        clips: keep_media_clips(t.clips, crate::tools::remove_clips::strs(ids@)),
                        ..t
                    },
                ),
                ..old(s)@.timeline
            },
            ..old(s)@
        }),
        media_clip_total(old(s)@.timeline.tracks, crate::tools::remove_clips::strs(ids@)) < usize::MAX ==> removed_clips
            == media_clip_total(old(s)@.timeline.tracks, crate::tools::remove_clips::strs(ids@)),
{
    proof { crate::model::lemma_editor_view(*s); }
    let ghost iv = crate::tools::remove_clips::strs(ids@);
    let ghost s1 = s@;
    // Remaining assets.
    let mut kept: Vec<MediaAsset> = Vec::new();
    let mut i: usize = 0;
    assert(s1.media_assets.take(0) =~= Seq::<AssetView>::empty());
    while i < s.media_assets.len()
        invariant
            0 <= i <= s.media_assets@.len(),
            s@ == s1,
            s1.media_assets == s.media_assets@.map_values(|a: MediaAsset| a@),
            iv == crate::tools::remove_clips::strs(ids@),
            kept@.map_values(|a: MediaAsset| a@) == keep_assets(s1.media_assets.take(i as int), iv),
        decreases s.media_assets.len() - i,
    {
        assert(s1.media_assets[i as int] == s.media_assets@[i as int]@);
        assert(s1.media_assets.take(i + 1).drop_last() =~= s1.media_assets.take(i as int));
        assert(s1.media_assets.take(i + 1).last() == s1.media_assets[i as int]);
        let ghost prev = kept@.map_values(|a: MediaAsset| a@);
        if !contains(ids, s.media_assets[i].id.as_str()) {
            kept.push(s.media_assets[i].duplicate());
            assert(kept@.map_values(|a: MediaAsset| a@) =~= prev + seq![s1.media_assets[i as int]]);
        } else {
            assert(kept@.map_values(|a: MediaAsset| a@) =~= prev + Seq::<AssetView>::empty());
        }
        i = i + 1;
    }
    assert(s1.media_assets.take(i as int) =~= s1.media_assets);
    // Remaining clips.
    let mut removed_clips: usize = 0;
    let mut ti: usize = 0;
    let ghost t1 = s1.timeline;
    while ti < s.timeline.tracks.len()
        invariant
            0 <= ti <= s.timeline.tracks@.len(),
            s.timeline.tracks@.len() == t1.tracks.len(),
            s@ == (EditorView { timeline: s@.timeline, ..s1 }),
            s@.timeline == (crate::model::TimelineView { tracks: s@.timeline.tracks, ..t1 }),
            iv == crate::tools::remove_clips::strs(ids@),
            forall|j: int| 0 <= j < ti ==> #[trigger] s@.timeline.tracks[j] == (crate::model::TrackView { clips: keep_media_clips(t1.tracks[j].clips, iv), ..t1.tracks[j] }),
            forall|j: int| ti <= j < t1.tracks.len() ==> #[trigger] s@.timeline.tracks[j] == t1.tracks[j],
            media_clip_total(t1.tracks.take(ti as int), iv) < usize::MAX ==> removed_clips == media_clip_total(
                t1.tracks.take(ti as int),
                iv,
            ),
        decreases s.timeline.tracks.len() - ti,
    {
        proof {
            crate::model::lemma_editor_view(*s);
            assert(t1.tracks.take(ti + 1).drop_last() =~= t1.tracks.take(ti as int));
            assert(t1.tracks.take(ti + 1).last() == t1.tracks[ti as int]);
            lemma_media_total_grows(t1.tracks.take(ti + 1), iv, ti as int);
            assert(t1.tracks.take(ti + 1).take(ti as int) =~= t1.tracks.take(ti as int));
            lemma_keep_media_len(t1.tracks[ti as int].clips, iv);
        }
        assert(s@.timeline.tracks[ti as int] == s.timeline.tracks@[ti as int]@);
        let kept_clips = drop_media_clips(&s.timeline.tracks[ti].clips, ids);
        let before = s.timeline.tracks[ti].clips.len();
        let after = kept_clips.len();
        if before >= after && removed_clips < usize::MAX - (before - after) {
            removed_clips = removed_clips + (before - after);
        }
        s.timeline.put_clips(ti, kept_clips);
        proof { crate::model::lemma_editor_view(*s); }
        ti = ti + 1;
    }
    proof { crate::model::lemma_editor_view(*s); }
    let ghost tw = crate::model::TimelineView {
        tracks: t1.tracks.map_values(|t: crate::model::TrackView| crate::model::TrackView { clips: keep_media_clips(t.clips, iv), ..t }),
        ..t1
    };
    assert(s@.timeline.tracks =~= tw.tracks);
    let ghost av = kept@.map_values(|a: MediaAsset| a@);
    s.media_assets = kept;
    proof { crate::model::lemma_editor_view(*s); }
    assert(s@.media_assets == av);
    proof {
        assert(t1.tracks.take(ti as int) =~= t1.tracks);
    }
    removed_clips
}

#[verifier::rlimit(60)]
#[verifier::spinoff_prover]
pub fn tool_delete_media(s: &mut EditorState, args: &JsonValue) -> (r: ToolOutcome)
    ensures
        delete_media_outcome(old(s)@, args@, r, final(s)@),
{
    proof { crate::model::lemma_editor_view(*s); }
    let ids = match arg_str_array(args, "assetIds") {
        Ok(v) => v,
        Err(e) => return err(e),
    };
    if ids.len() == 0 {
        return err(string_of("Missing or empty 'assetIds' array"));
    }
    let ghost iv = crate::tools::remove_clips::strs(ids@);
    assert(iv =~= ids@.map_values(|x: String| x@));
    let mut k: usize = 0;
    while k < ids.len()
        invariant
            0 <= k <= ids@.len(),
            iv == crate::tools::remove_clips::strs(ids@),
            spec_arg_str_array(args@, "assetIds"@) == Some(iv),
            iv.len() > 0,
            s@ == old(s)@,
            forall|j: int| 0 <= j < k ==> (#[trigger] spec_find_asset(s@.media_assets, iv[j])) is Some,
        decreases ids.len() - k,
    {
        assert(iv[k as int] == ids@[k as int]@);
        if s.asset_index(ids[k].as_str()).is_none() {
            assert(!assets_found(s@, iv));
            proof { lemma_first_where(iv, |x: Seq<char>| spec_find_asset(s@.media_assets, x) is None, k as int); }
            return err(cat2("Asset not found: ", ids[k].as_str()));
        }
        k = k + 1;
    }
    let distinct = crate::tools::remove_clips::distinct_strs(&ids);
    proof {
        let dv = crate::tools::remove_clips::strs(distinct@);
        dv.unique_seq_to_set();
        assert(dv.to_set() =~= iv.to_set());
    }
    let ghost s_old = s@;
    s.push_library_undo(string_of("Delete Media (Agent)"));
    proof { crate::model::lemma_editor_view(*s); }
    let ghost s1 = s@;
    let removed_assets = distinct.len();
    let removed_clips = remove_assets(s, &ids);
    proof { crate::model::lemma_editor_view(*s); }
    let mut m = string_of("Deleted ");
    push_usize(&mut m, removed_assets);
    push_str(&mut m, if removed_assets == 1 { " asset (also removed " } else { " assets (also removed " });
    push_usize(&mut m, removed_clips);
    push_str(&mut m, if removed_clips == 1 { " timeline clip referencing them)." } else { " timeline clips referencing them)." });
    ok(m)
}

/// One pass over the folders: each folder whose parent is in `d` (as `d`
/// grows during the pass) joins it.
pub open spec fn pass(d: Seq<Seq<char>>, fs: Seq<FolderView>) -> Seq<Seq<char>>
    decreases fs.len(),
{
    if fs.len() == 0 {
        d
    } else {
        let d1 = pass(d, fs.drop_last());
        let f = fs.last();
        if f.parent_folder_id matches Some(p) && d1.contains(p) && !d1.contains(f.id) { d1.push(f.id) } else { d1 }
    }
}

pub open spec fn rounds(d: Seq<Seq<char>>, fs: Seq<FolderView>, k: nat) -> Seq<Seq<char>>
    decreases k,
{
    if k == 0 {
        d
    } else {
        pass(rounds(d, fs, (k - 1) as nat), fs)
    }
}

/// The listed folders and their descendants: the folders reached from them
/// through parent links, in as many passes as there are folders plus one
/// (enough to follow any chain of parents).
pub open spec fn doomed(ids: Seq<Seq<char>>, fs: Seq<FolderView>) -> Seq<Seq<char>> {
    rounds(ids, fs, (fs.len() + 1) as nat)
}

pub open spec fn folders_found(s: EditorView, ids: Seq<Seq<char>>) -> bool {
    forall|k: int| 0 <= k < ids.len() ==> (#[trigger] spec_find_folder(s.folders, ids[k])) is Some
}

/// The folders whose id is not in `d`.
pub open spec fn keep_folders(fs: Seq<FolderView>, d: Seq<Seq<char>>) -> Seq<FolderView>
    decreases fs.len(),
{
    if fs.len() == 0 {
        fs
    } else {
        keep_folders(fs.drop_last(), d) + if d.contains(fs.last().id) { Seq::<FolderView>::empty() } else { seq![fs.last()] }
    }
}

/// The ids of the assets that sit in one of the folders `d`, in order.
pub open spec fn assets_in(assets: Seq<AssetView>, d: Seq<Seq<char>>) -> Seq<Seq<char>>
    decreases assets.len(),
{
    if assets.len() == 0 {
        Seq::empty()
    } else {
        assets_in(assets.drop_last(), d) + if assets.last().folder_id matches Some(f) && d.contains(f) {
            seq![assets.last().id]
        } else {
            Seq::<Seq<char>>::empty()
        }
    }
}

/// The summary of a successful `delete_folder`: how many folders went
/// (descendants included), how many assets inside them went, and how many
/// clips used those assets.
pub open spec fn delete_folder_message(s: EditorView, args: Json) -> Seq<char> {
    let d = doomed(spec_arg_str_array(args, "folderIds"@)->0, s.folders);
    let c = d.to_set().len();
    let gone = assets_in(s.media_assets, d);
    let a = gone.len();
    let k = media_clip_total(s.timeline.tracks, gone) as nat;
    "Deleted "@ + dec_nat(c) + (if c == 1 { " folder (also deleted "@ } else { " folders (also deleted "@ }) + dec_nat(a) + (if a
        == 1 {
        " asset and "@
    } else {
        " assets and "@
    }) + dec_nat(k) + if k == 1 {
        " timeline clip)."@
    } else {
        " timeline clips)."@
    }
}

/// Everything `delete_folder` answers and leaves: the effect and summary,
/// and the message for a bad id list or the first id that names no folder.
pub open spec fn delete_folder_outcome(s: EditorView, args: Json, r: ToolOutcome, n: EditorView) -> bool {
    &&& match delete_folder_effect(s, args) {
        None => r is Error && n == s,
        Some(x) => n == x && !(r is Error) && (media_clip_total(
            s.timeline.tracks,
            assets_in(s.media_assets, doomed(spec_arg_str_array(args, "folderIds"@)->0, s.folders)),
        ) < usize::MAX ==> (r matches ToolOutcome::Text(m) && m@ == delete_folder_message(s, args))),
    }
    &&& match spec_arg_str_array(args, "folderIds"@) {
        None => r matches ToolOutcome::Error(m) && m@ == str_array_error(args, "folderIds"@),
        Some(ids) => if ids.len() == 0 {
            r matches ToolOutcome::Error(m) && m@ == "Missing or empty 'folderIds' array"@
        } else {
            first_where(ids, |x: Seq<char>| spec_find_folder(s.folders, x) is None) matches Some(k) ==> (r matches ToolOutcome::Error(
                m,
            ) && m@ == "Folder not found: "@ + ids[k])
        },
    }
}

/// What `delete_folder` does: the listed folders and their descendants go,
/// with every asset inside them and every clip that uses one of those
/// assets. `None` for an error.
pub open spec fn delete_folder_effect(s: EditorView, args: Json) -> Option<EditorView> {
    match spec_arg_str_array(args, "folderIds"@) {
        None => None,
        Some(ids) => if ids.len() == 0 || !folders_found(s, ids) {
            None
        } else {
            let one = forall|k: int| 0 <= k < ids.len() ==> #[trigger] ids[k] == ids[0];
            let s1 = with_undo(s, if one { "Delete Folder (Agent)"@ } else { "Delete Folders (Agent)"@ });
            let d = doomed(ids, s.folders);
            let gone = assets_in(s.media_assets, d);
            Some(
                EditorView {
                    media_assets: keep_assets(s.media_assets, gone),
                    timeline: crate::model::TimelineView {
                        tracks: s.timeline.tracks.map_values(
                            |t: crate::model::TrackView| crate::model::TrackView { clips: keep_media_clips(t.clips, gone), ..t },
                        ),
                        ..s.timeline
                    },
                    folders: keep_folders(s.folders, d),
                    ..s1
                },
            )
        },
    }
}

/// One pass of [`pass`].
fn run_pass(d: Vec<String>, fs: &Vec<Folder>) -> (r: Vec<String>)
    ensures
        crate::tools::remove_clips::strs(r@) == pass(crate::tools::remove_clips::strs(d@), fs@.map_values(|f: Folder| f@)),
{
    let ghost fv = fs@.map_values(|f: Folder| f@);
    let ghost d0 = crate::tools::remove_clips::strs(d@);
    let mut cur = d;
    let mut i: usize = 0;
    assert(fv.take(0) =~= Seq::<FolderView>::empty());
    while i < fs.len()
        invariant
            0 <= i <= fs@.len(),
            fv == fs@.map_values(|f: Folder| f@),
            crate::tools::remove_clips::strs(cur@) == pass(d0, fv.take(i as int)),
        decreases fs.len() - i,
    {
        assert(fv[i as int] == fs@[i as int]@);
        assert(fv.take(i + 1).drop_last() =~= fv.take(i as int));
        assert(fv.take(i + 1).last() == fv[i as int]);
        let f = &fs[i];
        let ghost prev = crate::tools::remove_clips::strs(cur@);
        match &f.parent_folder_id {
            Some(p) => if contains(&cur, p.as_str()) && !contains(&cur, f.id.as_str()) {
                cur.push(f.id.clone());
                assert(crate::tools::remove_clips::strs(cur@) =~= prev.push(f@.id));
            },
            None => {},
        }
        i = i + 1;
    }
    assert(fv.take(i as int) =~= fv);
    cur
}

#[verifier::rlimit(90)]
#[verifier::spinoff_prover]
pub fn tool_delete_folder(s: &mut EditorState, args: &JsonValue) -> (r: ToolOutcome)
    ensures
        delete_folder_outcome(old(s)@, args@, r, final(s)@),
{
    proof { crate::model::lemma_editor_view(*s); }
    let ids = match arg_str_array(args, "folderIds") {
        Ok(v) => v,
        Err(e) => return err(e),
    };
    if ids.len() == 0 {
        return err(string_of("Missing or empty 'folderIds' array"));
    }
    let ghost iv = crate::tools::remove_clips::strs(ids@);
    assert(iv =~= ids@.map_values(|x: String| x@));
    let mut k: usize = 0;
    let mut one = true;
    while k < ids.len()
        invariant
            0 <= k <= ids@.len(),
            iv == crate::tools::remove_clips::strs(ids@),
            spec_arg_str_array(args@, "folderIds"@) == Some(iv),
            iv.len() > 0,
            s@ == old(s)@,
            forall|j: int| 0 <= j < k ==> (#[trigger] spec_find_folder(s@.folders, iv[j])) is Some,
            one == forall|j: int| 0 <= j < k ==> #[trigger] iv[j] == iv[0],
        decreases ids.len() - k,
    {
        assert(iv[k as int] == ids@[k as int]@);
        if s.folder_index(ids[k].as_str()).is_none() {
            assert(!folders_found(s@, iv));
            proof { lemma_first_where(iv, |x: Seq<char>| spec_find_folder(s@.folders, x) is None, k as int); }
            return err(cat2("Folder not found: ", ids[k].as_str()));
        }
        let same = crate::text::str_eq(ids[k].as_str(), ids[0].as_str());
        assert(iv[0] == ids@[0]@);
        if !same {
            assert(!(iv[k as int] == iv[0]));
            one = false;
        }
        k = k + 1;
    }
    let distinct_listed = crate::tools::remove_clips::distinct_strs(&ids);
    let name = if distinct_listed.len() == 1 { "Delete Folder (Agent)" } else { "Delete Folders (Agent)" };
    proof {
        let dv = crate::tools::remove_clips::strs(distinct_listed@);
        if one {
            assert forall|x: Seq<char>| dv.contains(x) implies x == iv[0] by {
                assert(iv.contains(x));
                let j = choose|j: int| 0 <= j < iv.len() && iv[j] == x;
                assert(iv[j] == iv[0]);
            }
            assert(iv.contains(iv[0]));
            assert(dv.contains(iv[0]));
            if dv.len() != 1 {
                assert(dv.len() >= 2);
                assert(dv[0] != dv[1]);
                assert(dv.contains(dv[0]) && dv.contains(dv[1]));
            }
        } else {
            let j = choose|j: int| 0 <= j < iv.len() && !(#[trigger] iv[j] == iv[0]);
            assert(iv.contains(iv[j]) && iv.contains(iv[0]));
            assert(dv.contains(iv[j]) && dv.contains(iv[0]));
            if dv.len() == 1 {
                let a = choose|a: int| 0 <= a < dv.len() && dv[a] == iv[j];
                let b = choose|b: int| 0 <= b < dv.len() && dv[b] == iv[0];
            }
        }
    }
    s.push_library_undo(string_of(name));
    proof { crate::model::lemma_editor_view(*s); }
    let ghost s1 = s@;
    let ghost fv = s1.folders;
    let mut d = ids.clone();
    assert(crate::tools::remove_clips::strs(d@) == iv);
    let n_rounds = s.folders.len();
    assert(fv == s.folders@.map_values(|f: Folder| f@));
    d = run_pass(d, &s.folders);
    assert(rounds(iv, fv, 1) == pass(rounds(iv, fv, 0), fv));
    let mut r: usize = 0;
    while r < n_rounds
        invariant
            0 <= r <= n_rounds,
            n_rounds == fv.len(),
            s@ == s1,
            fv == s.folders@.map_values(|f: Folder| f@),
            crate::tools::remove_clips::strs(d@) == rounds(iv, fv, (r + 1) as nat),
        decreases n_rounds - r,
    {
        proof { crate::model::lemma_editor_view(*s); }
        d = run_pass(d, &s.folders);
        r = r + 1;
    }
    let ghost dv = crate::tools::remove_clips::strs(d@);
    assert(dv == doomed(iv, fv));
    // The assets inside the deleted folders.
    let mut gone_ids: Vec<String> = Vec::new();
    let mut i: usize = 0;
    assert(s1.media_assets.take(0) =~= Seq::<AssetView>::empty());
    while i < s.media_assets.len()
        invariant
            0 <= i <= s.media_assets@.len(),
            s@ == s1,
            s1.media_assets == s.media_assets@.map_values(|a: MediaAsset| a@),
            dv == crate::tools::remove_clips::strs(d@),
            crate::tools::remove_clips::strs(gone_ids@) == assets_in(s1.media_assets.take(i as int), dv),
        decreases s.media_assets.len() - i,
    {
        assert(s1.media_assets[i as int] == s.media_assets@[i as int]@);
        assert(s1.media_assets.take(i + 1).drop_last() =~= s1.media_assets.take(i as int));
        assert(s1.media_assets.take(i + 1).last() == s1.media_assets[i as int]);
        let ghost prev = crate::tools::remove_clips::strs(gone_ids@);
        let hit = match &s.media_assets[i].folder_id {
            Some(f) => contains(&d, f.as_str()),
            None => false,
        };
        if hit {
            gone_ids.push(s.media_assets[i].id.clone());
            assert(crate::tools::remove_clips::strs(gone_ids@) =~= prev + seq![s1.media_assets[i as int].id]);
        } else {
            assert(crate::tools::remove_clips::strs(gone_ids@) =~= prev + Seq::<Seq<char>>::empty());
        }
        i = i + 1;
    }
    assert(s1.media_assets.take(i as int) =~= s1.media_assets);
    let ghost gv = crate::tools::remove_clips::strs(gone_ids@);
    let n_assets = gone_ids.len();
    let removed_clips = remove_assets(s, &gone_ids);
    proof { crate::model::lemma_editor_view(*s); }
    assert(s@.folders == s1.folders);
    assert(s.folders@.map_values(|f: Folder| f@) == fv);
    let ghost s2 = s@;
    // Remaining folders.
    let mut kept: Vec<Folder> = Vec::new();
    let mut j: usize = 0;
    assert(fv.take(0) =~= Seq::<FolderView>::empty());
    while j < s.folders.len()
        invariant
            0 <= j <= s.folders@.len(),
            s@ == s2,
            fv == s.folders@.map_values(|f: Folder| f@),
            dv == crate::tools::remove_clips::strs(d@),
            kept@.map_values(|f: Folder| f@) == keep_folders(fv.take(j as int), dv),
        decreases s.folders.len() - j,
    {
        assert(fv[j as int] == s.folders@[j as int]@);
        assert(fv.take(j + 1).drop_last() =~= fv.take(j as int));
        assert(fv.take(j + 1).last() == fv[j as int]);
        let ghost prev = kept@.map_values(|f: Folder| f@);
        if !contains(&d, s.folders[j].id.as_str()) {
            let f = Folder {
                id: s.folders[j].id.clone(),
                name: s.folders[j].name.clone(),
                parent_folder_id: crate::model::dup_opt_string(&s.folders[j].parent_folder_id),
            };
            kept.push(f);
            assert(kept@.map_values(|f: Folder| f@) =~= prev + seq![fv[j as int]]);
        } else {
            assert(kept@.map_values(|f: Folder| f@) =~= prev + Seq::<FolderView>::empty());
        }
        j = j + 1;
    }
    assert(fv.take(j as int) =~= fv);
    let ghost kv = kept@.map_values(|f: Folder| f@);
    s.folders = kept;
    proof { crate::model::lemma_editor_view(*s); }
    assert(s@.folders == kv);
    let gone = crate::tools::remove_clips::distinct_strs(&d);
    proof {
        let gv = crate::tools::remove_clips::strs(gone@);
        gv.unique_seq_to_set();
        assert(gv.to_set() =~= dv.to_set());
    }
    let count = gone.len();
    let mut m = string_of("Deleted ");
    push_usize(&mut m, count);
    push_str(&mut m, if count == 1 { " folder (also deleted " } else { " folders (also deleted " });
    push_usize(&mut m, n_assets);
    push_str(&mut m, if n_assets == 1 { " asset and " } else { " assets and " });
    push_usize(&mut m, removed_clips);
    push_str(&mut m, if removed_clips == 1 { " timeline clip)." } else { " timeline clips)." });
    ok(m)
}

} // verus!
