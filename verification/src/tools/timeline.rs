//! Timeline mutation tools: split, undo, track removal, keyframes.

use vstd::prelude::*;
use crate::edit::{left_piece, right_piece, sort_by_start, sort_clips};
use crate::json::{Json, JsonValue, json_of_seq, lemma_json_of_seq};
use crate::model::{Clip, ClipView, EditorState, EditorView, Timeline, TimelineView, TrackView, UndoView, tracks_view, clip_end, clips_view, minted_id, spec_find_clip, timeline_fits, with_clips};
use crate::text::{dec_int, dec_nat, string_of};
use crate::tools::args::{
    ToolOutcome, arg_i64, arg_str, cat2, cat3, cat_int, cat_usize, err, indexed, missing_integer, missing_string, ok, spec_arg_array,
    spec_arg_int, spec_arg_str,
};

verus! {

broadcast use crate::model::lemma_editor_view;

/// Error text when a frame computation would overflow.
pub open spec fn overflow_message() -> Seq<char> {
    "Frame arithmetic overflow"@
}

pub fn overflow_error() -> (r: ToolOutcome)
    ensures
        r matches ToolOutcome::Error(m) && m@ == overflow_message(),
{
    err(string_of("Frame arithmetic overflow"))
}

/// The state after an agent edit named `name` turned the timeline into `t`:
/// the previous timeline is pushed onto the undo stack.
pub open spec fn edited(s: EditorView, name: Seq<char>, t: TimelineView) -> EditorView {
    EditorView {
        timeline: t,
        undo_stack: s.undo_stack.push(
            UndoView { action_name: name, timeline_snapshot: s.timeline, library_snapshot: None },
        ),
        ..s
    }
}

// ---------------------------------------------------------------------------
// split_clip
// ---------------------------------------------------------------------------

/// What `split_clip` does: `None` for an error (the state is left as it
/// was), else the new state.
pub open spec fn split_clip_effect(s: EditorView, args: Json) -> Option<EditorView> {
    match (spec_arg_str(args, "clipId"@), spec_arg_int(args, "atFrame"@)) {
        (Some(id), Some(at)) => match spec_find_clip(s.timeline, id) {
            Some((ti, ci)) => {
                let c = s.timeline.tracks[ti as int].clips[ci as int];
                if at <= c.start_frame || at >= clip_end(c) || c.trim_start_frame + (at - c.start_frame)
                    > i64::MAX {
                    None
                } else {
                    let n = (s.id_counter + 1) as nat;
                    let left = left_piece(c, at as int);
                    let right = ClipView { id: minted_id("clip"@, n), ..right_piece(c, at as int) };
                    let clips = s.timeline.tracks[ti as int].clips.update(ci as int, left).push(right);
                    Some(EditorView {
                        id_counter: n as u64,
                        ..edited(s, "Split Clip (Agent)"@, with_clips(s.timeline, ti as int, sort_by_start(clips)))
                    })
                }
            },
            None => None,
        },
        _ => None,
    }
}

/// The summary of a successful `split_clip`.
pub open spec fn split_message(s: EditorView, args: Json) -> Seq<char> {
    "Split clip "@ + spec_arg_str(args, "clipId"@)->0 + " at frame "@ + dec_int(spec_arg_int(args, "atFrame"@)->0 as int)
        + "; new clip "@ + minted_id("clip"@, (s.id_counter + 1) as nat) + "."@
}

/// Everything `split_clip` answers and leaves: the effect and summary, and
/// the message of each error (a missing argument, an unknown clip, a frame
/// outside the clip, an overflowing source offset).
pub open spec fn split_outcome(s: EditorView, args: Json, r: ToolOutcome, n: EditorView) -> bool {
    &&& match split_clip_effect(s, args) {
        None => r is Error && n == s,
        Some(x) => n == x && (r matches ToolOutcome::Text(m) && m@ == split_message(s, args)),
    }
    &&& match (spec_arg_str(args, "clipId"@), spec_arg_int(args, "atFrame"@)) {
        (None, _) => r matches ToolOutcome::Error(m) && m@ == missing_string("clipId"@),
        (Some(_), None) => r matches ToolOutcome::Error(m) && m@ == missing_integer("atFrame"@),
        (Some(id), Some(at)) => match spec_find_clip(s.timeline, id) {
            None => r matches ToolOutcome::Error(m) && m@ == "Clip not found: "@ + id,
            Some((ti, ci)) => {
                let c = s.timeline.tracks[ti as int].clips[ci as int];
                if at <= c.start_frame || at >= clip_end(c) {
                    r matches ToolOutcome::Error(m) && m@ == "atFrame "@ + dec_int(at as int) + " is outside clip "@ + id
                        + " range ["@ + dec_int(c.start_frame as int) + ".."@ + dec_int(clip_end(c)) + ")"@
                } else if c.trim_start_frame + (at - c.start_frame) > i64::MAX {
                    r matches ToolOutcome::Error(m) && m@ == overflow_message()
                } else {
                    true
                }
            },
        },
    }
}

/// The state after splitting clip `ci` of track `ti` at `at`.
pub open spec fn split_state(s: EditorView, ti: int, ci: int, at: int) -> EditorView {
    let c = s.timeline.tracks[ti].clips[ci];
    let n = (s.id_counter + 1) as nat;
    let left = left_piece(c, at);
    let right = ClipView { id: minted_id("clip"@, n), ..right_piece(c, at) };
    let clips = s.timeline.tracks[ti].clips.update(ci, left).push(right);
    EditorView {
        id_counter: n as u64,
        ..edited(s, "Split Clip (Agent)"@, with_clips(s.timeline, ti, sort_by_start(clips)))
    }
}

#[verifier::rlimit(50)]
fn apply_split(s: &mut EditorState, ti: usize, ci: usize, at_frame: i64) -> (new_id: String)
    requires
        ti < old(s)@.timeline.tracks.len(),
        ci < old(s)@.timeline.tracks[ti as int].clips.len(),
        old(s)@.timeline.tracks[ti as int].clips[ci as int].start_frame < at_frame < clip_end(
            old(s)@.timeline.tracks[ti as int].clips[ci as int],
        ),
        old(s)@.timeline.tracks[ti as int].clips[ci as int].trim_start_frame + (at_frame
            - old(s)@.timeline.tracks[ti as int].clips[ci as int].start_frame) <= i64::MAX,
        old(s)@.timeline.tracks[ti as int].clips[ci as int].trim_start_frame + (at_frame
            - old(s)@.timeline.tracks[ti as int].clips[ci as int].start_frame) >= i64::MIN,
        old(s)@.id_counter < u64::MAX,
    ensures
        final(s)@ == split_state(old(s)@, ti as int, ci as int, at_frame as int),
        new_id@ == minted_id("clip"@, (old(s)@.id_counter + 1) as nat),
{
    let ghost s0 = s@;
    s.push_undo(string_of("Split Clip (Agent)"));
    proof { crate::model::lemma_editor_view(*s); }
    let mut clips = s.timeline.take_clips(ti);
    proof { crate::model::lemma_editor_view(*s); }
    let mut left = clips.remove(ci);
    let mut right = left.duplicate();
    let cut = at_frame - left.start_frame;
    left.duration_frames = cut;
    let new_id = s.mint_id("clip");
    proof { crate::model::lemma_editor_view(*s); }
    right.id = new_id.clone();
    right.start_frame = at_frame;
    right.duration_frames = right.duration_frames - cut;
    right.trim_start_frame = right.trim_start_frame + cut;
    clips.insert(ci, left);
    clips.push(right);
    let ghost cv = s0.timeline.tracks[ti as int].clips;
    assert(clips_view(clips@) =~= cv.update(ci as int, left_piece(cv[ci as int], at_frame as int)).push(
        ClipView { id: minted_id("clip"@, (s0.id_counter + 1) as nat), ..right_piece(cv[ci as int], at_frame as int) },
    ));
    let sorted = sort_clips(clips);
    let ghost sv = clips_view(sorted@);
    s.timeline.put_clips(ti, sorted);
    proof {
        crate::model::lemma_editor_view(*s);
        let expected = with_clips(s0.timeline, ti as int, sv);
        assert(s@.timeline.tracks =~= expected.tracks);
        assert(s@.timeline == expected);
    }
    new_id
}

#[verifier::rlimit(50)]
#[verifier::spinoff_prover]
pub fn tool_split_clip(s: &mut EditorState, args: &JsonValue) -> (r: ToolOutcome)
    requires
        timeline_fits(old(s)@.timeline),
        old(s)@.id_counter < u64::MAX,
    ensures
        split_outcome(old(s)@, args@, r, final(s)@),
{
    let clip_id = match arg_str(args, "clipId") {
        Ok(r) => r,
        Err(e) => return err(e),
    };
    let at_frame = match arg_i64(args, "atFrame") {
        Ok(v) => v,
        Err(e) => return err(e),
    };
    let (ti, ci) = match s.timeline.find_clip(clip_id.as_str()) {
        Some(loc) => loc,
        None => return err(cat2("Clip not found: ", clip_id.as_str())),
    };
    proof { crate::model::lemma_editor_view(*s); }
    let ghost c = s@.timeline.tracks[ti as int].clips[ci as int];
    assert(s.timeline@.tracks[ti as int] == s.timeline.tracks@[ti as int]@);
    let clip = &s.timeline.tracks[ti].clips[ci];
    assert(c == clip@);
    assert(timeline_fits(s@.timeline));
    assert(crate::model::all_fit(s@.timeline.tracks[ti as int].clips));
    let c_end = clip.end_frame();
    let c_start = clip.start_frame;
    if at_frame <= c_start || at_frame >= c_end {
        let mut m = cat_int("atFrame ", at_frame, " is outside clip ");
        crate::text::push_str(&mut m, clip_id.as_str());
        crate::text::push_str(&mut m, " range [");
        crate::text::push_i64(&mut m, c_start);
        crate::text::push_str(&mut m, "..");
        crate::text::push_i64(&mut m, c_end);
        crate::text::push_str(&mut m, ")");
        return err(m);
    }
    let cut = at_frame - c_start;
    if clip.trim_start_frame.checked_add(cut).is_none() {
        return overflow_error();
    }
    let name = clip_id.clone();
    let new_id = apply_split(s, ti, ci, at_frame);
    let mut m = cat3("Split clip ", name.as_str(), " at frame ");
    crate::text::push_i64(&mut m, at_frame);
    crate::text::push_str(&mut m, "; new clip ");
    crate::text::push_str(&mut m, new_id.as_str());
    crate::text::push_str(&mut m, ".");
    ok(m)
}

// ---------------------------------------------------------------------------
// Committing an edit
// ---------------------------------------------------------------------------

/// Installs `t` as the timeline and pushes the previous one onto the undo
/// stack under `name`.
pub(crate) fn commit(s: &mut EditorState, name: String, t: Timeline)
    ensures
        final(s)@ == edited(old(s)@, name@, t@),
{
    proof { crate::model::lemma_editor_view(*s); }
    let ghost s0 = s@;
    s.push_undo(name);
    proof { crate::model::lemma_editor_view(*s); }
    s.timeline = t;
    proof { crate::model::lemma_editor_view(*s); }
}

// ---------------------------------------------------------------------------
// undo
// ---------------------------------------------------------------------------

/// What `undo` does: `None` when there is nothing to undo, else the state
/// with the last snapshot restored and popped; assets and folders come
/// back only from a snapshot that holds them.
pub open spec fn undo_effect(s: EditorView) -> Option<EditorView> {
    if s.undo_stack.len() == 0 {
        None
    } else {
        Some(
            EditorView {
                timeline: s.undo_stack.last().timeline_snapshot,
                media_assets: match s.undo_stack.last().library_snapshot {
                    Some(l) => l.0,
                    None => s.media_assets,
                },
                folders: match s.undo_stack.last().library_snapshot {
                    Some(l) => l.1,
                    None => s.folders,
                },
                undo_stack: s.undo_stack.drop_last(),
                ..s
            },
        )
    }
}

pub fn tool_undo(s: &mut EditorState) -> (r: ToolOutcome)
    ensures
        match undo_effect(old(s)@) {
            None => final(s)@ == old(s)@ && (r matches ToolOutcome::Error(m) && m@
                == "No assistant edit to undo this session. The user's own edits are theirs to undo."@),
            Some(n) => final(s)@ == n && (r matches ToolOutcome::Text(m) && m@ == "Undid: "@
                + old(s)@.undo_stack.last().action_name
                + ". The timeline is restored to its state before that edit; re-read with get_timeline or get_transcript before editing again."@),
        },
{
    match s.undo() {
        Ok(entry) => ok(cat3("Undid: ", entry.action_name.as_str(),
            ". The timeline is restored to its state before that edit; re-read with get_timeline or get_transcript before editing again.")),
        Err(msg) => err(string_of(msg)),
    }
}

// ---------------------------------------------------------------------------
// remove_tracks
// ---------------------------------------------------------------------------

/// The tracks whose index is not listed.
pub open spec fn kept_tracks(t: Seq<TrackView>, idx: Seq<i64>) -> Seq<TrackView>
    decreases t.len(),
{
    if t.len() == 0 {
        t
    } else {
        kept_tracks(t.drop_last(), idx) + if idx.contains((t.len() - 1) as i64) {
            Seq::<TrackView>::empty()
        } else {
            seq![t.last()]
        }
    }
}

/// The listed indexes, when every item is an integer naming a track.
pub open spec fn valid_track_indexes(items: Seq<Json>, n: int) -> bool {
    forall|i: int| 0 <= i < items.len() ==> ((#[trigger] items[i]).as_int() matches Some(k) && 0 <= k < n)
}

/// How many different values `s` holds.
pub open spec fn distinct_count(s: Seq<i64>) -> nat
    decreases s.len(),
{
    if s.len() == 0 {
        0
    } else {
        distinct_count(s.drop_last()) + if s.drop_last().contains(s.last()) { 0nat } else { 1nat }
    }
}

/// The summary of a successful `remove_tracks`: how many different tracks
/// it removed.
pub open spec fn remove_tracks_message(args: Json) -> Seq<char> {
    let n = distinct_count(spec_arg_array(args, "trackIndexes"@)->0.map_values(|x: Json| x.as_int()->0));
    "Removed "@ + dec_nat(n) + if n == 1 {
        " track — remaining track indexes have shifted; re-read with get_timeline before next index-based call."@
    } else {
        " tracks — remaining track indexes have shifted; re-read with get_timeline before next index-based call."@
    }
}

/// The first listed item that is not an integer naming a track.
pub open spec fn first_bad_track_index(items: Seq<Json>, n: int) -> Option<int>
    decreases items.len(),
{
    if items.len() == 0 {
        None
    } else {
        match first_bad_track_index(items.drop_last(), n) {
            Some(i) => Some(i),
            None => if items.last().as_int() matches Some(k) && 0 <= k < n {
                None
            } else {
                Some(items.len() - 1)
            },
        }
    }
}

proof fn lemma_first_bad_none(items: Seq<Json>, n: int)
    requires
        forall|j: int| 0 <= j < items.len() ==> ((#[trigger] items[j]).as_int() matches Some(k) && 0 <= k < n),
    ensures
        first_bad_track_index(items, n) is None,
    decreases items.len(),
{
    if items.len() > 0 {
        assert forall|j: int| 0 <= j < items.drop_last().len() implies ((#[trigger] items.drop_last()[j]).as_int() matches Some(
            k,
        ) && 0 <= k < n) by {
            assert(items.drop_last()[j] == items[j]);
        }
        lemma_first_bad_none(items.drop_last(), n);
        assert(items.last() == items[items.len() - 1]);
    }
}

proof fn lemma_first_bad_at(items: Seq<Json>, n: int, i: int)
    requires
        0 <= i < items.len(),
        forall|j: int| 0 <= j < i ==> ((#[trigger] items[j]).as_int() matches Some(k) && 0 <= k < n),
        !(items[i].as_int() matches Some(k) && 0 <= k < n),
    ensures
        first_bad_track_index(items, n) == Some(i),
    decreases items.len(),
{
    let d = items.drop_last();
    if i == items.len() - 1 {
        assert forall|j: int| 0 <= j < d.len() implies ((#[trigger] d[j]).as_int() matches Some(k) && 0 <= k < n) by {
            assert(d[j] == items[j]);
        }
        lemma_first_bad_none(d, n);
        assert(items.last() == items[i]);
    } else {
        assert forall|j: int| 0 <= j < i implies ((#[trigger] d[j]).as_int() matches Some(k) && 0 <= k < n) by {
            assert(d[j] == items[j]);
        }
        assert(d[i] == items[i]);
        lemma_first_bad_at(d, n, i);
    }
}

/// Everything `remove_tracks` answers and leaves: the effect and summary,
/// and the message for a missing list or for its first bad item.
pub open spec fn remove_tracks_outcome(s: EditorView, args: Json, r: ToolOutcome, n: EditorView) -> bool {
    &&& match remove_tracks_effect(s, args) {
        None => r is Error && n == s,
        Some(x) => n == x && (r matches ToolOutcome::Text(m) && m@ == remove_tracks_message(args)),
    }
    &&& match spec_arg_array(args, "trackIndexes"@) {
        None => r matches ToolOutcome::Error(m) && m@ == "Missing or empty 'trackIndexes' array"@,
        Some(items) => if items.len() == 0 {
            r matches ToolOutcome::Error(m) && m@ == "Missing or empty 'trackIndexes' array"@
        } else {
            let nt = s.timeline.tracks.len() as int;
            match first_bad_track_index(items, nt) {
                None => true,
                Some(i) => r matches ToolOutcome::Error(m) && m@ == "trackIndexes"@ + "["@ + dec_nat(i as nat) + "]"@ + match items[i].as_int() {
                    None => ": expected integer"@,
                    Some(k) => ": index "@ + dec_int(k as int) + " out of range (0.."@ + dec_nat(if nt == 0 { 0 } else { (nt - 1) as nat })
                        + ")"@,
                },
            }
        },
    }
}

pub open spec fn remove_tracks_effect(s: EditorView, args: Json) -> Option<EditorView> {
    match spec_arg_array(args, "trackIndexes"@) {
        Some(items) => if items.len() > 0 && valid_track_indexes(items, s.timeline.tracks.len() as int) {
            let idx = items.map_values(|x: Json| x.as_int()->0);
            let name = if forall|i: int| 0 <= i < idx.len() ==> #[trigger] idx[i] == idx[0] {
                "Remove Track (Agent)"@
            } else {
                "Remove Tracks (Agent)"@
            };
            Some(edited(s, name, TimelineView { tracks: kept_tracks(s.timeline.tracks, idx), ..s.timeline }))
        } else {
            None
        },
        None => None,
    }
}

fn keep_unlisted(tracks: Vec<crate::model::Track>, idx: &Vec<i64>) -> (r: Vec<crate::model::Track>)
    ensures
        tracks_view(r@) == kept_tracks(tracks_view(tracks@), idx@),
{
    let ghost orig = tracks_view(tracks@);
    assert(orig.len() == tracks.len());
    let mut rest = tracks;
    let mut out: Vec<crate::model::Track> = Vec::new();
    let mut k: usize = 0;
    while rest.len() > 0
        invariant
            orig.len() == k + rest@.len(),
            orig.len() <= usize::MAX,
            tracks_view(rest@) == orig.subrange(k as int, orig.len() as int),
            tracks_view(out@) == kept_tracks(orig.take(k as int), idx@),
        decreases rest.len(),
    {
        let ghost rv = rest@;
        let t = rest.remove(0);
        assert(t@ == orig[k as int]) by {
            assert(tracks_view(rv)[0] == orig.subrange(k as int, orig.len() as int)[0]);
        }
        assert forall|j: int| 0 <= j < rest@.len() implies #[trigger] tracks_view(rest@)[j]
            == orig.subrange(k + 1, orig.len() as int)[j] by {
            assert(rest@[j] == rv[j + 1]);
            assert(tracks_view(rv)[j + 1] == orig.subrange(k as int, orig.len() as int)[j + 1]);
        }
        assert(tracks_view(rest@) =~= orig.subrange(k + 1, orig.len() as int));
        let mut listed = false;
        let mut j: usize = 0;
        while j < idx.len()
            invariant
                0 <= j <= idx@.len(),
                listed == exists|m: int| 0 <= m < j && idx@[m] == k as i64,
            decreases idx.len() - j,
        {
            if idx[j] == k as i64 {
                listed = true;
            }
            j = j + 1;
        }
        assert(listed == idx@.contains(k as i64));
        let ghost before = tracks_view(out@);
        let ghost tv = t@;
        if !listed {
            out.push(t);
        }
        assert(orig.take(k + 1).drop_last() =~= orig.take(k as int));
        assert(orig.take(k + 1).last() == orig[k as int]);
        assert(tracks_view(out@) =~= before + if idx@.contains(k as i64) {
            Seq::<TrackView>::empty()
        } else {
            seq![tv]
        });
        k = k + 1;
    }
    assert(orig.take(k as int) =~= orig);
    out
}

#[verifier::rlimit(50)]
#[verifier::spinoff_prover]
pub fn tool_remove_tracks(s: &mut EditorState, args: &JsonValue) -> (r: ToolOutcome)
    ensures
        remove_tracks_outcome(old(s)@, args@, r, final(s)@),
{
    proof { crate::model::lemma_editor_view(*s); }
    let indexes = match crate::tools::args::arg_array(args, "trackIndexes") {
        Some(a) => a,
        None => return err(string_of("Missing or empty 'trackIndexes' array")),
    };
    if indexes.len() == 0 {
        return err(string_of("Missing or empty 'trackIndexes' array"));
    }
    let ghost items = json_of_seq(indexes@);
    proof { lemma_json_of_seq(indexes@); }
    let n_tracks = s.timeline.tracks.len();
    let mut idx: Vec<i64> = Vec::new();
    let mut all_same = true;
    let mut i: usize = 0;
    while i < indexes.len()
        invariant
            0 <= i <= indexes@.len(),
            items == json_of_seq(indexes@),
            items == spec_arg_array(args@, "trackIndexes"@)->0,
            spec_arg_array(args@, "trackIndexes"@) is Some,
            items.len() > 0,
            s@ == old(s)@,
            items.len() == indexes@.len(),
            forall|j: int| 0 <= j < indexes@.len() ==> #[trigger] items[j] == indexes@[j]@,
            n_tracks == old(s)@.timeline.tracks.len(),
            idx@.len() == i,
            forall|j: int| 0 <= j < i ==> ((#[trigger] items[j]).as_int() matches Some(k) && 0 <= k < n_tracks
                && idx@[j] == k),
            all_same == (forall|j: int| 0 <= j < i ==> #[trigger] idx@[j] == idx@[0]),
        decreases indexes.len() - i,
    {
        assert(items[i as int] == indexes@[i as int]@);
        let n = match indexes[i].as_int() {
            Some(n) => n,
            None => {
                assert(!valid_track_indexes(items, n_tracks as int)) by {
                    assert(items[i as int].as_int() is None);
                }
                proof { lemma_first_bad_at(items, n_tracks as int, i as int); }
                let p = indexed("trackIndexes", i);
                return err(cat2(p.as_str(), ": expected integer"));
            },
        };
        if n < 0 || (n as u64) >= (n_tracks as u64) {
            assert(!valid_track_indexes(items, n_tracks as int)) by {
                assert(items[i as int].as_int() == Some(n));
            }
            proof { lemma_first_bad_at(items, n_tracks as int, i as int); }
            let p = indexed("trackIndexes", i);
            let mut m = cat_int(": index ", n, " out of range (0..");
            crate::text::push_usize(&mut m, if n_tracks == 0 { 0 } else { n_tracks - 1 });
            crate::text::push_str(&mut m, ")");
            let full = cat2(p.as_str(), m.as_str());
            assert(full@ =~= "trackIndexes"@ + "["@ + dec_nat(i as nat) + "]"@ + (": index "@ + dec_int(n as int) + " out of range (0.."@
                + dec_nat(if n_tracks == 0 { 0 } else { (n_tracks - 1) as nat }) + ")"@));
            return err(full);
        }
        let ghost prev = idx@;
        let ghost was_same = all_same;
        if i > 0 && n != idx[0] {
            all_same = false;
        }
        idx.push(n);
        proof {
            assert(forall|j: int| 0 <= j < i ==> idx@[j] == prev[j]);
            if !was_same {
                let w = choose|j: int| 0 <= j < i && !(#[trigger] prev[j] == prev[0]);
                assert(idx@[w] != idx@[0]);
            } else if !all_same {
                assert(idx@[i as int] != idx@[0]);
            }
        }
        i = i + 1;
    }
    proof {
        assert(valid_track_indexes(items, n_tracks as int));
        assert(idx@ =~= items.map_values(|x: Json| x.as_int()->0));
        lemma_first_bad_none(items, n_tracks as int);
    }
    let name = if all_same { string_of("Remove Track (Agent)") } else { string_of("Remove Tracks (Agent)") };
    let tl = s.timeline.duplicate();
    let crate::model::Timeline { fps, width, height, settings_configured, tracks } = tl;
    let kept = keep_unlisted(tracks, &idx);
    let new_tl = crate::model::Timeline { fps, width, height, settings_configured, tracks: kept };
    commit(s, name, new_tl);
    let mut distinct: usize = 0;
    let mut a: usize = 0;
    while a < idx.len()
        invariant
            0 <= a <= idx@.len(),
            distinct <= a,
            distinct == distinct_count(idx@.take(a as int)),
        decreases idx.len() - a,
    {
        let mut seen = false;
        let mut b: usize = 0;
        while b < a
            invariant
                0 <= b <= a,
                a < idx@.len(),
                seen == idx@.take(b as int).contains(idx@[a as int]),
            decreases a - b,
        {
            let ghost t0 = idx@.take(b as int);
            let ghost t1 = idx@.take(b + 1);
            let ghost x = idx@[a as int];
            if idx[b] == idx[a] {
                seen = true;
            }
            proof {
                assert(t1 =~= t0.push(idx@[b as int]));
                if idx@[b as int] == x {
                    assert(t1[b as int] == x);
                } else {
                    if t1.contains(x) {
                        let j = choose|j: int| 0 <= j < t1.len() && t1[j] == x;
                        assert(t0[j] == x);
                    }
                    if t0.contains(x) {
                        let j = choose|j: int| 0 <= j < t0.len() && t0[j] == x;
                        assert(t1[j] == x);
                    }
                }
            }
            b = b + 1;
        }
        proof {
            assert(idx@.take(a + 1).drop_last() =~= idx@.take(a as int));
            assert(idx@.take(a + 1).last() == idx@[a as int]);
        }
        if !seen {
            distinct = distinct + 1;
        }
        a = a + 1;
    }
    assert(idx@.take(a as int) =~= idx@);
    ok(cat_usize("Removed ", distinct, if distinct == 1 {
        " track — remaining track indexes have shifted; re-read with get_timeline before next index-based call."
    } else {
        " tracks — remaining track indexes have shifted; re-read with get_timeline before next index-based call."
    }))
}

} // verus!
