//! The `insert_clips` tool: inserting clips at a frame of one track and
//! pushing the later clips right.

use vstd::prelude::*;
use crate::clip_type::ClipType;
use crate::edit::{sort_by_start, sort_clips};
use crate::json::{Json, JsonValue, json_of_seq, lemma_json_of_seq};
use crate::model::{Clip, ClipView, EditorState, EditorView, Timeline, TimelineView, TrackView, all_fit, clip_end, clip_fits, clips_view, fresh_clip, joined_clip_ids, minted, minted_id, spec_find_asset, timeline_fits, with_clips};
use crate::text::{dec_int, dec_nat, push_i64, push_str, push_u64, push_usize, string_of};
use crate::tools::add_clips::at_least_zero;
use crate::tools::args::{ToolOutcome, arg_array, arg_i64, arg_opt_i64, arg_str, cat3, err, indexed, missing_integer, ok, spec_arg_array, spec_arg_int, spec_arg_str};
use crate::tools::timeline::{commit, edited, overflow_error};

verus! {

/// One parsed `entries` item of `insert_clips`.
pub struct InsertEntry {
    pub media_ref: String,
    pub duration: i64,
    pub trim_start: i64,
    pub trim_end: i64,
    pub asset_type: ClipType,
}

pub ghost struct InsertView {
    pub media_ref: Seq<char>,
    pub duration: i64,
    pub trim_start: i64,
    pub trim_end: i64,
    pub asset_type: ClipType,
}

impl View for InsertEntry {
    type V = InsertView;

    open spec fn view(&self) -> InsertView {
        InsertView {
            media_ref: self.media_ref@,
            duration: self.duration,
            trim_start: self.trim_start,
            trim_end: self.trim_end,
            asset_type: self.asset_type,
        }
    }
}

pub open spec fn insert_views(v: Seq<InsertEntry>) -> Seq<InsertView> {
    v.map_values(|e: InsertEntry| e@)
}

/// How one entry is read for a track of type `target`. `defaults[i]` is
/// the frame count of media asset `i`'s own duration at the timeline's
/// frame rate, used when the entry gives no `durationFrames`.
#[verifier::opaque]
pub open spec fn parse_insert_entry(raw: Json, s: EditorView, target: ClipType, defaults: Seq<i64>) -> Option<InsertView> {
    match spec_arg_str(raw, "mediaRef"@) {
        None => None,
        Some(mr) => match spec_find_asset(s.media_assets, mr) {
            None => None,
            Some(ai) => {
                let at = s.media_assets[ai].media_type;
                if !at.spec_is_compatible_with(target) {
                    None
                } else {
                    let d = match spec_arg_int(raw, "durationFrames"@) {
                        Some(v) => v,
                        None => defaults[ai],
                    };
                    Some(
                        InsertView {
                            media_ref: mr,
                            duration: if d > 1 { d } else { 1 },
                            trim_start: at_least_zero(spec_arg_int(raw, "trimStartFrame"@)),
                            trim_end: at_least_zero(spec_arg_int(raw, "trimEndFrame"@)),
                            asset_type: at,
                        },
                    )
                }
            },
        },
    }
}

pub open spec fn parse_insert_entries(items: Seq<Json>, s: EditorView, target: ClipType, defaults: Seq<i64>) -> Option<Seq<InsertView>> {
    if forall|i: int| 0 <= i < items.len() ==> (#[trigger] parse_insert_entry(items[i], s, target, defaults)) is Some {
        Some(items.map_values(|j: Json| parse_insert_entry(j, s, target, defaults)->0))
    } else {
        None
    }
}

/// Sum of the entries' durations.
pub open spec fn total_duration(es: Seq<InsertView>) -> int
    decreases es.len(),
{
    if es.len() == 0 {
        0
    } else {
        total_duration(es.drop_last()) + es.last().duration
    }
}

/// `c` pushed right by `by` frames when it starts at or after `at`.
pub open spec fn pushed(c: ClipView, at: int, by: int) -> ClipView {
    if c.start_frame >= at { ClipView { start_frame: (c.start_frame + by) as i64, ..c } } else { c }
}

/// Every pushed clip still fits.
pub open spec fn push_fits(clips: Seq<ClipView>, at: int, by: int) -> bool {
    forall|i: int| 0 <= i < clips.len() ==> (#[trigger] clips[i]).start_frame >= at ==> clip_end(clips[i]) + by
        <= i64::MAX && clips[i].start_frame + by <= i64::MAX
}

/// The new clips laid end to end from `at`, the `k`-th under id
/// `clip-(counter+k+1)`.
pub open spec fn laid_out(es: Seq<InsertView>, at: int, counter: nat) -> Seq<ClipView> {
    Seq::new(
        es.len(),
        |k: int|
            fresh_clip(
                minted_id("clip"@, (counter + k + 1) as nat),
                es[k].media_ref,
                es[k].asset_type,
                (at + total_duration(es.take(k))) as i64,
                es[k].duration,
                es[k].trim_start,
                es[k].trim_end,
            ),
    )
}

/// The tracks with every sync-locked track other than `ti` pushed as well.
pub open spec fn push_synced(tracks: Seq<TrackView>, ti: int, at: int, by: int) -> Seq<TrackView> {
    tracks.map(
        |j: int, tr: TrackView|
            if j != ti && tr.sync_locked {
                TrackView { clips: tr.clips.map_values(|c: ClipView| pushed(c, at, by)), ..tr }
            } else {
                tr
            },
    )
}

/// Every sync-locked track other than `ti` can be pushed.
pub open spec fn synced_fit(tracks: Seq<TrackView>, ti: int, at: int, by: int) -> bool {
    forall|j: int| 0 <= j < tracks.len() && j != ti && (#[trigger] tracks[j]).sync_locked ==> push_fits(tracks[j].clips, at, by)
}

pub open spec fn insert_name(n: int) -> Seq<char> {
    if n == 1 { "Insert Clip (Agent)"@ } else { "Insert Clips (Agent)"@ }
}

/// The insertion of validated entries on track `ti` at frame `at`: the
/// clips of that track and of every sync-locked track that start at or
/// after `at` move right by the entries' total length. `None` when a frame
/// or id would overflow.
pub open spec fn insert_entries_effect(s: EditorView, ti: int, at: int, es: Seq<InsertView>) -> Option<EditorView> {
    let total = total_duration(es);
    let clips = s.timeline.tracks[ti].clips;
    if at + total > i64::MAX || !push_fits(clips, at, total) || !synced_fit(s.timeline.tracks, ti, at, total) || s.id_counter
        + es.len() > u64::MAX {
        None
    } else {
        let moved = clips.map_values(|c: ClipView| pushed(c, at, total));
        let all = moved + laid_out(es, at, s.id_counter as nat);
        Some(
            EditorView {
                id_counter: (s.id_counter + es.len()) as u64,
                ..edited(
                    s,
                    insert_name(es.len() as int),
                    with_clips(TimelineView { tracks: push_synced(s.timeline.tracks, ti, at, total), ..s.timeline }, ti, sort_by_start(all)),
                )
            },
        )
    }
}

/// The summary of a successful `insert_clips`: how many clips, where, by
/// how much later clips moved, and the new clips' ids.
pub open spec fn insert_message(s: EditorView, args: Json, defaults: Seq<i64>) -> Seq<char> {
    let ti = spec_arg_int(args, "trackIndex"@)->0;
    let at = spec_arg_int(args, "atFrame"@)->0;
    let es = parse_insert_entries(spec_arg_array(args, "entries"@)->0, s, s.timeline.tracks[ti as int].track_type, defaults)->0;
    "Inserted "@ + dec_nat(es.len()) + (if es.len() == 1 { " clip at frame "@ } else { " clips at frame "@ }) + dec_int(
        at as int,
    ) + " on track "@ + dec_nat(ti as nat) + ", pushed later clips +"@ + dec_int(total_duration(es)) + "f: "@ + joined_clip_ids(
        s.id_counter as nat,
        es.len(),
    ) + "."@
}

/// Everything `insert_clips` answers and leaves: the effect and summary,
/// and the message for a missing or bad `trackIndex` / `atFrame` or a
/// missing or empty `entries` list.
pub open spec fn insert_outcome(s: EditorView, args: Json, defaults: Seq<i64>, r: ToolOutcome, n: EditorView) -> bool {
    &&& match insert_clips_effect(s, args, defaults) {
        None => r is Error && n == s,
        Some(x) => n == x && (r matches ToolOutcome::Text(m) && m@ == insert_message(s, args, defaults)),
    }
    &&& match (spec_arg_int(args, "trackIndex"@), spec_arg_int(args, "atFrame"@)) {
        (None, _) => r matches ToolOutcome::Error(m) && m@ == missing_integer("trackIndex"@),
        (Some(_), None) => r matches ToolOutcome::Error(m) && m@ == missing_integer("atFrame"@),
        (Some(ti), Some(at)) => if at < 0 {
            r matches ToolOutcome::Error(m) && m@ == "atFrame must be >= 0 (got "@ + dec_int(at as int) + ")"@
        } else if !(0 <= ti < s.timeline.tracks.len()) {
            r matches ToolOutcome::Error(m) && m@ == "trackIndex "@ + dec_nat((ti as u64) as nat) + " out of range (0.."@ + dec_nat(
                if s.timeline.tracks.len() == 0 { 0 } else { (s.timeline.tracks.len() - 1) as nat },
            ) + ")"@
        } else {
            spec_arg_array(args, "entries"@) is None || spec_arg_array(args, "entries"@)->0.len() == 0 ==> (r matches ToolOutcome::Error(
                m,
            ) && m@ == "Missing or empty 'entries' array"@)
        },
    }
}

/// What `insert_clips` does: validates the target and every entry, pushes
/// every clip of the track that starts at or after `atFrame` right by the
/// total inserted duration, lays the new clips end to end from `atFrame`,
/// and sorts the track. `None` for an error, with the state left as it was.
pub open spec fn insert_clips_effect(s: EditorView, args: Json, defaults: Seq<i64>) -> Option<EditorView> {
    match (spec_arg_int(args, "trackIndex"@), spec_arg_int(args, "atFrame"@)) {
        (Some(ti), Some(at)) => if at < 0 || !(0 <= ti < s.timeline.tracks.len()) {
            None
        } else {
            match spec_arg_array(args, "entries"@) {
                None => None,
                Some(items) => if items.len() == 0 {
                    None
                } else {
                    match parse_insert_entries(items, s, s.timeline.tracks[ti as int].track_type, defaults) {
                        None => None,
                        Some(es) => insert_entries_effect(s, ti as int, at as int, es),
                    }
                },
            }
        },
        _ => None,
    }
}

// ---------------------------------------------------------------------------
// Execution
// ---------------------------------------------------------------------------

fn read_insert_entry(raw: &JsonValue, i: usize, s: &EditorState, target: ClipType, ti: usize, defaults: &Vec<i64>) -> (r: Result<InsertEntry, String>)
    requires
        defaults@.len() == s@.media_assets.len(),
    ensures
        r is Ok <==> parse_insert_entry(raw@, s@, target, defaults@) is Some,
        r matches Ok(e) ==> e@ == parse_insert_entry(raw@, s@, target, defaults@)->0 && e.duration >= 1,
{
    proof {
        crate::model::lemma_editor_view(*s);
        reveal(parse_insert_entry);
    }
    let path = indexed("entries", i);
    let media_ref = match arg_str(raw, "mediaRef") {
        Ok(m) => m,
        Err(e) => return Err(cat3(path.as_str(), ": ", e.as_str())),
    };
    let ai = match s.asset_index(media_ref.as_str()) {
        Some(ai) => ai,
        None => return Err(cat3(path.as_str(), ": media asset not found: ", media_ref.as_str())),
    };
    assert(s@.media_assets[ai as int] == s.media_assets@[ai as int]@);
    let at = s.media_assets[ai].media_type;
    if !at.is_compatible_with(target) {
        let mut m = cat3(path.as_str(), ": asset type ", at.as_str());
        push_str(&mut m, " is not compatible with ");
        push_str(&mut m, target.as_str());
        push_str(&mut m, " track at index ");
        push_usize(&mut m, ti);
        return Err(m);
    }
    let d = match arg_opt_i64(raw, "durationFrames") {
        Some(v) => v,
        None => defaults[ai],
    };
    let trim_start = match arg_opt_i64(raw, "trimStartFrame") {
        Some(v) => if v > 0 { v } else { 0 },
        None => 0,
    };
    let trim_end = match arg_opt_i64(raw, "trimEndFrame") {
        Some(v) => if v > 0 { v } else { 0 },
        None => 0,
    };
    Ok(InsertEntry { media_ref: media_ref.clone(), duration: if d > 1 { d } else { 1 }, trim_start, trim_end, asset_type: at })
}

fn read_insert_entries(items: &Vec<JsonValue>, s: &EditorState, target: ClipType, ti: usize, defaults: &Vec<i64>) -> (r: Result<Vec<InsertEntry>, String>)
    requires
        defaults@.len() == s@.media_assets.len(),
    ensures
        r is Ok <==> parse_insert_entries(json_of_seq(items@), s@, target, defaults@) is Some,
        r matches Ok(v) ==> parse_insert_entries(json_of_seq(items@), s@, target, defaults@) == Some(insert_views(v@))
            && forall|j: int| 0 <= j < v@.len() ==> (#[trigger] v@[j]).duration >= 1,
{
    let ghost js = json_of_seq(items@);
    proof { lemma_json_of_seq(items@); }
    let mut out: Vec<InsertEntry> = Vec::new();
    let mut i: usize = 0;
    while i < items.len()
        invariant
            0 <= i <= items@.len(),
            defaults@.len() == s@.media_assets.len(),
            js == json_of_seq(items@),
            js.len() == items@.len(),
            forall|j: int| 0 <= j < items@.len() ==> #[trigger] js[j] == items@[j]@,
            out@.len() == i,
            forall|j: int| 0 <= j < i ==> #[trigger] parse_insert_entry(js[j], s@, target, defaults@) == Some(out@[j]@),
            forall|j: int| 0 <= j < i ==> (#[trigger] out@[j]).duration >= 1,
        decreases items.len() - i,
    {
        assert(js[i as int] == items@[i as int]@);
        match read_insert_entry(&items[i], i, s, target, ti, defaults) {
            Ok(e) => out.push(e),
            Err(m) => {
                assert(parse_insert_entry(js[i as int], s@, target, defaults@) is None);
                return Err(m);
            },
        }
        i = i + 1;
    }
    assert(insert_views(out@) =~= js.map_values(|j: Json| parse_insert_entry(j, s@, target, defaults@)->0));
    Ok(out)
}

proof fn lemma_total_prefix_bounds(es: Seq<InsertView>, k: int)
    requires
        0 <= k <= es.len(),
        forall|j: int| 0 <= j < es.len() ==> (#[trigger] es[j]).duration >= 1,
    ensures
        k <= total_duration(es.take(k)) <= total_duration(es),
        total_duration(es.take(k)) + es.len() - k <= total_duration(es),
    decreases es.len(),
{
    if es.len() > 0 {
        assert forall|j: int| 0 <= j < es.drop_last().len() implies (#[trigger] es.drop_last()[j]).duration >= 1 by {
            assert(es.drop_last()[j] == es[j]);
        }
        assert(es.last() == es[es.len() - 1]);
        if k == es.len() {
            assert(es.take(k) =~= es);
            lemma_total_prefix_bounds(es.drop_last(), k - 1);
            assert(es.drop_last().take(k - 1) =~= es.drop_last());
        } else {
            assert(es.take(k) =~= es.drop_last().take(k));
            lemma_total_prefix_bounds(es.drop_last(), k);
        }
    } else {
        assert(es.take(k) =~= es);
    }
}

/// Sum of the durations; `None` when it exceeds `i64::MAX`.
fn sum_durations(parsed: &Vec<InsertEntry>) -> (r: Option<i64>)
    requires
        forall|j: int| 0 <= j < parsed@.len() ==> (#[trigger] parsed@[j]).duration >= 1,
    ensures
        r is Some <==> total_duration(insert_views(parsed@)) <= i64::MAX,
        r matches Some(t) ==> t == total_duration(insert_views(parsed@)),
{
    let ghost es = insert_views(parsed@);
    assert forall|j: int| 0 <= j < es.len() implies (#[trigger] es[j]).duration >= 1 by {
        assert(es[j] == parsed@[j]@);
    }
    let mut total: i64 = 0;
    let mut k: usize = 0;
    while k < parsed.len()
        invariant
            0 <= k <= parsed@.len(),
            es == insert_views(parsed@),
            forall|j: int| 0 <= j < es.len() ==> (#[trigger] es[j]).duration >= 1,
            total == total_duration(es.take(k as int)),
        decreases parsed.len() - k,
    {
        assert(es.take(k + 1).drop_last() =~= es.take(k as int));
        assert(es.take(k + 1).last() == es[k as int]);
        assert(es[k as int] == parsed@[k as int]@);
        proof { lemma_total_prefix_bounds(es, k + 1); }
        total = match total.checked_add(parsed[k].duration) {
            Some(t) => t,
            None => return None,
        };
        k = k + 1;
    }
    assert(es.take(k as int) =~= es);
    Some(total)
}

/// Whether every clip pushed right by `by` still fits.
fn check_push_fits(clips: &Vec<Clip>, at: i64, by: i64) -> (r: bool)
    requires
        all_fit(clips_view(clips@)),
        by >= 0,
    ensures
        r == push_fits(clips_view(clips@), at as int, by as int),
{
    let mut i: usize = 0;
    while i < clips.len()
        invariant
            0 <= i <= clips@.len(),
            all_fit(clips_view(clips@)),
            by >= 0,
            forall|j: int| 0 <= j < i ==> (#[trigger] clips_view(clips@)[j]).start_frame >= at ==> clip_end(
                clips_view(clips@)[j],
            ) + by <= i64::MAX && clips_view(clips@)[j].start_frame + by <= i64::MAX,
        decreases clips.len() - i,
    {
        let c = &clips[i];
        assert(clips_view(clips@)[i as int] == c@);
        if c.start_frame >= at {
            let e = c.end_frame();
            if e.checked_add(by).is_none() || c.start_frame.checked_add(by).is_none() {
                return false;
            }
        }
        i = i + 1;
    }
    true
}

/// Whether every sync-locked track other than `ti` can be pushed.
fn check_synced_fit(t: &Timeline, ti: usize, at: i64, by: i64) -> (r: bool)
    requires
        timeline_fits(t@),
        by >= 0,
    ensures
        r == synced_fit(t@.tracks, ti as int, at as int, by as int),
{
    let n = t.tracks.len();
    let mut j: usize = 0;
    while j < n
        invariant
            0 <= j <= n,
            n == t@.tracks.len(),
            n == t.tracks@.len(),
            timeline_fits(t@),
            by >= 0,
            forall|x: int| 0 <= x < j && x != ti && (#[trigger] t@.tracks[x]).sync_locked ==> push_fits(
                t@.tracks[x].clips,
                at as int,
                by as int,
            ),
        decreases n - j,
    {
        assert(t@.tracks[j as int] == t.tracks@[j as int]@);
        assert(all_fit(t@.tracks[j as int].clips));
        if j != ti && t.tracks[j].sync_locked && !check_push_fits(&t.tracks[j].clips, at, by) {
            return false;
        }
        j = j + 1;
    }
    true
}

/// The clips that start at or after `at` moved right by `by`.
fn push_clips(clips: Vec<Clip>, at: i64, by: i64) -> (r: Vec<Clip>)
    requires
        all_fit(clips_view(clips@)),
        by >= 0,
        push_fits(clips_view(clips@), at as int, by as int),
    ensures
        clips_view(r@) == clips_view(clips@).map_values(|c: ClipView| pushed(c, at as int, by as int)),
{
    let ghost orig = clips_view(clips@);
    let mut out: Vec<Clip> = Vec::new();
    let mut i: usize = 0;
    while i < clips.len()
        invariant
            0 <= i <= clips@.len(),
            orig == clips_view(clips@),
            orig.len() == clips@.len(),
            all_fit(orig),
            by >= 0,
            push_fits(orig, at as int, by as int),
            out@.len() == i,
            forall|j: int| 0 <= j < i ==> (#[trigger] out@[j])@ == pushed(orig[j], at as int, by as int),
        decreases clips.len() - i,
    {
        assert(orig[i as int] == clips@[i as int]@);
        let mut c = clips[i].duplicate();
        if c.start_frame >= at {
            assert(clip_fits(orig[i as int]));
            c.start_frame = c.start_frame + by;
        }
        out.push(c);
        i = i + 1;
    }
    assert(clips_view(out@) =~= orig.map_values(|c: ClipView| pushed(c, at as int, by as int)));
    out
}

/// Pushes every sync-locked track other than `ti`.
fn push_synced_tracks(t: &mut Timeline, ti: usize, at: i64, by: i64)
    requires
        timeline_fits(old(t)@),
        by >= 0,
        synced_fit(old(t)@.tracks, ti as int, at as int, by as int),
    ensures
        final(t)@ == (TimelineView { tracks: push_synced(old(t)@.tracks, ti as int, at as int, by as int), ..old(t)@ }),
{
    let ghost t0 = t@;
    let n = t.tracks.len();
    let mut j: usize = 0;
    while j < n
        invariant
            0 <= j <= n,
            n == t0.tracks.len(),
            t.tracks@.len() == n,
            t@.tracks.len() == n,
            timeline_fits(t0),
            by >= 0,
            synced_fit(t0.tracks, ti as int, at as int, by as int),
            t@ == (TimelineView { tracks: t@.tracks, ..t0 }),
            forall|x: int| 0 <= x < j ==> #[trigger] t@.tracks[x] == push_synced(t0.tracks, ti as int, at as int, by as int)[x],
            forall|x: int| j <= x < n ==> #[trigger] t@.tracks[x] == t0.tracks[x],
        decreases n - j,
    {
        assert(t@.tracks[j as int] == t.tracks@[j as int]@);
        if j != ti && t.tracks[j].sync_locked {
            assert(all_fit(t0.tracks[j as int].clips));
            let clips = t.take_clips(j);
            let moved = push_clips(clips, at, by);
            t.put_clips(j, moved);
        }
        j = j + 1;
    }
    assert(t@.tracks =~= push_synced(t0.tracks, ti as int, at as int, by as int));
}

#[verifier::rlimit(60)]
fn apply_insert(s: &mut EditorState, ti: usize, at: i64, parsed: Vec<InsertEntry>, total: i64) -> (r: Vec<String>)
    requires
        timeline_fits(old(s)@.timeline),
        ti < old(s)@.timeline.tracks.len(),
        at >= 0,
        parsed@.len() > 0,
        forall|j: int| 0 <= j < parsed@.len() ==> (#[trigger] parsed@[j]).duration >= 1,
        total == total_duration(insert_views(parsed@)),
        at + total <= i64::MAX,
        push_fits(old(s)@.timeline.tracks[ti as int].clips, at as int, total as int),
        synced_fit(old(s)@.timeline.tracks, ti as int, at as int, total as int),
        old(s)@.id_counter + parsed@.len() <= u64::MAX,
    ensures
        insert_entries_effect(old(s)@, ti as int, at as int, insert_views(parsed@)) == Some(final(s)@),
        r@.len() == parsed@.len(),
        forall|k: int| 0 <= k < r@.len() ==> (#[trigger] r@[k])@ == minted_id("clip"@, (old(s)@.id_counter + k + 1) as nat),
{
    proof { crate::model::lemma_editor_view(*s); }
    let ghost s0 = s@;
    let ghost es = insert_views(parsed@);
    let mut tl = s.timeline.duplicate();
    proof { lemma_total_prefix_bounds(es, 0); }
    push_synced_tracks(&mut tl, ti, at, total);
    assert(tl@.tracks[ti as int] == s0.timeline.tracks[ti as int]);
    let mut clips = tl.take_clips(ti);
    let ghost orig = s0.timeline.tracks[ti as int].clips;
    proof { lemma_total_prefix_bounds(es, 0); }
    let mut i: usize = 0;
    while i < clips.len()
        invariant
            0 <= i <= clips@.len(),
            clips@.len() == orig.len(),
            all_fit(orig),
            total >= 0,
            push_fits(orig, at as int, total as int),
            forall|j: int| 0 <= j < i ==> #[trigger] clips_view(clips@)[j] == pushed(orig[j], at as int, total as int),
            forall|j: int| i <= j < orig.len() ==> #[trigger] clips_view(clips@)[j] == orig[j],
        decreases clips.len() - i,
    {
        let ghost before = clips@;
        assert(clips_view(clips@)[i as int] == orig[i as int]);
        let mut c = clips.remove(i);
        if c.start_frame >= at {
            assert(clip_fits(orig[i as int]));
            c.start_frame = c.start_frame + total;
        }
        clips.insert(i, c);
        assert forall|j: int| i < j < orig.len() implies #[trigger] clips_view(clips@)[j] == orig[j] by {
            assert(clips@[j] == before[j]);
            assert(clips_view(before)[j] == orig[j]);
        }
        assert forall|j: int| 0 <= j < i implies #[trigger] clips_view(clips@)[j] == pushed(orig[j], at as int, total as int) by {
            assert(clips@[j] == before[j]);
            assert(clips_view(before)[j] == pushed(orig[j], at as int, total as int));
        }
        i = i + 1;
    }
    assert(clips_view(clips@) =~= orig.map_values(|c: ClipView| pushed(c, at as int, total as int)));
    let mut ids: Vec<String> = Vec::new();
    let base = s.id_counter;
    let mut cursor = at;
    let mut k: usize = 0;
    let ghost moved = clips_view(clips@);
    proof { lemma_total_prefix_bounds(es, 0); }
    assert(es.take(0) =~= Seq::<crate::tools::insert_clips::InsertView>::empty());
    while k < parsed.len()
        invariant
            0 <= k <= parsed@.len(),
            es == insert_views(parsed@),
            forall|j: int| 0 <= j < parsed@.len() ==> (#[trigger] parsed@[j]).duration >= 1,
            total == total_duration(es),
            at >= 0,
            at + total <= i64::MAX,
            s0.id_counter + parsed@.len() <= u64::MAX,
            base == s0.id_counter,
            cursor == at + total_duration(es.take(k as int)),
            clips_view(clips@) == moved + laid_out(es, at as int, s0.id_counter as nat).take(k as int),
            ids@.len() == k,
            forall|j: int| 0 <= j < k ==> (#[trigger] ids@[j])@ == minted_id("clip"@, (s0.id_counter + j + 1) as nat),
        decreases parsed.len() - k,
    {
        let e = &parsed[k];
        assert(es[k as int] == e@);
        proof {
            lemma_total_prefix_bounds(es, k + 1);
            assert(es.take(k + 1).drop_last() =~= es.take(k as int));
            assert(es.take(k + 1).last() == es[k as int]);
        }
        let id = minted("clip", base + 1 + k as u64);
        let clip = Clip::fresh(id.clone(), e.media_ref.clone(), e.asset_type, cursor, e.duration, e.trim_start, e.trim_end);
        let ghost cv = clip@;
        let ghost prev = clips_view(clips@);
        clips.push(clip);
        assert(cv == laid_out(es, at as int, s0.id_counter as nat)[k as int]);
        assert(clips_view(clips@) =~= prev.push(cv));
        assert(laid_out(es, at as int, s0.id_counter as nat).take(k + 1) =~= laid_out(es, at as int, s0.id_counter as nat).take(
            k as int,
        ).push(cv));
        ids.push(id);
        cursor = cursor + e.duration;
        k = k + 1;
    }
    assert(laid_out(es, at as int, s0.id_counter as nat).take(k as int) =~= laid_out(es, at as int, s0.id_counter as nat));
    let ghost all = clips_view(clips@);
    let sorted = sort_clips(clips);
    tl.put_clips(ti, sorted);
    assert(tl@.tracks =~= with_clips(
        TimelineView { tracks: push_synced(s0.timeline.tracks, ti as int, at as int, total as int), ..s0.timeline },
        ti as int,
        sort_by_start(all),
    ).tracks);
    let name = if parsed.len() == 1 { string_of("Insert Clip (Agent)") } else { string_of("Insert Clips (Agent)") };
    commit(s, name, tl);
    proof { crate::model::lemma_editor_view(*s); }
    s.id_counter = s.id_counter + parsed.len() as u64;
    proof { crate::model::lemma_editor_view(*s); }
    ids
}

#[verifier::spinoff_prover]
pub fn tool_insert_clips(s: &mut EditorState, args: &JsonValue, defaults: &Vec<i64>) -> (r: ToolOutcome)
    requires
        timeline_fits(old(s)@.timeline),
        defaults@.len() == old(s)@.media_assets.len(),
    ensures
        insert_outcome(old(s)@, args@, defaults@, r, final(s)@),
{
    proof { crate::model::lemma_editor_view(*s); }
    let ti_raw = match arg_i64(args, "trackIndex") {
        Ok(v) => v,
        Err(e) => return err(e),
    };
    let at = match arg_i64(args, "atFrame") {
        Ok(v) => {
            if v < 0 {
                return err(cat_frame("atFrame must be >= 0 (got ", v));
            }
            v
        },
        Err(e) => return err(e),
    };
    let n_tracks = s.timeline.tracks.len();
    if ti_raw < 0 || (ti_raw as u64) >= (n_tracks as u64) {
        let mut m = string_of("trackIndex ");
        push_u64(&mut m, (#[verifier::truncate] (ti_raw as u64)));
        push_str(&mut m, " out of range (0..");
        push_usize(&mut m, if n_tracks == 0 { 0 } else { n_tracks - 1 });
        push_str(&mut m, ")");
        return err(m);
    }
    let ti = ti_raw as usize;
    let entries = match arg_array(args, "entries") {
        Some(a) => a,
        None => return err(string_of("Missing or empty 'entries' array")),
    };
    if entries.len() == 0 {
        return err(string_of("Missing or empty 'entries' array"));
    }
    assert(s@.timeline.tracks[ti as int] == s.timeline.tracks@[ti as int]@);
    let target = s.timeline.tracks[ti].track_type;
    let parsed = match read_insert_entries(entries, s, target, ti, defaults) {
        Ok(v) => v,
        Err(m) => return err(m),
    };
    let total = match sum_durations(&parsed) {
        Some(t) => t,
        None => return overflow_error(),
    };
    proof { lemma_total_prefix_bounds(insert_views(parsed@), 0); }
    if at.checked_add(total).is_none() {
        return overflow_error();
    }
    assert(timeline_fits(s@.timeline));
    assert(all_fit(s@.timeline.tracks[ti as int].clips));
    if !check_push_fits(&s.timeline.tracks[ti].clips, at, total) {
        return overflow_error();
    }
    if !check_synced_fit(&s.timeline, ti, at, total) {
        return overflow_error();
    }
    if (parsed.len() as u64) > u64::MAX - s.id_counter {
        return overflow_error();
    }
    let count = parsed.len();
    let ghost s0 = s@;
    let ghost es = insert_views(parsed@);
    let ids = apply_insert(s, ti, at, parsed, total);
    let mut m = string_of("Inserted ");
    push_usize(&mut m, count);
    push_str(&mut m, if count == 1 { " clip at frame " } else { " clips at frame " });
    push_i64(&mut m, at);
    push_str(&mut m, " on track ");
    push_usize(&mut m, ti);
    push_str(&mut m, ", pushed later clips +");
    push_i64(&mut m, total);
    push_str(&mut m, "f: ");
    let ghost head = m@;
    let mut k: usize = 0;
    while k < ids.len()
        invariant
            0 <= k <= ids@.len(),
            ids@.len() == count,
            forall|j: int| 0 <= j < ids@.len() ==> (#[trigger] ids@[j])@ == minted_id("clip"@, (s0.id_counter + j + 1) as nat),
            m@ == head + joined_clip_ids(s0.id_counter as nat, k as nat),
        decreases ids.len() - k,
    {
        assert(ids@[k as int]@ == minted_id("clip"@, (s0.id_counter + k + 1) as nat));
        if k > 0 {
            push_str(&mut m, ", ");
        }
        push_str(&mut m, ids[k].as_str());
        k = k + 1;
    }
    push_str(&mut m, ".");
    ok(m)
}

/// `prefix` followed by the decimal `v` and `)`.
fn cat_frame(prefix: &str, v: i64) -> (r: String)
    ensures
        r@ == prefix@ + crate::text::dec_int(v as int) + ")"@,
{
    let mut m = string_of(prefix);
    push_i64(&mut m, v);
    push_str(&mut m, ")");
    m
}

} // verus!
