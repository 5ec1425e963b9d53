//! The `add_clips` tool: placing clips of library media on the timeline,
//! overwriting what lies under them.

use vstd::prelude::*;
use crate::clip_type::{ClipType, clip_type_label, spec_clip_type_label};
use crate::edit::{check_region_fits, clear_region, cleared, lemma_cleared_fits, lemma_sort_tracks_fits, region_fits, sort_all_tracks, sort_tracks};
use crate::json::{Json, JsonValue, json_of_seq, lemma_json_of_seq};
use crate::model::{Clip, EditorState, EditorView, Timeline, TimelineView, Track, TrackView, all_fit, clips_view, fresh_clip, minted, minted_id, new_track, spec_find_asset, timeline_fits};
use crate::text::{dec_int, dec_nat, push_i64, push_str, push_u64, push_usize, string_of};
use crate::tools::args::{
    ToolOutcome, arg_array, arg_i64, arg_opt_i64, arg_str, cat2, cat3, err, indexed, ok, spec_arg_array, spec_arg_int,
    spec_arg_str,
};
use crate::tools::timeline::{commit, edited, overflow_error};

verus! {

/// One parsed `entries` item.
pub struct AddEntry {
    pub media_ref: String,
    pub track_index: Option<usize>,
    pub start: i64,
    pub duration: i64,
    pub trim_start: i64,
    pub trim_end: i64,
    pub asset_type: ClipType,
}

pub ghost struct EntryView {
    pub media_ref: Seq<char>,
    pub track_index: Option<int>,
    pub start: i64,
    pub duration: i64,
    pub trim_start: i64,
    pub trim_end: i64,
    pub asset_type: ClipType,
}

impl View for AddEntry {
    type V = EntryView;

    open spec fn view(&self) -> EntryView {
        EntryView {
            media_ref: self.media_ref@,
            track_index: match self.track_index {
                Some(t) => Some(t as int),
                None => None,
            },
            start: self.start,
            duration: self.duration,
            trim_start: self.trim_start,
            trim_end: self.trim_end,
            asset_type: self.asset_type,
        }
    }
}

/// An optional frame count read as at least 0 (absent: 0).
pub open spec fn at_least_zero(v: Option<i64>) -> i64 {
    match v {
        Some(n) => if n > 0 { n } else { 0 },
        None => 0,
    }
}

/// How `add_clips` reads one entry; `None` when it is rejected.
#[verifier::opaque]
pub open spec fn parse_add_entry(raw: Json, s: EditorView) -> Option<EntryView> {
    match spec_arg_str(raw, "mediaRef"@) {
        None => None,
        Some(mr) => match spec_find_asset(s.media_assets, mr) {
            None => None,
            Some(ai) => {
                let at = s.media_assets[ai].media_type;
                let ti = spec_arg_int(raw, "trackIndex"@);
                let ti_ok = match ti {
                    Some(t) => 0 <= t < s.timeline.tracks.len() && at.spec_is_compatible_with(
                        s.timeline.tracks[t as int].track_type,
                    ),
                    None => true,
                };
                match (spec_arg_int(raw, "startFrame"@), spec_arg_int(raw, "durationFrames"@)) {
                    (Some(st), Some(d)) => if ti_ok && st >= 0 && d >= 1 {
                        Some(
                            EntryView {
                                media_ref: mr,
                                track_index: match ti {
                                    Some(t) => Some(t as int),
                                    None => None,
                                },
                                start: st,
                                duration: d,
                                trim_start: at_least_zero(spec_arg_int(raw, "trimStartFrame"@)),
                                trim_end: at_least_zero(spec_arg_int(raw, "trimEndFrame"@)),
                                asset_type: at,
                            },
                        )
                    } else {
                        None
                    },
                    _ => None,
                }
            },
        },
    }
}

/// Every entry parsed; `None` if one is rejected.
pub open spec fn parse_add_entries(items: Seq<Json>, s: EditorView) -> Option<Seq<EntryView>> {
    if forall|i: int| 0 <= i < items.len() ==> (#[trigger] parse_add_entry(items[i], s)) is Some {
        Some(items.map_values(|j: Json| parse_add_entry(j, s)->0))
    } else {
        None
    }
}

pub open spec fn needs_visual(es: Seq<EntryView>) -> bool {
    exists|i: int| 0 <= i < es.len() && (#[trigger] es[i]).asset_type != ClipType::Audio
}

pub open spec fn needs_audio(es: Seq<EntryView>) -> bool {
    exists|i: int| 0 <= i < es.len() && (#[trigger] es[i]).asset_type == ClipType::Audio
}

/// The shared tracks created when no entry names a track: a video track at
/// index 0 if any entry is visual, then an audio track (after it) if any
/// entry is audio; with the id counter after minting their ids.
pub open spec fn with_shared_tracks(tracks: Seq<TrackView>, es: Seq<EntryView>, counter: nat) -> (Seq<TrackView>, nat) {
    shared_tracks(tracks, needs_visual(es), needs_audio(es), counter)
}

pub open spec fn shared_tracks(tracks: Seq<TrackView>, nv: bool, na: bool, counter: nat) -> (Seq<TrackView>, nat) {
    let t1 = if nv { tracks.insert(0, new_track(minted_id("track"@, counter + 1), ClipType::Video)) } else { tracks };
    let c1: nat = if nv { counter + 1 } else { counter };
    if na {
        (t1.insert(if nv { 1 } else { 0 }, new_track(minted_id("track"@, c1 + 1), ClipType::Audio)), c1 + 1)
    } else {
        (t1, c1)
    }
}

/// The track an entry lands on once the shared tracks exist.
pub open spec fn shared_index(e: EntryView, es: Seq<EntryView>) -> int {
    if e.asset_type == ClipType::Audio && needs_visual(es) { 1 } else { 0 }
}

/// Clears the landing region of `e` on track `ti` and puts a fresh clip
/// `clip-(counter+1)` there; `None` when a frame or id would overflow.
pub open spec fn place_one(tracks: Seq<TrackView>, e: EntryView, ti: int, counter: nat) -> Option<Seq<TrackView>> {
    let end = e.start + e.duration;
    if end > i64::MAX || counter + 1 > u64::MAX || !region_fits(tracks[ti].clips, e.start as int, end) {
        None
    } else {
        let c = fresh_clip(
            minted_id("clip"@, counter + 1),
            e.media_ref,
            e.asset_type,
            e.start,
            e.duration,
            e.trim_start,
            e.trim_end,
        );
        Some(tracks.update(ti, TrackView { clips: cleared(tracks[ti].clips, e.start as int, end).push(c), ..tracks[ti] }))
    }
}

/// The entries placed in order, the `k`-th under id `clip-(counter+k+1)`.
pub open spec fn place_all(tracks: Seq<TrackView>, es: Seq<EntryView>, idx: Seq<int>, counter: nat) -> Option<Seq<TrackView>>
    decreases es.len(),
{
    if es.len() == 0 {
        Some(tracks)
    } else {
        match place_all(tracks, es.drop_last(), idx.drop_last(), counter) {
            None => None,
            Some(t) => place_one(t, es.last(), idx[es.len() - 1], (counter + es.len() - 1) as nat),
        }
    }
}

pub open spec fn all_explicit(es: Seq<EntryView>) -> bool {
    forall|i: int| 0 <= i < es.len() ==> (#[trigger] es[i]).track_index is Some
}

pub open spec fn all_omitted(es: Seq<EntryView>) -> bool {
    forall|i: int| 0 <= i < es.len() ==> (#[trigger] es[i]).track_index is None
}

pub open spec fn add_name(n: int) -> Seq<char> {
    if n == 1 { "Add Clip (Agent)"@ } else { "Add Clips (Agent)"@ }
}

/// The tracks, target indexes and id counter the placement starts from.
pub open spec fn placement_start(s: EditorView, es: Seq<EntryView>) -> (Seq<TrackView>, Seq<int>, nat) {
    if all_omitted(es) {
        let (t, c) = with_shared_tracks(s.timeline.tracks, es, s.id_counter as nat);
        (t, placement_start_indexes(es), c)
    } else {
        (s.timeline.tracks, placement_start_indexes(es), s.id_counter as nat)
    }
}

/// One placed clip in the summary: its id (minted from counter `c`), track,
/// start, length and any trims.
pub open spec fn entry_summary(e: EntryView, ti: int, c: nat) -> Seq<char> {
    "clip-"@ + dec_nat(c + 1) + " on track "@ + dec_nat(ti as nat) + " @ "@ + dec_int(e.start as int) + " for "@ + dec_int(
        e.duration as int,
    ) + (if e.trim_start != 0 { " trimStart "@ + dec_int(e.trim_start as int) } else { ""@ }) + (if e.trim_end != 0 {
        " trimEnd "@ + dec_int(e.trim_end as int)
    } else {
        ""@
    })
}

/// The placed clips of the summary, joined by `; `.
pub open spec fn placed_summary(es: Seq<EntryView>, iv: Seq<int>, c: nat) -> Seq<char>
    decreases es.len(),
{
    if es.len() == 0 {
        Seq::empty()
    } else if es.len() == 1 {
        entry_summary(es[0], iv[0], c)
    } else {
        placed_summary(es.drop_last(), iv.take(es.len() - 1), c) + "; "@ + entry_summary(
            es.last(),
            iv[es.len() - 1],
            (c + es.len() - 1) as nat,
        )
    }
}

/// The summary of a successful `add_clips`: the shared tracks it created,
/// if any, then each placed clip.
pub open spec fn add_message(s: EditorView, es: Seq<EntryView>) -> Seq<char> {
    let (t0, iv, c0) = placement_start(s, es);
    let nv = needs_visual(es);
    let na = needs_audio(es);
    let created = if all_omitted(es) {
        "Created "@ + (if nv { "track 0 ('"@ + spec_clip_type_label(ClipType::Video) + "', video)"@ } else { ""@ }) + (if na {
            (if nv { ", track 1 ('"@ } else { "track 0 ('"@ }) + spec_clip_type_label(ClipType::Audio) + "', audio)"@
        } else {
            ""@
        }) + ". "@
    } else {
        ""@
    };
    created + "Added "@ + dec_nat(es.len()) + (if es.len() == 1 { " clip: "@ } else { " clips: "@ }) + placed_summary(
        es,
        iv,
        c0,
    )
}

/// What `add_clips` does: entries are validated first (one bad entry
/// rejects the call); either every entry names its track or none does
/// (then shared tracks are created); each clip clears its landing region
/// and is placed in order; every track ends sorted by start frame. `None`
/// for an error, with the state left as it was.
pub open spec fn add_clips_effect(s: EditorView, args: Json) -> Option<EditorView> {
    match spec_arg_array(args, "entries"@) {
        None => None,
        Some(items) => if items.len() == 0 {
            None
        } else {
            match parse_add_entries(items, s) {
                None => None,
                Some(es) => add_entries_effect(s, es),
            }
        },
    }
}

/// The placement of validated entries: either every entry names its track
/// or none does; `None` on a mix or an overflow.
pub open spec fn add_entries_effect(s: EditorView, es: Seq<EntryView>) -> Option<EditorView> {
    if !all_explicit(es) && !all_omitted(es) {
        None
    } else {
        let (t0, idx, c0) = placement_start(s, es);
        match place_all(t0, es, idx, c0) {
            None => None,
            Some(t) => Some(
                EditorView {
                    id_counter: (c0 + es.len()) as u64,
                    ..edited(s, add_name(es.len() as int), TimelineView { tracks: sort_tracks(t), ..s.timeline })
                },
            ),
        }
    }
}

/// Everything `add_clips` answers and leaves: the effect and summary, and
/// the message for a missing or empty `entries` list.
pub open spec fn add_clips_outcome(s: EditorView, args: Json, r: ToolOutcome, n: EditorView) -> bool {
    &&& match add_clips_effect(s, args) {
        None => r is Error && n == s,
        Some(x) => n == x && (r matches ToolOutcome::Text(m) && m@ == add_message(
            s,
            parse_add_entries(spec_arg_array(args, "entries"@)->0, s)->0,
        )),
    }
    &&& (spec_arg_array(args, "entries"@) is None || spec_arg_array(args, "entries"@)->0.len() == 0 ==> (r matches ToolOutcome::Error(
        m,
    ) && m@ == "Missing or empty 'entries' array"@))
}

// ---------------------------------------------------------------------------
// Execution
// ---------------------------------------------------------------------------

/// Reads entry `i`; the error message names it.
fn read_add_entry(raw: &JsonValue, i: usize, s: &EditorState) -> (r: Result<AddEntry, String>)
    ensures
        r is Ok <==> parse_add_entry(raw@, s@) is Some,
        r matches Ok(e) ==> e@ == parse_add_entry(raw@, s@)->0 && entry_ok(e, s@.timeline.tracks.len()),
{
    proof {
        crate::model::lemma_editor_view(*s);
        reveal(parse_add_entry);
    }
    let path = indexed("entries", i);
    let media_ref = match arg_str(raw, "mediaRef") {
        Ok(m) => m,
        Err(e) => return Err(cat3(path.as_str(), ": ", e.as_str())),
    };
    let ai = match s.asset_index(media_ref.as_str()) {
        Some(ai) => ai,
        None => return Err(cat3(path.as_str(), ": media asset not found: ", media_ref.as_str())),
    };
    assert(s@.media_assets[ai as int] == s.media_assets@[ai as int]@);
    let at = s.media_assets[ai].media_type;
    let n_tracks = s.timeline.tracks.len();
    let track_index: Option<usize> = match arg_opt_i64(raw, "trackIndex") {
        Some(ti) => {
            if ti < 0 || (ti as u64) >= (n_tracks as u64) {
                let mut m = cat2(path.as_str(), ": trackIndex ");
                push_u64(&mut m, (#[verifier::truncate] (ti as u64)));
                push_str(&mut m, " out of range (0..");
                push_usize(&mut m, if n_tracks == 0 { 0 } else { n_tracks - 1 });
                push_str(&mut m, ")");
                return Err(m);
            }
            let tu = ti as usize;
            assert(s@.timeline.tracks[tu as int] == s.timeline.tracks@[tu as int]@);
            let target = s.timeline.tracks[tu].track_type;
            if !at.is_compatible_with(target) {
                let mut m = cat3(path.as_str(), ": asset type ", at.as_str());
                push_str(&mut m, " is not compatible with ");
                push_str(&mut m, target.as_str());
                push_str(&mut m, " track at index ");
                push_usize(&mut m, tu);
                return Err(m);
            }
            Some(tu)
        },
        None => None,
    };
    let start = match arg_i64(raw, "startFrame") {
        Ok(v) => {
            if v < 0 {
                let mut m = cat2(path.as_str(), ": startFrame must be >= 0 (got ");
                push_i64(&mut m, v);
                push_str(&mut m, ")");
                return Err(m);
            }
            v
        },
        Err(e) => return Err(cat3(path.as_str(), ": ", e.as_str())),
    };
    let duration = match arg_i64(raw, "durationFrames") {
        Ok(v) => {
            if v < 1 {
                let mut m = cat2(path.as_str(), ": durationFrames must be >= 1 (got ");
                push_i64(&mut m, v);
                push_str(&mut m, ")");
                return Err(m);
            }
            v
        },
        Err(e) => return Err(cat3(path.as_str(), ": ", e.as_str())),
    };
    let trim_start = match arg_opt_i64(raw, "trimStartFrame") {
        Some(v) => if v > 0 { v } else { 0 },
        None => 0,
    };
    let trim_end = match arg_opt_i64(raw, "trimEndFrame") {
        Some(v) => if v > 0 { v } else { 0 },
        None => 0,
    };
    Ok(AddEntry { media_ref: media_ref.clone(), track_index, start, duration, trim_start, trim_end, asset_type: at })
}

pub open spec fn entry_ok(e: AddEntry, n: nat) -> bool {
    &&& e.track_index matches Some(t) ==> t < n
    &&& e.start >= 0
    &&& e.duration >= 1
}

pub open spec fn entry_views(v: Seq<AddEntry>) -> Seq<EntryView> {
    v.map_values(|e: AddEntry| e@)
}

/// Reads every entry; the first rejected one gives the error.
fn read_add_entries(items: &Vec<JsonValue>, s: &EditorState) -> (r: Result<Vec<AddEntry>, String>)
    ensures
        r is Ok <==> parse_add_entries(json_of_seq(items@), s@) is Some,
        r matches Ok(v) ==> parse_add_entries(json_of_seq(items@), s@) == Some(entry_views(v@))
            && forall|j: int| 0 <= j < v@.len() ==> entry_ok(#[trigger] v@[j], s@.timeline.tracks.len()),
{
    let ghost js = json_of_seq(items@);
    proof { lemma_json_of_seq(items@); }
    let mut out: Vec<AddEntry> = Vec::new();
    let mut i: usize = 0;
    while i < items.len()
        invariant
            0 <= i <= items@.len(),
            js == json_of_seq(items@),
            js.len() == items@.len(),
            forall|j: int| 0 <= j < items@.len() ==> #[trigger] js[j] == items@[j]@,
            out@.len() == i,
            forall|j: int| 0 <= j < i ==> #[trigger] parse_add_entry(js[j], s@) == Some(out@[j]@),
            forall|j: int| 0 <= j < i ==> entry_ok(#[trigger] out@[j], s@.timeline.tracks.len()),
        decreases items.len() - i,
    {
        assert(js[i as int] == items@[i as int]@);
        match read_add_entry(&items[i], i, s) {
            Ok(e) => out.push(e),
            Err(m) => {
                assert(parse_add_entry(js[i as int], s@) is None);
                return Err(m);
            },
        }
        i = i + 1;
    }
    assert(entry_views(out@) =~= js.map_values(|j: Json| parse_add_entry(j, s@)->0));
    Ok(out)
}

proof fn lemma_place_none_prefix(tracks: Seq<TrackView>, es: Seq<EntryView>, idx: Seq<int>, counter: nat, k: int)
    requires
        0 <= k <= es.len(),
        es.len() == idx.len(),
        place_all(tracks, es.take(k), idx.take(k), counter) is None,
    ensures
        place_all(tracks, es, idx, counter) is None,
    decreases es.len(),
{
    if k == es.len() {
        assert(es.take(k) =~= es);
        assert(idx.take(k) =~= idx);
    } else {
        assert(es.drop_last().take(k) =~= es.take(k));
        assert(idx.drop_last().take(k) =~= idx.take(k));
        lemma_place_none_prefix(tracks, es.drop_last(), idx.drop_last(), counter, k);
    }
}

/// Places every entry on `tl`; `None` when a frame or id would overflow.
/// Also returns the per-clip summaries.
#[verifier::rlimit(80)]
#[verifier::spinoff_prover]
fn place_entries(tl: &mut Timeline, parsed: &Vec<AddEntry>, idx: &Vec<usize>, counter: u64) -> (r: Option<(u64, String)>)
    requires
        timeline_fits(old(tl)@),
        parsed@.len() == idx@.len(),
        forall|j: int| 0 <= j < idx@.len() ==> #[trigger] idx@[j] < old(tl)@.tracks.len(),
        forall|j: int| 0 <= j < parsed@.len() ==> (#[trigger] parsed@[j]).start >= 0 && parsed@[j].duration >= 1,
    ensures
        r is Some <==> place_all(old(tl)@.tracks, entry_views(parsed@), idx@.map_values(|t: usize| t as int), counter as nat) is Some,
        r matches Some((c, _)) ==> {
            &&& place_all(old(tl)@.tracks, entry_views(parsed@), idx@.map_values(|t: usize| t as int), counter as nat)
                == Some(final(tl)@.tracks)
            &&& final(tl)@ == (TimelineView { tracks: final(tl)@.tracks, ..old(tl)@ })
            &&& c == counter + parsed@.len()
            &&& timeline_fits(final(tl)@)
        },
        r matches Some((_, summary)) ==> summary@ == placed_summary(
            entry_views(parsed@),
            idx@.map_values(|t: usize| t as int),
            counter as nat,
        ),
{
    let ghost t0 = tl@;
    let ghost es = entry_views(parsed@);
    let ghost iv = idx@.map_values(|t: usize| t as int);
    let mut summary = string_of("");
    proof { reveal_strlit(""); }
    let mut c: u64 = counter;
    let mut k: usize = 0;
    assert(es.take(0) =~= Seq::<EntryView>::empty());
    assert(summary@ =~= placed_summary(es.take(0), iv.take(0), counter as nat));
    while k < parsed.len()
        invariant
            0 <= k <= parsed@.len(),
            parsed@.len() == idx@.len(),
            t0 == old(tl)@,
            es == entry_views(parsed@),
            iv == idx@.map_values(|t: usize| t as int),
            forall|j: int| 0 <= j < idx@.len() ==> #[trigger] idx@[j] < t0.tracks.len(),
            forall|j: int| 0 <= j < parsed@.len() ==> (#[trigger] parsed@[j]).start >= 0 && parsed@[j].duration >= 1,
            tl@ == (TimelineView { tracks: tl@.tracks, ..t0 }),
            tl@.tracks.len() == t0.tracks.len(),
            timeline_fits(tl@),
            c == counter + k,
            place_all(t0.tracks, es.take(k as int), iv.take(k as int), counter as nat) == Some(tl@.tracks),
            summary@ == placed_summary(es.take(k as int), iv.take(k as int), counter as nat),
            iv.len() == es.len(),
        decreases parsed.len() - k,
    {
        let e = &parsed[k];
        let ti = idx[k];
        assert(es[k as int] == e@);
        assert(iv[k as int] == ti as int);
        assert(es.take(k + 1).drop_last() =~= es.take(k as int));
        assert(iv.take(k + 1).drop_last() =~= iv.take(k as int));
        assert(es.take(k + 1).last() == e@);
        assert(iv.take(k + 1)[k as int] == ti as int);
        let end = match e.start.checked_add(e.duration) {
            Some(v) => v,
            None => {
                proof {
                    assert(place_all(t0.tracks, es.take(k + 1), iv.take(k + 1), counter as nat) is None);
                    lemma_place_none_prefix(t0.tracks, es, iv, counter as nat, k + 1);
                }
                return None;
            },
        };
        if c == u64::MAX {
            proof {
                assert(place_all(t0.tracks, es.take(k + 1), iv.take(k + 1), counter as nat) is None);
                lemma_place_none_prefix(t0.tracks, es, iv, counter as nat, k + 1);
            }
            return None;
        }
        assert(tl@.tracks[ti as int] == tl.tracks@[ti as int]@);
        assert(all_fit(tl@.tracks[ti as int].clips));
        if !check_region_fits(&tl.tracks[ti].clips, e.start, end) {
            proof {
                assert(place_all(t0.tracks, es.take(k + 1), iv.take(k + 1), counter as nat) is None);
                lemma_place_none_prefix(t0.tracks, es, iv, counter as nat, k + 1);
            }
            return None;
        }
        let ghost before = tl@;
        proof { lemma_cleared_fits(before.tracks[ti as int].clips, e.start as int, end as int); }
        clear_region(tl, ti, e.start, end);
        let id = minted("clip", c + 1);
        let clip = Clip::fresh(id, e.media_ref.clone(), e.asset_type, e.start, e.duration, e.trim_start, e.trim_end);
        let mut clips = tl.take_clips(ti);
        let ghost cv = clip@;
        let ghost prev = clips_view(clips@);
        clips.push(clip);
        assert(clips_view(clips@) =~= prev.push(cv));
        tl.put_clips(ti, clips);
        proof {
            assert(tl@.tracks =~= before.tracks.update(ti as int, TrackView {
                clips: cleared(before.tracks[ti as int].clips, e.start as int, end as int).push(cv),
                ..before.tracks[ti as int]
            }));
            assert forall|j: int| 0 <= j < tl@.tracks.len() implies all_fit(#[trigger] tl@.tracks[j].clips) by {
                if j != ti as int {
                    assert(tl@.tracks[j] == before.tracks[j]);
                }
            }
        }
        let ghost before_summary = summary@;
        proof { reveal_strlit(""); }
        if k > 0 {
            push_str(&mut summary, "; ");
        }
        push_str(&mut summary, "clip-");
        push_u64(&mut summary, c + 1);
        push_str(&mut summary, " on track ");
        push_usize(&mut summary, ti);
        push_str(&mut summary, " @ ");
        push_i64(&mut summary, e.start);
        push_str(&mut summary, " for ");
        push_i64(&mut summary, e.duration);
        if e.trim_start != 0 {
            push_str(&mut summary, " trimStart ");
            push_i64(&mut summary, e.trim_start);
        }
        if e.trim_end != 0 {
            push_str(&mut summary, " trimEnd ");
            push_i64(&mut summary, e.trim_end);
        }
        proof {
            let piece = entry_summary(e@, ti as int, (counter + k) as nat);
            assert(iv.take(k + 1).take(k as int) =~= iv.take(k as int));
            if k == 0 {
                assert(summary@ =~= piece);
            } else {
                assert(summary@ =~= before_summary + "; "@ + piece);
            }
        }
        c = c + 1;
        k = k + 1;
    }
    assert(es.take(k as int) =~= es);
    assert(iv.take(k as int) =~= iv);
    Some((c, summary))
}

/// Inserts the shared tracks into `tl`.
fn create_shared(tl: &mut Timeline, nv: bool, na: bool, counter: u64) -> (r: u64)
    requires
        counter + 2 <= u64::MAX,
        timeline_fits(old(tl)@),
    ensures
        shared_tracks(old(tl)@.tracks, nv, na, counter as nat) == (final(tl)@.tracks, r as nat),
        final(tl)@ == (TimelineView { tracks: final(tl)@.tracks, ..old(tl)@ }),
        timeline_fits(final(tl)@),
{
    let ghost t0 = tl@;
    let mut c = counter;
    if nv {
        c = c + 1;
        let id = minted("track", c);
        let tr = Track::new(id, ClipType::Video);
        let ghost tv = tr@;
        tl.tracks.insert(0, tr);
        assert(tl@.tracks =~= t0.tracks.insert(0, tv));
    }
    let ghost t1 = tl@;
    assert(timeline_fits(t1)) by {
        assert forall|j: int| 0 <= j < t1.tracks.len() implies all_fit(#[trigger] t1.tracks[j].clips) by {
            if nv && j > 0 {
                assert(t1.tracks[j] == t0.tracks[j - 1]);
            } else if !nv {
                assert(t1.tracks[j] == t0.tracks[j]);
            }
        }
    }
    if na {
        c = c + 1;
        let id = minted("track", c);
        let tr = Track::new(id, ClipType::Audio);
        let ghost tv = tr@;
        let at: usize = if nv { 1 } else { 0 };
        tl.tracks.insert(at, tr);
        assert(tl@.tracks =~= t1.tracks.insert(at as int, tv));
        assert forall|j: int| 0 <= j < tl@.tracks.len() implies all_fit(#[trigger] tl@.tracks[j].clips) by {
            if j < at {
                assert(tl@.tracks[j] == t1.tracks[j]);
            } else if j > at {
                assert(tl@.tracks[j] == t1.tracks[j - 1]);
            }
        }
    }
    c
}

/// Placing `n` clips from a counter with fewer than `n` ids left fails.
proof fn lemma_place_counter_overflow(tracks: Seq<TrackView>, es: Seq<EntryView>, idx: Seq<int>, counter: nat)
    requires
        es.len() >= 1,
        counter + es.len() > u64::MAX,
    ensures
        place_all(tracks, es, idx, counter) is None,
{
}

pub open spec fn placement_start_indexes(es: Seq<EntryView>) -> Seq<int> {
    if all_omitted(es) {
        es.map_values(|e: EntryView| shared_index(e, es))
    } else {
        es.map_values(|e: EntryView| e.track_index->0)
    }
}

fn target_indexes(parsed: &Vec<AddEntry>, all_om: bool, nv: bool, Ghost(sv): Ghost<EditorView>) -> (r: Vec<usize>)
    requires
        all_om == all_omitted(entry_views(parsed@)),
        !all_om ==> all_explicit(entry_views(parsed@)),
        nv == needs_visual(entry_views(parsed@)),
        forall|i: int| 0 <= i < parsed@.len() ==> entry_ok(#[trigger] parsed@[i], sv.timeline.tracks.len()),
    ensures
        r@.map_values(|t: usize| t as int) == placement_start_indexes(entry_views(parsed@)),
        forall|i: int| 0 <= i < r@.len() ==> (#[trigger] r@[i]) < (if all_om {
            if nv && needs_audio(entry_views(parsed@)) { 2int } else { 1int }
        } else {
            sv.timeline.tracks.len() as int
        }),
{
    let ghost es = entry_views(parsed@);
    let ghost want = placement_start_indexes(es);
    let n = parsed.len();
    let mut idx: Vec<usize> = Vec::new();
    let mut j: usize = 0;
    while j < n
        invariant
            0 <= j <= n,
            n == parsed@.len(),
            es == entry_views(parsed@),
            want == placement_start_indexes(es),
            idx@.len() == j,
            all_om == all_omitted(es),
            !all_om ==> all_explicit(es),
            nv == needs_visual(es),
            forall|i: int| 0 <= i < parsed@.len() ==> entry_ok(#[trigger] parsed@[i], sv.timeline.tracks.len()),
            forall|i: int| 0 <= i < j ==> (#[trigger] idx@[i]) as int == want[i],
            forall|i: int| 0 <= i < j ==> (#[trigger] idx@[i]) < (if all_om {
                if nv && needs_audio(es) { 2int } else { 1int }
            } else {
                sv.timeline.tracks.len() as int
            }),
        decreases n - j,
    {
        let e = &parsed[j];
        assert(es[j as int] == e@);
        let t: usize = if all_om {
            if e.asset_type == ClipType::Audio && nv {
                assert(needs_audio(es));
                1
            } else {
                0
            }
        } else {
            assert(es[j as int].track_index is Some);
            match e.track_index {
                Some(t) => t,
                None => 0,
            }
        };
        idx.push(t);
        j = j + 1;
    }
    assert(idx@.map_values(|t: usize| t as int) =~= want);
    idx
}

/// How many entries omit `trackIndex`, and whether any is visual / audio.
fn entry_kinds(parsed: &Vec<AddEntry>) -> (r: (usize, bool, bool))
    ensures
        r.0 <= parsed@.len(),
        (r.0 == 0) == all_explicit(entry_views(parsed@)),
        (r.0 == parsed@.len()) == all_omitted(entry_views(parsed@)),
        r.1 == needs_visual(entry_views(parsed@)),
        r.2 == needs_audio(entry_views(parsed@)),
{
    let ghost es = entry_views(parsed@);
    let mut omitted: usize = 0;
    let mut nv = false;
    let mut na = false;
    let mut k: usize = 0;
    while k < parsed.len()
        invariant
            0 <= k <= parsed@.len(),
            es == entry_views(parsed@),
            omitted <= k,
            (omitted == 0) == (forall|j: int| 0 <= j < k ==> (#[trigger] es[j]).track_index is Some),
            (omitted == k) == (forall|j: int| 0 <= j < k ==> (#[trigger] es[j]).track_index is None),
            nv == (exists|j: int| 0 <= j < k && (#[trigger] es[j]).asset_type != ClipType::Audio),
            na == (exists|j: int| 0 <= j < k && (#[trigger] es[j]).asset_type == ClipType::Audio),
        decreases parsed.len() - k,
    {
        let e = &parsed[k];
        assert(es[k as int] == e@);
        if e.track_index.is_none() {
            assert(!(forall|j: int| 0 <= j < k + 1 ==> (#[trigger] es[j]).track_index is Some));
            if omitted < k {
                assert(!(forall|j: int| 0 <= j < k ==> (#[trigger] es[j]).track_index is None));
            }
            omitted = omitted + 1;
        } else {
            if omitted > 0 {
                assert(!(forall|j: int| 0 <= j < k ==> (#[trigger] es[j]).track_index is Some));
            }
            assert(!(forall|j: int| 0 <= j < k + 1 ==> (#[trigger] es[j]).track_index is None));
        }
        if e.asset_type == ClipType::Audio {
            na = true;
        } else {
            nv = true;
        }
        k = k + 1;
    }
    (omitted, nv, na)
}

pub fn tool_add_clips(s: &mut EditorState, args: &JsonValue) -> (r: ToolOutcome)
    requires
        timeline_fits(old(s)@.timeline),
    ensures
        add_clips_outcome(old(s)@, args@, r, final(s)@),
{
    let entries = match arg_array(args, "entries") {
        Some(a) => a,
        None => return err(string_of("Missing or empty 'entries' array")),
    };
    if entries.len() == 0 {
        return err(string_of("Missing or empty 'entries' array"));
    }
    let parsed = match read_add_entries(entries, s) {
        Ok(v) => v,
        Err(m) => return err(m),
    };
    apply_entries(s, parsed)
}

#[verifier::rlimit(60)]
#[verifier::spinoff_prover]
fn apply_entries(s: &mut EditorState, parsed: Vec<AddEntry>) -> (r: ToolOutcome)
    requires
        timeline_fits(old(s)@.timeline),
        parsed@.len() > 0,
        forall|j: int| 0 <= j < parsed@.len() ==> entry_ok(#[trigger] parsed@[j], old(s)@.timeline.tracks.len()),
    ensures
        match add_entries_effect(old(s)@, entry_views(parsed@)) {
            None => r is Error && final(s)@ == old(s)@,
            Some(n) => final(s)@ == n && (r matches ToolOutcome::Text(m) && m@ == add_message(old(s)@, entry_views(parsed@))),
        },
{
    proof { crate::model::lemma_editor_view(*s); }
    let ghost es = entry_views(parsed@);
    assert(es.len() == parsed@.len());
    let (omitted, nv, na) = entry_kinds(&parsed);
    let n = parsed.len();
    if omitted != 0 && omitted != n {
        let mut m = string_of("Mixed trackIndex: ");
        push_usize(&mut m, omitted);
        push_str(&mut m, " of ");
        push_usize(&mut m, n);
        push_str(&mut m, " entries omitted trackIndex. Either set it on every entry or omit it on every entry (to auto-create shared tracks).");
        return err(m);
    }
    let all_om = omitted == n;
    let extra: u64 = if all_om { (if nv { 1u64 } else { 0u64 }) + (if na { 1u64 } else { 0u64 }) } else { 0 };
    let ghost start = placement_start(s@, es);
    assert(start.2 == s@.id_counter + extra);
    if (n as u64) > u64::MAX - s.id_counter || extra > u64::MAX - s.id_counter - (n as u64) {
        proof { lemma_place_counter_overflow(start.0, es, start.1, start.2); }
        return overflow_error();
    }
    let mut tl = s.timeline.duplicate();
    let mut counter = s.id_counter;
    if all_om {
        counter = create_shared(&mut tl, nv, na, counter);
    }
    let idx = target_indexes(&parsed, all_om, nv, Ghost(s@));
    proof {
        if all_om {
            assert(tl@.tracks.len() == start.0.len());
        }
    }
    let (c, summary) = match place_entries(&mut tl, &parsed, &idx, counter) {
        Some(p) => p,
        None => return overflow_error(),
    };
    proof { lemma_sort_tracks_fits(tl@); }
    sort_all_tracks(&mut tl);
    let name = if n == 1 { string_of("Add Clip (Agent)") } else { string_of("Add Clips (Agent)") };
    commit(s, name, tl);
    proof { crate::model::lemma_editor_view(*s); }
    s.id_counter = c;
    proof { crate::model::lemma_editor_view(*s); }
    let mut m = string_of("");
    proof { reveal_strlit(""); }
    if all_om {
        push_str(&mut m, "Created ");
        if nv {
            push_str(&mut m, "track 0 ('");
            push_str(&mut m, clip_type_label(ClipType::Video));
            push_str(&mut m, "', video)");
        }
        if na {
            if nv {
                push_str(&mut m, ", track 1 ('");
            } else {
                push_str(&mut m, "track 0 ('");
            }
            push_str(&mut m, clip_type_label(ClipType::Audio));
            push_str(&mut m, "', audio)");
        }
        push_str(&mut m, ". ");
    }
    push_str(&mut m, "Added ");
    push_usize(&mut m, n);
    push_str(&mut m, if n == 1 { " clip: " } else { " clips: " });
    push_str(&mut m, summary.as_str());
    ok(m)
}

} // verus!
