//! The `ripple_delete_ranges` tool.

use vstd::prelude::*;
use crate::edit::{ranges_proper, total_length};
use crate::json::{Json, JsonValue, json_of_seq, lemma_json_of_seq};
use crate::model::{ClipView, EditorState, EditorView, TimelineView, all_fit, clip_fits, clip_intersects, spec_find_clip, timeline_fits};
use crate::ripple::{
    lemma_merge_proper, lemma_sort_ranges_multiset, merge_range_list, merge_ranges, ripple_timeline, ripple_tracks_spec,
    sort_range_list, sort_ranges,
};
use crate::text::{dec_int, dec_nat, push_i64, push_str, push_usize, string_of};
use crate::tools::args::{
    ToolOutcome, arg_array, arg_opt_i64, arg_opt_str, cat2, cat_int, cat_usize, err, indexed, ok, spec_arg_array, spec_arg_int,
    spec_arg_str,
};
use crate::tools::timeline::{commit, edited, overflow_error};

verus! {

/// `[startFrame, endFrame]` with both integers and start before end.
pub open spec fn range_of(j: Json) -> Option<(i64, i64)> {
    match j.as_array() {
        Some(a) => if a.len() == 2 && a[0].as_int() is Some && a[1].as_int() is Some && a[0].as_int()->0
            < a[1].as_int()->0 {
            Some((a[0].as_int()->0, a[1].as_int()->0))
        } else {
            None
        },
        None => None,
    }
}

/// Every item read as a range; `None` if one is not.
pub open spec fn parse_ranges(items: Seq<Json>) -> Option<Seq<(i64, i64)>> {
    if forall|i: int| 0 <= i < items.len() ==> (#[trigger] range_of(items[i])) is Some {
        Some(items.map_values(|j: Json| range_of(j)->0))
    } else {
        None
    }
}

/// The anchor track named by `trackIndex`, if any.
pub open spec fn anchor_of(args: Json) -> Option<int> {
    match spec_arg_int(args, "trackIndex"@) {
        Some(i) => Some(i as int),
        None => None,
    }
}

pub open spec fn ripple_name(n: int) -> Seq<char> {
    if n == 1 { "Ripple Delete (Agent)"@ } else { "Ripple Delete Ranges (Agent)"@ }
}

/// `sr` cut down to `[cs, ce)`: ranges outside it dropped, the rest
/// clamped to it.
pub open spec fn clamp_ranges(sr: Seq<(i64, i64)>, cs: i64, ce: i64) -> Seq<(i64, i64)>
    decreases sr.len(),
{
    if sr.len() == 0 {
        Seq::empty()
    } else {
        let pre = clamp_ranges(sr.drop_last(), cs, ce);
        let r = sr.last();
        let a = if r.0 > cs { r.0 } else { cs };
        let b = if r.1 < ce { r.1 } else { ce };
        if a < b { pre.push((a, b)) } else { pre }
    }
}

/// The ranges a call cuts and its anchor track: the sorted, joined ranges
/// with the `trackIndex` anchor (or none); with `clipId`, the ranges
/// clamped to that clip's span, anchored on its track. `None` when the clip
/// is unknown or no range meets it.
pub open spec fn ripple_plan(s: EditorView, args: Json, rs: Seq<(i64, i64)>) -> Option<(Seq<(i64, i64)>, Option<int>)> {
    let sr = merge_ranges(sort_ranges(rs));
    match spec_arg_str(args, "clipId"@) {
        None => Some((sr, anchor_of(args))),
        Some(id) => match spec_find_clip(s.timeline, id) {
            None => None,
            Some((ti, ci)) => {
                let c = s.timeline.tracks[ti as int].clips[ci as int];
                let cr = clamp_ranges(sr, c.start_frame, (c.start_frame + c.duration_frames) as i64);
                if cr.len() == 0 { None } else { Some((cr, Some(ti as int))) }
            },
        },
    }
}

/// Whether the call's mode is acceptable: not both `clipId` and
/// `trackIndex`, and `units`, when given, is `frames`.
pub open spec fn mode_ok(args: Json) -> bool {
    &&& !(spec_arg_str(args, "clipId"@) is Some && spec_arg_int(args, "trackIndex"@) is Some)
    &&& args.get("units"@) is Some ==> spec_arg_str(args, "units"@) == Some("frames"@)
}

/// The clip meets one of the ranges.
pub open spec fn clip_hit(c: ClipView, sr: Seq<(i64, i64)>) -> bool {
    exists|k: int| 0 <= k < sr.len() && clip_intersects(c, (#[trigger] sr[k]).0 as int, sr[k].1 as int)
}

/// `c` is linked to a clip of track `a` that one of the ranges meets.
pub open spec fn linked_to_hit(t: TimelineView, sr: Seq<(i64, i64)>, a: int, c: ClipView) -> bool {
    &&& c.link_group_id is Some
    &&& exists|d: int|
        0 <= d < t.tracks[a].clips.len() && (#[trigger] t.tracks[a].clips[d]).link_group_id == c.link_group_id
            && clip_hit(t.tracks[a].clips[d], sr)
}

/// Which tracks are cut: every one without an anchor; with anchor `a`, the
/// anchor and each track that holds a linked partner of an anchor clip the
/// ranges meet, so that the partners are cut on the same spans.
pub open spec fn cut_tracks(t: TimelineView, sr: Seq<(i64, i64)>, anchor: Option<int>) -> Seq<bool> {
    Seq::new(
        t.tracks.len(),
        |j: int|
            match anchor {
                None => true,
                Some(a) => j == a || exists|ci: int|
                    0 <= ci < t.tracks[j].clips.len() && linked_to_hit(t, sr, a, #[trigger] t.tracks[j].clips[ci]),
            },
    )
}

/// What `ripple_delete_ranges` does: overlapping ranges are joined; with
/// `clipId` they are clamped to that clip and its track is the anchor. The
/// ranges are then cut out of the anchor track (`trackIndex`), or out of
/// every track when there is none (a clip that a range splits keeps its id
/// on its first piece, later pieces get fresh ids); with an anchor, the
/// tracks holding linked partners of the anchor clips that a range meets
/// are cut too, and the other sync-locked tracks shift along without being
/// cut. Each remaining
/// clip moves left by the frames cut before its start, and each changed
/// track is re-sorted by start frame. `None` for an error, with the state
/// left as it was.
pub open spec fn ripple_delete_effect(s: EditorView, args: Json) -> Option<EditorView> {
    if !track_index_ok(s, args) {
        None
    } else {
        match spec_arg_array(args, "ranges"@) {
            Some(items) => if items.len() == 0 {
                None
            } else {
                match parse_ranges(items) {
                    Some(rs) => if !mode_ok(args) {
                        None
                    } else {
                        match ripple_plan(s, args, rs) {
                            None => None,
                            Some((sr, anchor)) => if total_length(sr) > i64::MAX {
                                None
                            } else {
                                match ripple_tracks_spec(s.timeline.tracks, sr, s.id_counter as nat, cut_tracks(s.timeline, sr, anchor)) {
                                    Some((tracks, c)) => Some(
                                        EditorView {
                                            id_counter: c as u64,
                                            ..edited(s, ripple_name(rs.len() as int), TimelineView { tracks, ..s.timeline })
                                        },
                                    ),
                                    None => None,
                                }
                            },
                        }
                    },
                    None => None,
                }
            },
            None => None,
        }
    }
}

/// One clip of a track layout: `id @ start for duration`.
pub open spec fn clip_layout(c: ClipView) -> Seq<char> {
    c.id + " @ "@ + dec_int(c.start_frame as int) + " for "@ + dec_int(c.duration_frames as int)
}

/// A track's clips in order, joined by `, `; `no clips` for none.
pub open spec fn layout_text(cs: Seq<ClipView>) -> Seq<char>
    decreases cs.len(),
{
    if cs.len() == 0 {
        "no clips"@
    } else if cs.len() == 1 {
        clip_layout(cs[0])
    } else {
        layout_text(cs.drop_last()) + ", "@ + clip_layout(cs.last())
    }
}

/// The summary of a successful `ripple_delete_ranges`: how many ranges
/// were given and how many frames were cut, then, with an anchor track,
/// that track's clips after the cut (`n` is the state after the call).
pub open spec fn ripple_message(s: EditorView, args: Json, n: EditorView) -> Seq<char> {
    let rs = parse_ranges(spec_arg_array(args, "ranges"@)->0)->0;
    let plan = ripple_plan(s, args, rs)->0;
    "Ripple-deleted "@ + dec_nat(rs.len()) + (if rs.len() == 1 { " range (total "@ } else { " ranges (total "@ })
        + dec_int(total_length(plan.0)) + "f removed)."@ + match plan.1 {
        Some(a) => " Track "@ + dec_nat(a as nat) + ": "@ + layout_text(n.timeline.tracks[a].clips) + "."@,
        None => ""@,
    }
}

/// Clamping keeps every range non-empty.
proof fn lemma_clamp_proper(sr: Seq<(i64, i64)>, cs: i64, ce: i64)
    ensures
        ranges_proper(clamp_ranges(sr, cs, ce)),
    decreases sr.len(),
{
    if sr.len() > 0 {
        lemma_clamp_proper(sr.drop_last(), cs, ce);
    }
}

/// `sorted` clamped to `[cs, ce)`.
fn clamp_range_list(sorted: &Vec<(i64, i64)>, cs: i64, ce: i64) -> (r: Vec<(i64, i64)>)
    ensures
        r@ == clamp_ranges(sorted@, cs, ce),
{
    let mut out: Vec<(i64, i64)> = Vec::new();
    let mut i: usize = 0;
    assert(sorted@.take(0) =~= Seq::<(i64, i64)>::empty());
    while i < sorted.len()
        invariant
            0 <= i <= sorted@.len(),
            out@ == clamp_ranges(sorted@.take(i as int), cs, ce),
        decreases sorted.len() - i,
    {
        let (x, y) = sorted[i];
        assert(sorted@.take(i + 1).drop_last() =~= sorted@.take(i as int));
        assert(sorted@.take(i + 1).last() == (x, y));
        let a = if x > cs { x } else { cs };
        let b = if y < ce { y } else { ce };
        if a < b {
            out.push((a, b));
        }
        i = i + 1;
    }
    assert(sorted@.take(i as int) =~= sorted@);
    out
}

proof fn lemma_sorted_proper(rs: Seq<(i64, i64)>)
    requires
        ranges_proper(rs),
    ensures
        ranges_proper(sort_ranges(rs)),
{
    broadcast use vstd::seq_lib::group_to_multiset_ensures;
    lemma_sort_ranges_multiset(rs);
    let sr = sort_ranges(rs);
    assert forall|i: int| 0 <= i < sr.len() implies (#[trigger] sr[i]).0 < sr[i].1 by {
        assert(sr.contains(sr[i]));
        assert(sr.to_multiset().count(sr[i]) > 0);
        assert(rs.contains(sr[i]));
    }
}

/// Reads one `[startFrame, endFrame]` pair; the error names entry `i`.
fn read_range(raw: &JsonValue, i: usize) -> (r: Result<(i64, i64), String>)
    ensures
        r is Ok <==> range_of(raw@) is Some,
        r matches Ok(p) ==> range_of(raw@) == Some(p),
{
    let arr = match raw.as_array() {
        Some(a) => a,
        None => {
            let p = indexed("ranges", i);
            return Err(cat2(p.as_str(), ": expected [startFrame, endFrame] pair"));
        },
    };
    proof { lemma_json_of_seq(arr@); }
    if arr.len() != 2 {
        let p = indexed("ranges", i);
        return Err(cat2(p.as_str(), ": expected [startFrame, endFrame] pair"));
    }
    assert(raw@.as_array()->0[0] == arr@[0]@);
    assert(raw@.as_array()->0[1] == arr@[1]@);
    let start = match arr[0].as_int() {
        Some(n) => n,
        None => {
            let p = indexed("ranges", i);
            return Err(cat2(p.as_str(), "[0]: expected integer"));
        },
    };
    let end = match arr[1].as_int() {
        Some(n) => n,
        None => {
            let p = indexed("ranges", i);
            return Err(cat2(p.as_str(), "[1]: expected integer"));
        },
    };
    if start >= end {
        let p = indexed("ranges", i);
        let mut m = cat_int(": startFrame must be < endFrame (got [", start, ", ");
        push_i64(&mut m, end);
        push_str(&mut m, "])");
        return Err(cat2(p.as_str(), m.as_str()));
    }
    Ok((start, end))
}

/// Total frames the ranges cover; `None` when that exceeds `i64::MAX`.
fn total_removed(sorted: &Vec<(i64, i64)>) -> (r: Option<i64>)
    requires
        ranges_proper(sorted@),
    ensures
        r is Some <==> total_length(sorted@) <= i64::MAX,
        r matches Some(t) ==> t == total_length(sorted@),
{
    let mut total: i64 = 0;
    let mut k: usize = 0;
    while k < sorted.len()
        invariant
            0 <= k <= sorted@.len(),
            ranges_proper(sorted@),
            total == total_length(sorted@.take(k as int)),
        decreases sorted.len() - k,
    {
        let (a, b) = sorted[k];
        assert(sorted@.take(k + 1).drop_last() =~= sorted@.take(k as int));
        assert(sorted@.take(k + 1).last() == sorted@[k as int]);
        proof {
            crate::edit::lemma_total_prefix(sorted@, k + 1);
            crate::edit::lemma_total_prefix(sorted@, k as int);
        }
        let d = match b.checked_sub(a) {
            Some(d) => d,
            None => return None,
        };
        total = match total.checked_add(d) {
            Some(t) => t,
            None => return None,
        };
        k = k + 1;
    }
    assert(sorted@.take(k as int) =~= sorted@);
    Some(total)
}

pub open spec fn track_index_ok(s: EditorView, args: Json) -> bool {
    !(spec_arg_int(args, "trackIndex"@) matches Some(i) && !(0 <= i < s.timeline.tracks.len()))
}

/// Everything `ripple_delete_ranges` answers and leaves: the effect and
/// summary, and the message for a track index out of range or a missing
/// or empty `ranges` list.
pub open spec fn ripple_outcome(s: EditorView, args: Json, r: ToolOutcome, n: EditorView) -> bool {
    &&& match ripple_delete_effect(s, args) {
        None => r is Error && n == s,
        Some(x) => n == x && (r matches ToolOutcome::Text(m) && m@ == ripple_message(s, args, x)),
    }
    &&& match spec_arg_int(args, "trackIndex"@) {
        Some(i) => !(0 <= i < s.timeline.tracks.len()) ==> (r matches ToolOutcome::Error(m) && m@ == "trackIndex "@ + dec_int(i as int)
            + " out of range (timeline has "@ + dec_nat(s.timeline.tracks.len()) + if s.timeline.tracks.len() == 1 {
            " track)"@
        } else {
            " tracks)"@
        }),
        None => true,
    }
    &&& (track_index_ok(s, args) && (spec_arg_array(args, "ranges"@) is None || spec_arg_array(args, "ranges"@)->0.len() == 0) ==> (r matches ToolOutcome::Error(
        m,
    ) && m@ == "Missing or empty 'ranges' array"@))
}

#[verifier::rlimit(60)]
#[verifier::spinoff_prover]
pub fn tool_ripple_delete_ranges(s: &mut EditorState, args: &JsonValue) -> (r: ToolOutcome)
    requires
        timeline_fits(old(s)@.timeline),
    ensures
        ripple_outcome(old(s)@, args@, r, final(s)@),
{
    proof { crate::model::lemma_editor_view(*s); }
    let track_count = s.timeline.tracks.len();
    let anchor: Option<usize> = match arg_opt_i64(args, "trackIndex") {
        Some(idx) => {
            if idx < 0 || (idx as u64) >= (track_count as u64) {
                let mut m = cat_int("trackIndex ", idx, " out of range (timeline has ");
                let tail = if track_count == 1 { " track)" } else { " tracks)" };
                return err(cat_usize(m.as_str(), track_count, tail));
            }
            Some(idx as usize)
        },
        None => None,
    };
    assert(crate::ripple::opt_int(anchor) == anchor_of(args@));
    let ranges = match arg_array(args, "ranges") {
        Some(a) => a,
        None => return err(string_of("Missing or empty 'ranges' array")),
    };
    if ranges.len() == 0 {
        return err(string_of("Missing or empty 'ranges' array"));
    }
    let ghost items = json_of_seq(ranges@);
    proof { lemma_json_of_seq(ranges@); }
    let mut parsed: Vec<(i64, i64)> = Vec::new();
    let mut i: usize = 0;
    while i < ranges.len()
        invariant
            0 <= i <= ranges@.len(),
            items == json_of_seq(ranges@),
            items == spec_arg_array(args@, "ranges"@)->0,
            spec_arg_array(args@, "ranges"@) is Some,
            items.len() == ranges@.len(),
            items.len() > 0,
            s@ == old(s)@,
            track_index_ok(s@, args@),
            forall|j: int| 0 <= j < ranges@.len() ==> #[trigger] items[j] == ranges@[j]@,
            parsed@.len() == i,
            forall|j: int| 0 <= j < i ==> #[trigger] range_of(items[j]) == Some(parsed@[j]),
        decreases ranges.len() - i,
    {
        assert(items[i as int] == ranges@[i as int]@);
        match read_range(&ranges[i], i) {
            Ok(p) => parsed.push(p),
            Err(m) => {
                assert(parse_ranges(items) is None) by {
                    assert(range_of(items[i as int]) is None);
                }
                return err(m);
            },
        }
        i = i + 1;
    }
    assert(parsed@ =~= items.map_values(|j: Json| range_of(j)->0));
    assert(ranges_proper(parsed@)) by {
        assert forall|j: int| 0 <= j < parsed@.len() implies (#[trigger] parsed@[j]).0 < parsed@[j].1 by {
            assert(range_of(items[j]) == Some(parsed@[j]));
        }
    }
    proof { lemma_sorted_proper(parsed@); }
    let count = parsed.len();
    let ghost rs = parsed@;
    let clip_id = arg_opt_str(args, "clipId");
    if clip_id.is_some() && anchor.is_some() {
        return err(string_of("Pass exactly one of clipId or trackIndex."));
    }
    if args.get("units").is_some() {
        let frames = match arg_opt_str(args, "units") {
            Some(u) => crate::text::str_eq(u.as_str(), "frames"),
            None => false,
        };
        if !frames {
            return err(string_of("Unsupported units: only 'frames' is accepted."));
        }
    }
    assert(mode_ok(args@));
    let sorted0 = sort_range_list(parsed);
    proof { lemma_merge_proper(sorted0@); }
    let merged = merge_range_list(&sorted0);
    assert(parse_ranges(items) == Some(rs));
    let (sorted, anchor) = match clip_id {
        None => (merged, anchor),
        Some(id) => match s.timeline.find_clip(id.as_str()) {
            None => return err(cat2("Clip not found: ", id.as_str())),
            Some((ti, ci)) => {
                assert(s@.timeline.tracks[ti as int].clips[ci as int] == s.timeline.tracks@[ti as int].clips@[ci as int]@);
                assert(all_fit(s@.timeline.tracks[ti as int].clips));
                assert(clip_fits(s@.timeline.tracks[ti as int].clips[ci as int]));
                let c = &s.timeline.tracks[ti].clips[ci];
                let cr = clamp_range_list(&merged, c.start_frame, c.end_frame());
                if cr.len() == 0 {
                    return err(cat2("No range overlaps clip ", id.as_str()));
                }
                proof { lemma_clamp_proper(merged@, c.start_frame, (c.start_frame + c.duration_frames) as i64); }
                (cr, Some(ti))
            },
        },
    };
    assert(ripple_plan(s@, args@, rs) == Some((sorted@, crate::ripple::opt_int(anchor))));
    let total = match total_removed(&sorted) {
        Some(t) => t,
        None => return overflow_error(),
    };
    let cut = cut_flags(&s.timeline, &sorted, anchor);
    let tl = s.timeline.duplicate();
    let (new_tl, counter) = match ripple_timeline(tl, &sorted, s.id_counter, &cut) {
        Some(p) => p,
        None => return overflow_error(),
    };
    let name = if count == 1 { string_of("Ripple Delete (Agent)") } else { string_of("Ripple Delete Ranges (Agent)") };
    assert(name@ == ripple_name(rs.len() as int));
    let ghost s0 = s@;
    let ghost want = EditorView {
        id_counter: counter,
        ..edited(s0, name@, TimelineView { tracks: new_tl@.tracks, ..s0.timeline })
    };
    assert(ripple_delete_effect(old(s)@, args@) == Some(want));
    commit(s, name, new_tl);
    proof { crate::model::lemma_editor_view(*s); }
    let ghost s1 = s@;
    s.id_counter = counter;
    proof { crate::model::lemma_editor_view(*s); }
    assert(s@.media_assets == s1.media_assets);
    assert(s@ == want);
    let mut m = cat_usize("Ripple-deleted ", count, if count == 1 { " range (total " } else { " ranges (total " });
    push_i64(&mut m, total);
    push_str(&mut m, "f removed).");
    proof {
        crate::ripple::lemma_ripple_tracks_len(s0.timeline.tracks, sorted@, s0.id_counter as nat, cut@);
        crate::model::lemma_editor_view(*s);
    }
    append_anchor(&mut m, &s.timeline, anchor);
    ok(m)
}

/// Whether one of the ranges meets the clip.
fn hits(c: &crate::model::Clip, sr: &Vec<(i64, i64)>) -> (r: bool)
    requires
        clip_fits(c@),
    ensures
        r == clip_hit(c@, sr@),
{
    let end = c.end_frame();
    let mut k: usize = 0;
    while k < sr.len()
        invariant
            0 <= k <= sr@.len(),
            end == crate::model::clip_end(c@),
            forall|m: int| 0 <= m < k ==> !clip_intersects(c@, (#[trigger] sr@[m]).0 as int, sr@[m].1 as int),
        decreases sr.len() - k,
    {
        if c.start_frame < sr[k].1 && end > sr[k].0 {
            assert(clip_intersects(c@, sr@[k as int].0 as int, sr@[k as int].1 as int));
            return true;
        }
        k = k + 1;
    }
    false
}

/// Whether a clip of track `a` in link group `g` is met by a range.
fn group_hit(t: &crate::model::Timeline, sr: &Vec<(i64, i64)>, a: usize, g: &String) -> (r: bool)
    requires
        timeline_fits(t@),
        a < t@.tracks.len(),
    ensures
        r == exists|d: int|
            0 <= d < t@.tracks[a as int].clips.len() && (#[trigger] t@.tracks[a as int].clips[d]).link_group_id == Some(g@)
                && clip_hit(t@.tracks[a as int].clips[d], sr@),
{
    assert(t@.tracks[a as int] == t.tracks@[a as int]@);
    let mut d: usize = 0;
    while d < t.tracks[a].clips.len()
        invariant
            a < t@.tracks.len(),
            t@.tracks[a as int] == t.tracks@[a as int]@,
            timeline_fits(t@),
            0 <= d <= t@.tracks[a as int].clips.len(),
            forall|m: int| 0 <= m < d ==> !((#[trigger] t@.tracks[a as int].clips[m]).link_group_id == Some(g@)
                && clip_hit(t@.tracks[a as int].clips[m], sr@)),
        decreases t.tracks@[a as int].clips@.len() - d,
    {
        let c = &t.tracks[a].clips[d];
        assert(t@.tracks[a as int].clips[d as int] == c@);
        assert(all_fit(t@.tracks[a as int].clips));
        let same = match &c.link_group_id {
            Some(x) => crate::text::str_eq(x.as_str(), g.as_str()),
            None => false,
        };
        if same && hits(c, sr) {
            return true;
        }
        d = d + 1;
    }
    false
}

/// Which tracks the cut reaches (see [`cut_tracks`]).
fn cut_flags(t: &crate::model::Timeline, sr: &Vec<(i64, i64)>, anchor: Option<usize>) -> (r: Vec<bool>)
    requires
        timeline_fits(t@),
        anchor matches Some(a) ==> a < t@.tracks.len(),
    ensures
        r@ == cut_tracks(t@, sr@, crate::ripple::opt_int(anchor)),
{
    let ghost want = cut_tracks(t@, sr@, crate::ripple::opt_int(anchor));
    let mut out: Vec<bool> = Vec::new();
    let mut j: usize = 0;
    while j < t.tracks.len()
        invariant
            0 <= j <= t@.tracks.len(),
            t.tracks@.len() == t@.tracks.len(),
            timeline_fits(t@),
            anchor matches Some(a) ==> a < t@.tracks.len(),
            want == cut_tracks(t@, sr@, crate::ripple::opt_int(anchor)),
            out@.len() == j,
            forall|m: int| 0 <= m < j ==> #[trigger] out@[m] == want[m],
        decreases t.tracks.len() - j,
    {
        let flag = match anchor {
            None => true,
            Some(a) => {
                if a == j {
                    true
                } else {
                    assert(t@.tracks[j as int] == t.tracks@[j as int]@);
                    let mut found = false;
                    let mut ci: usize = 0;
                    while ci < t.tracks[j].clips.len()
                        invariant
                            0 <= j < t@.tracks.len(),
                            a < t@.tracks.len(),
                            t@.tracks[j as int] == t.tracks@[j as int]@,
                            timeline_fits(t@),
                            0 <= ci <= t@.tracks[j as int].clips.len(),
                            found == exists|m: int| 0 <= m < ci && linked_to_hit(t@, sr@, a as int, #[trigger] t@.tracks[j as int].clips[m]),
                        decreases t.tracks@[j as int].clips@.len() - ci,
                    {
                        let c = &t.tracks[j].clips[ci];
                        assert(t@.tracks[j as int].clips[ci as int] == c@);
                        let linked = match &c.link_group_id {
                            Some(g) => group_hit(t, sr, a, g),
                            None => false,
                        };
                        assert(linked == linked_to_hit(t@, sr@, a as int, t@.tracks[j as int].clips[ci as int]));
                        found = found || linked;
                        ci = ci + 1;
                    }
                    found
                }
            },
        };
        assert(flag == want[j as int]);
        out.push(flag);
        j = j + 1;
    }
    assert(out@ =~= want);
    out
}

/// Appends ` Track a: <layout>.` for an anchor track `a`.
fn append_anchor(m: &mut String, t: &crate::model::Timeline, anchor: Option<usize>)
    requires
        anchor matches Some(a) ==> a < t@.tracks.len(),
    ensures
        final(m)@ == old(m)@ + match crate::ripple::opt_int(anchor) {
            Some(a) => " Track "@ + dec_nat(a as nat) + ": "@ + layout_text(t@.tracks[a].clips) + "."@,
            None => ""@,
        },
{
    proof { reveal_strlit(""); }
    match anchor {
        Some(a) => {
            assert(t@.tracks[a as int] == t.tracks@[a as int]@);
            push_str(m, " Track ");
            push_usize(m, a);
            push_str(m, ": ");
            append_layout(m, &t.tracks[a].clips);
            push_str(m, ".");
        },
        None => {
            assert(old(m)@ + ""@ =~= old(m)@);
        },
    }
}

/// Appends a track's layout to `m`.
fn append_layout(m: &mut String, clips: &Vec<crate::model::Clip>)
    ensures
        final(m)@ == old(m)@ + layout_text(crate::model::clips_view(clips@)),
{
    let ghost cv = crate::model::clips_view(clips@);
    let ghost head = m@;
    if clips.len() == 0 {
        push_str(m, "no clips");
        return;
    }
    let mut k: usize = 0;
    while k < clips.len()
        invariant
            0 <= k <= clips@.len(),
            cv == crate::model::clips_view(clips@),
            cv.len() == clips@.len(),
            cv.len() > 0,
            k == 0 ==> m@ == head,
            k > 0 ==> m@ == head + layout_text(cv.take(k as int)),
        decreases clips.len() - k,
    {
        let c = &clips[k];
        assert(cv[k as int] == c@);
        assert(cv.take(k + 1).drop_last() =~= cv.take(k as int));
        assert(cv.take(k + 1).last() == c@);
        if k > 0 {
            push_str(m, ", ");
        }
        push_str(m, c.id.as_str());
        push_str(m, " @ ");
        push_i64(m, c.start_frame);
        push_str(m, " for ");
        push_i64(m, c.duration_frames);
        proof {
            let piece = clip_layout(c@);
            if k == 0 {
                assert(cv.take(1) =~= seq![c@]);
                assert(m@ =~= head + piece);
            } else {
                assert(m@ =~= head + layout_text(cv.take(k as int)) + ", "@ + piece);
            }
        }
        k = k + 1;
    }
    assert(cv.take(k as int) =~= cv);
}

} // verus!
