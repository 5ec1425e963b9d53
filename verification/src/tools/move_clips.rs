//! The `move_clips` tool: moving clips to another frame or track, clearing
//! the landing region.

use vstd::prelude::*;
use crate::edit::{
    check_region_fits, clear_region, cleared, lemma_cleared_fits, lemma_sort_fits, region_fits, sort_by_start,
    sort_clips,
};
use crate::json::{Json, JsonValue, json_of_seq, lemma_json_of_seq};
use crate::model::{
    Clip, ClipView, EditorState, EditorView, Timeline, TimelineView, TrackView, all_fit, clip_end, clip_fits, clips_view, spec_find_clip,
    timeline_fits, with_clips,
};
use crate::text::{dec_nat, push_str, push_u64, push_usize, string_of};
use crate::tools::args::{ToolOutcome, arg_array, arg_opt_i64, arg_str, cat2, cat3, err, indexed, ok, spec_arg_array, spec_arg_int, spec_arg_str};
use crate::tools::remove_clips::{drop_ids, strs};
use crate::tools::timeline::{commit, edited, overflow_error};

verus! {

pub struct Move {
    pub clip_id: String,
    pub to_track: Option<usize>,
    pub to_frame: Option<i64>,
}

pub ghost struct MoveView {
    pub clip_id: Seq<char>,
    pub to_track: Option<int>,
    pub to_frame: Option<i64>,
}

impl View for Move {
    type V = MoveView;

    open spec fn view(&self) -> MoveView {
        MoveView {
            clip_id: self.clip_id@,
            to_track: match self.to_track {
                Some(t) => Some(t as int),
                None => None,
            },
            to_frame: self.to_frame,
        }
    }
}

pub open spec fn move_views(v: Seq<Move>) -> Seq<MoveView> {
    v.map_values(|m: Move| m@)
}

/// How one `moves` item is read against the state before any move.
#[verifier::opaque]
pub open spec fn parse_move(raw: Json, s: EditorView) -> Option<MoveView> {
    match spec_arg_str(raw, "clipId"@) {
        None => None,
        Some(id) => match spec_find_clip(s.timeline, id) {
            None => None,
            Some((cti, _)) => {
                let tt = spec_arg_int(raw, "toTrack"@);
                let track_ok = match tt {
                    Some(n) => 0 <= n < s.timeline.tracks.len() && s.timeline.tracks[cti as int].track_type.spec_is_compatible_with(
                        s.timeline.tracks[n as int].track_type,
                    ),
                    None => true,
                };
                let tf = match spec_arg_int(raw, "toFrame"@) {
                    Some(f) => Some(if f > 0 { f } else { 0i64 }),
                    None => None,
                };
                if !track_ok || (tt is None && tf is None) {
                    None
                } else {
                    Some(
                        MoveView {
                            clip_id: id,
                            to_track: match tt {
                                Some(n) => Some(n as int),
                                None => None,
                            },
                            to_frame: tf,
                        },
                    )
                }
            },
        },
    }
}

pub open spec fn parse_moves(items: Seq<Json>, s: EditorView) -> Option<Seq<MoveView>> {
    if forall|i: int| 0 <= i < items.len() ==> (#[trigger] parse_move(items[i], s)) is Some {
        Some(items.map_values(|j: Json| parse_move(j, s)->0))
    } else {
        None
    }
}

/// `nc` landed on track `dest` of `t`: its region cleared, the clip added,
/// the track sorted; `None` when a frame would overflow.
pub open spec fn land(t: TimelineView, dest: int, nc: ClipView) -> Option<TimelineView> {
    let start = nc.start_frame;
    let end = start + nc.duration_frames;
    if end > i64::MAX || !region_fits(t.tracks[dest].clips, start as int, end) {
        None
    } else {
        Some(with_clips(t, dest, sort_by_start(cleared(t.tracks[dest].clips, start as int, end).push(nc))))
    }
}

/// Whether `c` is a linked partner of clip `id` in link group `g`.
pub open spec fn is_partner(c: ClipView, g: Seq<char>, id: Seq<char>) -> bool {
    c.link_group_id == Some(g) && c.id != id
}

/// `c` moved by `delta` frames, never before frame 0.
pub open spec fn nudged(c: ClipView, delta: int) -> ClipView {
    let st = c.start_frame + delta;
    ClipView { start_frame: (if st < 0 { 0 } else { st }) as i64, ..c }
}

/// Every partner of clip `id` in group `g` can move by `delta`.
pub open spec fn partners_fit(t: TimelineView, g: Seq<char>, id: Seq<char>, delta: int) -> bool {
    forall|i: int, j: int|
        0 <= i < t.tracks.len() && 0 <= j < t.tracks[i].clips.len() && is_partner(#[trigger] t.tracks[i].clips[j], g, id)
            ==> t.tracks[i].clips[j].start_frame + delta <= i64::MAX && i64::MIN <= clip_end(t.tracks[i].clips[j]) + delta <= i64::MAX
}

/// Whether a track holds a partner of clip `id` in group `g`.
pub open spec fn holds_partner(clips: Seq<ClipView>, g: Seq<char>, id: Seq<char>) -> bool {
    exists|j: int| 0 <= j < clips.len() && is_partner(#[trigger] clips[j], g, id)
}

/// Every partner of clip `id` in group `g` moved by `delta` on its own
/// track; each track holding one is sorted again.
pub open spec fn move_partners(t: TimelineView, g: Seq<char>, id: Seq<char>, delta: int) -> TimelineView {
    TimelineView {
        tracks: t.tracks.map_values(
            |tr: TrackView|
                if holds_partner(tr.clips, g, id) {
                    TrackView {
                        clips: sort_by_start(tr.clips.map_values(|c: ClipView| if is_partner(c, g, id) { nudged(c, delta) } else { c })),
                        ..tr
                    }
                } else {
                    tr
                },
        ),
        ..t
    }
}

/// One move on `t`: the clip (first found by id) leaves its track (every
/// clip with that id there goes), takes its new start, clears its landing
/// region on the destination, lands there, and the destination is sorted;
/// its linked partners follow by the same change of start frame, each on
/// its own track. A clip no longer found is skipped. `None` when a frame
/// would overflow.
#[verifier::opaque]
pub open spec fn move_one(t: TimelineView, m: MoveView) -> Option<TimelineView> {
    match spec_find_clip(t, m.clip_id) {
        None => Some(t),
        Some((ti, ci)) => {
            let c = t.tracks[ti as int].clips[ci as int];
            let t1 = with_clips(t, ti as int, drop_ids(t.tracks[ti as int].clips, set![m.clip_id]));
            let dest = match m.to_track {
                Some(d) => d,
                None => ti as int,
            };
            let start = match m.to_frame {
                Some(f) => f,
                None => c.start_frame,
            };
            match land(t1, dest, ClipView { start_frame: start, ..c }) {
                None => None,
                Some(t2) => match c.link_group_id {
                    None => Some(t2),
                    Some(g) => {
                        let delta = start - c.start_frame;
                        if partners_fit(t2, g, c.id, delta) { Some(move_partners(t2, g, c.id, delta)) } else { None }
                    },
                },
            }
        },
    }
}

pub open spec fn move_all(t: TimelineView, ms: Seq<MoveView>) -> Option<TimelineView>
    decreases ms.len(),
{
    if ms.len() == 0 {
        Some(t)
    } else {
        match move_all(t, ms.drop_last()) {
            None => None,
            Some(t1) => move_one(t1, ms.last()),
        }
    }
}

/// What `move_clips` does: every move is validated against the current
/// state first, then the moves apply in order. `None` for an error, with
/// the state left as it was.
pub open spec fn move_clips_effect(s: EditorView, args: Json) -> Option<EditorView> {
    match spec_arg_array(args, "moves"@) {
        None => None,
        Some(items) => if items.len() == 0 {
            None
        } else {
            match parse_moves(items, s) {
                None => None,
                Some(ms) => match move_all(s.timeline, ms) {
                    None => None,
                    Some(t) => Some(
                        edited(s, if ms.len() == 1 { "Move Clip (Agent)"@ } else { "Move Clips (Agent)"@ }, t),
                    ),
                },
            }
        },
    }
}

/// The summary of a successful `move_clips`: how many moves it made.
pub open spec fn move_message(args: Json) -> Seq<char> {
    let n = spec_arg_array(args, "moves"@)->0.len();
    "Moved "@ + dec_nat(n) + if n == 1 { " clip."@ } else { " clips."@ }
}

/// Everything `move_clips` answers and leaves: the effect and summary, and
/// the message for a missing or empty `moves` list.
pub open spec fn move_outcome(s: EditorView, args: Json, r: ToolOutcome, n: EditorView) -> bool {
    &&& match move_clips_effect(s, args) {
        None => r is Error && n == s,
        Some(x) => n == x && (r matches ToolOutcome::Text(m) && m@ == move_message(args)),
    }
    &&& (spec_arg_array(args, "moves"@) is None || spec_arg_array(args, "moves"@)->0.len() == 0 ==> (r matches ToolOutcome::Error(
        m,
    ) && m@ == "Missing or empty 'moves' array"@))
}

// ---------------------------------------------------------------------------
// Execution
// ---------------------------------------------------------------------------

pub open spec fn move_ok(m: Move, n: nat) -> bool {
    &&& m.to_track matches Some(t) ==> t < n
    &&& m.to_frame matches Some(f) ==> f >= 0
}

fn read_move(raw: &JsonValue, i: usize, s: &EditorState) -> (r: Result<Move, String>)
    ensures
        r is Ok <==> parse_move(raw@, s@) is Some,
        r matches Ok(m) ==> m@ == parse_move(raw@, s@)->0 && move_ok(m, s@.timeline.tracks.len()),
{
    proof {
        crate::model::lemma_editor_view(*s);
        reveal(parse_move);
    }
    let path = indexed("moves", i);
    let clip_id = match arg_str(raw, "clipId") {
        Ok(c) => c,
        Err(e) => return Err(cat3(path.as_str(), ": ", e.as_str())),
    };
    let (cti, _ci) = match s.timeline.find_clip(clip_id.as_str()) {
        Some(loc) => loc,
        None => return Err(cat3(path.as_str(), ": clip not found: ", clip_id.as_str())),
    };
    let n_tracks = s.timeline.tracks.len();
    let to_track: Option<usize> = match arg_opt_i64(raw, "toTrack") {
        Some(n) => {
            if n < 0 || (n as u64) >= (n_tracks as u64) {
                let mut m = cat2(path.as_str(), ": toTrack ");
                push_u64(&mut m, (#[verifier::truncate] (n as u64)));
                push_str(&mut m, " out of range (0..");
                push_usize(&mut m, if n_tracks == 0 { 0 } else { n_tracks - 1 });
                push_str(&mut m, ")");
                return Err(m);
            }
            let t = n as usize;
            assert(s@.timeline.tracks[cti as int] == s.timeline.tracks@[cti as int]@);
            assert(s@.timeline.tracks[t as int] == s.timeline.tracks@[t as int]@);
            let src = s.timeline.tracks[cti].track_type;
            let dst = s.timeline.tracks[t].track_type;
            if !src.is_compatible_with(dst) {
                let mut m = cat2(path.as_str(), ": toTrack ");
                push_usize(&mut m, t);
                push_str(&mut m, " (");
                push_str(&mut m, dst.as_str());
                push_str(&mut m, ") is incompatible with clip's ");
                push_str(&mut m, src.as_str());
                push_str(&mut m, " source track");
                return Err(m);
            }
            Some(t)
        },
        None => None,
    };
    let to_frame: Option<i64> = match arg_opt_i64(raw, "toFrame") {
        Some(f) => Some(if f > 0 { f } else { 0 }),
        None => None,
    };
    if to_track.is_none() && to_frame.is_none() {
        return Err(cat2(path.as_str(), ": at least one of 'toTrack' or 'toFrame' is required"));
    }
    Ok(Move { clip_id: clip_id.clone(), to_track, to_frame })
}

fn read_moves(items: &Vec<JsonValue>, s: &EditorState) -> (r: Result<Vec<Move>, String>)
    ensures
        r is Ok <==> parse_moves(json_of_seq(items@), s@) is Some,
        r matches Ok(v) ==> parse_moves(json_of_seq(items@), s@) == Some(move_views(v@))
            && forall|j: int| 0 <= j < v@.len() ==> move_ok(#[trigger] v@[j], s@.timeline.tracks.len()),
{
    let ghost js = json_of_seq(items@);
    proof { lemma_json_of_seq(items@); }
    let mut out: Vec<Move> = Vec::new();
    let mut i: usize = 0;
    while i < items.len()
        invariant
            0 <= i <= items@.len(),
            js == json_of_seq(items@),
            js.len() == items@.len(),
            forall|j: int| 0 <= j < items@.len() ==> #[trigger] js[j] == items@[j]@,
            out@.len() == i,
            forall|j: int| 0 <= j < i ==> #[trigger] parse_move(js[j], s@) == Some(out@[j]@),
            forall|j: int| 0 <= j < i ==> move_ok(#[trigger] out@[j], s@.timeline.tracks.len()),
        decreases items.len() - i,
    {
        assert(js[i as int] == items@[i as int]@);
        match read_move(&items[i], i, s) {
            Ok(m) => out.push(m),
            Err(m) => {
                assert(parse_move(js[i as int], s@) is None);
                return Err(m);
            },
        }
        i = i + 1;
    }
    assert(move_views(out@) =~= js.map_values(|j: Json| parse_move(j, s@)->0));
    Ok(out)
}

proof fn lemma_drop_ids_fits(clips: Seq<ClipView>, gone: Set<Seq<char>>)
    requires
        all_fit(clips),
    ensures
        all_fit(drop_ids(clips, gone)),
    decreases clips.len(),
{
    if clips.len() > 0 {
        lemma_drop_ids_fits(clips.drop_last(), gone);
        let a = drop_ids(clips.drop_last(), gone);
        let b = if gone.contains(clips.last().id) { Seq::<ClipView>::empty() } else { seq![clips.last()] };
        assert forall|i: int| 0 <= i < (a + b).len() implies clip_fits(#[trigger] (a + b)[i]) by {
            if i >= a.len() {
                assert((a + b)[i] == clips[clips.len() - 1]);
            }
        }
    }
}

/// Lands `nc` on track `dest`; `false` (with `t` untouched) on an overflow.
#[verifier::rlimit(60)]
fn land_clip(t: &mut Timeline, dest: usize, nc: Clip) -> (r: bool)
    requires
        timeline_fits(old(t)@),
        dest < old(t)@.tracks.len(),
        0 <= nc.start_frame,
    ensures
        r == land(old(t)@, dest as int, nc@) is Some,
        r ==> land(old(t)@, dest as int, nc@) == Some(final(t)@) && timeline_fits(final(t)@),
        !r ==> final(t)@ == old(t)@,
        final(t)@.tracks.len() == old(t)@.tracks.len(),
{
    let ghost t1 = t@;
    let start = nc.start_frame;
    let end = match start.checked_add(nc.duration_frames) {
        Some(e) => e,
        None => return false,
    };
    assert(t@.tracks[dest as int] == t.tracks@[dest as int]@);
    assert(all_fit(t1.tracks[dest as int].clips));
    if !check_region_fits(&t.tracks[dest].clips, start, end) {
        return false;
    }
    proof { lemma_cleared_fits(t1.tracks[dest as int].clips, start as int, end as int); }
    clear_region(t, dest, start, end);
    let ghost ncv = nc@;
    let mut dc = t.take_clips(dest);
    let ghost prev = clips_view(dc@);
    dc.push(nc);
    assert(clips_view(dc@) =~= prev.push(ncv));
    proof {
        assert(all_fit(prev.push(ncv))) by {
            assert forall|j: int| 0 <= j < prev.push(ncv).len() implies clip_fits(#[trigger] prev.push(ncv)[j]) by {
                if j < prev.len() {
                    assert(prev.push(ncv)[j] == prev[j]);
                }
            }
        }
        lemma_sort_fits(prev.push(ncv));
    }
    let sorted = sort_clips(dc);
    t.put_clips(dest, sorted);
    proof {
        let want = with_clips(t1, dest as int, sort_by_start(cleared(t1.tracks[dest as int].clips, start as int, end as int).push(ncv)));
        assert(t@.tracks =~= want.tracks);
        assert forall|j: int| 0 <= j < t@.tracks.len() implies all_fit(#[trigger] t@.tracks[j].clips) by {
            if j != dest as int {
                assert(t@.tracks[j] == t1.tracks[j]);
            }
        }
    }
    true
}

/// Whether every partner of clip `id` in group `g` can move by `delta`.
fn check_partners_fit(t: &Timeline, g: &String, id: &String, delta: i64) -> (r: bool)
    requires
        timeline_fits(t@),
    ensures
        r == partners_fit(t@, g@, id@, delta as int),
{
    let mut i: usize = 0;
    while i < t.tracks.len()
        invariant
            0 <= i <= t.tracks@.len(),
            t.tracks@.len() == t@.tracks.len(),
            timeline_fits(t@),
            forall|a: int, b: int|
                0 <= a < i && 0 <= b < t@.tracks[a].clips.len() && is_partner(#[trigger] t@.tracks[a].clips[b], g@, id@)
                    ==> t@.tracks[a].clips[b].start_frame + delta <= i64::MAX && i64::MIN <= clip_end(t@.tracks[a].clips[b]) + delta <= i64::MAX,
        decreases t.tracks.len() - i,
    {
        assert(t@.tracks[i as int] == t.tracks@[i as int]@);
        let mut j: usize = 0;
        while j < t.tracks[i].clips.len()
            invariant
                0 <= i < t.tracks@.len(),
                0 <= j <= t.tracks@[i as int].clips@.len(),
                t.tracks@.len() == t@.tracks.len(),
                t@.tracks[i as int] == t.tracks@[i as int]@,
                timeline_fits(t@),
                forall|a: int, b: int|
                    0 <= a < i && 0 <= b < t@.tracks[a].clips.len() && is_partner(#[trigger] t@.tracks[a].clips[b], g@, id@)
                        ==> t@.tracks[a].clips[b].start_frame + delta <= i64::MAX && i64::MIN <= clip_end(t@.tracks[a].clips[b]) + delta <= i64::MAX,
                forall|b: int|
                    0 <= b < j && is_partner(#[trigger] t@.tracks[i as int].clips[b], g@, id@) ==> t@.tracks[i as int].clips[b].start_frame
                        + delta <= i64::MAX && i64::MIN <= clip_end(t@.tracks[i as int].clips[b]) + delta <= i64::MAX,
            decreases t.tracks@[i as int].clips@.len() - j,
        {
            let c = &t.tracks[i].clips[j];
            assert(t@.tracks[i as int].clips[j as int] == c@);
            assert(all_fit(t@.tracks[i as int].clips));
            assert(clip_fits(c@));
            let partner = match &c.link_group_id {
                Some(cg) => crate::text::str_eq(cg.as_str(), g.as_str()) && !crate::text::str_eq(c.id.as_str(), id.as_str()),
                None => false,
            };
            assert(partner == is_partner(c@, g@, id@));
            if partner {
                let e = c.end_frame();
                if c.start_frame.checked_add(delta).is_none() || e.checked_add(delta).is_none() {
                    assert(!(t@.tracks[i as int].clips[j as int].start_frame + delta <= i64::MAX && i64::MIN <= clip_end(t@.tracks[i as int].clips[j as int]) + delta <= i64::MAX));
                    return false;
                }
            }
            j = j + 1;
        }
        i = i + 1;
    }
    true
}

/// Moves the partners of clip `id` in group `g` by `delta`.
#[verifier::rlimit(60)]
fn shift_partners(t: &mut Timeline, g: &String, id: &String, delta: i64)
    requires
        timeline_fits(old(t)@),
        partners_fit(old(t)@, g@, id@, delta as int),
    ensures
        final(t)@ == move_partners(old(t)@, g@, id@, delta as int),
        timeline_fits(final(t)@),
{
    let ghost t0 = t@;
    let n = t.tracks.len();
    let mut i: usize = 0;
    while i < n
        invariant
            0 <= i <= n,
            n == t0.tracks.len(),
            t.tracks@.len() == n,
            t@.tracks.len() == n,
            timeline_fits(t0),
            partners_fit(t0, g@, id@, delta as int),
            t@ == (TimelineView { tracks: t@.tracks, ..t0 }),
            forall|x: int| 0 <= x < i ==> #[trigger] t@.tracks[x] == move_partners(t0, g@, id@, delta as int).tracks[x],
            forall|x: int| 0 <= x < i ==> all_fit(#[trigger] t@.tracks[x].clips),
            forall|x: int| i <= x < n ==> #[trigger] t@.tracks[x] == t0.tracks[x],
        decreases n - i,
    {
        assert(t@.tracks[i as int] == t.tracks@[i as int]@);
        let ghost orig = t0.tracks[i as int].clips;
        assert(all_fit(orig));
        let clips = t.take_clips(i);
        let mut out: Vec<Clip> = Vec::new();
        let mut any = false;
        let mut j: usize = 0;
        while j < clips.len()
            invariant
                0 <= j <= clips@.len(),
                clips_view(clips@) == orig,
                orig.len() == clips@.len(),
                all_fit(orig),
                partners_fit(t0, g@, id@, delta as int),
                orig == t0.tracks[i as int].clips,
                0 <= i < t0.tracks.len(),
                out@.len() == j,
                forall|b: int| 0 <= b < j ==> (#[trigger] out@[b])@ == (if is_partner(orig[b], g@, id@) { nudged(orig[b], delta as int) } else { orig[b] }),
                forall|b: int| 0 <= b < j ==> clip_fits((#[trigger] out@[b])@),
                any == exists|b: int| 0 <= b < j && is_partner(#[trigger] orig[b], g@, id@),
            decreases clips.len() - j,
        {
            let c = &clips[j];
            assert(orig[j as int] == c@);
            assert(clip_fits(c@));
            let partner = match &c.link_group_id {
                Some(cg) => crate::text::str_eq(cg.as_str(), g.as_str()) && !crate::text::str_eq(c.id.as_str(), id.as_str()),
                None => false,
            };
            assert(partner == is_partner(orig[j as int], g@, id@));
            let mut d = c.duplicate();
            if partner {
                assert(t0.tracks[i as int].clips[j as int] == orig[j as int]);
                let st = d.start_frame + delta;
                d.start_frame = if st < 0 { 0 } else { st };
                any = true;
            }
            out.push(d);
            j = j + 1;
        }
        let ghost mapped = orig.map_values(|c: ClipView| if is_partner(c, g@, id@) { nudged(c, delta as int) } else { c });
        assert(clips_view(out@) =~= mapped);
        assert(all_fit(mapped)) by {
            assert forall|b: int| 0 <= b < mapped.len() implies clip_fits(#[trigger] mapped[b]) by {
                assert(mapped[b] == out@[b]@);
            }
        }
        assert(any == holds_partner(orig, g@, id@));
        if any {
            proof { lemma_sort_fits(mapped); }
            let sorted = sort_clips(out);
            t.put_clips(i, sorted);
        } else {
            t.put_clips(i, clips);
        }
        assert(t@.tracks[i as int] == move_partners(t0, g@, id@, delta as int).tracks[i as int]);
        i = i + 1;
    }
    assert(t@.tracks =~= move_partners(t0, g@, id@, delta as int).tracks);
}

/// Applies one move to `t`; `false` (with `t` untouched) on an overflow.
#[verifier::rlimit(100)]
#[verifier::spinoff_prover]
fn apply_move(t: &mut Timeline, m: &Move) -> (r: bool)
    requires
        timeline_fits(old(t)@),
        move_ok(*m, old(t)@.tracks.len()),
    ensures
        r == move_one(old(t)@, m@) is Some,
        r ==> move_one(old(t)@, m@) == Some(final(t)@) && timeline_fits(final(t)@),
        !r ==> final(t)@ == old(t)@,
        final(t)@.tracks.len() == old(t)@.tracks.len(),
{
    proof { reveal(move_one); }
    let ghost t0 = t@;
    let (ti, ci) = match t.find_clip(m.clip_id.as_str()) {
        Some(loc) => loc,
        None => return true,
    };
    assert(t@.tracks[ti as int] == t.tracks@[ti as int]@);
    assert(t@.tracks[ti as int].clips[ci as int] == t.tracks@[ti as int].clips@[ci as int]@);
    assert(all_fit(t0.tracks[ti as int].clips));
    let c = t.tracks[ti].clips[ci].duplicate();
    let dest: usize = match m.to_track {
        Some(d) => d,
        None => ti,
    };
    let start: i64 = match m.to_frame {
        Some(f) => f,
        None => c.start_frame,
    };
    let mut gone: Vec<String> = Vec::new();
    gone.push(m.clip_id.clone());
    assert(strs(gone@).to_set() =~= set![m.clip_id@]) by {
        assert(strs(gone@) =~= seq![m.clip_id@]);
        assert(strs(gone@)[0] == m.clip_id@);
        assert forall|y: Seq<char>| strs(gone@).contains(y) implies y == m.clip_id@ by {
            let k = choose|k: int| 0 <= k < strs(gone@).len() && strs(gone@)[k] == y;
            assert(k == 0);
        }
    }
    let mut work = t.duplicate();
    let clips = work.take_clips(ti);
    let kept = crate::tools::remove_clips::drop_clips_by_id(clips, &gone);
    work.put_clips(ti, kept);
    let ghost t1 = work@;
    assert(t1.tracks =~= with_clips(t0, ti as int, drop_ids(t0.tracks[ti as int].clips, set![m.clip_id@])).tracks);
    proof {
        lemma_drop_ids_fits(t0.tracks[ti as int].clips, set![m.clip_id@]);
        assert forall|j: int| 0 <= j < t1.tracks.len() implies all_fit(#[trigger] t1.tracks[j].clips) by {
            if j != ti as int {
                assert(t1.tracks[j] == t0.tracks[j]);
            }
        }
    }
    let group = match &c.link_group_id {
        Some(g) => Some(g.clone()),
        None => None,
    };
    let cid = c.id.clone();
    let old_start = c.start_frame;
    let mut nc = c;
    nc.start_frame = start;
    if !land_clip(&mut work, dest, nc) {
        return false;
    }
    match group {
        Some(g) => {
            let delta = start - old_start;
            if !check_partners_fit(&work, &g, &cid, delta) {
                return false;
            }
            shift_partners(&mut work, &g, &cid, delta);
        },
        None => {},
    }
    *t = work;
    true
}

fn apply_moves(t: &mut Timeline, ms: &Vec<Move>) -> (r: bool)
    requires
        timeline_fits(old(t)@),
        forall|j: int| 0 <= j < ms@.len() ==> move_ok(#[trigger] ms@[j], old(t)@.tracks.len()),
    ensures
        r == move_all(old(t)@, move_views(ms@)) is Some,
        r ==> move_all(old(t)@, move_views(ms@)) == Some(final(t)@),
{
    let ghost t0 = t@;
    let ghost mv = move_views(ms@);
    let mut k: usize = 0;
    assert(mv.take(0) =~= Seq::<MoveView>::empty());
    while k < ms.len()
        invariant
            0 <= k <= ms@.len(),
            mv == move_views(ms@),
            t0 == old(t)@,
            timeline_fits(t@),
            t@.tracks.len() == t0.tracks.len(),
            forall|j: int| 0 <= j < ms@.len() ==> move_ok(#[trigger] ms@[j], t0.tracks.len()),
            move_all(t0, mv.take(k as int)) == Some(t@),
        decreases ms.len() - k,
    {
        assert(mv[k as int] == ms@[k as int]@);
        assert(mv.take(k + 1).drop_last() =~= mv.take(k as int));
        assert(mv.take(k + 1).last() == mv[k as int]);
        let ghost before = t@;
        let ok = apply_move(t, &ms[k]);
        if !ok {
            proof {
                assert(move_one(before, mv[k as int]) is None);
                assert(move_all(t0, mv.take(k + 1)) is None);
                lemma_move_none_prefix(t0, mv, k + 1);
            }
            return false;
        }
        k = k + 1;
    }
    assert(mv.take(k as int) =~= mv);
    true
}

proof fn lemma_move_none_prefix(t: TimelineView, ms: Seq<MoveView>, k: int)
    requires
        0 <= k <= ms.len(),
        move_all(t, ms.take(k)) is None,
    ensures
        move_all(t, ms) is None,
    decreases ms.len(),
{
    if k == ms.len() {
        assert(ms.take(k) =~= ms);
    } else {
        assert(ms.drop_last().take(k) =~= ms.take(k));
        lemma_move_none_prefix(t, ms.drop_last(), k);
    }
}

pub fn tool_move_clips(s: &mut EditorState, args: &JsonValue) -> (r: ToolOutcome)
    requires
        timeline_fits(old(s)@.timeline),
    ensures
        move_outcome(old(s)@, args@, r, final(s)@),
{
    proof { crate::model::lemma_editor_view(*s); }
    let moves = match arg_array(args, "moves") {
        Some(a) => a,
        None => return err(string_of("Missing or empty 'moves' array")),
    };
    if moves.len() == 0 {
        return err(string_of("Missing or empty 'moves' array"));
    }
    let parsed = match read_moves(moves, s) {
        Ok(v) => v,
        Err(m) => return err(m),
    };
    let mut tl = s.timeline.duplicate();
    if !apply_moves(&mut tl, &parsed) {
        return overflow_error();
    }
    let n = parsed.len();
    proof { lemma_json_of_seq(moves@); }
    assert(n == spec_arg_array(args@, "moves"@)->0.len());
    let name = if n == 1 { string_of("Move Clip (Agent)") } else { string_of("Move Clips (Agent)") };
    commit(s, name, tl);
    let mut m = string_of("Moved ");
    push_usize(&mut m, n);
    push_str(&mut m, if n == 1 { " clip." } else { " clips." });
    ok(m)
}

} // verus!
