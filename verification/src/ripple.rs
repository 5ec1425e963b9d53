//! Ripple delete: cutting frame ranges out of a track (or every track) and
//! closing the gaps they leave, sync-locked tracks shifting along.

use vstd::prelude::*;
use crate::edit::{
    cut_clip, cut_ranges, fresh_count, ranges_fit, ranges_proper, renamed, shift_clip, shift_fits, shifted,
    sort_by_start, sort_clips, total_length, check_shift_fits, lemma_shift_bounded,
};
use crate::model::{Clip, ClipView, Timeline, TimelineView, TrackView, all_fit, clip_fits, clips_view, minted, timeline_fits};

verus! {

// ---------------------------------------------------------------------------
// Ordering the ranges
// ---------------------------------------------------------------------------

/// `r` placed into `s` after every range that does not start later.
pub open spec fn insert_range(s: Seq<(i64, i64)>, r: (i64, i64)) -> Seq<(i64, i64)>
    decreases s.len(),
{
    if s.len() == 0 {
        seq![r]
    } else if s.last().0 <= r.0 {
        s.push(r)
    } else {
        insert_range(s.drop_last(), r).push(s.last())
    }
}

/// Stable sort of ranges by start frame.
pub open spec fn sort_ranges(s: Seq<(i64, i64)>) -> Seq<(i64, i64)>
    decreases s.len(),
{
    if s.len() == 0 {
        s
    } else {
        insert_range(sort_ranges(s.drop_last()), s.last())
    }
}

proof fn lemma_insert_range_at(s: Seq<(i64, i64)>, r: (i64, i64), pos: int)
    requires
        0 <= pos <= s.len(),
        forall|j: int| pos <= j < s.len() ==> s[j].0 > r.0,
        pos > 0 ==> s[pos - 1].0 <= r.0,
    ensures
        insert_range(s, r) == s.take(pos).push(r) + s.skip(pos),
    decreases s.len(),
{
    if s.len() == 0 {
        assert(s.take(pos).push(r) + s.skip(pos) =~= seq![r]);
    } else if s.last().0 <= r.0 {
        assert(s.take(pos).push(r) + s.skip(pos) =~= s.push(r));
    } else {
        lemma_insert_range_at(s.drop_last(), r, pos);
        assert((s.drop_last().take(pos).push(r) + s.drop_last().skip(pos)).push(s.last()) =~= s.take(pos).push(r)
            + s.skip(pos));
    }
}

/// Inserting keeps the multiset of ranges.
proof fn lemma_insert_range_multiset(s: Seq<(i64, i64)>, r: (i64, i64))
    ensures
        insert_range(s, r).to_multiset() == s.to_multiset().insert(r),
    decreases s.len(),
{
    broadcast use vstd::seq_lib::group_to_multiset_ensures;
    if s.len() == 0 {
        assert(seq![r] =~= Seq::<(i64, i64)>::empty().push(r));
    } else if s.last().0 <= r.0 {
    } else {
        lemma_insert_range_multiset(s.drop_last(), r);
        assert(s.drop_last().push(s.last()) =~= s);
    }
}

/// Inserting keeps the multiset of ranges.
pub proof fn lemma_insert_range_multiset_pub(s: Seq<(i64, i64)>, r: (i64, i64))
    ensures
        insert_range(s, r).to_multiset() == s.to_multiset().insert(r),
{
    lemma_insert_range_multiset(s, r);
}

/// Sorting keeps the multiset of ranges.
pub proof fn lemma_sort_ranges_multiset(s: Seq<(i64, i64)>)
    ensures
        sort_ranges(s).to_multiset() == s.to_multiset(),
    decreases s.len(),
{
    broadcast use vstd::seq_lib::group_to_multiset_ensures;
    if s.len() > 0 {
        lemma_sort_ranges_multiset(s.drop_last());
        lemma_insert_range_multiset(sort_ranges(s.drop_last()), s.last());
        assert(s.drop_last().push(s.last()) =~= s);
    }
}

/// The ranges ordered by start frame, ties in input order.
pub fn sort_range_list(ranges: Vec<(i64, i64)>) -> (r: Vec<(i64, i64)>)
    ensures
        r@ == sort_ranges(ranges@),
{
    let ghost orig = ranges@;
    let mut out: Vec<(i64, i64)> = Vec::new();
    let mut k: usize = 0;
    while k < ranges.len()
        invariant
            0 <= k <= ranges@.len(),
            orig == ranges@,
            out@ == sort_ranges(orig.take(k as int)),
        decreases ranges.len() - k,
    {
        let r = ranges[k];
        let ghost sv = out@;
        let mut pos = out.len();
        while pos > 0 && out[pos - 1].0 > r.0
            invariant
                0 <= pos <= out@.len(),
                sv == out@,
                forall|j: int| pos <= j < out@.len() ==> sv[j].0 > r.0,
            decreases pos,
        {
            pos = pos - 1;
        }
        proof {
            lemma_insert_range_at(sv, r, pos as int);
        }
        out.insert(pos, r);
        assert(out@ =~= sv.take(pos as int).push(r) + sv.skip(pos as int));
        assert(orig.take(k + 1).drop_last() =~= orig.take(k as int));
        assert(orig.take(k + 1).last() == orig[k as int]);
        k = k + 1;
    }
    assert(orig.take(k as int) =~= orig);
    out
}

/// Start-sorted ranges with every overlapping (or touching) pair joined.
pub open spec fn merge_ranges(sr: Seq<(i64, i64)>) -> Seq<(i64, i64)>
    decreases sr.len(),
{
    if sr.len() == 0 {
        Seq::empty()
    } else {
        let m = merge_ranges(sr.drop_last());
        let r = sr.last();
        if m.len() > 0 && r.0 <= m.last().1 {
            m.update(m.len() - 1, (m.last().0, if r.1 > m.last().1 { r.1 } else { m.last().1 }))
        } else {
            m.push(r)
        }
    }
}

/// Joining ranges keeps every range non-empty.
pub proof fn lemma_merge_proper(sr: Seq<(i64, i64)>)
    requires
        crate::edit::ranges_proper(sr),
    ensures
        crate::edit::ranges_proper(merge_ranges(sr)),
    decreases sr.len(),
{
    if sr.len() > 0 {
        assert(crate::edit::ranges_proper(sr.drop_last())) by {
            assert forall|i: int| 0 <= i < sr.drop_last().len() implies (#[trigger] sr.drop_last()[i]).0 < sr.drop_last()[i].1 by {
                assert(sr.drop_last()[i] == sr[i]);
            }
        }
        lemma_merge_proper(sr.drop_last());
        assert(sr.last() == sr[sr.len() - 1]);
    }
}

/// Joins overlapping ranges of a start-sorted list.
pub fn merge_range_list(sr: &Vec<(i64, i64)>) -> (r: Vec<(i64, i64)>)
    ensures
        r@ == merge_ranges(sr@),
{
    let mut out: Vec<(i64, i64)> = Vec::new();
    let mut i: usize = 0;
    assert(sr@.take(0) =~= Seq::<(i64, i64)>::empty());
    while i < sr.len()
        invariant
            0 <= i <= sr@.len(),
            out@ == merge_ranges(sr@.take(i as int)),
        decreases sr.len() - i,
    {
        let (a, b) = sr[i];
        assert(sr@.take(i + 1).drop_last() =~= sr@.take(i as int));
        assert(sr@.take(i + 1).last() == (a, b));
        let n = out.len();
        if n > 0 && a <= out[n - 1].1 {
            let (pa, pb) = out[n - 1];
            let e = if b > pb { b } else { pb };
            out.set(n - 1, (pa, e));
        } else {
            out.push((a, b));
        }
        i = i + 1;
    }
    assert(sr@.take(i as int) =~= sr@);
    out
}

// ---------------------------------------------------------------------------
// Rippling one clip, one track, every track
// ---------------------------------------------------------------------------

/// Every piece of `segs` can be shifted without overflow.
pub open spec fn pieces_shift_fit(segs: Seq<ClipView>, ranges: Seq<(i64, i64)>) -> bool {
    forall|i: int| 0 <= i < segs.len() ==> shift_fits((#[trigger] segs[i]).start_frame as int, ranges)
}

/// What is left of `c`: its pieces outside the ranges, every piece after the
/// first under a fresh id (`clip-(counter+1)`, ...), each moved left by the
/// frames removed before it. `None` when a frame or id would overflow.
pub open spec fn ripple_clip_spec(c: ClipView, ranges: Seq<(i64, i64)>, counter: nat) -> Option<Seq<ClipView>> {
    let segs = cut_ranges(seq![c], ranges);
    if ranges_fit(seq![c], ranges) && pieces_shift_fit(segs, ranges) && counter + fresh_count(segs) <= u64::MAX {
        Some(renamed(segs, counter).map_values(|p: ClipView| shifted(p, ranges)))
    } else {
        None
    }
}

/// The ripple of a track's clips, in order, with the id counter after it.
pub open spec fn ripple_clips_spec(clips: Seq<ClipView>, ranges: Seq<(i64, i64)>, counter: nat) -> Option<(Seq<ClipView>, nat)>
    decreases clips.len(),
{
    if clips.len() == 0 {
        Some((Seq::empty(), counter))
    } else {
        match ripple_clips_spec(clips.drop_last(), ranges, counter) {
            None => None,
            Some((pre, n)) => match ripple_clip_spec(clips.last(), ranges, n) {
                None => None,
                Some(p) => Some((pre + p, n + fresh_count(cut_ranges(seq![clips.last()], ranges)))),
            },
        }
    }
}

/// Every clip moved left by the frames the ranges remove before it, its
/// content left whole; `None` when a shift cannot be computed.
pub open spec fn shift_clips_spec(clips: Seq<ClipView>, ranges: Seq<(i64, i64)>) -> Option<Seq<ClipView>> {
    if forall|i: int| 0 <= i < clips.len() ==> shift_fits((#[trigger] clips[i]).start_frame as int, ranges) {
        Some(clips.map_values(|c: ClipView| shifted(c, ranges)))
    } else {
        None
    }
}

/// The tracks rippled in order (ids minted track by track), each changed
/// track's clips sorted by start frame. The tracks marked in `cut` are cut;
/// of the others, the sync-locked ones only shift, and the rest stay as
/// they are.
pub open spec fn ripple_tracks_spec(tracks: Seq<TrackView>, ranges: Seq<(i64, i64)>, counter: nat, cut: Seq<bool>) -> Option<
    (Seq<TrackView>, nat),
>
    decreases tracks.len(),
{
    if tracks.len() == 0 {
        Some((Seq::empty(), counter))
    } else {
        match ripple_tracks_spec(tracks.drop_last(), ranges, counter, cut) {
            None => None,
            Some((pre, n)) => {
                let t = tracks.last();
                if cut[tracks.len() - 1] {
                    match ripple_clips_spec(t.clips, ranges, n) {
                        None => None,
                        Some((cs, m)) => Some((pre.push(TrackView { clips: sort_by_start(cs), ..t }), m)),
                    }
                } else if t.sync_locked {
                    match shift_clips_spec(t.clips, ranges) {
                        None => None,
                        Some(cs) => Some((pre.push(TrackView { clips: sort_by_start(cs), ..t }), n)),
                    }
                } else {
                    Some((pre.push(t), n))
                }
            },
        }
    }
}

/// Rippling keeps the number of tracks.
pub proof fn lemma_ripple_tracks_len(tracks: Seq<TrackView>, ranges: Seq<(i64, i64)>, counter: nat, cut: Seq<bool>)
    ensures
        ripple_tracks_spec(tracks, ranges, counter, cut) matches Some((ts, _)) ==> ts.len() == tracks.len(),
    decreases tracks.len(),
{
    if tracks.len() > 0 {
        lemma_ripple_tracks_len(tracks.drop_last(), ranges, counter, cut);
    }
}

proof fn lemma_clips_none_prefix(clips: Seq<ClipView>, ranges: Seq<(i64, i64)>, counter: nat, k: int)
    requires
        0 <= k <= clips.len(),
        ripple_clips_spec(clips.take(k), ranges, counter) is None,
    ensures
        ripple_clips_spec(clips, ranges, counter) is None,
    decreases clips.len(),
{
    if k == clips.len() {
        assert(clips.take(k) =~= clips);
    } else {
        assert(clips.drop_last().take(k) =~= clips.take(k));
        lemma_clips_none_prefix(clips.drop_last(), ranges, counter, k);
    }
}

proof fn lemma_tracks_none_prefix(tracks: Seq<TrackView>, ranges: Seq<(i64, i64)>, counter: nat, cut: Seq<bool>, k: int)
    requires
        0 <= k <= tracks.len(),
        ripple_tracks_spec(tracks.take(k), ranges, counter, cut) is None,
    ensures
        ripple_tracks_spec(tracks, ranges, counter, cut) is None,
    decreases tracks.len(),
{
    if k == tracks.len() {
        assert(tracks.take(k) =~= tracks);
    } else {
        assert(tracks.drop_last().take(k) =~= tracks.take(k));
        lemma_tracks_none_prefix(tracks.drop_last(), ranges, counter, cut, k);
    }
}

/// Shifts every clip of a track; `None` when a shift cannot be computed.
fn shift_track_clips(clips: Vec<Clip>, ranges: &Vec<(i64, i64)>) -> (r: Option<Vec<Clip>>)
    requires
        all_fit(clips_view(clips@)),
        ranges_proper(ranges@),
        total_length(ranges@) <= i64::MAX,
    ensures
        r is Some <==> shift_clips_spec(clips_view(clips@), ranges@) is Some,
        r matches Some(v) ==> shift_clips_spec(clips_view(clips@), ranges@) == Some(clips_view(v@)),
{
    let ghost cv = clips_view(clips@);
    let mut out: Vec<Clip> = Vec::new();
    let mut i: usize = 0;
    while i < clips.len()
        invariant
            0 <= i <= clips@.len(),
            cv == clips_view(clips@),
            cv.len() == clips@.len(),
            all_fit(cv),
            ranges_proper(ranges@),
            total_length(ranges@) <= i64::MAX,
            out@.len() == i,
            forall|j: int| 0 <= j < i ==> shift_fits((#[trigger] cv[j]).start_frame as int, ranges@),
            forall|j: int| 0 <= j < i ==> (#[trigger] out@[j])@ == shifted(cv[j], ranges@),
        decreases clips.len() - i,
    {
        assert(cv[i as int] == clips@[i as int]@);
        assert(clip_fits(cv[i as int]));
        if !check_shift_fits(clips[i].start_frame, ranges) {
            return None;
        }
        let mut c = clips[i].duplicate();
        shift_clip(&mut c, ranges);
        out.push(c);
        i = i + 1;
    }
    assert(clips_view(out@) =~= cv.map_values(|c: ClipView| shifted(c, ranges@)));
    Some(out)
}

/// A shifted clip still fits.
proof fn lemma_shifted_fits(c: ClipView, ranges: Seq<(i64, i64)>)
    requires
        clip_fits(c),
        ranges_proper(ranges),
    ensures
        clip_fits(shifted(c, ranges)),
{
    lemma_shift_bounded(c.start_frame as int, ranges);
}

/// Ripples one clip.
fn ripple_clip(c: Clip, ranges: &Vec<(i64, i64)>, counter: u64) -> (r: Option<(Vec<Clip>, u64)>)
    requires
        clip_fits(c@),
        ranges_proper(ranges@),
        total_length(ranges@) <= i64::MAX,
    ensures
        r is Some <==> ripple_clip_spec(c@, ranges@, counter as nat) is Some,
        r matches Some((v, n)) ==> {
            &&& clips_view(v@) == ripple_clip_spec(c@, ranges@, counter as nat)->0
            &&& n == counter + fresh_count(cut_ranges(seq![c@], ranges@))
            &&& all_fit(clips_view(v@))
        },
{
    let ghost cv = c@;
    let segs = match cut_clip(c, ranges) {
        Some(v) => v,
        None => return None,
    };
    let ghost sv = clips_view(segs@);
    let mut i: usize = 0;
    while i < segs.len()
        invariant
            0 <= i <= segs@.len(),
            sv == clips_view(segs@),
            cv == c@,
            sv == cut_ranges(seq![cv], ranges@),
            ranges_fit(seq![cv], ranges@),
            forall|j: int| 0 <= j < i ==> shift_fits((#[trigger] sv[j]).start_frame as int, ranges@),
        decreases segs.len() - i,
    {
        assert(sv[i as int] == segs@[i as int]@);
        if !check_shift_fits(segs[i].start_frame, ranges) {
            assert(!pieces_shift_fit(sv, ranges@));
            return None;
        }
        i = i + 1;
    }
    let extra: u64 = if segs.len() == 0 { 0 } else { (segs.len() - 1) as u64 };
    if segs.len() > 0 && (segs.len() - 1) as u64 > u64::MAX - counter {
        return None;
    }
    assert(extra == fresh_count(sv));
    let ghost want = renamed(sv, counter as nat).map_values(|p: ClipView| shifted(p, ranges@));
    let mut rest = segs;
    let mut out: Vec<Clip> = Vec::new();
    let mut k: usize = 0;
    while rest.len() > 0
        invariant
            sv.len() == k + rest@.len(),
            sv.len() <= usize::MAX,
            counter + fresh_count(sv) <= u64::MAX,
            ranges_proper(ranges@),
            total_length(ranges@) <= i64::MAX,
            all_fit(sv),
            pieces_shift_fit(sv, ranges@),
            want == renamed(sv, counter as nat).map_values(|p: ClipView| shifted(p, ranges@)),
            clips_view(rest@) == sv.subrange(k as int, sv.len() as int),
            clips_view(out@) == want.take(k as int),
            all_fit(clips_view(out@)),
        decreases rest.len(),
    {
        let ghost rv = rest@;
        let mut p = rest.remove(0);
        assert(p@ == sv[k as int]) by {
            assert(clips_view(rv)[0] == sv.subrange(k as int, sv.len() as int)[0]);
        }
        assert forall|j: int| 0 <= j < rest@.len() implies #[trigger] clips_view(rest@)[j] == sv.subrange(k + 1, sv.len() as int)[j] by {
            assert(rest@[j] == rv[j + 1]);
            assert(clips_view(rv)[j + 1] == sv.subrange(k as int, sv.len() as int)[j + 1]);
        }
        assert(clips_view(rest@) =~= sv.subrange(k + 1, sv.len() as int));
        if k > 0 {
            p.id = minted("clip", counter + k as u64);
        }
        assert(p@ == renamed(sv, counter as nat)[k as int]);
        assert(clip_fits(sv[k as int]));
        assert(shift_fits(sv[k as int].start_frame as int, ranges@));
        shift_clip(&mut p, ranges);
        proof { lemma_shifted_fits(renamed(sv, counter as nat)[k as int], ranges@); }
        let ghost before = clips_view(out@);
        assert(want[k as int] == shifted(renamed(sv, counter as nat)[k as int], ranges@));
        assert(p@ == want[k as int]);
        out.push(p);
        assert(clips_view(out@) =~= before.push(want[k as int]));
        assert(want.take(k + 1) =~= want.take(k as int).push(want[k as int]));
        k = k + 1;
    }
    assert(want.take(k as int) =~= want);
    Some((out, counter + extra))
}

/// Ripples one track's clips (unsorted result).
fn ripple_track_clips(clips: Vec<Clip>, ranges: &Vec<(i64, i64)>, counter: u64) -> (r: Option<(Vec<Clip>, u64)>)
    requires
        all_fit(clips_view(clips@)),
        ranges_proper(ranges@),
        total_length(ranges@) <= i64::MAX,
    ensures
        r is Some <==> ripple_clips_spec(clips_view(clips@), ranges@, counter as nat) is Some,
        r matches Some((v, n)) ==> {
            &&& ripple_clips_spec(clips_view(clips@), ranges@, counter as nat) == Some((clips_view(v@), n as nat))
            &&& all_fit(clips_view(v@))
        },
{
    let ghost orig = clips_view(clips@);
    assert(orig.len() == clips.len());
    let mut rest = clips;
    let mut out: Vec<Clip> = Vec::new();
    let mut n: u64 = counter;
    let mut k: usize = 0;
    assert(orig.take(0) =~= Seq::<ClipView>::empty());
    while rest.len() > 0
        invariant
            orig.len() == k + rest@.len(),
            orig.len() <= usize::MAX,
            orig == clips_view(clips@),
            all_fit(orig),
            ranges_proper(ranges@),
            total_length(ranges@) <= i64::MAX,
            clips_view(rest@) == orig.subrange(k as int, orig.len() as int),
            ripple_clips_spec(orig.take(k as int), ranges@, counter as nat) == Some((clips_view(out@), n as nat)),
            all_fit(clips_view(out@)),
        decreases rest.len(),
    {
        let ghost rv = rest@;
        let c = rest.remove(0);
        assert(c@ == orig[k as int]) by {
            assert(clips_view(rv)[0] == orig.subrange(k as int, orig.len() as int)[0]);
        }
        assert forall|j: int| 0 <= j < rest@.len() implies #[trigger] clips_view(rest@)[j] == orig.subrange(k + 1, orig.len() as int)[j] by {
            assert(rest@[j] == rv[j + 1]);
            assert(clips_view(rv)[j + 1] == orig.subrange(k as int, orig.len() as int)[j + 1]);
        }
        assert(clips_view(rest@) =~= orig.subrange(k + 1, orig.len() as int));
        assert(orig.take(k + 1).drop_last() =~= orig.take(k as int));
        assert(orig.take(k + 1).last() == orig[k as int]);
        assert(clip_fits(orig[k as int]));
        let ghost before = clips_view(out@);
        match ripple_clip(c, ranges, n) {
            None => {
                proof {
                    assert(ripple_clips_spec(orig.take(k + 1), ranges@, counter as nat) is None);
                    lemma_clips_none_prefix(orig, ranges@, counter as nat, k + 1);
                }
                return None;
            },
            Some((pieces, n2)) => {
                let mut ps = pieces;
                let ghost pv = clips_view(ps@);
                out.append(&mut ps);
                assert(clips_view(out@) =~= before + pv);
                assert forall|j: int| 0 <= j < clips_view(out@).len() implies clip_fits(#[trigger] clips_view(out@)[j]) by {
                    if j >= before.len() {
                        assert(clips_view(out@)[j] == pv[j - before.len()]);
                    }
                }
                n = n2;
            },
        }
        k = k + 1;
    }
    assert(orig.take(k as int) =~= orig);
    Some((out, n))
}

/// Ripples the tracks of `t`: those marked in `cut` are cut, the other
/// sync-locked ones shifted; `None` when a frame or id would overflow.
pub fn ripple_timeline(t: Timeline, ranges: &Vec<(i64, i64)>, counter: u64, cut: &Vec<bool>) -> (r: Option<(Timeline, u64)>)
    requires
        timeline_fits(t@),
        ranges_proper(ranges@),
        total_length(ranges@) <= i64::MAX,
        cut@.len() == t@.tracks.len(),
    ensures
        r is Some <==> ripple_tracks_spec(t@.tracks, ranges@, counter as nat, cut@) is Some,
        r matches Some((t2, n)) ==> {
            &&& ripple_tracks_spec(t@.tracks, ranges@, counter as nat, cut@) == Some((t2@.tracks, n as nat))
            &&& t2@ == (TimelineView { tracks: t2@.tracks, ..t@ })
        },
{
    let ghost orig = t@.tracks;
    let ghost a = cut@;
    let mut tl = t;
    let mut n: u64 = counter;
    let mut ti: usize = 0;
    let ghost t0 = tl@;
    assert(orig.take(0) =~= Seq::<TrackView>::empty());
    while ti < tl.tracks.len()
        invariant
            0 <= ti <= tl@.tracks.len(),
            tl@.tracks.len() == orig.len(),
            tl.tracks@.len() == orig.len(),
            tl@ == (TimelineView { tracks: tl@.tracks, ..t0 }),
            t0 == t@,
            orig == t0.tracks,
            a == cut@,
            a.len() == orig.len(),
            timeline_fits(t0),
            ranges_proper(ranges@),
            total_length(ranges@) <= i64::MAX,
            forall|j: int| ti <= j < orig.len() ==> #[trigger] tl@.tracks[j] == orig[j],
            ripple_tracks_spec(orig.take(ti as int), ranges@, counter as nat, a) == Some((tl@.tracks.take(ti as int), n as nat)),
        decreases tl.tracks.len() - ti,
    {
        let ghost before = tl@.tracks;
        assert(before[ti as int] == orig[ti as int]);
        assert(all_fit(orig[ti as int].clips));
        proof {
            assert(orig.take(ti + 1).drop_last() =~= orig.take(ti as int));
            assert(orig.take(ti + 1).last() == orig[ti as int]);
            assert(orig.take(ti + 1).len() - 1 == ti);
        }
        let cut_here = cut[ti];
        assert(tl@.tracks[ti as int] == tl.tracks@[ti as int]@);
        if cut_here {
            let clips = tl.take_clips(ti);
            match ripple_track_clips(clips, ranges, n) {
                None => {
                    proof { lemma_tracks_none_prefix(orig, ranges@, counter as nat, a, ti + 1); }
                    return None;
                },
                Some((cs, n2)) => {
                    let sorted = sort_clips(cs);
                    tl.put_clips(ti, sorted);
                    proof {
                        assert(tl@.tracks.take(ti + 1) =~= before.take(ti as int).push(tl@.tracks[ti as int]));
                        assert(forall|j: int| ti < j < orig.len() ==> #[trigger] tl@.tracks[j] == before[j]);
                    }
                    n = n2;
                },
            }
        } else if tl.tracks[ti].sync_locked {
            let clips = tl.take_clips(ti);
            match shift_track_clips(clips, ranges) {
                None => {
                    proof { lemma_tracks_none_prefix(orig, ranges@, counter as nat, a, ti + 1); }
                    return None;
                },
                Some(cs) => {
                    let sorted = sort_clips(cs);
                    tl.put_clips(ti, sorted);
                    proof {
                        assert(tl@.tracks.take(ti + 1) =~= before.take(ti as int).push(tl@.tracks[ti as int]));
                        assert(forall|j: int| ti < j < orig.len() ==> #[trigger] tl@.tracks[j] == before[j]);
                    }
                },
            }
        } else {
            proof {
                assert(tl@.tracks.take(ti + 1) =~= before.take(ti as int).push(orig[ti as int]));
            }
        }
        ti = ti + 1;
    }
    assert(orig.take(ti as int) =~= orig);
    assert(tl@.tracks.take(ti as int) =~= tl@.tracks);
    Some((tl, n))
}

/// An optional index as an optional integer.
pub open spec fn opt_int(a: Option<usize>) -> Option<int> {
    match a {
        Some(x) => Some(x as int),
        None => None,
    }
}

} // verus!
