//! Timeline editing primitives: clearing a region of a track, the stable
//! sort by start frame, and cutting ranges out of clips.

use vstd::prelude::*;
use crate::model::{Clip, ClipView, Timeline, TimelineView, TrackView, all_fit, clip_end, clip_fits, clip_intersects, clips_view, minted_id, timeline_fits, with_clips};

verus! {

/// The part of `c` before frame `start`.
pub open spec fn left_piece(c: ClipView, start: int) -> ClipView {
    ClipView { duration_frames: (start - c.start_frame) as i64, ..c }
}

/// The part of `c` from frame `end` on; the source offset moves with it.
pub open spec fn right_piece(c: ClipView, end: int) -> ClipView {
    ClipView {
        start_frame: end as i64,
        duration_frames: (clip_end(c) - end) as i64,
        trim_start_frame: (c.trim_start_frame + (end - c.start_frame)) as i64,
        ..c
    }
}

/// What remains of `c` once `[start, end)` is cleared: the clip itself when
/// it does not meet the region, else its parts before and after it.
pub open spec fn clear_pieces(c: ClipView, start: int, end: int) -> Seq<ClipView> {
    if clip_end(c) <= start || c.start_frame >= end {
        seq![c]
    } else {
        (if c.start_frame < start { seq![left_piece(c, start)] } else { Seq::empty() })
            + (if clip_end(c) > end { seq![right_piece(c, end)] } else { Seq::empty() })
    }
}

/// Every clip of `s` with `[start, end)` cleared, in order.
pub open spec fn cleared(s: Seq<ClipView>, start: int, end: int) -> Seq<ClipView>
    decreases s.len(),
{
    if s.len() == 0 {
        Seq::empty()
    } else {
        cleared(s.drop_last(), start, end) + clear_pieces(s.last(), start, end)
    }
}

/// Clearing `[start, end)` from `c` keeps its source offset representable.
pub open spec fn piece_fits(c: ClipView, start: int, end: int) -> bool {
    (clip_intersects(c, start, end) && clip_end(c) > end) ==> i64::MIN <= c.trim_start_frame + (end
        - c.start_frame) <= i64::MAX
}

pub open spec fn region_fits(s: Seq<ClipView>, start: int, end: int) -> bool {
    forall|i: int| 0 <= i < s.len() ==> piece_fits(#[trigger] s[i], start, end)
}

proof fn lemma_pieces_fit(c: ClipView, start: int, end: int)
    requires
        clip_fits(c),
    ensures
        forall|i: int| 0 <= i < clear_pieces(c, start, end).len() ==> clip_fits(#[trigger] clear_pieces(c, start, end)[i]),
{
}

pub proof fn lemma_cleared_fits(s: Seq<ClipView>, start: int, end: int)
    requires
        all_fit(s),
    ensures
        all_fit(cleared(s, start, end)),
    decreases s.len(),
{
    if s.len() > 0 {
        lemma_cleared_fits(s.drop_last(), start, end);
        lemma_pieces_fit(s.last(), start, end);
        let a = cleared(s.drop_last(), start, end);
        let b = clear_pieces(s.last(), start, end);
        assert forall|i: int| 0 <= i < (a + b).len() implies clip_fits(#[trigger] (a + b)[i]) by {
            if i >= a.len() {
                assert((a + b)[i] == b[i - a.len()]);
            }
        }
    }
}

/// The pieces of one clip after clearing `[start, end)`.
fn clip_pieces(c: Clip, start: i64, end: i64) -> (r: Vec<Clip>)
    requires
        clip_fits(c@),
        piece_fits(c@, start as int, end as int),
    ensures
        r@.map_values(|x: Clip| x@) == clear_pieces(c@, start as int, end as int),
{
    let c_start = c.start_frame;
    let c_end = c.end_frame();
    let mut out: Vec<Clip> = Vec::new();
    if c_end <= start || c_start >= end {
        let ghost cv = c@;
        out.push(c);
        assert(out@.map_values(|x: Clip| x@) =~= seq![cv]);
        return out;
    }
    let ghost cv = c@;
    if c_start < start {
        let mut left = c.duplicate();
        left.duration_frames = start - c_start;
        out.push(left);
    }
    if c_end > end {
        let mut right = c;
        let cut = end - c_start;
        right.start_frame = end;
        right.duration_frames = c_end - end;
        right.trim_start_frame = right.trim_start_frame + cut;
        out.push(right);
    }
    assert(out@.map_values(|x: Clip| x@) =~= clear_pieces(cv, start as int, end as int));
    out
}

/// Removes or trims every clip of `clips` that overlaps `[start, end)`:
/// clips inside the region go, clips crossing an edge are cut back to the
/// edge (the source offset of a right part moves with its start), a clip
/// spanning the region is split in two.
pub fn clear_clips(clips: Vec<Clip>, start: i64, end: i64) -> (r: Vec<Clip>)
    requires
        all_fit(clips_view(clips@)),
        region_fits(clips_view(clips@), start as int, end as int),
    ensures
        clips_view(r@) == cleared(clips_view(clips@), start as int, end as int),
{
    let ghost orig = clips_view(clips@);
    assert(orig.len() == clips.len());
    let mut rest = clips;
    let mut out: Vec<Clip> = Vec::new();
    let mut k: usize = 0;
    while rest.len() > 0
        invariant
            orig.len() == k + rest@.len(),
            orig.len() <= usize::MAX,
            clips_view(rest@) == orig.subrange(k as int, orig.len() as int),
            clips_view(out@) == cleared(orig.take(k as int), start as int, end as int),
            all_fit(orig),
            region_fits(orig, start as int, end as int),
        decreases rest.len(),
    {
        let ghost rv = rest@;
        let c = rest.remove(0);
        assert(c@ == orig[k as int]) by {
            assert(clips_view(rv)[0] == orig.subrange(k as int, orig.len() as int)[0]);
        }
        assert forall|j: int| 0 <= j < rest@.len() implies #[trigger] clips_view(rest@)[j] == orig.subrange(k + 1, orig.len() as int)[j] by {
            assert(rest@[j] == rv[j + 1]);
            assert(clips_view(rv)[j + 1] == orig.subrange(k as int, orig.len() as int)[j + 1]);
        }
        assert(clips_view(rest@) =~= orig.subrange(k + 1, orig.len() as int));
        let pieces = clip_pieces(c, start, end);
        let ghost before = clips_view(out@);
        let mut ps = pieces;
        out.append(&mut ps);
        assert(orig.take(k + 1).drop_last() =~= orig.take(k as int));
        assert(clips_view(out@) =~= before + clear_pieces(orig[k as int], start as int, end as int));
        k = k + 1;
    }
    assert(orig.take(k as int) =~= orig);
    out
}

// ---------------------------------------------------------------------------
// Stable sort by start frame
// ---------------------------------------------------------------------------

/// `c` placed into `s` after every element that does not start later.
pub open spec fn insert_by_start(s: Seq<ClipView>, c: ClipView) -> Seq<ClipView>
    decreases s.len(),
{
    if s.len() == 0 {
        seq![c]
    } else if s.last().start_frame <= c.start_frame {
        s.push(c)
    } else {
        insert_by_start(s.drop_last(), c).push(s.last())
    }
}

/// Stable sort by start frame (`sort_by_key(|c| c.start_frame)`).
pub open spec fn sort_by_start(s: Seq<ClipView>) -> Seq<ClipView>
    decreases s.len(),
{
    if s.len() == 0 {
        s
    } else {
        insert_by_start(sort_by_start(s.drop_last()), s.last())
    }
}

proof fn lemma_insert_at(s: Seq<ClipView>, c: ClipView, pos: int)
    requires
        0 <= pos <= s.len(),
        forall|j: int| pos <= j < s.len() ==> s[j].start_frame > c.start_frame,
        pos > 0 ==> s[pos - 1].start_frame <= c.start_frame,
    ensures
        insert_by_start(s, c) == s.take(pos).push(c) + s.skip(pos),
    decreases s.len(),
{
    if s.len() == 0 {
        assert(s.take(pos).push(c) + s.skip(pos) =~= seq![c]);
    } else if s.last().start_frame <= c.start_frame {
        assert(pos == s.len());
        assert(s.take(pos).push(c) + s.skip(pos) =~= s.push(c));
    } else {
        lemma_insert_at(s.drop_last(), c, pos);
        assert(s.drop_last().take(pos).push(c) + s.drop_last().skip(pos) == insert_by_start(s.drop_last(), c));
        assert((s.drop_last().take(pos).push(c) + s.drop_last().skip(pos)).push(s.last()) =~= s.take(pos).push(c)
            + s.skip(pos));
    }
}

proof fn lemma_insert_multiset(s: Seq<ClipView>, c: ClipView)
    ensures
        insert_by_start(s, c).to_multiset() == s.to_multiset().insert(c),
    decreases s.len(),
{
    broadcast use vstd::seq_lib::group_to_multiset_ensures;
    if s.len() == 0 {
        assert(seq![c] =~= Seq::<ClipView>::empty().push(c));
    } else if s.last().start_frame <= c.start_frame {
    } else {
        lemma_insert_multiset(s.drop_last(), c);
        assert(s.drop_last().push(s.last()) =~= s);
    }
}

/// Sorting by start frame keeps exactly the same clips.
pub proof fn lemma_sort_multiset(s: Seq<ClipView>)
    ensures
        sort_by_start(s).to_multiset() == s.to_multiset(),
    decreases s.len(),
{
    broadcast use vstd::seq_lib::group_to_multiset_ensures;
    if s.len() > 0 {
        lemma_sort_multiset(s.drop_last());
        lemma_insert_multiset(sort_by_start(s.drop_last()), s.last());
        assert(s.drop_last().push(s.last()) =~= s);
    }
}

/// Inserting into a sorted sequence keeps it sorted.
proof fn lemma_insert_sorted(s: Seq<ClipView>, c: ClipView)
    requires
        starts_sorted(s),
    ensures
        starts_sorted(insert_by_start(s, c)),
        insert_by_start(s, c).len() == s.len() + 1,
    decreases s.len(),
{
    if s.len() == 0 {
    } else if s.last().start_frame <= c.start_frame {
        assert forall|i: int, j: int| 0 <= i <= j < s.push(c).len() implies (#[trigger] s.push(c)[i]).start_frame
            <= (#[trigger] s.push(c)[j]).start_frame by {
            if j == s.len() && i < j {
                assert(s[i].start_frame <= s[s.len() - 1].start_frame);
            }
        }
    } else {
        assert(starts_sorted(s.drop_last()));
        lemma_insert_sorted(s.drop_last(), c);
        let t = insert_by_start(s.drop_last(), c);
        lemma_insert_multiset(s.drop_last(), c);
        assert forall|i: int, j: int| 0 <= i <= j < t.push(s.last()).len() implies (#[trigger] t.push(
            s.last(),
        )[i]).start_frame <= (#[trigger] t.push(s.last())[j]).start_frame by {
            if j == t.len() && i < j {
                broadcast use vstd::seq_lib::group_to_multiset_ensures;
                let x = t[i];
                assert(t.contains(x));
                assert(t.to_multiset().count(x) > 0);
                if x == c {
                } else {
                    assert(s.drop_last().to_multiset().count(x) > 0);
                    assert(s.drop_last().contains(x));
                    let k = choose|k: int| 0 <= k < s.drop_last().len() && s.drop_last()[k] == x;
                    assert(s[k].start_frame <= s[s.len() - 1].start_frame);
                }
            }
        }
    }
}

/// Clips in order of start frame.
pub open spec fn starts_sorted(s: Seq<ClipView>) -> bool {
    forall|i: int, j: int| 0 <= i <= j < s.len() ==> (#[trigger] s[i]).start_frame <= (#[trigger] s[j]).start_frame
}

/// The sort leaves the clips in order of start frame.
pub proof fn lemma_sort_sorted(s: Seq<ClipView>)
    ensures
        starts_sorted(sort_by_start(s)),
        sort_by_start(s).len() == s.len(),
    decreases s.len(),
{
    if s.len() > 0 {
        lemma_sort_sorted(s.drop_last());
        lemma_insert_sorted(sort_by_start(s.drop_last()), s.last());
    }
}

/// Sorting keeps every clip fitting.
pub proof fn lemma_sort_fits(s: Seq<ClipView>)
    requires
        all_fit(s),
    ensures
        all_fit(sort_by_start(s)),
{
    broadcast use vstd::seq_lib::group_to_multiset_ensures;
    lemma_sort_multiset(s);
    let t = sort_by_start(s);
    assert forall|i: int| 0 <= i < t.len() implies clip_fits(#[trigger] t[i]) by {
        assert(t.contains(t[i]));
        assert(t.to_multiset().count(t[i]) > 0);
        assert(s.contains(t[i]));
    }
}

/// The clips ordered by start frame; clips with equal starts keep their
/// relative order.
pub fn sort_clips(clips: Vec<Clip>) -> (r: Vec<Clip>)
    ensures
        clips_view(r@) == sort_by_start(clips_view(clips@)),
{
    let ghost orig = clips_view(clips@);
    assert(orig.len() == clips.len());
    let mut rest = clips;
    let mut out: Vec<Clip> = Vec::new();
    let mut k: usize = 0;
    while rest.len() > 0
        invariant
            orig.len() == k + rest@.len(),
            orig.len() <= usize::MAX,
            clips_view(rest@) == orig.subrange(k as int, orig.len() as int),
            clips_view(out@) == sort_by_start(orig.take(k as int)),
        decreases rest.len(),
    {
        let ghost rv = rest@;
        let c = rest.remove(0);
        assert(c@ == orig[k as int]) by {
            assert(clips_view(rv)[0] == orig.subrange(k as int, orig.len() as int)[0]);
        }
        assert forall|j: int| 0 <= j < rest@.len() implies #[trigger] clips_view(rest@)[j] == orig.subrange(k + 1, orig.len() as int)[j] by {
            assert(rest@[j] == rv[j + 1]);
            assert(clips_view(rv)[j + 1] == orig.subrange(k as int, orig.len() as int)[j + 1]);
        }
        assert(clips_view(rest@) =~= orig.subrange(k + 1, orig.len() as int));
        let ghost sv = clips_view(out@);
        let mut pos = out.len();
        while pos > 0 && out[pos - 1].start_frame > c.start_frame
            invariant
                0 <= pos <= out@.len(),
                sv == clips_view(out@),
                forall|j: int| pos <= j < out@.len() ==> sv[j].start_frame > c@.start_frame,
            decreases pos,
        {
            pos = pos - 1;
        }
        proof {
            lemma_insert_at(sv, c@, pos as int);
        }
        let ghost cv = c@;
        out.insert(pos, c);
        assert(clips_view(out@) =~= sv.take(pos as int).push(cv) + sv.skip(pos as int));
        assert(orig.take(k + 1).drop_last() =~= orig.take(k as int));
        assert(orig.take(k + 1).last() == orig[k as int]);
        k = k + 1;
    }
    assert(orig.take(k as int) =~= orig);
    out
}

// ---------------------------------------------------------------------------
// Cutting ranges out of clips (ripple delete)
// ---------------------------------------------------------------------------

/// The segments left of `segs` once each range of `ranges` is cut out, in
/// order.
pub open spec fn cut_ranges(segs: Seq<ClipView>, ranges: Seq<(i64, i64)>) -> Seq<ClipView>
    decreases ranges.len(),
{
    if ranges.len() == 0 {
        segs
    } else {
        cut_ranges(cleared(segs, ranges[0].0 as int, ranges[0].1 as int), ranges.drop_first())
    }
}

/// No source offset overflows while the ranges are cut in order.
pub open spec fn ranges_fit(segs: Seq<ClipView>, ranges: Seq<(i64, i64)>) -> bool
    decreases ranges.len(),
{
    ranges.len() == 0 || (region_fits(segs, ranges[0].0 as int, ranges[0].1 as int) && ranges_fit(
        cleared(segs, ranges[0].0 as int, ranges[0].1 as int),
        ranges.drop_first(),
    ))
}

/// Whether clearing `[start, end)` from the clips keeps every source offset
/// representable.
pub fn check_region_fits(clips: &Vec<Clip>, start: i64, end: i64) -> (r: bool)
    requires
        all_fit(clips_view(clips@)),
    ensures
        r == region_fits(clips_view(clips@), start as int, end as int),
{
    let mut i: usize = 0;
    while i < clips.len()
        invariant
            0 <= i <= clips@.len(),
            all_fit(clips_view(clips@)),
            forall|j: int| 0 <= j < i ==> piece_fits(#[trigger] clips_view(clips@)[j], start as int, end as int),
        decreases clips.len() - i,
    {
        let c = &clips[i];
        assert(clips_view(clips@)[i as int] == c@);
        let c_end = c.end_frame();
        if c.start_frame < end && c_end > start && c_end > end {
            let cut = end - c.start_frame;
            if c.trim_start_frame.checked_add(cut).is_none() {
                return false;
            }
        }
        i = i + 1;
    }
    true
}

/// Cuts every range out of `c`, in order; `None` when a source offset would
/// overflow.
pub fn cut_clip(c: Clip, ranges: &Vec<(i64, i64)>) -> (r: Option<Vec<Clip>>)
    requires
        clip_fits(c@),
    ensures
        r is Some <==> ranges_fit(seq![c@], ranges@),
        r matches Some(v) ==> clips_view(v@) == cut_ranges(seq![c@], ranges@) && all_fit(clips_view(v@)),
{
    let ghost cv = c@;
    let mut segs: Vec<Clip> = Vec::new();
    segs.push(c);
    assert(clips_view(segs@) =~= seq![cv]);
    assert(ranges@.skip(0) =~= ranges@);
    let mut k: usize = 0;
    while k < ranges.len()
        invariant
            0 <= k <= ranges@.len(),
            cv == c@,
            all_fit(clips_view(segs@)),
            ranges_fit(seq![cv], ranges@) == ranges_fit(clips_view(segs@), ranges@.skip(k as int)),
            cut_ranges(seq![cv], ranges@) == cut_ranges(clips_view(segs@), ranges@.skip(k as int)),
        decreases ranges.len() - k,
    {
        let (rs, re) = ranges[k];
        assert(ranges@.skip(k as int)[0] == (rs, re));
        assert(ranges@.skip(k as int).drop_first() =~= ranges@.skip(k + 1));
        if !check_region_fits(&segs, rs, re) {
            assert(!ranges_fit(clips_view(segs@), ranges@.skip(k as int)));
            return None;
        }
        proof {
            lemma_cleared_fits(clips_view(segs@), rs as int, re as int);
        }
        segs = clear_clips(segs, rs, re);
        k = k + 1;
    }
    assert(ranges@.skip(k as int).len() == 0);
    Some(segs)
}

/// `segs` with every segment after the first renamed to a fresh clip id:
/// `clip-(counter+1)`, `clip-(counter+2)`, ...
pub open spec fn renamed(segs: Seq<ClipView>, counter: nat) -> Seq<ClipView> {
    Seq::new(
        segs.len(),
        |k: int|
            if k == 0 {
                segs[0]
            } else {
                ClipView { id: minted_id("clip"@, counter + k as nat), ..segs[k] }
            },
    )
}

/// How many fresh ids `renamed` uses.
pub open spec fn fresh_count(segs: Seq<ClipView>) -> nat {
    if segs.len() == 0 { 0 } else { (segs.len() - 1) as nat }
}

/// Frames removed by `[rs, re)` before frame `start`.
pub open spec fn removed_before(start: int, r: (i64, i64)) -> int {
    if (r.0 as int) < start {
        if r.1 - r.0 < start - r.0 { r.1 - r.0 } else { start - r.0 }
    } else {
        0
    }
}

/// Total frames the ranges remove before frame `start`.
pub open spec fn shift_of(start: int, ranges: Seq<(i64, i64)>) -> int
    decreases ranges.len(),
{
    if ranges.len() == 0 {
        0
    } else {
        shift_of(start, ranges.drop_last()) + removed_before(start, ranges.last())
    }
}

/// Total length of the ranges.
pub open spec fn total_length(ranges: Seq<(i64, i64)>) -> int
    decreases ranges.len(),
{
    if ranges.len() == 0 {
        0
    } else {
        total_length(ranges.drop_last()) + (ranges.last().1 - ranges.last().0)
    }
}

pub open spec fn ranges_proper(ranges: Seq<(i64, i64)>) -> bool {
    forall|i: int| 0 <= i < ranges.len() ==> (#[trigger] ranges[i]).0 < ranges[i].1
}

pub proof fn lemma_shift_bounded(start: int, ranges: Seq<(i64, i64)>)
    requires
        ranges_proper(ranges),
    ensures
        0 <= shift_of(start, ranges) <= total_length(ranges),
    decreases ranges.len(),
{
    if ranges.len() > 0 {
        assert(ranges_proper(ranges.drop_last())) by {
            assert forall|i: int| 0 <= i < ranges.drop_last().len() implies (#[trigger] ranges.drop_last()[i]).0
                < ranges.drop_last()[i].1 by {
                assert(ranges.drop_last()[i] == ranges[i]);
            }
        }
        assert(ranges.last() == ranges[ranges.len() - 1]);
        lemma_shift_bounded(start, ranges.drop_last());
    }
}

pub proof fn lemma_total_prefix(ranges: Seq<(i64, i64)>, k: int)
    requires
        ranges_proper(ranges),
        0 <= k <= ranges.len(),
    ensures
        0 <= total_length(ranges.take(k)) <= total_length(ranges),
    decreases ranges.len(),
{
    if ranges.len() > 0 {
        assert(ranges_proper(ranges.drop_last())) by {
            assert forall|i: int| 0 <= i < ranges.drop_last().len() implies (#[trigger] ranges.drop_last()[i]).0
                < ranges.drop_last()[i].1 by {
                assert(ranges.drop_last()[i] == ranges[i]);
            }
        }
        assert(ranges.last() == ranges[ranges.len() - 1]);
        if k == ranges.len() {
            assert(ranges.take(k) =~= ranges);
            lemma_total_prefix(ranges.drop_last(), k - 1);
        } else {
            assert(ranges.take(k) =~= ranges.drop_last().take(k));
            lemma_total_prefix(ranges.drop_last(), k);
        }
    } else {
        assert(ranges.take(k) =~= ranges);
    }
}

/// `c` moved left by the frames the ranges remove before its start (never
/// past frame 0).
pub open spec fn shifted(c: ClipView, ranges: Seq<(i64, i64)>) -> ClipView {
    let shift = shift_of(c.start_frame as int, ranges);
    let m = if shift < c.start_frame { shift } else { c.start_frame as int };
    ClipView { start_frame: (c.start_frame - m) as i64, ..c }
}

/// Computing the shift of a clip starting at `start` stays representable.
pub open spec fn shift_fits(start: int, ranges: Seq<(i64, i64)>) -> bool {
    forall|i: int| 0 <= i < ranges.len() && (#[trigger] ranges[i]).0 < start ==> start - ranges[i].0 <= i64::MAX
}

/// Whether the shift of a clip starting at `start` can be computed.
pub fn check_shift_fits(start: i64, ranges: &Vec<(i64, i64)>) -> (r: bool)
    ensures
        r == shift_fits(start as int, ranges@),
{
    let mut k: usize = 0;
    while k < ranges.len()
        invariant
            0 <= k <= ranges@.len(),
            forall|i: int| 0 <= i < k && (#[trigger] ranges@[i]).0 < start ==> start - ranges@[i].0 <= i64::MAX,
        decreases ranges.len() - k,
    {
        let (rs, _re) = ranges[k];
        if rs < start && start.checked_sub(rs).is_none() {
            return false;
        }
        k = k + 1;
    }
    true
}

/// Moves a clip left by the frames the ranges remove before its start.
pub fn shift_clip(c: &mut Clip, ranges: &Vec<(i64, i64)>)
    requires
        ranges_proper(ranges@),
        total_length(ranges@) <= i64::MAX,
        0 <= old(c).start_frame,
        shift_fits(old(c).start_frame as int, ranges@),
    ensures
        final(c)@ == shifted(old(c)@, ranges@),
{
    let start = c.start_frame;
    let mut shift: i64 = 0;
    let mut k: usize = 0;
    while k < ranges.len()
        invariant
            0 <= k <= ranges@.len(),
            ranges_proper(ranges@),
            total_length(ranges@) <= i64::MAX,
            0 <= start,
            shift_fits(start as int, ranges@),
            shift == shift_of(start as int, ranges@.take(k as int)),
        decreases ranges.len() - k,
    {
        let (rs, re) = ranges[k];
        assert(ranges@[k as int] == (rs, re));
        assert(ranges@.take(k + 1).drop_last() =~= ranges@.take(k as int));
        assert(ranges@.take(k + 1).last() == (rs, re));
        proof {
            assert(ranges_proper(ranges@.take(k + 1))) by {
                assert forall|i: int| 0 <= i < ranges@.take(k + 1).len() implies (#[trigger] ranges@.take(
                    k + 1,
                )[i]).0 < ranges@.take(k + 1)[i].1 by {
                    assert(ranges@.take(k + 1)[i] == ranges@[i]);
                }
            }
            lemma_shift_bounded(start as int, ranges@.take(k + 1));
            lemma_total_prefix(ranges@, k + 1);
            lemma_total_prefix(ranges@, k as int);
        }
        if rs < start {
            let len = re - rs;
            let before = start - rs;
            shift = shift + if len < before { len } else { before };
        }
        k = k + 1;
    }
    assert(ranges@.take(k as int) =~= ranges@);
    proof { lemma_shift_bounded(start as int, ranges@); }
    let m = if shift < start { shift } else { start };
    c.start_frame = start - m;
}

// ---------------------------------------------------------------------------
// Whole-timeline helpers
// ---------------------------------------------------------------------------

/// `t` with `[start, end)` cleared on track `ti`.
pub open spec fn clear_track(t: TimelineView, ti: int, start: int, end: int) -> TimelineView {
    with_clips(t, ti, cleared(t.tracks[ti].clips, start, end))
}

/// Clears (removes or trims) every clip overlapping `[start, end)` on track
/// `ti`; with no track `ti` it does nothing.
pub fn clear_region(t: &mut Timeline, ti: usize, start: i64, end: i64)
    requires
        ti < old(t)@.tracks.len() ==> all_fit(old(t)@.tracks[ti as int].clips),
        ti < old(t)@.tracks.len() ==> region_fits(old(t)@.tracks[ti as int].clips, start as int, end as int),
    ensures
        ti < old(t)@.tracks.len() ==> final(t)@ == clear_track(old(t)@, ti as int, start as int, end as int),
        ti >= old(t)@.tracks.len() ==> final(t)@ == old(t)@,
{
    if ti >= t.tracks.len() {
        return;
    }
    let ghost t0 = t@;
    let clips = t.take_clips(ti);
    let kept = clear_clips(clips, start, end);
    t.put_clips(ti, kept);
    assert(t@.tracks =~= clear_track(t0, ti as int, start as int, end as int).tracks);
}

/// Every track's clips sorted by start frame.
pub open spec fn sort_tracks(tracks: Seq<TrackView>) -> Seq<TrackView> {
    tracks.map_values(|tr: TrackView| TrackView { clips: sort_by_start(tr.clips), ..tr })
}

/// Sorts the clips of every track by start frame.
pub fn sort_all_tracks(t: &mut Timeline)
    ensures
        final(t)@ == (TimelineView { tracks: sort_tracks(old(t)@.tracks), ..old(t)@ }),
{
    let ghost t0 = t@;
    let mut i: usize = 0;
    while i < t.tracks.len()
        invariant
            0 <= i <= t@.tracks.len(),
            t@.tracks.len() == t0.tracks.len(),
            t.tracks@.len() == t0.tracks.len(),
            t@ == (TimelineView { tracks: t@.tracks, ..t0 }),
            forall|j: int| 0 <= j < i ==> #[trigger] t@.tracks[j] == sort_tracks(t0.tracks)[j],
            forall|j: int| i <= j < t0.tracks.len() ==> #[trigger] t@.tracks[j] == t0.tracks[j],
        decreases t.tracks.len() - i,
    {
        let clips = t.take_clips(i);
        let sorted = sort_clips(clips);
        t.put_clips(i, sorted);
        i = i + 1;
    }
    assert(t@.tracks =~= sort_tracks(t0.tracks));
}

/// Sorting every track keeps every clip fitting.
pub proof fn lemma_sort_tracks_fits(t: TimelineView)
    requires
        timeline_fits(t),
    ensures
        timeline_fits(TimelineView { tracks: sort_tracks(t.tracks), ..t }),
{
    assert forall|i: int| 0 <= i < sort_tracks(t.tracks).len() implies all_fit(#[trigger] sort_tracks(t.tracks)[i].clips) by {
        assert(all_fit(t.tracks[i].clips));
        lemma_sort_fits(t.tracks[i].clips);
    }
}

} // verus!
