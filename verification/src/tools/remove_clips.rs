//! The `remove_clips` tool: removing clips together with their linked
//! partners, and pruning the tracks that this empties.

use vstd::prelude::*;
use crate::json::{Json, JsonValue};
use crate::model::{Clip, ClipView, EditorState, EditorView, Timeline, TimelineView, Track, TrackView, clips_view, spec_find_clip, tracks_view};
use crate::text::{dec_nat, push_str, push_usize, str_eq, string_of};
use crate::tools::args::{ToolOutcome, arg_str_array, cat2, err, first_where, lemma_first_where, ok, spec_arg_str_array, str_array_error};
use crate::tools::timeline::{commit, edited};

verus! {

/// The link group of the clip that `id` names (its first location).
pub open spec fn group_of(t: TimelineView, id: Seq<char>) -> Option<Seq<char>> {
    match spec_find_clip(t, id) {
        Some((ti, ci)) => t.tracks[ti as int].clips[ci as int].link_group_id,
        None => None,
    }
}

/// Whether `g` is the link group of one of the listed clips.
pub open spec fn listed_group(t: TimelineView, ids: Seq<Seq<char>>, g: Seq<char>) -> bool {
    exists|k: int| 0 <= k < ids.len() && group_of(t, #[trigger] ids[k]) == Some(g)
}

/// Every clip of the tracks, track by track.
pub open spec fn flat_clips(tracks: Seq<TrackView>) -> Seq<ClipView>
    decreases tracks.len(),
{
    if tracks.len() == 0 {
        Seq::empty()
    } else {
        flat_clips(tracks.drop_last()) + tracks.last().clips
    }
}

/// The ids of the clips of `clips` that share a link group with a listed
/// clip, in order.
pub open spec fn linked_ids(clips: Seq<ClipView>, t: TimelineView, ids: Seq<Seq<char>>) -> Seq<Seq<char>>
    decreases clips.len(),
{
    if clips.len() == 0 {
        Seq::empty()
    } else {
        linked_ids(clips.drop_last(), t, ids) + if clips.last().link_group_id matches Some(g) && listed_group(
            t,
            ids,
            g,
        ) {
            seq![clips.last().id]
        } else {
            Seq::<Seq<char>>::empty()
        }
    }
}

/// Whether a clip with id `id` is removed: it is listed, or some clip with
/// that id shares a link group with a listed clip.
pub open spec fn removes(t: TimelineView, ids: Seq<Seq<char>>, id: Seq<char>) -> bool {
    ids.contains(id) || linked_ids(flat_clips(t.tracks), t, ids).contains(id)
}

pub open spec fn removed_set(t: TimelineView, ids: Seq<Seq<char>>) -> Set<Seq<char>> {
    Set::new(|id: Seq<char>| removes(t, ids, id))
}

/// The clips whose id is not in `gone`, in order.
pub open spec fn drop_ids(clips: Seq<ClipView>, gone: Set<Seq<char>>) -> Seq<ClipView>
    decreases clips.len(),
{
    if clips.len() == 0 {
        clips
    } else {
        drop_ids(clips.drop_last(), gone) + if gone.contains(clips.last().id) {
            Seq::<ClipView>::empty()
        } else {
            seq![clips.last()]
        }
    }
}

/// The tracks whose id is not in `gone`, in order.
pub open spec fn drop_tracks(tracks: Seq<TrackView>, gone: Set<Seq<char>>) -> Seq<TrackView>
    decreases tracks.len(),
{
    if tracks.len() == 0 {
        tracks
    } else {
        drop_tracks(tracks.drop_last(), gone) + if gone.contains(tracks.last().id) {
            Seq::<TrackView>::empty()
        } else {
            seq![tracks.last()]
        }
    }
}

pub open spec fn strip_tracks(tracks: Seq<TrackView>, gone: Set<Seq<char>>) -> Seq<TrackView> {
    tracks.map_values(|tr: TrackView| TrackView { clips: drop_ids(tr.clips, gone), ..tr })
}

/// Ids of the tracks that had clips and have none once `gone` is removed.
pub open spec fn emptied(tracks: Seq<TrackView>, gone: Set<Seq<char>>) -> Set<Seq<char>> {
    Set::new(
        |id: Seq<char>|
            exists|i: int|
                0 <= i < tracks.len() && (#[trigger] tracks[i]).id == id && tracks[i].clips.len() > 0 && drop_ids(
                    tracks[i].clips,
                    gone,
                ).len() == 0,
    )
}

/// More than one clip id is removed.
pub open spec fn removes_several(t: TimelineView, ids: Seq<Seq<char>>) -> bool {
    exists|a: Seq<char>, b: Seq<char>| a != b && #[trigger] removes(t, ids, a) && #[trigger] removes(t, ids, b)
}

/// The first listed clip id that names no clip.
pub open spec fn first_missing_clip(t: TimelineView, ids: Seq<Seq<char>>) -> Option<int> {
    first_where(ids, |x: Seq<char>| spec_find_clip(t, x) is None)
}

pub open spec fn all_found(t: TimelineView, ids: Seq<Seq<char>>) -> bool {
    forall|k: int| 0 <= k < ids.len() ==> (#[trigger] spec_find_clip(t, ids[k])) is Some
}

/// What `remove_clips` does: every listed clip and every clip sharing a
/// link group with one goes; tracks this leaves empty are pruned. `None`
/// for an error, with the state left as it was.
pub open spec fn remove_clips_effect(s: EditorView, args: Json) -> Option<EditorView> {
    match spec_arg_str_array(args, "clipIds"@) {
        None => None,
        Some(ids) => if ids.len() == 0 || !all_found(s.timeline, ids) {
            None
        } else {
            let gone = removed_set(s.timeline, ids);
            let stripped = strip_tracks(s.timeline.tracks, gone);
            let tracks = drop_tracks(stripped, emptied(s.timeline.tracks, gone));
            let name = if removes_several(s.timeline, ids) { "Remove Clips (Agent)"@ } else { "Remove Clip (Agent)"@ };
            Some(edited(s, name, TimelineView { tracks, ..s.timeline }))
        },
    }
}

/// How many tracks had clips and have none once `gone` is removed.
pub open spec fn emptied_count(tracks: Seq<TrackView>, gone: Set<Seq<char>>) -> nat
    decreases tracks.len(),
{
    if tracks.len() == 0 {
        0
    } else {
        emptied_count(tracks.drop_last(), gone) + if tracks.last().clips.len() > 0 && drop_ids(tracks.last().clips, gone).len()
            == 0 {
            1nat
        } else {
            0nat
        }
    }
}

/// `ids` joined by `, `.
pub open spec fn comma_joined(ids: Seq<Seq<char>>) -> Seq<char>
    decreases ids.len(),
{
    if ids.len() == 0 {
        Seq::empty()
    } else if ids.len() == 1 {
        ids[0]
    } else {
        comma_joined(ids.drop_last()) + ", "@ + ids.last()
    }
}

/// The summary of a successful `remove_clips`: how many clips went (and
/// how many of them were linked partners), how many emptied tracks were
/// pruned, and the listed ids.
pub open spec fn remove_message(s: EditorView, args: Json) -> Seq<char> {
    let ids = spec_arg_str_array(args, "clipIds"@)->0;
    let gone = removed_set(s.timeline, ids);
    let count = gone.len();
    let extra = count - ids.len();
    let pruned = emptied_count(s.timeline.tracks, gone);
    "Removed "@ + dec_nat(count) + (if count == 1 { " clip"@ } else { " clips"@ }) + (if extra > 0 {
        " (+"@ + dec_nat(extra as nat) + " linked)"@
    } else {
        ""@
    }) + (if pruned > 0 {
        ". Pruned "@ + dec_nat(pruned) + (if pruned == 1 { " empty track"@ } else { " empty tracks"@ })
            + " — track indices have shifted; re-read with get_timeline before next index-based call"@
    } else {
        ""@
    }) + ": "@ + comma_joined(ids)
}

/// Everything `remove_clips` answers and leaves: the effect and summary,
/// and the message for a bad id list or the first id that names no clip.
pub open spec fn remove_clips_outcome(s: EditorView, args: Json, r: ToolOutcome, n: EditorView) -> bool {
    &&& match remove_clips_effect(s, args) {
        None => r is Error && n == s,
        Some(x) => n == x && (r matches ToolOutcome::Text(m) && m@ == remove_message(s, args)),
    }
    &&& match spec_arg_str_array(args, "clipIds"@) {
        None => r matches ToolOutcome::Error(m) && m@ == str_array_error(args, "clipIds"@),
        Some(ids) => if ids.len() == 0 {
            r matches ToolOutcome::Error(m) && m@ == "Missing or empty 'clipIds' array"@
        } else {
            first_missing_clip(s.timeline, ids) matches Some(k) ==> (r matches ToolOutcome::Error(m) && m@ == "Clip not found: "@ + ids[k])
        },
    }
}

/// The inputs on which the summary's count of linked partners is defined:
/// at least as many distinct clip ids are removed as were listed.
pub open spec fn remove_clips_ok(s: EditorView, args: Json) -> bool {
    match spec_arg_str_array(args, "clipIds"@) {
        Some(ids) => ids.len() > 0 && all_found(s.timeline, ids) ==> removed_set(s.timeline, ids).finite()
            && removed_set(s.timeline, ids).len() >= ids.len(),
        None => true,
    }
}

// ---------------------------------------------------------------------------
// Execution
// ---------------------------------------------------------------------------

pub open spec fn strs(v: Seq<String>) -> Seq<Seq<char>> {
    v.map_values(|x: String| x@)
}

/// Whether `x` is one of `v`.
pub fn contains_str(v: &Vec<String>, x: &str) -> (r: bool)
    ensures
        r == strs(v@).contains(x@),
{
    let mut i: usize = 0;
    while i < v.len()
        invariant
            0 <= i <= v@.len(),
            forall|j: int| 0 <= j < i ==> (#[trigger] v@[j])@ != x@,
        decreases v.len() - i,
    {
        if str_eq(v[i].as_str(), x) {
            assert(strs(v@)[i as int] == x@);
            return true;
        }
        i = i + 1;
    }
    assert forall|j: int| 0 <= j < strs(v@).len() implies strs(v@)[j] != x@ by {
        assert(strs(v@)[j] == v@[j]@);
    }
    false
}

/// The clips whose id is not listed in `gone`.
pub(crate) fn drop_clips_by_id(clips: Vec<Clip>, gone: &Vec<String>) -> (r: Vec<Clip>)
    ensures
        clips_view(r@) == drop_ids(clips_view(clips@), strs(gone@).to_set()),
{
    let ghost orig = clips_view(clips@);
    let ghost g = strs(gone@).to_set();
    let mut rest = clips;
    let mut out: Vec<Clip> = Vec::new();
    let mut k: usize = 0;
    assert(orig.len() == rest.len());
    while rest.len() > 0
        invariant
            orig.len() == k + rest@.len(),
            orig.len() <= usize::MAX,
            g == strs(gone@).to_set(),
            clips_view(rest@) == orig.subrange(k as int, orig.len() as int),
            clips_view(out@) == drop_ids(orig.take(k as int), g),
        decreases rest.len(),
    {
        let ghost rv = rest@;
        let c = rest.remove(0);
        assert(c@ == orig[k as int]) by {
            assert(clips_view(rv)[0] == orig.subrange(k as int, orig.len() as int)[0]);
        }
        assert forall|j: int| 0 <= j < rest@.len() implies #[trigger] clips_view(rest@)[j] == orig.subrange(k + 1, orig.len() as int)[j] by {
            assert(rest@[j] == rv[j + 1]);
            assert(clips_view(rv)[j + 1] == orig.subrange(k as int, orig.len() as int)[j + 1]);
        }
        assert(clips_view(rest@) =~= orig.subrange(k + 1, orig.len() as int));
        assert(orig.take(k + 1).drop_last() =~= orig.take(k as int));
        assert(orig.take(k + 1).last() == orig[k as int]);
        let ghost before = clips_view(out@);
        let ghost cv = c@;
        let listed = contains_str(gone, c.id.as_str());
        assert(listed == g.contains(cv.id));
        if !listed {
            out.push(c);
            assert(clips_view(out@) =~= before + seq![cv]);
        } else {
            assert(clips_view(out@) =~= before + Seq::<ClipView>::empty());
        }
        k = k + 1;
    }
    assert(orig.take(k as int) =~= orig);
    out
}

/// The tracks whose id is not listed in `gone`.
fn drop_tracks_by_id(tracks: Vec<Track>, gone: &Vec<String>) -> (r: Vec<Track>)
    ensures
        tracks_view(r@) == drop_tracks(tracks_view(tracks@), strs(gone@).to_set()),
{
    let ghost orig = tracks_view(tracks@);
    let ghost g = strs(gone@).to_set();
    let mut rest = tracks;
    let mut out: Vec<Track> = Vec::new();
    let mut k: usize = 0;
    assert(orig.len() == rest.len());
    while rest.len() > 0
        invariant
            orig.len() == k + rest@.len(),
            orig.len() <= usize::MAX,
            g == strs(gone@).to_set(),
            tracks_view(rest@) == orig.subrange(k as int, orig.len() as int),
            tracks_view(out@) == drop_tracks(orig.take(k as int), g),
        decreases rest.len(),
    {
        let ghost rv = rest@;
        let t = rest.remove(0);
        assert(t@ == orig[k as int]) by {
            assert(tracks_view(rv)[0] == orig.subrange(k as int, orig.len() as int)[0]);
        }
        assert forall|j: int| 0 <= j < rest@.len() implies #[trigger] tracks_view(rest@)[j] == orig.subrange(k + 1, orig.len() as int)[j] by {
            assert(rest@[j] == rv[j + 1]);
            assert(tracks_view(rv)[j + 1] == orig.subrange(k as int, orig.len() as int)[j + 1]);
        }
        assert(tracks_view(rest@) =~= orig.subrange(k + 1, orig.len() as int));
        assert(orig.take(k + 1).drop_last() =~= orig.take(k as int));
        assert(orig.take(k + 1).last() == orig[k as int]);
        let ghost before = tracks_view(out@);
        let ghost tv = t@;
        let listed = contains_str(gone, t.id.as_str());
        if !listed {
            out.push(t);
            assert(tracks_view(out@) =~= before + seq![tv]);
        } else {
            assert(tracks_view(out@) =~= before + Seq::<TrackView>::empty());
        }
        k = k + 1;
    }
    assert(orig.take(k as int) =~= orig);
    out
}

/// The ids of the clips linked to a listed clip, in timeline order.
fn linked_clip_ids(t: &Timeline, groups: &Vec<String>, Ghost(iv): Ghost<Seq<Seq<char>>>) -> (r: Vec<String>)
    requires
        forall|g: Seq<char>| strs(groups@).contains(g) <==> listed_group(t@, iv, g),
    ensures
        strs(r@) == linked_ids(flat_clips(t@.tracks), t@, iv),
{
    let mut out: Vec<String> = Vec::new();
    let mut ti: usize = 0;
    assert(t@.tracks.take(0) =~= Seq::<TrackView>::empty());
    while ti < t.tracks.len()
        invariant
            0 <= ti <= t.tracks@.len(),
            t@.tracks.len() == t.tracks@.len(),
            forall|g: Seq<char>| strs(groups@).contains(g) <==> listed_group(t@, iv, g),
            strs(out@) == linked_ids(flat_clips(t@.tracks.take(ti as int)), t@, iv),
        decreases t.tracks.len() - ti,
    {
        let track = &t.tracks[ti];
        assert(t@.tracks[ti as int] == track@);
        let ghost fl = flat_clips(t@.tracks.take(ti as int));
        let mut ci: usize = 0;
        assert(fl + track@.clips.take(0) =~= fl);
        while ci < track.clips.len()
            invariant
                0 <= ti < t.tracks@.len(),
                t@.tracks[ti as int] == track@,
                0 <= ci <= track.clips@.len(),
                track@.clips.len() == track.clips@.len(),
                forall|g: Seq<char>| strs(groups@).contains(g) <==> listed_group(t@, iv, g),
                strs(out@) == linked_ids(fl + track@.clips.take(ci as int), t@, iv),
            decreases track.clips.len() - ci,
        {
            let c = &track.clips[ci];
            assert(track@.clips[ci as int] == c@);
            assert((fl + track@.clips.take(ci + 1)).drop_last() =~= fl + track@.clips.take(ci as int));
            assert((fl + track@.clips.take(ci + 1)).last() == c@);
            let linked = match &c.link_group_id {
                Some(g) => contains_str(groups, g.as_str()),
                None => false,
            };
            let ghost prev = strs(out@);
            if linked {
                out.push(c.id.clone());
                assert(strs(out@) =~= prev + seq![c@.id]);
            } else {
                assert(strs(out@) =~= prev + Seq::<Seq<char>>::empty());
            }
            ci = ci + 1;
        }
        assert(track@.clips.take(ci as int) =~= track@.clips);
        assert(t@.tracks.take(ti + 1).drop_last() =~= t@.tracks.take(ti as int));
        assert(t@.tracks.take(ti + 1).last() == track@);
        ti = ti + 1;
    }
    assert(t@.tracks.take(ti as int) =~= t@.tracks);
    out
}

proof fn lemma_push_contains(s: Seq<Seq<char>>, a: Seq<char>, x: Seq<char>)
    ensures
        s.push(a).contains(x) <==> (s.contains(x) || x == a),
{
    if s.contains(x) {
        let k = choose|k: int| 0 <= k < s.len() && s[k] == x;
        assert(s.push(a)[k] == x);
    }
    if x == a {
        assert(s.push(a)[s.len() as int] == x);
    }
    if s.push(a).contains(x) {
        let k = choose|k: int| 0 <= k < s.push(a).len() && s.push(a)[k] == x;
        if k < s.len() {
            assert(s[k] == x);
        }
    }
}

/// The distinct strings of `v`, first occurrences in order.
pub(crate) fn distinct_strs(v: &Vec<String>) -> (r: Vec<String>)
    ensures
        strs(r@).no_duplicates(),
        forall|x: Seq<char>| strs(r@).contains(x) <==> strs(v@).contains(x),
{
    let ghost vv = strs(v@);
    let mut out: Vec<String> = Vec::new();
    let mut i: usize = 0;
    while i < v.len()
        invariant
            0 <= i <= v@.len(),
            vv == strs(v@),
            strs(out@).no_duplicates(),
            forall|x: Seq<char>| strs(out@).contains(x) <==> vv.take(i as int).contains(x),
        decreases v.len() - i,
    {
        assert(vv[i as int] == v@[i as int]@);
        assert(vv.take(i + 1) =~= vv.take(i as int).push(vv[i as int]));
        let ghost prev = strs(out@);
        let present = contains_str(&out, v[i].as_str());
        if !present {
            out.push(v[i].clone());
            assert(strs(out@) =~= prev.push(vv[i as int]));
        }
        proof {
            assert forall|x: Seq<char>| strs(out@).contains(x) <==> vv.take(i + 1).contains(x) by {
                lemma_push_contains(vv.take(i as int), vv[i as int], x);
                lemma_push_contains(prev, vv[i as int], x);
            }
        }
        i = i + 1;
    }
    assert(vv.take(i as int) =~= vv);
    out
}

/// The link groups of the listed clips, in order.
pub open spec fn groups_seq(t: TimelineView, ids: Seq<Seq<char>>) -> Seq<Seq<char>>
    decreases ids.len(),
{
    if ids.len() == 0 {
        Seq::empty()
    } else {
        groups_seq(t, ids.drop_last()) + match group_of(t, ids.last()) {
            Some(g) => seq![g],
            None => Seq::<Seq<char>>::empty(),
        }
    }
}

proof fn lemma_groups_seq(t: TimelineView, ids: Seq<Seq<char>>, x: Seq<char>)
    ensures
        groups_seq(t, ids).contains(x) <==> listed_group(t, ids, x),
    decreases ids.len(),
{
    if ids.len() > 0 {
        lemma_groups_seq(t, ids.drop_last(), x);
        let pre = groups_seq(t, ids.drop_last());
        let tail = match group_of(t, ids.last()) {
            Some(g) => seq![g],
            None => Seq::<Seq<char>>::empty(),
        };
        if (pre + tail).contains(x) {
            let k = choose|k: int| 0 <= k < (pre + tail).len() && (pre + tail)[k] == x;
            if k < pre.len() {
                assert(pre[k] == x);
                let j = choose|j: int| 0 <= j < ids.drop_last().len() && group_of(t, #[trigger] ids.drop_last()[j]) == Some(x);
                assert(ids[j] == ids.drop_last()[j]);
            } else {
                assert(group_of(t, ids[ids.len() - 1]) == Some(x));
            }
        }
        if listed_group(t, ids, x) {
            let j = choose|j: int| 0 <= j < ids.len() && group_of(t, #[trigger] ids[j]) == Some(x);
            if j < ids.len() - 1 {
                assert(ids.drop_last()[j] == ids[j]);
                assert(listed_group(t, ids.drop_last(), x));
                let k = choose|k: int| 0 <= k < pre.len() && pre[k] == x;
                assert((pre + tail)[k] == x);
            } else {
                assert((pre + tail)[pre.len() as int] == x);
            }
        }
    }
}

/// The listed ids are all found.
fn check_found(t: &Timeline, ids: &Vec<String>) -> (r: Result<(), String>)
    ensures
        r is Ok <==> all_found(t@, strs(ids@)),
        r matches Err(m) ==> first_missing_clip(t@, strs(ids@)) matches Some(k) && m@ == "Clip not found: "@ + strs(ids@)[k],
{
    let ghost iv = strs(ids@);
    let mut i: usize = 0;
    while i < ids.len()
        invariant
            0 <= i <= ids@.len(),
            iv == strs(ids@),
            forall|k: int| 0 <= k < i ==> (#[trigger] spec_find_clip(t@, iv[k])) is Some,
        decreases ids.len() - i,
    {
        assert(iv[i as int] == ids@[i as int]@);
        if t.find_clip(ids[i].as_str()).is_none() {
            assert(!all_found(t@, iv));
            proof { lemma_first_where(iv, |x: Seq<char>| spec_find_clip(t@, x) is None, i as int); }
            return Err(cat2("Clip not found: ", ids[i].as_str()));
        }
        i = i + 1;
    }
    Ok(())
}

/// The link groups of the listed clips.
fn listed_groups(t: &Timeline, ids: &Vec<String>) -> (r: Vec<String>)
    ensures
        forall|x: Seq<char>| strs(r@).contains(x) <==> listed_group(t@, strs(ids@), x),
{
    let ghost iv = strs(ids@);
    let mut groups: Vec<String> = Vec::new();
    let mut i: usize = 0;
    assert(iv.take(0) =~= Seq::<Seq<char>>::empty());
    while i < ids.len()
        invariant
            0 <= i <= ids@.len(),
            iv == strs(ids@),
            strs(groups@) == groups_seq(t@, iv.take(i as int)),
        decreases ids.len() - i,
    {
        assert(iv[i as int] == ids@[i as int]@);
        assert(iv.take(i + 1).drop_last() =~= iv.take(i as int));
        assert(iv.take(i + 1).last() == iv[i as int]);
        let ghost prev = strs(groups@);
        match t.find_clip(ids[i].as_str()) {
            Some((ti, ci)) => {
                assert(t@.tracks[ti as int].clips[ci as int] == t.tracks@[ti as int].clips@[ci as int]@);
                match &t.tracks[ti].clips[ci].link_group_id {
                    Some(g) => {
                        groups.push(g.clone());
                        assert(strs(groups@) =~= prev + seq![g@]);
                    },
                    None => {
                        assert(strs(groups@) =~= prev + Seq::<Seq<char>>::empty());
                    },
                }
            },
            None => {
                assert(strs(groups@) =~= prev + Seq::<Seq<char>>::empty());
            },
        }
        i = i + 1;
    }
    assert(iv.take(i as int) =~= iv);
    proof {
        assert forall|x: Seq<char>| strs(groups@).contains(x) <==> listed_group(t@, iv, x) by {
            lemma_groups_seq(t@, iv, x);
        }
    }
    groups
}

/// Strips the gone clips from every track of `t`, recording the ids of the
/// tracks this empties.
fn strip_all(t: &mut Timeline, gone: &Vec<String>) -> (r: Vec<String>)
    ensures
        final(t)@ == (TimelineView { tracks: strip_tracks(old(t)@.tracks, strs(gone@).to_set()), ..old(t)@ }),
        strs(r@).to_set() == emptied(old(t)@.tracks, strs(gone@).to_set()),
        r@.len() == emptied_count(old(t)@.tracks, strs(gone@).to_set()),
{
    let ghost t0 = t@;
    let ghost g = strs(gone@).to_set();
    let ghost want = strip_tracks(t0.tracks, g);
    let mut em: Vec<String> = Vec::new();
    let mut i: usize = 0;
    while i < t.tracks.len()
        invariant
            0 <= i <= t@.tracks.len(),
            t@.tracks.len() == t0.tracks.len(),
            t.tracks@.len() == t0.tracks.len(),
            g == strs(gone@).to_set(),
            want == strip_tracks(t0.tracks, g),
            t@ == (TimelineView { tracks: t@.tracks, ..t0 }),
            forall|j: int| 0 <= j < i ==> #[trigger] t@.tracks[j] == want[j],
            forall|j: int| i <= j < t0.tracks.len() ==> #[trigger] t@.tracks[j] == t0.tracks[j],
            forall|x: Seq<char>| strs(em@).contains(x) <==> exists|j: int|
                0 <= j < i && (#[trigger] t0.tracks[j]).id == x && t0.tracks[j].clips.len() > 0 && drop_ids(
                    t0.tracks[j].clips,
                    g,
                ).len() == 0,
            em@.len() == emptied_count(t0.tracks.take(i as int), g),
        decreases t.tracks.len() - i,
    {
        assert(t0.tracks.take(i + 1).drop_last() =~= t0.tracks.take(i as int));
        assert(t0.tracks.take(i + 1).last() == t0.tracks[i as int]);
        assert(t@.tracks[i as int] == t.tracks@[i as int]@);
        let ghost tv = t0.tracks[i as int];
        let clips = t.take_clips(i);
        let before = clips.len();
        let kept = drop_clips_by_id(clips, gone);
        let now_empty = before > 0 && kept.len() == 0;
        let ghost prev = strs(em@);
        if now_empty {
            assert(t@.tracks[i as int] == t.tracks@[i as int]@);
            em.push(t.tracks[i].id.clone());
            assert(strs(em@) =~= prev.push(tv.id));
        }
        t.put_clips(i, kept);
        proof {
            assert forall|x: Seq<char>| strs(em@).contains(x) <==> exists|j: int|
                0 <= j < i + 1 && (#[trigger] t0.tracks[j]).id == x && t0.tracks[j].clips.len() > 0 && drop_ids(
                    t0.tracks[j].clips,
                    g,
                ).len() == 0 by {
                if now_empty {
                    lemma_push_contains(prev, tv.id, x);
                }
                if exists|j: int|
                    0 <= j < i + 1 && (#[trigger] t0.tracks[j]).id == x && t0.tracks[j].clips.len() > 0 && drop_ids(
                        t0.tracks[j].clips,
                        g,
                    ).len() == 0 {
                    let j = choose|j: int|
                        0 <= j < i + 1 && (#[trigger] t0.tracks[j]).id == x && t0.tracks[j].clips.len() > 0
                            && drop_ids(t0.tracks[j].clips, g).len() == 0;
                    if j < i {
                        assert(exists|j2: int|
                            0 <= j2 < i && (#[trigger] t0.tracks[j2]).id == x && t0.tracks[j2].clips.len() > 0
                                && drop_ids(t0.tracks[j2].clips, g).len() == 0);
                    }
                }
            }
        }
        i = i + 1;
    }
    assert(t@.tracks =~= want);
    assert(strs(em@).to_set() =~= emptied(t0.tracks, g));
    assert(t0.tracks.take(i as int) =~= t0.tracks);
    em
}

#[verifier::rlimit(80)]
#[verifier::spinoff_prover]
pub fn tool_remove_clips(s: &mut EditorState, args: &JsonValue) -> (r: ToolOutcome)
    requires
        remove_clips_ok(old(s)@, args@),
    ensures
        remove_clips_outcome(old(s)@, args@, r, final(s)@),
{
    proof { crate::model::lemma_editor_view(*s); }
    let ids = match arg_str_array(args, "clipIds") {
        Ok(v) => v,
        Err(e) => return err(e),
    };
    if ids.len() == 0 {
        return err(string_of("Missing or empty 'clipIds' array"));
    }
    let ghost iv = strs(ids@);
    assert(iv =~= ids@.map_values(|x: String| x@));
    match check_found(&s.timeline, &ids) {
        Ok(()) => {},
        Err(m) => return err(m),
    }
    let groups = listed_groups(&s.timeline, &ids);
    let linked = linked_clip_ids(&s.timeline, &groups, Ghost(iv));
    let mut all = ids.clone();
    assert(all@ == ids@);
    let mut more = linked;
    let ghost lv = strs(more@);
    all.append(&mut more);
    assert(strs(all@) =~= iv + lv);
    let gone = distinct_strs(&all);
    let ghost gv = strs(gone@);
    proof {
        assert forall|x: Seq<char>| gv.contains(x) <==> removes(s@.timeline, iv, x) by {
            if (iv + lv).contains(x) {
                let k = choose|k: int| 0 <= k < (iv + lv).len() && (iv + lv)[k] == x;
                if k < iv.len() {
                    assert(iv[k] == x);
                } else {
                    assert(lv[k - iv.len()] == x);
                }
            }
            if iv.contains(x) {
                let k = choose|k: int| 0 <= k < iv.len() && iv[k] == x;
                assert((iv + lv)[k] == x);
            }
            if lv.contains(x) {
                let k = choose|k: int| 0 <= k < lv.len() && lv[k] == x;
                assert((iv + lv)[k + iv.len()] == x);
            }
        }
        assert(gv.to_set() =~= removed_set(s@.timeline, iv));
        gv.unique_seq_to_set();
        vstd::seq_lib::seq_to_set_is_finite(gv);
        if gv.len() >= 2 {
            assert(gv[0] != gv[1]);
            assert(gv.contains(gv[0]) && gv.contains(gv[1]));
            assert(removes(s@.timeline, iv, gv[0]) && removes(s@.timeline, iv, gv[1]));
        } else if removes_several(s@.timeline, iv) {
            let (a, b) = choose|a: Seq<char>, b: Seq<char>| a != b && #[trigger] removes(s@.timeline, iv, a)
                && #[trigger] removes(s@.timeline, iv, b);
            assert(gv.contains(a) && gv.contains(b));
        }
    }
    let ghost s0 = s@;
    let count = gone.len();
    assert(count == removed_set(s0.timeline, iv).len());
    let extra = count - ids.len();
    let name = if count == 1 { string_of("Remove Clip (Agent)") } else { string_of("Remove Clips (Agent)") };
    let mut tl = s.timeline.duplicate();
    let em = strip_all(&mut tl, &gone);
    let Timeline { fps, width, height, settings_configured, tracks } = tl;
    let kept = drop_tracks_by_id(tracks, &em);
    let new_tl = Timeline { fps, width, height, settings_configured, tracks: kept };
    let pruned = em.len();
    assert(pruned == emptied_count(s0.timeline.tracks, removed_set(s0.timeline, iv)));
    assert(spec_arg_str_array(args@, "clipIds"@)->0 == iv);
    commit(s, name, new_tl);
    proof { reveal_strlit(""); }
    let mut m = string_of("Removed ");
    push_usize(&mut m, count);
    push_str(&mut m, if count == 1 { " clip" } else { " clips" });
    if extra > 0 {
        push_str(&mut m, " (+");
        push_usize(&mut m, extra);
        push_str(&mut m, " linked)");
    }
    if pruned > 0 {
        push_str(&mut m, ". Pruned ");
        push_usize(&mut m, pruned);
        push_str(&mut m, if pruned == 1 { " empty track" } else { " empty tracks" });
        push_str(&mut m, " — track indices have shifted; re-read with get_timeline before next index-based call");
    }
    push_str(&mut m, ": ");
    let ghost head = m@;
    let mut k: usize = 0;
    while k < ids.len()
        invariant
            0 <= k <= ids@.len(),
            m@ == head + comma_joined(strs(ids@).take(k as int)),
        decreases ids.len() - k,
    {
        proof {
            assert(strs(ids@).take(k + 1).drop_last() =~= strs(ids@).take(k as int));
            assert(strs(ids@).take(k + 1).last() == ids@[k as int]@);
            reveal_strlit("");
        }
        if k > 0 {
            push_str(&mut m, ", ");
        } else {
            assert(comma_joined(strs(ids@).take(0)) =~= Seq::<char>::empty());
        }
        push_str(&mut m, ids[k].as_str());
        k = k + 1;
    }
    assert(strs(ids@).take(k as int) =~= strs(ids@));
    assert(m@ =~= remove_message(s0, args@));
    ok(m)
}

/// Whether `remove_clips` can report its count of linked partners for
/// these arguments (see `remove_clips_ok`).
pub fn remove_clips_allowed(s: &EditorState, args: &JsonValue) -> (r: bool)
    ensures
        r == remove_clips_ok(s@, args@),
{
    proof { crate::model::lemma_editor_view(*s); }
    let ids = match arg_str_array(args, "clipIds") {
        Ok(v) => v,
        Err(_) => return true,
    };
    let ghost iv = strs(ids@);
    assert(iv =~= ids@.map_values(|x: String| x@));
    if ids.len() == 0 {
        return true;
    }
    match check_found(&s.timeline, &ids) {
        Ok(()) => {},
        Err(_) => return true,
    }
    let groups = listed_groups(&s.timeline, &ids);
    let linked = linked_clip_ids(&s.timeline, &groups, Ghost(iv));
    let mut all = ids.clone();
    assert(all@ == ids@);
    let mut more = linked;
    let ghost lv = strs(more@);
    all.append(&mut more);
    assert(strs(all@) =~= iv + lv);
    let gone = distinct_strs(&all);
    let ghost gv = strs(gone@);
    proof {
        assert forall|x: Seq<char>| gv.contains(x) <==> removes(s@.timeline, iv, x) by {
            if (iv + lv).contains(x) {
                let k = choose|k: int| 0 <= k < (iv + lv).len() && (iv + lv)[k] == x;
                if k < iv.len() {
                    assert(iv[k] == x);
                } else {
                    assert(lv[k - iv.len()] == x);
                }
            }
            if iv.contains(x) {
                let k = choose|k: int| 0 <= k < iv.len() && iv[k] == x;
                assert((iv + lv)[k] == x);
            }
            if lv.contains(x) {
                let k = choose|k: int| 0 <= k < lv.len() && lv[k] == x;
                assert((iv + lv)[k + iv.len()] == x);
            }
        }
        assert(gv.to_set() =~= removed_set(s@.timeline, iv));
        gv.unique_seq_to_set();
        vstd::seq_lib::seq_to_set_is_finite(gv);
    }
    gone.len() >= ids.len()
}

} // verus!
