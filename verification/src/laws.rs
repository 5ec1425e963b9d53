//! Properties that relate several operations of the editor.

use vstd::prelude::*;
use crate::clip_type::ClipType;
use crate::edit::{clear_pieces, cleared, cut_ranges, renamed};
use crate::ripple::ripple_clip_spec;
use crate::json::Json;
use crate::model::{ClipView, EditorView, all_fit, clip_intersects, minted_id};
use crate::text::{dec_nat, digit_char};
use crate::tools::add_clips::add_clips_effect;
use crate::tools::add_texts::add_texts_effect;
use crate::tools::clip_properties::set_props_effect;
use crate::tools::keyframes::set_keyframes_effect;
use crate::tools::folders::{
    create_fold, create_folder_effect, rename_fold, delete_folder_effect, delete_media_effect, move_fold, move_ids, move_to_folder_effect,
    rename_effect,
};
use crate::tools::insert_clips::insert_clips_effect;
use crate::tools::move_clips::move_clips_effect;
use crate::tools::remove_clips::remove_clips_effect;
use crate::tools::ripple_delete::ripple_delete_effect;
use crate::tools::timeline::{edited, remove_tracks_effect, split_clip_effect, undo_effect};

verus! {

/// `undo` on `n` restores the timeline, the media library (assets and
/// folders) and the undo history of `s`.
pub open spec fn undoes_to(n: EditorView, s: EditorView) -> bool {
    undo_effect(n) matches Some(u) && u.timeline == s.timeline && u.media_assets == s.media_assets && u.folders == s.folders
        && u.undo_stack == s.undo_stack
}

/// Compatibility of clip types is symmetric: `a` fits where `b` goes
/// exactly when `b` fits where `a` goes.
pub proof fn law_compatibility_symmetric(a: ClipType, b: ClipType)
    ensures
        a.spec_is_compatible_with(b) == b.spec_is_compatible_with(a),
{
}

/// An agent edit followed by `undo` gives back exactly the state before
/// the edit, whatever the edit did to the timeline.
pub proof fn law_undo_reverts_edit(s: EditorView, name: Seq<char>, t: crate::model::TimelineView)
    ensures
        undo_effect(edited(s, name, t)) == Some(s),
{
    assert(s.undo_stack.push(
        crate::model::UndoView {
            action_name: name,
            timeline_snapshot: s.timeline,
            library_snapshot: None,
        },
    ).drop_last() =~= s.undo_stack);
}

/// Undoing a timeline edit brings back the timeline only: whatever the media
/// library holds by then (assets imported or generated after the edit, say)
/// stays as it is.
pub proof fn law_timeline_undo_keeps_library(
    s: EditorView,
    name: Seq<char>,
    t: crate::model::TimelineView,
    media: Seq<crate::model::AssetView>,
    folders: Seq<crate::model::FolderView>,
)
    ensures
        undo_effect(EditorView { media_assets: media, folders, ..edited(s, name, t) }) matches Some(u)
            && u.timeline == s.timeline && u.media_assets == media && u.folders == folders
            && u.undo_stack == s.undo_stack,
{
    broadcast use lemma_edited_stack;
}

/// After any successful timeline tool (`add_clips`, `insert_clips`,
/// `remove_clips`, `remove_tracks`, `move_clips`, `split_clip`,
/// `ripple_delete_ranges`, `add_texts`), `undo` restores the timeline, the
/// media library and the undo history from before the call; so it does after
/// `set_clip_properties` and `set_keyframes` whenever they changed the
/// state, even when they then failed part-way.
pub proof fn law_undo_after_tool(s: EditorView, args: Json, defaults: Seq<i64>, rescaled: Seq<Seq<i64>>)
    ensures
        add_clips_effect(s, args) matches Some(n) ==> undoes_to(n, s),
        insert_clips_effect(s, args, defaults) matches Some(n) ==> undoes_to(n, s),
        remove_clips_effect(s, args) matches Some(n) ==> undoes_to(n, s),
        remove_tracks_effect(s, args) matches Some(n) ==> undoes_to(n, s),
        move_clips_effect(s, args) matches Some(n) ==> undoes_to(n, s),
        split_clip_effect(s, args) matches Some(n) ==> undoes_to(n, s),
        ripple_delete_effect(s, args) matches Some(n) ==> undoes_to(n, s),
        add_texts_effect(s, args) matches Some(n) ==> undoes_to(n, s),
        set_props_effect(s, args, rescaled).1 != s ==> undoes_to(set_props_effect(s, args, rescaled).1, s),
        set_keyframes_effect(s, args).1 != s ==> undoes_to(set_keyframes_effect(s, args).1, s),
{
    broadcast use lemma_edited_stack;
}

/// After a successful library tool (`create_folder`, `move_to_folder`,
/// `rename_media`, `rename_folder`, `delete_media`, `delete_folder`),
/// `undo` gives back the timeline, the media library and the undo history
/// from before the call.
pub proof fn law_undo_after_library_tool(s: EditorView, args: Json)
    ensures
        !create_folder_effect(s, args).0 ==> undoes_to(create_folder_effect(s, args).1, s),
        !move_to_folder_effect(s, args).0 ==> undoes_to(move_to_folder_effect(s, args).1, s),
        !rename_effect(s, args, false).0 ==> undoes_to(rename_effect(s, args, false).1, s),
        !rename_effect(s, args, true).0 ==> undoes_to(rename_effect(s, args, true).1, s),
        delete_media_effect(s, args) matches Some(n) ==> undoes_to(n, s),
        delete_folder_effect(s, args) matches Some(n) ==> undoes_to(n, s),
{
    broadcast use lemma_edited_stack, lemma_undo_from_stack;
    if let Some(items) = crate::tools::args::spec_arg_array(args, "entries"@) {
        lemma_create_fold_keeps(s, items);
        lemma_move_fold_keeps(s, items);
        lemma_rename_fold_keeps(s, items, "mediaRef"@, false);
        lemma_rename_fold_keeps(s, items, "folderId"@, true);
    }
    if let Some(ids) = crate::tools::args::spec_arg_str_array(args, "assetIds"@) {
        lemma_move_ids_keeps(s, ids, crate::tools::args::spec_arg_str(args, "folderId"@));
    }
}

/// An undo entry put on top by a library tool comes off again.
broadcast proof fn lemma_undo_from_stack(n: EditorView, name: Seq<char>, s: EditorView)
    ensures
        #[trigger] crate::tools::folders::with_undo_from(n, name, s).undo_stack.drop_last() == n.undo_stack,
{
    assert(crate::tools::folders::with_undo_from(n, name, s).undo_stack.drop_last() =~= n.undo_stack);
}

/// Creating folders leaves the timeline and the undo history alone.
proof fn lemma_create_fold_keeps(s: EditorView, items: Seq<Json>)
    ensures
        create_fold(s, items).1.timeline == s.timeline,
        create_fold(s, items).1.undo_stack == s.undo_stack,
    decreases items.len(),
{
    if items.len() > 0 {
        lemma_create_fold_keeps(s, items.drop_last());
    }
}

/// Moving assets between folders leaves the timeline and the undo history
/// alone.
proof fn lemma_move_ids_keeps(s: EditorView, ids: Seq<Seq<char>>, f: Option<Seq<char>>)
    ensures
        move_ids(s, ids, f).1.timeline == s.timeline,
        move_ids(s, ids, f).1.undo_stack == s.undo_stack,
    decreases ids.len(),
{
    if ids.len() > 0 {
        lemma_move_ids_keeps(s, ids.drop_last(), f);
    }
}

/// Renaming leaves the timeline and the undo history alone.
proof fn lemma_rename_fold_keeps(s: EditorView, items: Seq<Json>, key: Seq<char>, folders: bool)
    ensures
        rename_fold(s, items, key, folders).1.timeline == s.timeline,
        rename_fold(s, items, key, folders).1.undo_stack == s.undo_stack,
    decreases items.len(),
{
    if items.len() > 0 {
        lemma_rename_fold_keeps(s, items.drop_last(), key, folders);
    }
}

proof fn lemma_move_fold_keeps(s: EditorView, items: Seq<Json>)
    ensures
        move_fold(s, items).1.timeline == s.timeline,
        move_fold(s, items).1.undo_stack == s.undo_stack,
    decreases items.len(),
{
    if items.len() > 0 {
        lemma_move_fold_keeps(s, items.drop_last());
        let s1 = move_fold(s, items.drop_last()).1;
        if let Some(ids) = crate::tools::args::spec_arg_str_array(items.last(), "assetIds"@) {
            lemma_move_ids_keeps(s1, ids, crate::tools::args::spec_arg_str(items.last(), "folderId"@));
        }
    }
}

/// The undo stack after an edit is the one before it with the old timeline
/// on top.
broadcast proof fn lemma_edited_stack(s: EditorView, name: Seq<char>, t: crate::model::TimelineView)
    ensures
        #[trigger] edited(s, name, t).undo_stack.drop_last() == s.undo_stack,
        edited(s, name, t).undo_stack.len() > 0,
        edited(s, name, t).undo_stack.last().timeline_snapshot == s.timeline,
        edited(s, name, t).undo_stack.last().library_snapshot is None,
{
    assert(edited(s, name, t).undo_stack.drop_last() =~= s.undo_stack);
}

/// Clearing `[start, end)` from a sequence of clips leaves no clip that
/// meets the region, and keeps every clip that did not meet it.
pub proof fn law_clear_region_empties_window(s: Seq<ClipView>, start: i64, end: i64)
    requires
        all_fit(s),
        0 <= start <= end,
    ensures
        forall|i: int| 0 <= i < cleared(s, start as int, end as int).len()
            ==> !clip_intersects(#[trigger] cleared(s, start as int, end as int)[i], start as int, end as int),
        forall|c: ClipView| #[trigger] s.contains(c) && !clip_intersects(c, start as int, end as int)
            ==> cleared(s, start as int, end as int).contains(c),
    decreases s.len(),
{
    if s.len() > 0 {
        let (st, en) = (start as int, end as int);
        law_clear_region_empties_window(s.drop_last(), start, end);
        let a = cleared(s.drop_last(), st, en);
        let b = clear_pieces(s.last(), st, en);
        assert(cleared(s, st, en) == a + b);
        assert forall|i: int| 0 <= i < (a + b).len() implies !clip_intersects(#[trigger] (a + b)[i], st, en) by {
            if i >= a.len() {
                assert((a + b)[i] == b[i - a.len()]);
            } else {
                assert((a + b)[i] == a[i]);
            }
        }
        assert forall|c: ClipView| #[trigger] s.contains(c) && !clip_intersects(c, st, en) implies (a + b).contains(c) by {
            let k = choose|k: int| 0 <= k < s.len() && s[k] == c;
            if k == s.len() - 1 {
                assert(b[0] == c);
                assert((a + b)[a.len() as int] == c);
            } else {
                assert(s.drop_last()[k] == c);
                assert(s.drop_last().contains(c));
                let j = choose|j: int| 0 <= j < a.len() && a[j] == c;
                assert((a + b)[j] == c);
            }
        }
    }
}

/// A digit's character gives the digit back.
proof fn lemma_digit_char(d: nat)
    requires
        d < 10,
    ensures
        digit_char(d) as int == d + 48,
{
}

/// One decimal digit exactly for numbers below ten.
proof fn lemma_dec_nat_len(n: nat)
    ensures
        dec_nat(n).len() >= 1,
        (dec_nat(n).len() == 1) == (n < 10),
    decreases n,
{
    if n >= 10 {
        lemma_dec_nat_len(n / 10);
    }
}

/// Different numbers have different decimal renderings.
proof fn lemma_dec_nat_injective(a: nat, b: nat)
    requires
        dec_nat(a) == dec_nat(b),
    ensures
        a == b,
    decreases a,
{
    lemma_dec_nat_len(a);
    lemma_dec_nat_len(b);
    if a < 10 {
        assert(dec_nat(a)[0] == digit_char(a));
        assert(dec_nat(b)[0] == digit_char(b));
        lemma_digit_char(a);
        lemma_digit_char(b);
    } else {
        let (pa, pb) = (dec_nat(a / 10), dec_nat(b / 10));
        assert(dec_nat(a) == pa.push(digit_char(a % 10)));
        assert(dec_nat(b) == pb.push(digit_char(b % 10)));
        assert(pa =~= dec_nat(a).drop_last());
        assert(pb =~= dec_nat(b).drop_last());
        assert(digit_char(a % 10) == dec_nat(a).last());
        assert(digit_char(b % 10) == dec_nat(b).last());
        lemma_digit_char(a % 10);
        lemma_digit_char(b % 10);
        lemma_dec_nat_injective(a / 10, b / 10);
    }
}

/// Ids minted from different counter values differ, so the ids one call
/// mints while it counts up are pairwise distinct.
pub proof fn law_minted_ids_distinct(prefix: Seq<char>, a: nat, b: nat)
    requires
        a != b,
    ensures
        minted_id(prefix, a) != minted_id(prefix, b),
{
    if minted_id(prefix, a) == minted_id(prefix, b) {
        reveal_strlit("-");
        let k = prefix.len() + 1;
        assert(minted_id(prefix, a).subrange(k as int, minted_id(prefix, a).len() as int) =~= dec_nat(a));
        assert(minted_id(prefix, b).subrange(k as int, minted_id(prefix, b).len() as int) =~= dec_nat(b));
        lemma_dec_nat_injective(a, b);
    }
}

/// Clearing a region keeps the id of every piece.
proof fn lemma_cleared_ids(s: Seq<ClipView>, start: int, end: int, id: Seq<char>)
    requires
        forall|i: int| 0 <= i < s.len() ==> (#[trigger] s[i]).id == id,
    ensures
        forall|i: int| 0 <= i < cleared(s, start, end).len() ==> (#[trigger] cleared(s, start, end)[i]).id == id,
    decreases s.len(),
{
    if s.len() > 0 {
        lemma_cleared_ids(s.drop_last(), start, end, id);
        let a = cleared(s.drop_last(), start, end);
        let b = clear_pieces(s.last(), start, end);
        assert(cleared(s, start, end) == a + b);
        assert forall|i: int| 0 <= i < (a + b).len() implies (#[trigger] (a + b)[i]).id == id by {
            if i >= a.len() {
                assert((a + b)[i] == b[i - a.len()]);
            } else {
                assert((a + b)[i] == a[i]);
            }
        }
    }
}

/// Cutting ranges keeps the id of every piece.
proof fn lemma_cut_ids(segs: Seq<ClipView>, ranges: Seq<(i64, i64)>, id: Seq<char>)
    requires
        forall|i: int| 0 <= i < segs.len() ==> (#[trigger] segs[i]).id == id,
    ensures
        forall|i: int| 0 <= i < cut_ranges(segs, ranges).len() ==> (#[trigger] cut_ranges(segs, ranges)[i]).id == id,
    decreases ranges.len(),
{
    if ranges.len() > 0 {
        lemma_cleared_ids(segs, ranges[0].0 as int, ranges[0].1 as int, id);
        lemma_cut_ids(cleared(segs, ranges[0].0 as int, ranges[0].1 as int), ranges.drop_first(), id);
    }
}

/// `id` is none of the ids the counter mints after `counter`.
pub open spec fn not_minted_after(id: Seq<char>, counter: nat) -> bool {
    forall|m: nat| m > counter ==> #[trigger] minted_id("clip"@, m) != id
}

/// Rippling a clip keeps its id on the first piece that remains and gives
/// the `k`-th later piece the id `clip-(counter+k)`; so the pieces' ids are
/// pairwise distinct whenever the clip's own id is not one the counter
/// mints later.
pub proof fn law_ripple_piece_ids(c: ClipView, ranges: Seq<(i64, i64)>, counter: nat)
    requires
        ripple_clip_spec(c, ranges, counter) is Some,
    ensures
        ripple_clip_spec(c, ranges, counter)->0.len() > 0 ==> ripple_clip_spec(c, ranges, counter)->0[0].id == c.id,
        forall|k: int| 0 < k < ripple_clip_spec(c, ranges, counter)->0.len()
            ==> (#[trigger] ripple_clip_spec(c, ranges, counter)->0[k]).id == minted_id("clip"@, counter + k as nat),
        not_minted_after(c.id, counter) ==> forall|i: int, j: int| 0 <= i < j < ripple_clip_spec(c, ranges, counter)->0.len()
            ==> (#[trigger] ripple_clip_spec(c, ranges, counter)->0[i]).id != (#[trigger] ripple_clip_spec(
            c,
            ranges,
            counter,
        )->0[j]).id,
{
    let segs = cut_ranges(seq![c], ranges);
    lemma_cut_ids(seq![c], ranges, c.id);
    let ps = ripple_clip_spec(c, ranges, counter)->0;
    assert(ps.len() == segs.len());
    assert forall|k: int| 0 <= k < ps.len() implies (#[trigger] ps[k]).id == (if k == 0 { c.id } else { minted_id("clip"@, counter + k as nat) }) by {
        assert(ps[k].id == renamed(segs, counter)[k].id);
    }
    if not_minted_after(c.id, counter) {
        assert forall|i: int, j: int| 0 <= i < j < ps.len() implies (#[trigger] ps[i]).id != (#[trigger] ps[j]).id by {
            assert(ps[j].id == minted_id("clip"@, counter + j as nat));
            if i == 0 {
                assert(minted_id("clip"@, (counter + j) as nat) != c.id);
            } else {
                assert(ps[i].id == minted_id("clip"@, counter + i as nat));
                law_minted_ids_distinct("clip"@, (counter + i) as nat, (counter + j) as nat);
            }
        }
    }
}


/// A windowed timeline listing shows exactly the clips whose span
/// `[start, start + duration)` meets the window `[s, e)`: it is the
/// unwindowed listing of those clips, in the same order.
pub proof fn law_window_lists_meeting_clips(cs: Seq<ClipView>, s: i64, e: i64)
    ensures
        crate::export::shown_clips(cs, Some((s, e))) == crate::export::shown_clips(
            cs.filter(|c: ClipView| c.start_frame < e && crate::model::clip_end(c) > s),
            None,
        ),
    decreases cs.len(),
{
    let p = |c: ClipView| c.start_frame < e && crate::model::clip_end(c) > s;
    if cs.len() > 0 {
        law_window_lists_meeting_clips(cs.drop_last(), s, e);
        assert(cs.drop_last().push(cs.last()) =~= cs);
        cs.drop_last().lemma_filter_push(cs.last(), p);
        let f = cs.drop_last().filter(p);
        if p(cs.last()) {
            assert(f.push(cs.last()).drop_last() =~= f);
        }
    }
}


/// Sorting by start frame keeps exactly the clips it was given.
proof fn lemma_sort_same_clips(s: Seq<ClipView>)
    ensures
        forall|x: ClipView| #[trigger] crate::edit::sort_by_start(s).contains(x) <==> s.contains(x),
{
    broadcast use vstd::seq_lib::group_to_multiset_ensures;
    crate::edit::lemma_sort_multiset(s);
    assert forall|x: ClipView| #[trigger] crate::edit::sort_by_start(s).contains(x) <==> s.contains(x) by {
        assert(crate::edit::sort_by_start(s).to_multiset().count(x) == s.to_multiset().count(x));
    }
}

/// A clip that lands on a track sits there alone: after the landing the
/// moved clip is on the destination track, every other clip there that
/// meets its span `[start, start + duration)` is gone, and the other tracks
/// are as they were.
pub proof fn law_landing_clears_its_span(t: crate::model::TimelineView, dest: int, nc: ClipView)
    requires
        0 <= dest < t.tracks.len(),
        all_fit(t.tracks[dest].clips),
        0 <= nc.start_frame,
        0 <= nc.duration_frames,
    ensures
        crate::tools::move_clips::land(t, dest, nc) matches Some(t2) ==> {
            let start = nc.start_frame as int;
            let end = start + nc.duration_frames;
            &&& t2.tracks.len() == t.tracks.len()
            &&& t2.tracks[dest].clips.contains(nc)
            &&& forall|i: int| 0 <= i < t2.tracks[dest].clips.len() && clip_intersects(#[trigger] t2.tracks[dest].clips[i], start, end)
                ==> t2.tracks[dest].clips[i] == nc
            &&& forall|j: int| 0 <= j < t.tracks.len() && j != dest ==> #[trigger] t2.tracks[j] == t.tracks[j]
        },
{
    if let Some(t2) = crate::tools::move_clips::land(t, dest, nc) {
        let start = nc.start_frame as int;
        let end = start + nc.duration_frames;
        let cl = cleared(t.tracks[dest].clips, start, end);
        law_clear_region_empties_window(t.tracks[dest].clips, nc.start_frame, end as i64);
        lemma_sort_same_clips(cl.push(nc));
        assert(cl.push(nc)[cl.len() as int] == nc);
        assert(t2.tracks[dest].clips == crate::edit::sort_by_start(cl.push(nc)));
        assert forall|i: int| 0 <= i < t2.tracks[dest].clips.len() && clip_intersects(#[trigger] t2.tracks[dest].clips[i], start, end)
            implies t2.tracks[dest].clips[i] == nc by {
            let x = t2.tracks[dest].clips[i];
            assert(crate::edit::sort_by_start(cl.push(nc))[i] == x);
            assert(crate::edit::sort_by_start(cl.push(nc)).contains(x));
            assert(cl.push(nc).contains(x));
            let k = choose|k: int| 0 <= k < cl.push(nc).len() && cl.push(nc)[k] == x;
            if k < cl.len() {
                assert(cl.push(nc)[k] == cl[k]);
            }
        }
    }
}


/// `c` has id `id` and spans `duration` frames from `start`.
pub open spec fn clip_placed(c: ClipView, id: Seq<char>, start: int, duration: i64) -> bool {
    c.id == id && c.start_frame == start && c.duration_frames == duration
}

/// `insert_clips` lays its new clips end to end from `atFrame`: the `k`-th
/// entry becomes the clip `clip-(c+k+1)` on the target track, as long as
/// the entry asks and starting at `atFrame` plus the lengths of the entries
/// before it. So the new clips meet one after the other and fill
/// `[atFrame, atFrame + total)` without overlapping.
pub proof fn law_insert_lays_clips_end_to_end(s: EditorView, args: Json, defaults: Seq<i64>)
    ensures
        insert_clips_effect(s, args, defaults) matches Some(n) ==> {
            let ti = crate::tools::args::spec_arg_int(args, "trackIndex"@)->0 as int;
            let at = crate::tools::args::spec_arg_int(args, "atFrame"@)->0 as int;
            let es = crate::tools::insert_clips::parse_insert_entries(
                crate::tools::args::spec_arg_array(args, "entries"@)->0,
                s,
                s.timeline.tracks[ti].track_type,
                defaults,
            )->0;
            &&& 0 <= ti < n.timeline.tracks.len()
            &&& forall|k: int| #![trigger es[k]] 0 <= k < es.len() ==> exists|j: int|
                0 <= j < n.timeline.tracks[ti].clips.len() && clip_placed(
                    #[trigger] n.timeline.tracks[ti].clips[j],
                    minted_id("clip"@, (s.id_counter + k + 1) as nat),
                    at + crate::tools::insert_clips::total_duration(es.take(k)),
                    es[k].duration,
                )
        },
{
    if let Some(n) = insert_clips_effect(s, args, defaults) {
        let ti = crate::tools::args::spec_arg_int(args, "trackIndex"@)->0 as int;
        let at = crate::tools::args::spec_arg_int(args, "atFrame"@)->0 as int;
        let es = crate::tools::insert_clips::parse_insert_entries(
            crate::tools::args::spec_arg_array(args, "entries"@)->0,
            s,
            s.timeline.tracks[ti].track_type,
            defaults,
        )->0;
        let total = crate::tools::insert_clips::total_duration(es);
        let clips = s.timeline.tracks[ti].clips;
        let moved = clips.map_values(|c: ClipView| crate::tools::insert_clips::pushed(c, at, total));
        let lo = crate::tools::insert_clips::laid_out(es, at, s.id_counter as nat);
        let all = moved + lo;
        assert(n.timeline.tracks[ti].clips == crate::edit::sort_by_start(all));
        lemma_sort_same_clips(all);
        let items = crate::tools::args::spec_arg_array(args, "entries"@)->0;
        assert forall|i: int| 0 <= i < es.len() implies (#[trigger] es[i]).duration >= 1 by {
            reveal(crate::tools::insert_clips::parse_insert_entry);
            assert(crate::tools::insert_clips::parse_insert_entry(items[i], s, s.timeline.tracks[ti].track_type, defaults) is Some);
        }
        assert forall|k: int| #![trigger es[k]] 0 <= k < es.len() implies exists|j: int|
            0 <= j < n.timeline.tracks[ti].clips.len() && clip_placed(
                #[trigger] n.timeline.tracks[ti].clips[j],
                minted_id("clip"@, (s.id_counter + k + 1) as nat),
                at + crate::tools::insert_clips::total_duration(es.take(k)),
                es[k].duration,
            ) by {
            let x = lo[k];
            assert(all[moved.len() + k] == x);
            assert(all.contains(x));
            assert(n.timeline.tracks[ti].clips.contains(x));
            let j = choose|j: int| 0 <= j < n.timeline.tracks[ti].clips.len() && n.timeline.tracks[ti].clips[j] == x;
            assert(0 <= at + crate::tools::insert_clips::total_duration(es.take(k)) <= i64::MAX) by {
                lemma_total_prefix_bound(es, k);
            }
        }
    }
}

/// The entries before the `k`-th are no longer than all of them, and no
/// shorter than nothing.
proof fn lemma_total_prefix_bound(es: Seq<crate::tools::insert_clips::InsertView>, k: int)
    requires
        0 <= k <= es.len(),
        forall|i: int| 0 <= i < es.len() ==> (#[trigger] es[i]).duration >= 1,
    ensures
        0 <= crate::tools::insert_clips::total_duration(es.take(k)) <= crate::tools::insert_clips::total_duration(es),
    decreases es.len(),
{
    if k == es.len() {
        assert(es.take(k) =~= es);
        lemma_total_nonneg(es);
    } else {
        assert(es.drop_last().take(k) =~= es.take(k));
        lemma_total_prefix_bound(es.drop_last(), k);
    }
}

proof fn lemma_total_nonneg(es: Seq<crate::tools::insert_clips::InsertView>)
    requires
        forall|i: int| 0 <= i < es.len() ==> (#[trigger] es[i]).duration >= 1,
    ensures
        crate::tools::insert_clips::total_duration(es) >= 0,
    decreases es.len(),
{
    if es.len() > 0 {
        lemma_total_nonneg(es.drop_last());
    }
}


/// Frame `x` lies in one of the ranges.
pub open spec fn covers(rs: Seq<(i64, i64)>, x: int) -> bool {
    exists|i: int| 0 <= i < rs.len() && (#[trigger] rs[i]).0 <= x < rs[i].1
}

/// The ranges come in order of start frame.
pub open spec fn ranges_by_start(rs: Seq<(i64, i64)>) -> bool {
    forall|i: int, j: int| 0 <= i < j < rs.len() ==> (#[trigger] rs[i]).0 <= (#[trigger] rs[j]).0
}

/// Each range ends before the next one starts, with a gap between.
pub open spec fn ranges_apart(rs: Seq<(i64, i64)>) -> bool {
    forall|i: int, j: int| 0 <= i < j < rs.len() ==> (#[trigger] rs[i]).1 < (#[trigger] rs[j]).0
}

/// Ranges with the same members (in any order) cover the same frames.
proof fn lemma_same_members_cover(a: Seq<(i64, i64)>, b: Seq<(i64, i64)>)
    requires
        a.to_multiset() == b.to_multiset(),
    ensures
        forall|x: int| covers(a, x) <==> covers(b, x),
{
    broadcast use vstd::seq_lib::group_to_multiset_ensures;
    assert forall|x: int| covers(a, x) implies covers(b, x) by {
        let i = choose|i: int| 0 <= i < a.len() && (#[trigger] a[i]).0 <= x < a[i].1;
        assert(a.contains(a[i]));
        assert(b.to_multiset().count(a[i]) > 0);
        assert(b.contains(a[i]));
    }
    assert forall|x: int| covers(b, x) implies covers(a, x) by {
        let i = choose|i: int| 0 <= i < b.len() && (#[trigger] b[i]).0 <= x < b[i].1;
        assert(b.contains(b[i]));
        assert(a.to_multiset().count(b[i]) > 0);
        assert(a.contains(b[i]));
    }
}

proof fn lemma_insert_range_by_start(s: Seq<(i64, i64)>, r: (i64, i64))
    requires
        ranges_by_start(s),
    ensures
        ranges_by_start(crate::ripple::insert_range(s, r)),
    decreases s.len(),
{
    broadcast use vstd::seq_lib::group_to_multiset_ensures;
    if s.len() > 0 && !(s.last().0 <= r.0) {
        let d = s.drop_last();
        assert(ranges_by_start(d)) by {
            assert forall|i: int, j: int| 0 <= i < j < d.len() implies (#[trigger] d[i]).0 <= (#[trigger] d[j]).0 by {
                assert(d[i] == s[i] && d[j] == s[j]);
            }
        }
        lemma_insert_range_by_start(d, r);
        let m = crate::ripple::insert_range(d, r);
        crate::ripple::lemma_insert_range_multiset_pub(d, r);
        assert forall|i: int| 0 <= i < m.len() implies (#[trigger] m[i]).0 <= s.last().0 by {
            assert(m.contains(m[i]));
            assert(m.to_multiset().count(m[i]) > 0);
            if m[i] != r {
                assert(d.to_multiset().count(m[i]) > 0);
                assert(d.contains(m[i]));
                let k = choose|k: int| 0 <= k < d.len() && d[k] == m[i];
                assert(s[k] == d[k]);
                assert(s[k].0 <= s[s.len() - 1].0);
            }
        }
        let res = m.push(s.last());
        assert forall|i: int, j: int| 0 <= i < j < res.len() implies (#[trigger] res[i]).0 <= (#[trigger] res[j]).0 by {
            if j == m.len() {
                assert(res[i] == m[i]);
            } else {
                assert(res[i] == m[i] && res[j] == m[j]);
            }
        }
    } else if s.len() > 0 {
        let res = s.push(r);
        assert forall|i: int, j: int| 0 <= i < j < res.len() implies (#[trigger] res[i]).0 <= (#[trigger] res[j]).0 by {
            if j == s.len() {
                assert(res[i] == s[i]);
                assert(s[i].0 <= s[s.len() - 1].0);
            } else {
                assert(res[i] == s[i] && res[j] == s[j]);
            }
        }
    }
}

proof fn lemma_sort_ranges_by_start(s: Seq<(i64, i64)>)
    ensures
        ranges_by_start(crate::ripple::sort_ranges(s)),
    decreases s.len(),
{
    if s.len() > 0 {
        lemma_sort_ranges_by_start(s.drop_last());
        lemma_insert_range_by_start(crate::ripple::sort_ranges(s.drop_last()), s.last());
    }
}

/// Joining start-ordered ranges covers the same frames with ranges that
/// stand apart.
proof fn lemma_merge_covers(sr: Seq<(i64, i64)>)
    requires
        ranges_by_start(sr),
        crate::edit::ranges_proper(sr),
    ensures
        ranges_apart(crate::ripple::merge_ranges(sr)),
        crate::edit::ranges_proper(crate::ripple::merge_ranges(sr)),
        forall|x: int| covers(crate::ripple::merge_ranges(sr), x) <==> covers(sr, x),
        sr.len() > 0 ==> crate::ripple::merge_ranges(sr).len() > 0 && crate::ripple::merge_ranges(sr).last().0 <= sr.last().0,
    decreases sr.len(),
{
    crate::ripple::lemma_merge_proper(sr);
    if sr.len() > 0 {
        let d = sr.drop_last();
        assert(ranges_by_start(d)) by {
            assert forall|i: int, j: int| 0 <= i < j < d.len() implies (#[trigger] d[i]).0 <= (#[trigger] d[j]).0 by {
                assert(d[i] == sr[i] && d[j] == sr[j]);
            }
        }
        assert(crate::edit::ranges_proper(d)) by {
            assert forall|i: int| 0 <= i < d.len() implies (#[trigger] d[i]).0 < d[i].1 by {
                assert(d[i] == sr[i]);
            }
        }
        lemma_merge_covers(d);
        let m = crate::ripple::merge_ranges(d);
        let r = sr.last();
        assert(r == sr[sr.len() - 1]);
        assert(r.0 < r.1);
        if d.len() > 0 {
            assert(d.last() == sr[d.len() - 1]);
            assert(m.last().0 <= r.0);
        }
        assert forall|x: int| covers(sr, x) <==> (covers(d, x) || r.0 <= x < r.1) by {
            if covers(sr, x) {
                let i = choose|i: int| 0 <= i < sr.len() && (#[trigger] sr[i]).0 <= x < sr[i].1;
                if i < d.len() {
                    assert(d[i] == sr[i]);
                }
            }
            if covers(d, x) {
                let i = choose|i: int| 0 <= i < d.len() && (#[trigger] d[i]).0 <= x < d[i].1;
                assert(sr[i] == d[i]);
            }
        }
        if m.len() > 0 && r.0 <= m.last().1 {
            let nl = (m.last().0, if r.1 > m.last().1 { r.1 } else { m.last().1 });
            let res = m.update(m.len() - 1, nl);
            assert(m.last() == m[m.len() - 1]);
            assert(m[m.len() - 1].0 < m[m.len() - 1].1);
            assert forall|x: int| covers(res, x) <==> (covers(m, x) || r.0 <= x < r.1) by {
                if covers(res, x) {
                    let i = choose|i: int| 0 <= i < res.len() && (#[trigger] res[i]).0 <= x < res[i].1;
                    if i < m.len() - 1 {
                        assert(m[i] == res[i]);
                    } else if x < m.last().1 {
                        assert(m[m.len() - 1].0 <= x < m[m.len() - 1].1);
                    }
                }
                if covers(m, x) {
                    let i = choose|i: int| 0 <= i < m.len() && (#[trigger] m[i]).0 <= x < m[i].1;
                    if i < m.len() - 1 {
                        assert(res[i] == m[i]);
                    } else {
                        assert(res[m.len() - 1].0 <= x < res[m.len() - 1].1);
                    }
                }
                if r.0 <= x < r.1 {
                    assert(res[m.len() - 1].0 <= x < res[m.len() - 1].1);
                }
            }
            assert forall|i: int, j: int| 0 <= i < j < res.len() implies (#[trigger] res[i]).1 < (#[trigger] res[j]).0 by {
                assert(res[i] == m[i]);
                if j < m.len() - 1 {
                    assert(res[j] == m[j]);
                } else {
                    assert(m[i].1 < m[m.len() - 1].0);
                }
            }
            assert(crate::ripple::merge_ranges(sr) == res);
        } else {
            let res = m.push(r);
            assert forall|x: int| covers(res, x) <==> (covers(m, x) || r.0 <= x < r.1) by {
                if covers(res, x) {
                    let i = choose|i: int| 0 <= i < res.len() && (#[trigger] res[i]).0 <= x < res[i].1;
                    if i < m.len() {
                        assert(m[i] == res[i]);
                    }
                }
                if covers(m, x) {
                    let i = choose|i: int| 0 <= i < m.len() && (#[trigger] m[i]).0 <= x < m[i].1;
                    assert(res[i] == m[i]);
                }
                if r.0 <= x < r.1 {
                    assert(res[m.len() as int] == r);
                }
            }
            assert forall|i: int, j: int| 0 <= i < j < res.len() implies (#[trigger] res[i]).1 < (#[trigger] res[j]).0 by {
                assert(res[i] == m[i]);
                if j < m.len() {
                    assert(res[j] == m[j]);
                } else {
                    assert(res[j] == r);
                    if i < m.len() - 1 {
                        assert(m[i].1 < m[m.len() - 1].0);
                        assert(m[m.len() - 1].0 < m[m.len() - 1].1);
                    }
                    assert(m.last() == m[m.len() - 1]);
                }
            }
            assert(crate::ripple::merge_ranges(sr) == res);
        }
    }
}

/// `ripple_delete_ranges` with a `trackIndex` (or neither `clipId` nor
/// `trackIndex`) cuts exactly the frames of the listed ranges, whatever
/// order they come in: the ranges it cuts cover every frame of every listed
/// range and no other, stand apart from one another in order of start (so
/// no frame is cut twice and the frames removed are the measure of the
/// union), and come out the same for any reordering of the list.
pub proof fn law_ripple_cuts_the_union(s: EditorView, args: Json, rs: Seq<(i64, i64)>, reordered: Seq<(i64, i64)>)
    requires
        crate::edit::ranges_proper(rs),
        reordered.to_multiset() == rs.to_multiset(),
        crate::tools::args::spec_arg_str(args, "clipId"@) is None,
    ensures
        crate::tools::ripple_delete::ripple_plan(s, args, rs) matches Some((sr, _)) && {
            &&& forall|x: int| covers(sr, x) <==> covers(rs, x)
            &&& ranges_apart(sr)
            &&& crate::edit::ranges_proper(sr)
            &&& crate::tools::ripple_delete::ripple_plan(s, args, reordered) matches Some((sr2, _)) && sr2 == sr
        },
{
    let so = crate::ripple::sort_ranges(rs);
    crate::ripple::lemma_sort_ranges_multiset(rs);
    lemma_same_members_cover(so, rs);
    lemma_sort_ranges_by_start(rs);
    assert(crate::edit::ranges_proper(so)) by {
        broadcast use vstd::seq_lib::group_to_multiset_ensures;
        assert forall|i: int| 0 <= i < so.len() implies (#[trigger] so[i]).0 < so[i].1 by {
            assert(so.contains(so[i]));
            assert(rs.to_multiset().count(so[i]) > 0);
            assert(rs.contains(so[i]));
        }
    }
    lemma_merge_covers(so);
    let sr = crate::ripple::merge_ranges(so);
    let so2 = crate::ripple::sort_ranges(reordered);
    crate::ripple::lemma_sort_ranges_multiset(reordered);
    lemma_same_members_cover(so2, rs);
    lemma_sort_ranges_by_start(reordered);
    assert(crate::edit::ranges_proper(so2)) by {
        broadcast use vstd::seq_lib::group_to_multiset_ensures;
        assert forall|i: int| 0 <= i < so2.len() implies (#[trigger] so2[i]).0 < so2[i].1 by {
            assert(so2.contains(so2[i]));
            assert(rs.to_multiset().count(so2[i]) > 0);
            assert(rs.contains(so2[i]));
        }
    }
    lemma_merge_covers(so2);
    let sr2 = crate::ripple::merge_ranges(so2);
    assert forall|x: int| covers(sr, x) <==> covers(sr2, x) by {
        assert(covers(sr, x) <==> covers(so, x));
        assert(covers(so, x) <==> covers(rs, x));
        assert(covers(sr2, x) <==> covers(so2, x));
        assert(covers(so2, x) <==> covers(rs, x));
    }
    lemma_apart_unique(sr, sr2);
}

/// Two lists of ranges that stand apart in order of start and cover the
/// same frames are the same list.
proof fn lemma_apart_unique(a: Seq<(i64, i64)>, b: Seq<(i64, i64)>)
    requires
        ranges_apart(a),
        ranges_apart(b),
        crate::edit::ranges_proper(a),
        crate::edit::ranges_proper(b),
        forall|x: int| covers(a, x) <==> covers(b, x),
    ensures
        a == b,
    decreases a.len() + b.len(),
{
    if a.len() == 0 || b.len() == 0 {
        if a.len() > 0 {
            assert(covers(a, a[0].0 as int));
        }
        if b.len() > 0 {
            assert(covers(b, b[0].0 as int));
        }
        assert(a =~= b);
    } else {
        // The first range of each starts at the lowest covered frame.
        lemma_apart_first(a);
        lemma_apart_first(b);
        assert(covers(a, a[0].0 as int));
        assert(covers(b, b[0].0 as int));
        assert(a[0].0 == b[0].0);
        // ... and ends at the first frame after it that is not covered.
        assert(!covers(a, a[0].1 as int));
        assert(!covers(b, b[0].1 as int));
        if a[0].1 < b[0].1 {
            assert(covers(b, a[0].1 as int));
        }
        if b[0].1 < a[0].1 {
            assert(covers(a, b[0].1 as int));
        }
        assert(a[0] == b[0]);
        let a1 = a.drop_first();
        let b1 = b.drop_first();
        lemma_apart_tail(a);
        lemma_apart_tail(b);
        assert forall|x: int| covers(a1, x) <==> covers(b1, x) by {
            assert(covers(a1, x) <==> (covers(a, x) && x >= a[0].1));
            assert(covers(b1, x) <==> (covers(b, x) && x >= b[0].1));
        }
        lemma_apart_unique(a1, b1);
        assert(a =~= seq![a[0]] + a1);
        assert(b =~= seq![b[0]] + b1);
    }
}

/// Nothing below the first range is covered, and within it everything is.
proof fn lemma_apart_first(a: Seq<(i64, i64)>)
    requires
        a.len() > 0,
        ranges_apart(a),
        crate::edit::ranges_proper(a),
    ensures
        forall|x: int| covers(a, x) ==> x >= a[0].0,
        forall|x: int| a[0].0 <= x < a[0].1 ==> covers(a, x),
        !covers(a, a[0].1 as int),
{
    assert(a[0].0 < a[0].1);
    assert forall|x: int| covers(a, x) implies x >= a[0].0 by {
        let i = choose|i: int| 0 <= i < a.len() && (#[trigger] a[i]).0 <= x < a[i].1;
        if i > 0 {
            assert(a[0].1 < a[i].0);
        }
    }
    if covers(a, a[0].1 as int) {
        let i = choose|i: int| 0 <= i < a.len() && (#[trigger] a[i]).0 <= a[0].1 < a[i].1;
        if i > 0 {
            assert(a[0].1 < a[i].0);
        }
    }
}

/// The ranges after the first cover what the list covers from the end of
/// the first on, and still stand apart.
proof fn lemma_apart_tail(a: Seq<(i64, i64)>)
    requires
        a.len() > 0,
        ranges_apart(a),
        crate::edit::ranges_proper(a),
    ensures
        ranges_apart(a.drop_first()),
        crate::edit::ranges_proper(a.drop_first()),
        forall|x: int| covers(a.drop_first(), x) <==> (covers(a, x) && x >= a[0].1),
{
    let t = a.drop_first();
    assert forall|i: int, j: int| 0 <= i < j < t.len() implies (#[trigger] t[i]).1 < (#[trigger] t[j]).0 by {
        assert(t[i] == a[i + 1] && t[j] == a[j + 1]);
    }
    assert forall|i: int| 0 <= i < t.len() implies (#[trigger] t[i]).0 < t[i].1 by {
        assert(t[i] == a[i + 1]);
    }
    assert forall|x: int| covers(t, x) <==> (covers(a, x) && x >= a[0].1) by {
        if covers(t, x) {
            let i = choose|i: int| 0 <= i < t.len() && (#[trigger] t[i]).0 <= x < t[i].1;
            assert(t[i] == a[i + 1]);
            assert(a[0].1 < a[i + 1].0);
        }
        if covers(a, x) && x >= a[0].1 {
            let i = choose|i: int| 0 <= i < a.len() && (#[trigger] a[i]).0 <= x < a[i].1;
            assert(i != 0);
            assert(t[i - 1] == a[i]);
        }
    }
}


/// A pass adds, after what it was given, ids of folders that it did not
/// hold, each once.
proof fn lemma_pass_extends(d: Seq<Seq<char>>, fs: Seq<crate::model::FolderView>)
    ensures
        crate::tools::folders::pass(d, fs).len() >= d.len(),
        crate::tools::folders::pass(d, fs).take(d.len() as int) == d,
        forall|i: int| d.len() <= i < crate::tools::folders::pass(d, fs).len() ==> {
            let x = #[trigger] crate::tools::folders::pass(d, fs)[i];
            &&& !d.contains(x)
            &&& exists|j: int| 0 <= j < fs.len() && fs[j].id == x
            &&& forall|m: int| d.len() <= m < i ==> crate::tools::folders::pass(d, fs)[m] != x
        },
    decreases fs.len(),
{
    if fs.len() > 0 {
        let fd = fs.drop_last();
        lemma_pass_extends(d, fd);
        let d1 = crate::tools::folders::pass(d, fd);
        let r = crate::tools::folders::pass(d, fs);
        assert forall|i: int| d.len() <= i < d1.len() implies exists|j: int| 0 <= j < fs.len() && fs[j].id == #[trigger] d1[i] by {
            let x = d1[i];
            let j = choose|j: int| 0 <= j < fd.len() && fd[j].id == x;
            assert(fs[j] == fd[j]);
        }
        if r != d1 {
            let f = fs.last();
            assert(r == d1.push(f.id));
            assert(!d1.contains(f.id));
            assert(fs[fs.len() - 1] == f);
            assert forall|i: int| d.len() <= i < r.len() implies {
                let x = #[trigger] r[i];
                &&& !d.contains(x)
                &&& exists|j: int| 0 <= j < fs.len() && fs[j].id == x
                &&& forall|m: int| d.len() <= m < i ==> r[m] != x
            } by {
                if i < d1.len() {
                    assert(r[i] == d1[i]);
                    assert forall|m: int| d.len() <= m < i implies r[m] != r[i] by {
                        assert(r[m] == d1[m]);
                    }
                } else {
                    assert forall|m: int| d.len() <= m < i implies r[m] != r[i] by {
                        assert(r[m] == d1[m]);
                        assert(d1.contains(d1[m]));
                    }
                    if d.contains(f.id) {
                        let k = choose|k: int| 0 <= k < d.len() && d[k] == f.id;
                        assert(d1.take(d.len() as int)[k] == d1[k]);
                        assert(d1.contains(f.id));
                    }
                }
            }
            assert(r.take(d.len() as int) =~= d1.take(d.len() as int));
        }
    } else {
        assert(d.take(d.len() as int) =~= d);
    }
}

/// A pass takes in every folder whose parent it was given.
proof fn lemma_pass_takes_children(d: Seq<Seq<char>>, fs: Seq<crate::model::FolderView>)
    ensures
        forall|j: int| #![trigger fs[j]] 0 <= j < fs.len() && fs[j].parent_folder_id is Some && d.contains(fs[j].parent_folder_id->0)
            ==> crate::tools::folders::pass(d, fs).contains(fs[j].id),
        forall|x: Seq<char>| d.contains(x) ==> #[trigger] crate::tools::folders::pass(d, fs).contains(x),
    decreases fs.len(),
{
    if fs.len() > 0 {
        let fd = fs.drop_last();
        lemma_pass_takes_children(d, fd);
        let d1 = crate::tools::folders::pass(d, fd);
        let r = crate::tools::folders::pass(d, fs);
        assert forall|x: Seq<char>| d1.contains(x) implies r.contains(x) by {
            if r != d1 {
                let k = choose|k: int| 0 <= k < d1.len() && d1[k] == x;
                assert(r[k] == d1[k]);
            }
        }
        assert forall|j: int| #![trigger fs[j]] 0 <= j < fs.len() && fs[j].parent_folder_id is Some && d.contains(fs[j].parent_folder_id->0)
            implies r.contains(fs[j].id) by {
            let p = fs[j].parent_folder_id->0;
            if j < fd.len() {
                assert(fd[j] == fs[j]);
                assert(d1.contains(fs[j].id));
            } else {
                assert(d1.contains(p));
                if r != d1 {
                    assert(r[d1.len() as int] == fs[j].id);
                }
            }
        }
    }
}

/// Each round either adds an id or changes nothing from then on; so after
/// `k` rounds either `k` ids were added or a round changed nothing.
proof fn lemma_rounds_grow(ids: Seq<Seq<char>>, fs: Seq<crate::model::FolderView>, k: nat)
    ensures
        crate::tools::folders::rounds(ids, fs, k).len() >= ids.len() + k
            || crate::tools::folders::pass(crate::tools::folders::rounds(ids, fs, k), fs) == crate::tools::folders::rounds(ids, fs, k),
        crate::tools::folders::rounds(ids, fs, k).take(ids.len() as int) == ids,
        crate::tools::folders::rounds(ids, fs, k).len() >= ids.len(),
        forall|i: int| ids.len() <= i < crate::tools::folders::rounds(ids, fs, k).len() ==> {
            let x = #[trigger] crate::tools::folders::rounds(ids, fs, k)[i];
            &&& !ids.contains(x)
            &&& exists|j: int| 0 <= j < fs.len() && fs[j].id == x
            &&& forall|m: int| ids.len() <= m < i ==> crate::tools::folders::rounds(ids, fs, k)[m] != x
        },
    decreases k,
{
    if k == 0 {
        assert(ids.take(ids.len() as int) =~= ids);
    } else {
        lemma_rounds_grow(ids, fs, (k - 1) as nat);
        let d = crate::tools::folders::rounds(ids, fs, (k - 1) as nat);
        let r = crate::tools::folders::rounds(ids, fs, k);
        assert(r == crate::tools::folders::pass(d, fs));
        lemma_pass_extends(d, fs);
        assert(r.take(ids.len() as int) =~= d.take(ids.len() as int)) by {
            assert forall|i: int| 0 <= i < ids.len() implies r[i] == d[i] by {
                assert(r.take(d.len() as int)[i] == r[i]);
            }
        }
        assert forall|i: int| ids.len() <= i < r.len() implies {
            let x = #[trigger] r[i];
            &&& !ids.contains(x)
            &&& exists|j: int| 0 <= j < fs.len() && fs[j].id == x
            &&& forall|m: int| ids.len() <= m < i ==> r[m] != x
        } by {
            if i < d.len() {
                assert(r[i] == d[i]) by {
                    assert(r.take(d.len() as int)[i] == r[i]);
                }
                assert forall|m: int| ids.len() <= m < i implies r[m] != r[i] by {
                    assert(r.take(d.len() as int)[m] == r[m]);
                }
            } else {
                let x = r[i];
                assert(!d.contains(x));
                if ids.contains(x) {
                    let q = choose|q: int| 0 <= q < ids.len() && ids[q] == x;
                    assert(d.take(ids.len() as int)[q] == d[q]);
                    assert(d.contains(x));
                }
                assert forall|m: int| ids.len() <= m < i implies r[m] != r[i] by {
                    if m < d.len() {
                        assert(r.take(d.len() as int)[m] == r[m]);
                        assert(d.contains(d[m]));
                    }
                }
            }
        }
        if crate::tools::folders::pass(d, fs) == d {
            assert(r == d);
        } else if d.len() < ids.len() + (k - 1) {
            // d was already a fixed point, so r == d.
            assert(r == d);
        } else {
            assert(r.len() > d.len()) by {
                if r.len() == d.len() {
                    assert(r =~= r.take(d.len() as int));
                }
            }
        }
    }
}

/// The ids a pass adds are distinct ids of folders, so no more of them than
/// there are folders.
proof fn lemma_added_bounded(ids: Seq<Seq<char>>, fs: Seq<crate::model::FolderView>, d: Seq<Seq<char>>)
    requires
        d.len() >= ids.len(),
        forall|i: int| ids.len() <= i < d.len() ==> {
            let x = #[trigger] d[i];
            &&& exists|j: int| 0 <= j < fs.len() && fs[j].id == x
            &&& forall|m: int| ids.len() <= m < i ==> d[m] != x
        },
    ensures
        d.len() - ids.len() <= fs.len(),
{
    let a = d.skip(ids.len() as int);
    let fids = fs.map_values(|f: crate::model::FolderView| f.id);
    assert(a.no_duplicates()) by {
        assert forall|i: int, j: int| 0 <= i < a.len() && 0 <= j < a.len() && i != j implies a[i] != a[j] by {
            assert(a[i] == d[ids.len() + i] && a[j] == d[ids.len() + j]);
            if i < j {
                assert(d[ids.len() + j] != d[ids.len() + i]);
            } else {
                assert(d[ids.len() + i] != d[ids.len() + j]);
            }
        }
    }
    a.unique_seq_to_set();
    fids.lemma_cardinality_of_set();
    assert(a.to_set().subset_of(fids.to_set())) by {
        assert forall|x: Seq<char>| a.to_set().contains(x) implies fids.to_set().contains(x) by {
            let i = choose|i: int| 0 <= i < a.len() && a[i] == x;
            assert(a[i] == d[ids.len() + i]);
            let j = choose|j: int| 0 <= j < fs.len() && fs[j].id == d[ids.len() + i];
            assert(fids[j] == x);
        }
    }
    vstd::set_lib::lemma_len_subset(a.to_set(), fids.to_set());
}

/// The folders kept are those whose id is not in `d`.
proof fn lemma_keep_folders(fs: Seq<crate::model::FolderView>, d: Seq<Seq<char>>)
    ensures
        forall|x: crate::model::FolderView| #[trigger] crate::tools::folders::keep_folders(fs, d).contains(x)
            <==> (fs.contains(x) && !d.contains(x.id)),
    decreases fs.len(),
{
    if fs.len() > 0 {
        let fd = fs.drop_last();
        lemma_keep_folders(fd, d);
        let k = crate::tools::folders::keep_folders(fd, d);
        let tail = if d.contains(fs.last().id) { Seq::<crate::model::FolderView>::empty() } else { seq![fs.last()] };
        assert forall|x: crate::model::FolderView| #[trigger] (k + tail).contains(x) <==> (fs.contains(x) && !d.contains(x.id)) by {
            if (k + tail).contains(x) {
                let i = choose|i: int| 0 <= i < (k + tail).len() && (k + tail)[i] == x;
                if i < k.len() {
                    assert(k.contains(x));
                    let q = choose|q: int| 0 <= q < fd.len() && fd[q] == x;
                    assert(fs[q] == fd[q]);
                } else {
                    assert(fs[fs.len() - 1] == x);
                }
            }
            if fs.contains(x) && !d.contains(x.id) {
                let q = choose|q: int| 0 <= q < fs.len() && fs[q] == x;
                if q < fd.len() {
                    assert(fd[q] == x);
                    assert(k.contains(x));
                    let i = choose|i: int| 0 <= i < k.len() && k[i] == x;
                    assert((k + tail)[i] == x);
                } else {
                    assert((k + tail)[k.len() as int] == x);
                }
            }
        }
    }
}

/// `delete_folder` takes the listed folders and all their descendants: the
/// listed folders are gone, and no folder that stays has for parent a
/// folder that went (so no stranded subfolder points at a deleted one).
pub proof fn law_delete_folder_takes_descendants(s: EditorView, args: Json)
    ensures
        crate::tools::folders::delete_folder_effect(s, args) matches Some(n) ==> {
            let ids = crate::tools::args::spec_arg_str_array(args, "folderIds"@)->0;
            &&& forall|i: int, k: int| 0 <= i < n.folders.len() && 0 <= k < ids.len() ==> (#[trigger] n.folders[i]).id != #[trigger] ids[k]
            &&& forall|i: int, j: int|
                0 <= i < n.folders.len() && 0 <= j < s.folders.len() && (#[trigger] n.folders[i]).parent_folder_id == Some(
                    (#[trigger] s.folders[j]).id,
                ) ==> n.folders.contains(s.folders[j])
        },
{
    if let Some(n) = crate::tools::folders::delete_folder_effect(s, args) {
        let ids = crate::tools::args::spec_arg_str_array(args, "folderIds"@)->0;
        let fs = s.folders;
        let big = (fs.len() + 1) as nat;
        let d = crate::tools::folders::rounds(ids, fs, big);
        assert(d == crate::tools::folders::doomed(ids, fs));
        lemma_rounds_grow(ids, fs, big);
        lemma_added_bounded(ids, fs, d);
        assert(crate::tools::folders::pass(d, fs) == d);
        lemma_pass_takes_children(d, fs);
        lemma_keep_folders(fs, d);
        assert(n.folders == crate::tools::folders::keep_folders(fs, d));
        assert forall|i: int, k: int| 0 <= i < n.folders.len() && 0 <= k < ids.len() implies (#[trigger] n.folders[i]).id
            != #[trigger] ids[k] by {
            assert(n.folders.contains(n.folders[i]));
            assert(d.take(ids.len() as int)[k] == d[k]);
            assert(d.contains(ids[k]));
        }
        assert forall|i: int, j: int|
            0 <= i < n.folders.len() && 0 <= j < s.folders.len() && (#[trigger] n.folders[i]).parent_folder_id == Some(
                (#[trigger] s.folders[j]).id,
            ) implies n.folders.contains(s.folders[j]) by {
            let f = n.folders[i];
            assert(n.folders.contains(f));
            assert(fs.contains(f) && !d.contains(f.id));
            let q = choose|q: int| 0 <= q < fs.len() && fs[q] == f;
            if d.contains(s.folders[j].id) {
                assert(fs[q].parent_folder_id == Some(s.folders[j].id));
                assert(crate::tools::folders::pass(d, fs).contains(fs[q].id));
            }
            assert(fs.contains(s.folders[j]));
        }
    }
}

} // verus!
