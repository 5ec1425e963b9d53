//! The `set_keyframes` tool.

use vstd::prelude::*;
use crate::json::{Json, JsonValue, json_of_seq, lemma_json_of_seq};
use crate::model::{Clip, ClipView, EditorState, EditorView, Keyframe, KeyframeTrack, KeyframeView, spec_find_clip, with_clips};
use crate::text::{dec_nat, push_str, push_usize, str_eq, string_of};
use crate::tools::args::{
    ToolOutcome, arg_array, arg_str, cat2, cat3, err, indexed, missing_string, ok, spec_arg_array, spec_arg_str,
};
use crate::tools::timeline::edited;

verus! {

/// An interpolation name a row may end with.
pub open spec fn is_interp(t: Seq<char>) -> bool {
    t == "linear"@ || t == "hold"@ || t == "smooth"@
}

/// A JSON number whose value is finite.
pub open spec fn finite_number(j: Json) -> bool {
    j.as_f64() matches Some(x) && x.spec_is_finite()
}

/// Whether a row ends with an interpolation name (a string after at least
/// one value).
pub open spec fn has_interp(a: Seq<Json>) -> bool {
    a.len() > 2 && a[a.len() - 1].as_str() is Some
}

/// How many values a row carries after its frame.
pub open spec fn value_count(a: Seq<Json>) -> int {
    if has_interp(a) { a.len() - 2 } else { a.len() - 1 }
}

/// One `[frame, ...values, interpolation?]` row: an integer frame, at least
/// one finite number, and optionally `linear`, `hold` or `smooth` (default
/// `smooth`). The first value is the one kept.
pub open spec fn row_of(j: Json) -> Option<KeyframeView> {
    match j.as_array() {
        Some(a) => if a.len() >= 2 && a[0].as_int() is Some
            && (forall|i: int| 1 <= i < 1 + value_count(a) ==> #[trigger] finite_number(a[i]))
            && (has_interp(a) ==> is_interp(a[a.len() - 1].as_str()->0)) {
            Some(
                KeyframeView {
                    frame: a[0].as_int()->0,
                    value: a[1],
                    interpolation_out: if has_interp(a) {
                        a[a.len() - 1].as_str()->0
                    } else {
                        "smooth"@
                    },
                },
            )
        } else {
            None
        },
        None => None,
    }
}

pub open spec fn parse_rows(items: Seq<Json>) -> Option<Seq<KeyframeView>> {
    if forall|i: int| 0 <= i < items.len() ==> (#[trigger] row_of(items[i])) is Some {
        Some(items.map_values(|j: Json| row_of(j)->0))
    } else {
        None
    }
}

/// `acc` with `k` put in frame order; a row already at `k`'s frame is
/// replaced by `k`.
pub open spec fn insert_key(acc: Seq<KeyframeView>, k: KeyframeView) -> Seq<KeyframeView>
    decreases acc.len(),
{
    if acc.len() == 0 {
        seq![k]
    } else if acc[0].frame == k.frame {
        acc.update(0, k)
    } else if acc[0].frame > k.frame {
        seq![k] + acc
    } else {
        seq![acc[0]] + insert_key(acc.drop_first(), k)
    }
}

/// The rows sorted by frame, the last row for a repeated frame winning.
pub open spec fn normalize(rows: Seq<KeyframeView>) -> Seq<KeyframeView>
    decreases rows.len(),
{
    if rows.len() == 0 {
        Seq::empty()
    } else {
        insert_key(normalize(rows.drop_last()), rows.last())
    }
}

/// Frames strictly increase along `ks`.
pub open spec fn strictly_sorted(ks: Seq<KeyframeView>) -> bool {
    forall|i: int, j: int| 0 <= i < j < ks.len() ==> #[trigger] ks[i].frame < #[trigger] ks[j].frame
}

/// `c` with the keyframe track of `prop` set to `tr`; `None` for an
/// unknown property.
pub open spec fn with_track(c: ClipView, prop: Seq<char>, tr: Option<Seq<KeyframeView>>) -> Option<ClipView> {
    if prop == "volume"@ {
        Some(ClipView { volume_track: tr, ..c })
    } else if prop == "opacity"@ {
        Some(ClipView { opacity_track: tr, ..c })
    } else if prop == "rotation"@ {
        Some(ClipView { rotation_track: tr, ..c })
    } else if prop == "position"@ {
        Some(ClipView { position_track: tr, ..c })
    } else if prop == "scale"@ {
        Some(ClipView { scale_track: tr, ..c })
    } else if prop == "crop"@ {
        Some(ClipView { crop_track: tr, ..c })
    } else {
        None
    }
}

/// The summary of a successful `set_keyframes`: how many keyframes were
/// set, on which clip and property.
pub open spec fn keyframes_message(args: Json) -> Seq<char> {
    let n = spec_arg_array(args, "keyframes"@)->0.len();
    "Set "@ + dec_nat(n) + (if n == 1 { " keyframe on clip "@ } else { " keyframes on clip "@ })
        + spec_arg_str(args, "clipId"@)->0 + " ("@ + spec_arg_str(args, "property"@)->0 + ")."@
}

/// What `set_keyframes` does: whether it reports an error, and the state
/// after it. Everything is checked before anything changes, so an error
/// leaves the state as it was; the frames are stored as given (they are
/// already clip-relative), sorted, the last row for a frame winning.
pub open spec fn set_keyframes_effect(s: EditorView, args: Json) -> (bool, EditorView) {
    match (spec_arg_str(args, "clipId"@), spec_arg_str(args, "property"@), spec_arg_array(args, "keyframes"@)) {
        (Some(id), Some(prop), Some(items)) => match spec_find_clip(s.timeline, id) {
            None => (true, s),
            Some((ti, ci)) => match parse_rows(items) {
                None => (true, s),
                Some(rows) => {
                    let c = s.timeline.tracks[ti as int].clips[ci as int];
                    let ks = normalize(rows);
                    let tr = if ks.len() == 0 { None } else { Some(ks) };
                    match with_track(c, prop, tr) {
                        None => (true, s),
                        Some(nc) => (
                            false,
                            EditorView {
                                timeline: with_clips(s.timeline, ti as int, s.timeline.tracks[ti as int].clips.update(ci as int, nc)),
                                ..edited(s, "Set Keyframes (Agent)"@, s.timeline)
                            },
                        ),
                    }
                },
            },
        },
        _ => (true, s),
    }
}

/// Everything `set_keyframes` answers and leaves: the effect and summary,
/// and the message for a missing argument, an unknown clip or an unknown
/// property.
pub open spec fn keyframes_outcome(s: EditorView, args: Json, r: ToolOutcome, n: EditorView) -> bool {
    &&& (r is Error) == set_keyframes_effect(s, args).0
    &&& n == set_keyframes_effect(s, args).1
    &&& !set_keyframes_effect(s, args).0 ==> (r matches ToolOutcome::Text(m) && m@ == keyframes_message(args))
    &&& match (spec_arg_str(args, "clipId"@), spec_arg_str(args, "property"@), spec_arg_array(args, "keyframes"@)) {
        (None, _, _) => r matches ToolOutcome::Error(m) && m@ == missing_string("clipId"@),
        (Some(_), None, _) => r matches ToolOutcome::Error(m) && m@ == missing_string("property"@),
        (Some(_), Some(_), None) => r matches ToolOutcome::Error(m) && m@ == "Missing or invalid 'keyframes' (expected array)"@,
        (Some(id), Some(prop), Some(items)) => match spec_find_clip(s.timeline, id) {
            None => r matches ToolOutcome::Error(m) && m@ == "Clip not found: "@ + id,
            Some((ti, ci)) => match parse_rows(items) {
                Some(rows) => with_track(s.timeline.tracks[ti as int].clips[ci as int], prop, None) is None ==> (r matches ToolOutcome::Error(m)
                    && m@ == "Invalid property '"@ + prop + "'. Expected one of: volume, opacity, rotation, position, scale, crop."@),
                None => true,
            },
        },
    }
}

fn read_row(raw: &JsonValue, i: usize) -> (r: Result<Keyframe, String>)
    ensures
        r is Ok <==> row_of(raw@) is Some,
        r matches Ok(k) ==> row_of(raw@) == Some(k@),
{
    let arr = match raw.as_array() {
        Some(a) => a,
        None => {
            let p = indexed("keyframes", i);
            return Err(cat2(p.as_str(), ": expected array row"));
        },
    };
    let ghost a = raw@.as_array()->0;
    proof { lemma_json_of_seq(arr@); }
    assert(a.len() == arr@.len());
    assert(forall|j: int| 0 <= j < a.len() ==> #[trigger] a[j] == arr@[j]@);
    if arr.len() < 2 {
        let p = indexed("keyframes", i);
        return Err(cat2(p.as_str(), ": row must have at least [frame, value]"));
    }
    let frame = match arr[0].as_int() {
        Some(f) => f,
        None => {
            let p = indexed("keyframes", i);
            return Err(cat2(p.as_str(), "[0]: expected integer frame"));
        },
    };
    let n = arr.len();
    let interp = if n > 2 { arr[n - 1].as_str() } else { None };
    assert(interp is Some <==> has_interp(a));
    let end: usize = if interp.is_some() { n - 1 } else { n };
    assert(end == 1 + value_count(a));
    let mut k: usize = 1;
    while k < end
        invariant
            1 <= k <= end,
            end <= n,
            end == 1 + value_count(a),
            raw@.as_array() == Some(a),
            n == arr@.len(),
            a.len() == n,
            forall|j: int| 0 <= j < a.len() ==> #[trigger] a[j] == arr@[j]@,
            forall|j: int| 1 <= j < k ==> #[trigger] finite_number(a[j]),
        decreases end - k,
    {
        let ok = match arr[k].as_f64() {
            Some(x) => x.is_finite(),
            None => false,
        };
        if !ok {
            assert(!finite_number(a[k as int]));
            let p = indexed("keyframes", i);
            return Err(cat2(p.as_str(), ": values must be finite numbers"));
        }
        k = k + 1;
    }
    let interpolation = match interp {
        Some(t) => {
            if !(str_eq(t.as_str(), "linear") || str_eq(t.as_str(), "hold") || str_eq(t.as_str(), "smooth")) {
                let p = indexed("keyframes", i);
                let mut m = cat3(p.as_str(), ": unknown interpolation '", t.as_str());
                push_str(&mut m, "' (expected linear, hold or smooth)");
                return Err(m);
            }
            t.clone()
        },
        None => string_of("smooth"),
    };
    Ok(Keyframe { frame, value: arr[1].duplicate(), interpolation_out: interpolation })
}

pub open spec fn key_views(v: Seq<Keyframe>) -> Seq<KeyframeView> {
    v.map_values(|k: Keyframe| k@)
}

fn read_rows(items: &Vec<JsonValue>) -> (r: Result<Vec<Keyframe>, String>)
    ensures
        r is Ok <==> parse_rows(json_of_seq(items@)) is Some,
        r matches Ok(v) ==> parse_rows(json_of_seq(items@)) == Some(key_views(v@)),
{
    let ghost js = json_of_seq(items@);
    proof { lemma_json_of_seq(items@); }
    let mut out: Vec<Keyframe> = Vec::new();
    let mut i: usize = 0;
    while i < items.len()
        invariant
            0 <= i <= items@.len(),
            js == json_of_seq(items@),
            js.len() == items@.len(),
            forall|j: int| 0 <= j < items@.len() ==> #[trigger] js[j] == items@[j]@,
            out@.len() == i,
            forall|j: int| 0 <= j < i ==> #[trigger] row_of(js[j]) == Some(out@[j]@),
        decreases items.len() - i,
    {
        assert(js[i as int] == items@[i as int]@);
        match read_row(&items[i], i) {
            Ok(k) => out.push(k),
            Err(m) => {
                assert(row_of(js[i as int]) is None);
                return Err(m);
            },
        }
        i = i + 1;
    }
    assert(key_views(out@) =~= js.map_values(|j: Json| row_of(j)->0));
    Ok(out)
}

/// Where `insert_key` puts `k`: at the first row whose frame is not below
/// `k`'s, replacing that row when the frames are equal.
proof fn lemma_insert_key_at(acc: Seq<KeyframeView>, k: KeyframeView, i: int)
    requires
        0 <= i <= acc.len(),
        forall|j: int| 0 <= j < i ==> (#[trigger] acc[j]).frame < k.frame,
        i < acc.len() ==> acc[i].frame >= k.frame,
    ensures
        insert_key(acc, k) == if i < acc.len() && acc[i].frame == k.frame {
            acc.update(i, k)
        } else {
            acc.insert(i, k)
        },
    decreases i,
{
    if i == 0 {
        if acc.len() == 0 {
            assert(acc.insert(0, k) =~= seq![k]);
        } else if acc[0].frame != k.frame {
            assert(acc.insert(0, k) =~= seq![k] + acc);
        }
    } else {
        let rest = acc.drop_first();
        assert forall|j: int| 0 <= j < i - 1 implies (#[trigger] rest[j]).frame < k.frame by {
            assert(rest[j] == acc[j + 1]);
        }
        lemma_insert_key_at(rest, k, i - 1);
        assert(acc[0].frame < k.frame);
        if i < acc.len() && acc[i].frame == k.frame {
            assert(seq![acc[0]] + rest.update(i - 1, k) =~= acc.update(i, k));
        } else {
            assert(seq![acc[0]] + rest.insert(i - 1, k) =~= acc.insert(i, k));
        }
    }
}

/// Puts `k` into the frame-sorted rows `acc`.
fn insert_row(acc: &mut Vec<Keyframe>, k: Keyframe)
    requires
        strictly_sorted(key_views(old(acc)@)),
    ensures
        key_views(final(acc)@) == insert_key(key_views(old(acc)@), k@),
        strictly_sorted(key_views(final(acc)@)),
{
    let ghost a0 = key_views(acc@);
    let n = acc.len();
    let mut i: usize = 0;
    while i < n && acc[i].frame < k.frame
        invariant
            0 <= i <= n,
            n == acc@.len(),
            a0 == key_views(acc@),
            forall|j: int| 0 <= j < i ==> (#[trigger] a0[j]).frame < k.frame,
        decreases n - i,
    {
        assert(a0[i as int] == acc@[i as int]@);
        i = i + 1;
    }
    if i < n {
        assert(a0[i as int] == acc@[i as int]@);
    }
    proof { lemma_insert_key_at(a0, k@, i as int); }
    if i < n && acc[i].frame == k.frame {
        acc.remove(i);
        acc.insert(i, k);
        assert(key_views(acc@) =~= a0.update(i as int, k@));
    } else {
        acc.insert(i, k);
        assert(key_views(acc@) =~= a0.insert(i as int, k@));
        assert forall|x: int, y: int| 0 <= x < y < key_views(acc@).len() implies #[trigger] key_views(acc@)[x].frame
            < #[trigger] key_views(acc@)[y].frame by {
            let r = key_views(acc@);
            if y == i {
                assert(r[x] == a0[x]);
            } else if x == i {
                assert(r[y] == a0[y - 1]);
                assert(a0[i as int].frame >= k.frame);
                if y - 1 > i {
                    assert(a0[i as int].frame < a0[y - 1].frame);
                }
            } else if y < i {
                assert(r[x] == a0[x] && r[y] == a0[y]);
            } else if x < i {
                assert(r[x] == a0[x] && r[y] == a0[y - 1]);
            } else {
                assert(r[x] == a0[x - 1] && r[y] == a0[y - 1]);
            }
        }
    }
}

/// The rows sorted by frame, the last row for a repeated frame winning.
fn normalize_rows(rows: Vec<Keyframe>) -> (r: Vec<Keyframe>)
    ensures
        key_views(r@) == normalize(key_views(rows@)),
        strictly_sorted(key_views(r@)),
{
    let ghost rv = key_views(rows@);
    let mut out: Vec<Keyframe> = Vec::new();
    let mut rest = rows;
    let mut k: usize = 0;
    let total = rest.len();
    assert(rv.len() == total);
    assert(key_views(out@) =~= normalize(rv.take(0)));
    while rest.len() > 0
        invariant
            rv.len() == k + rest@.len(),
            rv.len() <= usize::MAX,
            rv == key_views(rows@),
            key_views(rest@) == rv.subrange(k as int, rv.len() as int),
            key_views(out@) == normalize(rv.take(k as int)),
            strictly_sorted(key_views(out@)),
        decreases rest.len(),
    {
        let ghost before = rest@;
        let row = rest.remove(0);
        assert(row@ == rv[k as int]) by {
            assert(key_views(before)[0] == rv.subrange(k as int, rv.len() as int)[0]);
        }
        assert forall|j: int| 0 <= j < rest@.len() implies #[trigger] key_views(rest@)[j] == rv.subrange(k + 1, rv.len() as int)[j] by {
            assert(rest@[j] == before[j + 1]);
            assert(key_views(before)[j + 1] == rv.subrange(k as int, rv.len() as int)[j + 1]);
        }
        assert(key_views(rest@) =~= rv.subrange(k + 1, rv.len() as int));
        insert_row(&mut out, row);
        assert(rv.take(k + 1).drop_last() =~= rv.take(k as int));
        k = k + 1;
    }
    assert(rv.take(k as int) =~= rv);
    out
}

#[verifier::spinoff_prover]
pub fn tool_set_keyframes(s: &mut EditorState, args: &JsonValue) -> (r: ToolOutcome)
    ensures
        keyframes_outcome(old(s)@, args@, r, final(s)@),
{
    proof { crate::model::lemma_editor_view(*s); }
    let clip_id = match arg_str(args, "clipId") {
        Ok(c) => c,
        Err(e) => return err(e),
    };
    let property = match arg_str(args, "property") {
        Ok(p) => p,
        Err(e) => return err(e),
    };
    let raw = match arg_array(args, "keyframes") {
        Some(a) => a,
        None => return err(string_of("Missing or invalid 'keyframes' (expected array)")),
    };
    let (ti, ci) = match s.timeline.find_clip(clip_id.as_str()) {
        Some(loc) => loc,
        None => return err(cat2("Clip not found: ", clip_id.as_str())),
    };
    let rows = match read_rows(raw) {
        Ok(v) => v,
        Err(m) => return err(m),
    };
    assert(s@.timeline.tracks[ti as int].clips[ci as int] == s.timeline.tracks@[ti as int].clips@[ci as int]@);
    let p = property.as_str();
    if !(str_eq(p, "volume") || str_eq(p, "opacity") || str_eq(p, "rotation") || str_eq(p, "position") || str_eq(
        p,
        "scale",
    ) || str_eq(p, "crop")) {
        return err(cat3("Invalid property '", p, "'. Expected one of: volume, opacity, rotation, position, scale, crop."));
    }
    let sorted = normalize_rows(rows);
    let n = raw.len();
    proof { crate::json::lemma_json_of_seq(raw@); }
    assert(n == spec_arg_array(args@, "keyframes"@)->0.len());
    s.push_undo(string_of("Set Keyframes (Agent)"));
    proof { crate::model::lemma_editor_view(*s); }
    let mut c = s.timeline.tracks[ti].clips[ci].duplicate();
    let track = if sorted.len() == 0 { None } else { Some(KeyframeTrack { keyframes: sorted }) };
    if str_eq(p, "volume") {
        c.volume_track = track;
    } else if str_eq(p, "opacity") {
        c.opacity_track = track;
    } else if str_eq(p, "rotation") {
        c.rotation_track = track;
    } else if str_eq(p, "position") {
        c.position_track = track;
    } else if str_eq(p, "scale") {
        c.scale_track = track;
    } else {
        c.crop_track = track;
    }
    s.timeline.set_clip(ti, ci, c);
    proof { crate::model::lemma_editor_view(*s); }
    let mut m = string_of("Set ");
    push_usize(&mut m, n);
    push_str(&mut m, if n == 1 { " keyframe on clip " } else { " keyframes on clip " });
    push_str(&mut m, clip_id.as_str());
    push_str(&mut m, " (");
    push_str(&mut m, p);
    push_str(&mut m, ").");
    ok(m)
}

} // verus!
