//! The `add_texts` tool: placing text clips on a visual track.

use vstd::prelude::*;
use crate::clip_type::{Alignment, ClipType};
use crate::color::spec_parse_hex;
use crate::edit::{check_region_fits, clear_clips, cleared, lemma_cleared_fits, region_fits, sort_by_start, sort_clips};
use crate::json::{Json, JsonValue, json_of_seq, lemma_json_of_seq};
use crate::model::{Clip, ClipView, EditorState, EditorView, TextStyle, TextStyleView, Timeline, TimelineView, Track, TrackView, Transform, all_fit, clip_fits, clips_view, default_text_style, fresh_clip, joined_clip_ids, minted, minted_id, new_track, timeline_fits};
use crate::reals::Real;
use crate::text::{dec_nat, push_i64, push_str, push_u64, push_usize, str_eq, string_of};
use crate::tools::args::{
    ToolOutcome, arg_array, arg_i64, arg_opt_f64, arg_opt_i64, arg_opt_str, arg_str, cat2, cat3, err, indexed, ok,
    spec_arg_array, spec_arg_f64, spec_arg_int, spec_arg_str,
};
use crate::tools::timeline::{commit, edited, overflow_error};

verus! {

pub struct TextEntry {
    pub start: i64,
    pub duration: i64,
    pub content: String,
    pub font_name: Option<String>,
    pub font_size: Option<Real>,
    pub color: Option<String>,
    pub alignment: Option<String>,
    pub track_index: Option<usize>,
    pub transform: Transform,
}

pub ghost struct TextEntryView {
    pub start: i64,
    pub duration: i64,
    pub content: Seq<char>,
    pub font_name: Option<Seq<char>>,
    pub font_size: Option<Real>,
    pub color: Option<Seq<char>>,
    pub alignment: Option<Seq<char>>,
    pub track_index: Option<int>,
    pub transform: Transform,
}

impl View for TextEntry {
    type V = TextEntryView;

    open spec fn view(&self) -> TextEntryView {
        TextEntryView {
            start: self.start,
            duration: self.duration,
            content: self.content@,
            font_name: crate::model::opt_str(self.font_name),
            font_size: self.font_size,
            color: crate::model::opt_str(self.color),
            alignment: crate::model::opt_str(self.alignment),
            track_index: match self.track_index {
                Some(t) => Some(t as int),
                None => None,
            },
            transform: self.transform,
        }
    }
}

pub open spec fn text_views(v: Seq<TextEntry>) -> Seq<TextEntryView> {
    v.map_values(|e: TextEntry| e@)
}

/// The fields a text entry may have.
pub open spec fn text_entry_field(k: Seq<char>) -> bool {
    ||| k == "trackIndex"@
    ||| k == "startFrame"@
    ||| k == "durationFrames"@
    ||| k == "content"@
    ||| k == "transform"@
    ||| k == "fontName"@
    ||| k == "fontSize"@
    ||| k == "color"@
    ||| k == "alignment"@
}

/// The entry has a field that text entries do not have.
pub open spec fn has_unknown_field(raw: Json) -> bool {
    match raw {
        Json::Object(m) => exists|i: int| 0 <= i < m.len() && !text_entry_field((#[trigger] m[i]).0),
        _ => false,
    }
}

/// The box an entry asks for: centred at full size, with each of
/// `centerX`, `centerY`, `width` and `height` that the entry's `transform`
/// gives taking its place (so the centre alone moves the box, and all four
/// replace it).
pub open spec fn entry_transform(raw: Json) -> Transform {
    let d = Transform::spec_default();
    match raw.get("transform"@) {
        None => d,
        Some(p) => Transform {
            center_x: match spec_arg_f64(p, "centerX"@) {
                Some(x) => x,
                None => d.center_x,
            },
            center_y: match spec_arg_f64(p, "centerY"@) {
                Some(y) => y,
                None => d.center_y,
            },
            width: match spec_arg_f64(p, "width"@) {
                Some(w) => w,
                None => d.width,
            },
            height: match spec_arg_f64(p, "height"@) {
                Some(h) => h,
                None => d.height,
            },
            ..d
        },
    }
}

/// How one text entry is read; `None` when it is rejected.
#[verifier::opaque]
pub open spec fn parse_text_entry(raw: Json, s: EditorView) -> Option<TextEntryView> {
    match (spec_arg_int(raw, "startFrame"@), spec_arg_int(raw, "durationFrames"@), spec_arg_str(raw, "content"@)) {
        (Some(st), Some(d), Some(content)) => {
            let ti = spec_arg_int(raw, "trackIndex"@);
            let ti_ok = match ti {
                Some(t) => 0 <= t < s.timeline.tracks.len() && s.timeline.tracks[t as int].track_type != ClipType::Audio,
                None => true,
            };
            if st >= 0 && d >= 1 && ti_ok && !has_unknown_field(raw) {
                Some(
                    TextEntryView {
                        start: st,
                        duration: d,
                        content,
                        font_name: spec_arg_str(raw, "fontName"@),
                        font_size: spec_arg_f64(raw, "fontSize"@),
                        color: spec_arg_str(raw, "color"@),
                        alignment: spec_arg_str(raw, "alignment"@),
                        track_index: match ti {
                            Some(t) => Some(t as int),
                            None => None,
                        },
                        transform: entry_transform(raw),
                    },
                )
            } else {
                None
            }
        },
        _ => None,
    }
}

pub open spec fn parse_text_entries(items: Seq<Json>, s: EditorView) -> Option<Seq<TextEntryView>> {
    if forall|i: int| 0 <= i < items.len() ==> (#[trigger] parse_text_entry(items[i], s)) is Some {
        Some(items.map_values(|j: Json| parse_text_entry(j, s)->0))
    } else {
        None
    }
}

/// `left` / `center` / `right`; anything else centers.
pub open spec fn alignment_of(a: Seq<char>) -> Alignment {
    if a == "left"@ {
        Alignment::Left
    } else if a == "right"@ {
        Alignment::Right
    } else {
        Alignment::Center
    }
}

/// The default style with the entry's font, size, valid colour and
/// alignment applied.
pub open spec fn entry_style(e: TextEntryView) -> TextStyleView {
    let d = default_text_style();
    TextStyleView {
        font_name: match e.font_name {
            Some(f) => f,
            None => d.font_name,
        },
        font_size: match e.font_size {
            Some(z) => z,
            None => d.font_size,
        },
        color: match e.color {
            Some(h) => match spec_parse_hex(h) {
                Some(c) => c,
                None => d.color,
            },
            None => d.color,
        },
        alignment: match e.alignment {
            Some(a) => alignment_of(a),
            None => d.alignment,
        },
        ..d
    }
}

/// The text clip an entry becomes.
pub open spec fn text_clip(id: Seq<char>, e: TextEntryView) -> ClipView {
    ClipView {
        text_content: Some(e.content),
        text_style: Some(entry_style(e)),
        transform: e.transform,
        ..fresh_clip(id, Seq::empty(), ClipType::Text, e.start, e.duration, 0, 0)
    }
}

/// The track an entry lands on: the new track 0 when one was created for
/// the batch, else the entry's own `trackIndex`.
pub open spec fn text_track(e: TextEntryView, created: bool) -> int {
    if created { 0 } else { e.track_index->0 }
}

/// The entries placed in order, each on its own track after clearing its
/// region there, the `k`-th under id `clip-(counter+k+1)`.
pub open spec fn place_texts(tracks: Seq<TrackView>, es: Seq<TextEntryView>, created: bool, counter: nat) -> Option<Seq<TrackView>>
    decreases es.len(),
{
    if es.len() == 0 {
        Some(tracks)
    } else {
        match place_texts(tracks, es.drop_last(), created, counter) {
            None => None,
            Some(ts) => {
                let e = es.last();
                let ti = text_track(e, created);
                let end = e.start + e.duration;
                let n = counter + es.len() - 1;
                if !(0 <= ti < ts.len()) || end > i64::MAX || n + 1 > u64::MAX || !region_fits(ts[ti].clips, e.start as int, end) {
                    None
                } else {
                    Some(
                        ts.update(
                            ti,
                            TrackView {
                                clips: cleared(ts[ti].clips, e.start as int, end).push(text_clip(minted_id("clip"@, (n + 1) as nat), e)),
                                ..ts[ti]
                            },
                        ),
                    )
                }
            },
        }
    }
}

/// Whether some entry lands on track `j`.
pub open spec fn touched(es: Seq<TextEntryView>, created: bool, j: int) -> bool {
    exists|k: int| 0 <= k < es.len() && text_track(#[trigger] es[k], created) == j
}

/// Every track an entry landed on sorted by start frame.
pub open spec fn sort_touched(ts: Seq<TrackView>, es: Seq<TextEntryView>, created: bool) -> Seq<TrackView> {
    ts.map(|j: int, tr: TrackView| if touched(es, created, j) { TrackView { clips: sort_by_start(tr.clips), ..tr } } else { tr })
}

pub open spec fn all_text_explicit(es: Seq<TextEntryView>) -> bool {
    forall|i: int| 0 <= i < es.len() ==> (#[trigger] es[i]).track_index is Some
}

pub open spec fn all_text_omitted(es: Seq<TextEntryView>) -> bool {
    forall|i: int| 0 <= i < es.len() ==> (#[trigger] es[i]).track_index is None
}

/// Placement of validated entries: with no `trackIndex` anywhere a video
/// track is created at index 0 and takes every clip; otherwise each entry
/// lands on its own track. Every track that got a clip is sorted at the
/// end.
pub open spec fn add_text_entries_effect(s: EditorView, es: Seq<TextEntryView>) -> Option<EditorView> {
    if !all_text_explicit(es) && !all_text_omitted(es) {
        None
    } else {
        let created = all_text_omitted(es);
        let tracks = if created {
            s.timeline.tracks.insert(0, new_track(minted_id("track"@, (s.id_counter + 1) as nat), ClipType::Video))
        } else {
            s.timeline.tracks
        };
        let c0: nat = if created { (s.id_counter + 1) as nat } else { s.id_counter as nat };
        match place_texts(tracks, es, created, c0) {
            None => None,
            Some(ts) => Some(
                EditorView {
                    id_counter: (c0 + es.len()) as u64,
                    ..edited(
                        s,
                        if es.len() == 1 { "Add Text (Agent)"@ } else { "Add Texts (Agent)"@ },
                        TimelineView { tracks: sort_touched(ts, es, created), ..s.timeline },
                    )
                },
            ),
        }
    }
}

/// The summary of added text clips: the track created for them, if any,
/// how many, and their ids.
pub open spec fn texts_message(s: EditorView, es: Seq<TextEntryView>) -> Seq<char> {
    let created = all_text_omitted(es);
    let c0: nat = if created { (s.id_counter + 1) as nat } else { s.id_counter as nat };
    (if created { "Created track 0 ('Video', video). "@ } else { ""@ }) + "Added "@ + dec_nat(es.len()) + (if es.len() == 1 {
        " text clip: "@
    } else {
        " text clips: "@
    }) + joined_clip_ids(c0, es.len())
}

/// What `add_texts` does. `None` for an error, with the state left as it
/// was.
pub open spec fn add_texts_effect(s: EditorView, args: Json) -> Option<EditorView> {
    match spec_arg_array(args, "entries"@) {
        None => None,
        Some(items) => if items.len() == 0 {
            None
        } else {
            match parse_text_entries(items, s) {
                None => None,
                Some(es) => add_text_entries_effect(s, es),
            }
        },
    }
}

/// Everything `add_texts` answers and leaves: the effect and summary, and
/// the message for a missing or empty `entries` list.
pub open spec fn add_texts_outcome(s: EditorView, args: Json, r: ToolOutcome, n: EditorView) -> bool {
    &&& match add_texts_effect(s, args) {
        None => r is Error && n == s,
        Some(x) => n == x && (r matches ToolOutcome::Text(m) && m@ == texts_message(
            s,
            parse_text_entries(spec_arg_array(args, "entries"@)->0, s)->0,
        )),
    }
    &&& (spec_arg_array(args, "entries"@) is None || spec_arg_array(args, "entries"@)->0.len() == 0 ==> (r matches ToolOutcome::Error(
        m,
    ) && m@ == "Missing or empty 'entries' array"@))
}

// ---------------------------------------------------------------------------
// Execution
// ---------------------------------------------------------------------------

fn read_text_entry(raw: &JsonValue, i: usize, s: &EditorState) -> (r: Result<TextEntry, String>)
    ensures
        r is Ok <==> parse_text_entry(raw@, s@) is Some,
        r matches Ok(e) ==> e@ == parse_text_entry(raw@, s@)->0 && text_ok(e, s@.timeline.tracks.len()),
{
    proof {
        crate::model::lemma_editor_view(*s);
        reveal(parse_text_entry);
    }
    let path = indexed("entries", i);
    let start = match arg_i64(raw, "startFrame") {
        Ok(v) => {
            if v < 0 {
                let mut m = cat2(path.as_str(), ": startFrame must be >= 0 (got ");
                push_i64(&mut m, v);
                push_str(&mut m, ")");
                return Err(m);
            }
            v
        },
        Err(e) => return Err(cat3(path.as_str(), ": ", e.as_str())),
    };
    let duration = match arg_i64(raw, "durationFrames") {
        Ok(v) => {
            if v < 1 {
                let mut m = cat2(path.as_str(), ": durationFrames must be >= 1 (got ");
                push_i64(&mut m, v);
                push_str(&mut m, ")");
                return Err(m);
            }
            v
        },
        Err(e) => return Err(cat3(path.as_str(), ": ", e.as_str())),
    };
    let content = match arg_str(raw, "content") {
        Ok(c) => c,
        Err(e) => return Err(cat3(path.as_str(), ": ", e.as_str())),
    };
    let n_tracks = s.timeline.tracks.len();
    let track_index: Option<usize> = match arg_opt_i64(raw, "trackIndex") {
        Some(t) => {
            if t < 0 || (t as u64) >= (n_tracks as u64) {
                let mut m = cat2(path.as_str(), ": trackIndex ");
                push_u64(&mut m, (#[verifier::truncate] (t as u64)));
                push_str(&mut m, " out of range");
                return Err(m);
            }
            let tu = t as usize;
            assert(s@.timeline.tracks[tu as int] == s.timeline.tracks@[tu as int]@);
            if s.timeline.tracks[tu].track_type == ClipType::Audio {
                let mut m = cat2(path.as_str(), ": trackIndex ");
                push_usize(&mut m, tu);
                push_str(&mut m, " is an audio track");
                return Err(m);
            }
            Some(tu)
        },
        None => None,
    };
    let font_name = match arg_opt_str(raw, "fontName") {
        Some(f) => Some(f.clone()),
        None => None,
    };
    let color = match arg_opt_str(raw, "color") {
        Some(c) => Some(c.clone()),
        None => None,
    };
    let alignment = match arg_opt_str(raw, "alignment") {
        Some(a) => Some(a.clone()),
        None => None,
    };
    match first_unknown_field(raw) {
        Some(k) => return Err(cat3(path.as_str(), ": unknown field '", cat2(k.as_str(), "'").as_str())),
        None => {},
    }
    Ok(TextEntry {
        start,
        duration,
        content: content.clone(),
        font_name,
        font_size: arg_opt_f64(raw, "fontSize"),
        color,
        alignment,
        track_index,
        transform: transform_for(raw),
    })
}

/// The first field of the entry that text entries do not have.
fn first_unknown_field(raw: &JsonValue) -> (r: Option<&String>)
    ensures
        r is Some <==> has_unknown_field(raw@),
{
    match raw {
        JsonValue::Object(m) => {
            assert(*raw == JsonValue::Object(*m));
            proof { crate::json::lemma_json_of_members(m@); }
            let ghost ms = crate::json::json_of_members(m@);
            assert(raw@ == Json::Object(ms));
            let mut i: usize = 0;
            while i < m.len()
                invariant
                    0 <= i <= m@.len(),
                    ms == crate::json::json_of_members(m@),
                    raw@ == Json::Object(ms),
                    ms.len() == m@.len(),
                    forall|j: int| 0 <= j < m@.len() ==> #[trigger] ms[j] == (m@[j].0@, crate::json::json_of(m@[j].1)),
                    forall|j: int| 0 <= j < i ==> text_entry_field(#[trigger] ms[j].0),
                decreases m.len() - i,
            {
                let k = &m[i].0;
                assert(ms[i as int].0 == k@);
                let known = str_eq(k.as_str(), "trackIndex") || str_eq(k.as_str(), "startFrame")
                    || str_eq(k.as_str(), "durationFrames") || str_eq(k.as_str(), "content")
                    || str_eq(k.as_str(), "transform") || str_eq(k.as_str(), "fontName")
                    || str_eq(k.as_str(), "fontSize") || str_eq(k.as_str(), "color")
                    || str_eq(k.as_str(), "alignment");
                if !known {
                    assert(!text_entry_field(ms[i as int].0));
                    assert(raw@ matches Json::Object(x) && x == ms);
                    return Some(k);
                }
                i = i + 1;
            }
            assert(raw@ == Json::Object(ms));
            None
        },
        _ => None,
    }
}

/// The box the entry asks for.
fn transform_for(raw: &JsonValue) -> (r: Transform)
    ensures
        r == entry_transform(raw@),
{
    let mut t = Transform::identity();
    match raw.get("transform") {
        Some(p) => {
            match arg_opt_f64(p, "centerX") {
                Some(x) => t.center_x = x,
                None => {},
            }
            match arg_opt_f64(p, "centerY") {
                Some(y) => t.center_y = y,
                None => {},
            }
            match arg_opt_f64(p, "width") {
                Some(w) => t.width = w,
                None => {},
            }
            match arg_opt_f64(p, "height") {
                Some(h) => t.height = h,
                None => {},
            }
        },
        None => {},
    }
    t
}

pub open spec fn text_ok(e: TextEntry, n: nat) -> bool {
    &&& e.track_index matches Some(t) ==> t < n
    &&& e.start >= 0
    &&& e.duration >= 1
}

fn read_text_entries(items: &Vec<JsonValue>, s: &EditorState) -> (r: Result<Vec<TextEntry>, String>)
    ensures
        r is Ok <==> parse_text_entries(json_of_seq(items@), s@) is Some,
        r matches Ok(v) ==> parse_text_entries(json_of_seq(items@), s@) == Some(text_views(v@))
            && forall|j: int| 0 <= j < v@.len() ==> text_ok(#[trigger] v@[j], s@.timeline.tracks.len()),
{
    let ghost js = json_of_seq(items@);
    proof { lemma_json_of_seq(items@); }
    let mut out: Vec<TextEntry> = Vec::new();
    let mut i: usize = 0;
    while i < items.len()
        invariant
            0 <= i <= items@.len(),
            js == json_of_seq(items@),
            js.len() == items@.len(),
            forall|j: int| 0 <= j < items@.len() ==> #[trigger] js[j] == items@[j]@,
            out@.len() == i,
            forall|j: int| 0 <= j < i ==> #[trigger] parse_text_entry(js[j], s@) == Some(out@[j]@),
            forall|j: int| 0 <= j < i ==> text_ok(#[trigger] out@[j], s@.timeline.tracks.len()),
        decreases items.len() - i,
    {
        assert(js[i as int] == items@[i as int]@);
        match read_text_entry(&items[i], i, s) {
            Ok(e) => out.push(e),
            Err(m) => {
                assert(parse_text_entry(js[i as int], s@) is None);
                return Err(m);
            },
        }
        i = i + 1;
    }
    assert(text_views(out@) =~= js.map_values(|j: Json| parse_text_entry(j, s@)->0));
    Ok(out)
}

/// The entry's text style.
fn style_for(e: &TextEntry) -> (r: TextStyle)
    ensures
        r@ == entry_style(e@),
{
    let mut st = TextStyle::default_style();
    match &e.font_name {
        Some(f) => st.font_name = f.clone(),
        None => {},
    }
    match e.font_size {
        Some(z) => st.font_size = z,
        None => {},
    }
    match &e.color {
        Some(h) => match crate::model::TextStyle::parse_hex(h.as_str()) {
            Some(c) => st.color = c,
            None => {},
        },
        None => {},
    }
    match &e.alignment {
        Some(a) => {
            st.alignment = if str_eq(a.as_str(), "left") {
                Alignment::Left
            } else if str_eq(a.as_str(), "right") {
                Alignment::Right
            } else {
                Alignment::Center
            };
        },
        None => {},
    }
    st
}

proof fn lemma_place_texts_none_prefix(tracks: Seq<TrackView>, es: Seq<TextEntryView>, created: bool, counter: nat, k: int)
    requires
        0 <= k <= es.len(),
        place_texts(tracks, es.take(k), created, counter) is None,
    ensures
        place_texts(tracks, es, created, counter) is None,
    decreases es.len(),
{
    if k == es.len() {
        assert(es.take(k) =~= es);
    } else {
        assert(es.drop_last().take(k) =~= es.take(k));
        lemma_place_texts_none_prefix(tracks, es.drop_last(), created, counter, k);
    }
}

/// Places the text clips, each on its own track (track 0 for all when
/// `created`); `None` when a frame or id would overflow.
#[verifier::rlimit(80)]
fn place_text_clips(tl: &mut Timeline, parsed: &Vec<TextEntry>, created: bool, counter: u64) -> (r: Option<String>)
    requires
        timeline_fits(old(tl)@),
        forall|j: int| 0 <= j < parsed@.len() ==> (#[trigger] parsed@[j]).start >= 0 && parsed@[j].duration >= 1,
        forall|j: int| 0 <= j < parsed@.len() ==> 0 <= #[trigger] text_track(parsed@[j]@, created) < old(tl)@.tracks.len(),
        !created ==> forall|j: int| 0 <= j < parsed@.len() ==> (#[trigger] parsed@[j]).track_index is Some,
    ensures
        r is Some <==> place_texts(old(tl)@.tracks, text_views(parsed@), created, counter as nat) is Some,
        r is Some ==> place_texts(old(tl)@.tracks, text_views(parsed@), created, counter as nat) == Some(final(tl)@.tracks),
        r is Some ==> final(tl)@ == (TimelineView { tracks: final(tl)@.tracks, ..old(tl)@ }) && timeline_fits(final(tl)@),
        r matches Some(ids) ==> ids@ == joined_clip_ids(counter as nat, parsed@.len()),
{
    let ghost t0 = tl@;
    let ghost es = text_views(parsed@);
    let mut ids = string_of("");
    proof { reveal_strlit(""); }
    assert(ids@ =~= joined_clip_ids(counter as nat, 0));
    let mut k: usize = 0;
    assert(es.take(0) =~= Seq::<TextEntryView>::empty());
    while k < parsed.len()
        invariant
            0 <= k <= parsed@.len(),
            es == text_views(parsed@),
            forall|j: int| 0 <= j < parsed@.len() ==> (#[trigger] parsed@[j]).start >= 0 && parsed@[j].duration >= 1,
            forall|j: int| 0 <= j < parsed@.len() ==> 0 <= #[trigger] text_track(parsed@[j]@, created) < t0.tracks.len(),
            !created ==> forall|j: int| 0 <= j < parsed@.len() ==> (#[trigger] parsed@[j]).track_index is Some,
            t0 == old(tl)@,
            tl@.tracks.len() == t0.tracks.len(),
            tl.tracks@.len() == t0.tracks.len(),
            tl@ == (TimelineView { tracks: tl@.tracks, ..t0 }),
            timeline_fits(tl@),
            place_texts(t0.tracks, es.take(k as int), created, counter as nat) == Some(tl@.tracks),
            ids@ == joined_clip_ids(counter as nat, k as nat),
        decreases parsed.len() - k,
    {
        let e = &parsed[k];
        assert(es[k as int] == e@);
        assert(es.take(k + 1).drop_last() =~= es.take(k as int));
        assert(es.take(k + 1).last() == e@);
        let ti: usize = if created {
            0
        } else {
            match e.track_index {
                Some(t) => t,
                None => 0,
            }
        };
        assert(ti as int == text_track(parsed@[k as int]@, created));
        assert(parsed@[k as int].start >= 0 && parsed@[k as int].duration >= 1);
        let end = match e.start.checked_add(e.duration) {
            Some(v) => v,
            None => {
                proof { lemma_place_texts_none_prefix(t0.tracks, es, created, counter as nat, k + 1); }
                return None;
            },
        };
        if (k as u64) >= u64::MAX - counter {
            proof { lemma_place_texts_none_prefix(t0.tracks, es, created, counter as nat, k + 1); }
            return None;
        }
        assert(tl@.tracks[ti as int] == tl.tracks@[ti as int]@);
        if !check_region_fits(&tl.tracks[ti].clips, e.start, end) {
            proof { lemma_place_texts_none_prefix(t0.tracks, es, created, counter as nat, k + 1); }
            return None;
        }
        let ghost before = tl@;
        assert(all_fit(before.tracks[ti as int].clips));
        proof { lemma_cleared_fits(before.tracks[ti as int].clips, e.start as int, end as int); }
        let cur = tl.take_clips(ti);
        let mut next = clear_clips(cur, e.start, end);
        let id = minted("clip", counter + k as u64 + 1);
        if k > 0 {
            push_str(&mut ids, ", ");
        }
        push_str(&mut ids, id.as_str());
        let mut clip = Clip::fresh(id, string_of(""), ClipType::Text, e.start, e.duration, 0, 0);
        clip.text_content = Some(e.content.clone());
        clip.text_style = Some(style_for(e));
        clip.transform = e.transform;
        let ghost cv = clip@;
        proof { reveal_strlit(""); }
        assert(cv.media_ref =~= Seq::<char>::empty());
        assert(cv == text_clip(minted_id("clip"@, (counter + k + 1) as nat), e@));
        let ghost prev = clips_view(next@);
        next.push(clip);
        assert(clips_view(next@) =~= prev.push(cv));
        tl.put_clips(ti, next);
        proof {
            assert(tl@.tracks =~= before.tracks.update(
                ti as int,
                TrackView { clips: cleared(before.tracks[ti as int].clips, e.start as int, end as int).push(cv), ..before.tracks[ti as int] },
            ));
            assert forall|j: int| 0 <= j < prev.push(cv).len() implies clip_fits(#[trigger] prev.push(cv)[j]) by {
                if j < prev.len() {
                    assert(prev.push(cv)[j] == prev[j]);
                }
            }
            assert forall|j: int| 0 <= j < tl@.tracks.len() implies all_fit(#[trigger] tl@.tracks[j].clips) by {
                if j != ti as int {
                    assert(tl@.tracks[j] == before.tracks[j]);
                }
            }
        }
        k = k + 1;
    }
    assert(es.take(k as int) =~= es);
    Some(ids)
}

/// Whether some entry lands on track `j`.
fn is_touched(parsed: &Vec<TextEntry>, created: bool, j: usize) -> (r: bool)
    requires
        !created ==> forall|j: int| 0 <= j < parsed@.len() ==> (#[trigger] parsed@[j]).track_index is Some,
    ensures
        r == touched(text_views(parsed@), created, j as int),
{
    let ghost es = text_views(parsed@);
    let mut k: usize = 0;
    while k < parsed.len()
        invariant
            0 <= k <= parsed@.len(),
            es == text_views(parsed@),
            !created ==> forall|j: int| 0 <= j < parsed@.len() ==> (#[trigger] parsed@[j]).track_index is Some,
            forall|x: int| 0 <= x < k ==> text_track(#[trigger] es[x], created) != j as int,
        decreases parsed.len() - k,
    {
        assert(es[k as int] == parsed@[k as int]@);
        let hit = if created {
            j == 0
        } else {
            match parsed[k].track_index {
                Some(t) => t == j,
                None => false,
            }
        };
        if hit {
            assert(text_track(es[k as int], created) == j as int);
            return true;
        }
        k = k + 1;
    }
    false
}

/// Sorts every track that got a text clip.
fn sort_touched_tracks(tl: &mut Timeline, parsed: &Vec<TextEntry>, created: bool)
    requires
        timeline_fits(old(tl)@),
        !created ==> forall|j: int| 0 <= j < parsed@.len() ==> (#[trigger] parsed@[j]).track_index is Some,

    ensures
        final(tl)@ == (TimelineView { tracks: sort_touched(old(tl)@.tracks, text_views(parsed@), created), ..old(tl)@ }),
        timeline_fits(final(tl)@),
{
    let ghost t0 = tl@;
    let ghost es = text_views(parsed@);
    let n = tl.tracks.len();
    let mut j: usize = 0;
    while j < n
        invariant
            0 <= j <= n,
            n == t0.tracks.len(),
            tl.tracks@.len() == n,
            tl@.tracks.len() == n,
            es == text_views(parsed@),
            !created ==> forall|j: int| 0 <= j < parsed@.len() ==> (#[trigger] parsed@[j]).track_index is Some,
            timeline_fits(t0),
            tl@ == (TimelineView { tracks: tl@.tracks, ..t0 }),
            forall|x: int| 0 <= x < j ==> #[trigger] tl@.tracks[x] == sort_touched(t0.tracks, es, created)[x],
            forall|x: int| j <= x < n ==> #[trigger] tl@.tracks[x] == t0.tracks[x],
        decreases n - j,
    {
        if is_touched(parsed, created, j) {
            let clips = tl.take_clips(j);
            let sorted = sort_clips(clips);
            tl.put_clips(j, sorted);
        }
        j = j + 1;
    }
    assert(tl@.tracks =~= sort_touched(t0.tracks, es, created));
    assert forall|x: int| 0 <= x < tl@.tracks.len() implies all_fit(#[trigger] tl@.tracks[x].clips) by {
        assert(all_fit(t0.tracks[x].clips));
        crate::edit::lemma_sort_fits(t0.tracks[x].clips);
    }
}

#[verifier::rlimit(60)]
#[verifier::spinoff_prover]
fn apply_texts(s: &mut EditorState, parsed: Vec<TextEntry>) -> (r: ToolOutcome)
    requires
        timeline_fits(old(s)@.timeline),
        parsed@.len() > 0,
        forall|j: int| 0 <= j < parsed@.len() ==> text_ok(#[trigger] parsed@[j], old(s)@.timeline.tracks.len()),
    ensures
        match add_text_entries_effect(old(s)@, text_views(parsed@)) {
            None => r is Error && final(s)@ == old(s)@,
            Some(n) => final(s)@ == n && (r matches ToolOutcome::Text(m) && m@ == texts_message(old(s)@, text_views(parsed@))),
        },
{
    proof { crate::model::lemma_editor_view(*s); }
    let ghost es = text_views(parsed@);
    let n = parsed.len();
    let mut omitted: usize = 0;
    let mut k: usize = 0;
    while k < n
        invariant
            0 <= k <= n,
            n == parsed@.len(),
            es == text_views(parsed@),
            omitted <= k,
            (omitted == 0) == (forall|j: int| 0 <= j < k ==> (#[trigger] es[j]).track_index is Some),
            (omitted == k) == (forall|j: int| 0 <= j < k ==> (#[trigger] es[j]).track_index is None),
        decreases n - k,
    {
        assert(es[k as int] == parsed@[k as int]@);
        if parsed[k].track_index.is_none() {
            assert(!(forall|j: int| 0 <= j < k + 1 ==> (#[trigger] es[j]).track_index is Some));
            if omitted < k {
                assert(!(forall|j: int| 0 <= j < k ==> (#[trigger] es[j]).track_index is None));
            }
            omitted = omitted + 1;
        } else {
            if omitted > 0 {
                assert(!(forall|j: int| 0 <= j < k ==> (#[trigger] es[j]).track_index is Some));
            }
            assert(!(forall|j: int| 0 <= j < k + 1 ==> (#[trigger] es[j]).track_index is None));
        }
        k = k + 1;
    }
    if omitted != 0 && omitted != n {
        return err(string_of("Mixed trackIndex: either set on every entry or omit on every entry."));
    }
    let created = omitted == n;
    if s.id_counter == u64::MAX || (created && (n as u64) >= u64::MAX - s.id_counter) || (!created && (n as u64)
        > u64::MAX - s.id_counter) {
        proof {
            let c0: nat = if created { (s@.id_counter + 1) as nat } else { s@.id_counter as nat };
            assert(c0 + es.len() > u64::MAX);
        }
        return overflow_error();
    }
    let mut tl = s.timeline.duplicate();
    let mut counter = s.id_counter;
    if created {
        counter = counter + 1;
        let id = minted("track", counter);
        let tr = Track::new(id, ClipType::Video);
        let ghost tv = tr@;
        let ghost t0 = tl@;
        tl.tracks.insert(0, tr);
        assert(tl@.tracks =~= t0.tracks.insert(0, tv));
    }
    let ghost tracks = tl@.tracks;
    assert(timeline_fits(tl@)) by {
        assert forall|j: int| 0 <= j < tl@.tracks.len() implies all_fit(#[trigger] tl@.tracks[j].clips) by {
            if created && j > 0 {
                assert(tl@.tracks[j] == s@.timeline.tracks[j - 1]);
            } else if !created {
                assert(tl@.tracks[j] == s@.timeline.tracks[j]);
            }
        }
    }
    assert forall|j: int| 0 <= j < parsed@.len() implies (#[trigger] parsed@[j]).start >= 0 && parsed@[j].duration >= 1 by {
        assert(text_ok(parsed@[j], s@.timeline.tracks.len()));
    }
    assert forall|j: int| 0 <= j < parsed@.len() implies 0 <= #[trigger] text_track(parsed@[j]@, created) < tracks.len() by {
        assert(text_ok(parsed@[j], s@.timeline.tracks.len()));
        assert(es[j] == parsed@[j]@);
        if !created {
            assert(es[j].track_index is Some);
        }
    }
    assert(!created ==> forall|j: int| 0 <= j < parsed@.len() ==> (#[trigger] parsed@[j]).track_index is Some) by {
        if !created {
            assert forall|j: int| 0 <= j < parsed@.len() implies (#[trigger] parsed@[j]).track_index is Some by {
                assert(es[j] == parsed@[j]@);
                assert(es[j].track_index is Some);
            }
        }
    }
    let ids = match place_text_clips(&mut tl, &parsed, created, counter) {
        Some(ids) => ids,
        None => return overflow_error(),
    };
    let ghost placed = tl@.tracks;
    sort_touched_tracks(&mut tl, &parsed, created);
    assert(tl@.tracks == sort_touched(placed, es, created));
    let name = if n == 1 { string_of("Add Text (Agent)") } else { string_of("Add Texts (Agent)") };
    commit(s, name, tl);
    proof { crate::model::lemma_editor_view(*s); }
    s.id_counter = counter + n as u64;
    proof { crate::model::lemma_editor_view(*s); }
    let mut m = string_of("");
    proof { reveal_strlit(""); }
    if created {
        push_str(&mut m, "Created track 0 ('Video', video). ");
    }
    push_str(&mut m, "Added ");
    push_usize(&mut m, n);
    push_str(&mut m, if n == 1 { " text clip: " } else { " text clips: " });
    push_str(&mut m, ids.as_str());
    ok(m)
}

pub fn tool_add_texts(s: &mut EditorState, args: &JsonValue) -> (r: ToolOutcome)
    requires
        timeline_fits(old(s)@.timeline),
    ensures
        add_texts_outcome(old(s)@, args@, r, final(s)@),
{
    let entries = match arg_array(args, "entries") {
        Some(a) => a,
        None => return err(string_of("Missing or empty 'entries' array")),
    };
    if entries.len() == 0 {
        return err(string_of("Missing or empty 'entries' array"));
    }
    let parsed = match read_text_entries(entries, s) {
        Ok(v) => v,
        Err(m) => return err(m),
    };
    apply_texts(s, parsed)
}

} // verus!
