//! The `set_clip_properties` tool.

use vstd::prelude::*;
use crate::clip_type::{Alignment, ClipType};
use crate::color::spec_parse_hex;
use crate::json::{Json, JsonValue};
use crate::model::{Clip, ClipView, EditorState, EditorView, TextStyle, TextStyleView, Timeline, TimelineView, Transform, TrackView, default_text_style, spec_find_clip, with_clips};
use crate::reals::Real;
use crate::text::{dec_nat, push_str, push_usize, str_eq, string_of};
use crate::tools::args::{
    ToolOutcome, arg_opt_f64, arg_opt_i64, arg_opt_str, arg_str_array, cat2, cat3, err, ok, spec_arg_f64,
    spec_arg_int, spec_arg_str, spec_arg_str_array, str_array_error,
};
use crate::tools::remove_clips::first_missing_clip;
use crate::tools::remove_clips::{all_found, strs};
use crate::tools::timeline::{edited, overflow_error};

verus! {

/// The optional properties of a `set_clip_properties` call.
pub struct Props {
    pub duration: Option<i64>,
    pub trim_start: Option<i64>,
    pub trim_end: Option<i64>,
    pub speed: Option<Real>,
    pub volume: Option<Real>,
    pub opacity: Option<Real>,
    pub transform: Option<JsonValue>,
    pub content: Option<String>,
    pub font_name: Option<String>,
    pub font_size: Option<Real>,
    pub color: Option<String>,
    pub alignment: Option<String>,
}

pub ghost struct PropsView {
    pub duration: Option<i64>,
    pub trim_start: Option<i64>,
    pub trim_end: Option<i64>,
    pub speed: Option<Real>,
    pub volume: Option<Real>,
    pub opacity: Option<Real>,
    pub transform: Option<Json>,
    pub content: Option<Seq<char>>,
    pub font_name: Option<Seq<char>>,
    pub font_size: Option<Real>,
    pub color: Option<Seq<char>>,
    pub alignment: Option<Seq<char>>,
}

impl View for Props {
    type V = PropsView;

    open spec fn view(&self) -> PropsView {
        PropsView {
            duration: self.duration,
            trim_start: self.trim_start,
            trim_end: self.trim_end,
            speed: self.speed,
            volume: self.volume,
            opacity: self.opacity,
            transform: crate::model::opt_json(self.transform),
            content: crate::model::opt_str(self.content),
            font_name: crate::model::opt_str(self.font_name),
            font_size: self.font_size,
            color: crate::model::opt_str(self.color),
            alignment: crate::model::opt_str(self.alignment),
        }
    }
}

/// The properties as the call gives them.
pub open spec fn props_of(args: Json) -> PropsView {
    PropsView {
        duration: spec_arg_int(args, "durationFrames"@),
        trim_start: spec_arg_int(args, "trimStartFrame"@),
        trim_end: spec_arg_int(args, "trimEndFrame"@),
        speed: spec_arg_f64(args, "speed"@),
        volume: spec_arg_f64(args, "volume"@),
        opacity: spec_arg_f64(args, "opacity"@),
        transform: args.get("transform"@),
        content: spec_arg_str(args, "content"@),
        font_name: spec_arg_str(args, "fontName"@),
        font_size: spec_arg_f64(args, "fontSize"@),
        color: spec_arg_str(args, "color"@),
        alignment: spec_arg_str(args, "alignment"@),
    }
}

pub open spec fn has_style_field(p: PropsView) -> bool {
    p.font_name is Some || p.font_size is Some || p.color is Some || p.alignment is Some
}

pub open spec fn has_text_field(p: PropsView) -> bool {
    p.content is Some || has_style_field(p)
}

/// The colour and alignment, when given, are valid.
pub open spec fn style_valid(p: PropsView) -> bool {
    &&& p.color matches Some(h) ==> spec_parse_hex(h) is Some
    &&& p.alignment matches Some(a) ==> (a == "left"@ || a == "center"@ || a == "right"@)
}

/// A member of the transform patch read as a float, else the old value.
pub open spec fn patched_real(patch: Json, key: Seq<char>, old: Real) -> Real {
    match patch.get(key) {
        Some(v) => match v.as_f64() {
            Some(x) => x,
            None => old,
        },
        None => old,
    }
}

pub open spec fn patched_bool(patch: Json, key: Seq<char>, old: bool) -> bool {
    match patch.get(key) {
        Some(v) => match v.as_bool() {
            Some(x) => x,
            None => old,
        },
        None => old,
    }
}

pub open spec fn patch_transform(t: Transform, patch: Json) -> Transform {
    Transform {
        center_x: patched_real(patch, "centerX"@, t.center_x),
        center_y: patched_real(patch, "centerY"@, t.center_y),
        width: patched_real(patch, "width"@, t.width),
        height: patched_real(patch, "height"@, t.height),
        flip_horizontal: patched_bool(patch, "flipHorizontal"@, t.flip_horizontal),
        flip_vertical: patched_bool(patch, "flipVertical"@, t.flip_vertical),
        ..t
    }
}

/// Whether `speed` is applied: it is a positive finite number.
pub open spec fn speed_applied(p: PropsView) -> bool {
    p.speed matches Some(sp) && sp.spec_gt_zero() && sp.spec_is_finite()
}

/// The timeline length a clip is given: `durationFrames` when it is at
/// least 1; without `durationFrames`, when a speed is applied, `r` (the
/// clip's length rescaled to keep its source content at the new speed,
/// worked out by the caller) when it is at least 1; else no change.
pub open spec fn new_length(p: PropsView, r: i64) -> Option<i64> {
    match p.duration {
        Some(d) => if d >= 1 { Some(d) } else { None },
        None => if speed_applied(p) && r >= 1 { Some(r) } else { None },
    }
}

/// Every property but the text style applied to `c`: the length as
/// [`new_length`] says (`r` is the clip's rescaled length), trims raised to
/// 0, a speed that is not a positive finite number ignored, volume and
/// opacity clamped to [0, 1], clearing their keyframes.
#[verifier::opaque]
pub open spec fn patch_base(c: ClipView, p: PropsView, r: i64) -> ClipView {
    let c1 = match new_length(p, r) {
        Some(n) => ClipView { duration_frames: n, ..c },
        None => c,
    };
    let c2 = match p.trim_start {
        Some(t) => ClipView { trim_start_frame: if t > 0 { t } else { 0 }, ..c1 },
        None => c1,
    };
    let c3 = match p.trim_end {
        Some(t) => ClipView { trim_end_frame: if t > 0 { t } else { 0 }, ..c2 },
        None => c2,
    };
    let c4 = if speed_applied(p) { ClipView { speed: p.speed->0, ..c3 } } else { c3 };
    let c5 = match p.volume {
        Some(v) => ClipView { volume: v.spec_clamp_unit(), volume_track: None, ..c4 },
        None => c4,
    };
    let c6 = match p.opacity {
        Some(o) => ClipView { opacity: o.spec_clamp_unit(), opacity_track: None, ..c5 },
        None => c5,
    };
    let c7 = match p.transform {
        Some(patch) => ClipView { transform: patch_transform(c6.transform, patch), ..c6 },
        None => c6,
    };
    match p.content {
        Some(x) => ClipView { text_content: Some(x), ..c7 },
        None => c7,
    }
}

pub open spec fn spec_alignment(a: Seq<char>) -> Alignment {
    if a == "left"@ {
        Alignment::Left
    } else if a == "right"@ {
        Alignment::Right
    } else {
        Alignment::Center
    }
}

/// The clip's style (or the default) with the style properties applied.
pub open spec fn patch_style(st: Option<TextStyleView>, p: PropsView) -> TextStyleView {
    let b = match st {
        Some(x) => x,
        None => default_text_style(),
    };
    TextStyleView {
        font_name: match p.font_name {
            Some(f) => f,
            None => b.font_name,
        },
        font_size: match p.font_size {
            Some(z) => z,
            None => b.font_size,
        },
        color: match p.color {
            Some(h) => match spec_parse_hex(h) {
                Some(c) => c,
                None => b.color,
            },
            None => b.color,
        },
        alignment: match p.alignment {
            Some(a) => spec_alignment(a),
            None => b.alignment,
        },
        ..b
    }
}

/// Every property applied to `c`.
#[verifier::opaque]
pub open spec fn patch_clip(c: ClipView, p: PropsView, r: i64) -> ClipView {
    let b = patch_base(c, p, r);
    if has_style_field(p) {
        ClipView { text_style: Some(patch_style(b.text_style, p)), ..b }
    } else {
        b
    }
}

/// Whether `(i, j)` is one of the locations.
pub open spec fn listed_loc(locs: Seq<(usize, usize)>, i: int, j: int) -> bool {
    exists|k: int| 0 <= k < locs.len() && (#[trigger] locs[k]).0 as int == i && locs[k].1 as int == j
}

/// The caller's rescaled lengths as plain values, one row per track.
pub open spec fn grid(g: Seq<Vec<i64>>) -> Seq<Seq<i64>> {
    g.map_values(|v: Vec<i64>| v@)
}

/// One rescaled length for every clip of `t`, track by track.
pub open spec fn fits_grid(t: TimelineView, g: Seq<Seq<i64>>) -> bool {
    &&& g.len() == t.tracks.len()
    &&& forall|i: int| 0 <= i < g.len() ==> (#[trigger] g[i]).len() == t.tracks[i].clips.len()
}

/// `t` with the clip at each listed location patched, `g` giving each
/// clip's rescaled length.
#[verifier::opaque]
pub open spec fn patch_at(t: TimelineView, locs: Seq<(usize, usize)>, p: PropsView, g: Seq<Seq<i64>>) -> TimelineView {
    TimelineView {
        tracks: Seq::new(
            t.tracks.len(),
            |i: int|
                TrackView {
                    clips: Seq::new(
                        t.tracks[i].clips.len(),
                        |j: int|
                            if listed_loc(locs, i, j) {
                                patch_clip(t.tracks[i].clips[j], p, g[i][j])
                            } else {
                                t.tracks[i].clips[j]
                            },
                    ),
                    ..t.tracks[i]
                },
        ),
        ..t
    }
}

/// Where each listed clip is.
pub open spec fn locations(t: TimelineView, ids: Seq<Seq<char>>) -> Seq<(usize, usize)> {
    ids.map_values(|id: Seq<char>| spec_find_clip(t, id)->0)
}

/// The summary of a successful `set_clip_properties`: how many clips it
/// updated.
pub open spec fn props_message(args: Json) -> Seq<char> {
    let n = spec_arg_str_array(args, "clipIds"@)->0.len();
    "Updated "@ + dec_nat(n) + if n == 1 { " clip."@ } else { " clips."@ }
}

/// Everything `set_clip_properties` answers and leaves: the effect and
/// summary, and the message for a bad id list, the first id that names no
/// clip, text-only fields on a non-text clip, or an invalid text style.
pub open spec fn props_outcome(s: EditorView, args: Json, g: Seq<Seq<i64>>, r: ToolOutcome, n: EditorView) -> bool {
    &&& (r is Error) == set_props_effect(s, args, g).0
    &&& n == set_props_effect(s, args, g).1
    &&& !set_props_effect(s, args, g).0 ==> (r matches ToolOutcome::Text(m) && m@ == props_message(args))
    &&& match spec_arg_str_array(args, "clipIds"@) {
        None => r matches ToolOutcome::Error(m) && m@ == str_array_error(args, "clipIds"@),
        Some(ids) => if ids.len() == 0 {
            r matches ToolOutcome::Error(m) && m@ == "Missing or empty 'clipIds' array"@
        } else if first_missing_clip(s.timeline, ids) is Some {
            r matches ToolOutcome::Error(m) && m@ == "Clip not found: "@ + ids[first_missing_clip(s.timeline, ids)->0]
        } else {
            let locs = locations(s.timeline, ids);
            let p = props_of(args);
            let non_text = has_text_field(p) && (exists|k: int|
                0 <= k < locs.len() && s.timeline.tracks[(#[trigger] locs[k]).0 as int].clips[locs[k].1 as int].media_type
                    != ClipType::Text);
            &&& non_text ==> (r matches ToolOutcome::Error(m) && m@
                == "Text-only fields (content, fontName, fontSize, color, alignment) cannot be applied to non-text clips."@)
            &&& (!non_text && !overlong(s.timeline, locs, p, g) && has_style_field(p) && !style_valid(p)) ==> (r matches ToolOutcome::Error(m) && m@
                == style_error_message(p, p.color matches Some(h) ==> spec_parse_hex(h) is Some))
        },
    }
}

/// Some listed clip would end past `i64::MAX` with its new length.
pub open spec fn too_long(t: TimelineView, locs: Seq<(usize, usize)>, p: PropsView, g: Seq<Seq<i64>>) -> bool {
    exists|k: int|
        0 <= k < locs.len() && (new_length(p, g[(#[trigger] locs[k]).0 as int][locs[k].1 as int]) matches Some(n)
            && t.tracks[locs[k].0 as int].clips[locs[k].1 as int].start_frame + n > i64::MAX)
}

/// Clip `(i, j)` is not listed but shares its link group with a listed
/// clip: a linked partner of one.
pub open spec fn partner_loc(t: TimelineView, locs: Seq<(usize, usize)>, i: int, j: int) -> bool {
    &&& !listed_loc(locs, i, j)
    &&& t.tracks[i].clips[j].link_group_id is Some
    &&& exists|k: int|
        0 <= k < locs.len() && t.tracks[(#[trigger] locs[k]).0 as int].clips[locs[k].1 as int].link_group_id
            == t.tracks[i].clips[j].link_group_id
}

/// `v` lists exactly the linked partners of the listed clips that are text
/// clips (when `text`) or that are not.
pub open spec fn lists_partners(t: TimelineView, locs: Seq<(usize, usize)>, v: Seq<(usize, usize)>, text: bool) -> bool {
    &&& locs_valid(t, v)
    &&& forall|i: int, j: int|
        0 <= i < t.tracks.len() && 0 <= j < t.tracks[i].clips.len() ==> (#[trigger] listed_loc(v, i, j) <==> (partner_loc(
            t,
            locs,
            i,
            j,
        ) && (t.tracks[i].clips[j].media_type == ClipType::Text) == text))
}

/// The locations of the linked partners of the listed clips, text clips
/// (when `text`) or the others.
pub open spec fn partners(t: TimelineView, locs: Seq<(usize, usize)>, text: bool) -> Seq<(usize, usize)> {
    choose|v: Seq<(usize, usize)>| lists_partners(t, locs, v, text)
}

/// The timing properties a linked partner takes on: the length, and for a
/// partner that is not a text clip the trims and the speed too.
pub open spec fn timing_props(p: PropsView, text: bool) -> PropsView {
    PropsView {
        duration: p.duration,
        trim_start: if text { None } else { p.trim_start },
        trim_end: if text { None } else { p.trim_end },
        speed: if text { None } else { p.speed },
        volume: None,
        opacity: None,
        transform: None,
        content: None,
        font_name: None,
        font_size: None,
        color: None,
        alignment: None,
    }
}

/// Some listed clip, or some linked partner of one, would end past
/// `i64::MAX` with its new length.
pub open spec fn overlong(t: TimelineView, locs: Seq<(usize, usize)>, p: PropsView, g: Seq<Seq<i64>>) -> bool {
    ||| too_long(t, locs, p, g)
    ||| too_long(t, partners(t, locs, false), timing_props(p, false), g)
    ||| too_long(t, partners(t, locs, true), timing_props(p, true), g)
}

/// `t` with every listed clip patched and the timing carried over to their
/// linked partners.
pub open spec fn patch_linked(t: TimelineView, locs: Seq<(usize, usize)>, p: PropsView, g: Seq<Seq<i64>>) -> TimelineView {
    let t1 = patch_at(t, locs, p, g);
    let t2 = patch_at(t1, partners(t, locs, false), timing_props(p, false), g);
    patch_at(t2, partners(t, locs, true), timing_props(p, true), g)
}

/// What `set_clip_properties` does: whether it reports an error, and the
/// state after it. Clip ids, text fields on non-text clips, an overlong
/// length and the text style are all checked before anything changes, so
/// an error leaves the state as it was. The length, trims and speed carry
/// over to each listed clip's linked partners (only the length to a text
/// partner). `g` holds every clip's length rescaled to the requested speed.
pub open spec fn set_props_effect(s: EditorView, args: Json, g: Seq<Seq<i64>>) -> (bool, EditorView) {
    match spec_arg_str_array(args, "clipIds"@) {
        None => (true, s),
        Some(ids) => if ids.len() == 0 || !all_found(s.timeline, ids) {
            (true, s)
        } else {
            let p = props_of(args);
            let locs = locations(s.timeline, ids);
            if has_text_field(p) && exists|k: int|
                0 <= k < locs.len() && s.timeline.tracks[(#[trigger] locs[k]).0 as int].clips[locs[k].1 as int].media_type
                    != ClipType::Text {
                (true, s)
            } else if overlong(s.timeline, locs, p, g) {
                (true, s)
            } else {
                if has_style_field(p) && !style_valid(p) {
                    (true, s)
                } else {
                    let s1 = edited(s, "Set Clip Properties (Agent)"@, s.timeline);
                    (false, EditorView { timeline: patch_linked(s.timeline, locs, p, g), ..s1 })
                }
            }
        },
    }
}

// ---------------------------------------------------------------------------
// Execution
// ---------------------------------------------------------------------------

fn opt_string(v: Option<&String>) -> (r: Option<String>)
    ensures
        crate::model::opt_str(r) == match v {
            Some(x) => Some(x@),
            None => None::<Seq<char>>,
        },
{
    match v {
        Some(x) => Some(x.clone()),
        None => None,
    }
}

fn read_props(args: &JsonValue) -> (r: Props)
    ensures
        r@ == props_of(args@),
{
    let transform = match args.get("transform") {
        Some(v) => Some(v.duplicate()),
        None => None,
    };
    Props {
        duration: arg_opt_i64(args, "durationFrames"),
        trim_start: arg_opt_i64(args, "trimStartFrame"),
        trim_end: arg_opt_i64(args, "trimEndFrame"),
        speed: arg_opt_f64(args, "speed"),
        volume: arg_opt_f64(args, "volume"),
        opacity: arg_opt_f64(args, "opacity"),
        transform,
        content: opt_string(arg_opt_str(args, "content")),
        font_name: opt_string(arg_opt_str(args, "fontName")),
        font_size: arg_opt_f64(args, "fontSize"),
        color: opt_string(arg_opt_str(args, "color")),
        alignment: opt_string(arg_opt_str(args, "alignment")),
    }
}

fn patch_real(patch: &JsonValue, key: &str, old: Real) -> (r: Real)
    ensures
        r == patched_real(patch@, key@, old),
{
    match patch.get(key) {
        Some(v) => match v.as_f64() {
            Some(x) => x,
            None => old,
        },
        None => old,
    }
}

fn patch_bool(patch: &JsonValue, key: &str, old: bool) -> (r: bool)
    ensures
        r == patched_bool(patch@, key@, old),
{
    match patch.get(key) {
        Some(v) => match v.as_bool() {
            Some(x) => x,
            None => old,
        },
        None => old,
    }
}

fn patched_transform(t: Transform, patch: &JsonValue) -> (r: Transform)
    ensures
        r == patch_transform(t, patch@),
{
    let mut u = t;
    u.center_x = patch_real(patch, "centerX", t.center_x);
    u.center_y = patch_real(patch, "centerY", t.center_y);
    u.width = patch_real(patch, "width", t.width);
    u.height = patch_real(patch, "height", t.height);
    u.flip_horizontal = patch_bool(patch, "flipHorizontal", t.flip_horizontal);
    u.flip_vertical = patch_bool(patch, "flipVertical", t.flip_vertical);
    u
}

/// Applies every property but the style.
#[verifier::rlimit(50)]
fn apply_base(c: &mut Clip, p: &Props, r: i64)
    ensures
        final(c)@ == patch_base(old(c)@, p@, r),
{
    proof { reveal(patch_base); }
    match length_to_set(p, r) {
        Some(n) => c.duration_frames = n,
        None => {},
    }
    match p.trim_start {
        Some(t) => c.trim_start_frame = if t > 0 { t } else { 0 },
        None => {},
    }
    match p.trim_end {
        Some(t) => c.trim_end_frame = if t > 0 { t } else { 0 },
        None => {},
    }
    match p.speed {
        Some(sp) => if sp.gt_zero() && sp.is_finite() {
            c.speed = sp;
        },
        None => {},
    }
    match p.volume {
        Some(v) => {
            c.volume = v.clamp_unit();
            c.volume_track = None;
        },
        None => {},
    }
    match p.opacity {
        Some(o) => {
            c.opacity = o.clamp_unit();
            c.opacity_track = None;
        },
        None => {},
    }
    match &p.transform {
        Some(patch) => {
            c.transform = patched_transform(c.transform, patch);
        },
        None => {},
    }
    match &p.content {
        Some(x) => c.text_content = Some(x.clone()),
        None => {},
    }
}

fn speed_is_applied(p: &Props) -> (r: bool)
    ensures
        r == speed_applied(p@),
{
    match p.speed {
        Some(sp) => sp.gt_zero() && sp.is_finite(),
        None => false,
    }
}

fn length_to_set(p: &Props, r: i64) -> (n: Option<i64>)
    ensures
        n == new_length(p@, r),
{
    match p.duration {
        Some(d) => if d >= 1 { Some(d) } else { None },
        None => if speed_is_applied(p) && r >= 1 { Some(r) } else { None },
    }
}

fn styled(st: &Option<TextStyle>, p: &Props) -> (r: TextStyle)
    ensures
        r@ == patch_style(crate::model::opt_style(*st), p@),
{
    let mut out = match st {
        Some(x) => x.duplicate(),
        None => TextStyle::default_style(),
    };
    match &p.font_name {
        Some(f) => out.font_name = f.clone(),
        None => {},
    }
    match p.font_size {
        Some(z) => out.font_size = z,
        None => {},
    }
    match &p.color {
        Some(h) => match crate::model::TextStyle::parse_hex(h.as_str()) {
            Some(col) => out.color = col,
            None => {},
        },
        None => {},
    }
    match &p.alignment {
        Some(a) => {
            out.alignment = if str_eq(a.as_str(), "left") {
                Alignment::Left
            } else if str_eq(a.as_str(), "right") {
                Alignment::Right
            } else {
                Alignment::Center
            };
        },
        None => {},
    }
    out
}

/// Applies the properties to `c`.
fn apply_props(c: &mut Clip, p: &Props, r: i64)
    ensures
        final(c)@ == patch_clip(old(c)@, p@, r),
{
    proof { reveal(patch_clip); }
    apply_base(c, p, r);
    if (p.font_name.is_some() || p.font_size.is_some() || p.color.is_some() || p.alignment.is_some()) {
        let st = styled(&c.text_style, p);
        c.text_style = Some(st);
    }
}

/// Listing one more location lists it and keeps the others.
proof fn lemma_listed_push(locs: Seq<(usize, usize)>, loc: (usize, usize))
    ensures
        forall|i: int, j: int| #[trigger] listed_loc(locs.push(loc), i, j) <==> (listed_loc(locs, i, j) || (i
            == loc.0 as int && j == loc.1 as int)),
{
    assert forall|i: int, j: int| #[trigger] listed_loc(locs.push(loc), i, j) <==> (listed_loc(locs, i, j) || (i
        == loc.0 as int && j == loc.1 as int)) by {
        if listed_loc(locs, i, j) {
            let k = choose|k: int| 0 <= k < locs.len() && (#[trigger] locs[k]).0 as int == i && locs[k].1 as int == j;
            assert(locs.push(loc)[k] == locs[k]);
        }
        if i == loc.0 as int && j == loc.1 as int {
            assert(locs.push(loc)[locs.len() as int] == loc);
        }
        if listed_loc(locs.push(loc), i, j) {
            let k = choose|k: int| 0 <= k < locs.push(loc).len() && (#[trigger] locs.push(loc)[k]).0 as int == i
                && locs.push(loc)[k].1 as int == j;
            if k < locs.len() {
                assert(locs.push(loc)[k] == locs[k]);
            }
        }
    }
}

/// Patching goes by which locations are listed, not by how.
proof fn lemma_patch_same(t: TimelineView, v: Seq<(usize, usize)>, w: Seq<(usize, usize)>, p: PropsView, g: Seq<Seq<i64>>)
    requires
        forall|i: int, j: int| 0 <= i < t.tracks.len() && 0 <= j < t.tracks[i].clips.len() ==> (#[trigger] listed_loc(v, i, j) <==> listed_loc(w, i, j)),
    ensures
        patch_at(t, v, p, g) == patch_at(t, w, p, g),
{
    reveal(patch_at);
    let a = patch_at(t, v, p, g);
    let b = patch_at(t, w, p, g);
    assert forall|i: int| 0 <= i < t.tracks.len() implies #[trigger] a.tracks[i] == b.tracks[i] by {
        assert forall|j: int| 0 <= j < t.tracks[i].clips.len() implies #[trigger] a.tracks[i].clips[j] == b.tracks[i].clips[j] by {
            assert(listed_loc(v, i, j) <==> listed_loc(w, i, j));
        }
        assert(a.tracks[i].clips =~= b.tracks[i].clips);
    }
    assert(a.tracks =~= b.tracks);
}

/// Whether a length overflows goes by which locations are listed, not by how.
proof fn lemma_too_long_same(t: TimelineView, v: Seq<(usize, usize)>, w: Seq<(usize, usize)>, p: PropsView, g: Seq<Seq<i64>>)
    requires
        locs_valid(t, v),
        locs_valid(t, w),
        forall|i: int, j: int| 0 <= i < t.tracks.len() && 0 <= j < t.tracks[i].clips.len() ==> (#[trigger] listed_loc(v, i, j) <==> listed_loc(w, i, j)),
    ensures
        too_long(t, v, p, g) == too_long(t, w, p, g),
{
    if too_long(t, v, p, g) {
        let k = choose|k: int|
            0 <= k < v.len() && (new_length(p, g[(#[trigger] v[k]).0 as int][v[k].1 as int]) matches Some(n)
                && t.tracks[v[k].0 as int].clips[v[k].1 as int].start_frame + n > i64::MAX);
        assert(listed_loc(v, v[k].0 as int, v[k].1 as int));
        assert(listed_loc(w, v[k].0 as int, v[k].1 as int));
        let k2 = choose|k2: int| 0 <= k2 < w.len() && (#[trigger] w[k2]).0 as int == v[k].0 as int && w[k2].1 as int == v[k].1 as int;
        assert(w[k2] == v[k]);
    }
    if too_long(t, w, p, g) {
        let k = choose|k: int|
            0 <= k < w.len() && (new_length(p, g[(#[trigger] w[k]).0 as int][w[k].1 as int]) matches Some(n)
                && t.tracks[w[k].0 as int].clips[w[k].1 as int].start_frame + n > i64::MAX);
        assert(listed_loc(w, w[k].0 as int, w[k].1 as int));
        assert(listed_loc(v, w[k].0 as int, w[k].1 as int));
        let k2 = choose|k2: int| 0 <= k2 < v.len() && (#[trigger] v[k2]).0 as int == w[k].0 as int && v[k2].1 as int == w[k].1 as int;
        assert(v[k2] == w[k]);
    }
}

proof fn lemma_patch_step(t0: TimelineView, locs: Seq<(usize, usize)>, loc: (usize, usize), p: PropsView, g: Seq<Seq<i64>>)
    requires
        loc.0 < t0.tracks.len(),
        loc.1 < t0.tracks[loc.0 as int].clips.len(),
    ensures
        ({
            let cur = patch_at(t0, locs, p, g);
            let c = cur.tracks[loc.0 as int].clips[loc.1 as int];
            let nc = patch_clip(c, p, g[loc.0 as int][loc.1 as int]);
            with_clips(cur, loc.0 as int, cur.tracks[loc.0 as int].clips.update(loc.1 as int, nc)) == patch_at(
                t0,
                locs.push(loc),
                p,
                g,
            )
        }),
{
    reveal(patch_at);
    lemma_patch_idem(t0.tracks[loc.0 as int].clips[loc.1 as int], p, g[loc.0 as int][loc.1 as int]);
    let cur = patch_at(t0, locs, p, g);
    let c = cur.tracks[loc.0 as int].clips[loc.1 as int];
    let nc = patch_clip(c, p, g[loc.0 as int][loc.1 as int]);
    let lhs = with_clips(cur, loc.0 as int, cur.tracks[loc.0 as int].clips.update(loc.1 as int, nc));
    let rhs = patch_at(t0, locs.push(loc), p, g);
    lemma_listed_push(locs, loc);
    assert forall|i: int| 0 <= i < lhs.tracks.len() implies #[trigger] lhs.tracks[i] == rhs.tracks[i] by {
        assert forall|j: int| 0 <= j < lhs.tracks[i].clips.len() implies #[trigger] lhs.tracks[i].clips[j] == rhs.tracks[i].clips[j] by {
            assert(listed_loc(locs.push(loc), i, j) <==> (listed_loc(locs, i, j) || (i == loc.0 as int && j == loc.1 as int)));
        }
        assert(lhs.tracks[i].clips =~= rhs.tracks[i].clips);
    }
    assert(lhs.tracks =~= rhs.tracks);
}

proof fn lemma_patch_none(t0: TimelineView, p: PropsView, g: Seq<Seq<i64>>)
    ensures
        patch_at(t0, Seq::empty(), p, g) == t0,
{
    reveal(patch_at);
    let r = patch_at(t0, Seq::empty(), p, g);
    assert forall|a: int| 0 <= a < t0.tracks.len() implies #[trigger] r.tracks[a] == t0.tracks[a] by {
        assert(r.tracks[a].clips =~= t0.tracks[a].clips);
    }
    assert(r.tracks =~= t0.tracks);
}

proof fn lemma_patch_len(t0: TimelineView, locs: Seq<(usize, usize)>, p: PropsView, g: Seq<Seq<i64>>)
    ensures
        patch_at(t0, locs, p, g).tracks.len() == t0.tracks.len(),
        forall|i: int| 0 <= i < t0.tracks.len() ==> #[trigger] patch_at(t0, locs, p, g).tracks[i].clips.len()
            == t0.tracks[i].clips.len(),
{
    reveal(patch_at);
}

proof fn lemma_base_idem(c: ClipView, p: PropsView, r: i64)
    ensures
        patch_base(patch_base(c, p, r), p, r) == patch_base(c, p, r),
        patch_base(c, p, r).text_style == c.text_style,
{
    reveal(patch_base);
}

proof fn lemma_style_idem(st: Option<TextStyleView>, p: PropsView)
    ensures
        patch_style(Some(patch_style(st, p)), p) == patch_style(st, p),
{
}

proof fn lemma_patch_idem(c: ClipView, p: PropsView, r: i64)
    ensures
        patch_clip(patch_clip(c, p, r), p, r) == patch_clip(c, p, r),
        patch_base(patch_base(c, p, r), p, r) == patch_base(c, p, r),
{
    reveal(patch_clip);
    lemma_base_idem(c, p, r);
    let b = patch_base(c, p, r);
    if has_style_field(p) {
        let pc = ClipView { text_style: Some(patch_style(b.text_style, p)), ..b };
        lemma_base_idem(pc, p, r);
        lemma_style_idem(b.text_style, p);
        assert(patch_base(pc, p, r) == ClipView { text_style: Some(patch_style(b.text_style, p)), ..patch_base(b, p, r) }) by {
            reveal(patch_base);
        }
    }
}

pub open spec fn locs_valid(t: TimelineView, locs: Seq<(usize, usize)>) -> bool {
    forall|j: int| 0 <= j < locs.len() ==> (#[trigger] locs[j]).0 < t.tracks.len() && locs[j].1 < t.tracks[locs[j].0 as int].clips.len()
}

fn find_locations(t: &Timeline, ids: &Vec<String>) -> (r: Result<Vec<(usize, usize)>, String>)
    ensures
        r is Ok <==> all_found(t@, strs(ids@)),
        r matches Err(m) ==> crate::tools::remove_clips::first_missing_clip(t@, strs(ids@)) matches Some(k) && m@ == "Clip not found: "@
            + strs(ids@)[k],
        r matches Ok(v) ==> v@ == locations(t@, strs(ids@)) && locs_valid(t@, v@),
{
    let ghost iv = strs(ids@);
    let mut locs: Vec<(usize, usize)> = Vec::new();
    let mut i: usize = 0;
    while i < ids.len()
        invariant
            0 <= i <= ids@.len(),
            iv == strs(ids@),
            locs@.len() == i,
            forall|k: int| 0 <= k < i ==> (#[trigger] spec_find_clip(t@, iv[k])) is Some,
            forall|k: int| 0 <= k < i ==> #[trigger] locs@[k] == spec_find_clip(t@, iv[k])->0,
            locs_valid(t@, locs@),
        decreases ids.len() - i,
    {
        assert(iv[i as int] == ids@[i as int]@);
        match t.find_clip(ids[i].as_str()) {
            Some(loc) => locs.push(loc),
            None => {
                assert(!all_found(t@, iv));
                proof { crate::tools::args::lemma_first_where(iv, |x: Seq<char>| spec_find_clip(t@, x) is None, i as int); }
                return Err(cat2("Clip not found: ", ids[i].as_str()));
            },
        }
        i = i + 1;
    }
    assert(locs@ =~= locations(t@, iv));
    Ok(locs)
}

fn any_non_text(t: &Timeline, locs: &Vec<(usize, usize)>) -> (r: bool)
    requires
        locs_valid(t@, locs@),
    ensures
        r == exists|k: int| 0 <= k < locs@.len() && t@.tracks[(#[trigger] locs@[k]).0 as int].clips[locs@[k].1 as int].media_type
            != ClipType::Text,
{
    let mut k: usize = 0;
    while k < locs.len()
        invariant
            0 <= k <= locs@.len(),
            locs_valid(t@, locs@),
            forall|j: int| 0 <= j < k ==> t@.tracks[(#[trigger] locs@[j]).0 as int].clips[locs@[j].1 as int].media_type == ClipType::Text,
        decreases locs.len() - k,
    {
        let (ti, ci) = locs[k];
        assert(t@.tracks[ti as int].clips[ci as int] == t.tracks@[ti as int].clips@[ci as int]@);
        if t.tracks[ti].clips[ci].media_type != ClipType::Text {
            assert(locs@[k as int] == (ti, ci));
            return true;
        }
        k = k + 1;
    }
    false
}

fn any_too_long(t: &Timeline, locs: &Vec<(usize, usize)>, p: &Props, g: &Vec<Vec<i64>>) -> (r: bool)
    requires
        locs_valid(t@, locs@),
        fits_grid(t@, grid(g@)),
    ensures
        r == too_long(t@, locs@, p@, grid(g@)),
{
    let ghost gv = grid(g@);
    let mut k: usize = 0;
    while k < locs.len()
        invariant
            0 <= k <= locs@.len(),
            locs_valid(t@, locs@),
            gv == grid(g@),
            fits_grid(t@, gv),
            forall|j: int|
                0 <= j < k ==> !(new_length(p@, gv[(#[trigger] locs@[j]).0 as int][locs@[j].1 as int]) matches Some(n)
                    && t@.tracks[locs@[j].0 as int].clips[locs@[j].1 as int].start_frame + n > i64::MAX),
        decreases locs.len() - k,
    {
        let (ti, ci) = locs[k];
        assert(locs@[k as int] == (ti, ci));
        assert(t@.tracks[ti as int].clips[ci as int] == t.tracks@[ti as int].clips@[ci as int]@);
        assert(gv[ti as int] == g@[ti as int]@);
        assert(g@[ti as int]@.len() == t@.tracks[ti as int].clips.len());
        let r = g[ti][ci];
        assert(r == gv[ti as int][ci as int]);
        let st = t.tracks[ti].clips[ci].start_frame;
        match length_to_set(p, r) {
            Some(n) => if st.checked_add(n).is_none() {
                return true;
            },
            None => {},
        }
        k = k + 1;
    }
    false
}

/// Whether `(i, j)` is one of the locations.
fn is_listed(locs: &Vec<(usize, usize)>, i: usize, j: usize) -> (r: bool)
    ensures
        r == listed_loc(locs@, i as int, j as int),
{
    let mut k: usize = 0;
    while k < locs.len()
        invariant
            0 <= k <= locs@.len(),
            forall|m: int| 0 <= m < k ==> !((#[trigger] locs@[m]).0 == i && locs@[m].1 == j),
        decreases locs.len() - k,
    {
        if locs[k].0 == i && locs[k].1 == j {
            assert(locs@[k as int].0 as int == i as int && locs@[k as int].1 as int == j as int);
            return true;
        }
        k = k + 1;
    }
    false
}

/// Whether some listed clip is in link group `gid`.
fn group_listed(t: &Timeline, locs: &Vec<(usize, usize)>, gid: &String) -> (r: bool)
    requires
        locs_valid(t@, locs@),
    ensures
        r == exists|k: int|
            0 <= k < locs@.len() && t@.tracks[(#[trigger] locs@[k]).0 as int].clips[locs@[k].1 as int].link_group_id
                == Some(gid@),
{
    let mut k: usize = 0;
    while k < locs.len()
        invariant
            0 <= k <= locs@.len(),
            locs_valid(t@, locs@),
            forall|m: int| 0 <= m < k ==> t@.tracks[(#[trigger] locs@[m]).0 as int].clips[locs@[m].1 as int].link_group_id
                != Some(gid@),
        decreases locs.len() - k,
    {
        let (ti, ci) = locs[k];
        assert(locs@[k as int] == (ti, ci));
        assert(t@.tracks[ti as int].clips[ci as int] == t.tracks@[ti as int].clips@[ci as int]@);
        let same = match &t.tracks[ti].clips[ci].link_group_id {
            Some(x) => str_eq(x.as_str(), gid.as_str()),
            None => false,
        };
        if same {
            return true;
        }
        k = k + 1;
    }
    false
}

/// The locations of the listed clips' linked partners: those that are not
/// text clips, and those that are.
#[verifier::rlimit(40)]
fn collect_partners(t: &Timeline, locs: &Vec<(usize, usize)>) -> (r: (Vec<(usize, usize)>, Vec<(usize, usize)>))
    requires
        locs_valid(t@, locs@),
    ensures
        lists_partners(t@, locs@, r.0@, false),
        lists_partners(t@, locs@, r.1@, true),
{
    let mut others: Vec<(usize, usize)> = Vec::new();
    let mut texts: Vec<(usize, usize)> = Vec::new();
    let mut i: usize = 0;
    while i < t.tracks.len()
        invariant
            0 <= i <= t@.tracks.len(),
            t.tracks@.len() == t@.tracks.len(),
            locs_valid(t@, locs@),
            locs_valid(t@, others@),
            locs_valid(t@, texts@),
            forall|a: int, b: int| 0 <= a < t@.tracks.len() && 0 <= b < t@.tracks[a].clips.len() ==> (#[trigger] listed_loc(others@, a, b)
                <==> (a < i && partner_loc(t@, locs@, a, b) && t@.tracks[a].clips[b].media_type != ClipType::Text)),
            forall|a: int, b: int| 0 <= a < t@.tracks.len() && 0 <= b < t@.tracks[a].clips.len() ==> (#[trigger] listed_loc(texts@, a, b)
                <==> (a < i && partner_loc(t@, locs@, a, b) && t@.tracks[a].clips[b].media_type == ClipType::Text)),
        decreases t.tracks.len() - i,
    {
        let mut j: usize = 0;
        assert(t@.tracks[i as int] == t.tracks@[i as int]@);
        while j < t.tracks[i].clips.len()
            invariant
                0 <= i < t@.tracks.len(),
                t.tracks@.len() == t@.tracks.len(),
                t@.tracks[i as int] == t.tracks@[i as int]@,
                0 <= j <= t@.tracks[i as int].clips.len(),
                locs_valid(t@, locs@),
                locs_valid(t@, others@),
                locs_valid(t@, texts@),
                forall|a: int, b: int| 0 <= a < t@.tracks.len() && 0 <= b < t@.tracks[a].clips.len() ==> (#[trigger] listed_loc(others@, a, b)
                    <==> ((a < i || (a == i && b < j)) && partner_loc(t@, locs@, a, b) && t@.tracks[a].clips[b].media_type != ClipType::Text)),
                forall|a: int, b: int| 0 <= a < t@.tracks.len() && 0 <= b < t@.tracks[a].clips.len() ==> (#[trigger] listed_loc(texts@, a, b)
                    <==> ((a < i || (a == i && b < j)) && partner_loc(t@, locs@, a, b) && t@.tracks[a].clips[b].media_type == ClipType::Text)),
            decreases t.tracks@[i as int].clips@.len() - j,
        {
            let c = &t.tracks[i].clips[j];
            assert(t@.tracks[i as int].clips[j as int] == c@);
            let partner = match &c.link_group_id {
                Some(gid) => !is_listed(locs, i, j) && group_listed(t, locs, gid),
                None => false,
            };
            assert(partner == partner_loc(t@, locs@, i as int, j as int));
            let ghost o0 = others@;
            let ghost x0 = texts@;
            if partner {
                if c.media_type == ClipType::Text {
                    texts.push((i, j));
                    proof { lemma_listed_push(x0, (i, j)); }
                } else {
                    others.push((i, j));
                    proof { lemma_listed_push(o0, (i, j)); }
                }
            }
            j = j + 1;
        }
        i = i + 1;
    }
    (others, texts)
}

/// The timing properties a linked partner takes on.
fn timing_of(p: &Props, text: bool) -> (r: Props)
    ensures
        r@ == timing_props(p@, text),
{
    Props {
        duration: p.duration,
        trim_start: if text { None } else { p.trim_start },
        trim_end: if text { None } else { p.trim_end },
        speed: if text { None } else { p.speed },
        volume: None,
        opacity: None,
        transform: None,
        content: None,
        font_name: None,
        font_size: None,
        color: None,
        alignment: None,
    }
}

/// Patches every listed location of `t`.
fn patch_all(t: &mut Timeline, locs: &Vec<(usize, usize)>, p: &Props, g: &Vec<Vec<i64>>)
    requires
        locs_valid(old(t)@, locs@),
        fits_grid(old(t)@, grid(g@)),
    ensures
        final(t)@ == patch_at(old(t)@, locs@, p@, grid(g@)),
{
    let ghost t0 = t@;
    let ghost gv = grid(g@);
    let mut k: usize = 0;
    proof {
        assert(locs@.take(0) =~= Seq::<(usize, usize)>::empty());
        lemma_patch_none(t0, p@, gv);
    }
    while k < locs.len()
        invariant
            0 <= k <= locs@.len(),
            gv == grid(g@),
            fits_grid(t0, gv),
            t@ == patch_at(t0, locs@.take(k as int), p@, gv),
            locs_valid(t0, locs@),
        decreases locs.len() - k,
    {
        proof { lemma_patch_len(t0, locs@.take(k as int), p@, gv); }
        let (ti, ci) = locs[k];
        assert(locs@[k as int] == (ti, ci));
        assert(t@.tracks[ti as int].clips.len() == t0.tracks[ti as int].clips.len());
        assert(t@.tracks[ti as int].clips[ci as int] == t.tracks@[ti as int].clips@[ci as int]@);
        assert(gv[ti as int] == g@[ti as int]@);
        let r = g[ti][ci];
        let mut c = t.tracks[ti].clips[ci].duplicate();
        apply_props(&mut c, p, r);
        proof {
            lemma_patch_step(t0, locs@.take(k as int), (ti, ci), p@, gv);
            assert(locs@.take(k as int).push((ti, ci)) =~= locs@.take(k + 1));
        }
        t.set_clip(ti, ci, c);
        k = k + 1;
    }
    assert(locs@.take(k as int) =~= locs@);
}

/// The message for a text style that did not pass its checks: the color is
/// named first when it was given and did not pass, the alignment otherwise.
pub open spec fn style_error_message(p: PropsView, color_ok: bool) -> Seq<char> {
    match p.color {
        Some(h) if !color_ok => "Invalid color '"@ + h + "'. Expected '#RRGGBB' or '#RRGGBBAA'."@,
        _ => match p.alignment {
            Some(a) => "Invalid alignment '"@ + a + "'. Expected 'left', 'center', or 'right'."@,
            None => "Invalid alignment."@,
        },
    }
}

fn invalid_style_error(p: &Props, color_ok: bool) -> (r: ToolOutcome)
    ensures
        r matches ToolOutcome::Error(m) && m@ == style_error_message(p@, color_ok),
{
    match &p.color {
        Some(h) => if !color_ok {
            return err(cat3("Invalid color '", h.as_str(), "'. Expected '#RRGGBB' or '#RRGGBBAA'."));
        },
        None => {},
    }
    match &p.alignment {
        Some(a) => err(cat3("Invalid alignment '", a.as_str(), "'. Expected 'left', 'center', or 'right'.")),
        None => err(string_of("Invalid alignment.")),
    }
}

#[verifier::rlimit(60)]
#[verifier::spinoff_prover]
pub fn tool_set_clip_properties(s: &mut EditorState, args: &JsonValue, rescaled: &Vec<Vec<i64>>) -> (r: ToolOutcome)
    requires
        fits_grid(old(s)@.timeline, grid(rescaled@)),
    ensures
        props_outcome(old(s)@, args@, grid(rescaled@), r, final(s)@),
{
    proof { crate::model::lemma_editor_view(*s); }
    let ids = match arg_str_array(args, "clipIds") {
        Ok(v) => v,
        Err(e) => return err(e),
    };
    if ids.len() == 0 {
        return err(string_of("Missing or empty 'clipIds' array"));
    }
    let ghost iv = strs(ids@);
    assert(iv =~= ids@.map_values(|x: String| x@));
    let ghost t0 = s@.timeline;
    let locs = match find_locations(&s.timeline, &ids) {
        Ok(l) => l,
        Err(m) => return err(m),
    };
    let p = read_props(args);
    let has_style = p.font_name.is_some() || p.font_size.is_some() || p.color.is_some() || p.alignment.is_some();
    let has_text = p.content.is_some() || has_style;
    if has_text && any_non_text(&s.timeline, &locs) {
        return err(string_of("Text-only fields (content, fontName, fontSize, color, alignment) cannot be applied to non-text clips."));
    }
    let (others, texts) = collect_partners(&s.timeline, &locs);
    let q_others = timing_of(&p, false);
    let q_texts = timing_of(&p, true);
    proof {
        let t = s@.timeline;
        assert(lists_partners(t, locs@, partners(t, locs@, false), false));
        assert(lists_partners(t, locs@, partners(t, locs@, true), true));
        lemma_too_long_same(t, others@, partners(t, locs@, false), q_others@, grid(rescaled@));
        lemma_too_long_same(t, texts@, partners(t, locs@, true), q_texts@, grid(rescaled@));
    }
    if any_too_long(&s.timeline, &locs, &p, rescaled) || any_too_long(&s.timeline, &others, &q_others, rescaled)
        || any_too_long(&s.timeline, &texts, &q_texts, rescaled) {
        return overflow_error();
    }
    let color_ok = match &p.color {
        Some(h) => crate::model::TextStyle::parse_hex(h.as_str()).is_some(),
        None => true,
    };
    let align_ok = match &p.alignment {
        Some(a) => str_eq(a.as_str(), "left") || str_eq(a.as_str(), "center") || str_eq(a.as_str(), "right"),
        None => true,
    };
    assert(color_ok && align_ok <==> style_valid(p@));
    if has_style && !(color_ok && align_ok) {
        return invalid_style_error(&p, color_ok);
    }
    s.push_undo(string_of("Set Clip Properties (Agent)"));
    proof { crate::model::lemma_editor_view(*s); }
    let ghost t1 = s@.timeline;
    patch_all(&mut s.timeline, &locs, &p, rescaled);
    proof {
        lemma_patch_len(t1, locs@, p@, grid(rescaled@));
        lemma_patch_same(patch_at(t1, locs@, p@, grid(rescaled@)), others@, partners(t1, locs@, false), q_others@, grid(rescaled@));
    }
    patch_all(&mut s.timeline, &others, &q_others, rescaled);
    proof {
        let t2 = patch_at(t1, locs@, p@, grid(rescaled@));
        lemma_patch_len(t2, others@, q_others@, grid(rescaled@));
        lemma_patch_same(patch_at(t2, others@, q_others@, grid(rescaled@)), texts@, partners(t1, locs@, true), q_texts@, grid(rescaled@));
    }
    patch_all(&mut s.timeline, &texts, &q_texts, rescaled);
    proof { crate::model::lemma_editor_view(*s); }
    let n = ids.len();
    let mut m = string_of("Updated ");
    push_usize(&mut m, n);
    push_str(&mut m, if n == 1 { " clip." } else { " clips." });
    ok(m)
}

} // verus!
