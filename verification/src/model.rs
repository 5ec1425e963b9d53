//! In-memory editor state: timeline, tracks, clips, media library, folders
//! and the undo stack, each with its mathematical reading (`@`).

use vstd::prelude::*;
use crate::clip_type::{Alignment, ClipType};
use crate::color::Rgba;
use crate::json::{Json, JsonValue};
use crate::reals::{Real, ONE_BITS, HALF_BITS, NINETY_SIX_BITS};
use crate::text::{dec_nat, push_char, push_u64, str_eq, string_of};

verus! {

// ---------------------------------------------------------------------------
// Transform / Crop / TextStyle
// ---------------------------------------------------------------------------

/// Clip transform in normalized canvas coordinates.
#[derive(Clone, Copy)]
pub struct Transform {
    pub center_x: Real,
    pub center_y: Real,
    pub width: Real,
    pub height: Real,
    pub rotation: Real,
    pub flip_horizontal: bool,
    pub flip_vertical: bool,
}

/// Per-clip crop as edge insets in normalized (0-1) source coordinates.
#[derive(Clone, Copy)]
pub struct Crop {
    pub left: Real,
    pub top: Real,
    pub right: Real,
    pub bottom: Real,
}

impl Transform {
    /// Center (0.5, 0.5), size 1x1, no rotation, no flips.
    pub open spec fn spec_default() -> Transform {
        Transform {
            center_x: Real::Bits(HALF_BITS),
            center_y: Real::Bits(HALF_BITS),
            width: Real::Bits(ONE_BITS),
            height: Real::Bits(ONE_BITS),
            rotation: Real::Bits(0),
            flip_horizontal: false,
            flip_vertical: false,
        }
    }

    /// Every field equals its default (as floats compare).
    pub open spec fn spec_is_identity(self) -> bool {
        &&& self.center_x.spec_eq_half()
        &&& self.center_y.spec_eq_half()
        &&& self.width.spec_eq_one()
        &&& self.height.spec_eq_one()
        &&& self.rotation.spec_eq_zero()
        &&& !self.flip_horizontal
        &&& !self.flip_vertical
    }

    pub fn identity() -> (r: Transform)
        ensures
            r == Transform::spec_default(),
    {
        Transform {
            center_x: Real::half(),
            center_y: Real::half(),
            width: Real::one(),
            height: Real::one(),
            rotation: Real::zero(),
            flip_horizontal: false,
            flip_vertical: false,
        }
    }

    /// `true` if every field equals its default.
    pub fn is_identity(&self) -> (r: bool)
        ensures
            r == self.spec_is_identity(),
    {
        self.center_x.eq_half() && self.center_y.eq_half() && self.width.eq_one()
            && self.height.eq_one() && self.rotation.eq_zero() && !self.flip_horizontal
            && !self.flip_vertical
    }
}

impl Crop {
    pub open spec fn spec_default() -> Crop {
        Crop { left: Real::Bits(0), top: Real::Bits(0), right: Real::Bits(0), bottom: Real::Bits(0) }
    }

    pub open spec fn spec_is_identity(self) -> bool {
        &&& self.left.spec_eq_zero()
        &&& self.top.spec_eq_zero()
        &&& self.right.spec_eq_zero()
        &&& self.bottom.spec_eq_zero()
    }

    pub fn none() -> (r: Crop)
        ensures
            r == Crop::spec_default(),
    {
        Crop { left: Real::zero(), top: Real::zero(), right: Real::zero(), bottom: Real::zero() }
    }

    pub fn is_identity(&self) -> (r: bool)
        ensures
            r == self.spec_is_identity(),
    {
        self.left.eq_zero() && self.top.eq_zero() && self.right.eq_zero() && self.bottom.eq_zero()
    }
}

/// Text style of a text clip.
pub struct TextStyle {
    pub font_name: String,
    pub font_size: Real,
    pub font_scale: Real,
    pub color: Rgba,
    pub alignment: Alignment,
}

pub ghost struct TextStyleView {
    pub font_name: Seq<char>,
    pub font_size: Real,
    pub font_scale: Real,
    pub color: Rgba,
    pub alignment: Alignment,
}

impl View for TextStyle {
    type V = TextStyleView;

    open spec fn view(&self) -> TextStyleView {
        TextStyleView {
            font_name: self.font_name@,
            font_size: self.font_size,
            font_scale: self.font_scale,
            color: self.color,
            alignment: self.alignment,
        }
    }
}

/// Helvetica-Bold, 96pt, scale 1, white, centered.
pub open spec fn default_text_style() -> TextStyleView {
    TextStyleView {
        font_name: "Helvetica-Bold"@,
        font_size: Real::Bits(NINETY_SIX_BITS),
        font_scale: Real::Bits(ONE_BITS),
        color: Rgba { r: 255, g: 255, b: 255, a: 255 },
        alignment: Alignment::Center,
    }
}

impl TextStyle {
    pub fn default_style() -> (r: TextStyle)
        ensures
            r@ == default_text_style(),
    {
        TextStyle {
            font_name: string_of("Helvetica-Bold"),
            font_size: Real::Bits(NINETY_SIX_BITS),
            font_scale: Real::one(),
            color: Rgba { r: 255, g: 255, b: 255, a: 255 },
            alignment: Alignment::Center,
        }
    }

    pub fn duplicate(&self) -> (r: TextStyle)
        ensures
            r@ == self@,
    {
        TextStyle {
            font_name: self.font_name.clone(),
            font_size: self.font_size,
            font_scale: self.font_scale,
            color: self.color,
            alignment: self.alignment,
        }
    }
}

// ---------------------------------------------------------------------------
// Keyframes
// ---------------------------------------------------------------------------

/// A keyframe row; `frame` is clip-relative and `value` is kept as given.
pub struct Keyframe {
    pub frame: i64,
    pub value: JsonValue,
    pub interpolation_out: String,
}

pub ghost struct KeyframeView {
    pub frame: i64,
    pub value: Json,
    pub interpolation_out: Seq<char>,
}

impl View for Keyframe {
    type V = KeyframeView;

    open spec fn view(&self) -> KeyframeView {
        KeyframeView { frame: self.frame, value: self.value@, interpolation_out: self.interpolation_out@ }
    }
}

/// One animatable property's keyframes.
pub struct KeyframeTrack {
    pub keyframes: Vec<Keyframe>,
}

impl View for KeyframeTrack {
    type V = Seq<KeyframeView>;

    open spec fn view(&self) -> Seq<KeyframeView> {
        self.keyframes@.map_values(|k: Keyframe| k@)
    }
}

impl Keyframe {
    pub fn duplicate(&self) -> (r: Keyframe)
        ensures
            r@ == self@,
    {
        Keyframe {
            frame: self.frame,
            value: self.value.duplicate(),
            interpolation_out: self.interpolation_out.clone(),
        }
    }
}

impl KeyframeTrack {
    pub fn duplicate(&self) -> (r: KeyframeTrack)
        ensures
            r@ == self@,
    {
        let mut out: Vec<Keyframe> = Vec::new();
        let mut i: usize = 0;
        while i < self.keyframes.len()
            invariant
                0 <= i <= self.keyframes@.len(),
                out@.len() == i,
                forall|j: int| 0 <= j < i ==> out@[j]@ == self.keyframes@[j]@,
            decreases self.keyframes.len() - i,
        {
            out.push(self.keyframes[i].duplicate());
            i = i + 1;
        }
        let r = KeyframeTrack { keyframes: out };
        assert(r@ =~= self@);
        r
    }
}

pub open spec fn opt_track_view(t: Option<KeyframeTrack>) -> Option<Seq<KeyframeView>> {
    match t {
        Some(k) => Some(k@),
        None => None,
    }
}

pub fn dup_opt_track(t: &Option<KeyframeTrack>) -> (r: Option<KeyframeTrack>)
    ensures
        opt_track_view(r) == opt_track_view(*t),
{
    match t {
        Some(k) => Some(k.duplicate()),
        None => None,
    }
}

pub open spec fn opt_str(s: Option<String>) -> Option<Seq<char>> {
    match s {
        Some(x) => Some(x@),
        None => None,
    }
}

pub fn dup_opt_string(s: &Option<String>) -> (r: Option<String>)
    ensures
        opt_str(r) == opt_str(*s),
{
    match s {
        Some(x) => Some(x.clone()),
        None => None,
    }
}

pub open spec fn opt_style(s: Option<TextStyle>) -> Option<TextStyleView> {
    match s {
        Some(x) => Some(x@),
        None => None,
    }
}

pub open spec fn opt_json(v: Option<JsonValue>) -> Option<Json> {
    match v {
        Some(x) => Some(x@),
        None => None,
    }
}

// ---------------------------------------------------------------------------
// Clip
// ---------------------------------------------------------------------------

/// A clip on the timeline.
pub struct Clip {
    pub id: String,
    pub media_ref: String,
    pub media_type: ClipType,
    pub source_clip_type: ClipType,
    pub start_frame: i64,
    pub duration_frames: i64,
    pub trim_start_frame: i64,
    pub trim_end_frame: i64,
    pub speed: Real,
    pub volume: Real,
    pub fade_in_frames: i64,
    pub fade_out_frames: i64,
    pub opacity: Real,
    pub transform: Transform,
    pub crop: Crop,
    pub link_group_id: Option<String>,
    pub caption_group_id: Option<String>,
    pub text_content: Option<String>,
    pub text_style: Option<TextStyle>,
    pub opacity_track: Option<KeyframeTrack>,
    pub position_track: Option<KeyframeTrack>,
    pub scale_track: Option<KeyframeTrack>,
    pub rotation_track: Option<KeyframeTrack>,
    pub crop_track: Option<KeyframeTrack>,
    pub volume_track: Option<KeyframeTrack>,
}

pub ghost struct ClipView {
    pub id: Seq<char>,
    pub media_ref: Seq<char>,
    pub media_type: ClipType,
    pub source_clip_type: ClipType,
    pub start_frame: i64,
    pub duration_frames: i64,
    pub trim_start_frame: i64,
    pub trim_end_frame: i64,
    pub speed: Real,
    pub volume: Real,
    pub fade_in_frames: i64,
    pub fade_out_frames: i64,
    pub opacity: Real,
    pub transform: Transform,
    pub crop: Crop,
    pub link_group_id: Option<Seq<char>>,
    pub caption_group_id: Option<Seq<char>>,
    pub text_content: Option<Seq<char>>,
    pub text_style: Option<TextStyleView>,
    pub opacity_track: Option<Seq<KeyframeView>>,
    pub position_track: Option<Seq<KeyframeView>>,
    pub scale_track: Option<Seq<KeyframeView>>,
    pub rotation_track: Option<Seq<KeyframeView>>,
    pub crop_track: Option<Seq<KeyframeView>>,
    pub volume_track: Option<Seq<KeyframeView>>,
}

impl View for Clip {
    type V = ClipView;

    open spec fn view(&self) -> ClipView {
        ClipView {
            id: self.id@,
            media_ref: self.media_ref@,
            media_type: self.media_type,
            source_clip_type: self.source_clip_type,
            start_frame: self.start_frame,
            duration_frames: self.duration_frames,
            trim_start_frame: self.trim_start_frame,
            trim_end_frame: self.trim_end_frame,
            speed: self.speed,
            volume: self.volume,
            fade_in_frames: self.fade_in_frames,
            fade_out_frames: self.fade_out_frames,
            opacity: self.opacity,
            transform: self.transform,
            crop: self.crop,
            link_group_id: opt_str(self.link_group_id),
            caption_group_id: opt_str(self.caption_group_id),
            text_content: opt_str(self.text_content),
            text_style: opt_style(self.text_style),
            opacity_track: opt_track_view(self.opacity_track),
            position_track: opt_track_view(self.position_track),
            scale_track: opt_track_view(self.scale_track),
            rotation_track: opt_track_view(self.rotation_track),
            crop_track: opt_track_view(self.crop_track),
            volume_track: opt_track_view(self.volume_track),
        }
    }
}

/// First frame after the clip.
pub open spec fn clip_end(c: ClipView) -> int {
    c.start_frame + c.duration_frames
}

/// The clip starts at or after frame 0 and its end frame is representable.
pub open spec fn clip_fits(c: ClipView) -> bool {
    0 <= c.start_frame && clip_end(c) <= i64::MAX
}

/// Whether the clip's range meets `[start, end)`.
pub open spec fn clip_intersects(c: ClipView, start: int, end: int) -> bool {
    c.start_frame < end && clip_end(c) > start
}

/// A fresh clip of a media asset with every property at its default.
pub open spec fn fresh_clip(id: Seq<char>, media_ref: Seq<char>, t: ClipType, start: i64, duration: i64,
    trim_start: i64, trim_end: i64) -> ClipView {
    ClipView {
        id,
        media_ref,
        media_type: t,
        source_clip_type: t,
        start_frame: start,
        duration_frames: duration,
        trim_start_frame: trim_start,
        trim_end_frame: trim_end,
        speed: Real::Bits(ONE_BITS),
        volume: Real::Bits(ONE_BITS),
        fade_in_frames: 0,
        fade_out_frames: 0,
        opacity: Real::Bits(ONE_BITS),
        transform: Transform::spec_default(),
        crop: Crop::spec_default(),
        link_group_id: None,
        caption_group_id: None,
        text_content: None,
        text_style: None,
        opacity_track: None,
        position_track: None,
        scale_track: None,
        rotation_track: None,
        crop_track: None,
        volume_track: None,
    }
}

impl Clip {
    /// A clip with every property at its default.
    pub fn fresh(id: String, media_ref: String, t: ClipType, start: i64, duration: i64, trim_start: i64,
        trim_end: i64) -> (r: Clip)
        ensures
            r@ == fresh_clip(id@, media_ref@, t, start, duration, trim_start, trim_end),
    {
        Clip {
            id,
            media_ref,
            media_type: t,
            source_clip_type: t,
            start_frame: start,
            duration_frames: duration,
            trim_start_frame: trim_start,
            trim_end_frame: trim_end,
            speed: Real::one(),
            volume: Real::one(),
            fade_in_frames: 0,
            fade_out_frames: 0,
            opacity: Real::one(),
            transform: Transform::identity(),
            crop: Crop::none(),
            link_group_id: None,
            caption_group_id: None,
            text_content: None,
            text_style: None,
            opacity_track: None,
            position_track: None,
            scale_track: None,
            rotation_track: None,
            crop_track: None,
            volume_track: None,
        }
    }

    pub fn end_frame(&self) -> (r: i64)
        requires
            i64::MIN <= clip_end(self@) <= i64::MAX,
        ensures
            r == clip_end(self@),
    {
        self.start_frame + self.duration_frames
    }

    /// `true` if the clip's range intersects `[start, end)` on the timeline.
    pub fn intersects(&self, start: i64, end: i64) -> (r: bool)
        requires
            i64::MIN <= clip_end(self@) <= i64::MAX,
        ensures
            r == clip_intersects(self@, start as int, end as int),
    {
        self.start_frame < end && self.end_frame() > start
    }

    pub fn duplicate(&self) -> (r: Clip)
        ensures
            r@ == self@,
    {
        Clip {
            id: self.id.clone(),
            media_ref: self.media_ref.clone(),
            media_type: self.media_type,
            source_clip_type: self.source_clip_type,
            start_frame: self.start_frame,
            duration_frames: self.duration_frames,
            trim_start_frame: self.trim_start_frame,
            trim_end_frame: self.trim_end_frame,
            speed: self.speed,
            volume: self.volume,
            fade_in_frames: self.fade_in_frames,
            fade_out_frames: self.fade_out_frames,
            opacity: self.opacity,
            transform: self.transform,
            crop: self.crop,
            link_group_id: dup_opt_string(&self.link_group_id),
            caption_group_id: dup_opt_string(&self.caption_group_id),
            text_content: dup_opt_string(&self.text_content),
            text_style: match &self.text_style {
                Some(t) => Some(t.duplicate()),
                None => None,
            },
            opacity_track: dup_opt_track(&self.opacity_track),
            position_track: dup_opt_track(&self.position_track),
            scale_track: dup_opt_track(&self.scale_track),
            rotation_track: dup_opt_track(&self.rotation_track),
            crop_track: dup_opt_track(&self.crop_track),
            volume_track: dup_opt_track(&self.volume_track),
        }
    }
}

pub open spec fn clips_view(s: Seq<Clip>) -> Seq<ClipView> {
    s.map_values(|c: Clip| c@)
}

// ---------------------------------------------------------------------------
// Track
// ---------------------------------------------------------------------------

pub struct Track {
    pub id: String,
    pub track_type: ClipType,
    pub muted: bool,
    pub hidden: bool,
    pub sync_locked: bool,
    pub clips: Vec<Clip>,
}

pub ghost struct TrackView {
    pub id: Seq<char>,
    pub track_type: ClipType,
    pub muted: bool,
    pub hidden: bool,
    pub sync_locked: bool,
    pub clips: Seq<ClipView>,
}

impl View for Track {
    type V = TrackView;

    open spec fn view(&self) -> TrackView {
        TrackView {
            id: self.id@,
            track_type: self.track_type,
            muted: self.muted,
            hidden: self.hidden,
            sync_locked: self.sync_locked,
            clips: clips_view(self.clips@),
        }
    }
}

/// Latest end frame among `s` (0 when empty).
pub open spec fn max_end(s: Seq<ClipView>) -> int
    decreases s.len(),
{
    if s.len() == 0 {
        0
    } else if s.len() == 1 {
        clip_end(s[0])
    } else {
        let rest = max_end(s.drop_last());
        if clip_end(s.last()) > rest { clip_end(s.last()) } else { rest }
    }
}

pub open spec fn all_fit(s: Seq<ClipView>) -> bool {
    forall|i: int| 0 <= i < s.len() ==> clip_fits(#[trigger] s[i])
}

/// An empty, unmuted, visible, sync-locked track.
pub open spec fn new_track(id: Seq<char>, t: ClipType) -> TrackView {
    TrackView { id, track_type: t, muted: false, hidden: false, sync_locked: true, clips: Seq::empty() }
}

impl Track {
    pub fn new(id: String, track_type: ClipType) -> (r: Track)
        ensures
            r@ == new_track(id@, track_type),
    {
        let r = Track { id, track_type, muted: false, hidden: false, sync_locked: true, clips: Vec::new() };
        assert(r@.clips =~= Seq::<ClipView>::empty());
        r
    }

    /// Latest end frame of the track's clips, 0 when it has none.
    pub fn end_frame(&self) -> (r: i64)
        requires
            all_fit(self@.clips),
        ensures
            r == max_end(self@.clips),
    {
        let mut best: i64 = 0;
        let mut i: usize = 0;
        while i < self.clips.len()
            invariant
                0 <= i <= self.clips@.len(),
                all_fit(self@.clips),
                self@.clips.len() == self.clips@.len(),
                best == max_end(self@.clips.take(i as int)),
            decreases self.clips.len() - i,
        {
            assert(self@.clips[i as int] == self.clips@[i as int]@);
            let e = self.clips[i].end_frame();
            assert(self@.clips.take(i + 1).drop_last() =~= self@.clips.take(i as int));
            if i == 0 || e > best {
                best = e;
            }
            i = i + 1;
        }
        assert(self@.clips.take(i as int) =~= self@.clips);
        best
    }

    pub fn duplicate(&self) -> (r: Track)
        ensures
            r@ == self@,
    {
        let mut out: Vec<Clip> = Vec::new();
        let mut i: usize = 0;
        while i < self.clips.len()
            invariant
                0 <= i <= self.clips@.len(),
                out@.len() == i,
                forall|j: int| 0 <= j < i ==> out@[j]@ == self.clips@[j]@,
            decreases self.clips.len() - i,
        {
            out.push(self.clips[i].duplicate());
            i = i + 1;
        }
        let r = Track {
            id: self.id.clone(),
            track_type: self.track_type,
            muted: self.muted,
            hidden: self.hidden,
            sync_locked: self.sync_locked,
            clips: out,
        };
        assert(r@.clips =~= self@.clips);
        r
    }
}

pub open spec fn tracks_view(s: Seq<Track>) -> Seq<TrackView> {
    s.map_values(|t: Track| t@)
}

// ---------------------------------------------------------------------------
// Timeline
// ---------------------------------------------------------------------------

pub struct Timeline {
    pub fps: i64,
    pub width: i64,
    pub height: i64,
    pub settings_configured: bool,
    pub tracks: Vec<Track>,
}

pub ghost struct TimelineView {
    pub fps: i64,
    pub width: i64,
    pub height: i64,
    pub settings_configured: bool,
    pub tracks: Seq<TrackView>,
}

impl View for Timeline {
    type V = TimelineView;

    open spec fn view(&self) -> TimelineView {
        TimelineView {
            fps: self.fps,
            width: self.width,
            height: self.height,
            settings_configured: self.settings_configured,
            tracks: self.tracks@.map_values(|t: Track| t@),
        }
    }
}

/// 30 fps, 1920x1080, no tracks.
pub open spec fn default_timeline() -> TimelineView {
    TimelineView { fps: 30, width: 1920, height: 1080, settings_configured: false, tracks: Seq::empty() }
}

/// Every clip's end frame is representable.
pub open spec fn timeline_fits(t: TimelineView) -> bool {
    forall|i: int| 0 <= i < t.tracks.len() ==> all_fit(#[trigger] t.tracks[i].clips)
}

/// Latest end frame over all tracks (0 when there are none).
pub open spec fn total_frames_of(tracks: Seq<TrackView>) -> int
    decreases tracks.len(),
{
    if tracks.len() == 0 {
        0
    } else if tracks.len() == 1 {
        max_end(tracks[0].clips)
    } else {
        let rest = total_frames_of(tracks.drop_last());
        if max_end(tracks.last().clips) > rest { max_end(tracks.last().clips) } else { rest }
    }
}

/// `(track, clip)` is where a clip with id `id` sits.
pub open spec fn clip_at(t: TimelineView, ti: int, ci: int, id: Seq<char>) -> bool {
    0 <= ti < t.tracks.len() && 0 <= ci < t.tracks[ti].clips.len() && t.tracks[ti].clips[ci].id == id
}

/// `(ti, ci)` comes before `(tj, cj)` in track-major order.
pub open spec fn before(ti: int, ci: int, tj: int, cj: int) -> bool {
    ti < tj || (ti == tj && ci < cj)
}

/// The first location (track-major) of a clip with id `id`.
pub open spec fn spec_find_clip(t: TimelineView, id: Seq<char>) -> Option<(usize, usize)> {
    if exists|ti: int, ci: int| clip_at(t, ti, ci, id) {
        let (ti, ci) = choose|ti: int, ci: int|
            clip_at(t, ti, ci, id) && forall|tj: int, cj: int| clip_at(t, tj, cj, id) ==> !before(tj, cj, ti, ci);
        Some((ti as usize, ci as usize))
    } else {
        None
    }
}

/// `t` with the clips of track `ti` replaced by `clips`.
pub open spec fn with_clips(t: TimelineView, ti: int, clips: Seq<ClipView>) -> TimelineView {
    TimelineView { tracks: t.tracks.update(ti, TrackView { clips, ..t.tracks[ti] }), ..t }
}

impl Timeline {
    /// Takes the clips of track `ti` out, leaving it empty.
    pub fn take_clips(&mut self, ti: usize) -> (r: Vec<Clip>)
        requires
            ti < old(self)@.tracks.len(),
        ensures
            clips_view(r@) == old(self)@.tracks[ti as int].clips,
            final(self)@ == with_clips(old(self)@, ti as int, Seq::empty()),
            final(self).tracks@.len() == old(self).tracks@.len(),
    {
        let mut track = self.tracks.remove(ti);
        let mut clips: Vec<Clip> = Vec::new();
        std::mem::swap(&mut track.clips, &mut clips);
        assert(clips_view(track.clips@) =~= Seq::<ClipView>::empty());
        self.tracks.insert(ti, track);
        assert(self@.tracks =~= old(self)@.tracks.update(ti as int, TrackView { clips: Seq::empty(), ..old(self)@.tracks[ti as int] }));
        clips
    }

    /// Replaces clip `ci` of track `ti`.
    pub fn set_clip(&mut self, ti: usize, ci: usize, c: Clip)
        requires
            ti < old(self)@.tracks.len(),
            ci < old(self)@.tracks[ti as int].clips.len(),
        ensures
            final(self)@ == with_clips(old(self)@, ti as int, old(self)@.tracks[ti as int].clips.update(ci as int, c@)),
    {
        let ghost t0 = self@;
        let ghost cv = c@;
        let mut clips = self.take_clips(ti);
        let _old = clips.remove(ci);
        clips.insert(ci, c);
        assert(clips_view(clips@) =~= t0.tracks[ti as int].clips.update(ci as int, cv));
        self.put_clips(ti, clips);
        assert(self@.tracks =~= with_clips(t0, ti as int, t0.tracks[ti as int].clips.update(ci as int, cv)).tracks);
    }

    /// Sets the clips of track `ti`.
    pub fn put_clips(&mut self, ti: usize, clips: Vec<Clip>)
        requires
            ti < old(self)@.tracks.len(),
        ensures
            final(self)@ == with_clips(old(self)@, ti as int, clips_view(clips@)),
            final(self).tracks@.len() == old(self).tracks@.len(),
    {
        let ghost cv = clips_view(clips@);
        let mut track = self.tracks.remove(ti);
        let mut c = clips;
        std::mem::swap(&mut track.clips, &mut c);
        self.tracks.insert(ti, track);
        assert(self@.tracks =~= old(self)@.tracks.update(ti as int, TrackView { clips: cv, ..old(self)@.tracks[ti as int] }));
    }

    /// Whether every clip's end frame is representable and every clip starts
    /// at or after frame 0.
    pub fn check_fits(&self) -> (r: bool)
        ensures
            r == timeline_fits(self@),
    {
        let mut ti: usize = 0;
        while ti < self.tracks.len()
            invariant
                0 <= ti <= self.tracks@.len(),
                self@.tracks.len() == self.tracks@.len(),
                forall|j: int| 0 <= j < ti ==> all_fit(#[trigger] self@.tracks[j].clips),
            decreases self.tracks.len() - ti,
        {
            let track = &self.tracks[ti];
            assert(self@.tracks[ti as int] == track@);
            let mut ci: usize = 0;
            while ci < track.clips.len()
                invariant
                    0 <= ti < self.tracks@.len(),
                    self@.tracks.len() == self.tracks@.len(),
                    self@.tracks[ti as int] == track@,
                    0 <= ci <= track.clips@.len(),
                    forall|j: int| 0 <= j < ci ==> clip_fits(#[trigger] track@.clips[j]),
                decreases track.clips.len() - ci,
            {
                let c = &track.clips[ci];
                assert(track@.clips[ci as int] == c@);
                if c.start_frame < 0 || c.start_frame.checked_add(c.duration_frames).is_none() {
                    assert(!all_fit(self@.tracks[ti as int].clips));
                    return false;
                }
                ci = ci + 1;
            }
            ti = ti + 1;
        }
        true
    }

    pub fn default_timeline() -> (r: Timeline)
        ensures
            r@ == default_timeline(),
    {
        let r = Timeline { fps: 30, width: 1920, height: 1080, settings_configured: false, tracks: Vec::new() };
        assert(r@.tracks =~= Seq::<TrackView>::empty());
        r
    }

    /// Maximum end frame across all tracks.
    pub fn total_frames(&self) -> (r: i64)
        requires
            timeline_fits(self@),
        ensures
            r == total_frames_of(self@.tracks),
    {
        let mut best: i64 = 0;
        let mut i: usize = 0;
        while i < self.tracks.len()
            invariant
                0 <= i <= self.tracks@.len(),
                timeline_fits(self@),
                self@.tracks.len() == self.tracks@.len(),
                best == total_frames_of(self@.tracks.take(i as int)),
            decreases self.tracks.len() - i,
        {
            assert(self@.tracks[i as int] == self.tracks@[i as int]@);
            assert(all_fit(self@.tracks[i as int].clips));
            let e = self.tracks[i].end_frame();
            assert(self@.tracks.take(i + 1).drop_last() =~= self@.tracks.take(i as int));
            if i == 0 || e > best {
                best = e;
            }
            i = i + 1;
        }
        assert(self@.tracks.take(i as int) =~= self@.tracks);
        best
    }

    /// Find a clip by ID, returning `(track_index, clip_index)` of its first
    /// occurrence in track order.
    pub fn find_clip(&self, id: &str) -> (r: Option<(usize, usize)>)
        ensures
            r == spec_find_clip(self@, id@),
            r matches Some((ti, ci)) ==> clip_at(self@, ti as int, ci as int, id@) && ti < self.tracks@.len()
                && ci < self.tracks@[ti as int].clips@.len(),
    {
        let mut ti: usize = 0;
        while ti < self.tracks.len()
            invariant
                0 <= ti <= self.tracks@.len(),
                self@.tracks.len() == self.tracks@.len(),
                forall|tj: int, cj: int| 0 <= tj < ti ==> !clip_at(self@, tj, cj, id@),
            decreases self.tracks.len() - ti,
        {
            let track = &self.tracks[ti];
            assert(self@.tracks[ti as int] == track@);
            let mut ci: usize = 0;
            while ci < track.clips.len()
                invariant
                    0 <= ti < self.tracks@.len(),
                    self@.tracks.len() == self.tracks@.len(),
                    self@.tracks[ti as int] == track@,
                    0 <= ci <= track.clips@.len(),
                    forall|tj: int, cj: int| 0 <= tj < ti ==> !clip_at(self@, tj, cj, id@),
                    forall|cj: int| 0 <= cj < ci ==> !clip_at(self@, ti as int, cj, id@),
                decreases track.clips.len() - ci,
            {
                assert(self@.tracks[ti as int].clips[ci as int] == track.clips@[ci as int]@);
                if str_eq(track.clips[ci].id.as_str(), id) {
                    proof {
                        assert(clip_at(self@, ti as int, ci as int, id@));
                        let w = choose|a: int, b: int|
                            clip_at(self@, a, b, id@) && forall|tj: int, cj: int| clip_at(self@, tj, cj, id@) ==> !before(tj, cj, a, b);
                        assert(forall|tj: int, cj: int| clip_at(self@, tj, cj, id@) ==> !before(tj, cj, ti as int, ci as int));
                        assert(!before(ti as int, ci as int, w.0, w.1));
                        assert(!before(w.0, w.1, ti as int, ci as int));
                    }
                    return Some((ti, ci));
                }
                ci = ci + 1;
            }
            ti = ti + 1;
        }
        None
    }

    /// `find_clip` for a caller that holds the timeline mutably; the
    /// timeline is left as it is.
    pub fn find_clip_mut(&mut self, id: &str) -> (r: Option<(usize, usize)>)
        ensures
            final(self)@ == old(self)@,
            r == spec_find_clip(old(self)@, id@),
    {
        self.find_clip(id)
    }

    pub fn duplicate(&self) -> (r: Timeline)
        ensures
            r@ == self@,
    {
        let mut out: Vec<Track> = Vec::new();
        let mut i: usize = 0;
        while i < self.tracks.len()
            invariant
                0 <= i <= self.tracks@.len(),
                out@.len() == i,
                forall|j: int| 0 <= j < i ==> out@[j]@ == self.tracks@[j]@,
            decreases self.tracks.len() - i,
        {
            out.push(self.tracks[i].duplicate());
            i = i + 1;
        }
        let r = Timeline {
            fps: self.fps,
            width: self.width,
            height: self.height,
            settings_configured: self.settings_configured,
            tracks: out,
        };
        assert(r@.tracks =~= self@.tracks);
        r
    }
}

// ---------------------------------------------------------------------------
// Media library / folders
// ---------------------------------------------------------------------------

/// A media library entry.
pub struct MediaAsset {
    pub id: String,
    pub name: String,
    pub media_type: ClipType,
    /// Source duration in seconds.
    pub duration: Real,
    pub folder_id: Option<String>,
    /// "none" | "generating" | "downloading" | "failed".
    pub generation_status: String,
    pub generation_input: Option<JsonValue>,
    pub source_width: Option<i64>,
    pub source_height: Option<i64>,
    pub source_fps: Option<Real>,
    pub has_audio: bool,
}

pub ghost struct AssetView {
    pub id: Seq<char>,
    pub name: Seq<char>,
    pub media_type: ClipType,
    pub duration: Real,
    pub folder_id: Option<Seq<char>>,
    pub generation_status: Seq<char>,
    pub generation_input: Option<Json>,
    pub source_width: Option<i64>,
    pub source_height: Option<i64>,
    pub source_fps: Option<Real>,
    pub has_audio: bool,
}

impl View for MediaAsset {
    type V = AssetView;

    open spec fn view(&self) -> AssetView {
        AssetView {
            id: self.id@,
            name: self.name@,
            media_type: self.media_type,
            duration: self.duration,
            folder_id: opt_str(self.folder_id),
            generation_status: self.generation_status@,
            generation_input: opt_json(self.generation_input),
            source_width: self.source_width,
            source_height: self.source_height,
            source_fps: self.source_fps,
            has_audio: self.has_audio,
        }
    }
}

impl MediaAsset {
    pub fn duplicate(&self) -> (r: MediaAsset)
        ensures
            r@ == self@,
    {
        MediaAsset {
            id: self.id.clone(),
            name: self.name.clone(),
            media_type: self.media_type,
            duration: self.duration,
            folder_id: dup_opt_string(&self.folder_id),
            generation_status: self.generation_status.clone(),
            generation_input: match &self.generation_input {
                Some(v) => Some(v.duplicate()),
                None => None,
            },
            source_width: self.source_width,
            source_height: self.source_height,
            source_fps: self.source_fps,
            has_audio: self.has_audio,
        }
    }
}

pub struct Folder {
    pub id: String,
    pub name: String,
    pub parent_folder_id: Option<String>,
}

pub ghost struct FolderView {
    pub id: Seq<char>,
    pub name: Seq<char>,
    pub parent_folder_id: Option<Seq<char>>,
}

impl View for Folder {
    type V = FolderView;

    open spec fn view(&self) -> FolderView {
        FolderView { id: self.id@, name: self.name@, parent_folder_id: opt_str(self.parent_folder_id) }
    }
}

impl Folder {
    pub fn duplicate(&self) -> (r: Folder)
        ensures
            r@ == self@,
    {
        Folder { id: self.id.clone(), name: self.name.clone(), parent_folder_id: dup_opt_string(&self.parent_folder_id) }
    }
}

/// A copy of the media library.
pub fn dup_assets(v: &Vec<MediaAsset>) -> (r: Vec<MediaAsset>)
    ensures
        r@.map_values(|a: MediaAsset| a@) == v@.map_values(|a: MediaAsset| a@),
{
    let mut out: Vec<MediaAsset> = Vec::new();
    let mut i: usize = 0;
    while i < v.len()
        invariant
            0 <= i <= v@.len(),
            out@.len() == i,
            forall|j: int| 0 <= j < i ==> (#[trigger] out@[j])@ == v@[j]@,
        decreases v.len() - i,
    {
        out.push(v[i].duplicate());
        i = i + 1;
    }
    assert(out@.map_values(|a: MediaAsset| a@) =~= v@.map_values(|a: MediaAsset| a@));
    out
}

/// A copy of the folder list.
pub fn dup_folders(v: &Vec<Folder>) -> (r: Vec<Folder>)
    ensures
        r@.map_values(|f: Folder| f@) == v@.map_values(|f: Folder| f@),
{
    let mut out: Vec<Folder> = Vec::new();
    let mut i: usize = 0;
    while i < v.len()
        invariant
            0 <= i <= v@.len(),
            out@.len() == i,
            forall|j: int| 0 <= j < i ==> (#[trigger] out@[j])@ == v@[j]@,
        decreases v.len() - i,
    {
        out.push(v[i].duplicate());
        i = i + 1;
    }
    assert(out@.map_values(|f: Folder| f@) =~= v@.map_values(|f: Folder| f@));
    out
}

// ---------------------------------------------------------------------------
// Undo stack
// ---------------------------------------------------------------------------

/// A snapshot taken before a mutation, plus the action name: the timeline
/// always, and the media library (assets and folders) when the action was
/// one on the library.
pub struct UndoEntry {
    pub action_name: String,
    pub timeline_snapshot: Timeline,
    pub library_snapshot: Option<(Vec<MediaAsset>, Vec<Folder>)>,
}

pub ghost struct UndoView {
    pub action_name: Seq<char>,
    pub timeline_snapshot: TimelineView,
    pub library_snapshot: Option<(Seq<AssetView>, Seq<FolderView>)>,
}

/// The view of a library snapshot.
pub open spec fn library_view(l: Option<(Vec<MediaAsset>, Vec<Folder>)>) -> Option<(Seq<AssetView>, Seq<FolderView>)> {
    match l {
        Some((m, f)) => Some((m@.map_values(|a: MediaAsset| a@), f@.map_values(|x: Folder| x@))),
        None => None,
    }
}

impl View for UndoEntry {
    type V = UndoView;

    open spec fn view(&self) -> UndoView {
        UndoView {
            action_name: self.action_name@,
            timeline_snapshot: self.timeline_snapshot@,
            library_snapshot: library_view(self.library_snapshot),
        }
    }
}

// ---------------------------------------------------------------------------
// EditorState
// ---------------------------------------------------------------------------

/// The full editor backend state.
pub struct EditorState {
    pub timeline: Timeline,
    pub media_assets: Vec<MediaAsset>,
    pub folders: Vec<Folder>,
    pub undo_stack: Vec<UndoEntry>,
    pub current_frame: i64,
    pub can_generate: bool,
    /// Counter used to mint IDs (clip-1, track-1, asset-1, ...).
    pub(crate) id_counter: u64,
    /// The entry the last `undo` popped.
    pub(crate) last_popped_undo: Option<UndoEntry>,
}

pub ghost struct EditorView {
    pub timeline: TimelineView,
    pub media_assets: Seq<AssetView>,
    pub folders: Seq<FolderView>,
    pub undo_stack: Seq<UndoView>,
    pub current_frame: i64,
    pub can_generate: bool,
    pub id_counter: u64,
}

impl View for EditorState {
    type V = EditorView;

    closed spec fn view(&self) -> EditorView {
        EditorView {
            timeline: self.timeline@,
            media_assets: self.media_assets@.map_values(|a: MediaAsset| a@),
            folders: self.folders@.map_values(|f: Folder| f@),
            undo_stack: self.undo_stack@.map_values(|u: UndoEntry| u@),
            current_frame: self.current_frame,
            can_generate: self.can_generate,
            id_counter: self.id_counter,
        }
    }
}

/// The reading of the state's public fields.
pub(crate) broadcast proof fn lemma_editor_view(s: EditorState)
    ensures
        #[trigger] s@.timeline == s.timeline@,
        s@.media_assets == s.media_assets@.map_values(|a: MediaAsset| a@),
        s@.folders == s.folders@.map_values(|f: Folder| f@),
        s@.undo_stack == s.undo_stack@.map_values(|u: UndoEntry| u@),
        s@.current_frame == s.current_frame,
        s@.can_generate == s.can_generate,
        s@.id_counter == s.id_counter,
{
}

/// `prefix-n`.
pub open spec fn minted_id(prefix: Seq<char>, n: nat) -> Seq<char> {
    prefix + "-"@ + dec_nat(n)
}

/// The ids `clip-(c+1)`, ..., `clip-(c+n)` joined by `, `.
pub open spec fn joined_clip_ids(c: nat, n: nat) -> Seq<char>
    decreases n,
{
    if n == 0 {
        Seq::empty()
    } else if n == 1 {
        minted_id("clip"@, c + 1)
    } else {
        joined_clip_ids(c, (n - 1) as nat) + ", "@ + minted_id("clip"@, c + n)
    }
}

/// Index of the first asset with id `id`.
pub open spec fn spec_find_asset(assets: Seq<AssetView>, id: Seq<char>) -> Option<int> {
    if exists|i: int| 0 <= i < assets.len() && assets[i].id == id {
        Some(choose|i: int| 0 <= i < assets.len() && assets[i].id == id
            && forall|j: int| 0 <= j < i ==> assets[j].id != id)
    } else {
        None
    }
}

/// Index of the first folder with id `id`.
pub open spec fn spec_find_folder(folders: Seq<FolderView>, id: Seq<char>) -> Option<int> {
    if exists|i: int| 0 <= i < folders.len() && folders[i].id == id {
        Some(choose|i: int| 0 <= i < folders.len() && folders[i].id == id
            && forall|j: int| 0 <= j < i ==> folders[j].id != id)
    } else {
        None
    }
}

/// The id `prefix-n`.
pub fn minted(prefix: &str, n: u64) -> (r: String)
    ensures
        r@ == minted_id(prefix@, n as nat),
{
    let mut s = string_of(prefix);
    push_char(&mut s, '-');
    push_u64(&mut s, n);
    assert(s@ =~= prefix@ + "-"@ + dec_nat(n as nat)) by {
        reveal_strlit("-");
    }
    s
}

impl EditorState {
    /// Empty timeline, no media, no folders, nothing to undo.
    pub fn new() -> (r: EditorState)
        ensures
            r@.timeline == default_timeline(),
            r@.media_assets.len() == 0,
            r@.folders.len() == 0,
            r@.undo_stack.len() == 0,
            r@.current_frame == 0,
            !r@.can_generate,
            r@.id_counter == 0,
    {
        EditorState {
            timeline: Timeline::default_timeline(),
            media_assets: Vec::new(),
            folders: Vec::new(),
            undo_stack: Vec::new(),
            current_frame: 0,
            can_generate: false,
            id_counter: 0,
            last_popped_undo: None,
        }
    }

    /// Mints a unique ID with the given prefix (e.g. `clip`, `track`).
    pub fn mint_id(&mut self, prefix: &str) -> (r: String)
        requires
            old(self)@.id_counter < u64::MAX,
        ensures
            final(self)@ == (EditorView { id_counter: (old(self)@.id_counter + 1) as u64, ..old(self)@ }),
            r@ == minted_id(prefix@, final(self)@.id_counter as nat),
    {
        self.id_counter = self.id_counter + 1;
        let mut s = string_of(prefix);
        push_char(&mut s, '-');
        push_u64(&mut s, self.id_counter);
        assert(s@ =~= prefix@ + "-"@ + dec_nat(self.id_counter as nat)) by {
            reveal_strlit("-");
        }
        s
    }

    /// Snapshot the current timeline and push it onto the undo stack with
    /// the given action name.
    pub fn push_undo(&mut self, action_name: String)
        ensures
            final(self)@ == (EditorView {
                undo_stack: old(self)@.undo_stack.push(
                    UndoView { action_name: action_name@, timeline_snapshot: old(self)@.timeline, library_snapshot: None },
                ),
                ..old(self)@
            }),
    {
        let ghost e = UndoView { action_name: action_name@, timeline_snapshot: old(self)@.timeline, library_snapshot: None };
        let snapshot = self.timeline.duplicate();
        self.undo_stack.push(UndoEntry { action_name, timeline_snapshot: snapshot, library_snapshot: None });
        assert(self@.undo_stack =~= old(self)@.undo_stack.push(e));
    }

    /// Snapshot the current timeline and media library and push them onto
    /// the undo stack with the given action name.
    pub fn push_library_undo(&mut self, action_name: String)
        ensures
            final(self)@ == (EditorView {
                undo_stack: old(self)@.undo_stack.push(
                    UndoView {
                        action_name: action_name@,
                        timeline_snapshot: old(self)@.timeline,
                        library_snapshot: Some((old(self)@.media_assets, old(self)@.folders)),
                    },
                ),
                ..old(self)@
            }),
    {
        let media = dup_assets(&self.media_assets);
        let folders = dup_folders(&self.folders);
        self.push_undo_from(action_name, media, folders);
    }

    /// Snapshot the current timeline and push it onto the undo stack with
    /// the given action name and an earlier copy of the media library.
    pub fn push_undo_from(&mut self, action_name: String, media: Vec<MediaAsset>, folders: Vec<Folder>)
        ensures
            final(self)@ == (EditorView {
                undo_stack: old(self)@.undo_stack.push(
                    UndoView {
                        action_name: action_name@,
                        timeline_snapshot: old(self)@.timeline,
                        library_snapshot: Some((media@.map_values(|a: MediaAsset| a@), folders@.map_values(|f: Folder| f@))),
                    },
                ),
                ..old(self)@
            }),
    {
        let ghost e = UndoView {
            action_name: action_name@,
            timeline_snapshot: old(self)@.timeline,
            library_snapshot: Some((media@.map_values(|a: MediaAsset| a@), folders@.map_values(|f: Folder| f@))),
        };
        let snapshot = self.timeline.duplicate();
        self.undo_stack.push(UndoEntry { action_name, timeline_snapshot: snapshot, library_snapshot: Some((media, folders)) });
        assert(self@.undo_stack =~= old(self)@.undo_stack.push(e));
    }

    /// Pop the most recent undo entry and restore its timeline, and its media
    /// library where the entry holds one; assets and folders are otherwise
    /// left as they are.
    /// `Err` when there is nothing to undo.
    pub fn undo(&mut self) -> (r: Result<&UndoEntry, &'static str>)
        ensures
            old(self)@.undo_stack.len() == 0 ==> final(self)@ == old(self)@ && r is Err,
            old(self)@.undo_stack.len() > 0 ==> {
                &&& r matches Ok(e) && e@ == old(self)@.undo_stack.last()
                &&& final(self)@ == (EditorView {
                    timeline: old(self)@.undo_stack.last().timeline_snapshot,
                    media_assets: match old(self)@.undo_stack.last().library_snapshot {
                        Some(l) => l.0,
                        None => old(self)@.media_assets,
                    },
                    folders: match old(self)@.undo_stack.last().library_snapshot {
                        Some(l) => l.1,
                        None => old(self)@.folders,
                    },
                    undo_stack: old(self)@.undo_stack.drop_last(),
                    ..old(self)@
                })
            },
            r matches Err(m) ==> m@ == "No assistant edit to undo this session. The user's own edits are theirs to undo."@,
    {
        match self.undo_stack.pop() {
            Some(entry) => {
                self.timeline = entry.timeline_snapshot.duplicate();
                match &entry.library_snapshot {
                    Some((media, folders)) => {
                        self.media_assets = dup_assets(media);
                        self.folders = dup_folders(folders);
                    },
                    None => {},
                }
                assert(self@.undo_stack =~= old(self)@.undo_stack.drop_last());
                self.last_popped_undo = Some(entry);
                match &self.last_popped_undo {
                    Some(e) => Ok(e),
                    None => Err("No assistant edit to undo this session. The user's own edits are theirs to undo."),
                }
            },
            None => Err("No assistant edit to undo this session. The user's own edits are theirs to undo."),
        }
    }

    /// Index of the media asset with id `id`.
    pub(crate) fn asset_index(&self, id: &str) -> (r: Option<usize>)
        ensures
            r matches Some(i) ==> spec_find_asset(self@.media_assets, id@) == Some(i as int)
                && i < self@.media_assets.len() && self@.media_assets[i as int].id == id@
                && i < self.media_assets@.len(),
            r is None ==> spec_find_asset(self@.media_assets, id@) is None,
    {
        let mut i: usize = 0;
        while i < self.media_assets.len()
            invariant
                0 <= i <= self.media_assets@.len(),
                self@.media_assets.len() == self.media_assets@.len(),
                forall|j: int| 0 <= j < i ==> self@.media_assets[j].id != id@,
            decreases self.media_assets.len() - i,
        {
            assert(self@.media_assets[i as int] == self.media_assets@[i as int]@);
            if str_eq(self.media_assets[i].id.as_str(), id) {
                return Some(i);
            }
            i = i + 1;
        }
        None
    }

    /// Find a media asset by ID.
    pub fn asset(&self, id: &str) -> (r: Option<&MediaAsset>)
        ensures
            r is Some == spec_find_asset(self@.media_assets, id@) is Some,
            r matches Some(a) ==> a@ == self@.media_assets[spec_find_asset(self@.media_assets, id@)->0],
    {
        match self.asset_index(id) {
            Some(i) => Some(&self.media_assets[i]),
            None => None,
        }
    }

    /// Index of the folder with id `id`.
    pub(crate) fn folder_index(&self, id: &str) -> (r: Option<usize>)
        ensures
            r matches Some(i) ==> spec_find_folder(self@.folders, id@) == Some(i as int)
                && i < self@.folders.len() && self@.folders[i as int].id == id@
                && i < self.folders@.len(),
            r is None ==> spec_find_folder(self@.folders, id@) is None,
    {
        let mut i: usize = 0;
        while i < self.folders.len()
            invariant
                0 <= i <= self.folders@.len(),
                self@.folders.len() == self.folders@.len(),
                forall|j: int| 0 <= j < i ==> self@.folders[j].id != id@,
            decreases self.folders.len() - i,
        {
            assert(self@.folders[i as int] == self.folders@[i as int]@);
            if str_eq(self.folders[i].id.as_str(), id) {
                return Some(i);
            }
            i = i + 1;
        }
        None
    }

    /// Find a folder by ID.
    pub fn folder(&self, id: &str) -> (r: Option<&Folder>)
        ensures
            r is Some == spec_find_folder(self@.folders, id@) is Some,
            r matches Some(f) ==> f@ == self@.folders[spec_find_folder(self@.folders, id@)->0],
    {
        match self.folder_index(id) {
            Some(i) => Some(&self.folders[i]),
            None => None,
        }
    }
}

impl Default for Transform {
    /// Centred, full size, no rotation, no flips.
    fn default() -> (r: Self)
        ensures
            r == Transform::spec_default(),
    {
        Transform::identity()
    }
}

impl Default for TextStyle {
    /// White Helvetica-Bold, size 96, scale 1, centred.
    fn default() -> (r: Self)
        ensures
            r@ == default_text_style(),
    {
        TextStyle::default_style()
    }
}

impl Default for Timeline {
    /// 30 fps, 1920x1080, settings not configured, no tracks.
    fn default() -> (r: Self)
        ensures
            r@ == default_timeline(),
    {
        Timeline::default_timeline()
    }
}

impl Default for EditorState {
    /// An empty editor: default timeline, no media, no folders, nothing to
    /// undo.
    fn default() -> (r: Self)
        ensures
            r@.timeline == default_timeline(),
            r@.media_assets.len() == 0,
            r@.folders.len() == 0,
            r@.undo_stack.len() == 0,
            r@.current_frame == 0,
            !r@.can_generate,
            r@.id_counter == 0,
    {
        EditorState::new()
    }
}

} // verus!
