use palmier_pro_windows::catalog::{
    image_models, image_models_json, image_models_json_with_type, video_models, video_models_json,
    video_models_json_with_type,
};
use palmier_pro_windows::clip_type::ClipType;
use palmier_pro_windows::json::{JsonNumber, JsonValue};
use palmier_pro_windows::model::{Clip, Crop, TextStyle, Timeline, Track, Transform};
use palmier_pro_windows::reals::Real;

fn float(x: f64) -> Real {
    Real::Bits(x.to_bits())
}

fn same_real(a: &Real, b: &Real) -> bool {
    match (a, b) {
        (Real::Bits(x), Real::Bits(y)) => x == y,
        (Real::Ratio255(x), Real::Ratio255(y)) => x == y,
        _ => false,
    }
}

fn same_json(a: &JsonValue, b: &JsonValue) -> bool {
    match (a, b) {
        (JsonValue::Null, JsonValue::Null) => true,
        (JsonValue::Bool(x), JsonValue::Bool(y)) => x == y,
        (JsonValue::Number(x), JsonValue::Number(y)) => match (x, y) {
            (JsonNumber::PosInt(p), JsonNumber::PosInt(q)) => p == q,
            (JsonNumber::NegInt(p), JsonNumber::NegInt(q)) => p == q,
            (JsonNumber::Float(p), JsonNumber::Float(q)) => same_real(p, q),
            _ => false,
        },
        (JsonValue::Str(x), JsonValue::Str(y)) => x == y,
        (JsonValue::Array(x), JsonValue::Array(y)) => x.len() == y.len() && x.iter().zip(y.iter()).all(|(p, q)| same_json(p, q)),
        (JsonValue::Object(x), JsonValue::Object(y)) => {
            x.len() == y.len() && x.iter().zip(y.iter()).all(|(p, q)| p.0 == q.0 && same_json(&p.1, &q.1))
        },
        _ => false,
    }
}

fn plain_clip(id: &str, start: i64, duration: i64) -> Clip {
    Clip {
        id: id.to_string(),
        media_ref: "m1".to_string(),
        media_type: ClipType::Video,
        source_clip_type: ClipType::Video,
        start_frame: start,
        duration_frames: duration,
        trim_start_frame: 0,
        trim_end_frame: 0,
        speed: float(1.0),
        volume: float(1.0),
        fade_in_frames: 0,
        fade_out_frames: 0,
        opacity: float(1.0),
        transform: Transform::identity(),
        crop: Crop::none(),
        link_group_id: None,
        caption_group_id: None,
        text_content: None,
        text_style: None,
        opacity_track: None,
        position_track: None,
        scale_track: None,
        rotation_track: None,
        crop_track: None,
        volume_track: None,
    }
}

#[test]
fn clip_type_compatibility_matches_swift() {
    assert!(ClipType::Video.is_compatible_with(ClipType::Image));
    assert!(ClipType::Image.is_compatible_with(ClipType::Text));
    assert!(!ClipType::Audio.is_compatible_with(ClipType::Video));
    assert!(ClipType::Audio.is_compatible_with(ClipType::Audio));
}

#[test]
fn hex_parser_handles_rgb_and_rgba() {
    let white = TextStyle::parse_hex("#FFFFFF").unwrap();
    assert!((white.r as f64 / 255.0 - 1.0).abs() < 1e-9);
    assert!((white.a as f64 / 255.0 - 1.0).abs() < 1e-9);
    let half = TextStyle::parse_hex("#00000080").unwrap();
    assert!((half.a as f64 / 255.0 - 128.0 / 255.0).abs() < 1e-9);
    assert!(TextStyle::parse_hex("nope").is_none());
}

#[test]
fn timeline_total_frames_is_max_end_frame() {
    let mut tl = Timeline::default_timeline();
    tl.tracks.push(Track::new("t1".to_string(), ClipType::Video));
    tl.tracks[0].clips.push(plain_clip("c1", 10, 20));
    assert_eq!(tl.total_frames(), 30);
}

#[test]
fn video_catalog_is_non_empty() {
    let models = video_models();
    assert!(!models.is_empty());
    for m in &models {
        assert!(!m.id.is_empty());
        assert!(!m.display_name.is_empty());
        assert!(!m.caps.aspect_ratios.is_empty());
    }
}

#[test]
fn image_catalog_is_non_empty() {
    let models = image_models();
    assert!(!models.is_empty());
    for m in &models {
        assert!(!m.id.is_empty());
        assert!(!m.display_name.is_empty());
        assert!(!m.caps.aspect_ratios.is_empty());
    }
}

#[test]
fn video_json_matches_swift_shape() {
    let models = video_models();
    let seedance = models.iter().find(|m| m.id == "seedance").expect("seedance should be in the static catalog");
    let v = seedance.to_json(false);
    for key in &["id", "displayName", "durations", "aspectRatios", "supportsFirstFrame", "supportsLastFrame", "supportsReferences"] {
        assert!(v.get(key).is_some(), "missing required field: {key}");
    }
    assert!(v.get("type").is_none(), "type should be omitted when include_type=false");
    assert!(v.get("referenceTagNoun").is_some());
    assert!(v.get("maxReferenceImages").is_some());
    assert!(v.get("maxTotalReferences").is_some());
    assert!(v.get("resolutions").is_some());
}

#[test]
fn image_json_matches_swift_shape() {
    let models = image_models();
    let nano = models.iter().find(|m| m.id == "nano-banana-pro").expect("nano-banana-pro should be in the static catalog");
    let v = nano.to_json(false);
    for key in &["id", "displayName", "aspectRatios", "supportsImageReference"] {
        assert!(v.get(key).is_some(), "missing required field: {key}");
    }
    assert!(v.get("type").is_none());
    assert!(v.get("resolutions").is_some());
    assert!(v.get("qualities").is_some());
}

#[test]
fn video_models_json_returns_array() {
    let v = video_models_json();
    let arr = v.as_array().expect("video_models_json should return array");
    assert!(arr.len() >= 3, "video catalog should have >= 3 models");
    for m in arr {
        assert!(m.get("type").is_none(), "video_models_json must NOT include type field");
    }
}

#[test]
fn image_models_json_returns_array() {
    let v = image_models_json();
    let arr = v.as_array().expect("image_models_json should return array");
    assert!(arr.len() >= 1, "image catalog should have >= 1 model");
    for m in arr {
        assert!(m.get("type").is_none(), "image_models_json must NOT include type field");
    }
}

#[test]
fn video_models_json_with_type_includes_type_field() {
    let v = video_models_json_with_type(true);
    let arr = v.as_array().expect("should return array");
    assert!(arr.len() >= 3);
    for m in arr {
        assert_eq!(m.get("type").and_then(|t| t.as_str()).map(|t| t.as_str()), Some("video"));
    }
}

#[test]
fn image_models_json_with_type_includes_type_field() {
    let v = image_models_json_with_type(true);
    let arr = v.as_array().expect("should return array");
    assert!(arr.len() >= 1);
    for m in arr {
        assert_eq!(m.get("type").and_then(|t| t.as_str()).map(|t| t.as_str()), Some("image"));
    }
}

#[test]
fn video_models_json_with_type_false_matches_video_models_json() {
    let a = video_models_json();
    let b = video_models_json_with_type(false);
    assert!(same_json(&a, &b));
}

#[test]
fn image_models_json_with_type_false_matches_image_models_json() {
    let a = image_models_json();
    let b = image_models_json_with_type(false);
    assert!(same_json(&a, &b));
}

#[test]
fn seedance_with_type_is_untyped_plus_type_member() {
    let models = video_models();
    for m in &models {
        let typed = m.to_json(true);
        let plain = m.to_json(false);
        match (&typed, &plain) {
            (JsonValue::Object(t), JsonValue::Object(p)) => {
                assert_eq!(t.len(), p.len() + 1);
                let without: Vec<(String, JsonValue)> =
                    t.iter().filter(|(k, _)| k != "type").map(|(k, v)| (k.clone(), v.duplicate())).collect();
                assert!(same_json(&JsonValue::Object(without), &plain));
            },
            _ => panic!("model JSON should be an object"),
        }
    }
}

#[test]
fn short_hex_and_repeated_hashes_parse() {
    let red = TextStyle::parse_hex("##F00").unwrap();
    assert_eq!((red.r, red.g, red.b, red.a), (255, 0, 0, 255));
    assert!(TextStyle::parse_hex("#12345").is_none());
    assert!(TextStyle::parse_hex("#GG0000").is_none());
}

#[test]
fn total_frames_takes_latest_end_across_tracks() {
    let mut tl = Timeline::default_timeline();
    assert_eq!(tl.total_frames(), 0);
    tl.tracks.push(Track::new("t1".to_string(), ClipType::Video));
    tl.tracks.push(Track::new("t2".to_string(), ClipType::Audio));
    tl.tracks[0].clips.push(plain_clip("c1", 0, 50));
    tl.tracks[1].clips.push(plain_clip("c2", 40, 25));
    assert_eq!(tl.total_frames(), 65);
}

/// The serde_json reading of a library JSON value.
fn to_serde(v: &JsonValue) -> serde_json::Value {
    match v {
        JsonValue::Null => serde_json::Value::Null,
        JsonValue::Bool(b) => serde_json::Value::Bool(*b),
        JsonValue::Number(JsonNumber::PosInt(n)) => serde_json::Value::from(*n),
        JsonValue::Number(JsonNumber::NegInt(n)) => serde_json::Value::from(*n),
        JsonValue::Number(JsonNumber::Float(r)) => {
            let x = match r {
                Real::Bits(b) => f64::from_bits(*b),
                Real::Ratio255(n) => f64::from(*n) / 255.0,
            };
            serde_json::Value::from(x)
        },
        JsonValue::Str(s) => serde_json::Value::String(s.clone()),
        JsonValue::Array(items) => serde_json::Value::Array(items.iter().map(to_serde).collect()),
        JsonValue::Object(members) => {
            let mut m = serde_json::Map::new();
            for (k, x) in members {
                m.insert(k.clone(), to_serde(x));
            }
            serde_json::Value::Object(m)
        },
    }
}

#[test]
fn catalog_serde_round_trip() {
    let video: Vec<serde_json::Value> = video_models().iter().map(|m| to_serde(&m.to_json(true))).collect();
    let image: Vec<serde_json::Value> = image_models().iter().map(|m| to_serde(&m.to_json(true))).collect();
    let mut w = serde_json::Map::new();
    w.insert("video".to_string(), serde_json::Value::Array(video));
    w.insert("image".to_string(), serde_json::Value::Array(image));
    let w = serde_json::Value::Object(w);
    let s = serde_json::to_string(&w).unwrap();
    let back: serde_json::Value = serde_json::from_str(&s).unwrap();
    assert!(back["video"].is_array());
    assert!(back["image"].is_array());
    let first_video = &back["video"][0];
    assert_eq!(first_video["type"].as_str(), Some("video"));
}

#[test]
fn video_json_keeps_its_shape_for_every_model() {
    for m in video_models().iter() {
        let untyped = to_serde(&m.to_json(false));
        let typed = to_serde(&m.to_json(true));
        assert!(untyped.get("type").is_none());
        assert_eq!(typed["type"].as_str(), Some("video"));
        assert_eq!(untyped["supportsReferences"].as_bool(), Some(m.supports_references()));
        let mut without = typed.as_object().unwrap().clone();
        without.remove("type");
        assert_eq!(&serde_json::Value::Object(without), &untyped);
        if !m.supports_references() {
            for k in ["maxReferenceImages", "maxReferenceVideos", "maxReferenceAudios", "maxTotalReferences",
                "maxCombinedVideoRefSeconds", "maxCombinedAudioRefSeconds", "framesAndReferencesExclusive", "referenceTagNoun"] {
                assert!(untyped.get(k).is_none());
            }
        }
    }
}

#[test]
fn json_integers_read_as_the_nearest_double() {
    let bits = |n: JsonNumber| match n.as_f64() {
        Real::Bits(b) => b,
        Real::Ratio255(_) => panic!("an integer reads as an encoding"),
    };
    assert_eq!(bits(JsonNumber::PosInt(0)), 0);
    assert_eq!(bits(JsonNumber::PosInt(2)), 2.0f64.to_bits());
    assert_eq!(bits(JsonNumber::NegInt(-3)), (-3.0f64).to_bits());
    // 2^53 + 1 lies halfway between 2^53 and 2^53 + 2: the even one wins.
    assert_eq!(bits(JsonNumber::PosInt(9_007_199_254_740_993)), 9_007_199_254_740_992f64.to_bits());
    assert_eq!(bits(JsonNumber::PosInt(u64::MAX)), 18_446_744_073_709_551_616f64.to_bits());
}
