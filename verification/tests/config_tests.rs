use layerscript::config::AnchorSet;
use layerscript::config::ConfigError;
use layerscript::config::ConfigRecord;
use layerscript::config::Layer;
use layerscript::config::Margin;
use layerscript::config::MarginRecord;
use layerscript::config::Modifiers;
use layerscript::config::Opts;
use layerscript::config::negotiation_request;
use layerscript::config::parse_config;

fn full_record() -> ConfigRecord {
    ConfigRecord {
        width: Some(100),
        height: Some(100),
        layer: Some("bottom".to_string()),
        anchor: Some(3),
        margin: None,
        namespace: None,
        exclusive_zone: None,
    }
}

#[test]
fn scenario_bottom_layer_with_top_bottom_anchor() {
    let opts = parse_config(&full_record()).unwrap();
    assert_eq!(opts.width, 100);
    assert_eq!(opts.height, 100);
    assert_eq!(opts.layer, Layer::Bottom);
    let anchor = opts.anchor.unwrap();
    assert!(anchor.has_top());
    assert!(anchor.has_bottom());
    assert!(!anchor.has_left());
    assert!(!anchor.has_right());
    assert_eq!(opts.exclusive_zone, -1);

    let req = negotiation_request(&opts);
    assert_eq!(req.width, 100);
    assert_eq!(req.height, 100);
    assert_eq!(req.layer, Layer::Bottom);
    assert_eq!(req.anchor.unwrap().bits, 3);
    assert_eq!(req.exclusive_zone, -1);
}

#[test]
fn round_trip_preserves_configured_values() {
    let rec = ConfigRecord {
        width: Some(640),
        height: Some(32),
        layer: Some("overlay".to_string()),
        anchor: Some(14),
        margin: Some(MarginRecord {
            top: Some(4),
            right: None,
            bottom: Some(-2),
            left: Some(7),
        }),
        namespace: Some("bar".to_string()),
        exclusive_zone: Some(32),
    };
    let opts = parse_config(&rec).unwrap();
    let req = negotiation_request(&opts);
    assert_eq!(req.width, 640);
    assert_eq!(req.height, 32);
    assert_eq!(req.layer, Layer::Overlay);
    assert_eq!(req.anchor.unwrap().bits, 14);
    assert_eq!(req.margin, Margin { top: 4, right: 0, bottom: -2, left: 7 });
    assert_eq!(req.exclusive_zone, 32);
    assert_eq!(req.namespace.as_deref(), Some("bar"));
}

#[test]
fn extraction_is_idempotent() {
    let rec = full_record();
    let first = parse_config(&rec).unwrap();
    let second = parse_config(&rec).unwrap();
    assert_eq!(first.width, second.width);
    assert_eq!(first.height, second.height);
    assert_eq!(first.layer, second.layer);
    assert_eq!(first.anchor, second.anchor);
    assert_eq!(first.margin, second.margin);
    assert_eq!(first.exclusive_zone, second.exclusive_zone);
    assert_eq!(first.namespace, second.namespace);
}

#[test]
fn each_missing_required_field_is_a_distinct_error() {
    let mut rec = full_record();
    rec.width = None;
    assert_eq!(parse_config(&rec).unwrap_err(), ConfigError::MissingWidth);

    let mut rec = full_record();
    rec.height = None;
    assert_eq!(parse_config(&rec).unwrap_err(), ConfigError::MissingHeight);

    let mut rec = full_record();
    rec.layer = None;
    assert_eq!(parse_config(&rec).unwrap_err(), ConfigError::MissingLayer);
}

#[test]
fn out_of_range_values_are_rejected() {
    let mut rec = full_record();
    rec.width = Some(-1);
    assert_eq!(parse_config(&rec).unwrap_err(), ConfigError::WidthOutOfRange);

    let mut rec = full_record();
    rec.height = Some(1 << 33);
    assert_eq!(parse_config(&rec).unwrap_err(), ConfigError::HeightOutOfRange);

    let mut rec = full_record();
    rec.layer = Some("middle".to_string());
    assert_eq!(parse_config(&rec).unwrap_err(), ConfigError::UnknownLayer);

    let mut rec = full_record();
    rec.anchor = Some(16);
    assert_eq!(parse_config(&rec).unwrap_err(), ConfigError::InvalidAnchor);

    let mut rec = full_record();
    rec.margin = Some(MarginRecord {
        top: Some(1 << 40),
        right: None,
        bottom: None,
        left: None,
    });
    assert_eq!(parse_config(&rec).unwrap_err(), ConfigError::MarginOutOfRange);

    let mut rec = full_record();
    rec.exclusive_zone = Some(1 << 40);
    assert_eq!(
        parse_config(&rec).unwrap_err(),
        ConfigError::ExclusiveZoneOutOfRange
    );
}

#[test]
fn error_messages_name_the_failing_contract() {
    assert_eq!(
        ConfigError::MissingWidth.message(),
        "a window must have a set width"
    );
}

#[test]
fn all_layer_names_parse() {
    for (name, layer) in [
        ("background", Layer::Background),
        ("bottom", Layer::Bottom),
        ("top", Layer::Top),
        ("overlay", Layer::Overlay),
    ] {
        let mut rec = full_record();
        rec.layer = Some(name.to_string());
        assert_eq!(parse_config(&rec).unwrap().layer, layer);
    }
}

#[test]
fn optional_fields_take_their_defaults() {
    let opts = parse_config(&full_record()).unwrap();
    assert_eq!(opts.margin, Margin { top: 0, right: 0, bottom: 0, left: 0 });
    assert!(opts.namespace.is_none());
    assert_eq!(opts.exclusive_zone, -1);
}

#[test]
fn anchor_bits_validation() {
    assert_eq!(AnchorSet::from_bits(15).unwrap().bits, 15);
    assert!(AnchorSet::from_bits(16).is_none());
}

#[test]
fn margin_tuple_conversions() {
    let m = Margin::from((1, 2, 3, 4));
    assert_eq!(m, Margin { top: 1, right: 2, bottom: 3, left: 4 });
    let t: (i32, i32, i32, i32) = m.into();
    assert_eq!(t, (1, 2, 3, 4));
}

#[test]
fn default_options_match_the_documented_defaults() {
    let opts = Opts::default();
    assert_eq!(opts.width, 100);
    assert_eq!(opts.height, 256);
    assert_eq!(opts.exclusive_zone, -1);
    assert_eq!(opts.layer, Layer::Bottom);
    assert_eq!(opts.anchor.unwrap().bits, 1);
    assert!(opts.namespace.is_none());

    let m = Modifiers::default();
    assert!(!m.control && !m.shift && !m.alt && !m.meta);
}
