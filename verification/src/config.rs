//! Surface configuration: the values a script supplies, their validation,
//! and the request that surface negotiation sends to the compositor.

use vstd::prelude::*;

verus! {

use vstd::string::StringExecFns;

/// Stacking class of the overlay surface.
#[derive(Clone, Copy, Debug, PartialEq, Eq, Structural)]
pub enum Layer {
    Background,
    Bottom,
    Top,
    Overlay,
}

/// Edge-attachment flag: the surface is anchored to the top edge.
pub const ANCHOR_TOP: u8 = 1;

/// Edge-attachment flag: the surface is anchored to the bottom edge.
pub const ANCHOR_BOTTOM: u8 = 2;

/// Edge-attachment flag: the surface is anchored to the left edge.
pub const ANCHOR_LEFT: u8 = 4;

/// Edge-attachment flag: the surface is anchored to the right edge.
pub const ANCHOR_RIGHT: u8 = 8;

/// A set of edge anchors, stored as a bitmask over the four `ANCHOR_*`
/// flags.  Valid sets never carry bits outside the four flags.
#[derive(Clone, Copy, Debug, PartialEq, Eq, Structural)]
pub struct AnchorSet {
    pub bits: u8,
}

impl AnchorSet {
    /// A set is well formed when only the four anchor bits are present.
    pub open spec fn wf(self) -> bool {
        self.bits < 16
    }

    /// Builds an anchor set from a raw bitmask; masks outside the four
    /// defined flags are rejected.
    pub fn from_bits(bits: u8) -> (r: Option<AnchorSet>)
        ensures
            r == (if bits < 16 {
                Some(AnchorSet { bits })
            } else {
                None::<AnchorSet>
            }),
    {
        if bits < 16 {
            Some(AnchorSet { bits })
        } else {
            None
        }
    }

    pub fn has_top(&self) -> (r: bool)
        ensures
            r == (self.bits & ANCHOR_TOP != 0),
    {
        self.bits & ANCHOR_TOP != 0
    }

    pub fn has_bottom(&self) -> (r: bool)
        ensures
            r == (self.bits & ANCHOR_BOTTOM != 0),
    {
        self.bits & ANCHOR_BOTTOM != 0
    }

    pub fn has_left(&self) -> (r: bool)
        ensures
            r == (self.bits & ANCHOR_LEFT != 0),
    {
        self.bits & ANCHOR_LEFT != 0
    }

    pub fn has_right(&self) -> (r: bool)
        ensures
            r == (self.bits & ANCHOR_RIGHT != 0),
    {
        self.bits & ANCHOR_RIGHT != 0
    }
}

/// Distances between the surface and the edges it is anchored to.
#[derive(Clone, Copy, Debug, PartialEq, Eq, Structural)]
pub struct Margin {
    pub top: i32,
    pub right: i32,
    pub bottom: i32,
    pub left: i32,
}

impl Default for Margin {
    fn default() -> (r: Margin)
        ensures
            r == (Margin { top: 0, right: 0, bottom: 0, left: 0 }),
    {
        Margin { top: 0, right: 0, bottom: 0, left: 0 }
    }
}

impl From<(i32, i32, i32, i32)> for Margin {
    fn from(t: (i32, i32, i32, i32)) -> (r: Margin) {
        Margin { top: t.0, right: t.1, bottom: t.2, left: t.3 }
    }
}

impl vstd::std_specs::convert::FromSpecImpl<(i32, i32, i32, i32)> for Margin {
    open spec fn obeys_from_spec() -> bool {
        true
    }

    open spec fn from_spec(t: (i32, i32, i32, i32)) -> Margin {
        Margin { top: t.0, right: t.1, bottom: t.2, left: t.3 }
    }
}

impl From<Margin> for (i32, i32, i32, i32) {
    fn from(m: Margin) -> (r: (i32, i32, i32, i32)) {
        (m.top, m.right, m.bottom, m.left)
    }
}

impl vstd::std_specs::convert::FromSpecImpl<Margin> for (i32, i32, i32, i32) {
    open spec fn obeys_from_spec() -> bool {
        true
    }

    open spec fn from_spec(m: Margin) -> (i32, i32, i32, i32) {
        (m.top, m.right, m.bottom, m.left)
    }
}

/// Keyboard modifier state attached to input events at dispatch time.
#[derive(Clone, Copy, Debug, PartialEq, Eq, Structural)]
pub struct Modifiers {
    pub control: bool,
    pub shift: bool,
    pub alt: bool,
    pub meta: bool,
}

impl Default for Modifiers {
    fn default() -> (r: Modifiers)
        ensures
            r == (Modifiers { control: false, shift: false, alt: false, meta: false }),
    {
        Modifiers { control: false, shift: false, alt: false, meta: false }
    }
}

/// The full surface configuration, immutable once the surface is created
/// except for width and height, which a compositor configure notification
/// may override.
#[derive(Debug, Clone)]
pub struct Opts {
    pub width: u32,
    pub height: u32,
    pub exclusive_zone: i32,
    pub layer: Layer,
    pub anchor: Option<AnchorSet>,
    pub margin: Margin,
    pub namespace: Option<String>,
}

impl Opts {
    pub open spec fn wf(self) -> bool {
        match self.anchor {
            Some(a) => a.wf(),
            None => true,
        }
    }
}

impl Default for Opts {
    fn default() -> (r: Opts)
        ensures
            r.width == 100,
            r.height == 256,
            r.exclusive_zone == -1,
            r.layer == Layer::Bottom,
            r.anchor == Some(AnchorSet { bits: ANCHOR_TOP }),
            r.margin == (Margin { top: 0, right: 0, bottom: 0, left: 0 }),
            r.namespace is None,
            r.wf(),
    {
        Opts {
            width: 100,
            height: 256,
            exclusive_zone: -1,
            layer: Layer::Bottom,
            anchor: Some(AnchorSet { bits: ANCHOR_TOP }),
            margin: Margin { top: 0, right: 0, bottom: 0, left: 0 },
            namespace: None,
        }
    }
}

/// The margin part of a structured configuration record, before
/// validation.  Absent fields default to zero.
#[derive(Debug, Clone)]
pub struct MarginRecord {
    pub top: Option<i64>,
    pub right: Option<i64>,
    pub bottom: Option<i64>,
    pub left: Option<i64>,
}

/// A structured configuration record as the script's configuration entry
/// point returns it: every known key as an optional raw value.  Unknown
/// keys are dropped before the record is built.
#[derive(Debug, Clone)]
pub struct ConfigRecord {
    pub width: Option<i64>,
    pub height: Option<i64>,
    pub layer: Option<String>,
    pub anchor: Option<i64>,
    pub margin: Option<MarginRecord>,
    pub namespace: Option<String>,
    pub exclusive_zone: Option<i64>,
}

/// A startup-fatal configuration fault, naming the failing field.
#[derive(Clone, Copy, Debug, PartialEq, Eq, Structural)]
pub enum ConfigError {
    MissingWidth,
    MissingHeight,
    MissingLayer,
    WidthOutOfRange,
    HeightOutOfRange,
    UnknownLayer,
    InvalidAnchor,
    MarginOutOfRange,
    ExclusiveZoneOutOfRange,
}

impl ConfigError {
    /// A human-readable description of the failing contract.
    pub fn message(&self) -> (r: &'static str)
        ensures
            r@ == spec_error_message(*self),
    {
        match self {
            ConfigError::MissingWidth => "a window must have a set width",
            ConfigError::MissingHeight => "a window must have a set height",
            ConfigError::MissingLayer => "a window must have a set layer",
            ConfigError::WidthOutOfRange => "the window width does not fit the surface size range",
            ConfigError::HeightOutOfRange => "the window height does not fit the surface size range",
            ConfigError::UnknownLayer => "the layer must be one of background, bottom, top, overlay",
            ConfigError::InvalidAnchor => "the anchor mask holds a bit outside top, bottom, left, right",
            ConfigError::MarginOutOfRange => "a margin distance does not fit the protocol range",
            ConfigError::ExclusiveZoneOutOfRange => "the exclusive zone does not fit the protocol range",
        }
    }
}

/// The description each configuration fault carries.
pub open spec fn spec_error_message(e: ConfigError) -> Seq<char> {
    match e {
        ConfigError::MissingWidth => "a window must have a set width"@,
        ConfigError::MissingHeight => "a window must have a set height"@,
        ConfigError::MissingLayer => "a window must have a set layer"@,
        ConfigError::WidthOutOfRange => "the window width does not fit the surface size range"@,
        ConfigError::HeightOutOfRange => "the window height does not fit the surface size range"@,
        ConfigError::UnknownLayer => "the layer must be one of background, bottom, top, overlay"@,
        ConfigError::InvalidAnchor => "the anchor mask holds a bit outside top, bottom, left, right"@,
        ConfigError::MarginOutOfRange => "a margin distance does not fit the protocol range"@,
        ConfigError::ExclusiveZoneOutOfRange => "the exclusive zone does not fit the protocol range"@,
    }
}

/// The layer named by a configuration string, if any.
pub open spec fn spec_layer_of_name(s: Seq<char>) -> Option<Layer> {
    if s == "background"@ {
        Some(Layer::Background)
    } else if s == "bottom"@ {
        Some(Layer::Bottom)
    } else if s == "top"@ {
        Some(Layer::Top)
    } else if s == "overlay"@ {
        Some(Layer::Overlay)
    } else {
        None
    }
}

/// Parses the stacking-class name of a configuration record.
pub fn layer_of_name(s: &String) -> (r: Option<Layer>)
    ensures
        r == spec_layer_of_name(s@),
{
    let background: String = String::from_str("background");
    let bottom: String = String::from_str("bottom");
    let top: String = String::from_str("top");
    let overlay: String = String::from_str("overlay");
    if *s == background {
        Some(Layer::Background)
    } else if *s == bottom {
        Some(Layer::Bottom)
    } else if *s == top {
        Some(Layer::Top)
    } else if *s == overlay {
        Some(Layer::Overlay)
    } else {
        None
    }
}

/// The margin a record's margin entry stands for: absent distances are
/// zero, present ones must fit the protocol's signed 32-bit range.
pub open spec fn spec_margin_field(v: Option<i64>) -> i64 {
    match v {
        Some(d) => d,
        None => 0,
    }
}

pub open spec fn spec_margin_field_fits(v: Option<i64>) -> bool {
    i32::MIN <= spec_margin_field(v) <= i32::MAX
}

pub open spec fn spec_parse_margin(m: MarginRecord) -> Result<Margin, ConfigError> {
    if spec_margin_field_fits(m.top) && spec_margin_field_fits(m.right)
        && spec_margin_field_fits(m.bottom) && spec_margin_field_fits(m.left) {
        Ok(Margin {
            top: spec_margin_field(m.top) as i32,
            right: spec_margin_field(m.right) as i32,
            bottom: spec_margin_field(m.bottom) as i32,
            left: spec_margin_field(m.left) as i32,
        })
    } else {
        Err(ConfigError::MarginOutOfRange)
    }
}

fn margin_field(v: &Option<i64>) -> (r: Result<i32, ConfigError>)
    ensures
        r == (if spec_margin_field_fits(*v) {
            Ok::<i32, ConfigError>(spec_margin_field(*v) as i32)
        } else {
            Err::<i32, ConfigError>(ConfigError::MarginOutOfRange)
        }),
{
    match v {
        Some(d) => {
            if i32::MIN as i64 <= *d && *d <= i32::MAX as i64 {
                Ok(*d as i32)
            } else {
                Err(ConfigError::MarginOutOfRange)
            }
        },
        None => Ok(0),
    }
}

/// What configuration extraction yields for a given structured record:
/// width, height and layer are required; the anchor mask may only carry
/// the four defined bits; margin distances and the exclusive zone must
/// fit the protocol's signed 32-bit range and default to zero and -1.
pub open spec fn spec_parse_config(rec: ConfigRecord) -> Result<Opts, ConfigError> {
    if rec.width is None {
        Err(ConfigError::MissingWidth)
    } else if !(0 <= rec.width->0 <= u32::MAX) {
        Err(ConfigError::WidthOutOfRange)
    } else if rec.height is None {
        Err(ConfigError::MissingHeight)
    } else if !(0 <= rec.height->0 <= u32::MAX) {
        Err(ConfigError::HeightOutOfRange)
    } else if rec.layer is None {
        Err(ConfigError::MissingLayer)
    } else if spec_layer_of_name(rec.layer->0@) is None {
        Err(ConfigError::UnknownLayer)
    } else if rec.anchor is Some && !(0 <= rec.anchor->0 < 16) {
        Err(ConfigError::InvalidAnchor)
    } else if rec.margin is Some && spec_parse_margin(rec.margin->0) is Err {
        Err(ConfigError::MarginOutOfRange)
    } else if rec.exclusive_zone is Some
        && !(i32::MIN <= rec.exclusive_zone->0 <= i32::MAX) {
        Err(ConfigError::ExclusiveZoneOutOfRange)
    } else {
        Ok(Opts {
            width: rec.width->0 as u32,
            height: rec.height->0 as u32,
            exclusive_zone: match rec.exclusive_zone {
                Some(z) => z as i32,
                None => -1i32,
            },
            layer: spec_layer_of_name(rec.layer->0@)->0,
            anchor: match rec.anchor {
                Some(a) => Some(AnchorSet { bits: a as u8 }),
                None => None,
            },
            margin: match rec.margin {
                Some(m) => spec_parse_margin(m)->Ok_0,
                None => Margin { top: 0, right: 0, bottom: 0, left: 0 },
            },
            namespace: rec.namespace,
        })
    }
}

/// Validates a structured configuration record field by field and builds
/// the surface configuration.  Each missing required field and each value
/// outside its range is a distinct error; re-parsing an equal record
/// always yields the same result.
pub fn parse_config(rec: &ConfigRecord) -> (r: Result<Opts, ConfigError>)
    ensures
        r == spec_parse_config(*rec),
        r is Ok ==> r->Ok_0.wf(),
{
    let width: u32 = match rec.width {
        None => {
            return Err(ConfigError::MissingWidth);
        },
        Some(w) => {
            if 0 <= w && w <= u32::MAX as i64 {
                w as u32
            } else {
                return Err(ConfigError::WidthOutOfRange);
            }
        },
    };
    let height: u32 = match rec.height {
        None => {
            return Err(ConfigError::MissingHeight);
        },
        Some(h) => {
            if 0 <= h && h <= u32::MAX as i64 {
                h as u32
            } else {
                return Err(ConfigError::HeightOutOfRange);
            }
        },
    };
    let layer: Layer = match &rec.layer {
        None => {
            return Err(ConfigError::MissingLayer);
        },
        Some(name) => {
            match layer_of_name(name) {
                Some(l) => l,
                None => {
                    return Err(ConfigError::UnknownLayer);
                },
            }
        },
    };
    let anchor: Option<AnchorSet> = match rec.anchor {
        None => None,
        Some(a) => {
            if 0 <= a && a < 16 {
                Some(AnchorSet { bits: a as u8 })
            } else {
                return Err(ConfigError::InvalidAnchor);
            }
        },
    };
    let margin: Margin = match &rec.margin {
        None => Margin { top: 0, right: 0, bottom: 0, left: 0 },
        Some(m) => {
            let top: i32 = match margin_field(&m.top) {
                Ok(d) => d,
                Err(e) => {
                    return Err(e);
                },
            };
            let right: i32 = match margin_field(&m.right) {
                Ok(d) => d,
                Err(e) => {
                    return Err(e);
                },
            };
            let bottom: i32 = match margin_field(&m.bottom) {
                Ok(d) => d,
                Err(e) => {
                    return Err(e);
                },
            };
            let left: i32 = match margin_field(&m.left) {
                Ok(d) => d,
                Err(e) => {
                    return Err(e);
                },
            };
            Margin { top, right, bottom, left }
        },
    };
    let exclusive_zone: i32 = match rec.exclusive_zone {
        None => -1,
        Some(z) => {
            if i32::MIN as i64 <= z && z <= i32::MAX as i64 {
                z as i32
            } else {
                return Err(ConfigError::ExclusiveZoneOutOfRange);
            }
        },
    };
    let namespace: Option<String> = match &rec.namespace {
        None => None,
        Some(n) => Some(n.clone()),
    };
    Ok(Opts { width, height, exclusive_zone, layer, anchor, margin, namespace })
}

/// Keyboard focus policy requested for the surface.
#[derive(Clone, Copy, Debug, PartialEq, Eq, Structural)]
pub enum KeyboardInteractivity {
    NotInteractive,
    Exclusive,
    OnDemand,
}

/// Everything surface negotiation sends to the compositor when the
/// surface is created.
#[derive(Debug, Clone)]
pub struct SurfaceRequest {
    pub width: u32,
    pub height: u32,
    pub layer: Layer,
    pub anchor: Option<AnchorSet>,
    pub margin: Margin,
    pub exclusive_zone: i32,
    pub namespace: Option<String>,
    pub keyboard_interactivity: KeyboardInteractivity,
}

/// The request a given configuration negotiates: every configured value
/// is carried over unchanged, and keyboard focus is requested on demand.
pub open spec fn spec_negotiation_request(o: Opts) -> SurfaceRequest {
    SurfaceRequest {
        width: o.width,
        height: o.height,
        layer: o.layer,
        anchor: o.anchor,
        margin: o.margin,
        exclusive_zone: o.exclusive_zone,
        namespace: o.namespace,
        keyboard_interactivity: KeyboardInteractivity::OnDemand,
    }
}

/// Builds the surface-creation request for a configuration.
pub fn negotiation_request(opts: &Opts) -> (r: SurfaceRequest)
    ensures
        r == spec_negotiation_request(*opts),
{
    SurfaceRequest {
        width: opts.width,
        height: opts.height,
        layer: opts.layer,
        anchor: opts.anchor,
        margin: opts.margin,
        exclusive_zone: opts.exclusive_zone,
        namespace: match &opts.namespace {
            Some(n) => Some(n.clone()),
            None => None,
        },
        keyboard_interactivity: KeyboardInteractivity::OnDemand,
    }
}

/// Width, height, layer, anchor, margin and exclusive zone of a valid
/// configuration round-trip unchanged into the negotiated surface
/// request.
pub proof fn lemma_config_round_trip(o: Opts)
    requires
        o.wf(),
    ensures
        spec_negotiation_request(o).width == o.width,
        spec_negotiation_request(o).height == o.height,
        spec_negotiation_request(o).layer == o.layer,
        spec_negotiation_request(o).anchor == o.anchor,
        spec_negotiation_request(o).margin == o.margin,
        spec_negotiation_request(o).exclusive_zone == o.exclusive_zone,
{
}

/// Configuration extraction is a function of the record alone: equal
/// structured records always yield the same surface configuration.
pub proof fn lemma_extraction_deterministic(r1: ConfigRecord, r2: ConfigRecord)
    requires
        r1 == r2,
    ensures
        spec_parse_config(r1) == spec_parse_config(r2),
{
}

} // verus!
