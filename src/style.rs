use crate::ast::Rule;
use crate::schemas::{
    audio_volume_of, color_of, duration_of, font_families, length_of, AudioVolume, Color, Duration,
    LayerMode, Length, Order, TextStyleData,
};
use crate::text::{chars_of, str_is, string_of, strings_view};
use vstd::prelude::*;

verus! {

/// What the declarations that apply to an element set, each value read but not yet
/// resolved against the element's surroundings.
pub struct RuleStyle {
    pub order: Order,
    pub layer_mode: LayerMode,
    pub duration: Option<Duration>,
    pub text_style: TextStyleData,
    pub font_size: Option<Length>,
    pub audio_volume: Option<AudioVolume>,
    pub background_color: Option<Color>,
    pub width: Option<Length>,
    pub height: Option<Length>,
}

/// A declaration whose value could not be read.
#[derive(Debug, PartialEq, Eq)]
pub struct RuleError {
    pub property: String,
    pub value: String,
}

/// The properties a declaration can set.
#[derive(Clone, Copy, Debug, PartialEq, Eq, Structural)]
pub enum StyleProperty {
    Order,
    LayerMode,
    Duration,
    FontColor,
    FontFamily,
    FontSize,
    AudioVolume,
    BackgroundColor,
    Width,
    Height,
}

/// The property a name stands for; other names set nothing.
pub open spec fn property_of(name: Seq<char>) -> Option<StyleProperty> {
    if name == "order"@ {
        Some(StyleProperty::Order)
    } else if name == "layer-mode"@ {
        Some(StyleProperty::LayerMode)
    } else if name == "duration"@ {
        Some(StyleProperty::Duration)
    } else if name == "font-color"@ {
        Some(StyleProperty::FontColor)
    } else if name == "font-family"@ {
        Some(StyleProperty::FontFamily)
    } else if name == "font-size"@ {
        Some(StyleProperty::FontSize)
    } else if name == "audio-volume"@ {
        Some(StyleProperty::AudioVolume)
    } else if name == "background-color"@ {
        Some(StyleProperty::BackgroundColor)
    } else if name == "width"@ {
        Some(StyleProperty::Width)
    } else if name == "height"@ {
        Some(StyleProperty::Height)
    } else {
        None
    }
}

pub open spec fn order_of(s: Seq<char>) -> Option<Order> {
    if s == "sequence"@ {
        Some(Order::Sequence)
    } else if s == "parallel"@ {
        Some(Order::Parallel)
    } else {
        None
    }
}

pub open spec fn layer_mode_of(s: Seq<char>) -> Option<LayerMode> {
    if s == "multi"@ {
        Some(LayerMode::Multi)
    } else if s == "single"@ {
        Some(LayerMode::Single)
    } else {
        None
    }
}

/// Whether `b` equals `a` in every property but `p`.
pub open spec fn same_but(a: RuleStyle, b: RuleStyle, p: StyleProperty) -> bool {
    &&& (p != StyleProperty::Order ==> b.order == a.order)
    &&& (p != StyleProperty::LayerMode ==> b.layer_mode == a.layer_mode)
    &&& (p != StyleProperty::Duration ==> b.duration == a.duration)
    &&& (p != StyleProperty::FontColor ==> b.text_style.color == a.text_style.color)
    &&& (p != StyleProperty::FontFamily ==> strings_view(b.text_style.font_family@)
        == strings_view(a.text_style.font_family@))
    &&& (p != StyleProperty::FontSize ==> b.font_size == a.font_size)
    &&& (p != StyleProperty::AudioVolume ==> b.audio_volume == a.audio_volume)
    &&& (p != StyleProperty::BackgroundColor ==> b.background_color == a.background_color)
    &&& (p != StyleProperty::Width ==> b.width == a.width)
    &&& (p != StyleProperty::Height ==> b.height == a.height)
}

/// Whether `b` is `a` with property `p` set from the value `v`; false where `v` cannot be
/// read for `p`.
pub open spec fn sets(a: RuleStyle, b: RuleStyle, p: StyleProperty, v: Seq<char>) -> bool {
    same_but(a, b, p) && match p {
        StyleProperty::Order => order_of(v) == Some(b.order),
        StyleProperty::LayerMode => layer_mode_of(v) == Some(b.layer_mode),
        StyleProperty::Duration => duration_of(v) matches Ok(d) && b.duration == Some(d),
        StyleProperty::FontColor => color_of(v) matches Some(c) && b.text_style.color == Some(c),
        StyleProperty::FontFamily => strings_view(b.text_style.font_family@) == font_families(v)
            + strings_view(a.text_style.font_family@),
        StyleProperty::FontSize => length_of(v) matches Ok(l) && b.font_size == Some(l),
        StyleProperty::AudioVolume => audio_volume_of(v) matches Ok(x) && b.audio_volume == Some(
            x,
        ),
        StyleProperty::BackgroundColor => color_of(v) matches Some(c) && b.background_color
            == Some(c),
        StyleProperty::Width => length_of(v) matches Ok(l) && b.width == Some(l),
        StyleProperty::Height => length_of(v) matches Ok(l) && b.height == Some(l),
    }
}

/// Whether the value `v` can be read for property `p`.
pub open spec fn readable(p: StyleProperty, v: Seq<char>) -> bool {
    match p {
        StyleProperty::Order => order_of(v) is Some,
        StyleProperty::LayerMode => layer_mode_of(v) is Some,
        StyleProperty::Duration => duration_of(v) is Ok,
        StyleProperty::FontColor => color_of(v) is Some,
        StyleProperty::FontFamily => true,
        StyleProperty::FontSize => length_of(v) is Ok,
        StyleProperty::AudioVolume => audio_volume_of(v) is Ok,
        StyleProperty::BackgroundColor => color_of(v) is Some,
        StyleProperty::Width => length_of(v) is Ok,
        StyleProperty::Height => length_of(v) is Ok,
    }
}

fn property_named(name: &str) -> (r: Option<StyleProperty>)
    ensures
        r == property_of(name@),
{
    if str_is(name, "order") {
        Some(StyleProperty::Order)
    } else if str_is(name, "layer-mode") {
        Some(StyleProperty::LayerMode)
    } else if str_is(name, "duration") {
        Some(StyleProperty::Duration)
    } else if str_is(name, "font-color") {
        Some(StyleProperty::FontColor)
    } else if str_is(name, "font-family") {
        Some(StyleProperty::FontFamily)
    } else if str_is(name, "font-size") {
        Some(StyleProperty::FontSize)
    } else if str_is(name, "audio-volume") {
        Some(StyleProperty::AudioVolume)
    } else if str_is(name, "background-color") {
        Some(StyleProperty::BackgroundColor)
    } else if str_is(name, "width") {
        Some(StyleProperty::Width)
    } else if str_is(name, "height") {
        Some(StyleProperty::Height)
    } else {
        None
    }
}

/// Whether a tag only groups its children (`cont`, `seq`, `prl`, `layer`) rather than
/// standing for content that a processor makes.
pub open spec fn is_wrap_tag(name: Seq<char>) -> bool {
    name == "cont"@ || name == "seq"@ || name == "prl"@ || name == "layer"@
}

/// What a tag starts from before any declaration: whether it only groups its children, its
/// order (`prl` and `layer` play their children together, every other tag one after
/// another) and its layer mode (`layer` lines its children up, every other tag stacks them).
pub fn element_defaults(name: &str) -> (r: (bool, Order, LayerMode))
    ensures
        r.0 == is_wrap_tag(name@),
        r.1 == if name@ == "prl"@ || name@ == "layer"@ {
            Order::Parallel
        } else {
            Order::Sequence
        },
        r.2 == if name@ == "layer"@ {
            LayerMode::Single
        } else {
            LayerMode::Multi
        },
{
    let is_layer = str_is(name, "layer");
    let is_prl = str_is(name, "prl");
    let wrap = str_is(name, "cont") || str_is(name, "seq") || is_prl || is_layer;
    let order = if is_prl || is_layer {
        Order::Parallel
    } else {
        Order::Sequence
    };
    let layer_mode = if is_layer {
        LayerMode::Single
    } else {
        LayerMode::Multi
    };
    (wrap, order, layer_mode)
}

fn copy_string(s: &String) -> (r: String)
    ensures
        r@ == s@,
{
    string_of(chars_of(s.as_str()).as_slice())
}

impl RuleStyle {
    /// The state before any declaration: the element's defaults and the inherited text style.
    pub fn new(order: Order, layer_mode: LayerMode, text_style: TextStyleData) -> (r: RuleStyle)
        ensures
            r.order == order,
            r.layer_mode == layer_mode,
            r.duration is None,
            r.text_style == text_style,
            r.font_size is None,
            r.audio_volume is None,
            r.background_color is None,
            r.width is None,
            r.height is None,
    {
        RuleStyle {
            order,
            layer_mode,
            duration: None,
            text_style,
            font_size: None,
            audio_volume: None,
            background_color: None,
            width: None,
            height: None,
        }
    }

    /// Applies one declaration. A property name that sets nothing is ignored; a value that
    /// cannot be read is refused, and the style is then left as it was.
    pub fn process_rule(&mut self, rule: &Rule) -> (r: Result<(), RuleError>)
        ensures
            match property_of(rule.property@) {
                None => r is Ok && same_but(*old(self), *final(self), StyleProperty::Order)
                    && final(self).order == old(self).order,
                Some(p) => if readable(p, rule.value@) {
                    r is Ok && sets(*old(self), *final(self), p, rule.value@)
                } else {
                    r matches Err(e) && e.property@ == rule.property@ && e.value@ == rule.value@
                        && same_but(*old(self), *final(self), StyleProperty::Order)
                        && final(self).order == old(self).order
                },
            },
    {
        let p = match property_named(rule.property.as_str()) {
            Some(p) => p,
            None => {
                return Ok(());
            },
        };
        let v = rule.value.as_str();
        let ok = match p {
            StyleProperty::Order => match Order::parse(v) {
                Ok(o) => {
                    self.order = o;
                    true
                },
                Err(_) => false,
            },
            StyleProperty::LayerMode => match LayerMode::parse(v) {
                Ok(m) => {
                    self.layer_mode = m;
                    true
                },
                Err(_) => false,
            },
            StyleProperty::Duration => match Duration::parse(v) {
                Ok(d) => {
                    self.duration = Some(d);
                    true
                },
                Err(_) => false,
            },
            StyleProperty::FontColor => match Color::parse(v) {
                Ok(c) => {
                    self.text_style.color = Some(c);
                    true
                },
                Err(_) => false,
            },
            StyleProperty::FontFamily => {
                self.text_style.apply_font_family(v);
                true
            },
            StyleProperty::FontSize => match Length::parse(v) {
                Ok(l) => {
                    self.font_size = Some(l);
                    true
                },
                Err(_) => false,
            },
            StyleProperty::AudioVolume => match AudioVolume::parse(v) {
                Ok(x) => {
                    self.audio_volume = Some(x);
                    true
                },
                Err(_) => false,
            },
            StyleProperty::BackgroundColor => match Color::parse(v) {
                Ok(c) => {
                    self.background_color = Some(c);
                    true
                },
                Err(_) => false,
            },
            StyleProperty::Width => match Length::parse(v) {
                Ok(l) => {
                    self.width = Some(l);
                    true
                },
                Err(_) => false,
            },
            StyleProperty::Height => match Length::parse(v) {
                Ok(l) => {
                    self.height = Some(l);
                    true
                },
                Err(_) => false,
            },
        };
        if ok {
            Ok(())
        } else {
            Err(RuleError { property: copy_string(&rule.property), value: copy_string(&rule.value) })
        }
    }
}

} // verus!
