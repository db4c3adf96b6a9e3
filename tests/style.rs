use vsml::ast::Rule;
use vsml::number::Decimal;
use vsml::schemas::{Color, Duration, LayerMode, Length, Order, TextStyleData};
use vsml::style::{element_defaults, RuleError, RuleStyle};

fn rule(property: &str, value: &str) -> Rule {
    Rule {
        property: property.to_string(),
        value: value.to_string(),
    }
}

fn fresh() -> RuleStyle {
    RuleStyle::new(
        Order::Sequence,
        LayerMode::Multi,
        TextStyleData {
            color: None,
            font_family: vec!["Georgia".to_string()],
        },
    )
}

#[test]
fn rules_set_their_properties() {
    let mut style = fresh();
    style.process_rule(&rule("order", "parallel")).unwrap();
    style.process_rule(&rule("layer-mode", "single")).unwrap();
    style.process_rule(&rule("duration", "10s")).unwrap();
    style.process_rule(&rule("width", "50px")).unwrap();
    style.process_rule(&rule("background-color", "rgba(100, 150, 200, 128)")).unwrap();
    style.process_rule(&rule("font-family", "Arial")).unwrap();
    style.process_rule(&rule("unknown-property", "whatever")).unwrap();
    assert_eq!(style.order, Order::Parallel);
    assert_eq!(style.layer_mode, LayerMode::Single);
    assert_eq!(style.duration, Some(Duration::Second(Decimal { digits: 10, scale: 0 })));
    assert_eq!(style.width, Some(Length::Pixel(Decimal { digits: 50, scale: 0 })));
    assert_eq!(style.height, None);
    assert_eq!(
        style.background_color,
        Some(Color { r: 100, g: 150, b: 200, a: 128 })
    );
    assert_eq!(
        style.text_style.font_family,
        vec!["Arial".to_string(), "Georgia".to_string()]
    );
}

#[test]
fn later_rules_win() {
    let mut style = fresh();
    style.process_rule(&rule("order", "parallel")).unwrap();
    style.process_rule(&rule("order", "sequence")).unwrap();
    assert_eq!(style.order, Order::Sequence);
}

#[test]
fn unreadable_values_are_refused() {
    let mut style = fresh();
    assert_eq!(
        style.process_rule(&rule("order", "sideways")),
        Err(RuleError {
            property: "order".to_string(),
            value: "sideways".to_string()
        })
    );
    assert!(style.process_rule(&rule("duration", "10")).is_err());
    assert!(style.process_rule(&rule("font-color", "nocolor")).is_err());
    assert_eq!(style.order, Order::Sequence);
    assert_eq!(style.duration, None);
}

#[test]
fn tag_defaults() {
    assert_eq!(element_defaults("cont"), (true, Order::Sequence, LayerMode::Multi));
    assert_eq!(element_defaults("seq"), (true, Order::Sequence, LayerMode::Multi));
    assert_eq!(element_defaults("prl"), (true, Order::Parallel, LayerMode::Multi));
    assert_eq!(element_defaults("layer"), (true, Order::Parallel, LayerMode::Single));
    assert_eq!(element_defaults("img"), (false, Order::Sequence, LayerMode::Multi));
}
