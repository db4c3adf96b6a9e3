use vsml::schemas::{
    parse_font_family, Color, ColorParseError, LayerMode, LayerModeParseError, Order,
    OrderParseError, TextStyleData,
};

#[test]
fn test_parse_layer_mode() {
    assert_eq!("multi".parse::<LayerMode>(), Ok(LayerMode::Multi));
    assert_eq!("single".parse::<LayerMode>(), Ok(LayerMode::Single));
    assert_eq!(
        "unknown".parse::<LayerMode>(),
        Err(LayerModeParseError::UnknownMode)
    );
}

#[test]
fn test_parse_order() {
    assert_eq!("sequence".parse::<Order>(), Ok(Order::Sequence));
    assert_eq!("parallel".parse::<Order>(), Ok(Order::Parallel));
    assert_eq!(
        "unknown".parse::<Order>(),
        Err(OrderParseError::UnknownMode)
    );
}

#[test]
fn test_font_family_unquoted() {
    let result = parse_font_family("Arial");
    assert_eq!(result, vec!["Arial".to_string()]);
}

#[test]
fn test_font_family_multiple_with_whitespace() {
    let result = parse_font_family(" Arial ,  sans-serif ");
    assert_eq!(result, vec!["Arial".to_string(), "sans-serif".to_string()]);
}

#[test]
fn test_font_family_escaped_comma() {
    let result = parse_font_family(r"a\, b");
    assert_eq!(result, vec!["a, b".to_string()]);
}

#[test]
fn test_font_family_single_quoted() {
    let result = parse_font_family("'Times New Roman'");
    assert_eq!(result, vec!["Times New Roman".to_string()]);
}

#[test]
fn test_font_family_double_quoted() {
    let result = parse_font_family("\"Meiryo\"");
    assert_eq!(result, vec!["Meiryo".to_string()]);
}

#[test]
fn test_font_family_escaped_quotes() {
    let result = parse_font_family("\"\\\"hoge\\\"\"");
    assert_eq!(result, vec!["\"hoge\"".to_string()]);
}

#[test]
fn font_family_list_with_quotes_and_empty_items() {
    let result = parse_font_family("Arial, 'MS Gothic', , sans-serif,");
    assert_eq!(
        result,
        vec![
            "Arial".to_string(),
            "MS Gothic".to_string(),
            "sans-serif".to_string()
        ]
    );
    assert!(parse_font_family("  ").is_empty());
}

#[test]
fn font_family_inner_rule_comes_first() {
    let mut style = TextStyleData {
        color: None,
        font_family: vec![],
    };
    style.apply_font_family("Georgia");
    style.apply_font_family("Arial");
    assert_eq!(
        style.font_family,
        vec!["Arial".to_string(), "Georgia".to_string()]
    );
    assert_eq!(style.color, None);
}

#[test]
fn font_family_prepends_to_inherited_stack() {
    let mut style = TextStyleData {
        color: Some(Color::white()),
        font_family: vec!["A".to_string(), "B".to_string()],
    };
    style.apply_font_family("C");
    assert_eq!(
        style.font_family,
        vec!["C".to_string(), "A".to_string(), "B".to_string()]
    );
    assert_eq!(style.color, Some(Color::white()));
}

fn rgba(r: u8, g: u8, b: u8, a: u8) -> Color {
    Color { r, g, b, a }
}

#[test]
fn color_hex_forms() {
    assert_eq!("#ff0000".parse::<Color>(), Ok(rgba(255, 0, 0, 255)));
    assert_eq!("#f00".parse::<Color>(), Ok(rgba(255, 0, 0, 255)));
    assert_eq!("#1234".parse::<Color>(), Ok(rgba(0x11, 0x22, 0x33, 0x44)));
    assert_eq!("#0A0b0C80".parse::<Color>(), Ok(rgba(10, 11, 12, 128)));
    assert_eq!("#12345".parse::<Color>(), Err(ColorParseError::UnknownMode));
    assert_eq!("#12g".parse::<Color>(), Err(ColorParseError::UnknownMode));
    assert_eq!("#".parse::<Color>(), Err(ColorParseError::UnknownMode));
}

#[test]
fn color_functional_forms() {
    assert_eq!("rgb(0, 255, 0)".parse::<Color>(), Ok(rgba(0, 255, 0, 255)));
    assert_eq!(
        "rgba(100, 150, 200, 128)".parse::<Color>(),
        Ok(rgba(100, 150, 200, 128))
    );
    assert_eq!(
        "rgba(100,150,200,128)".parse::<Color>(),
        Ok(rgba(100, 150, 200, 128))
    );
    assert_eq!("rgb( 7 ,8,9 )".parse::<Color>(), Ok(rgba(7, 8, 9, 255)));
    assert_eq!("rgb(256, 0, 0)".parse::<Color>(), Err(ColorParseError::UnknownMode));
    assert_eq!("rgb(1, 2)".parse::<Color>(), Err(ColorParseError::UnknownMode));
    assert_eq!("rgb(1, 2, 3) ".parse::<Color>(), Err(ColorParseError::UnknownMode));
    assert_eq!("rgba(1, 2, 3)".parse::<Color>(), Err(ColorParseError::UnknownMode));
}

#[test]
fn color_hex_and_rgb_agree() {
    assert_eq!("#6496c8".parse::<Color>(), "rgb(100, 150, 200)".parse::<Color>());
    assert_eq!("#000000".parse::<Color>(), "rgb(0,0,0)".parse::<Color>());
}

#[test]
fn color_names() {
    assert_eq!("red".parse::<Color>(), Ok(rgba(255, 0, 0, 255)));
    assert_eq!("darkgrey".parse::<Color>(), Ok(rgba(169, 169, 169, 255)));
    assert_eq!("darkgray".parse::<Color>(), Ok(rgba(169, 169, 169, 255)));
    assert_eq!("yellowgreen".parse::<Color>(), Ok(rgba(154, 205, 50, 255)));
    assert_eq!("Red".parse::<Color>(), Err(ColorParseError::UnknownMode));
    assert_eq!("".parse::<Color>(), Err(ColorParseError::UnknownMode));
}

#[test]
fn color_white() {
    assert_eq!(Color::white(), rgba(255, 255, 255, 255));
}

use vsml::number::Decimal;
use vsml::schemas::{AudioVolume, AudioVolumeParseError, Duration, DurationParseError, Length, LengthParseError};

fn dec(digits: u64, scale: u32) -> Decimal {
    Decimal { digits, scale }
}

#[test]
fn test_parse_duration() {
    assert_eq!("fit".parse::<Duration>(), Ok(Duration::Fit));
    assert_eq!("0".parse::<Duration>(), Ok(Duration::Frame(0)));
    assert_eq!("1f".parse::<Duration>(), Ok(Duration::Frame(1)));
    assert_eq!("1s".parse::<Duration>(), Ok(Duration::Second(dec(1, 0))));
    assert_eq!("1.0s".parse::<Duration>(), Ok(Duration::Second(dec(1, 0))));
    assert_eq!("1%".parse::<Duration>(), Ok(Duration::Percent(dec(1, 0))));
    assert_eq!("1.0%".parse::<Duration>(), Ok(Duration::Percent(dec(1, 0))));
    assert_eq!(
        "1.0".parse::<Duration>(),
        Err(DurationParseError::UnknownUnit)
    );
    assert_eq!(
        "1".parse::<Duration>(),
        Err(DurationParseError::UnknownUnit)
    );
}

#[test]
fn duration_values() {
    assert_eq!("fit".parse::<Duration>(), Ok(Duration::Fit));
    assert_eq!("0".parse::<Duration>(), Ok(Duration::Frame(0)));
    assert_eq!("1f".parse::<Duration>(), Ok(Duration::Frame(1)));
    assert_eq!("120f".parse::<Duration>(), Ok(Duration::Frame(120)));
    assert_eq!("1s".parse::<Duration>(), Ok(Duration::Second(dec(1, 0))));
    assert_eq!("1.0s".parse::<Duration>(), Ok(Duration::Second(dec(1, 0))));
    assert_eq!("0.50s".parse::<Duration>(), Ok(Duration::Second(dec(5, 1))));
    assert_eq!("5.5s".parse::<Duration>(), Ok(Duration::Second(dec(55, 1))));
    assert_eq!("1%".parse::<Duration>(), Ok(Duration::Percent(dec(1, 0))));
    assert_eq!("50%".parse::<Duration>(), Ok(Duration::Percent(dec(50, 0))));
    assert_eq!("1.0".parse::<Duration>(), Err(DurationParseError::UnknownUnit));
    assert_eq!("1".parse::<Duration>(), Err(DurationParseError::UnknownUnit));
    assert_eq!("s".parse::<Duration>(), Err(DurationParseError::NumberParseError));
    assert_eq!("1.5f".parse::<Duration>(), Err(DurationParseError::NumberParseError));
    assert_eq!("1..5s".parse::<Duration>(), Err(DurationParseError::NumberParseError));
}

#[test]
fn audio_volume_values() {
    assert_eq!("50%".parse::<AudioVolume>(), Ok(AudioVolume::Percent(dec(50, 0))));
    assert_eq!("150%".parse::<AudioVolume>(), Ok(AudioVolume::Percent(dec(150, 0))));
    assert_eq!("0%".parse::<AudioVolume>(), Ok(AudioVolume::Percent(dec(0, 0))));
    assert_eq!("50".parse::<AudioVolume>(), Err(AudioVolumeParseError::UnknownUnit));
    assert_eq!("x%".parse::<AudioVolume>(), Err(AudioVolumeParseError::NumberParseError));
}

#[test]
fn length_values() {
    assert_eq!("0".parse::<Length>(), Ok(Length::Pixel(dec(0, 0))));
    assert_eq!("500px".parse::<Length>(), Ok(Length::Pixel(dec(500, 0))));
    assert_eq!("50rw".parse::<Length>(), Ok(Length::ResolutionWidth(dec(50, 0))));
    assert_eq!("75rh".parse::<Length>(), Ok(Length::ResolutionHeight(dec(75, 0))));
    assert_eq!("12.5%".parse::<Length>(), Ok(Length::Percent(dec(125, 1))));
    assert_eq!("10em".parse::<Length>(), Err(LengthParseError::UnknownUnit));
    assert_eq!("apx".parse::<Length>(), Err(LengthParseError::NumberParseError));
}

#[test]
fn duration_text_reads_back() {
    for text in ["1s", "1f", "1%", "fit", "0.005s", "12.50%", "0f"] {
        let d: Duration = text.parse().unwrap();
        assert_eq!(d.text().parse::<Duration>(), Ok(d));
    }
    assert_eq!(Duration::Second(dec(5, 3)).text(), "0.005s");
    assert_eq!(Duration::Second(dec(55, 1)).text(), "5.5s");
    assert_eq!(Duration::Frame(120).text(), "120f");
    assert_eq!(Duration::Fit.text(), "fit");
    assert_eq!(dec(1250, 2).text(), vec!['1', '2', '.', '5', '0']);
}
