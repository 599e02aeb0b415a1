use telemetryforge::schema::WidgetKind;
use telemetryforge::text::replace_str;
use telemetryforge::widgets::{
    condition, gif_frame_index, gif_frame_ms, history_field, layer_padding, numeric_field, parse_colour, renderer_sleep_ms, scale_maximum,
    signature_maximum, weather_icon, widget_text, HistoryField, SensorField,
};

#[test]
fn maps_wmo_weather_codes() {
    assert_eq!(condition(0), "Clear");
    assert_eq!(condition(63), "Rain");
    assert_eq!(condition(95), "Thunderstorm");
}

#[test]
fn weather_codes_select_clear_rain_and_storm_icons() {
    assert_eq!(weather_icon(0), "☀");
    assert_eq!(weather_icon(63), "☔");
    assert_eq!(weather_icon(95), "⚡");
}

#[test]
fn every_weather_group_has_its_text_and_icon() {
    let cases = [
        (1, "Mostly clear", "☀"),
        (2, "Partly cloudy", "⛅"),
        (3, "Overcast", "☁"),
        (48, "Fog", "≋"),
        (57, "Drizzle", "☂"),
        (67, "Rain", "☔"),
        (77, "Snow", "❄"),
        (81, "Rain showers", "☔"),
        (86, "Snow showers", "❄"),
        (99, "Thunderstorm", "⚡"),
        (4, "Unknown", "?"),
        (100, "Unknown", "?"),
    ];
    for (code, text, icon) in cases {
        assert_eq!(condition(code), text);
        assert_eq!(weather_icon(code), icon);
    }
}

#[test]
fn colours_are_read_from_hex_text() {
    assert_eq!(parse_colour("#ff8000"), [255, 128, 0]);
    assert_eq!(parse_colour("  ##00FF00 "), [0, 255, 0]);
    assert_eq!(parse_colour("123456"), [0x12, 0x34, 0x56]);
    assert_eq!(parse_colour("+abcde"), [0x0a, 0xbc, 0xde]);
}

#[test]
fn unreadable_colours_are_white() {
    assert_eq!(parse_colour("#fff"), [255, 255, 255]);
    assert_eq!(parse_colour("#zzzzzz"), [255, 255, 255]);
    assert_eq!(parse_colour("-12345"), [255, 255, 255]);
    assert_eq!(parse_colour(""), [255, 255, 255]);
    assert_eq!(parse_colour("#1234567"), [255, 255, 255]);
    assert_eq!(parse_colour("#éé12"), [255, 255, 255]);
}

#[test]
fn widget_kinds_read_their_sensor() {
    assert_eq!(numeric_field(WidgetKind::Volume), Some(SensorField::SystemVolume));
    assert_eq!(numeric_field(WidgetKind::WeatherWind), Some(SensorField::WeatherWindSpeed));
    assert_eq!(numeric_field(WidgetKind::Clock), None);
    assert_eq!(history_field(WidgetKind::CpuClock), Some(HistoryField::Cpu));
    assert_eq!(history_field(WidgetKind::NetworkUpload), Some(HistoryField::NetworkUpload));
    assert_eq!(history_field(WidgetKind::RamUsage), None);
}

#[test]
fn scales_follow_the_reading() {
    assert_eq!(scale_maximum(WidgetKind::CpuClock), 6000);
    assert_eq!(scale_maximum(WidgetKind::GpuPower), 600);
    assert_eq!(scale_maximum(WidgetKind::FanSpeed), 3000);
    assert_eq!(scale_maximum(WidgetKind::NetworkDownload), 10000);
    assert_eq!(scale_maximum(WidgetKind::WeatherTemperature), 50);
    assert_eq!(scale_maximum(WidgetKind::WeatherWind), 150);
    assert_eq!(scale_maximum(WidgetKind::CpuUsage), 100);
    assert_eq!(signature_maximum(WidgetKind::WeatherWind), 100);
    assert_eq!(signature_maximum(WidgetKind::CpuClock), 6000);
}

#[test]
fn layer_padding_saturates() {
    assert_eq!(layer_padding(0, 0), 6);
    assert_eq!(layer_padding(6, 3), 24);
    assert_eq!(layer_padding(2, 5), 16);
    assert_eq!(layer_padding(100, 0), 255);
    assert_eq!(layer_padding(83, 0), 255);
}

#[test]
fn renderer_pacing_is_clamped() {
    assert_eq!(renderer_sleep_ms(true, false, 500), 50);
    assert_eq!(renderer_sleep_ms(false, true, 500), 100);
    assert_eq!(renderer_sleep_ms(false, false, 500), 500);
    assert_eq!(renderer_sleep_ms(false, false, 5), 50);
    assert_eq!(renderer_sleep_ms(false, false, 5000), 1000);
}

#[test]
fn gif_frames_advance_with_time() {
    assert_eq!(gif_frame_ms(10), 100);
    assert_eq!(gif_frame_ms(0), 1000);
    assert_eq!(gif_frame_ms(60), 33);
    assert_eq!(gif_frame_index(250, 10, 4, true), 2);
    assert_eq!(gif_frame_index(450, 10, 4, true), 0);
    assert_eq!(gif_frame_index(450, 10, 4, false), 3);
    assert_eq!(gif_frame_index(99, 10, 1, false), 0);
}

#[test]
fn text_widgets_fill_in_their_value() {
    assert_eq!(widget_text("CPU ", "{value}°C", "52", ""), "CPU 52°C");
    assert_eq!(widget_text("", "{value:.0}% of {value}", "7", "!"), "7% of 7!");
    assert_eq!(widget_text("a", "no value", "9", "b"), "ano valueb");
}

#[test]
fn replacing_text_matches_str_replace() {
    for (s, needle, replacement) in [
        ("aaaa", "aa", "b"),
        ("abcabc", "bc", "XYZ"),
        ("abc", "abcd", "x"),
        ("", "x", "y"),
        ("héllo wörld", "ö", "oe"),
    ] {
        assert_eq!(replace_str(s, needle, replacement), s.replace(needle, replacement));
    }
}
