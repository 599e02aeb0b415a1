//! What the widgets show: weather texts and icons, colours written as hex
//! text, which sensor reading a widget kind displays and on what scale, and
//! the renderer's pacing and background choice.
use vstd::prelude::*;
use crate::schema::WidgetKind;
use crate::text::{chars_of, trim, trim_bounds};

verus! {

/// The description of a WMO weather code.
pub open spec fn condition_text(code: u16) -> Seq<char> {
    if code == 0 {
        "Clear"@
    } else if code == 1 {
        "Mostly clear"@
    } else if code == 2 {
        "Partly cloudy"@
    } else if code == 3 {
        "Overcast"@
    } else if code == 45 || code == 48 {
        "Fog"@
    } else if code == 51 || code == 53 || code == 55 || code == 56 || code == 57 {
        "Drizzle"@
    } else if code == 61 || code == 63 || code == 65 || code == 66 || code == 67 {
        "Rain"@
    } else if code == 71 || code == 73 || code == 75 || code == 77 {
        "Snow"@
    } else if 80 <= code <= 82 {
        "Rain showers"@
    } else if code == 85 || code == 86 {
        "Snow showers"@
    } else if 95 <= code <= 99 {
        "Thunderstorm"@
    } else {
        "Unknown"@
    }
}

/// Describes a WMO weather code.
pub fn condition(code: u16) -> (text: &'static str)
    ensures
        text@ == condition_text(code),
{
    if code == 0 {
        "Clear"
    } else if code == 1 {
        "Mostly clear"
    } else if code == 2 {
        "Partly cloudy"
    } else if code == 3 {
        "Overcast"
    } else if code == 45 || code == 48 {
        "Fog"
    } else if code == 51 || code == 53 || code == 55 || code == 56 || code == 57 {
        "Drizzle"
    } else if code == 61 || code == 63 || code == 65 || code == 66 || code == 67 {
        "Rain"
    } else if code == 71 || code == 73 || code == 75 || code == 77 {
        "Snow"
    } else if 80 <= code && code <= 82 {
        "Rain showers"
    } else if code == 85 || code == 86 {
        "Snow showers"
    } else if 95 <= code && code <= 99 {
        "Thunderstorm"
    } else {
        "Unknown"
    }
}

/// The symbol drawn for a WMO weather code.
pub open spec fn weather_icon_text(code: u16) -> Seq<char> {
    if code == 0 || code == 1 {
        "☀"@
    } else if code == 2 {
        "⛅"@
    } else if code == 3 {
        "☁"@
    } else if code == 45 || code == 48 {
        "≋"@
    } else if code == 51 || code == 53 || code == 55 || code == 56 || code == 57 {
        "☂"@
    } else if code == 61 || code == 63 || code == 65 || code == 66 || code == 67 || (80 <= code <= 82) {
        "☔"@
    } else if code == 71 || code == 73 || code == 75 || code == 77 || code == 85 || code == 86 {
        "❄"@
    } else if 95 <= code <= 99 {
        "⚡"@
    } else {
        "?"@
    }
}

/// Picks the symbol for a WMO weather code.
pub fn weather_icon(code: u16) -> (icon: &'static str)
    ensures
        icon@ == weather_icon_text(code),
{
    if code == 0 || code == 1 {
        "☀"
    } else if code == 2 {
        "⛅"
    } else if code == 3 {
        "☁"
    } else if code == 45 || code == 48 {
        "≋"
    } else if code == 51 || code == 53 || code == 55 || code == 56 || code == 57 {
        "☂"
    } else if code == 61 || code == 63 || code == 65 || code == 66 || code == 67 || (80 <= code
        && code <= 82) {
        "☔"
    } else if code == 71 || code == 73 || code == 75 || code == 77 || code == 85 || code == 86 {
        "❄"
    } else if 95 <= code && code <= 99 {
        "⚡"
    } else {
        "?"
    }
}

} // verus!

verus! {

/// `s` without its leading '#' characters (`trim_start_matches('#')`).
pub open spec fn strip_hashes(s: Seq<char>) -> Seq<char>
    decreases s.len(),
{
    if s.len() > 0 && s[0] == '#' {
        strip_hashes(s.drop_first())
    } else {
        s
    }
}

/// The value of a hexadecimal digit (either case).
pub open spec fn hex_digit(c: char) -> Option<int> {
    if '0' <= c <= '9' {
        Some(c as int - '0' as int)
    } else if 'a' <= c <= 'f' {
        Some(c as int - 'a' as int + 10)
    } else if 'A' <= c <= 'F' {
        Some(c as int - 'A' as int + 10)
    } else {
        None
    }
}

/// The value of a run of hexadecimal digits, if every character is one.
pub open spec fn hex_digits_value(digits: Seq<char>) -> Option<int>
    decreases digits.len(),
{
    if digits.len() == 0 {
        Some(0)
    } else {
        match (hex_digits_value(digits.drop_last()), hex_digit(digits.last())) {
            (Some(high), Some(low)) => Some(high * 16 + low),
            _ => None,
        }
    }
}

/// `u32::from_str_radix(s, 16)` for texts of at most 8 characters: an
/// optional '+' then at least one hexadecimal digit.
pub open spec fn hex_number(s: Seq<char>) -> Option<int> {
    if s.len() == 0 {
        None
    } else if s[0] == '+' {
        if s.len() == 1 {
            None
        } else {
            hex_digits_value(s.drop_first())
        }
    } else {
        hex_digits_value(s)
    }
}

/// The colour a "#rrggbb" text stands for: surrounding white space and any
/// number of leading '#' are ignored; what remains must be six bytes that
/// `u32::from_str_radix(_, 16)` reads. Anything else is white.
pub open spec fn colour_of(text: Seq<char>) -> [u8; 3] {
    let hex = strip_hashes(trim(text));
    if vstd::utf8::encode_utf8(hex).len() == 6 {
        match hex_number(hex) {
            Some(v) => [(v / 0x10000 % 0x100) as u8, (v / 0x100 % 0x100) as u8, (v % 0x100) as u8],
            None => [255u8, 255u8, 255u8],
        }
    } else {
        [255u8, 255u8, 255u8]
    }
}

proof fn lemma_strip_hashes_skip(s: Seq<char>, i: int)
    requires
        0 <= i <= s.len(),
        forall|j: int| 0 <= j < i ==> s[j] == '#',
    ensures
        strip_hashes(s) == strip_hashes(s.subrange(i, s.len() as int)),
    decreases i,
{
    if i > 0 {
        assert(s.drop_first().subrange(i - 1, s.drop_first().len() as int) == s.subrange(i, s.len() as int));
        lemma_strip_hashes_skip(s.drop_first(), i - 1);
    } else {
        assert(s.subrange(0, s.len() as int) == s);
    }
}

/// The largest value of `k` hexadecimal digits, for `k` up to six.
spec fn hex_bound(k: int) -> int {
    if k <= 0 {
        0
    } else if k == 1 {
        0xf
    } else if k == 2 {
        0xff
    } else if k == 3 {
        0xfff
    } else if k == 4 {
        0xffff
    } else if k == 5 {
        0xfffff
    } else {
        0xffffff
    }
}

proof fn lemma_hex_prefix_invalid(s: Seq<char>, from: int, bad: int, to: int)
    requires
        0 <= from <= bad <= to <= s.len(),
        hex_digits_value(s.subrange(from, bad)) is None,
    ensures
        hex_digits_value(s.subrange(from, to)) is None,
    decreases to - bad,
{
    if to > bad {
        lemma_hex_prefix_invalid(s, from, bad, to - 1);
        assert(s.subrange(from, to).drop_last() == s.subrange(from, to - 1));
    }
}

/// Reads the value of `chars[from..to]` as hexadecimal digits.
fn hex_value(chars: &Vec<char>, from: usize, to: usize) -> (value: Option<u32>)
    requires
        from <= to <= chars.len(),
        to - from <= 6,
    ensures
        match value {
            Some(v) => hex_digits_value(chars@.subrange(from as int, to as int)) == Some(v as int),
            None => hex_digits_value(chars@.subrange(from as int, to as int)) is None,
        },
{
    let mut v: u32 = 0;
    let mut i = from;
    assert(chars@.subrange(from as int, from as int).len() == 0);
    while i < to
        invariant
            from <= i <= to <= chars.len(),
            to - from <= 6,
            hex_digits_value(chars@.subrange(from as int, i as int)) == Some(v as int),
            v <= hex_bound(i - from),
        decreases to - i,
    {
        let c = chars[i];
        let ghost s = chars@.subrange(from as int, i + 1);
        assert(s.drop_last() == chars@.subrange(from as int, i as int));
        assert(s.last() == c);
        let d: u32 = if '0' <= c && c <= '9' {
            (c as u32) - ('0' as u32)
        } else if 'a' <= c && c <= 'f' {
            (c as u32) - ('a' as u32) + 10
        } else if 'A' <= c && c <= 'F' {
            (c as u32) - ('A' as u32) + 10
        } else {
            proof {
                lemma_hex_prefix_invalid(chars@, from as int, i + 1, to as int);
            }
            return None;
        };
        v = v * 16 + d;
        i += 1;
    }
    Some(v)
}

proof fn lemma_encode_utf8_len(s: Seq<char>)
    ensures
        s.len() <= vstd::utf8::encode_utf8(s).len() <= 4 * s.len(),
    decreases s.len(),
{
    if s.len() > 0 {
        lemma_encode_utf8_len(s.drop_first());
        let e = vstd::utf8::encode_scalar(s[0] as u32);
        assert(1 <= e.len() <= 4);
    }
}

/// A colour written as '#' and six hexadecimal digits (either case) is read
/// pair by pair: red from the first two digits, green from the next two and
/// blue from the last two, each pair as 16 * high digit + low digit.
pub proof fn law_hex_colour_reads_digit_pairs(text: Seq<char>)
    requires
        text.len() == 7,
        text[0] == '#',
        forall|i: int| 1 <= i < 7 ==> #[trigger] hex_digit(text[i]) is Some,
    ensures
        colour_of(text)[0] == 16 * hex_digit(text[1])->0 + hex_digit(text[2])->0,
        colour_of(text)[1] == 16 * hex_digit(text[3])->0 + hex_digit(text[4])->0,
        colour_of(text)[2] == 16 * hex_digit(text[5])->0 + hex_digit(text[6])->0,
{
    let digits = text.drop_first();
    assert(hex_digit(text[1]) is Some && hex_digit(text[6]) is Some);
    assert(crate::text::trim_start(text) == text);
    assert(crate::text::trim_end(text) == text);
    assert(trim(text) == text);
    assert(digits[0] == text[1]);
    assert(strip_hashes(digits) == digits);
    assert(strip_hashes(text) == digits);
    assert forall|i: int| 0 <= i < 6 implies '\0' <= #[trigger] digits[i] <= '\u{7f}' by {
        assert(digits[i] == text[i + 1]);
        assert(hex_digit(text[i + 1]) is Some);
    }
    assert(vstd::utf8::is_ascii_chars(digits));
    vstd::utf8::is_ascii_chars_encode_utf8(digits);
    let d1 = hex_digit(text[1])->0;
    let d2 = hex_digit(text[2])->0;
    let d3 = hex_digit(text[3])->0;
    let d4 = hex_digit(text[4])->0;
    let d5 = hex_digit(text[5])->0;
    let d6 = hex_digit(text[6])->0;
    assert(hex_digit(text[2]) is Some && hex_digit(text[3]) is Some);
    assert(hex_digit(text[4]) is Some && hex_digit(text[5]) is Some);
    assert(0 <= d1 < 16 && 0 <= d2 < 16 && 0 <= d3 < 16 && 0 <= d4 < 16 && 0 <= d5 < 16 && 0 <= d6 < 16);
    assert(digits.drop_last().drop_last().drop_last().drop_last().drop_last().drop_last().len() == 0);
    reveal_with_fuel(hex_digits_value, 7);
    assert(digits.last() == text[6]);
    assert(digits.drop_last().last() == text[5]);
    assert(digits.drop_last().drop_last().last() == text[4]);
    assert(digits.drop_last().drop_last().drop_last().last() == text[3]);
    assert(digits.drop_last().drop_last().drop_last().drop_last().last() == text[2]);
    assert(digits.drop_last().drop_last().drop_last().drop_last().drop_last().last() == text[1]);
    let v = ((((d1 * 16 + d2) * 16 + d3) * 16 + d4) * 16 + d5) * 16 + d6;
    assert(hex_digits_value(digits) == Some(v));
    assert(digits[0] != '+');
    assert(hex_number(digits) == Some(v));
    assert(v / 0x10000 % 0x100 == 16 * d1 + d2 && v / 0x100 % 0x100 == 16 * d3 + d4 && v % 0x100 == 16 * d5 + d6)
        by (nonlinear_arith)
        requires
            0 <= d1 < 16 && 0 <= d2 < 16 && 0 <= d3 < 16 && 0 <= d4 < 16 && 0 <= d5 < 16 && 0 <= d6 < 16,
            v == ((((d1 * 16 + d2) * 16 + d3) * 16 + d4) * 16 + d5) * 16 + d6,
    ;
}

/// Reads a colour written as "#rrggbb" (see `colour_of`).
pub fn parse_colour(value: &str) -> (rgb: [u8; 3])
    ensures
        rgb == colour_of(value@),
{
    let chars = chars_of(value);
    let (start, end) = trim_bounds(&chars);
    let mut k = start;
    while k < end && chars[k] == '#'
        invariant
            start <= k <= end <= chars.len(),
            forall|j: int| start <= j < k ==> chars@[j] == '#',
        decreases end - k,
    {
        k += 1;
    }
    let ghost trimmed = chars@.subrange(start as int, end as int);
    let ghost hex = chars@.subrange(k as int, end as int);
    proof {
        assert forall|j: int| 0 <= j < k - start implies trimmed[j] == '#' by {
            assert(trimmed[j] == chars@[start + j]);
        }
        lemma_strip_hashes_skip(trimmed, k - start);
        assert(trimmed.subrange(k - start, trimmed.len() as int) == hex);
        if hex.len() > 0 {
            assert(hex[0] == chars@[k as int]);
        }
        assert(strip_hashes(hex) == hex);
        assert(strip_hashes(trim(value@)) == hex);
        lemma_encode_utf8_len(hex);
    }
    let white: [u8; 3] = [255, 255, 255];
    if end - k > 6 {
        return white;
    }
    let text = crate::text::string_from_range(&chars, k, end);
    if text.as_str().len() != 6 {
        return white;
    }
    let (from, plus) = if chars[k] == '+' {
        (k + 1, true)
    } else {
        (k, false)
    };
    if plus && from == end {
        return white;
    }
    proof {
        if plus {
            assert(hex.drop_first() == chars@.subrange(from as int, end as int));
        } else {
            assert(hex == chars@.subrange(from as int, end as int));
        }
    }
    match hex_value(&chars, from, end) {
        Some(v) => [(v / 0x10000 % 0x100) as u8, (v / 0x100 % 0x100) as u8, (v % 0x100) as u8],
        None => white,
    }
}

} // verus!

verus! {

/// A numeric sensor reading of a snapshot.
#[derive(Clone, Copy, Debug, PartialEq, Eq, Structural)]
pub enum SensorField {
    CpuTemperature,
    CpuUsage,
    CpuClock,
    GpuTemperature,
    GpuUsage,
    GpuClock,
    GpuPower,
    RamUsage,
    VramUsage,
    DiskUsage,
    NetworkUpload,
    NetworkDownload,
    FanSpeed,
    SystemVolume,
    WeatherTemperature,
    WeatherHumidity,
    WeatherWindSpeed,
}

/// A recorded history of a snapshot.
#[derive(Clone, Copy, Debug, PartialEq, Eq, Structural)]
pub enum HistoryField {
    Cpu,
    Gpu,
    GpuPower,
    NetworkDownload,
    NetworkUpload,
    Volume,
}

/// The reading a widget kind shows as a number, if it shows one.
pub open spec fn numeric_field_of(kind: WidgetKind) -> Option<SensorField> {
    match kind {
        WidgetKind::CpuTemperature => Some(SensorField::CpuTemperature),
        WidgetKind::CpuUsage => Some(SensorField::CpuUsage),
        WidgetKind::CpuClock => Some(SensorField::CpuClock),
        WidgetKind::GpuTemperature => Some(SensorField::GpuTemperature),
        WidgetKind::GpuUsage => Some(SensorField::GpuUsage),
        WidgetKind::GpuClock => Some(SensorField::GpuClock),
        WidgetKind::GpuPower => Some(SensorField::GpuPower),
        WidgetKind::RamUsage => Some(SensorField::RamUsage),
        WidgetKind::VramUsage => Some(SensorField::VramUsage),
        WidgetKind::DiskUsage => Some(SensorField::DiskUsage),
        WidgetKind::NetworkUpload => Some(SensorField::NetworkUpload),
        WidgetKind::NetworkDownload => Some(SensorField::NetworkDownload),
        WidgetKind::FanSpeed => Some(SensorField::FanSpeed),
        WidgetKind::Volume => Some(SensorField::SystemVolume),
        WidgetKind::WeatherTemperature => Some(SensorField::WeatherTemperature),
        WidgetKind::WeatherHumidity => Some(SensorField::WeatherHumidity),
        WidgetKind::WeatherWind => Some(SensorField::WeatherWindSpeed),
        _ => None,
    }
}

/// The reading a widget kind shows as a number.
pub fn numeric_field(kind: WidgetKind) -> (field: Option<SensorField>)
    ensures
        field == numeric_field_of(kind),
{
    match kind {
        WidgetKind::CpuTemperature => Some(SensorField::CpuTemperature),
        WidgetKind::CpuUsage => Some(SensorField::CpuUsage),
        WidgetKind::CpuClock => Some(SensorField::CpuClock),
        WidgetKind::GpuTemperature => Some(SensorField::GpuTemperature),
        WidgetKind::GpuUsage => Some(SensorField::GpuUsage),
        WidgetKind::GpuClock => Some(SensorField::GpuClock),
        WidgetKind::GpuPower => Some(SensorField::GpuPower),
        WidgetKind::RamUsage => Some(SensorField::RamUsage),
        WidgetKind::VramUsage => Some(SensorField::VramUsage),
        WidgetKind::DiskUsage => Some(SensorField::DiskUsage),
        WidgetKind::NetworkUpload => Some(SensorField::NetworkUpload),
        WidgetKind::NetworkDownload => Some(SensorField::NetworkDownload),
        WidgetKind::FanSpeed => Some(SensorField::FanSpeed),
        WidgetKind::Volume => Some(SensorField::SystemVolume),
        WidgetKind::WeatherTemperature => Some(SensorField::WeatherTemperature),
        WidgetKind::WeatherHumidity => Some(SensorField::WeatherHumidity),
        WidgetKind::WeatherWind => Some(SensorField::WeatherWindSpeed),
        _ => None,
    }
}

/// The history a graph of a widget kind draws, if any.
pub open spec fn history_field_of(kind: WidgetKind) -> Option<HistoryField> {
    match kind {
        WidgetKind::CpuUsage | WidgetKind::CpuTemperature | WidgetKind::CpuClock => Some(HistoryField::Cpu),
        WidgetKind::GpuUsage | WidgetKind::GpuTemperature | WidgetKind::GpuClock => Some(HistoryField::Gpu),
        WidgetKind::GpuPower => Some(HistoryField::GpuPower),
        WidgetKind::NetworkUpload => Some(HistoryField::NetworkUpload),
        WidgetKind::NetworkDownload => Some(HistoryField::NetworkDownload),
        WidgetKind::Volume => Some(HistoryField::Volume),
        _ => None,
    }
}

/// The history a graph of a widget kind draws.
pub fn history_field(kind: WidgetKind) -> (field: Option<HistoryField>)
    ensures
        field == history_field_of(kind),
{
    match kind {
        WidgetKind::CpuUsage | WidgetKind::CpuTemperature | WidgetKind::CpuClock => Some(HistoryField::Cpu),
        WidgetKind::GpuUsage | WidgetKind::GpuTemperature | WidgetKind::GpuClock => Some(HistoryField::Gpu),
        WidgetKind::GpuPower => Some(HistoryField::GpuPower),
        WidgetKind::NetworkUpload => Some(HistoryField::NetworkUpload),
        WidgetKind::NetworkDownload => Some(HistoryField::NetworkDownload),
        WidgetKind::Volume => Some(HistoryField::Volume),
        _ => None,
    }
}

/// The full-scale value of a bar, ring or graph of a widget kind.
pub open spec fn scale_maximum_of(kind: WidgetKind) -> u32 {
    match kind {
        WidgetKind::CpuClock => 6000,
        WidgetKind::GpuPower => 600,
        WidgetKind::GpuClock | WidgetKind::FanSpeed => 3000,
        WidgetKind::NetworkUpload | WidgetKind::NetworkDownload => 10000,
        WidgetKind::WeatherTemperature => 50,
        WidgetKind::WeatherWind => 150,
        _ => 100,
    }
}

/// The full-scale value of a bar, ring or graph of a widget kind.
pub fn scale_maximum(kind: WidgetKind) -> (maximum: u32)
    ensures
        maximum == scale_maximum_of(kind),
{
    match kind {
        WidgetKind::CpuClock => 6000,
        WidgetKind::GpuPower => 600,
        WidgetKind::GpuClock | WidgetKind::FanSpeed => 3000,
        WidgetKind::NetworkUpload | WidgetKind::NetworkDownload => 10000,
        WidgetKind::WeatherTemperature => 50,
        WidgetKind::WeatherWind => 150,
        _ => 100,
    }
}

/// The full scale by which the change detector quantises a reading; weather
/// readings use the default of 100.
pub open spec fn signature_maximum_of(kind: WidgetKind) -> u32 {
    match kind {
        WidgetKind::WeatherTemperature | WidgetKind::WeatherWind => 100,
        _ => scale_maximum_of(kind),
    }
}

/// The full scale by which the change detector quantises a reading.
pub fn signature_maximum(kind: WidgetKind) -> (maximum: u32)
    ensures
        maximum == signature_maximum_of(kind),
{
    match kind {
        WidgetKind::WeatherTemperature | WidgetKind::WeatherWind => 100,
        _ => scale_maximum(kind),
    }
}

/// Room around a widget's own box for its glow and shadow:
/// `max(3 * glow, 2 * shadow) + 6`, each step saturating at 255.
pub open spec fn layer_padding_of(glow: u8, shadow: u8) -> u32 {
    let g = if 3 * glow > 255 { 255 } else { 3 * glow };
    let s = if 2 * shadow > 255 { 255 } else { 2 * shadow };
    let m = if g >= s { g } else { s };
    (if m + 6 > 255 { 255 } else { m + 6 }) as u32
}

/// The room around a widget covers three times its glow and twice its
/// shadow, plus 6, and no more than the larger of the two needs; it never
/// exceeds 255.
pub proof fn law_layer_padding_covers_glow_and_shadow(glow: u8, shadow: u8)
    ensures
        layer_padding_of(glow, shadow) <= 255,
        layer_padding_of(glow, shadow) >= if 3 * glow + 6 > 255 { 255 } else { 3 * glow + 6 },
        layer_padding_of(glow, shadow) >= if 2 * shadow + 6 > 255 { 255 } else { 2 * shadow + 6 },
        layer_padding_of(glow, shadow) == (if 3 * glow + 6 > 255 { 255 } else { 3 * glow + 6 })
            || layer_padding_of(glow, shadow) == (if 2 * shadow + 6 > 255 { 255 } else { 2 * shadow + 6 }),
{
}

/// Room around a widget's own box for its glow and shadow.
pub fn layer_padding(glow: u8, shadow: u8) -> (padding: u32)
    ensures
        padding == layer_padding_of(glow, shadow),
{
    let g: u32 = if (glow as u32) * 3 > 255 { 255 } else { (glow as u32) * 3 };
    let s: u32 = if (shadow as u32) * 2 > 255 { 255 } else { (shadow as u32) * 2 };
    let m: u32 = if g >= s { g } else { s };
    if m + 6 > 255 { 255 } else { m + 6 }
}

} // verus!

verus! {

/// A widget's kind and whether it is shown.
#[derive(Clone, Copy, Debug, PartialEq, Eq, Structural)]
pub struct WidgetState {
    pub kind: WidgetKind,
    pub enabled: bool,
}

/// Whether some shown widget is of the given kind.
pub open spec fn shows_kind(widgets: Seq<WidgetState>, kind: WidgetKind) -> bool {
    exists|i: int| 0 <= i < widgets.len() && #[trigger] widgets[i].enabled && widgets[i].kind == kind
}

/// Whether some shown widget is of the given kind.
pub fn any_enabled_widget(widgets: &Vec<WidgetState>, kind: WidgetKind) -> (found: bool)
    ensures
        found == shows_kind(widgets@, kind),
{
    let mut i: usize = 0;
    while i < widgets.len()
        invariant
            i <= widgets.len(),
            forall|j: int| 0 <= j < i ==> !(#[trigger] widgets@[j].enabled && widgets@[j].kind == kind),
        decreases widgets.len() - i,
    {
        if widgets[i].enabled && widgets[i].kind == kind {
            assert(widgets@[i as int].enabled);
            return true;
        }
        i += 1;
    }
    false
}

/// Whether a volume widget is shown (the volume is then polled quickly).
pub fn volume_widget_enabled(widgets: &Vec<WidgetState>) -> (found: bool)
    ensures
        found == shows_kind(widgets@, WidgetKind::Volume),
{
    any_enabled_widget(widgets, WidgetKind::Volume)
}

/// `value` clamped to `[low, high]`.
pub open spec fn clamp(value: u64, low: u64, high: u64) -> u64 {
    if value < low {
        low
    } else if value > high {
        high
    } else {
        value
    }
}

/// How long the renderer sleeps between frames, in milliseconds: 50 during
/// a transition; otherwise the configured interval, clamped to 50..=100
/// when a volume widget is shown and to 50..=1000 otherwise.
pub open spec fn renderer_sleep_of(transition_active: bool, volume_shown: bool, frame_interval_ms: u64) -> u64 {
    if transition_active {
        50
    } else if volume_shown {
        clamp(frame_interval_ms, 50, 100)
    } else {
        clamp(frame_interval_ms, 50, 1000)
    }
}

/// During a transition the renderer sleeps 50 ms. Otherwise it sleeps the
/// configured interval when that lies within 50..=100 ms (a volume widget
/// shown) or 50..=1000 ms (none shown), and the nearer bound when it does
/// not; a longer interval never gives a shorter sleep.
pub proof fn law_renderer_sleep_follows_the_interval(volume_shown: bool, interval: u64, longer: u64)
    requires
        interval <= longer,
    ensures
        renderer_sleep_of(true, volume_shown, interval) == 50,
        ({
            let high: u64 = if volume_shown { 100 } else { 1000 };
            let ms = renderer_sleep_of(false, volume_shown, interval);
            &&& 50 <= ms <= high
            &&& 50 <= interval <= high ==> ms == interval
            &&& interval < 50 ==> ms == 50
            &&& interval > high ==> ms == high
        }),
        renderer_sleep_of(false, volume_shown, interval) <= renderer_sleep_of(false, volume_shown, longer),
{
}

/// How long the renderer sleeps between frames, in milliseconds.
pub fn renderer_sleep_ms(transition_active: bool, volume_shown: bool, frame_interval_ms: u64) -> (ms: u64)
    ensures
        ms == renderer_sleep_of(transition_active, volume_shown, frame_interval_ms),
        50 <= ms <= 1000,
{
    let high: u64 = if volume_shown { 100 } else { 1000 };
    if transition_active {
        50
    } else if frame_interval_ms < 50 {
        50
    } else if frame_interval_ms > high {
        high
    } else {
        frame_interval_ms
    }
}

/// The slideshow period in seconds: the interval in minutes, at least one,
/// times 60, saturating.
pub open spec fn slideshow_period_of(interval_minutes: u64) -> u64 {
    let m = if interval_minutes < 1 { 1 } else { interval_minutes };
    if m * 60 > u64::MAX { u64::MAX } else { (m * 60) as u64 }
}

/// The slideshow moves on once per interval: a period lasts the interval
/// in minutes (at least one) times 60 seconds, and the slot of a moment is
/// the number of whole periods before it.
pub proof fn law_slideshow_slot_counts_whole_periods(elapsed_secs: u64, interval_minutes: u64)
    ensures
        1 <= interval_minutes && interval_minutes * 60 <= u64::MAX ==> slideshow_period_of(interval_minutes)
            == interval_minutes * 60,
        interval_minutes == 0 ==> slideshow_period_of(interval_minutes) == 60,
        ({
            let period = slideshow_period_of(interval_minutes) as int;
            let slot = elapsed_secs as int / period;
            slot * period <= elapsed_secs && elapsed_secs < (slot + 1) * period
        }),
{
    let period = slideshow_period_of(interval_minutes) as int;
    assert(period >= 60);
    let slot = elapsed_secs as int / period;
    assert(slot * period <= elapsed_secs && elapsed_secs < (slot + 1) * period) by (nonlinear_arith)
        requires
            period >= 1,
            slot == elapsed_secs as int / period,
    ;
}

/// Which slideshow period a moment (seconds since the epoch) falls in.
pub fn slideshow_slot(elapsed_secs: u64, interval_minutes: u64) -> (slot: u64)
    ensures
        slot == elapsed_secs / slideshow_period_of(interval_minutes),
{
    let m: u64 = if interval_minutes < 1 { 1 } else { interval_minutes };
    let period: u64 = if m > u64::MAX / 60 { u64::MAX } else { m * 60 };
    elapsed_secs / period
}

/// The file types a background may be.
pub open spec fn is_image_extension(extension: Seq<char>) -> bool {
    let e = crate::text::ascii_lowercase(extension);
    ||| e == seq!['p', 'n', 'g']
    ||| e == seq!['j', 'p', 'g']
    ||| e == seq!['j', 'p', 'e', 'g']
    ||| e == seq!['b', 'm', 'p']
    ||| e == seq!['g', 'i', 'f']
    ||| e == seq!['w', 'e', 'b', 'p']
}

/// The picture extensions png, jpg, jpeg, bmp, gif and webp are accepted in
/// any mix of ASCII case, and whether an extension is accepted does not
/// depend on its case.
pub proof fn law_image_extensions_ignore_case(extension: Seq<char>)
    ensures
        is_image_extension(extension) == is_image_extension(crate::text::ascii_lowercase(extension)),
        is_image_extension(seq!['p', 'n', 'g']) && is_image_extension(seq!['P', 'N', 'G']),
        is_image_extension(seq!['j', 'p', 'g']) && is_image_extension(seq!['J', 'P', 'G']),
        is_image_extension(seq!['j', 'p', 'e', 'g']) && is_image_extension(seq!['J', 'P', 'E', 'G']),
        is_image_extension(seq!['b', 'm', 'p']) && is_image_extension(seq!['B', 'M', 'P']),
        is_image_extension(seq!['g', 'i', 'f']) && is_image_extension(seq!['G', 'I', 'F']),
        is_image_extension(seq!['w', 'e', 'b', 'p']) && is_image_extension(seq!['W', 'E', 'B', 'P']),
{
    let lower = crate::text::ascii_lowercase(extension);
    assert(crate::text::ascii_lowercase(lower) =~= lower);
    assert(crate::text::ascii_lowercase(seq!['p', 'n', 'g']) =~= seq!['p', 'n', 'g']);
    assert(crate::text::ascii_lowercase(seq!['P', 'N', 'G']) =~= seq!['p', 'n', 'g']);
    assert(crate::text::ascii_lowercase(seq!['j', 'p', 'g']) =~= seq!['j', 'p', 'g']);
    assert(crate::text::ascii_lowercase(seq!['J', 'P', 'G']) =~= seq!['j', 'p', 'g']);
    assert(crate::text::ascii_lowercase(seq!['j', 'p', 'e', 'g']) =~= seq!['j', 'p', 'e', 'g']);
    assert(crate::text::ascii_lowercase(seq!['J', 'P', 'E', 'G']) =~= seq!['j', 'p', 'e', 'g']);
    assert(crate::text::ascii_lowercase(seq!['b', 'm', 'p']) =~= seq!['b', 'm', 'p']);
    assert(crate::text::ascii_lowercase(seq!['B', 'M', 'P']) =~= seq!['b', 'm', 'p']);
    assert(crate::text::ascii_lowercase(seq!['g', 'i', 'f']) =~= seq!['g', 'i', 'f']);
    assert(crate::text::ascii_lowercase(seq!['G', 'I', 'F']) =~= seq!['g', 'i', 'f']);
    assert(crate::text::ascii_lowercase(seq!['w', 'e', 'b', 'p']) =~= seq!['w', 'e', 'b', 'p']);
    assert(crate::text::ascii_lowercase(seq!['W', 'E', 'B', 'P']) =~= seq!['w', 'e', 'b', 'p']);
}

/// Whether a path names a picture a background can show: its extension,
/// compared without regard to ASCII case, is png, jpg, jpeg, bmp, gif or webp.
pub open spec fn is_supported_image_path(path: Seq<char>) -> bool {
    match crate::persistence::file_name_of(path) {
        Some(name) => match crate::persistence::stem_and_extension(name).1 {
            Some(e) => is_image_extension(e),
            None => false,
        },
        None => false,
    }
}

/// Whether a path names a picture a background can show.
pub fn is_supported_image(path: &str) -> (supported: bool)
    ensures
        supported == is_supported_image_path(path@),
{
    let name = match crate::persistence::path_file_name(path) {
        Some(n) => n,
        None => return false,
    };
    let (_, extension) = crate::persistence::split_file_name(name.as_str());
    let e = match extension {
        Some(e) => e,
        None => return false,
    };
    let chars = chars_of(e.as_str());
    let mut lower: Vec<char> = Vec::new();
    let mut i: usize = 0;
    while i < chars.len()
        invariant
            i <= chars.len(),
            chars@ == e@,
            lower@ == crate::text::ascii_lowercase(chars@.take(i as int)),
        decreases chars.len() - i,
    {
        lower.push(crate::text::char_ascii_lower(chars[i]));
        assert(crate::text::ascii_lowercase(chars@.take(i + 1)) =~= crate::text::ascii_lowercase(chars@.take(i as int)).push(crate::text::ascii_lower(chars@[i as int])));
        i += 1;
    }
    assert(chars@.take(chars.len() as int) =~= chars@);
    let l = lower.len();
    let png = l == 3 && lower[0] == 'p' && lower[1] == 'n' && lower[2] == 'g';
    let jpg = l == 3 && lower[0] == 'j' && lower[1] == 'p' && lower[2] == 'g';
    let jpeg = l == 4 && lower[0] == 'j' && lower[1] == 'p' && lower[2] == 'e' && lower[3] == 'g';
    let bmp = l == 3 && lower[0] == 'b' && lower[1] == 'm' && lower[2] == 'p';
    let gif = l == 3 && lower[0] == 'g' && lower[1] == 'i' && lower[2] == 'f';
    let webp = l == 4 && lower[0] == 'w' && lower[1] == 'e' && lower[2] == 'b' && lower[3] == 'p';
    proof {
        let e2 = crate::text::ascii_lowercase(e@);
        assert(png <==> e2 =~= seq!['p', 'n', 'g']);
        assert(jpg <==> e2 =~= seq!['j', 'p', 'g']);
        assert(jpeg <==> e2 =~= seq!['j', 'p', 'e', 'g']);
        assert(bmp <==> e2 =~= seq!['b', 'm', 'p']);
        assert(gif <==> e2 =~= seq!['g', 'i', 'f']);
        assert(webp <==> e2 =~= seq!['w', 'e', 'b', 'p']);
    }
    png || jpg || jpeg || bmp || gif || webp
}

} // verus!

verus! {

/// The pictures among a folder's paths, in folder order.
pub open spec fn supported_images(paths: Seq<Seq<char>>) -> Seq<Seq<char>>
    decreases paths.len(),
{
    if paths.len() == 0 {
        Seq::empty()
    } else {
        let rest = supported_images(paths.drop_last());
        if is_supported_image_path(paths.last()) {
            rest.push(paths.last())
        } else {
            rest
        }
    }
}

/// The pictures of a folder are exactly its paths that name a supported
/// picture: none is dropped, none added.
pub proof fn law_slideshow_keeps_exactly_the_pictures(paths: Seq<Seq<char>>, path: Seq<char>)
    ensures
        supported_images(paths).contains(path) <==> paths.contains(path) && is_supported_image_path(path),
        supported_images(paths).len() <= paths.len(),
    decreases paths.len(),
{
    if paths.len() > 0 {
        let earlier = paths.drop_last();
        law_slideshow_keeps_exactly_the_pictures(earlier, path);
        assert(paths =~= earlier.push(paths.last()));
        if paths.contains(path) && path != paths.last() {
            let i = choose|i: int| 0 <= i < paths.len() && paths[i] == path;
            assert(earlier[i] == path);
        }
        if earlier.contains(path) {
            let i = choose|i: int| 0 <= i < earlier.len() && earlier[i] == path;
            assert(paths[i] == path);
        }
        if is_supported_image_path(paths.last()) {
            let rest = supported_images(earlier);
            assert(rest.push(paths.last()).last() == paths.last());
            if rest.contains(path) {
                let i = choose|i: int| 0 <= i < rest.len() && rest[i] == path;
                assert(rest.push(paths.last())[i] == path);
            }
            if rest.push(paths.last()).contains(path) && path != paths.last() {
                let i = choose|i: int| 0 <= i < rest.len() + 1 && rest.push(paths.last())[i] == path;
                assert(rest[i] == path);
            }
        }
    }
}

/// The background a folder slideshow shows at a moment: the folder's
/// pictures sorted case-insensitively by path, and among them the one at
/// the current period number modulo their count; none without pictures.
pub fn select_background_image(paths: &Vec<String>, elapsed_secs: u64, interval_minutes: u64) -> (chosen: Option<String>)
    ensures
        ({
            let images = supported_images(crate::sorting::texts(paths@));
            let slot = elapsed_secs / slideshow_period_of(interval_minutes);
            &&& images.len() == 0 ==> chosen is None
            &&& images.len() > 0 ==> exists|sorted: Seq<Seq<char>>| {
                &&& #[trigger] crate::sorting::stably_sorted(images, crate::sorting::lowercase_keys(images), sorted)
                &&& chosen matches Some(c) && c@ == sorted[((slot as usize) % (images.len() as usize)) as int]
            }
        }),
{
    let ghost all = crate::sorting::texts(paths@);
    let mut images: Vec<String> = Vec::new();
    let mut i: usize = 0;
    while i < paths.len()
        invariant
            all == crate::sorting::texts(paths@),
            i <= paths.len(),
            crate::sorting::texts(images@) == supported_images(all.take(i as int)),
        decreases paths.len() - i,
    {
        proof {
            assert(all.take(i + 1).drop_last() =~= all.take(i as int));
            assert(all.take(i + 1).last() == paths@[i as int]@);
        }
        if is_supported_image(paths[i].as_str()) {
            let ghost before = images@;
            images.push(paths[i].clone());
            assert(crate::sorting::texts(images@) =~= crate::sorting::texts(before).push(paths@[i as int]@));
        }
        i += 1;
    }
    assert(all.take(paths.len() as int) =~= all);
    let ghost found = crate::sorting::texts(images@);
    if images.len() == 0 {
        return None;
    }
    let sorted = crate::sorting::sort_by_lowercase(images);
    let slot = slideshow_slot(elapsed_secs, interval_minutes);
    let index = (slot as usize) % sorted.len();
    proof {
        assert(crate::sorting::texts(sorted@).len() == found.len()) by {
            let order = choose|order: Seq<usize>| #[trigger] crate::sorting::is_stable_order(crate::sorting::lowercase_keys(found), order)
                && crate::sorting::texts(sorted@).len() == order.len()
                && forall|k: int| 0 <= k < order.len() ==> crate::sorting::texts(sorted@)[k] == found[#[trigger] order[k] as int];
        }
        assert(crate::sorting::texts(sorted@)[index as int] == sorted@[index as int]@);
    }
    Some(sorted[index].clone())
}

} // verus!

verus! {

/// How long a GIF frame is shown, in milliseconds: 1000 / fps with fps
/// clamped to 1..=30, at least 1.
pub open spec fn gif_frame_ms_of(fps: u32) -> u64 {
    let f: u64 = if fps < 1 { 1 } else if fps > 30 { 30 } else { fps as u64 };
    let d: u64 = (1000u64 / f) as u64;
    if d < 1 { 1 } else { d }
}

/// Which frame of an animation is shown after `elapsed_ms`: it advances
/// once per frame duration, wraps around when the animation loops and
/// stays on the last frame otherwise.
pub open spec fn gif_frame_index_of(elapsed_ms: u64, fps: u32, frame_count: usize, looping: bool) -> usize {
    let raw = ((elapsed_ms / gif_frame_ms_of(fps)) as usize);
    if looping {
        (raw % frame_count) as usize
    } else if raw < frame_count - 1 {
        raw
    } else {
        (frame_count - 1) as usize
    }
}

/// How frames follow time. A frame lasts 1000 / fps milliseconds for 1 to
/// 30 fps. Without looping, the frame shown after `elapsed_ms` is the one
/// whose time has come (frame `i` from `i` frame durations on) until the
/// last frame, which then stays. With looping, it is that frame counted
/// around the animation: some number of whole laps plus the index.
pub proof fn law_gif_frames_follow_time(elapsed_ms: u64, fps: u32, frame_count: usize)
    requires
        frame_count > 0,
        elapsed_ms / gif_frame_ms_of(fps) <= usize::MAX,
    ensures
        1 <= fps <= 30 ==> gif_frame_ms_of(fps) == 1000int / (fps as int),
        ({
            let index = gif_frame_index_of(elapsed_ms, fps, frame_count, false);
            let d = gif_frame_ms_of(fps) as int;
            &&& index < frame_count
            &&& index * d <= elapsed_ms
            &&& index + 1 < frame_count ==> elapsed_ms < (index + 1) * d
        }),
        ({
            let index = gif_frame_index_of(elapsed_ms, fps, frame_count, true);
            let d = gif_frame_ms_of(fps) as int;
            &&& index < frame_count
            &&& exists|laps: int|
                laps >= 0 && (#[trigger] (laps * frame_count) + index) * d <= elapsed_ms && elapsed_ms < (laps
                    * frame_count + index + 1) * d
        }),
{
    if 1 <= fps <= 30 {
        let f = fps as int;
        assert(1000int / f >= 1) by (nonlinear_arith)
            requires
                1 <= f <= 30,
        ;
    }
    let d = gif_frame_ms_of(fps) as int;
    let raw = elapsed_ms as int / d;
    assert(d >= 1);
    assert(raw * d <= elapsed_ms < (raw + 1) * d) by (nonlinear_arith)
        requires
            d >= 1,
            raw == elapsed_ms as int / d,
    ;
    let n = frame_count as int;
    let laps = raw / n;
    let index = raw % n;
    assert(raw == laps * n + index && laps >= 0 && 0 <= index < n) by (nonlinear_arith)
        requires
            n >= 1,
            raw >= 0,
            laps == raw / n,
            index == raw % n,
    ;
    let still = gif_frame_index_of(elapsed_ms, fps, frame_count, false) as int;
    if raw >= n - 1 {
        assert(still == n - 1);
        assert(still * d <= raw * d) by (nonlinear_arith)
            requires
                still <= raw,
                d >= 1,
        ;
    }
    assert(gif_frame_index_of(elapsed_ms, fps, frame_count, true) as int == index);
    assert((laps * frame_count + index) * d <= elapsed_ms);
}

/// How long a GIF frame is shown, in milliseconds.
pub fn gif_frame_ms(fps: u32) -> (ms: u64)
    ensures
        ms == gif_frame_ms_of(fps),
        ms >= 1,
{
    let f: u64 = if fps < 1 { 1 } else if fps > 30 { 30 } else { fps as u64 };
    let d: u64 = 1000 / f;
    if d < 1 { 1 } else { d }
}

/// Which frame of an animation is shown (see `gif_frame_index_of`).
pub fn gif_frame_index(elapsed_ms: u64, fps: u32, frame_count: usize, looping: bool) -> (index: usize)
    requires
        frame_count > 0,
    ensures
        index == gif_frame_index_of(elapsed_ms, fps, frame_count, looping),
        index < frame_count,
{
    let duration = gif_frame_ms(fps);
    let raw = (elapsed_ms / duration) as usize;
    if looping {
        raw % frame_count
    } else if raw < frame_count - 1 {
        raw
    } else {
        frame_count - 1
    }
}

} // verus!

verus! {

/// The text a text widget draws: its left text, its label with every
/// "{value:.0}" and then every "{value}" replaced by the shown value, and
/// its right text.
pub open spec fn widget_text_of(left: Seq<char>, label: Seq<char>, value: Seq<char>, right: Seq<char>) -> Seq<char> {
    let middle = crate::text::replace_all(
        crate::text::replace_all(label, "{value:.0}"@, value),
        "{value}"@,
        value,
    );
    left + middle + right
}

/// Composes the text a text widget draws (see `widget_text_of`).
pub fn widget_text(left: &str, label: &str, value: &str, right: &str) -> (text: String)
    ensures
        text@ == widget_text_of(left@, label@, value@, right@),
{
    proof {
        reveal_strlit("{value:.0}");
        reveal_strlit("{value}");
    }
    let first = crate::text::replace_str(label, "{value:.0}", value);
    let middle = crate::text::replace_str(first.as_str(), "{value}", value);
    let mut text = String::from_str(left);
    text.append(middle.as_str());
    text.append(right);
    text
}

} // verus!
