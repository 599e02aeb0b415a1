//! The contract between a superwidget module and its host: sensor ids and
//! colours packed into 32-bit integers.
//!
//! A guest names a sensor by a small integer and passes colours as
//! little-endian RGBA words; the host maps ids back to snapshot readings and
//! unpacks the words.
use vstd::prelude::*;
use crate::widgets::SensorField;

verus! {

/// The version of the guest interface.
pub const ABI_VERSION: u32 = 1;

/// A sensor a guest can ask for.
#[derive(Clone, Copy, Debug, PartialEq, Eq, Structural)]
pub enum Sensor {
    CpuUsage,
    CpuTemperature,
    CpuClock,
    FanSpeed,
    GpuUsage,
    GpuTemperature,
    GpuClock,
    GpuPower,
    RamUsage,
    VramUsage,
    Volume,
}

/// The id by which a guest asks for a sensor.
pub open spec fn sensor_id(sensor: Sensor) -> i32 {
    match sensor {
        Sensor::CpuUsage => 1,
        Sensor::CpuTemperature => 2,
        Sensor::CpuClock => 3,
        Sensor::FanSpeed => 4,
        Sensor::GpuUsage => 10,
        Sensor::GpuTemperature => 11,
        Sensor::GpuClock => 12,
        Sensor::GpuPower => 13,
        Sensor::RamUsage => 20,
        Sensor::VramUsage => 21,
        Sensor::Volume => 30,
    }
}

/// The snapshot reading a sensor stands for.
pub open spec fn sensor_reading(sensor: Sensor) -> SensorField {
    match sensor {
        Sensor::CpuUsage => SensorField::CpuUsage,
        Sensor::CpuTemperature => SensorField::CpuTemperature,
        Sensor::CpuClock => SensorField::CpuClock,
        Sensor::FanSpeed => SensorField::FanSpeed,
        Sensor::GpuUsage => SensorField::GpuUsage,
        Sensor::GpuTemperature => SensorField::GpuTemperature,
        Sensor::GpuClock => SensorField::GpuClock,
        Sensor::GpuPower => SensorField::GpuPower,
        Sensor::RamUsage => SensorField::RamUsage,
        Sensor::VramUsage => SensorField::VramUsage,
        Sensor::Volume => SensorField::SystemVolume,
    }
}

impl Sensor {
    /// The id by which a guest asks for this sensor.
    pub fn id(self) -> (id: i32)
        ensures
            id == sensor_id(self),
    {
        match self {
            Sensor::CpuUsage => 1,
            Sensor::CpuTemperature => 2,
            Sensor::CpuClock => 3,
            Sensor::FanSpeed => 4,
            Sensor::GpuUsage => 10,
            Sensor::GpuTemperature => 11,
            Sensor::GpuClock => 12,
            Sensor::GpuPower => 13,
            Sensor::RamUsage => 20,
            Sensor::VramUsage => 21,
            Sensor::Volume => 30,
        }
    }
}

/// The reading the host gives a guest for an id; unknown ids read nothing
/// (the host then answers 0).
pub open spec fn field_for_id(id: i32) -> Option<SensorField> {
    if id == 1 {
        Some(SensorField::CpuUsage)
    } else if id == 2 {
        Some(SensorField::CpuTemperature)
    } else if id == 3 {
        Some(SensorField::CpuClock)
    } else if id == 4 {
        Some(SensorField::FanSpeed)
    } else if id == 10 {
        Some(SensorField::GpuUsage)
    } else if id == 11 {
        Some(SensorField::GpuTemperature)
    } else if id == 12 {
        Some(SensorField::GpuClock)
    } else if id == 13 {
        Some(SensorField::GpuPower)
    } else if id == 20 {
        Some(SensorField::RamUsage)
    } else if id == 21 {
        Some(SensorField::VramUsage)
    } else if id == 30 {
        Some(SensorField::SystemVolume)
    } else {
        None
    }
}

/// The reading the host gives a guest for an id.
pub fn sensor_field(id: i32) -> (field: Option<SensorField>)
    ensures
        field == field_for_id(id),
{
    if id == 1 {
        Some(SensorField::CpuUsage)
    } else if id == 2 {
        Some(SensorField::CpuTemperature)
    } else if id == 3 {
        Some(SensorField::CpuClock)
    } else if id == 4 {
        Some(SensorField::FanSpeed)
    } else if id == 10 {
        Some(SensorField::GpuUsage)
    } else if id == 11 {
        Some(SensorField::GpuTemperature)
    } else if id == 12 {
        Some(SensorField::GpuClock)
    } else if id == 13 {
        Some(SensorField::GpuPower)
    } else if id == 20 {
        Some(SensorField::RamUsage)
    } else if id == 21 {
        Some(SensorField::VramUsage)
    } else if id == 30 {
        Some(SensorField::SystemVolume)
    } else {
        None
    }
}

/// Every sensor a guest can name reaches the reading it stands for.
pub proof fn law_sensor_ids_reach_their_reading(sensor: Sensor)
    ensures
        field_for_id(sensor_id(sensor)) == Some(sensor_reading(sensor)),
{
}

/// The word a colour is packed into: red in the lowest byte, alpha in the
/// highest (`u32::from_le_bytes([red, green, blue, alpha])`).
pub open spec fn rgba_value(red: u8, green: u8, blue: u8, alpha: u8) -> u32 {
    (red + green * 0x100 + blue * 0x10000 + alpha * 0x1000000) as u32
}

/// Packs a colour into a word.
pub fn rgba(red: u8, green: u8, blue: u8, alpha: u8) -> (word: u32)
    ensures
        word == rgba_value(red, green, blue, alpha),
{
    let r = red as u32;
    let g = green as u32;
    let b = blue as u32;
    let a = alpha as u32;
    assert((r | (g << 8) | (b << 16) | (a << 24)) == r + g * 0x100 + b * 0x10000 + a * 0x1000000)
        by (bit_vector)
        requires
            r < 256 && g < 256 && b < 256 && a < 256,
    ;
    r | (g << 8) | (b << 16) | (a << 24)
}

/// The bytes of a word, lowest first (`u32::to_le_bytes`).
pub open spec fn colour_bytes(word: u32) -> [u8; 4] {
    [(word % 0x100) as u8, (word / 0x100 % 0x100) as u8, (word / 0x10000 % 0x100) as u8, (word / 0x1000000) as u8]
}

/// Unpacks a colour a guest passed as a signed word.
pub fn colour_from_abi(value: i32) -> (rgba: [u8; 4])
    ensures
        rgba == colour_bytes(value as u32),
{
    let word = value as u32;
    [(word % 0x100) as u8, (word / 0x100 % 0x100) as u8, (word / 0x10000 % 0x100) as u8, (word / 0x1000000) as u8]
}

/// What a guest packs, the host unpacks unchanged, also when the word
/// travels as a signed integer.
pub proof fn law_colour_round_trip(red: u8, green: u8, blue: u8, alpha: u8)
    ensures
        colour_bytes(((rgba_value(red, green, blue, alpha) as i32) as u32)) == [red, green, blue, alpha],
{
    let w = rgba_value(red, green, blue, alpha);
    assert(((w as i32) as u32) == w) by (bit_vector);
    assert(w % 0x100 == red) by (bit_vector)
        requires
            w == ((red + green * 0x100 + blue * 0x10000 + alpha * 0x1000000) as u32),
    ;
    assert(w / 0x100 % 0x100 == green) by (bit_vector)
        requires
            w == ((red + green * 0x100 + blue * 0x10000 + alpha * 0x1000000) as u32),
    ;
    assert(w / 0x10000 % 0x100 == blue) by (bit_vector)
        requires
            w == ((red + green * 0x100 + blue * 0x10000 + alpha * 0x1000000) as u32),
    ;
    assert(w / 0x1000000 == alpha) by (bit_vector)
        requires
            w == ((red + green * 0x100 + blue * 0x10000 + alpha * 0x1000000) as u32),
    ;
    assert(colour_bytes(w) =~= [red, green, blue, alpha]);
}

/// Where a guest's text lies in its memory: from the pointer (negative
/// pointers read from 0), at most 4096 bytes (negative lengths read nothing).
pub open spec fn guest_text_span_of(pointer: i32, length: i32) -> (int, int) {
    (
        if pointer < 0 { 0 } else { pointer as int },
        if length < 0 { 0 } else if length > 4096 { 4096 } else { length as int },
    )
}

/// A guest's text is read from where it points, for as many bytes as it
/// says, when both are sensible; the read never starts below 0 nor covers
/// more than 4096 bytes, and a negative length reads nothing.
pub proof fn law_guest_text_is_read_within_limits(pointer: i32, length: i32)
    ensures
        guest_text_span_of(pointer, length).0 >= 0,
        0 <= guest_text_span_of(pointer, length).1 <= 4096,
        pointer >= 0 ==> guest_text_span_of(pointer, length).0 == pointer,
        0 <= length <= 4096 ==> guest_text_span_of(pointer, length).1 == length,
        length > 4096 ==> guest_text_span_of(pointer, length).1 == 4096,
        length < 0 ==> guest_text_span_of(pointer, length).1 == 0,
{
}

/// Where a guest's text lies in its memory (see `guest_text_span_of`).
pub fn guest_text_span(pointer: i32, length: i32) -> (span: (usize, usize))
    ensures
        (span.0 as int, span.1 as int) == guest_text_span_of(pointer, length),
{
    let start: usize = if pointer < 0 { 0 } else { pointer as usize };
    let count: usize = if length < 0 {
        0
    } else if length > 4096 {
        4096
    } else {
        length as usize
    };
    (start, count)
}

} // verus!
