//! Byte-level protocol of revision A Turing/UsbMonitor panels.
//!
//! Every command is six bytes: four 10-bit coordinates packed big-endian into
//! the first five bytes, then the command code. Pixels travel as RGB565,
//! little-endian, row by row.
use vstd::prelude::*;
use crate::schema::Orientation;

verus! {

pub const DISPLAY_BITMAP: u8 = 197;
pub const SET_BRIGHTNESS: u8 = 110;
pub const SET_ORIENTATION: u8 = 121;
pub const SCREEN_ON: u8 = 109;
pub const HELLO: u8 = 69;

/// The panel generation, told apart by its answer to the hello probe.
#[derive(Clone, Copy, Debug, PartialEq, Eq, Structural)]
pub enum DisplayRevision {
    Turing35,
    UsbMonitor35,
    UsbMonitor5,
    UsbMonitor7,
    Unknown,
}

/// A bitmap that the panel cannot take.
#[derive(Clone, Copy, Debug, PartialEq, Eq, Structural)]
pub enum FrameError {
    /// Width or height is zero or above 65535.
    InvalidDimensions,
}

/// The six command bytes: coordinates `x`, `y`, `ex`, `ey` packed into 40
/// bits (each keeps its low 10 bits, the rest spills over as the shifts
/// dictate), followed by the command code.
pub open spec fn command_bytes(cmd: u8, x: u16, y: u16, ex: u16, ey: u16) -> Seq<u8> {
    seq![
        ((x / 4) % 256) as u8,
        (((x % 4) * 64 + y / 16) % 256) as u8,
        (((y % 16) * 16 + ex / 64) % 256) as u8,
        (((ex % 64) * 4 + ey / 256) % 256) as u8,
        (ey % 256) as u8,
        cmd
    ]
}

/// Reads the four coordinates back out of a command.
pub open spec fn command_coordinates(bytes: Seq<u8>) -> (int, int, int, int) {
    (
        bytes[0] * 4 + bytes[1] / 64,
        (bytes[1] % 64) * 16 + bytes[2] / 16,
        (bytes[2] % 16) * 64 + bytes[3] / 4,
        (bytes[3] % 4) * 256 + bytes[4],
    )
}

/// Encodes a command with its rectangle.
pub fn command(cmd: u8, x: u16, y: u16, ex: u16, ey: u16) -> (bytes: [u8; 6])
    ensures
        bytes@ == command_bytes(cmd, x, y, ex, ey),
{
    assert(((x & 3) << 6) <= 192 && (y >> 4) <= 4095) by (bit_vector);
    assert(((y & 15) << 4) <= 240 && (ex >> 6) <= 1023) by (bit_vector);
    assert(((ex & 63) << 2) <= 252 && (ey >> 8) <= 255) by (bit_vector);
    let b0 = (x >> 2) as u8;
    let b1 = (((x & 3) << 6) + (y >> 4)) as u8;
    let b2 = (((y & 15) << 4) + (ex >> 6)) as u8;
    let b3 = (((ex & 63) << 2) + (ey >> 8)) as u8;
    let b4 = (ey & 255) as u8;
    assert(b0 == ((x / 4) % 256) as u8) by (bit_vector)
        requires b0 == (x >> 2) as u8;
    assert(b1 == (((x % 4) * 64 + y / 16) % 256) as u8) by (bit_vector)
        requires b1 == (((x & 3) << 6) + (y >> 4)) as u8;
    assert(b2 == (((y % 16) * 16 + ex / 64) % 256) as u8) by (bit_vector)
        requires b2 == (((y & 15) << 4) + (ex >> 6)) as u8;
    assert(b3 == (((ex % 64) * 4 + ey / 256) % 256) as u8) by (bit_vector)
        requires b3 == (((ex & 63) << 2) + (ey >> 8)) as u8;
    assert(b4 == (ey % 256) as u8) by (bit_vector)
        requires b4 == (ey & 255) as u8;
    let bytes = [b0, b1, b2, b3, b4, cmd];
    assert(bytes@ =~= command_bytes(cmd, x, y, ex, ey));
    bytes
}

/// Coordinates below 1024 survive encoding: decoding a command gives back the
/// rectangle it was built from.
pub proof fn law_command_coordinates_round_trip(cmd: u8, x: u16, y: u16, ex: u16, ey: u16)
    requires
        x < 1024,
        y < 1024,
        ex < 1024,
        ey < 1024,
    ensures
        command_coordinates(command_bytes(cmd, x, y, ex, ey)) == (x as int, y as int, ex as int, ey as int),
        command_bytes(cmd, x, y, ex, ey)[5] == cmd,
{
    let b = command_bytes(cmd, x, y, ex, ey);
    assert(b[0] * 4 + b[1] / 64 == x) by (nonlinear_arith)
        requires x < 1024, b[0] == (x / 4) % 256, b[1] == ((x % 4) * 64 + y / 16) % 256, y < 1024;
    assert((b[1] % 64) * 16 + b[2] / 16 == y) by (nonlinear_arith)
        requires y < 1024, ex < 1024, b[1] == ((x % 4) * 64 + y / 16) % 256, b[2] == ((y % 16) * 16 + ex / 64) % 256;
    assert((b[2] % 16) * 64 + b[3] / 4 == ex) by (nonlinear_arith)
        requires ex < 1024, ey < 1024, b[2] == ((y % 16) * 16 + ex / 64) % 256, b[3] == ((ex % 64) * 4 + ey / 256) % 256;
    assert((b[3] % 4) * 256 + b[4] == ey) by (nonlinear_arith)
        requires ey < 1024, b[3] == ((ex % 64) * 4 + ey / 256) % 256, b[4] == ey % 256;
}

/// The hello probe: six HELLO bytes.
pub fn hello_request() -> (bytes: [u8; 6])
    ensures
        bytes@ == seq![HELLO, HELLO, HELLO, HELLO, HELLO, HELLO],
{
    let bytes = [HELLO; 6];
    assert(bytes@ =~= seq![HELLO, HELLO, HELLO, HELLO, HELLO, HELLO]);
    bytes
}

/// Turns the panel on.
pub fn screen_on_command() -> (bytes: [u8; 6])
    ensures
        bytes@ == command_bytes(SCREEN_ON, 0, 0, 0, 0),
{
    command(SCREEN_ON, 0, 0, 0, 0)
}

/// The panel's brightness scale runs backwards: 0 is brightest, 255 darkest.
/// A percentage above 100 counts as 100.
pub open spec fn absolute_brightness(percent: u8) -> u16 {
    let p: int = if percent > 100 { 100 } else { percent as int };
    (255 - p * 255 / 100) as u16
}

/// The brightness command for a percentage.
pub fn brightness_command(percent: u8) -> (bytes: [u8; 6])
    ensures
        bytes@ == command_bytes(SET_BRIGHTNESS, absolute_brightness(percent), 0, 0, 0),
{
    let p: u16 = if percent > 100 { 100 } else { percent as u16 };
    let absolute: u16 = 255 - p * 255 / 100;
    command(SET_BRIGHTNESS, absolute, 0, 0, 0)
}

/// More brightness never makes the panel darker, and the ends of the scale
/// are fully dark (0 %) and fully bright (100 % and above).
pub proof fn law_brightness_is_monotonic(a: u8, b: u8)
    requires
        a <= b,
    ensures
        absolute_brightness(b) <= absolute_brightness(a),
        absolute_brightness(0) == 255,
        b >= 100 ==> absolute_brightness(b) == 0,
{
    let pa: int = if a > 100 { 100 } else { a as int };
    let pb: int = if b > 100 { 100 } else { b as int };
    assert(pa * 255 / 100 <= pb * 255 / 100) by (nonlinear_arith)
        requires 0 <= pa <= pb <= 100;
}

/// The orientation code sent after the command (`100 +` its index).
pub open spec fn orientation_code(orientation: Orientation) -> u8 {
    match orientation {
        Orientation::Portrait => 100,
        Orientation::ReversePortrait => 101,
        Orientation::Landscape => 102,
        Orientation::ReverseLandscape => 103,
    }
}

/// The 16-byte orientation message: the command, the orientation code, the
/// width and height as big-endian 16-bit values, and zero padding.
pub fn orientation_payload(orientation: Orientation, width: u32, height: u32) -> (bytes: [u8; 16])
    ensures
        bytes@.subrange(0, 6) == command_bytes(SET_ORIENTATION, 0, 0, 0, 0),
        bytes@[6] == orientation_code(orientation),
        bytes@[7] == ((width / 256) % 256) as u8,
        bytes@[8] == (width % 256) as u8,
        bytes@[9] == ((height / 256) % 256) as u8,
        bytes@[10] == (height % 256) as u8,
        forall|i: int| 11 <= i < 16 ==> bytes@[i] == 0,
{
    let value: u8 = match orientation {
        Orientation::Portrait => 0,
        Orientation::ReversePortrait => 1,
        Orientation::Landscape => 2,
        Orientation::ReverseLandscape => 3,
    };
    let head = command(SET_ORIENTATION, 0, 0, 0, 0);
    let w_hi = (width >> 8) as u8;
    let w_lo = width as u8;
    let h_hi = (height >> 8) as u8;
    let h_lo = height as u8;
    assert(w_hi == ((width / 256) % 256) as u8 && w_lo == (width % 256) as u8) by (bit_vector)
        requires w_hi == (width >> 8) as u8, w_lo == width as u8;
    assert(h_hi == ((height / 256) % 256) as u8 && h_lo == (height % 256) as u8) by (bit_vector)
        requires h_hi == (height >> 8) as u8, h_lo == height as u8;
    let bytes = [
        head[0], head[1], head[2], head[3], head[4], head[5],
        value + 100, w_hi, w_lo, h_hi, h_lo, 0, 0, 0, 0, 0,
    ];
    assert(bytes@.subrange(0, 6) =~= head@);
    bytes
}

/// Which panel answered the hello probe: six equal bytes 1, 2 or 3 name a
/// UsbMonitor generation; no answer at all is a first-generation Turing panel.
pub open spec fn revision_of(response: Seq<u8>, received: usize) -> DisplayRevision {
    if response == seq![1u8, 1, 1, 1, 1, 1] {
        DisplayRevision::UsbMonitor35
    } else if response == seq![2u8, 2, 2, 2, 2, 2] {
        DisplayRevision::UsbMonitor5
    } else if response == seq![3u8, 3, 3, 3, 3, 3] {
        DisplayRevision::UsbMonitor7
    } else if received == 0 {
        DisplayRevision::Turing35
    } else {
        DisplayRevision::Unknown
    }
}

/// A panel of the UsbMonitor family answers the probe with its generation
/// repeated six times (1 for 3.5", 2 for 5", 3 for 7"), whatever the byte
/// count; any other answer is a first-generation Turing panel when nothing
/// at all was read, and unknown otherwise.
pub proof fn law_probe_answers_name_the_panel(response: Seq<u8>, received: usize, generation: u8)
    ensures
        generation == 1 && response == seq![generation, generation, generation, generation, generation, generation]
            ==> revision_of(response, received) == DisplayRevision::UsbMonitor35,
        generation == 2 && response == seq![generation, generation, generation, generation, generation, generation]
            ==> revision_of(response, received) == DisplayRevision::UsbMonitor5,
        generation == 3 && response == seq![generation, generation, generation, generation, generation, generation]
            ==> revision_of(response, received) == DisplayRevision::UsbMonitor7,
        (forall|v: u8| 1 <= v <= 3 ==> response != #[trigger] seq![v, v, v, v, v, v]) ==> revision_of(response, received)
            == (if received == 0 { DisplayRevision::Turing35 } else { DisplayRevision::Unknown }),
{
    if generation == 2 && response == seq![generation, generation, generation, generation, generation, generation] {
        assert(response[0] != 1u8);
    }
    if generation == 3 && response == seq![generation, generation, generation, generation, generation, generation] {
        assert(response[0] != 1u8 && response[0] != 2u8);
    }
    if forall|v: u8| 1 <= v <= 3 ==> response != #[trigger] seq![v, v, v, v, v, v] {
        assert(response != seq![1u8, 1, 1, 1, 1, 1]);
        assert(response != seq![2u8, 2, 2, 2, 2, 2]);
        assert(response != seq![3u8, 3, 3, 3, 3, 3]);
    }
}

/// Each orientation has its own code, 100 to 103.
pub proof fn law_orientation_codes_are_distinct(a: Orientation, b: Orientation)
    ensures
        100 <= orientation_code(a) <= 103,
        a != b ==> orientation_code(a) != orientation_code(b),
{
}

fn all_equal_to(response: &[u8; 6], value: u8) -> (equal: bool)
    ensures
        equal == (response@ == seq![value, value, value, value, value, value]),
{
    let equal = response[0] == value && response[1] == value && response[2] == value
        && response[3] == value && response[4] == value && response[5] == value;
    if equal {
        assert(response@ =~= seq![value, value, value, value, value, value]);
    } else {
        assert(response@ != seq![value, value, value, value, value, value]) by {
            if response@ == seq![value, value, value, value, value, value] {
                assert(response@[0] == value && response@[1] == value && response@[2] == value);
                assert(response@[3] == value && response@[4] == value && response@[5] == value);
            }
        }
    }
    equal
}

/// Classifies the answer to the hello probe (`received` bytes were read).
pub fn classify_revision(response: &[u8; 6], received: usize) -> (revision: DisplayRevision)
    ensures
        revision == revision_of(response@, received),
{
    if all_equal_to(response, 1) {
        DisplayRevision::UsbMonitor35
    } else if all_equal_to(response, 2) {
        DisplayRevision::UsbMonitor5
    } else if all_equal_to(response, 3) {
        DisplayRevision::UsbMonitor7
    } else if received == 0 {
        DisplayRevision::Turing35
    } else {
        DisplayRevision::Unknown
    }
}

/// The 16-bit RGB565 value of a pixel: 5 bits of red, 6 of green, 5 of blue.
pub open spec fn rgb565(r: u8, g: u8, b: u8) -> int {
    (r / 8) * 2048 + (g / 4) * 32 + b / 8
}

/// Packs one pixel as RGB565, little-endian.
pub fn rgb565_le(r: u8, g: u8, b: u8) -> (bytes: [u8; 2])
    ensures
        bytes@ == seq![(rgb565(r, g, b) % 256) as u8, (rgb565(r, g, b) / 256) as u8],
{
    let packed: u16 = ((r as u16 >> 3) << 11) | ((g as u16 >> 2) << 5) | (b as u16 >> 3);
    let rr = r as u16;
    let gg = g as u16;
    let bb = b as u16;
    assert(((rr >> 3) << 11) | ((gg >> 2) << 5) | (bb >> 3) == (rr / 8) * 2048 + (gg / 4) * 32 + bb / 8) by (bit_vector)
        requires rr < 256, gg < 256, bb < 256;
    let bytes = [(packed & 0xff) as u8, (packed >> 8) as u8];
    assert((packed & 0xff) as u8 == (packed % 256) as u8 && (packed >> 8) as u8 == (packed / 256) as u8) by (bit_vector);
    assert(bytes@ =~= seq![(rgb565(r, g, b) % 256) as u8, (rgb565(r, g, b) / 256) as u8]);
    bytes
}

/// Reading a packed pixel back gives each channel with its dropped low bits
/// cleared: packing loses only what RGB565 cannot hold.
pub proof fn law_rgb565_keeps_high_bits(r: u8, g: u8, b: u8)
    ensures
        (rgb565(r, g, b) / 2048) * 8 == r - r % 8,
        ((rgb565(r, g, b) / 32) % 64) * 4 == g - g % 4,
        (rgb565(r, g, b) % 32) * 8 == b - b % 8,
        0 <= rgb565(r, g, b) < 0x1_0000,
{
    let v = rgb565(r, g, b);
    assert((v / 2048) * 8 == r - r % 8) by (nonlinear_arith)
        requires v == (r / 8) * 2048 + (g / 4) * 32 + b / 8, r < 256, g < 256, b < 256;
    assert(((v / 32) % 64) * 4 == g - g % 4) by (nonlinear_arith)
        requires v == (r / 8) * 2048 + (g / 4) * 32 + b / 8, r < 256, g < 256, b < 256;
    assert((v % 32) * 8 == b - b % 8) by (nonlinear_arith)
        requires v == (r / 8) * 2048 + (g / 4) * 32 + b / 8, r < 256, g < 256, b < 256;
}

/// The RGB565 stream of packed RGB pixels (three bytes each, row by row).
pub open spec fn rgb565_stream(rgb: Seq<u8>) -> Seq<u8> {
    Seq::new(
        2 * (rgb.len() / 3),
        |k: int| {
            let p = 3 * (k / 2);
            let v = rgb565(rgb[p], rgb[p + 1], rgb[p + 2]);
            if k % 2 == 0 {
                (v % 256) as u8
            } else {
                (v / 256) as u8
            }
        },
    )
}

/// Converts packed RGB pixels to the little-endian RGB565 stream the panel reads.
pub fn encode_rgb565(rgb: &[u8]) -> (stream: Vec<u8>)
    requires
        rgb@.len() % 3 == 0,
    ensures
        stream@ == rgb565_stream(rgb@),
{
    let len = rgb.len();
    let pixels = len / 3;
    let mut stream: Vec<u8> = Vec::new();
    let mut i: usize = 0;
    while i < pixels
        invariant
            len == rgb@.len(),
            pixels == rgb@.len() / 3,
            rgb@.len() % 3 == 0,
            i <= pixels,
            stream@.len() == 2 * i,
            forall|k: int| 0 <= k < 2 * i ==> #[trigger] stream@[k] == rgb565_stream(rgb@)[k],
        decreases pixels - i,
    {
        assert(3 * i + 2 < rgb@.len()) by (nonlinear_arith)
            requires i < pixels, pixels == rgb@.len() / 3, rgb@.len() % 3 == 0;
        assert(3 * i + 2 < len);
        let bytes = rgb565_le(rgb[3 * i], rgb[3 * i + 1], rgb[3 * i + 2]);
        stream.push(bytes[0]);
        stream.push(bytes[1]);
        proof {
            assert((2 * i) / 2 == i as int);
            assert((2 * i + 1) / 2 == i as int);
        }
        i += 1;
    }
    assert(stream@ =~= rgb565_stream(rgb@));
    stream
}

/// The bitmap command for a `width` x `height` rectangle at (`x`, `y`).
pub open spec fn bitmap_command_bytes(x: u16, y: u16, width: u32, height: u32) -> Seq<u8> {
    command_bytes(DISPLAY_BITMAP, x, y, (x + width - 1) as u16, (y + height - 1) as u16)
}

/// Starts a bitmap transfer: rejects empty or oversized rectangles, then
/// encodes the rectangle from (`x`, `y`) to its last pixel.
pub fn bitmap_command(x: u16, y: u16, width: u32, height: u32) -> (header: Result<[u8; 6], FrameError>)
    requires
        1 <= width <= 65535 && 1 <= height <= 65535 ==> x + width <= 65535 && y + height <= 65535,
    ensures
        (width == 0 || height == 0 || width > 65535 || height > 65535) <==> header == Err::<[u8; 6], FrameError>(FrameError::InvalidDimensions),
        header matches Ok(bytes) ==> bytes@ == bitmap_command_bytes(x, y, width, height),
{
    if width == 0 || height == 0 || width > 65535 || height > 65535 {
        return Err(FrameError::InvalidDimensions);
    }
    let ex = x + width as u16 - 1;
    let ey = y + height as u16 - 1;
    Ok(command(DISPLAY_BITMAP, x, y, ex, ey))
}

} // verus!
