//! Recognising the display among the machine's serial ports and choosing the
//! port to open.
//!
//! The ports themselves are enumerated by the program around the library,
//! which hands each one over as a `PortKind`.
use vstd::prelude::*;
use crate::sorting::{apply_order, stable_order, text_lt};
use crate::text::{
    ascii_lowercase, ascii_lowercase_chars, chars_of, contains, contains_chars, eq_ignore_ascii_case, push_char,
    str_equal, str_eq_ignore_ascii_case,
};

verus! {

/// What a USB serial adapter reports about itself.
pub struct UsbPortInfo {
    pub vid: u16,
    pub pid: u16,
    pub serial_number: Option<String>,
    pub product: Option<String>,
}

/// The kind of a serial port, as the operating system reports it.
pub enum PortKind {
    Usb(UsbPortInfo),
    Bluetooth,
    Pci,
    Unknown,
}

/// A serial port as offered to the user.
pub struct DisplayPort {
    pub port: String,
    pub name: String,
    pub serial_number: Option<String>,
    pub likely_turzx: bool,
}

/// Whether a product name suggests the display: after ASCII lower-casing it
/// contains "turing", "turzx", "usb monitor" or "ch340".
pub open spec fn product_suggests_display(product: Seq<char>) -> bool {
    let name = ascii_lowercase(product);
    ||| contains(name, "turing"@)
    ||| contains(name, "turzx"@)
    ||| contains(name, "usb monitor"@)
    ||| contains(name, "ch340"@)
}

/// Whether a USB adapter is probably the display: its serial number is
/// "USB35INCHIPSV2", or its ids are 1a86:5722, or its product name suggests it.
pub open spec fn likely_display(vid: u16, pid: u16, serial: Option<Seq<char>>, product: Option<Seq<char>>) -> bool {
    ||| serial == Some("USB35INCHIPSV2"@)
    ||| (vid == 0x1a86 && pid == 0x5722)
    ||| (product matches Some(p) && product_suggests_display(p))
}

/// An upper-case hexadecimal digit.
pub open spec fn hex_char(d: int) -> char {
    if d < 10 {
        ('0' as int + d) as char
    } else {
        ('A' as int + d - 10) as char
    }
}

/// A 16-bit number as four upper-case hexadecimal digits (`{:04X}`).
pub open spec fn hex4(v: u16) -> Seq<char> {
    seq![
        hex_char((v / 0x1000 % 16) as int),
        hex_char((v / 0x100 % 16) as int),
        hex_char((v / 0x10 % 16) as int),
        hex_char((v % 16) as int),
    ]
}

/// The name shown for a USB adapter without a product name.
pub open spec fn usb_fallback_name(vid: u16, pid: u16) -> Seq<char> {
    "Dispositivo USB "@ + hex4(vid) + seq![':'] + hex4(pid)
}

/// The name, serial number and display guess shown for a port of a kind.
pub open spec fn port_description(kind: PortKind) -> (Seq<char>, Option<Seq<char>>, bool) {
    match kind {
        PortKind::Usb(info) => (
            match info.product {
                Some(p) => p@,
                None => usb_fallback_name(info.vid, info.pid),
            },
            crate::scene::string_opt_view(info.serial_number),
            likely_display(
                info.vid,
                info.pid,
                crate::scene::string_opt_view(info.serial_number),
                crate::scene::string_opt_view(info.product),
            ),
        ),
        PortKind::Bluetooth => ("Bluetooth serial port"@, None, false),
        PortKind::Pci => ("PCI serial port"@, None, false),
        PortKind::Unknown => ("Serial port"@, None, false),
    }
}

fn push_hex_digit(s: &mut String, d: u16)
    requires
        d < 16,
    ensures
        final(s)@ == old(s)@.push(hex_char(d as int)),
{
    let c = if d < 10 {
        ((('0' as u8) + (d as u8)) as char)
    } else {
        ((('A' as u8) + (d as u8) - 10) as char)
    };
    push_char(s, c);
}

fn push_hex4(s: &mut String, v: u16)
    ensures
        final(s)@ == old(s)@ + hex4(v),
{
    push_hex_digit(s, v / 0x1000 % 16);
    push_hex_digit(s, v / 0x100 % 16);
    push_hex_digit(s, v / 0x10 % 16);
    push_hex_digit(s, v % 16);
    assert(final(s)@ =~= old(s)@ + hex4(v));
}

/// The name shown for a USB adapter without a product name.
pub fn usb_name(vid: u16, pid: u16) -> (name: String)
    ensures
        name@ == usb_fallback_name(vid, pid),
{
    let mut name = String::from_str("Dispositivo USB ");
    push_hex4(&mut name, vid);
    push_char(&mut name, ':');
    push_hex4(&mut name, pid);
    assert(name@ =~= usb_fallback_name(vid, pid));
    name
}

/// Whether a product name suggests the display.
pub fn product_is_display(product: &str) -> (suggests: bool)
    ensures
        suggests == product_suggests_display(product@),
{
    let name = ascii_lowercase_chars(&chars_of(product));
    contains_chars(&name, &chars_of("turing")) || contains_chars(&name, &chars_of("turzx"))
        || contains_chars(&name, &chars_of("usb monitor")) || contains_chars(&name, &chars_of("ch340"))
}

/// Describes a port for the user and guesses whether it is the display.
pub fn describe_port(port: String, kind: PortKind) -> (described: DisplayPort)
    ensures
        described.port@ == port@,
        (described.name@, crate::scene::string_opt_view(described.serial_number), described.likely_turzx) == port_description(kind),
{
    match kind {
        PortKind::Usb(info) => {
            let serial_matches = match &info.serial_number {
                Some(s) => str_equal(s.as_str(), "USB35INCHIPSV2"),
                None => false,
            };
            let product_matches = match &info.product {
                Some(p) => product_is_display(p.as_str()),
                None => false,
            };
            let likely = serial_matches || (info.vid == 0x1a86 && info.pid == 0x5722) || product_matches;
            let name = match info.product {
                Some(p) => p,
                None => usb_name(info.vid, info.pid),
            };
            DisplayPort { port, name, serial_number: info.serial_number, likely_turzx: likely }
        },
        PortKind::Bluetooth => DisplayPort {
            port,
            name: String::from_str("Bluetooth serial port"),
            serial_number: None,
            likely_turzx: false,
        },
        PortKind::Pci => DisplayPort {
            port,
            name: String::from_str("PCI serial port"),
            serial_number: None,
            likely_turzx: false,
        },
        PortKind::Unknown => DisplayPort {
            port,
            name: String::from_str("Serial port"),
            serial_number: None,
            likely_turzx: false,
        },
    }
}

} // verus!

verus! {

/// The order key of a port: likely displays first, then by port name.
pub open spec fn port_key(p: DisplayPort) -> Seq<char> {
    seq![if p.likely_turzx { '0' } else { '1' }] + p.port@
}

/// The order keys of a list of ports.
pub open spec fn port_keys(ports: Seq<DisplayPort>) -> Seq<Seq<char>> {
    ports.map_values(|p: DisplayPort| port_key(p))
}

proof fn lemma_prefixed_text_lt(c: char, d: char, a: Seq<char>, b: Seq<char>)
    ensures
        text_lt(seq![c] + a, seq![d] + b) == (if c != d { (c as int) < (d as int) } else { text_lt(a, b) }),
{
    let x = seq![c] + a;
    let y = seq![d] + b;
    assert(x[0] == c && y[0] == d);
    assert(x.drop_first() =~= a);
    assert(y.drop_first() =~= b);
}

/// Orders ports as they are offered: likely displays first, then by port
/// name; ports that compare equal keep their order.
pub fn sort_ports(ports: Vec<DisplayPort>) -> (sorted: Vec<DisplayPort>)
    ensures
        crate::sorting::stably_sorted(ports@, port_keys(ports@), sorted@),
        forall|i: int, j: int| 0 <= i < j < sorted@.len() ==>
            (#[trigger] sorted@[j]).likely_turzx ==> (#[trigger] sorted@[i]).likely_turzx,
        forall|i: int, j: int| 0 <= i < j < sorted@.len() && (#[trigger] sorted@[i]).likely_turzx
            == (#[trigger] sorted@[j]).likely_turzx ==> !text_lt(sorted@[j].port@, sorted@[i].port@),
{
    let mut keys: Vec<Vec<char>> = Vec::new();
    let mut i: usize = 0;
    while i < ports.len()
        invariant
            i <= ports.len(),
            keys@.len() == i,
            forall|j: int| 0 <= j < i ==> (#[trigger] keys@[j])@ == port_key(ports@[j]),
        decreases ports.len() - i,
    {
        let mut key: Vec<char> = Vec::new();
        key.push(if ports[i].likely_turzx { '0' } else { '1' });
        let mut name = chars_of(ports[i].port.as_str());
        key.append(&mut name);
        assert(key@ =~= port_key(ports@[i as int]));
        keys.push(key);
        i += 1;
    }
    let ghost ks = port_keys(ports@);
    assert(keys@.map_values(|k: Vec<char>| k@) =~= ks);
    let order = stable_order(&keys);
    proof {
        crate::sorting::lemma_stable_order_is_arrangement(ks, order@);
    }
    let ghost input = ports@;
    let sorted = apply_order(ports, &order);
    proof {
        assert(crate::sorting::is_stable_order(ks, order@));
        assert forall|i: int, j: int| 0 <= i < j < sorted@.len() implies
            ((#[trigger] sorted@[j]).likely_turzx ==> (#[trigger] sorted@[i]).likely_turzx) && (sorted@[i].likely_turzx
            == sorted@[j].likely_turzx ==> !text_lt(sorted@[j].port@, sorted@[i].port@)) by {
            let a = order@[i] as int;
            let b = order@[j] as int;
            assert(crate::sorting::ranked_before(ks, a, b));
            let ca = if input[a].likely_turzx { '0' } else { '1' };
            let cb = if input[b].likely_turzx { '0' } else { '1' };
            lemma_prefixed_text_lt(ca, cb, input[a].port@, input[b].port@);
            lemma_prefixed_text_lt(cb, ca, input[b].port@, input[a].port@);
            crate::sorting::lemma_text_lt_trichotomy(ks[a], ks[b]);
            if ks[a] == ks[b] {
                assert(ks[a][0] == ca && ks[b][0] == cb);
                assert(ks[a].drop_first() =~= input[a].port@);
                assert(ks[b].drop_first() =~= input[b].port@);
                crate::sorting::lemma_text_lt_irreflexive(input[a].port@);
            }
        }
    }
    sorted
}

} // verus!

verus! {

/// Why no port could be chosen automatically.
#[derive(Clone, Copy, Debug, PartialEq, Eq, Structural)]
pub enum PortError {
    /// There is no serial port at all.
    NoPort,
    /// Several ports, none recognised as the display.
    NotIdentified,
}

impl PortError {
    /// The message shown to the user.
    pub fn message(&self) -> (text: &'static str)
        ensures
            text@ == match self {
                PortError::NoPort => "No COM port detected. Check the USB data cable and display serial driver."@,
                PortError::NotIdentified => "No port was automatically identified as TURZX. Select the COM port manually."@,
            },
    {
        match self {
            PortError::NoPort => "No COM port detected. Check the USB data cable and display serial driver.",
            PortError::NotIdentified => "No port was automatically identified as TURZX. Select the COM port manually.",
        }
    }
}

/// Whether the configured port asks for detection ("AUTO", in any ASCII case).
pub open spec fn is_auto(configured: Seq<char>) -> bool {
    eq_ignore_ascii_case(configured, "AUTO"@)
}

/// Whether the ports must be listed to resolve the configured port.
pub fn needs_detection(configured: &str) -> (auto: bool)
    ensures
        auto == is_auto(configured@),
{
    str_eq_ignore_ascii_case(configured, "AUTO")
}

/// Position of the first port recognised as the display.
pub open spec fn first_likely(ports: Seq<DisplayPort>) -> Option<int>
    decreases ports.len(),
{
    if ports.len() == 0 {
        None
    } else if ports[0].likely_turzx {
        Some(0)
    } else {
        match first_likely(ports.drop_first()) {
            Some(i) => Some(i + 1),
            None => None,
        }
    }
}

/// The port to open: the configured one unless it is "AUTO"; otherwise the
/// first port recognised as the display, or the only port there is.
pub open spec fn resolved_port(configured: Seq<char>, ports: Seq<DisplayPort>) -> Result<Seq<char>, PortError> {
    if !is_auto(configured) {
        Ok(configured)
    } else {
        match first_likely(ports) {
            Some(i) => Ok(ports[i].port@),
            None => if ports.len() == 1 {
                Ok(ports[0].port@)
            } else if ports.len() == 0 {
                Err(PortError::NoPort)
            } else {
                Err(PortError::NotIdentified)
            },
        }
    }
}

proof fn lemma_first_likely(ports: Seq<DisplayPort>, k: int)
    requires
        0 <= k <= ports.len(),
        forall|j: int| 0 <= j < k ==> !(#[trigger] ports[j]).likely_turzx,
        k < ports.len() ==> ports[k].likely_turzx,
    ensures
        first_likely(ports) == (if k < ports.len() { Some(k) } else { None::<int> }),
    decreases k,
{
    if k > 0 {
        assert forall|j: int| 0 <= j < k - 1 implies !(#[trigger] ports.drop_first()[j]).likely_turzx by {
            assert(ports.drop_first()[j] == ports[j + 1]);
        }
        lemma_first_likely(ports.drop_first(), k - 1);
    }
}

/// Chooses the port to open (see `resolved_port`). `ports` are the machine's
/// ports in the order they are offered; they are not read when the
/// configured port is not "AUTO".
pub fn resolve_port(configured: &str, ports: &Vec<DisplayPort>) -> (port: Result<String, PortError>)
    ensures
        match port {
            Ok(p) => resolved_port(configured@, ports@) == Ok::<Seq<char>, PortError>(p@),
            Err(e) => resolved_port(configured@, ports@) == Err::<Seq<char>, PortError>(e),
        },
{
    if !needs_detection(configured) {
        return Ok(String::from_str(configured));
    }
    let mut k: usize = 0;
    while k < ports.len() && !ports[k].likely_turzx
        invariant
            k <= ports.len(),
            forall|j: int| 0 <= j < k ==> !(#[trigger] ports@[j]).likely_turzx,
        decreases ports.len() - k,
    {
        k += 1;
    }
    proof {
        lemma_first_likely(ports@, k as int);
    }
    if k < ports.len() {
        Ok(ports[k].port.clone())
    } else if ports.len() == 1 {
        Ok(ports[0].port.clone())
    } else if ports.len() == 0 {
        Err(PortError::NoPort)
    } else {
        Err(PortError::NotIdentified)
    }
}

} // verus!

verus! {

/// When the port is detected automatically and some port is recognised as
/// the display, the chosen port is one recognised as the display: the first
/// of them in the order they are offered.
pub proof fn law_auto_prefers_a_recognised_display(configured: Seq<char>, ports: Seq<DisplayPort>, k: int)
    requires
        is_auto(configured),
        0 <= k < ports.len(),
        ports[k].likely_turzx,
    ensures
        first_likely(ports) matches Some(i) && 0 <= i <= k && ports[i].likely_turzx && resolved_port(configured, ports)
            == Ok::<Seq<char>, PortError>(ports[i].port@),
{
    lemma_first_likely_found(ports, k);
}

/// A USB adapter whose product name, with ASCII letters lower-cased, holds
/// "turing", "turzx", "usb monitor" or "ch340" somewhere is described as
/// probably the display, whatever its ids and serial number.
pub proof fn law_display_product_names_are_recognised(info: UsbPortInfo, product: String, keyword: Seq<char>, at: int)
    requires
        info.product == Some(product),
        keyword == "turing"@ || keyword == "turzx"@ || keyword == "usb monitor"@ || keyword == "ch340"@,
        0 <= at,
        at + keyword.len() <= product@.len(),
        forall|j: int| 0 <= j < keyword.len() ==> crate::text::ascii_lower(#[trigger] product@[at + j]) == keyword[j],
    ensures
        port_description(PortKind::Usb(info)).2,
{
    let name = ascii_lowercase(product@);
    assert forall|j: int| 0 <= j < keyword.len() implies #[trigger] name.subrange(at, at + keyword.len())[j]
        == keyword[j] by {
        assert(crate::text::ascii_lower(product@[at + j]) == keyword[j]);
    }
    assert(name.subrange(at, at + keyword.len()) =~= keyword);
    assert(contains(name, keyword));
}

/// An explicitly configured port is opened as it is written. With "AUTO"
/// and no port recognised as the display, the only port there is is
/// opened; without ports the answer is that there is none, and with several
/// that none was identified.
pub proof fn law_port_resolution_without_a_recognised_display(configured: Seq<char>, ports: Seq<DisplayPort>)
    ensures
        !is_auto(configured) ==> resolved_port(configured, ports) == Ok::<Seq<char>, PortError>(configured),
        is_auto(configured) && (forall|k: int| 0 <= k < ports.len() ==> !(#[trigger] ports[k]).likely_turzx) ==> {
            &&& ports.len() == 0 ==> resolved_port(configured, ports) == Err::<Seq<char>, PortError>(PortError::NoPort)
            &&& ports.len() == 1 ==> resolved_port(configured, ports) == Ok::<Seq<char>, PortError>(ports[0].port@)
            &&& ports.len() >= 2 ==> resolved_port(configured, ports) == Err::<Seq<char>, PortError>(
                PortError::NotIdentified,
            )
        },
{
    if forall|k: int| 0 <= k < ports.len() ==> !(#[trigger] ports[k]).likely_turzx {
        lemma_first_likely(ports, ports.len() as int);
    }
}

/// Detection is asked for by "AUTO" written in any ASCII case, and by
/// nothing else.
pub proof fn law_auto_in_any_case(configured: Seq<char>)
    ensures
        is_auto(configured) <==> configured.len() == 4 && crate::text::ascii_lower(configured[0]) == 'a'
            && crate::text::ascii_lower(configured[1]) == 'u' && crate::text::ascii_lower(configured[2]) == 't'
            && crate::text::ascii_lower(configured[3]) == 'o',
{
    reveal_strlit("AUTO");
    let auto = seq!['a', 'u', 't', 'o'];
    assert(ascii_lowercase("AUTO"@) =~= auto);
    let lower = ascii_lowercase(configured);
    if configured.len() == 4 && crate::text::ascii_lower(configured[0]) == 'a' && crate::text::ascii_lower(
        configured[1],
    ) == 'u' && crate::text::ascii_lower(configured[2]) == 't' && crate::text::ascii_lower(configured[3]) == 'o' {
        assert(lower =~= auto);
    }
    if is_auto(configured) {
        assert(lower == auto);
        assert(lower[0] == 'a' && lower[1] == 'u' && lower[2] == 't' && lower[3] == 'o');
    }
}

/// An adapter reporting the display's serial number "USB35INCHIPSV2", or the
/// ids 1a86:5722, is described as probably the display whatever its product
/// name; a Bluetooth, PCI or unknown port never is.
pub proof fn law_display_ids_are_recognised(info: UsbPortInfo)
    ensures
        crate::scene::string_opt_view(info.serial_number) == Some("USB35INCHIPSV2"@) ==> port_description(
            PortKind::Usb(info),
        ).2,
        info.vid == 0x1a86 && info.pid == 0x5722 ==> port_description(PortKind::Usb(info)).2,
        !port_description(PortKind::Bluetooth).2,
        !port_description(PortKind::Pci).2,
        !port_description(PortKind::Unknown).2,
{
}

proof fn lemma_first_likely_found(ports: Seq<DisplayPort>, k: int)
    requires
        0 <= k < ports.len(),
        ports[k].likely_turzx,
    ensures
        first_likely(ports) matches Some(i) && 0 <= i <= k && ports[i].likely_turzx,
    decreases k,
{
    if !ports[0].likely_turzx {
        assert(ports.drop_first()[k - 1] == ports[k]);
        lemma_first_likely_found(ports.drop_first(), k - 1);
        let i = first_likely(ports.drop_first())->0;
        assert(ports.drop_first()[i] == ports[i + 1]);
    }
}

} // verus!
