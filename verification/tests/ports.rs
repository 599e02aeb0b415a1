use telemetryforge::detection::{
    describe_port, needs_detection, resolve_port, sort_ports, usb_name, DisplayPort, PortError, PortKind,
    UsbPortInfo,
};

fn usb(vid: u16, pid: u16, serial: Option<&str>, product: Option<&str>) -> PortKind {
    PortKind::Usb(UsbPortInfo {
        vid,
        pid,
        serial_number: serial.map(String::from),
        product: product.map(String::from),
    })
}

fn port(name: &str, likely: bool) -> DisplayPort {
    DisplayPort { port: name.into(), name: "Serial port".into(), serial_number: None, likely_turzx: likely }
}

#[test]
fn usb_adapters_without_a_product_get_their_ids_as_name() {
    assert_eq!(usb_name(0x1a86, 0x5722), "Dispositivo USB 1A86:5722");
    assert_eq!(usb_name(0, 0xabc), "Dispositivo USB 0000:0ABC");
}

#[test]
fn known_displays_are_recognised() {
    let by_ids = describe_port("COM3".into(), usb(0x1a86, 0x5722, None, None));
    assert!(by_ids.likely_turzx);
    assert_eq!(by_ids.name, "Dispositivo USB 1A86:5722");
    let by_serial = describe_port("COM4".into(), usb(1, 2, Some("USB35INCHIPSV2"), Some("Widget")));
    assert!(by_serial.likely_turzx);
    assert_eq!(by_serial.name, "Widget");
    assert_eq!(by_serial.serial_number.as_deref(), Some("USB35INCHIPSV2"));
    let by_product = describe_port("COM5".into(), usb(1, 2, None, Some("My USB Monitor v2")));
    assert!(by_product.likely_turzx);
    assert!(describe_port("COM6".into(), usb(1, 2, None, Some("USB-SERIAL CH340"))).likely_turzx);
    assert!(!describe_port("COM7".into(), usb(1, 2, Some("other"), Some("Arduino"))).likely_turzx);
}

#[test]
fn other_ports_are_named_by_kind() {
    let bluetooth = describe_port("COM8".into(), PortKind::Bluetooth);
    assert_eq!(bluetooth.name, "Bluetooth serial port");
    assert!(!bluetooth.likely_turzx);
    assert_eq!(describe_port("COM9".into(), PortKind::Pci).name, "PCI serial port");
    assert_eq!(describe_port("/dev/ttyS0".into(), PortKind::Unknown).name, "Serial port");
    assert_eq!(describe_port("/dev/ttyS0".into(), PortKind::Unknown).port, "/dev/ttyS0");
}

#[test]
fn likely_displays_are_offered_first() {
    let sorted = sort_ports(vec![port("COM9", false), port("COM4", true), port("COM1", false), port("COM2", true)]);
    let names: Vec<&str> = sorted.iter().map(|p| p.port.as_str()).collect();
    assert_eq!(names, vec!["COM2", "COM4", "COM1", "COM9"]);
}

#[test]
fn configured_ports_are_used_as_they_are() {
    assert!(needs_detection("auto"));
    assert!(needs_detection("AUTO"));
    assert!(!needs_detection("COM3"));
    assert_eq!(resolve_port("COM3", &Vec::new()), Ok("COM3".to_string()));
}

#[test]
fn automatic_choice_prefers_the_display() {
    let ports = vec![port("COM1", false), port("COM4", true), port("COM5", true)];
    assert_eq!(resolve_port("Auto", &ports), Ok("COM4".to_string()));
    assert_eq!(resolve_port("AUTO", &vec![port("COM7", false)]), Ok("COM7".to_string()));
    assert_eq!(resolve_port("AUTO", &Vec::new()), Err(PortError::NoPort));
    assert_eq!(
        resolve_port("AUTO", &vec![port("COM1", false), port("COM2", false)]),
        Err(PortError::NotIdentified)
    );
    assert_eq!(
        PortError::NoPort.message(),
        "No COM port detected. Check the USB data cable and display serial driver."
    );
    assert_eq!(
        PortError::NotIdentified.message(),
        "No port was automatically identified as TURZX. Select the COM port manually."
    );
}
