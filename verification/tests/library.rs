use telemetryforge::package::{asset_archive_path, package_destination, resolve_asset, safe_name};
use telemetryforge::readings::{bound_fan, dial_temperature, largest_disk, select_cpu_clock, select_cpu_temperature};
use telemetryforge::schema::{CpuClockSource, CpuTemperatureSource};
use telemetryforge::sdk::{colour_from_abi, rgba, sensor_field, Sensor, ABI_VERSION};
use telemetryforge::startup::{is_enabled, set_enabled, task_removed, StartupStep};
use telemetryforge::superwidgets::{component_dir, directory, find, sort_manifests, Manifest};
use telemetryforge::widgets::SensorField;

fn manifest(id: &str, name: &str) -> Manifest {
    Manifest {
        id: id.into(),
        name: name.into(),
        description: String::new(),
        template: "cpu_command_dial".into(),
        runtime: "native".into(),
        entry: None,
        width: 220,
        height: 220,
        sensors: Vec::new(),
    }
}

#[test]
fn package_folder_names_are_safe() {
    assert_eq!(safe_name("My Screen!"), "My_Screen_");
    assert_eq!(safe_name("../etc"), "___etc");
    assert_eq!(safe_name("né-ok_1"), "né-ok_1");
    assert_eq!(safe_name(""), "imported");
    assert_eq!(package_destination("/data", "A B"), "/data/packages/A_B");
}

#[test]
fn assets_keep_their_extension() {
    assert_eq!(asset_archive_path("background", "/pictures/sky.png"), "assets/background.png");
    assert_eq!(asset_archive_path("gif-0", "/pictures/anim.GIF"), "assets/gif-0.GIF");
    assert_eq!(asset_archive_path("background", "/pictures/raw"), "assets/background.bin");
}

#[test]
fn imported_assets_point_into_the_package() {
    let mut relative = Some("assets/background.png".to_string());
    resolve_asset("/data/packages/demo", &mut relative);
    assert_eq!(relative.as_deref(), Some("/data/packages/demo/assets/background.png"));
    let mut absolute = Some("/elsewhere/a.png".to_string());
    resolve_asset("/data/packages/demo", &mut absolute);
    assert_eq!(absolute.as_deref(), Some("/elsewhere/a.png"));
    let mut none: Option<String> = None;
    resolve_asset("/data/packages/demo", &mut none);
    assert_eq!(none, None);
}

#[test]
fn cpu_temperature_follows_the_source_setting() {
    let c = CpuTemperatureSource::Core;
    let s = CpuTemperatureSource::Socket;
    let a = CpuTemperatureSource::Auto;
    assert_eq!(select_cpu_temperature(s, Some(60.0), Some(65.0), Some(50.0)), Some(65.0));
    assert_eq!(select_cpu_temperature(s, Some(60.0), None, Some(50.0)), Some(60.0));
    assert_eq!(select_cpu_temperature(s, None, None, Some(50.0)), None);
    assert_eq!(select_cpu_temperature(c, Some(60.0), Some(65.0), Some(50.0)), Some(60.0));
    assert_eq!(select_cpu_temperature(a, None, Some(65.0), Some(50.0)), Some(65.0));
    assert_eq!(select_cpu_temperature(a, None, None, Some(50.0)), Some(50.0));
}

#[test]
fn dials_follow_their_bindings() {
    let core = Some(60.0f32);
    let socket = Some(65.0f32);
    let cpu = Some(55.0f32);
    let gpu = Some(70.0f32);
    assert_eq!(dial_temperature("cpu_command_dial", Some("cpu_socket"), core, socket, cpu, gpu), socket);
    assert_eq!(dial_temperature("cpu_command_dial", Some("cpu_core"), core, socket, cpu, gpu), core);
    assert_eq!(dial_temperature("cpu_command_dial", Some("cpu_core"), None, socket, cpu, gpu), socket);
    assert_eq!(dial_temperature("cpu_command_dial", None, core, socket, cpu, gpu), cpu);
    assert_eq!(dial_temperature("gpu_command_dial", Some("cpu_core"), core, socket, cpu, gpu), gpu);
    let ids = vec!["fan1".to_string(), "pump".to_string(), "fan1".to_string()];
    assert_eq!(bound_fan(Some("fan1"), &ids), Some(0));
    assert_eq!(bound_fan(Some("pump"), &ids), Some(1));
    assert_eq!(bound_fan(Some(""), &ids), None);
    assert_eq!(bound_fan(Some("cpu"), &ids), None);
    assert_eq!(bound_fan(None, &ids), None);
}

#[test]
fn guest_colours_and_sensors_round_trip() {
    assert_eq!(ABI_VERSION, 1);
    assert_eq!(rgba(1, 2, 3, 4), u32::from_le_bytes([1, 2, 3, 4]));
    assert_eq!(colour_from_abi(rgba(255, 128, 0, 200) as i32), [255, 128, 0, 200]);
    assert_eq!(colour_from_abi(-1), [255, 255, 255, 255]);
    assert_eq!(Sensor::GpuPower.id(), 13);
    assert_eq!(Sensor::Volume.id(), 30);
    assert_eq!(sensor_field(Sensor::CpuUsage.id()), Some(SensorField::CpuUsage));
    assert_eq!(sensor_field(30), Some(SensorField::SystemVolume));
    assert_eq!(sensor_field(5), None);
}

#[test]
fn autostart_steps_and_outcomes() {
    assert_eq!(set_enabled(true), vec![StartupStep::RemoveLegacyRunEntries, StartupStep::RegisterTask]);
    assert_eq!(set_enabled(false), vec![StartupStep::RemoveLegacyRunEntries, StartupStep::DeleteTask]);
    assert!(is_enabled(Some(0)));
    assert!(!is_enabled(Some(1)));
    assert!(!is_enabled(None));
    assert!(task_removed(true, true));
    assert!(task_removed(false, false));
    assert!(!task_removed(false, true));
}

#[test]
fn superwidgets_are_found_by_id_and_listed_by_name() {
    assert_eq!(directory("/data"), "/data/superwidgets");
    assert_eq!(component_dir("/data", "cpu-command-dial"), "/data/superwidgets/cpu-command-dial");
    let listed = sort_manifests(vec![manifest("b", "beta"), manifest("a", "Alpha"), manifest("c", "alpha")]);
    let ids: Vec<&str> = listed.iter().map(|m| m.id.as_str()).collect();
    assert_eq!(ids, vec!["a", "c", "b"]);
    let found = find(listed, "c").unwrap();
    assert_eq!(found.name, "alpha");
    assert!(find(vec![manifest("a", "A")], "zzz").is_none());
    let mut wasm = manifest("w", "W");
    assert!(!wasm.is_wasm());
    assert_eq!(wasm.entry_file(), "widget.wasm");
    wasm.runtime = "wasm".into();
    wasm.entry = Some("dial.wasm".into());
    assert!(wasm.is_wasm());
    assert_eq!(wasm.entry_file(), "dial.wasm");
}

#[test]
fn cpu_clock_follows_the_source_setting() {
    let average = CpuClockSource::Average;
    let effective = CpuClockSource::Effective;
    assert_eq!(select_cpu_clock(average, Some(4200), Some(3900), Some(3600)), Some(4200));
    assert_eq!(select_cpu_clock(effective, Some(4200), Some(3900), Some(3600)), Some(3900));
    assert_eq!(select_cpu_clock(average, None, Some(3900), Some(3600)), Some(3900));
    assert_eq!(select_cpu_clock(effective, Some(4200), None, Some(3600)), Some(4200));
    assert_eq!(select_cpu_clock(effective, None, None, Some(3600)), Some(3600));
    assert_eq!(select_cpu_clock::<u32>(average, None, None, None), None);
    assert_eq!(CpuClockSource::default(), CpuClockSource::Average);
}

#[test]
fn the_largest_disk_is_shown_and_the_last_of_equals() {
    assert_eq!(largest_disk(&vec![500, 0, 1000, 250]), Some(2));
    assert_eq!(largest_disk(&vec![1000, 0, 1000, 250]), Some(2));
    assert_eq!(largest_disk(&vec![0, 0]), None);
    assert_eq!(largest_disk(&vec![]), None);
    assert_eq!(largest_disk(&vec![0, 7]), Some(1));
}
