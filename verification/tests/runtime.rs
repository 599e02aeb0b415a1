use telemetryforge::hardware::{last_json_line, lhm_search_paths, resolve_lhm_path, split_lines};
use telemetryforge::pack::{parse_pack_arguments, widget_module, PackMode};
use telemetryforge::remote::preview_data_url;
use telemetryforge::rendering::{
    active_after_switch, after_send, rule_check_due, screen_switch, sensor_poll_due, should_render, volume_poll_due, ScreenSwitch,
};
use telemetryforge::sdk::guest_text_span;

fn args(list: &[&str]) -> Vec<String> {
    list.iter().map(|s| s.to_string()).collect()
}

#[test]
fn pack_arguments_name_mode_project_and_output() {
    let request = parse_pack_arguments(&args(&["pack-wat", "dial", "out/dial.superwidget"])).ok().unwrap();
    assert_eq!(request.mode, PackMode::Text);
    assert_eq!(request.project, "dial");
    assert_eq!(request.output, "out/dial.superwidget");
    assert_eq!(parse_pack_arguments(&args(&["pack", "a", "b"])).ok().unwrap().mode, PackMode::Binary);
    let usage = "Usage: telemetryforge-superwidget <pack|pack-wat> <project-dir> <output.superwidget>".to_string();
    assert_eq!(parse_pack_arguments(&args(&["pack", "a"])).err(), Some(usage.clone()));
    assert_eq!(parse_pack_arguments(&args(&["zip", "a", "b"])).err(), Some(usage));
}

#[test]
fn text_modules_are_compiled_and_binary_ones_kept() {
    let binary = widget_module(PackMode::Text, b"(module)".to_vec()).unwrap();
    assert_eq!(&binary[..4], b"\0asm");
    assert_eq!(widget_module(PackMode::Text, binary.clone()).unwrap(), binary);
    assert_eq!(widget_module(PackMode::Binary, b"anything".to_vec()).unwrap(), b"anything".to_vec());
    assert!(widget_module(PackMode::Text, b"(module".to_vec()).is_err());
}

#[test]
fn the_hardware_library_is_looked_for_in_order() {
    let paths = lhm_search_paths(Some("D:\\tools\\LibreHardwareMonitorLib.dll"));
    assert_eq!(paths.len(), 5);
    assert_eq!(paths[0], "D:\\tools\\LibreHardwareMonitorLib.dll");
    assert_eq!(paths[1], "C:\\Program Files\\LibreHardwareMonitor\\LibreHardwareMonitorLib.dll");
    assert_eq!(paths[4], "C:\\Program Files (x86)\\FanControl\\LibreHardwareMonitorLib.dll");
    assert_eq!(lhm_search_paths(None).len(), 4);
    assert_eq!(
        resolve_lhm_path(&paths, &vec![false, false, false, true, true]),
        Some("C:\\Program Files\\FanControl\\LibreHardwareMonitorLib.dll".to_string())
    );
    assert_eq!(resolve_lhm_path(&paths, &vec![false; 5]), None);
}

#[test]
fn renderer_polls_and_draws_only_when_due() {
    assert!(!sensor_poll_due(249, 100));
    assert!(sensor_poll_due(250, 100));
    assert!(!sensor_poll_due(999, 1000));
    assert!(volume_poll_due(true, 100));
    assert!(!volume_poll_due(false, 1000));
    assert!(!rule_check_due(999));
    assert!(rule_check_due(1000));
    assert!(!should_render(false, false, false, false, false));
    assert!(should_render(false, false, false, false, true));
    assert!(should_render(true, false, false, false, false));
}

#[test]
fn automatic_screens_are_loaded_once() {
    assert_eq!(screen_switch(Some("msi".into()), None, false), ScreenSwitch::Load("msi".into()));
    assert_eq!(screen_switch(Some("msi".into()), Some("msi"), false), ScreenSwitch::Keep);
    assert_eq!(screen_switch(Some("msi".into()), Some("msi"), true), ScreenSwitch::Load("msi".into()));
    assert_eq!(screen_switch(None, Some("msi"), false), ScreenSwitch::Forget);
    assert_eq!(screen_switch(None, Some("msi"), true), ScreenSwitch::Keep);
    assert_eq!(screen_switch(None, None, false), ScreenSwitch::Keep);
}

#[test]
fn previews_are_data_urls() {
    assert_eq!(preview_data_url(&[0x89, b'P', b'N', b'G']), "data:image/png;base64,iVBORw==");
    assert_eq!(preview_data_url(&[]), "data:image/png;base64,");
}

#[test]
fn guest_text_is_read_within_bounds() {
    assert_eq!(guest_text_span(16, 5), (16, 5));
    assert_eq!(guest_text_span(-4, 10_000), (0, 4096));
    assert_eq!(guest_text_span(0, -1), (0, 0));
}

#[test]
fn bridge_output_is_split_like_str_lines() {
    assert_eq!(split_lines("a\r\nb\n\nc"), vec!["a", "b", "", "c"]);
    assert_eq!(split_lines("one\n"), vec!["one"]);
    assert_eq!(split_lines("x\r\ny\r"), "x\r\ny\r".lines().map(String::from).collect::<Vec<_>>());
    assert_eq!(split_lines(""), Vec::<String>::new());
    let text = "warning: slow\r\n{\"old\":1}\n  {\"cpu_temperature\":51.5}\r\ndone\n";
    assert_eq!(split_lines(text), text.lines().map(String::from).collect::<Vec<_>>());
}

#[test]
fn the_last_json_line_holds_the_readings() {
    let text = "warning: slow\r\n{\"old\":1}\n  {\"cpu_temperature\":51.5}\r\ndone\n";
    assert_eq!(last_json_line(text), Some("  {\"cpu_temperature\":51.5}".to_string()));
    assert_eq!(last_json_line("no json here\n"), None);
}

#[test]
fn a_sent_frame_is_kept_and_a_failed_send_drops_the_session() {
    let mut previous = Some("old frame");
    let mut transition = Some("fade");
    let mut rendered: Option<u64> = None;
    let mut session = Some("panel");
    after_send(true, "frame 1", false, 1, &mut previous, &mut transition, &mut rendered, &mut session);
    assert_eq!((previous, transition, rendered, session), (Some("frame 1"), Some("fade"), None, Some("panel")));
    after_send(true, "frame 2", true, 2, &mut previous, &mut transition, &mut rendered, &mut session);
    assert_eq!((previous, transition, rendered, session), (Some("frame 2"), None, Some(2), Some("panel")));
    after_send(false, "frame 3", true, 3, &mut previous, &mut transition, &mut rendered, &mut session);
    assert_eq!((previous, transition, rendered, session), (Some("frame 2"), None, Some(2), None));
}

#[test]
fn preview_encodes_every_length_of_last_group() {
    assert_eq!(preview_data_url(b"Man"), "data:image/png;base64,TWFu");
    assert_eq!(preview_data_url(b"Ma"), "data:image/png;base64,TWE=");
    assert_eq!(preview_data_url(b"M"), "data:image/png;base64,TQ==");
    assert_eq!(preview_data_url(&[0xfb, 0xff]), "data:image/png;base64,+/8=");
}

#[test]
fn the_automatic_screen_is_forgotten_when_the_scene_changes_or_the_rules_let_go() {
    let shown = || Some("msi".to_string());
    assert_eq!(active_after_switch(&ScreenSwitch::Keep, shown(), false), shown());
    assert_eq!(active_after_switch(&ScreenSwitch::Keep, shown(), true), None);
    assert_eq!(active_after_switch(&ScreenSwitch::Forget, shown(), false), None);
    assert_eq!(active_after_switch(&ScreenSwitch::Load("game".into()), shown(), false), shown());
    assert_eq!(active_after_switch(&ScreenSwitch::Load("game".into()), shown(), true), None);
}
