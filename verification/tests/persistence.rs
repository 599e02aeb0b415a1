use telemetryforge::persistence::{
    active_screen_candidate, active_screen_path, active_screen_record, default_config_path, list_profile_names,
    profile_path, profiles_dir, split_file_name, validate_screen_name, ProfileError,
};
use telemetryforge::sorting::sort_by_lowercase;

#[test]
fn files_live_next_to_the_configuration() {
    assert_eq!(default_config_path("/data/TelemetryForge"), "/data/TelemetryForge/config.yaml");
    assert_eq!(active_screen_path("/data/TelemetryForge/config.yaml"), "/data/TelemetryForge/active-screen.txt");
    assert_eq!(profiles_dir("/data/TelemetryForge/config.yaml"), "/data/TelemetryForge/screens");
    assert_eq!(profiles_dir("config.yaml"), "screens");
}

#[test]
fn screen_names_are_checked_and_trimmed() {
    assert_eq!(
        profile_path("/data/config.yaml", "  My Screen "),
        Ok("/data/screens/My Screen.yaml".to_string())
    );
    assert_eq!(profile_path("/data/config.yaml", "Gaming-2_b"), Ok("/data/screens/Gaming-2_b.yaml".to_string()));
    assert_eq!(profile_path("/data/config.yaml", "   "), Err(ProfileError::InvalidName));
    assert_eq!(profile_path("/data/config.yaml", "../secret"), Err(ProfileError::InvalidName));
    assert_eq!(profile_path("/data/config.yaml", "a.b"), Err(ProfileError::InvalidName));
    assert_eq!(profile_path("/data/config.yaml", &"x".repeat(81)), Err(ProfileError::InvalidName));
    assert!(profile_path("/data/config.yaml", &"x".repeat(80)).is_ok());
    assert_eq!(profile_path("/data/config.yaml", &"é".repeat(41)), Err(ProfileError::InvalidName));
    assert_eq!(validate_screen_name(" Écran 1 "), Ok("Écran 1".to_string()));
}

#[test]
fn the_active_screen_marker_holds_a_trimmed_name() {
    assert_eq!(active_screen_record(Some("  Gaming ")), Some("Gaming".to_string()));
    assert_eq!(active_screen_record(Some("   ")), None);
    assert_eq!(active_screen_record(None), None);
    assert_eq!(
        active_screen_candidate("/data/config.yaml", "Gaming\n"),
        Some(("Gaming".to_string(), "/data/screens/Gaming.yaml".to_string()))
    );
    assert_eq!(active_screen_candidate("/data/config.yaml", "\n"), None);
    assert_eq!(active_screen_candidate("/data/config.yaml", "bad/name"), None);
}

#[test]
fn file_names_split_like_paths_do() {
    assert_eq!(split_file_name("screen.yaml"), ("screen".to_string(), Some("yaml".to_string())));
    assert_eq!(split_file_name("a.b.yaml"), ("a.b".to_string(), Some("yaml".to_string())));
    assert_eq!(split_file_name(".yaml"), (".yaml".to_string(), None));
    assert_eq!(split_file_name("readme"), ("readme".to_string(), None));
    assert_eq!(split_file_name(".."), ("..".to_string(), None));
    assert_eq!(split_file_name("trailing."), ("trailing".to_string(), Some(String::new())));
}

#[test]
fn saved_screens_are_listed_case_insensitively() {
    let files = vec![
        "b.yaml".to_string(),
        "A.YAML".to_string(),
        "notes.txt".to_string(),
        "a.yaml".to_string(),
        ".yaml".to_string(),
        "Zed.Yaml".to_string(),
    ];
    assert_eq!(list_profile_names(&files), vec!["A", "a", "b", "Zed"]);
}

#[test]
fn lowercase_sort_is_stable() {
    let sorted = sort_by_lowercase(vec!["b".into(), "B".into(), "a".into(), "Ä".into(), "ä".into()]);
    assert_eq!(sorted, vec!["a", "b", "B", "Ä", "ä"]);
}

#[test]
fn saved_screens_lie_in_the_screens_folder_beside_the_configuration() {
    let config = "/data/TelemetryForge/config.yaml";
    let screen = profile_path(config, "Gaming").unwrap();
    let folder = profiles_dir(config);
    assert_eq!(std::path::Path::new(&screen).parent(), Some(std::path::Path::new(&folder)));
    assert_eq!(
        std::path::Path::new(&folder).parent(),
        std::path::Path::new(&active_screen_path(config)).parent()
    );
}
