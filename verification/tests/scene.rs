use telemetryforge::scene::{
    hash, normalise_process_name, rule_matches, transition_duration_ms, AutomationConfig, AutomationRule,
    AutomationRuleKind, RuleEngine,
};
use telemetryforge::schema::TransitionKind;

fn gpu_rule(sustain_seconds: u64, screen: &str) -> AutomationRule {
    AutomationRule {
        enabled: true,
        kind: AutomationRuleKind::GpuUsageAbove,
        process_name: String::new(),
        idle_seconds: 300,
        sustain_seconds,
        release_seconds: 8,
        screen: screen.into(),
    }
}

fn automation(rules: Vec<AutomationRule>, default_screen: Option<&str>) -> AutomationConfig {
    AutomationConfig {
        enabled: true,
        default_screen: default_screen.map(String::from),
        rules,
    }
}

/// Whether each rule matches, given the GPU usage; a rule's threshold is met
/// when the reading, in floating point, is at least the threshold.
fn gpu_matches(config: &AutomationConfig, gpu_usage: Option<f32>, threshold: f32) -> Vec<bool> {
    config
        .rules
        .iter()
        .map(|rule| rule_matches(rule, &Vec::new(), 0, gpu_usage.is_some_and(|value| value >= threshold)))
        .collect()
}

#[test]
fn process_names_ignore_case_and_exe_suffix() {
    assert_eq!(normalise_process_name("CINEBENCH.EXE"), "cinebench");
}

#[test]
fn gpu_rule_selects_screen_without_a_default_screen() {
    let config = automation(vec![gpu_rule(0, "msi")], None);
    let matches = gpu_matches(&config, Some(90.0), 80.0);
    assert_eq!(RuleEngine::new().target_screen(&config, &matches, 1_000), Some("msi".into()));
}

#[test]
fn reset_requires_a_rule_to_sustain_again() {
    let config = automation(vec![gpu_rule(10, "msi")], None);
    let matches = gpu_matches(&config, Some(90.0), 80.0);
    let mut engine = RuleEngine::new();
    assert_eq!(engine.target_screen(&config, &matches, 1_000), None);
    engine.reset();
    assert_eq!(engine.target_screen(&config, &matches, 1_000), None);
}

#[test]
fn first_matching_rule_wins() {
    let config = automation(vec![gpu_rule(0, "first"), gpu_rule(0, "second")], Some("home"));
    let mut engine = RuleEngine::new();
    assert_eq!(engine.target_screen(&config, &vec![true, true], 0), Some("first".into()));
    let mut engine = RuleEngine::new();
    assert_eq!(engine.target_screen(&config, &vec![false, true], 0), Some("second".into()));
}

#[test]
fn a_rule_waits_for_its_activation_delay() {
    let config = automation(vec![gpu_rule(10, "busy")], Some("home"));
    let mut engine = RuleEngine::new();
    assert_eq!(engine.target_screen(&config, &vec![true], 0), Some("home".into()));
    assert_eq!(engine.target_screen(&config, &vec![true], 9_999), Some("home".into()));
    assert_eq!(engine.target_screen(&config, &vec![true], 10_000), Some("busy".into()));
}

#[test]
fn an_interrupted_match_starts_over() {
    let config = automation(vec![gpu_rule(10, "busy")], None);
    let mut engine = RuleEngine::new();
    assert_eq!(engine.target_screen(&config, &vec![true], 0), None);
    assert_eq!(engine.target_screen(&config, &vec![false], 5_000), None);
    assert_eq!(engine.target_screen(&config, &vec![true], 6_000), None);
    assert_eq!(engine.target_screen(&config, &vec![true], 15_000), None);
    assert_eq!(engine.target_screen(&config, &vec![true], 16_000), Some("busy".into()));
}

#[test]
fn a_screen_is_held_for_its_return_delay() {
    let config = automation(vec![gpu_rule(0, "busy")], Some("home"));
    let mut engine = RuleEngine::new();
    assert_eq!(engine.target_screen(&config, &vec![true], 0), Some("busy".into()));
    assert_eq!(engine.target_screen(&config, &vec![false], 7_999), Some("busy".into()));
    assert_eq!(engine.target_screen(&config, &vec![false], 8_001), Some("home".into()));
}

#[test]
fn disabled_automation_chooses_nothing() {
    let mut config = automation(vec![gpu_rule(0, "busy")], Some("home"));
    config.enabled = false;
    assert_eq!(RuleEngine::new().target_screen(&config, &vec![true], 0), None);
}

#[test]
fn any_rule_matches_sees_enabled_rules() {
    let config = automation(vec![gpu_rule(0, "busy")], None);
    let engine = RuleEngine::new();
    assert!(engine.any_rule_matches(&config, &vec![true]));
    assert!(!engine.any_rule_matches(&config, &vec![false]));
}

#[test]
fn rules_match_processes_idle_time_and_sensors() {
    let process = AutomationRule {
        enabled: true,
        kind: AutomationRuleKind::ProcessRunning,
        process_name: "Game.exe".into(),
        idle_seconds: 0,
        sustain_seconds: 0,
        release_seconds: 0,
        screen: "play".into(),
    };
    assert!(rule_matches(&process, &vec!["explorer.exe".to_string(), "GAME.EXE".to_string()], 0, false));
    assert!(!rule_matches(&process, &vec!["explorer.exe".to_string()], 0, false));
    let idle = AutomationRule { kind: AutomationRuleKind::IdleFor, idle_seconds: 300, ..process.clone() };
    assert!(rule_matches(&idle, &Vec::new(), 300, false));
    assert!(!rule_matches(&idle, &Vec::new(), 299, false));
    let blank = AutomationRule { screen: "  ".into(), ..gpu_rule(0, "") };
    assert!(!rule_matches(&blank, &Vec::new(), 0, true));
}

#[test]
fn pixel_hash_matches_the_mixing_steps() {
    for (x, y) in [(0u32, 0u32), (1, 2), (479, 319), (u32::MAX, 7)] {
        let mut value = x.wrapping_mul(0x45d9f3b) ^ y.wrapping_mul(0x119de1f3);
        value ^= value >> 16;
        value = value.wrapping_mul(0x45d9f3b);
        assert_eq!(hash(x, y), value ^ (value >> 16));
    }
}

#[test]
fn transition_duration_is_clamped() {
    assert_eq!(transition_duration_ms(TransitionKind::Disabled, 500), None);
    assert_eq!(transition_duration_ms(TransitionKind::Fade, 0), None);
    assert_eq!(transition_duration_ms(TransitionKind::Fade, 20), Some(100));
    assert_eq!(transition_duration_ms(TransitionKind::Slide, 9000), Some(3000));
    assert_eq!(transition_duration_ms(TransitionKind::Glitch, 700), Some(700));
}

#[test]
fn removed_rules_forget_their_start_times() {
    let with_rule = automation(vec![gpu_rule(10, "busy")], None);
    let without_rule = automation(Vec::new(), None);
    let mut engine = RuleEngine::new();
    assert_eq!(engine.target_screen(&with_rule, &vec![true], 0), None);
    assert_eq!(engine.target_screen(&without_rule, &Vec::new(), 5_000), None);
    assert_eq!(engine.target_screen(&with_rule, &vec![true], 6_000), None);
    assert_eq!(engine.target_screen(&with_rule, &vec![true], 15_999), None);
    assert_eq!(engine.target_screen(&with_rule, &vec![true], 16_000), Some("busy".into()));
}
