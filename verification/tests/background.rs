use telemetryforge::schema::WidgetKind;
use telemetryforge::widgets::{
    any_enabled_widget, is_supported_image, select_background_image, slideshow_slot, volume_widget_enabled,
    WidgetState,
};

#[test]
fn background_pictures_are_recognised_by_extension() {
    assert!(is_supported_image("/pictures/sunset.PNG"));
    assert!(is_supported_image("/pictures/photo.jpeg"));
    assert!(is_supported_image("wall.WebP"));
    assert!(!is_supported_image("/pictures/notes.txt"));
    assert!(!is_supported_image("/pictures/.png"));
    assert!(!is_supported_image("/pictures/README"));
}

#[test]
fn slideshow_periods_count_whole_intervals() {
    assert_eq!(slideshow_slot(0, 5), 0);
    assert_eq!(slideshow_slot(599, 5), 1);
    assert_eq!(slideshow_slot(600, 5), 2);
    assert_eq!(slideshow_slot(120, 0), 2);
    assert_eq!(slideshow_slot(u64::MAX, u64::MAX), 1);
}

#[test]
fn slideshow_cycles_through_sorted_pictures() {
    let paths = vec![
        "/f/b.png".to_string(),
        "/f/notes.txt".to_string(),
        "/f/A.jpg".to_string(),
        "/f/c.gif".to_string(),
    ];
    assert_eq!(select_background_image(&paths, 0, 1), Some("/f/A.jpg".into()));
    assert_eq!(select_background_image(&paths, 60, 1), Some("/f/b.png".into()));
    assert_eq!(select_background_image(&paths, 120, 1), Some("/f/c.gif".into()));
    assert_eq!(select_background_image(&paths, 180, 1), Some("/f/A.jpg".into()));
    assert_eq!(select_background_image(&vec!["/f/x.doc".to_string()], 0, 1), None);
}

#[test]
fn volume_widgets_count_only_when_shown() {
    let hidden = vec![WidgetState { kind: WidgetKind::Volume, enabled: false }];
    let shown = vec![
        WidgetState { kind: WidgetKind::Clock, enabled: true },
        WidgetState { kind: WidgetKind::Volume, enabled: true },
    ];
    assert!(!volume_widget_enabled(&hidden));
    assert!(volume_widget_enabled(&shown));
    assert!(any_enabled_widget(&shown, WidgetKind::Clock));
    assert!(!any_enabled_widget(&shown, WidgetKind::Date));
}
