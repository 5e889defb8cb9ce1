use autoraise_rs::config::{
    default_aerospace_refresh, default_border_color, default_border_width, default_delay,
    default_disable_key, default_poll_millis, default_true, split_list, Cli, Config,
};

fn no_cli() -> Cli {
    Cli {
        poll_millis: None,
        delay: None,
        ignore_apps: None,
        ignore_titles: None,
        disable_key: None,
        aerospace_aware: None,
        aerospace_refresh_cycles: None,
        require_mouse_stop: None,
        verbose: false,
    }
}

#[test]
fn defaults() {
    assert_eq!(default_poll_millis(), 50);
    assert_eq!(default_delay(), 1);
    assert_eq!(default_disable_key(), "control");
    assert!(default_true());
    assert_eq!(default_aerospace_refresh(), 10);
    assert_eq!(f64::from_bits(default_border_width()), 4.0);
    assert_eq!(default_border_color(), "#FF3366");
    let c = Config::default();
    assert_eq!(c.poll_millis, 50);
    assert_eq!(c.delay, 1);
    assert!(c.ignore_apps.is_empty());
    assert!(c.ignore_titles.is_empty());
    assert_eq!(c.disable_key, "control");
    assert!(c.require_mouse_stop);
    assert!(c.aerospace_aware);
    assert_eq!(c.aerospace_refresh_cycles, 10);
    assert_eq!(f64::from_bits(c.border_width_bits), 4.0);
    assert_eq!(c.border_color, "#FF3366");
    assert!(c.show_border());
}

#[test]
fn border_shown_only_for_positive_width() {
    let mut c = Config::default();
    for (w, shown) in [
        (4.0f64, true),
        (0.5, true),
        (f64::INFINITY, true),
        (f64::MIN_POSITIVE / 2.0, true),
        (0.0, false),
        (-0.0, false),
        (-1.0, false),
        (f64::NAN, false),
        (f64::NEG_INFINITY, false),
    ] {
        c.border_width_bits = w.to_bits();
        assert_eq!(c.show_border(), shown, "width {}", w);
        assert_eq!(c.show_border(), w > 0.0);
    }
}

#[test]
fn list_items_trimmed_non_empty() {
    assert_eq!(split_list(" Finder, ,Activity Monitor ,"), vec!["Finder", "Activity Monitor"]);
    assert_eq!(split_list(""), Vec::<String>::new());
    assert_eq!(split_list(",,"), Vec::<String>::new());
    assert_eq!(split_list("One"), vec!["One"]);
}

#[test]
fn empty_command_line_changes_nothing() {
    let mut c = Config::default();
    c.ignore_apps.push("Finder".to_string());
    c.apply_cli(&no_cli());
    assert_eq!(c.poll_millis, 50);
    assert_eq!(c.delay, 1);
    assert_eq!(c.ignore_apps, vec!["Finder"]);
    assert_eq!(c.disable_key, "control");
}

#[test]
fn command_line_overrides_and_appends() {
    let mut c = Config::default();
    c.ignore_apps.push("Finder".to_string());
    let cli = Cli {
        poll_millis: Some(100),
        delay: Some(3),
        ignore_apps: Some("Raycast, Spotlight".to_string()),
        ignore_titles: Some("Picture in Picture".to_string()),
        disable_key: Some("option".to_string()),
        aerospace_aware: Some(false),
        aerospace_refresh_cycles: Some(4),
        require_mouse_stop: Some(false),
        verbose: true,
    };
    c.apply_cli(&cli);
    assert_eq!(c.poll_millis, 100);
    assert_eq!(c.delay, 3);
    assert_eq!(c.ignore_apps, vec!["Finder", "Raycast", "Spotlight"]);
    assert_eq!(c.ignore_titles, vec!["Picture in Picture"]);
    assert_eq!(c.disable_key, "option");
    assert!(!c.aerospace_aware);
    assert_eq!(c.aerospace_refresh_cycles, 4);
    assert!(!c.require_mouse_stop);
    assert_eq!(c.border_color, "#FF3366");
}

#[test]
fn poll_interval_at_least_twenty() {
    let mut c = Config::default();
    let mut cli = no_cli();
    cli.poll_millis = Some(5);
    c.apply_cli(&cli);
    assert_eq!(c.poll_millis, 20);
    let mut c = Config::default();
    c.poll_millis = 10;
    c.apply_cli(&no_cli());
    assert_eq!(c.poll_millis, 20);
}
