use mpvpaper::selection::{monitor_selects, unknown_if_missing, OutputInfo};

fn info(name: Option<&str>, description: Option<&str>) -> OutputInfo {
    OutputInfo {
        name: name.map(|s| s.to_string()),
        description: description.map(|s| s.to_string()),
        scale_factor: 1,
    }
}

#[test]
fn all_in_any_case_selects_every_monitor() {
    for monitor in ["ALL", "all", "aLl", "*"] {
        assert!(monitor_selects(monitor, &info(Some("DP-1"), Some("Dell"))));
        assert!(monitor_selects(monitor, &info(None, None)));
    }
    assert!(!monitor_selects("allx", &info(Some("DP-1"), Some("Dell"))));
    assert!(!monitor_selects("**", &info(Some("DP-1"), Some("Dell"))));
    assert!(!monitor_selects("al", &info(None, None)));
}

#[test]
fn a_name_selects_exactly() {
    assert!(monitor_selects("DP-2", &info(Some("DP-2"), None)));
    assert!(!monitor_selects("dp-2", &info(Some("DP-2"), None)));
    assert!(!monitor_selects("DP", &info(Some("DP-2"), None)));
    assert!(!monitor_selects("DP-2", &info(Some("DP-21"), None)));
    assert!(!monitor_selects("HDMI-A-1", &info(Some("DP-2"), None)));
}

#[test]
fn part_of_a_description_selects() {
    let described = info(Some("DP-2"), Some("Dell Inc. U2720Q é 8RT5"));
    assert!(monitor_selects("U2720Q", &described));
    assert!(monitor_selects("Dell", &described));
    assert!(monitor_selects("8RT5", &described));
    assert!(monitor_selects("é 8", &described));
    assert!(monitor_selects("Dell Inc. U2720Q é 8RT5", &described));
    assert!(!monitor_selects("u2720q", &described));
    assert!(!monitor_selects("Dell Inc. U2720Q é 8RT5 ", &described));
    assert!(!monitor_selects("Dell", &info(Some("DP-2"), None)));
}

#[test]
fn the_empty_argument_stands_in_every_description() {
    assert!(monitor_selects("", &info(None, Some(""))));
    assert!(monitor_selects("", &info(Some("DP-2"), Some("Dell"))));
    assert!(!monitor_selects("", &info(Some("DP-2"), None)));
    assert!(monitor_selects("", &info(Some(""), None)));
}

#[test]
fn missing_text_is_a_question_mark() {
    assert_eq!(unknown_if_missing(&None), "?");
    assert_eq!(unknown_if_missing(&Some("DP-1".to_string())), "DP-1");
}
