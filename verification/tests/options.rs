use mpvpaper::options::{
    config_path, invocation, layer_for, listing_line, load_command, output_listing, parse_layer,
    player_setup, Invocation, SetupStep, UsageError,
};
use mpvpaper::selection::{Layer, OutputInfo};

fn text(s: &str) -> Option<String> {
    Some(s.to_string())
}

#[test]
fn outputs_are_listed_without_further_arguments() {
    assert!(matches!(invocation(true, None, None), Ok(Invocation::ListOutputs)));
    assert!(matches!(
        invocation(true, text("DP-1"), text("a.mp4")),
        Ok(Invocation::ListOutputs)
    ));
}

#[test]
fn a_video_needs_a_monitor_and_a_file() {
    match invocation(false, text("DP-2"), text("/path/to/video.mp4")) {
        Ok(Invocation::Play { monitor, video }) => {
            assert_eq!(monitor, "DP-2");
            assert_eq!(video, "/path/to/video.mp4");
        }
        _ => panic!("nothing is missing"),
    }
    assert!(matches!(invocation(false, None, None), Err(UsageError::MissingOutput)));
    assert!(matches!(invocation(false, None, text("v")), Err(UsageError::MissingOutput)));
    assert!(matches!(invocation(false, text("DP-2"), None), Err(UsageError::MissingVideo)));
}

#[test]
fn layers_have_names() {
    for (name, layer) in [
        ("background", Layer::Background),
        ("bottom", Layer::Bottom),
        ("top", Layer::Top),
        ("overlay", Layer::Overlay),
        ("TOP", Layer::Top),
        ("BackGround", Layer::Background),
        ("OVERLAY", Layer::Overlay),
        ("Bottom", Layer::Bottom),
    ] {
        let choice = parse_layer(name);
        assert_eq!(choice.layer, layer);
        assert!(choice.warning.is_none());
    }
}

#[test]
fn lowercase_is_that_of_unicode() {
    // The Kelvin sign is an upper case form of the letter k.
    let choice = parse_layer("bac\u{212a}ground");
    assert_eq!(choice.layer, Layer::Background);
    assert!(choice.warning.is_none());
}

#[test]
fn an_unknown_layer_is_the_background() {
    let choice = parse_layer("Middle");
    assert_eq!(choice.layer, Layer::Background);
    assert_eq!(
        choice.warning.as_deref(),
        Some("Unknown layer 'middle', defaulting to background")
    );
    let choice = parse_layer("");
    assert_eq!(
        choice.warning.as_deref(),
        Some("Unknown layer '', defaulting to background")
    );
    let choice = layer_for("TOP");
    assert_eq!(choice.layer, Layer::Background);
    assert_eq!(
        choice.warning.as_deref(),
        Some("Unknown layer 'TOP', defaulting to background")
    );
}

#[test]
fn videos_and_playlists_are_loaded() {
    let c = load_command("/path/to/video.mp4");
    assert_eq!(c.name, "loadfile");
    assert_eq!(c.args, vec!["/path/to/video.mp4".to_string(), "replace".to_string()]);
    let c = load_command("--playlist=/path/to/playlist");
    assert_eq!(c.name, "loadlist");
    assert_eq!(c.args, vec!["/path/to/playlist".to_string(), "replace".to_string()]);
    let c = load_command("--playlist=é--playlist=");
    assert_eq!(c.name, "loadlist");
    assert_eq!(c.args[0], "é--playlist=");
    let c = load_command("--playlist=");
    assert_eq!(c.name, "loadlist");
    assert_eq!(c.args[0], "");
    let c = load_command("--playlist");
    assert_eq!(c.name, "loadfile");
    assert_eq!(c.args[0], "--playlist");
    let c = load_command("x--playlist=y");
    assert_eq!(c.name, "loadfile");
}

fn step(s: &SetupStep) -> String {
    match s {
        SetupStep::SetOption { name, value } => format!("set {}={}", name, value),
        SetupStep::WriteConfig { path, contents } => format!("write {}: {}", path, contents),
        SetupStep::LoadConfig { path } => format!("load {}", path),
        SetupStep::RemoveConfig { path } => format!("remove {}", path),
    }
}

#[test]
fn the_player_gets_its_options() {
    let fixed = vec![
        "set input-default-bindings=yes".to_string(),
        "set input-terminal=yes".to_string(),
        "set terminal=yes".to_string(),
        "set config=yes".to_string(),
        "set background-color=#00000000".to_string(),
        "set vo=libmpv".to_string(),
    ];
    let steps: Vec<String> = player_setup(&None, 1).iter().map(step).collect();
    assert_eq!(steps, fixed);
    let steps: Vec<String> =
        player_setup(&text("loop no-audio"), 4711).iter().map(step).collect();
    assert_eq!(steps[..6], fixed[..]);
    assert_eq!(
        steps[6..],
        [
            "write /tmp/mpvpaper-rs-4711.conf: loop\nno-audio".to_string(),
            "load /tmp/mpvpaper-rs-4711.conf".to_string(),
            "remove /tmp/mpvpaper-rs-4711.conf".to_string(),
        ]
    );
}

#[test]
fn each_option_has_its_line() {
    let options = "loop  no-audio input-ipc-server=/tmp/mpv-socket ";
    match &player_setup(&text(options), 7)[6] {
        SetupStep::WriteConfig { contents, .. } => {
            let lines: Vec<&str> = contents.split('\n').collect();
            let words: Vec<&str> = options.split(' ').collect();
            assert_eq!(lines, words);
        }
        _ => panic!("the options come after the fixed ones"),
    }
}

#[test]
fn paths_hold_the_process_number() {
    assert_eq!(config_path(0), "/tmp/mpvpaper-rs-0.conf");
    assert_eq!(config_path(10), "/tmp/mpvpaper-rs-10.conf");
    assert_eq!(config_path(4_294_967_295), "/tmp/mpvpaper-rs-4294967295.conf");
    assert_ne!(config_path(1), config_path(11));
}

#[test]
fn monitors_are_listed_in_order() {
    let infos = vec![
        Some(OutputInfo { name: text("DP-1"), description: text("Dell"), scale_factor: 1 }),
        None,
        Some(OutputInfo { name: None, description: None, scale_factor: 2 }),
    ];
    assert_eq!(
        output_listing(&infos),
        vec![
            "Output: DP-1  Identifier: Dell".to_string(),
            "Output: ?  Identifier: ?".to_string(),
        ]
    );
    assert_eq!(listing_line(infos[0].as_ref().unwrap()), "Output: DP-1  Identifier: Dell");
    assert!(output_listing(&Vec::new()).is_empty());
}
