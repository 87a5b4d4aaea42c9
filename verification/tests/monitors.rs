use mpvpaper::output::{find_surface, Output};
use mpvpaper::selection::{Anchor, Layer, OutputInfo};
use mpvpaper::state::{
    AppState, ConfigureReaction, DrawOutcome, DrawRequest, ScaleReaction, Startup,
};

type State = AppState<&'static str, u8, u8>;

fn described(name: &str, scale_factor: i32) -> Option<OutputInfo> {
    Some(OutputInfo { name: Some(name.to_string()), description: None, scale_factor })
}

fn state(monitor: &str) -> State {
    AppState::new(monitor.to_string(), Layer::Background, false, false)
}

/// Monitors 1, 2, .. with surfaces 11, 12, ..
fn with_monitors(count: u32, scale: i32) -> State {
    let mut s = state("ALL");
    for id in 1..count + 1 {
        let request = s.maybe_create_output(&described("DP", scale)).unwrap();
        s.add_output(id, 10 + id, "layer", &request);
    }
    s
}

fn give_window(s: &mut State, index: usize) {
    let surface_id = s.outputs[index].surface_id;
    match s.configure(surface_id, (800, 600)) {
        ConfigureReaction::CreateWindow { index: i, .. } => {
            assert_eq!(i, index);
            s.attach_window(i, 1, 2);
        }
        _ => panic!("a window was expected"),
    }
}

fn draw(s: &mut State, index: usize) {
    assert!(s.render_output(index).is_some());
    assert!(s.draw_finished(index, DrawOutcome::Drawn));
    s.buffers_swapped(index);
}

#[test]
fn a_chosen_monitor_gets_a_wallpaper_surface() {
    let mut s: State = AppState::new("DP-2".to_string(), Layer::Overlay, false, true);
    let r = s.maybe_create_output(&described("DP-2", 3)).unwrap();
    assert_eq!(r.layer, Layer::Overlay);
    assert_eq!(r.namespace, "mpvpaper");
    assert_eq!(r.anchor, Anchor { top: true, right: true, bottom: true, left: true });
    assert_eq!(r.exclusive_zone, -1);
    assert_eq!(r.size, (0, 0));
    assert!(!r.keyboard);
    assert_eq!(r.scale, 3);
    assert_eq!(r.notice.as_deref(), Some("[mpvpaper] Selected output: DP-2"));
    s.add_output(4, 5, "handle", &r);
    let o = &s.outputs[0];
    assert_eq!((o.output_id, o.surface_id, o.layer), (4, 5, "handle"));
    assert_eq!((o.size, o.scale), ((0, 0), 3));
    assert!(o.egl_window.is_none() && o.egl_surface.is_none());
    assert!(!o.frame_pending && !o.redraw_needed);
}

#[test]
fn a_nameless_monitor_is_announced_as_unknown() {
    let s: State = AppState::new("*".to_string(), Layer::Top, false, true);
    let info = Some(OutputInfo { name: None, description: None, scale_factor: 1 });
    let r = s.maybe_create_output(&info).unwrap();
    assert_eq!(r.notice.as_deref(), Some("[mpvpaper] Selected output: ?"));
    assert!(state("*").maybe_create_output(&info).unwrap().notice.is_none());
}

#[test]
fn other_monitors_get_none() {
    assert!(state("DP-2").maybe_create_output(&described("DP-1", 1)).is_none());
    assert!(state("ALL").maybe_create_output(&None).is_none());
    assert!(!state("DP-2").output_info_matches(&described("DP-1", 1).unwrap()));
    assert!(state("DP-2").output_info_matches(&described("DP-2", 1).unwrap()));
}

#[test]
fn listing_creates_nothing() {
    let s: State = AppState::new("ALL".to_string(), Layer::Background, true, true);
    assert!(s.maybe_create_output(&described("DP-1", 1)).is_none());
}

#[test]
fn startup_follows_the_monitors() {
    let listing: State = AppState::new("".to_string(), Layer::Background, true, false);
    assert!(matches!(listing.startup(), Startup::ListOutputs));
    match state("DP-9").startup() {
        Startup::NoMatch { message } => {
            assert_eq!(message, "No matching output found for 'DP-9'")
        }
        _ => panic!("no monitor matches"),
    }
    assert!(matches!(with_monitors(1, 1).startup(), Startup::Run));
}

#[test]
fn the_first_monitor_with_a_surface_is_found() {
    let outputs: Vec<Output<(), (), ()>> =
        vec![Output::new(1, 7, (), 1), Output::new(2, 8, (), 1), Output::new(3, 8, (), 1)];
    assert_eq!(find_surface(&outputs, 7), Some(0));
    assert_eq!(find_surface(&outputs, 8), Some(1));
    assert_eq!(find_surface(&outputs, 9), None);
}

#[test]
fn the_first_configure_creates_a_window() {
    let mut s = with_monitors(2, 2);
    assert_eq!(
        s.configure(12, (640, 480)),
        ConfigureReaction::CreateWindow { index: 1, width: 1280, height: 960, swap_interval: 0 }
    );
    assert_eq!(s.outputs[1].size, (640, 480));
    assert_eq!(s.outputs[0].size, (0, 0));
    assert_eq!(s.render_output(1), None);
    s.attach_window(1, 5, 6);
    assert_eq!(s.outputs[1].egl_window, Some(5));
    assert_eq!(s.outputs[1].egl_surface, Some(6));
    assert_eq!(
        s.render_output(1),
        Some(DrawRequest { framebuffer: 0, width: 1280, height: 960, flip: true })
    );
}

#[test]
fn an_empty_size_becomes_one_pixel() {
    let mut s = with_monitors(1, 1);
    assert_eq!(
        s.configure(11, (0, 0)),
        ConfigureReaction::CreateWindow { index: 0, width: 1, height: 1, swap_interval: 0 }
    );
    assert_eq!(s.outputs[0].size, (1, 1));
    assert_eq!(
        s.configure(11, (9, 0)),
        ConfigureReaction::CreateWindow { index: 0, width: 9, height: 1, swap_interval: 0 }
    );
}

#[test]
fn later_configures_resize() {
    let mut s = with_monitors(1, 1);
    give_window(&mut s, 0);
    assert_eq!(
        s.configure(11, (100, 50)),
        ConfigureReaction::Resize { index: 0, width: 100, height: 50, render: true }
    );
    assert!(!s.outputs[0].redraw_needed);
    draw(&mut s, 0);
    assert_eq!(
        s.configure(11, (200, 150)),
        ConfigureReaction::Resize { index: 0, width: 200, height: 150, render: false }
    );
    assert!(s.outputs[0].redraw_needed);
    assert_eq!(s.frame(11), Some(0));
    assert_eq!(s.configure(99, (1, 1)), ConfigureReaction::Ignore);
}

#[test]
fn a_new_scale_factor_resizes_the_window() {
    let mut s = with_monitors(2, 1);
    assert_eq!(
        s.scale_factor_changed(11, 2),
        Some(ScaleReaction { index: 0, resize: None, render: false })
    );
    assert!(s.outputs[0].redraw_needed);
    assert_eq!(s.outputs[0].scale, 2);
    assert_eq!(s.outputs[1].scale, 1);
    give_window(&mut s, 0);
    assert_eq!(
        s.scale_factor_changed(11, 3),
        Some(ScaleReaction { index: 0, resize: Some((2400, 1800)), render: true })
    );
    let frame = s.render_output(0).unwrap();
    assert_eq!((frame.width, frame.height), (2400, 1800));
    draw(&mut s, 0);
    assert_eq!(
        s.scale_factor_changed(11, 1),
        Some(ScaleReaction { index: 0, resize: Some((800, 600)), render: false })
    );
    assert!(s.outputs[0].redraw_needed);
    assert_eq!(s.frame(11), Some(0));
    assert_eq!(s.scale_factor_changed(99, 1), None);
}

#[test]
fn frames_are_paced_by_the_compositor() {
    let mut s = with_monitors(1, 1);
    give_window(&mut s, 0);
    draw(&mut s, 0);
    assert!(s.outputs[0].frame_pending);
    assert_eq!(s.player_update(), Vec::<usize>::new());
    assert!(s.outputs[0].redraw_needed);
    assert_eq!(s.frame(11), Some(0));
    assert!(!s.outputs[0].frame_pending);
    draw(&mut s, 0);
    assert!(!s.outputs[0].redraw_needed);
    assert_eq!(s.frame(11), None);
    assert_eq!(s.player_update(), vec![0]);
    assert_eq!(s.frame(99), None);
}

#[test]
fn a_failed_drawing_changes_nothing() {
    let mut s = with_monitors(1, 1);
    give_window(&mut s, 0);
    for outcome in [DrawOutcome::Failed, DrawOutcome::NoContext] {
        assert!(!s.draw_finished(0, outcome));
        assert!(!s.outputs[0].frame_pending);
    }
    assert_eq!(s.player_update(), vec![0]);
}

#[test]
fn a_mark_stays_until_a_frame_is_handed_over() {
    let mut s = with_monitors(1, 1);
    give_window(&mut s, 0);
    draw(&mut s, 0);
    s.player_update();
    s.scale_factor_changed(11, 2);
    s.configure(11, (10, 10));
    assert_eq!(s.frame(11), Some(0));
    assert!(!s.draw_finished(0, DrawOutcome::Failed));
    assert!(s.outputs[0].redraw_needed);
    assert!(s.draw_finished(0, DrawOutcome::Drawn));
    assert!(s.outputs[0].redraw_needed);
    s.buffers_swapped(0);
    assert!(!s.outputs[0].redraw_needed);
}

#[test]
fn an_update_reaches_every_monitor() {
    let mut s = with_monitors(4, 1);
    give_window(&mut s, 0);
    give_window(&mut s, 1);
    give_window(&mut s, 3);
    draw(&mut s, 1);
    assert_eq!(s.player_update(), vec![0, 3]);
    let marks: Vec<bool> = s.outputs.iter().map(|o| o.redraw_needed).collect();
    assert_eq!(marks, vec![false, true, false, false]);
}

#[test]
fn a_destroyed_monitor_is_dropped() {
    let mut s = with_monitors(3, 1);
    s.output_destroyed(2);
    let left: Vec<u32> = s.outputs.iter().map(|o| o.output_id).collect();
    assert_eq!(left, vec![1, 3]);
    s.output_destroyed(2);
    assert_eq!(s.outputs.len(), 2);
}

#[test]
fn the_last_closed_surface_ends_the_program() {
    let mut s = with_monitors(3, 1);
    assert!(!s.closed(12));
    assert!(!s.closed(12));
    assert_eq!(s.configure(12, (1, 1)), ConfigureReaction::Ignore);
    assert_eq!(s.frame(12), None);
    let left: Vec<u32> = s.outputs.iter().map(|o| o.surface_id).collect();
    assert_eq!(left, vec![11, 13]);
    assert!(!s.closed(11));
    assert!(s.closed(13));
    assert!(s.outputs.is_empty());
}

#[test]
fn removal_leaves_the_rest_alone() {
    let mut s = with_monitors(3, 1);
    give_window(&mut s, 1);
    give_window(&mut s, 2);
    draw(&mut s, 1);
    draw(&mut s, 2);
    s.player_update();
    s.output_destroyed(1);
    assert!(!s.closed(12));
    assert_eq!(s.outputs.len(), 1);
    assert_eq!(s.outputs[0].output_id, 3);
    assert!(s.outputs[0].frame_pending);
    assert!(s.outputs[0].redraw_needed);
    assert_eq!(s.frame(13), Some(0));
}

#[test]
fn news_outlast_a_failed_drawing() {
    let mut s = with_monitors(1, 1);
    give_window(&mut s, 0);
    draw(&mut s, 0);
    s.player_update();
    assert_eq!(s.frame(11), Some(0));
    assert!(!s.draw_finished(0, DrawOutcome::Failed));
    assert_eq!(s.player_update(), vec![0]);
    assert!(s.outputs[0].redraw_needed);
    assert_eq!(s.frame(11), Some(0));
    draw(&mut s, 0);
    assert!(!s.outputs[0].redraw_needed);
}
