use autoraise_rs::aerospace::{AeroCommand, CommandOutput};
use autoraise_rs::config::Config;
use autoraise_rs::raiser::{
    is_lower_key_held, is_lower_name_listed, lower_title_matches_any, Observations, Query,
    RaiseAction, RaiserState, WindowFacts,
};

struct Scene {
    flags: u64,
    window: Option<WindowFacts>,
    fullscreen: bool,
    title: Option<String>,
    ax: Option<u32>,
}

fn win(pid: i32, app: &str, wid: u32) -> WindowFacts {
    WindowFacts { pid, app_name: app.to_string(), layer: 0, window_id: wid }
}

fn over(w: WindowFacts) -> Scene {
    Scene { flags: 0, window: Some(w), fullscreen: false, title: None, ax: None }
}

/// Gathers what the decision asks for, then decides.
fn event(state: &mut RaiserState, cfg: &Config, moved: bool, scene: &Scene) -> (Vec<Query>, RaiseAction) {
    let mut obs = Observations::new();
    let mut asked = Vec::new();
    while let Some(q) = state.next_query(cfg, &obs) {
        asked.push(q);
        match q {
            Query::ModifierFlags => obs.modifier_flags = Some(scene.flags),
            Query::WindowAtPoint => obs.window = Some(scene.window.clone()),
            Query::Fullscreen(_) => obs.fullscreen = Some(scene.fullscreen),
            Query::WindowTitle(_) => obs.title = Some(scene.title.clone()),
            Query::AxWindowId(_) => obs.ax_window_id = Some(scene.ax),
        }
        assert!(asked.len() <= 5);
    }
    assert!(!state.still_ticks_overflow(cfg, moved, &obs));
    let action = state.handle_mouse_event(cfg, moved, &obs);
    (asked, action)
}

fn ok(text: &str) -> Option<CommandOutput> {
    Some(CommandOutput { success: true, stdout: text.as_bytes().to_vec(), stderr: Vec::new() })
}

/// A raiser whose AeroSpace reports window 11 floating and 12 on workspace 2
/// while workspace 1 has focus.
fn aerospace_raiser() -> RaiserState {
    let mut state = RaiserState::new(true, 10, 50);
    let a = state.aerospace.as_mut().unwrap();
    let mut job = a.probe_availability(ok("0.15")).unwrap();
    while let Some(cmd) = job.next_command() {
        let reply = match cmd {
            AeroCommand::FocusedWorkspace => ok("1\n"),
            AeroCommand::WindowWorkspaceMap => ok("10\t1\n11\t1\n12\t2\n"),
            AeroCommand::TiledWindowIds => ok("10\n12\n"),
            _ => None,
        };
        a.refresh_step(&mut job, reply);
    }
    state
}

fn raise(pid: i32, wid: u32) -> RaiseAction {
    RaiseAction::Raise { pid, window_id: wid, draw_border: true }
}

#[test]
fn instant_raise_with_delay_one() {
    let cfg = Config::default();
    let mut st = RaiserState::new(false, 10, 50);
    let (asked, action) = event(&mut st, &cfg, true, &over(win(100, "Safari", 7)));
    assert_eq!(asked, vec![Query::ModifierFlags, Query::WindowAtPoint, Query::Fullscreen(100)]);
    assert_eq!(action, raise(100, 7));
    assert_eq!(st.raised_window_id, Some(7));
    assert_eq!(st.last_window_id, Some(7));
}

#[test]
fn raise_at_most_once_per_window() {
    let cfg = Config::default();
    let mut st = RaiserState::new(false, 10, 50);
    assert_eq!(event(&mut st, &cfg, true, &over(win(100, "Safari", 7))).1, raise(100, 7));
    assert_eq!(event(&mut st, &cfg, true, &over(win(100, "Safari", 7))).1, RaiseAction::Nothing);
    assert_eq!(event(&mut st, &cfg, false, &over(win(100, "Safari", 7))).1, RaiseAction::Nothing);
    // another window of the same app is raised
    assert_eq!(event(&mut st, &cfg, true, &over(win(100, "Safari", 8))).1, raise(100, 8));
}

#[test]
fn delay_zero_never_raises() {
    let mut cfg = Config::default();
    cfg.delay = 0;
    let mut st = RaiserState::new(false, 10, 50);
    for moved in [true, false, false, false] {
        assert_eq!(event(&mut st, &cfg, moved, &over(win(1, "App", 3))).1, RaiseAction::Nothing);
    }
}

#[test]
fn delay_waits_for_still_mouse() {
    let mut cfg = Config::default();
    cfg.delay = 3;
    let mut st = RaiserState::new(false, 10, 50);
    let w = || over(win(1, "App", 3));
    assert_eq!(event(&mut st, &cfg, true, &w()).1, RaiseAction::Nothing);
    assert_eq!(st.still_ticks, 0);
    assert_eq!(event(&mut st, &cfg, false, &w()).1, RaiseAction::Nothing);
    assert_eq!(event(&mut st, &cfg, false, &w()).1, RaiseAction::Nothing);
    assert_eq!(st.still_ticks, 2);
    assert_eq!(event(&mut st, &cfg, false, &w()).1, raise(1, 3));
    assert_eq!(st.still_ticks, 3);
    // a delay above 1 waits whatever require_mouse_stop says
    cfg.require_mouse_stop = false;
    let mut st = RaiserState::new(false, 10, 50);
    assert_eq!(event(&mut st, &cfg, true, &w()).1, RaiseAction::Nothing);
    assert_eq!(event(&mut st, &cfg, false, &w()).1, RaiseAction::Nothing);
    assert_eq!(event(&mut st, &cfg, false, &w()).1, RaiseAction::Nothing);
    assert_eq!(event(&mut st, &cfg, false, &w()).1, raise(1, 3));
}

#[test]
fn modifier_key_disables() {
    let cfg = Config::default();
    let mut st = RaiserState::new(false, 10, 50);
    let mut scene = over(win(1, "App", 3));
    scene.flags = 0x0004_0000;
    let (asked, action) = event(&mut st, &cfg, true, &scene);
    assert_eq!(asked, vec![Query::ModifierFlags]);
    assert_eq!(action, RaiseAction::Nothing);
    assert_eq!(st.last_window_id, None);
    // the option key does not disable when control is configured
    scene.flags = 0x0008_0000;
    assert_eq!(event(&mut st, &cfg, true, &scene).1, raise(1, 3));
    // with "option" configured, it does
    let mut cfg = Config::default();
    cfg.disable_key = "option".to_string();
    let mut st = RaiserState::new(false, 10, 50);
    assert_eq!(event(&mut st, &cfg, true, &scene).1, RaiseAction::Nothing);
    // names match in any case
    cfg.disable_key = "Option".to_string();
    assert_eq!(event(&mut st, &cfg, true, &scene).1, RaiseAction::Nothing);
    cfg.disable_key = "CONTROL".to_string();
    scene.flags = 0x0004_0000;
    assert_eq!(event(&mut st, &cfg, true, &scene).1, RaiseAction::Nothing);
    // the command key
    cfg.disable_key = "Command".to_string();
    scene.flags = 0x0010_0000;
    assert_eq!(event(&mut st, &cfg, true, &scene).1, RaiseAction::Nothing);
    // an unknown name never disables
    cfg.disable_key = "".to_string();
    assert_eq!(event(&mut st, &cfg, true, &scene).1, raise(1, 3));
    // "disabled" never reads the flags
    let mut st = RaiserState::new(false, 10, 50);
    cfg.disable_key = "Disabled".to_string();
    let (asked, action) = event(&mut st, &cfg, true, &scene);
    assert_eq!(asked[0], Query::WindowAtPoint);
    assert_eq!(action, raise(1, 3));
}

#[test]
fn no_window_hides_border_and_forgets() {
    let cfg = Config::default();
    let mut st = RaiserState::new(false, 10, 50);
    event(&mut st, &cfg, true, &over(win(1, "App", 3)));
    let scene = Scene { flags: 0, window: None, fullscreen: false, title: None, ax: None };
    let (_, action) = event(&mut st, &cfg, true, &scene);
    assert_eq!(action, RaiseAction::HideBorder);
    assert_eq!(st.last_window_id, None);
    assert_eq!(st.raised_window_id, None);
    // without a border nothing is hidden
    let mut cfg = Config::default();
    cfg.border_width_bits = 0.0f64.to_bits();
    assert_eq!(event(&mut st, &cfg, true, &scene).1, RaiseAction::Nothing);
}

#[test]
fn system_layer_skipped() {
    let cfg = Config::default();
    let mut st = RaiserState::new(false, 10, 50);
    let mut w = win(1, "Dock", 3);
    w.layer = 20;
    let (asked, action) = event(&mut st, &cfg, true, &over(w));
    assert_eq!(asked.len(), 2);
    assert_eq!(action, RaiseAction::Nothing);
}

#[test]
fn fullscreen_forgets_and_hides() {
    let cfg = Config::default();
    let mut st = RaiserState::new(false, 10, 50);
    event(&mut st, &cfg, true, &over(win(1, "App", 3)));
    let mut scene = over(win(1, "App", 3));
    scene.fullscreen = true;
    assert_eq!(event(&mut st, &cfg, true, &scene).1, RaiseAction::HideBorder);
    assert_eq!(st.raised_window_id, None);
    assert_eq!(st.last_window_id, None);
}

#[test]
fn ignored_apps_case_insensitive() {
    let mut cfg = Config::default();
    cfg.ignore_apps = vec!["finder".to_string()];
    let mut st = RaiserState::new(false, 10, 50);
    assert_eq!(event(&mut st, &cfg, true, &over(win(1, "FINDER", 3))).1, RaiseAction::Nothing);
    assert_eq!(st.last_window_id, None);
    assert_eq!(event(&mut st, &cfg, true, &over(win(1, "Finder2", 4))).1, raise(1, 4));
}

#[test]
fn ignored_titles_by_substring() {
    let mut cfg = Config::default();
    cfg.ignore_titles = vec!["picture in".to_string()];
    let mut st = RaiserState::new(false, 10, 50);
    let mut scene = over(win(1, "Safari", 3));
    scene.title = Some("Video — Picture in Picture".to_string());
    let (asked, action) = event(&mut st, &cfg, true, &scene);
    assert!(asked.contains(&Query::WindowTitle(1)));
    assert_eq!(action, RaiseAction::Nothing);
    scene.title = Some("Other".to_string());
    assert_eq!(event(&mut st, &cfg, true, &scene).1, raise(1, 3));
    // no title known: not ignored
    scene.title = None;
    scene.window = Some(win(1, "Safari", 4));
    assert_eq!(event(&mut st, &cfg, true, &scene).1, raise(1, 4));
}

#[test]
fn floating_window_raised() {
    let cfg = Config::default();
    let mut st = aerospace_raiser();
    let mut scene = over(win(5, "Calc", 40));
    scene.ax = Some(11);
    let (asked, action) = event(&mut st, &cfg, true, &scene);
    assert_eq!(asked.last(), Some(&Query::AxWindowId(5)));
    assert_eq!(action, raise(5, 40));
    assert_eq!(st.raised_window_id, Some(40));
    assert_eq!(event(&mut st, &cfg, true, &scene).1, RaiseAction::Nothing);
}

#[test]
fn tiled_window_left_to_aerospace() {
    let cfg = Config::default();
    let mut st = aerospace_raiser();
    let mut scene = over(win(5, "Term", 41));
    // tiled, on the focused workspace
    scene.ax = Some(10);
    assert_eq!(event(&mut st, &cfg, true, &scene).1, RaiseAction::Nothing);
    assert_eq!(st.last_window_id, Some(41));
    assert_eq!(st.raised_window_id, None);
    // tiled, on another workspace: the border goes
    scene.ax = Some(12);
    scene.window = Some(win(5, "Term", 42));
    assert_eq!(event(&mut st, &cfg, true, &scene).1, RaiseAction::HideBorder);
    assert_eq!(st.last_window_id, Some(42));
    assert_eq!(st.raised_window_id, None);
    // unknown AX id: raised as usual
    scene.ax = None;
    scene.window = Some(win(6, "Other", 43));
    assert_eq!(event(&mut st, &cfg, true, &scene).1, raise(6, 43));
}

#[test]
fn tiled_window_elsewhere_without_border() {
    let mut cfg = Config::default();
    cfg.border_width_bits = 0;
    let mut st = aerospace_raiser();
    let mut scene = over(win(5, "Term", 42));
    scene.ax = Some(12);
    assert_eq!(event(&mut st, &cfg, true, &scene).1, RaiseAction::Nothing);
    assert_eq!(st.last_window_id, Some(42));
}

#[test]
fn raise_at_most_once_over_a_run() {
    let mut cfg = Config::default();
    let mut st = aerospace_raiser();
    let mut scene = over(win(5, "Calc", 40));
    scene.ax = Some(11);
    let mut raises = 0;
    for i in 0..40 {
        cfg.delay = (i % 4) as u32;
        let moved = i % 3 == 0;
        scene.flags = if i % 7 == 0 { 0x0004_0000 } else { 0 };
        scene.ax = if i % 5 == 0 { Some(10) } else { Some(11) };
        if let RaiseAction::Raise { .. } = event(&mut st, &cfg, moved, &scene).1 {
            raises += 1;
        }
    }
    assert_eq!(raises, 1);
}

#[test]
fn context_change_resets_and_forces_refresh() {
    let cfg = Config::default();
    let mut st = aerospace_raiser();
    let mut scene = over(win(5, "Calc", 42));
    scene.ax = Some(11);
    assert_eq!(event(&mut st, &cfg, true, &scene).1, raise(5, 42));
    assert_eq!(st.on_context_changed(&cfg), RaiseAction::HideBorder);
    assert_eq!(st.raised_window_id, None);
    assert_eq!(st.last_window_id, None);
    assert!(st.aerospace.as_ref().unwrap().refresh_due(0));
    // the same window is raised again after the change
    assert_eq!(event(&mut st, &cfg, true, &scene).1, raise(5, 42));
}

#[test]
fn tick_refreshes_every_n_cycles() {
    let mut st = RaiserState::new(true, 3, 1_000_000);
    let a = st.aerospace.as_mut().unwrap();
    let job = a.probe_availability(ok("0.15")).unwrap();
    drop(job);
    assert!(st.tick().is_none());
    assert_eq!(st.aerospace_cycle_counter, 1);
    assert!(st.tick().is_none());
    assert_eq!(st.aerospace_cycle_counter, 2);
    // the third tick checks, but the (long) interval has not passed
    assert!(st.tick().is_none());
    assert_eq!(st.aerospace_cycle_counter, 0);
    st.aerospace.as_mut().unwrap().invalidate();
    st.tick();
    st.tick();
    assert!(st.tick().is_some());
    // without AeroSpace, ticks never refresh
    let mut plain = RaiserState::new(false, 1, 50);
    assert!(plain.tick().is_none());
    assert_eq!(plain.aerospace_cycle_counter, 0);
}

#[test]
fn lower_key_held_by_flags() {
    let control = "control".to_string();
    assert!(is_lower_key_held(&control, 0x0004_0000));
    assert!(!is_lower_key_held(&control, 0x0008_0000));
    assert!(is_lower_key_held(&"option".to_string(), 0x0008_0000));
    assert!(is_lower_key_held(&"command".to_string(), 0x0010_0000));
    assert!(!is_lower_key_held(&"disabled".to_string(), 0xffff_ffff));
    // not lowered: no key of that name
    assert!(!is_lower_key_held(&"Control".to_string(), 0x0004_0000));
    assert!(!is_lower_key_held(&"shift".to_string(), 0x0002_0000));
}

#[test]
fn lower_name_listed_exactly() {
    let names = vec!["finder".to_string(), "system settings".to_string()];
    assert!(is_lower_name_listed(&names, &"finder".to_string()));
    assert!(is_lower_name_listed(&names, &"system settings".to_string()));
    assert!(!is_lower_name_listed(&names, &"find".to_string()));
    assert!(!is_lower_name_listed(&names, &"Finder".to_string()));
    assert!(!is_lower_name_listed(&Vec::new(), &"finder".to_string()));
}

#[test]
fn lower_title_matches_part() {
    let pats = vec!["picture-in-picture".to_string(), "zoom".to_string()];
    assert!(lower_title_matches_any(&pats, &"zoom meeting".to_string()));
    assert!(lower_title_matches_any(&pats, &"my picture-in-picture".to_string()));
    assert!(!lower_title_matches_any(&pats, &"zo om".to_string()));
    assert!(!lower_title_matches_any(&pats, &"Zoom".to_string()));
    assert!(!lower_title_matches_any(&Vec::new(), &"zoom".to_string()));
    // an empty pattern is contained in every title
    assert!(lower_title_matches_any(&vec![String::new()], &"x".to_string()));
}
