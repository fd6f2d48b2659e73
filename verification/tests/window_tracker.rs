use terminal_forwarder::window_tracker::{
    find_window, find_window_for_session, registration_delays, script_reply, FocusError, Platform,
    WindowBounds, WindowInfo, WindowTracker,
};

fn window(id: u32, app: &str, session: &str, title: Option<&str>) -> WindowInfo {
    WindowInfo {
        window_id: id,
        owner_pid: 1000 + id,
        terminal_app: app.to_string(),
        session_id: session.to_string(),
        created_at: "2024-01-01T00:00:00Z".to_string(),
        tab_reference: None,
        tab_id: None,
        bounds: Some(WindowBounds {
            x: 0.0f64.to_bits(),
            y: 22.5f64.to_bits(),
            width: 800.0f64.to_bits(),
            height: 600.0f64.to_bits(),
        }),
        title: title.map(|t| t.to_string()),
    }
}

fn on_screen() -> Vec<WindowInfo> {
    vec![
        window(1, "Terminal", "", None),
        window(2, "iTerm2", "", Some("zsh - session s-1")),
        window(3, "Terminal", "", Some("vim [s-1]")),
        window(4, "Terminal", "", Some("htop [s-2]")),
        window(5, "Terminal", "", Some("second window of s-1")),
    ]
}

fn ids(found: Option<WindowInfo>) -> Option<u32> {
    found.map(|w| w.window_id)
}

fn names(list: &[&str]) -> Vec<String> {
    list.iter().map(|n| n.to_string()).collect()
}

#[test]
fn explicit_terminals_are_searched_once() {
    let some = Some("tab 1 of window id 7".to_string());
    assert_eq!(registration_delays("Terminal", &some, &None), vec![500]);
    assert_eq!(registration_delays("iTerm2", &None, &some), vec![500]);
    assert_eq!(registration_delays("Terminal", &some, &some), vec![500]);
}

#[test]
fn other_terminals_are_searched_four_times() {
    let some = Some("x".to_string());
    let four = vec![500, 1000, 2000, 3000];
    assert_eq!(registration_delays("Terminal", &None, &None), four);
    assert_eq!(registration_delays("Terminal", &None, &some), four);
    assert_eq!(registration_delays("iTerm2", &some, &None), four);
    assert_eq!(registration_delays("kitty", &some, &some), four);
    assert_eq!(registration_delays("terminal", &some, &None), four);
    assert_eq!(registration_delays("", &None, &None), four);
}

#[test]
fn find_window_takes_the_first_of_the_application() {
    let windows = on_screen();
    assert_eq!(ids(find_window(&windows, "Terminal", "s-1")), Some(3));
    assert_eq!(ids(find_window(&windows, "iTerm2", "s-1")), Some(2));
    assert_eq!(ids(find_window(&windows, "Terminal", "s-2")), Some(4));
    assert_eq!(ids(find_window(&windows, "iTerm2", "s-2")), None);
    assert_eq!(ids(find_window(&windows, "kitty", "s-1")), None);
    assert_eq!(ids(find_window(&windows, "Terminal", "s-3")), None);
    assert_eq!(ids(find_window(&Vec::new(), "Terminal", "s-1")), None);
}

#[test]
fn find_window_for_session_ignores_the_application() {
    let windows = on_screen();
    assert_eq!(ids(find_window_for_session(&windows, "s-1")), Some(2));
    assert_eq!(ids(find_window_for_session(&windows, "s-2")), Some(4));
    assert_eq!(ids(find_window_for_session(&windows, "s-3")), None);
    assert_eq!(ids(find_window_for_session(&windows, "window of")), Some(5));
}

#[test]
fn found_window_is_a_full_copy() {
    let mut shown = window(9, "Terminal", "s-9", Some("title s-9"));
    shown.tab_reference = Some("tab 2".to_string());
    shown.tab_id = Some("t-2".to_string());
    let found = match find_window(&vec![shown], "Terminal", "s-9") {
        Some(found) => found,
        None => panic!("not found"),
    };
    assert_eq!(found.window_id, 9);
    assert_eq!(found.owner_pid, 1009);
    assert_eq!(found.terminal_app, "Terminal");
    assert_eq!(found.session_id, "s-9");
    assert_eq!(found.created_at, "2024-01-01T00:00:00Z");
    assert_eq!(found.tab_reference, Some("tab 2".to_string()));
    assert_eq!(found.tab_id, Some("t-2".to_string()));
    assert_eq!(found.title, Some("title s-9".to_string()));
    let bounds = match found.bounds {
        Some(bounds) => bounds,
        None => panic!("no bounds"),
    };
    assert_eq!(f64::from_bits(bounds.x), 0.0);
    assert_eq!(f64::from_bits(bounds.y), 22.5);
    assert_eq!(f64::from_bits(bounds.width), 800.0);
    assert_eq!(f64::from_bits(bounds.height), 600.0);
}

#[test]
fn mentions_looks_into_the_title() {
    assert!(window(1, "Terminal", "", Some("zsh s-1")).mentions("s-1"));
    assert!(window(1, "Terminal", "", Some("zsh s-1")).mentions(""));
    assert!(!window(1, "Terminal", "", Some("zsh s-1")).mentions("s-2"));
    assert!(!window(1, "Terminal", "s-1", None).mentions("s-1"));
    assert!(!window(1, "Terminal", "s-1", None).mentions(""));
}

#[test]
fn register_window_stores_the_window_found() {
    let mut tracker = WindowTracker::new();
    assert!(tracker.register_window("s-1".to_string(), "Terminal", &on_screen()));
    assert_eq!(ids(tracker.window_info("s-1")), Some(3));
    assert_eq!(tracker.all_tracked_windows().len(), 1);
}

#[test]
fn register_window_without_a_match_changes_nothing() {
    let mut tracker = WindowTracker::new();
    assert!(!tracker.register_window("s-3".to_string(), "Terminal", &on_screen()));
    assert!(!tracker.register_window("s-1".to_string(), "kitty", &on_screen()));
    assert!(!tracker.register_window("s-1".to_string(), "Terminal", &Vec::new()));
    assert_eq!(ids(tracker.window_info("s-1")), None);
    assert!(tracker.all_tracked_windows().is_empty());
}

#[test]
fn register_window_replaces_an_earlier_window() {
    let mut tracker = WindowTracker::new();
    assert!(tracker.register_window("s-1".to_string(), "Terminal", &on_screen()));
    assert!(tracker.register_window("s-1".to_string(), "iTerm2", &on_screen()));
    assert_eq!(ids(tracker.window_info("s-1")), Some(2));
    assert_eq!(tracker.all_tracked_windows().len(), 1);
}

#[test]
fn unregister_window_says_whether_there_was_one() {
    let mut tracker = WindowTracker::new();
    assert!(tracker.register_window("s-1".to_string(), "Terminal", &on_screen()));
    assert!(!tracker.unregister_window("s-2"));
    assert!(tracker.unregister_window("s-1"));
    assert!(!tracker.unregister_window("s-1"));
    assert_eq!(ids(tracker.window_info("s-1")), None);
}

#[test]
fn all_tracked_windows_lists_each_once() {
    let mut tracker = WindowTracker::new();
    assert!(tracker.register_window("s-2".to_string(), "Terminal", &on_screen()));
    assert!(tracker.register_window("s-1".to_string(), "Terminal", &on_screen()));
    assert!(tracker.register_window("window of".to_string(), "Terminal", &on_screen()));
    let mut listed: Vec<u32> = tracker.all_tracked_windows().iter().map(|w| w.window_id).collect();
    listed.sort();
    assert_eq!(listed, vec![3, 4, 5]);
}

#[test]
fn focus_on_macos_gives_the_activation_script() {
    let mut tracker = WindowTracker::new();
    assert!(tracker.register_window("s-1".to_string(), "iTerm2", &on_screen()));
    assert_eq!(
        tracker.focus_window("s-1", Platform::MacOs),
        Ok("tell application \"iTerm2\" to activate".to_string())
    );
}

#[test]
fn focus_without_a_window_is_not_registered() {
    let mut tracker = WindowTracker::new();
    assert!(tracker.register_window("s-1".to_string(), "iTerm2", &on_screen()));
    for platform in [Platform::MacOs, Platform::Windows, Platform::Linux] {
        let reply = tracker.focus_window("s-2", platform);
        assert_eq!(reply, Err(FocusError::NotRegistered("s-2".to_string())));
    }
    assert_eq!(
        FocusError::NotRegistered("s-2".to_string()).message(),
        "No window registered for session: s-2"
    );
}

#[test]
fn focus_is_not_implemented_off_macos() {
    let mut tracker = WindowTracker::new();
    assert!(tracker.register_window("s-1".to_string(), "iTerm2", &on_screen()));
    assert_eq!(
        tracker.focus_window("s-1", Platform::Linux),
        Err(FocusError::NotImplemented(Platform::Linux))
    );
    assert_eq!(
        tracker.focus_window("s-1", Platform::Windows),
        Err(FocusError::NotImplemented(Platform::Windows))
    );
    assert_eq!(
        FocusError::NotImplemented(Platform::Linux).message(),
        "Window focusing not implemented for Linux"
    );
    assert_eq!(
        FocusError::NotImplemented(Platform::Windows).message(),
        "Window focusing not implemented for Windows"
    );
}

#[test]
fn focus_is_not_supported_elsewhere() {
    let mut tracker = WindowTracker::new();
    assert!(tracker.register_window("s-1".to_string(), "iTerm2", &on_screen()));
    for id in ["s-1", "s-2"] {
        assert_eq!(
            tracker.focus_window(id, Platform::Other),
            Err(FocusError::NotImplemented(Platform::Other))
        );
    }
    assert_eq!(
        FocusError::NotImplemented(Platform::Other).message(),
        "Window focusing not supported on this platform"
    );
}

#[test]
fn script_reply_names_the_failure() {
    assert_eq!(script_reply(Ok((true, String::new()))), Ok(()));
    assert_eq!(script_reply(Ok((true, "warning".to_string()))), Ok(()));
    assert_eq!(
        script_reply(Ok((false, "execution error".to_string()))),
        Err(FocusError::ScriptFailed("execution error".to_string()))
    );
    assert_eq!(
        script_reply(Err("No such file or directory".to_string())),
        Err(FocusError::ScriptNotRun("No such file or directory".to_string()))
    );
    assert_eq!(
        FocusError::ScriptFailed("execution error".to_string()).message(),
        "AppleScript failed: execution error"
    );
    assert_eq!(
        FocusError::ScriptNotRun("No such file or directory".to_string()).message(),
        "Failed to run AppleScript: No such file or directory"
    );
}

#[test]
fn platform_labels() {
    assert_eq!(Platform::MacOs.label(), "macOS");
    assert_eq!(Platform::Windows.label(), "Windows");
    assert_eq!(Platform::Linux.label(), "Linux");
    assert_eq!(Platform::Other.label(), "this platform");
}

#[test]
fn update_drops_windows_of_sessions_that_ended() {
    let mut tracker = WindowTracker::new();
    assert!(tracker.register_window("s-1".to_string(), "Terminal", &on_screen()));
    assert!(tracker.register_window("s-2".to_string(), "Terminal", &on_screen()));
    tracker.update_from_sessions(&names(&["s-2", "s-9"]), &Vec::new());
    assert_eq!(ids(tracker.window_info("s-1")), None);
    assert_eq!(ids(tracker.window_info("s-2")), Some(4));
    assert_eq!(ids(tracker.window_info("s-9")), None);
    tracker.update_from_sessions(&Vec::new(), &on_screen());
    assert!(tracker.all_tracked_windows().is_empty());
}

#[test]
fn update_finds_windows_for_sessions_without_one() {
    let mut tracker = WindowTracker::new();
    assert!(tracker.register_window("s-1".to_string(), "Terminal", &on_screen()));
    tracker.update_from_sessions(&names(&["s-1", "s-2", "s-3", "s-2"]), &on_screen());
    // s-1 keeps the window it had, though another one comes first on screen.
    assert_eq!(ids(tracker.window_info("s-1")), Some(3));
    assert_eq!(ids(tracker.window_info("s-2")), Some(4));
    assert_eq!(ids(tracker.window_info("s-3")), None);
    assert_eq!(tracker.all_tracked_windows().len(), 2);
}

#[test]
fn update_with_nothing_on_screen_only_drops() {
    let mut tracker = WindowTracker::new();
    assert!(tracker.register_window("s-1".to_string(), "Terminal", &on_screen()));
    tracker.update_from_sessions(&names(&["s-1", "s-2"]), &Vec::new());
    assert_eq!(ids(tracker.window_info("s-1")), Some(3));
    assert_eq!(tracker.all_tracked_windows().len(), 1);
}
