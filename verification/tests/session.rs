use pleiades_explorer::app::{
    breadcrumb_segments, start_path_from, Effect, EntryAction, ExplorerApp, Request,
};
use pleiades_explorer::fs_entry::FsEntry;
use pleiades_explorer::settings::{AppState, Settings};
use pleiades_explorer::sidebar::{drive_roots, Action};
use pleiades_explorer::theme::Rng;

fn state(tabs: &[&str], active: usize) -> AppState {
    AppState {
        settings: Settings { restore_tabs_on_startup: true, galaxy_mode: false },
        tabs: tabs.iter().map(|s| s.to_string()).collect(),
        active_tab: active,
        closed_tabs: Vec::new(),
    }
}

fn paths(app: &ExplorerApp) -> Vec<String> {
    app.tabs().iter().map(|t| t.current_path.clone()).collect()
}

#[test]
fn settings_default_turns_everything_on() {
    let s = Settings::default();
    assert!(s.restore_tabs_on_startup && s.galaxy_mode);
    let st = AppState::default();
    assert!(st.tabs.is_empty() && st.closed_tabs.is_empty() && st.active_tab == 0);
}

#[test]
fn startup_restores_saved_tabs_and_clamps_active() {
    let app = ExplorerApp::new(state(&["/a", "/b", "/c"], 7), "/start".to_string());
    assert_eq!(paths(&app), vec!["/a", "/b", "/c"]);
    assert_eq!(app.active_tab(), 2);
    let app = ExplorerApp::new(state(&["/a", "/b", "/c"], 1), "/start".to_string());
    assert_eq!(app.active_tab(), 1);
}

#[test]
fn startup_without_restoring_opens_one_tab() {
    let mut s = state(&["/a", "/b"], 1);
    s.settings.restore_tabs_on_startup = false;
    let app = ExplorerApp::new(s, "/start".to_string());
    assert_eq!(app.tabs().len(), 1);
    assert_eq!(app.active_tab(), 0);
    assert_eq!(app.current().current_path, "/start");
    assert_eq!(app.current().address_text, "/start");
    let none_saved = ExplorerApp::new(state(&[], 3), "/home/ann".to_string());
    assert_eq!(paths(&none_saved), vec!["/home/ann"]);
    assert_eq!(none_saved.active_tab(), 0);
}

#[test]
fn saving_and_reopening_restores_the_session() {
    let mut app = ExplorerApp::new(state(&["/a", "/b"], 0), "/start".to_string());
    app.open_new_tab("/c".to_string());
    app.close_tab(0, "/start".to_string());
    let saved = app.take_save().expect("changes were made");
    assert!(app.take_save().is_none());
    let again = ExplorerApp::new(saved, "/start".to_string());
    assert_eq!(paths(&again), paths(&app));
    assert_eq!(again.active_tab(), app.active_tab());
    assert_eq!(again.closed_tabs(), app.closed_tabs());
}

#[test]
fn closing_then_reopening_brings_the_tab_back() {
    let mut app = ExplorerApp::new(state(&["/a", "/b", "/c"], 2), "/start".to_string());
    assert_eq!(app.close_tab(1, "/start".to_string()), None);
    assert_eq!(paths(&app), vec!["/a", "/c"]);
    assert_eq!(app.active_tab(), 1);
    assert_eq!(app.closed_tabs(), &vec!["/b".to_string()]);
    assert_eq!(app.reopen_closed_tab(), Some(2));
    assert_eq!(paths(&app), vec!["/a", "/c", "/b"]);
    assert_eq!(app.active_tab(), 2);
    assert!(app.closed_tabs().is_empty());
    assert_eq!(app.reopen_closed_tab(), None);
}

#[test]
fn closing_the_active_last_tab_moves_to_the_previous_one() {
    let mut app = ExplorerApp::new(state(&["/a", "/b", "/c"], 2), "/start".to_string());
    app.close_tab(2, "/start".to_string());
    assert_eq!(app.active_tab(), 1);
    assert_eq!(app.current().current_path, "/b");
}

#[test]
fn closing_the_only_tab_replaces_it() {
    let mut app = ExplorerApp::new(state(&["/only"], 0), "/start".to_string());
    assert_eq!(app.close_tab(0, "/start".to_string()), Some(0));
    assert_eq!(app.tabs().len(), 1);
    assert_eq!(app.closed_tabs(), &vec!["/only".to_string()]);
    assert_eq!(app.current().current_path, "/start");
    assert_eq!(app.current().address_text, "/start");
}

#[test]
fn moving_tabs_keeps_the_active_tab() {
    let mut app = ExplorerApp::new(state(&["/a", "/b", "/c", "/d"], 2), "/start".to_string());
    app.move_tab(0, 2);
    assert_eq!(paths(&app), vec!["/b", "/a", "/c", "/d"]);
    assert_eq!(app.current().current_path, "/c");
    app.move_tab(3, 0);
    assert_eq!(paths(&app), vec!["/d", "/b", "/a", "/c"]);
    assert_eq!(app.current().current_path, "/c");
    app.move_tab(3, 1);
    assert_eq!(paths(&app), vec!["/d", "/c", "/b", "/a"]);
    assert_eq!(app.active_tab(), 1);
    app.move_tab(1, 9);
    assert_eq!(paths(&app), vec!["/d", "/c", "/b", "/a"]);
}

#[test]
fn active_tab_navigation_reports_what_to_reload() {
    let mut app = ExplorerApp::new(state(&["/a", "/x/y"], 1), "/start".to_string());
    assert_eq!(app.go_up_active(), Some(1));
    assert_eq!(app.current().current_path, "/x");
    assert_eq!(app.go_back_active(), Some(1));
    assert_eq!(app.current().current_path, "/x/y");
    assert_eq!(app.go_forward_active(), Some(1));
    assert_eq!(app.navigate_active("/x".to_string()), None);
    app.set_address_text("/z".to_string());
    assert_eq!(app.submit_address(), Some(1));
    assert_eq!(app.current().current_path, "/z");
    app.refresh_tab(1, None);
    assert_eq!(app.current().error.as_deref(), Some("Path not found: /z"));
    assert_eq!(app.current().address_text, "/z");
}

#[test]
fn entry_actions_and_sidebar() {
    let mut app = ExplorerApp::new(state(&["/a"], 0), "/start".to_string());
    match app.handle_entry_action(EntryAction::Reveal("/a/f.txt".to_string())) {
        Effect::RevealInFileManager(arg) => assert_eq!(arg, "/select,/a/f.txt"),
        _ => panic!("expected a reveal"),
    }
    assert!(matches!(app.handle_entry_action(EntryAction::Navigate("/a/sub".to_string())), Effect::Reload(0)));
    assert!(matches!(app.handle_entry_action(EntryAction::OpenInNewTab("/q".to_string())), Effect::Reload(1)));
    assert!(matches!(app.handle_entry_action(EntryAction::Delete("/q/z".to_string())), Effect::TrashThenReload(_)));
    assert_eq!(app.sidebar_action(Action::OpenInNewTab("/home".to_string())), Some(2));
    assert_eq!(app.sidebar_action(Action::Navigate("/tmp".to_string())), Some(2));
    assert_eq!(app.current().current_path, "/tmp");
    assert_eq!(app.open_tab_here(), 3);
    assert_eq!(app.current().current_path, "/tmp");
}

#[test]
fn style_is_applied_once_per_change() {
    let mut app = ExplorerApp::new(state(&["/a"], 0), "/start".to_string());
    assert_eq!(app.pending_style(), Some(false));
    assert_eq!(app.pending_style(), None);
    let mut s = app.settings();
    s.galaxy_mode = true;
    app.set_settings(s);
    assert_eq!(app.pending_style(), Some(true));
    assert!(app.take_save().is_some());
}

#[test]
fn start_path_falls_back_to_drive_c() {
    assert_eq!(start_path_from(None), "C:\\");
    assert_eq!(start_path_from(Some("/home/ann".to_string())), "/home/ann");
}

#[test]
fn breadcrumbs_of_a_unix_path() {
    let segs = breadcrumb_segments("/home/ann/docs");
    let expect: Vec<(String, String)> = vec![
        ("/".into(), "/".into()),
        ("home".into(), "/home".into()),
        ("ann".into(), "/home/ann".into()),
        ("docs".into(), "/home/ann/docs".into()),
    ];
    assert_eq!(segs, expect);
    assert_eq!(breadcrumb_segments("rel/./x/../y").len(), 3);
}

#[test]
fn drive_roots_run_a_to_z() {
    let d = drive_roots();
    assert_eq!(d.len(), 26);
    assert_eq!(d[0], "A:\\");
    assert_eq!(d[2], "C:\\");
    assert_eq!(d[25], "Z:\\");
}

#[test]
fn xorshift_sequence_is_deterministic_and_nonzero() {
    let mut a = Rng(0x9E3779B97F4A7C15);
    let mut b = Rng(0x9E3779B97F4A7C15);
    let mut x: u64 = 0x9E3779B97F4A7C15;
    for _ in 0..1000 {
        x ^= x << 13;
        x ^= x >> 7;
        x ^= x << 17;
        let v = a.next_u64();
        assert_eq!(v, x);
        assert_eq!(b.next_u64(), v);
        assert_ne!(v, 0);
    }
}

fn well_formed(app: &ExplorerApp) -> bool {
    !app.tabs().is_empty() && app.active_tab() < app.tabs().len()
}

#[test]
fn a_frame_of_requests_keeps_a_valid_active_tab() {
    let mut app = ExplorerApp::new(state(&["/a", "/b"], 1), "/start".to_string());
    let listed = vec![FsEntry {
        name: "f".to_string(),
        path: "/b/f".to_string(),
        is_dir: false,
        size: 3,
        modified: None,
    }];
    let frame = vec![
        Request::Listing(1, Some(listed)),
        Request::SelectEntry("/b/f".to_string()),
        Request::OpenTabHere,
        Request::MoveTab(2, 0),
        Request::SelectTab(2),
        Request::CloseTab(2, "/start".to_string()),
        Request::CloseTab(1, "/start".to_string()),
        Request::ShowSettings(true),
        Request::CloseTab(0, "/start".to_string()),
        Request::ReopenClosedTab,
        Request::ReopenClosedTab,
        Request::Up,
        Request::Back,
        Request::Forward,
        Request::SetAddressText("/z".to_string()),
        Request::SubmitAddress,
        Request::SetFilter("q".to_string()),
        Request::Sidebar(Action::OpenInNewTab("/home".to_string())),
        Request::Entry(EntryAction::CopyPath("/home/x".to_string())),
    ];
    let mut effects = Vec::new();
    for req in frame {
        effects.push(app.apply(req));
        assert!(well_formed(&app));
    }
    assert!(matches!(effects[0], Effect::Nothing));
    assert_eq!(app.tabs()[1].current_path, "/b");
    assert!(matches!(effects[2], Effect::Reload(2)));
    assert!(matches!(effects[8], Effect::Reload(0)));
    assert!(matches!(effects[15], Effect::Reload(_)));
    assert!(matches!(&effects[18], Effect::CopyText(t) if t == "/home/x"));
    assert!(app.show_settings());
    assert_eq!(paths(&app), vec!["/start", "/b", "/z", "/home"]);
    assert_eq!(app.active_tab(), 3);
    assert_eq!(app.tabs()[2].filter, "q");
}
