use pleiades_explorer::fs_entry::FsEntry;
use pleiades_explorer::tab::Tab;

fn entry(name: &str, is_dir: bool) -> FsEntry {
    FsEntry { name: name.to_string(), path: format!("/d/{name}"), is_dir, size: 1, modified: None }
}

fn tab_at(path: &str) -> Tab {
    let mut t = Tab::new(path.to_string());
    t.refresh(Some(Vec::new()));
    t
}

#[test]
fn new_tab_lists_nothing_yet() {
    let t = Tab::new("/home/ann".to_string());
    assert_eq!(t.current_path, "/home/ann");
    assert!(t.back_stack.is_empty() && t.forward_stack.is_empty());
    assert!(t.entries.is_empty() && t.error.is_none() && t.selected.is_none());
    assert_eq!(t.address_text, "/home/ann");
}

#[test]
fn refresh_takes_listing_or_reports_missing_path() {
    let mut t = Tab::new("/data".to_string());
    t.refresh(Some(vec![entry("x", false)]));
    assert_eq!(t.entries.len(), 1);
    assert_eq!(t.error, None);
    assert_eq!(t.address_text, "/data");
    t.refresh(None);
    assert!(t.entries.is_empty());
    assert_eq!(t.error.as_deref(), Some("Path not found: /data"));
}

#[test]
fn navigate_back_and_forward() {
    let mut t = tab_at("/a");
    assert!(t.navigate_to("/a/b".to_string()));
    assert!(t.navigate_to("/a/b/c".to_string()));
    assert_eq!(t.back_stack, vec!["/a".to_string(), "/a/b".to_string()]);
    assert_eq!(t.address_text, "/a/b/c");
    assert!(t.go_back());
    assert_eq!(t.current_path, "/a/b");
    assert_eq!(t.address_text, "/a/b");
    assert_eq!(t.forward_stack, vec!["/a/b/c".to_string()]);
    assert!(t.go_forward());
    assert_eq!(t.current_path, "/a/b/c");
    assert_eq!(t.address_text, "/a/b/c");
    assert!(t.forward_stack.is_empty());
    assert!(!t.go_forward());
}

#[test]
fn navigating_to_the_same_place_does_nothing() {
    let mut t = tab_at("/a/b");
    t.filter = "q".to_string();
    assert!(!t.navigate_to("/a/b".to_string()));
    assert!(!t.navigate_to("/a/b/".to_string()));
    assert!(t.back_stack.is_empty());
    assert_eq!(t.filter, "q");
}

#[test]
fn navigating_clears_forward_history_selection_and_filter() {
    let mut t = tab_at("/a");
    t.navigate_to("/b".to_string());
    t.go_back();
    t.selected = Some("/a/x".to_string());
    t.filter = "x".to_string();
    assert!(t.navigate_to("/c".to_string()));
    assert!(t.forward_stack.is_empty());
    assert_eq!(t.selected, None);
    assert_eq!(t.filter, "");
    assert_eq!(t.back_stack, vec!["/a".to_string()]);
}

#[test]
fn go_back_with_no_history_does_nothing() {
    let mut t = tab_at("/a");
    assert!(!t.go_back());
    assert_eq!(t.current_path, "/a");
}

#[test]
fn go_up_moves_to_parent_until_root() {
    let mut t = tab_at("/usr/share");
    assert!(t.go_up());
    assert_eq!(t.current_path, "/usr");
    assert_eq!(t.address_text, "/usr");
    assert_eq!(t.back_stack, vec!["/usr/share".to_string()]);
    assert!(t.go_up());
    assert_eq!(t.current_path, "/");
    assert!(!t.go_up());
    assert_eq!(t.current_path, "/");
}

#[test]
fn filter_matches_case_insensitively() {
    let mut t = tab_at("/d");
    t.refresh(Some(vec![entry("Docs", true), entry("readme.MD", false), entry("notes.txt", false)]));
    assert_eq!(t.filtered_indices(), vec![0, 1, 2]);
    t.filter = "   ".to_string();
    assert_eq!(t.filtered_indices(), vec![0, 1, 2]);
    t.filter = "MD".to_string();
    assert_eq!(t.filtered_indices(), vec![1]);
    t.filter = "o".to_string();
    assert_eq!(t.filtered_indices(), vec![0, 2]);
    t.filter = "zzz".to_string();
    assert!(t.filtered_indices().is_empty());
}

#[test]
fn title_is_last_component_or_whole_path() {
    assert_eq!(tab_at("/home/ann/Pictures").title(), "Pictures");
    assert_eq!(tab_at("/").title(), "/");
}
