//! Label derivation, workspace comparison, and the tab-state mapping.

use lapce_window::data::{TabMap, TabState};
use lapce_window::workspace::{LapceWorkspace, LapceWorkspaceType, last_path_segment, tab_label,
    workspace_label, workspace_opt_eq};

fn local_ws(path: &str) -> LapceWorkspace {
    LapceWorkspace { kind: LapceWorkspaceType::Local, path: path.to_string() }
}

fn remote_ws(path: &str, user: &str, host: &str) -> LapceWorkspace {
    LapceWorkspace {
        kind: LapceWorkspaceType::RemoteSSH(user.to_string(), host.to_string()),
        path: path.to_string(),
    }
}

#[test]
fn last_segment_of_plain_path() {
    assert_eq!(last_path_segment("/home/u/proj"), Some("proj".to_string()));
    assert_eq!(last_path_segment("a/b"), Some("b".to_string()));
    assert_eq!(last_path_segment("proj"), Some("proj".to_string()));
}

#[test]
fn last_segment_missing() {
    assert_eq!(last_path_segment(""), None);
    assert_eq!(last_path_segment("/"), None);
    assert_eq!(last_path_segment("/a/"), None);
}

#[test]
fn local_workspace_label_is_last_segment() {
    assert_eq!(workspace_label(&local_ws("/home/u/proj")), "proj");
}

#[test]
fn remote_workspace_label_appends_user_and_host() {
    assert_eq!(
        workspace_label(&remote_ws("/home/u/proj", "bob", "dev1")),
        "proj [bob@dev1]"
    );
}

#[test]
fn unbound_tab_uses_fallback_label() {
    assert_eq!(tab_label(&None), "Lapce");
    assert_eq!(tab_label(&Some(local_ws("/srv/www"))), "www");
}

#[test]
fn workspace_comparison() {
    let a = Some(local_ws("/home/u/proj"));
    let b = Some(local_ws("/home/u/proj"));
    let c = Some(local_ws("/home/u/other"));
    let d = Some(remote_ws("/home/u/proj", "bob", "dev1"));
    let e = Some(remote_ws("/home/u/proj", "bob", "dev2"));
    assert!(workspace_opt_eq(&a, &b));
    assert!(!workspace_opt_eq(&a, &c));
    assert!(!workspace_opt_eq(&a, &d));
    assert!(!workspace_opt_eq(&d, &e));
    assert!(workspace_opt_eq(&None, &None));
    assert!(!workspace_opt_eq(&a, &None));
}

#[test]
fn tab_map_insert_get_remove_keeps_order() {
    let mut map = TabMap::new();
    map.insert(4, TabState { workspace: None });
    map.insert(7, TabState { workspace: Some(local_ws("/a/b")) });
    map.insert(9, TabState { workspace: None });
    assert_eq!(map.len(), 3);
    assert_eq!(map.keys_vec(), vec![4, 7, 9]);
    assert!(map.get(7).is_some());
    assert!(map.get(5).is_none());
    let removed = map.remove(7);
    assert!(removed.is_some());
    assert!(removed.unwrap().workspace.is_some());
    assert_eq!(map.keys_vec(), vec![4, 9]);
    assert_eq!(map.remove(7).map(|_| ()), None);
    assert_eq!(map.len(), 2);
}
