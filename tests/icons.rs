use app_launcher::icons::{find_icon_paths, lookup_icon, FindIconOptions};

#[test]
fn absolute_icon_path_is_kept() {
    assert_eq!(lookup_icon("/opt/app/icon.png", None, None, None), Some("/opt/app/icon.png".to_string()));
}

#[test]
fn find_icon_paths_keys_every_name_once() {
    let names = vec![
        "/usr/share/pixmaps/a.png".to_string(),
        "/srv/b.svg".to_string(),
        "/usr/share/pixmaps/a.png".to_string(),
    ];
    let options = FindIconOptions { themes: Some(vec!["hicolor".to_string()]), size: Some(48), scale: Some(1) };
    let found = find_icon_paths(names, Some(options));
    assert_eq!(found.len(), 2);
    assert_eq!(
        found.get(&"/usr/share/pixmaps/a.png".to_string()),
        Some(&Some("/usr/share/pixmaps/a.png".to_string()))
    );
    assert_eq!(found.get(&"/srv/b.svg".to_string()), Some(&Some("/srv/b.svg".to_string())));
}

#[test]
fn relative_icon_name_is_looked_up() {
    let found = find_icon_paths(vec!["no-such-icon-name-anywhere-xyz".to_string()], None);
    assert_eq!(found.len(), 1);
    let r = found.get(&"no-such-icon-name-anywhere-xyz".to_string()).unwrap();
    assert_ne!(r.as_deref(), Some("no-such-icon-name-anywhere-xyz"));
}

#[test]
fn oversized_scaled_icon_is_not_searched() {
    assert_eq!(lookup_icon("firefox", None, Some(48), Some(1000)), None);
    assert_eq!(lookup_icon("firefox", None, Some(40000), None), None);
    assert_eq!(lookup_icon("firefox", None, None, Some(17)), None);
}

#[test]
fn oversized_request_still_keeps_absolute_paths() {
    assert_eq!(
        lookup_icon("/icons/big.png", None, Some(65535), Some(65535)),
        Some("/icons/big.png".to_string())
    );
}

#[test]
fn largest_searchable_request_runs() {
    let found = find_icon_paths(
        vec!["no-such-icon-name-anywhere-xyz".to_string()],
        Some(FindIconOptions { themes: None, size: Some(2047), scale: Some(16) }),
    );
    assert_eq!(found.len(), 1);
}

#[test]
fn absolute_path_check() {
    assert!(app_launcher::icons::is_absolute_path("/usr/share"));
    assert!(!app_launcher::icons::is_absolute_path("usr/share"));
    assert!(!app_launcher::icons::is_absolute_path(""));
}
