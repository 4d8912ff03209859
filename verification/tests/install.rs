use std::path::PathBuf;

use crableton::install::{
    installed_version, is_live_folder, locate_user_library, newest_first, scan_event,
    user_library_from_config, version_key, ScanState, XmlEvent,
};

#[test]
fn reads_the_version_out_of_an_installed_script() {
    let source = "# header\nSCRIPT_VERSION = \"2.0.0\"\nPROTOCOL = 2\n";
    assert_eq!(installed_version(source).as_deref(), Some("2.0.0"));
    assert_eq!(installed_version("no version here"), None);
}

#[test]
fn sorts_preference_dirs_by_version_not_string() {
    let dirs = [
        PathBuf::from("/x/Live 12.9.1"),
        PathBuf::from("/x/Live 12.10.0"),
        PathBuf::from("/x/Live 11.3.4"),
    ];
    let names: Vec<String> = dirs
        .iter()
        .map(|p| p.file_name().unwrap_or_default().to_string_lossy().into_owned())
        .collect();
    let order = newest_first(&names);
    let sorted: Vec<PathBuf> = order.iter().map(|&i| dirs[i].clone()).collect();
    assert_eq!(sorted[0], PathBuf::from("/x/Live 12.10.0"));
    assert_eq!(sorted[2], PathBuf::from("/x/Live 11.3.4"));
}

#[test]
fn parses_a_relocated_user_library_from_library_cfg() {
    let source = r#"<?xml version="1.0"?>
<Library>
  <UserLibrary>
    <LibraryProject>
      <ProjectPath Value="/Volumes/Audio/Ableton" />
      <ProjectName Value="User Library" />
    </LibraryProject>
  </UserLibrary>
</Library>"#;
    let found = user_library_from_config(source).unwrap();
    let mut path = PathBuf::from(found.folder);
    if let Some(name) = found.name {
        path = path.join(name);
    }
    assert_eq!(path, PathBuf::from("/Volumes/Audio/Ableton/User Library"));
}

#[test]
fn library_cfg_without_a_project_path_names_nothing() {
    assert!(user_library_from_config("<Library><UserLibrary></UserLibrary></Library>").is_none());
    assert!(user_library_from_config("not xml at all <<<").is_none());
    // Entries outside `UserLibrary` do not count.
    let outside = r#"<Library><ProjectPath Value="/elsewhere" /><UserLibrary/></Library>"#;
    assert!(user_library_from_config(outside).is_none());
    let blank_name = r#"<Library><UserLibrary><ProjectPath Value="/a" /><ProjectName Value="" /></UserLibrary></Library>"#;
    let found = user_library_from_config(blank_name).unwrap();
    assert_eq!(found.folder, "/a");
    assert!(found.name.is_none());
}

#[test]
fn versions_tolerate_spacing_and_windows_line_endings() {
    assert_eq!(installed_version("SCRIPT_VERSION=\"1.2\"").as_deref(), Some("1.2"));
    assert_eq!(installed_version("a\r\nSCRIPT_VERSION   =  \"3.1.4\" # x\r\n").as_deref(), Some("3.1.4"));
    assert_eq!(installed_version("SCRIPT_VERSION = 2"), None);
    assert_eq!(installed_version("SCRIPT_VERSION = \"open").as_deref(), Some("open"));
}

#[test]
fn version_keys_read_digit_runs() {
    assert_eq!(version_key("Live 12.10.0"), vec![12, 10, 0]);
    assert_eq!(version_key("Live 11.3.4b2"), vec![11, 3, 4, 2]);
    assert_eq!(version_key("Live 99999999999.1"), vec![1]);
    assert!(version_key("Live").is_empty());
}

#[test]
fn ties_keep_their_order_and_shorter_versions_sort_lower() {
    let names = vec![
        "Live 12.1".to_string(),
        "Live 12.1.0".to_string(),
        "Live 12.1".to_string(),
    ];
    assert_eq!(newest_first(&names), vec![1, 0, 2]);
}

#[test]
fn only_live_folders_are_candidates() {
    assert!(is_live_folder("Live 12.1.5"));
    assert!(!is_live_folder("Live"));
    assert!(!is_live_folder("Max 8"));
}

#[test]
fn a_configured_library_wins_only_when_it_exists() {
    let configured = Some(("/a".to_string(), true));
    let default = Some(("/b".to_string(), true));
    assert_eq!(locate_user_library(configured.clone(), default.clone()).as_deref(), Some("/a"));
    assert_eq!(locate_user_library(Some(("/a".to_string(), false)), default.clone()).as_deref(), Some("/b"));
    assert_eq!(locate_user_library(None, Some(("/b".to_string(), false))), None);
}

#[test]
fn the_config_reader_takes_one_event_at_a_time() {
    let start = ScanState { inside: false, path: None, name: None };
    let outside = XmlEvent::Empty {
        name: "ProjectPath".to_string(),
        attributes: vec![Some(("Value".to_string(), "/x".to_string()))],
    };
    let (state, stop) = scan_event(start, &outside);
    assert!(!stop && state.path.is_none());
    let (state, stop) = scan_event(state, &XmlEvent::Start("UserLibrary".to_string()));
    assert!(!stop && state.inside);
    let path = XmlEvent::Empty {
        name: "ProjectPath".to_string(),
        attributes: vec![None, Some(("Value".to_string(), "/Music".to_string()))],
    };
    let (state, stop) = scan_event(state, &path);
    assert!(!stop);
    assert_eq!(state.path.as_deref(), Some("/Music"));
    let (state, stop) = scan_event(state, &XmlEvent::End("UserLibrary".to_string()));
    assert!(stop);
    assert_eq!(state.path.as_deref(), Some("/Music"));
    let (_, stop) = scan_event(state, &XmlEvent::Failed);
    assert!(stop);
}
