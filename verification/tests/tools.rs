use std::collections::HashSet;

use crableton::tools::{all, groups, selected};

#[test]
fn tool_names_are_unique_and_snake_case() {
    let mut seen = HashSet::new();
    for def in all() {
        assert!(seen.insert(def.name), "duplicate tool `{}`", def.name);
        assert!(
            def.name
                .chars()
                .all(|c| c.is_ascii_lowercase() || c.is_ascii_digit() || c == '_'),
            "`{}` is not snake_case",
            def.name
        );
    }
}

#[test]
fn every_group_is_declared_and_populated() {
    let used: HashSet<&str> = all().iter().map(|d| d.group).collect();
    let declared = groups();
    for group in &declared {
        assert!(used.contains(group), "group `{group}` has no tools");
    }
    for group in &used {
        assert!(declared.contains(group), "group `{group}` missing from GROUPS");
    }
}

#[test]
fn selecting_groups_always_keeps_meta() {
    let names: HashSet<&str> = selected(Some("song")).iter().map(|d| d.name).collect();
    assert!(names.contains("set_tempo"));
    assert!(names.contains("get_remote_script_info"));
    assert!(!names.contains("create_midi_track"));
    assert_eq!(selected(Some("all")).len(), all().len());
    assert_eq!(selected(None).len(), all().len());
}

#[test]
fn selections_trim_and_ignore_empty_names() {
    let loose: Vec<&str> = selected(Some(" song , ,track ")).iter().map(|d| d.group).collect();
    assert!(loose.contains(&"song"));
    assert!(loose.contains(&"track"));
    assert!(loose.contains(&"meta"));
    assert!(!loose.contains(&"clip"));
    assert_eq!(selected(Some("   ")).len(), all().len());
    let only_meta = selected(Some("nothing_real"));
    assert!(!only_meta.is_empty());
    assert!(only_meta.iter().all(|d| d.group == "meta"));
}

#[test]
fn the_catalogue_holds_eighty_five_tools() {
    assert_eq!(all().len(), 85);
}
