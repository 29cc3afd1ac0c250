use watchcmd::Config;
use watchcmd::EventKind;
use watchcmd::Filters;
use watchcmd::default_debounce_ms;
use watchcmd::default_log_level;
use watchcmd::event_kind_matches;
use watchcmd::path_extension;
use watchcmd::path_matches_pattern;
use watchcmd::path_starts_at_root;
use watchcmd::render_template;
use watchcmd::resolved_root;
use watchcmd::str_ieq;
use watchcmd::str_is_blank;

#[test]
fn defaults_are_info_and_half_a_second() {
    assert_eq!(default_log_level(), "info");
    assert_eq!(default_debounce_ms(), 500);
}

#[test]
fn default_config_is_empty_with_defaults() {
    let c = Config::default();
    assert_eq!(c.log_level, "info");
    assert_eq!(c.debounce_ms, 500);
    assert!(c.watches.is_empty());
}

#[test]
fn default_filter_keeps_everything_configured_off() {
    let f = Filters::default();
    assert!(f.event_kinds.is_none());
    assert!(f.extensions.is_none());
    assert!(f.ignore_patterns.is_empty());
}

#[test]
fn substring_containment_is_plain_not_anchored() {
    assert!(path_matches_pattern("/a/foo/b", "foo"));
    assert!(path_matches_pattern("/a/foob", "foo"));
    assert!(!path_matches_pattern("/a/fo/ob", "foo"));
    assert!(path_matches_pattern("/a/b", ""));
}

#[test]
fn case_insensitive_comparison_folds_ascii_only() {
    assert!(str_ieq("Any", "aNY"));
    assert!(str_ieq("create_FILE", "CREATE_file"));
    assert!(!str_ieq("any", "any "));
    assert!(!str_ieq("any", "an"));
}

#[test]
fn blank_detection_covers_all_ascii_whitespace() {
    assert!(str_is_blank(""));
    assert!(str_is_blank(" \t\r\n"));
    assert!(!str_is_blank(" x "));
}

#[test]
fn containment_is_by_path_component() {
    assert!(path_starts_at_root("/tmp/watched", "/tmp/watched"));
    assert!(path_starts_at_root("/tmp/watched/a/b", "/tmp/watched"));
    assert!(!path_starts_at_root("/tmp/watched2", "/tmp/watched"));
    assert!(!path_starts_at_root("/tmp", "/tmp/watched"));
}

#[test]
fn extension_is_the_suffix_after_the_last_dot() {
    assert_eq!(path_extension("/a/b.txt"), Some("txt".to_string()));
    assert_eq!(path_extension("/a/b.tar.gz"), Some("gz".to_string()));
    assert_eq!(path_extension("/a/noext"), None);
    assert_eq!(path_extension("/a/.hidden"), None);
    assert_eq!(path_extension("/a.dir/noext"), None);
}

#[test]
fn rendering_replaces_nonoverlapping_placeholders_left_to_right() {
    assert_eq!(render_template("echo {}", "/tmp/x"), "echo /tmp/x");
    assert_eq!(render_template("{{}}", "x"), "{x}");
    assert_eq!(render_template("", "x"), "");
    assert_eq!(render_template("{ }", "x"), "{ }");
}

#[test]
fn kind_names_match_their_categories() {
    assert!(event_kind_matches(EventKind::Access, "access"));
    assert!(event_kind_matches(EventKind::CreateFolder, "create"));
    assert!(event_kind_matches(EventKind::ModifyMetadata, "modify"));
    assert!(event_kind_matches(EventKind::Access, "modify"));
    assert!(event_kind_matches(EventKind::RemoveFolder, "Remove"));
    assert!(event_kind_matches(EventKind::ModifyContent, "content_change"));
    assert!(event_kind_matches(EventKind::RenameTo, "rename_to"));
    assert!(event_kind_matches(EventKind::RenameFrom, "rename_from"));
    assert!(event_kind_matches(EventKind::CreateFile, "create_file"));
    assert!(event_kind_matches(EventKind::CreateFolder, "create_folder"));
    assert!(event_kind_matches(EventKind::RemoveFile, "remove_file"));
    assert!(event_kind_matches(EventKind::RemoveFolder, "remove_folder"));
    assert!(!event_kind_matches(EventKind::CreateFile, "remove"));
    assert!(!event_kind_matches(EventKind::Other, "create"));
    assert!(!event_kind_matches(EventKind::CreateFile, "created"));
}

#[test]
fn resolution_falls_back_to_the_expanded_path() {
    assert_eq!(
        resolved_root("/home/u/w".to_string(), Some("/realhome/u/w".to_string())),
        "/realhome/u/w"
    );
    assert_eq!(resolved_root("/not/yet/there".to_string(), None), "/not/yet/there");
}
