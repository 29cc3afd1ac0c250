use watchcmd::Action;
use watchcmd::AppError;
use watchcmd::Event;
use watchcmd::EventKind;
use watchcmd::Filters;
use watchcmd::WatchConfig;
use watchcmd::classify_outcome;
use watchcmd::event_kind_to_primary_string;
use watchcmd::match_action;
use watchcmd::plan_batch;
use watchcmd::plan_event;
use watchcmd::prepare_command;
use watchcmd::route;

fn no_filter() -> Filters {
    Filters { event_kinds: None, extensions: None, ignore_patterns: Vec::new() }
}

fn watch(path: &str, recursive: bool, actions: Vec<Action>, filter: Filters) -> WatchConfig {
    WatchConfig { path: path.to_string(), recursive, actions, filter }
}

fn action(event: &str, command: &str) -> Action {
    Action { event: event.to_string(), command: command.to_string() }
}

fn event(kind: EventKind, paths: &[&str]) -> Event {
    Event { kind, paths: paths.iter().map(|p| p.to_string()).collect() }
}

#[test]
fn routes_descendant_and_equal_paths() {
    let roots = vec![
        Some("/tmp/watched".to_string()),
        Some("/opt".to_string()),
        None,
        Some("/tmp".to_string()),
    ];
    let e = event(EventKind::CreateFile, &["/tmp/watched/a.txt"]);
    let r = route(&roots, &e);
    assert_eq!(r, vec![0, 3]);

    let e_root_itself = event(EventKind::CreateFile, &["/opt"]);
    assert_eq!(route(&roots, &e_root_itself), vec![1]);
}

#[test]
fn route_is_component_wise_not_string_prefix() {
    let roots = vec![Some("/tmp/watched".to_string())];
    let e = event(EventKind::CreateFile, &["/tmp/watched2/b.txt"]);
    assert_eq!(route(&roots, &e), Vec::<usize>::new());
}

#[test]
fn unresolved_root_is_excluded() {
    let roots: Vec<Option<String>> = vec![None];
    let e = event(EventKind::CreateFile, &["/anything"]);
    assert_eq!(route(&roots, &e), Vec::<usize>::new());
}

#[test]
fn ignore_pattern_rejects_regardless_of_other_fields() {
    let f = Filters {
        event_kinds: Some(vec!["create".to_string()]),
        extensions: Some(vec![".log".to_string()]),
        ignore_patterns: vec!["foo".to_string()],
    };
    let rejected = event(EventKind::CreateFile, &["/a/foo/b.log"]);
    assert!(!f.matches(&rejected));

    let kept = event(EventKind::CreateFile, &["/a/bar/b.log"]);
    assert!(f.matches(&kept));
}

#[test]
fn extension_filter_rejects_txt_accepts_log() {
    let f = Filters {
        event_kinds: None,
        extensions: Some(vec![".log".to_string()]),
        ignore_patterns: Vec::new(),
    };
    assert!(!f.matches(&event(EventKind::CreateFile, &["/a/b.txt"])));
    assert!(f.matches(&event(EventKind::CreateFile, &["/a/b.log"])));
}

#[test]
fn extension_filter_rejects_path_without_extension() {
    let f = Filters {
        event_kinds: None,
        extensions: Some(vec![".log".to_string()]),
        ignore_patterns: Vec::new(),
    };
    assert!(!f.matches(&event(EventKind::CreateFile, &["/a/noext"])));
    assert!(!f.matches(&event(EventKind::CreateFile, &["/a/.bashrc"])));
}

#[test]
fn extension_filter_rejects_event_when_one_path_fails() {
    let f = Filters {
        event_kinds: None,
        extensions: Some(vec![".log".to_string()]),
        ignore_patterns: Vec::new(),
    };
    assert!(!f.matches(&event(EventKind::CreateFile, &["/a/b.log", "/a/c.txt"])));
}

#[test]
fn kind_filter_uses_name_table_case_insensitively() {
    let f = Filters {
        event_kinds: Some(vec!["CREATE".to_string()]),
        extensions: None,
        ignore_patterns: Vec::new(),
    };
    assert!(f.matches(&event(EventKind::CreateFile, &["/a/b"])));
    assert!(f.matches(&event(EventKind::CreateFolder, &["/a/b"])));
    assert!(!f.matches(&event(EventKind::RemoveFile, &["/a/b"])));
}

#[test]
fn write_kind_name_also_matches_access() {
    let f = Filters {
        event_kinds: Some(vec!["write".to_string()]),
        extensions: None,
        ignore_patterns: Vec::new(),
    };
    assert!(f.matches(&event(EventKind::Access, &["/a/b"])));
    assert!(f.matches(&event(EventKind::ModifyContent, &["/a/b"])));
    assert!(!f.matches(&event(EventKind::CreateFile, &["/a/b"])));
}

#[test]
fn unrecognized_kind_name_never_matches() {
    let f = Filters {
        event_kinds: Some(vec!["sprocket".to_string()]),
        extensions: None,
        ignore_patterns: Vec::new(),
    };
    assert!(!f.matches(&event(EventKind::CreateFile, &["/a/b"])));
}

#[test]
fn primary_labels_cover_the_fine_grained_kinds() {
    assert_eq!(event_kind_to_primary_string(EventKind::CreateFile), Some("create_file".to_string()));
    assert_eq!(
        event_kind_to_primary_string(EventKind::CreateFolder),
        Some("create_folder".to_string())
    );
    assert_eq!(
        event_kind_to_primary_string(EventKind::ModifyContent),
        Some("content_change".to_string())
    );
    assert_eq!(event_kind_to_primary_string(EventKind::RenameTo), Some("rename_to".to_string()));
    assert_eq!(event_kind_to_primary_string(EventKind::RenameFrom), Some("rename_from".to_string()));
    assert_eq!(event_kind_to_primary_string(EventKind::RemoveFile), Some("remove_file".to_string()));
    assert_eq!(
        event_kind_to_primary_string(EventKind::RemoveFolder),
        Some("remove_folder".to_string())
    );
    assert_eq!(event_kind_to_primary_string(EventKind::Access), None);
    assert_eq!(event_kind_to_primary_string(EventKind::Other), None);
}

#[test]
fn first_matching_action_wins_over_any() {
    let actions = vec![action("create_file", "echo first {}"), action("any", "echo second {}")];
    assert_eq!(match_action(&actions, EventKind::CreateFile), Some(0));
    assert_eq!(match_action(&actions, EventKind::RemoveFile), Some(1));
}

#[test]
fn selector_comparison_folds_case() {
    let actions = vec![action("ANY", "echo {}")];
    assert_eq!(match_action(&actions, EventKind::Other), Some(0));
    let actions2 = vec![action("Create_File", "echo {}")];
    assert_eq!(match_action(&actions2, EventKind::CreateFile), Some(0));
}

#[test]
fn matched_action_with_blank_command_is_no_match() {
    let actions = vec![action("any", "   ")];
    assert_eq!(match_action(&actions, EventKind::CreateFile), None);
}

#[test]
fn unlabeled_kind_matches_only_any() {
    let actions = vec![action("create_file", "echo {}")];
    assert_eq!(match_action(&actions, EventKind::Other), None);
}

#[test]
fn template_substitution_renders_every_placeholder() {
    let r = prepare_command("echo {}", "/tmp/x").unwrap();
    assert_eq!(r, "echo /tmp/x");
    let twice = prepare_command("cp {} {}.bak", "/tmp/x").unwrap();
    assert_eq!(twice, "cp /tmp/x /tmp/x.bak");
    let none = prepare_command("date", "/tmp/x").unwrap();
    assert_eq!(none, "date");
}

#[test]
fn empty_and_whitespace_commands_are_refused() {
    match prepare_command("", "/tmp/x") {
        Err(AppError::EmptyCommand { event_kind, path }) => {
            assert_eq!(event_kind, "");
            assert_eq!(path, "/tmp/x");
        }
        other => panic!("expected the empty-command error, got {:?}", other),
    }
    assert!(matches!(
        prepare_command(" \t\n", "/tmp/x"),
        Err(AppError::EmptyCommand { .. })
    ));
}

#[test]
fn two_executions_of_one_action_are_independent() {
    let first = prepare_command("echo {}", "/tmp/x").unwrap();
    let second = prepare_command("echo {}", "/tmp/x").unwrap();
    assert_eq!(first, second);
    let o1 = classify_outcome(&first, true, Some(0), "out".to_string(), String::new()).unwrap();
    let o2 = classify_outcome(&second, true, Some(0), "out".to_string(), String::new()).unwrap();
    assert!(o1.success && o2.success);
    assert_eq!(o1.stdout, o2.stdout);
}

#[test]
fn failed_exit_yields_action_error_with_final_command() {
    let r = classify_outcome("touch /tmp/x.done", false, Some(1), String::new(), "denied".to_string());
    match r {
        Err(AppError::ActionExec { command, detail }) => {
            assert_eq!(command, "touch /tmp/x.done");
            assert_eq!(detail, "denied");
        }
        other => panic!("expected the action-execution error, got {:?}", other),
    }
}

#[test]
fn creation_under_watched_dir_dispatches_exactly_once() {
    let watches = vec![watch(
        "/tmp/watched",
        false,
        vec![action("any", "touch {}.done")],
        no_filter(),
    )];
    let roots = vec![Some("/tmp/watched".to_string())];
    let e = event(EventKind::CreateFile, &["/tmp/watched/a.txt"]);
    let dispatches = plan_event(&watches, &roots, &e);
    assert_eq!(dispatches.len(), 1);
    assert_eq!(dispatches[0].command, "touch {}.done");
    assert_eq!(dispatches[0].path, "/tmp/watched/a.txt");
    let cmd = prepare_command(&dispatches[0].command, &dispatches[0].path).unwrap();
    assert_eq!(cmd, "touch /tmp/watched/a.txt.done");
}

#[test]
fn every_path_of_an_event_is_dispatched() {
    let watches = vec![watch("/w", false, vec![action("any", "echo {}")], no_filter())];
    let roots = vec![Some("/w".to_string())];
    let e = event(EventKind::RenameTo, &["/w/a", "/w/b"]);
    let dispatches = plan_event(&watches, &roots, &e);
    assert_eq!(dispatches.len(), 2);
    assert_eq!(dispatches[0].path, "/w/a");
    assert_eq!(dispatches[1].path, "/w/b");
}

#[test]
fn irrelevant_watch_gets_nothing() {
    let watches = vec![watch("/elsewhere", false, vec![action("any", "echo {}")], no_filter())];
    let roots = vec![Some("/elsewhere".to_string())];
    let e = event(EventKind::CreateFile, &["/w/a"]);
    assert!(plan_event(&watches, &roots, &e).is_empty());
}

#[test]
fn blank_command_action_yields_no_dispatches() {
    let watches = vec![watch("/w", false, vec![action("any", "   ")], no_filter())];
    let roots = vec![Some("/w".to_string())];
    let e = event(EventKind::CreateFile, &["/w/a"]);
    assert!(plan_event(&watches, &roots, &e).is_empty());
}

#[test]
fn filtered_out_event_yields_no_dispatches() {
    let f = Filters {
        event_kinds: Some(vec!["remove".to_string()]),
        extensions: None,
        ignore_patterns: Vec::new(),
    };
    let watches = vec![watch("/w", false, vec![action("any", "echo {}")], f)];
    let roots = vec![Some("/w".to_string())];
    let e = event(EventKind::CreateFile, &["/w/a"]);
    assert!(plan_event(&watches, &roots, &e).is_empty());
    let kept = event(EventKind::RemoveFolder, &["/w/a"]);
    assert_eq!(plan_event(&watches, &roots, &kept).len(), 1);
}

#[test]
fn error_batch_is_logged_and_the_next_batch_still_flows() {
    let watches = vec![watch("/w", false, vec![action("any", "echo {}")], no_filter())];
    let roots = vec![Some("/w".to_string())];

    let errors = plan_batch(&watches, &roots, Err(vec!["device busy".to_string()]));
    assert_eq!(errors.errors, vec!["device busy".to_string()]);
    assert!(errors.dispatches.is_empty());

    let next = plan_batch(
        &watches,
        &roots,
        Ok(vec![event(EventKind::CreateFile, &["/w/a.txt"])]),
    );
    assert!(next.errors.is_empty());
    assert_eq!(next.dispatches.len(), 1);
    assert_eq!(next.dispatches[0].path, "/w/a.txt");
}

#[test]
fn batch_preserves_event_order_in_dispatches() {
    let watches = vec![watch("/w", false, vec![action("any", "echo {}")], no_filter())];
    let roots = vec![Some("/w".to_string())];
    let batch = plan_batch(
        &watches,
        &roots,
        Ok(vec![
            event(EventKind::CreateFile, &["/w/first"]),
            event(EventKind::RemoveFile, &["/w/second"]),
        ]),
    );
    assert_eq!(batch.dispatches.len(), 2);
    assert_eq!(batch.dispatches[0].path, "/w/first");
    assert_eq!(batch.dispatches[1].path, "/w/second");
}
