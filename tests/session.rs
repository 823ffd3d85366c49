use devtidy::cleaner::{clean_jobs, clean_result, cleaned_size, remove_cleaned, CleanResult};
use devtidy::context::{get_folder_display_name, DevTidyContext};
use devtidy::models::{AppState, CleanableItem};
use devtidy::session::{process_scan_update, sort_items_by_size, Action, App, Command, ScanUpdate};

fn item(path: &str, size: u64, selected: bool) -> CleanableItem {
    let mut i = CleanableItem::new(path.to_string(), "Build output directory".to_string(), size, String::new());
    i.selected = selected;
    i
}

fn selecting_app(items: Vec<CleanableItem>) -> App {
    let mut app = App::new("/root".to_string(), false, 6);
    process_scan_update(&mut app, ScanUpdate::ItemsFound(items, 0));
    assert_eq!(app.state, AppState::Selecting);
    app
}

#[test]
fn cleaner_deletes_only_selected_and_reconciles() {
    let items = vec![item("A", 10, true), item("B", 20, false), item("C", 5, true)];
    let jobs = clean_jobs(&items);
    assert_eq!(jobs.len(), 2);
    assert_eq!((jobs[0].path.as_str(), jobs[0].index, jobs[0].total, jobs[0].size), ("A", 0, 2, 10));
    assert_eq!((jobs[1].path.as_str(), jobs[1].index, jobs[1].total, jobs[1].size), ("C", 1, 2, 5));
    let results = vec![clean_result(&jobs[0], true), clean_result(&jobs[1], false)];
    assert_eq!(results[1].size, 0);
    assert_eq!(cleaned_size(&results), 10);
    let left = remove_cleaned(&items, &results);
    let left_paths: Vec<&str> = left.iter().map(|i| i.path.as_str()).collect();
    assert_eq!(left_paths, vec!["B", "C"]);
}

#[test]
fn cleaning_through_the_session() {
    let mut app = selecting_app(vec![item("A", 10, true), item("B", 20, false), item("C", 5, true)]);
    let jobs = match app.handle_action(Action::StartClean) {
        Command::StartClean(jobs) => jobs,
        other => panic!("unexpected {:?}", other),
    };
    assert_eq!(app.state, AppState::Cleaning);
    assert!(app.cleaning);
    assert_eq!(app.total_size, 15);
    app.clean_progress(jobs[0].started());
    assert_eq!(app.processing_item.as_deref(), Some("A"));
    app.clean_progress(jobs[0].finished());
    assert_eq!((app.clean_done, app.clean_total), (1, 2));
    assert!(app.processing_item.is_none());
    let results = vec![clean_result(&jobs[0], true), clean_result(&jobs[1], false)];
    app.finish_cleaning(&results);
    assert_eq!(app.state, AppState::Complete);
    assert_eq!(app.cleaned_size, 10);
    let left: Vec<&str> = app.items.iter().map(|i| i.path.as_str()).collect();
    assert_eq!(left, vec!["B", "C"]);
    assert!(matches!(app.handle_action(Action::NavigateNext), Command::Continue));
    assert_eq!(app.state, AppState::Selecting);
    assert_eq!(app.cursor, Some(0));
}

#[test]
fn clean_needs_a_selection() {
    let mut app = selecting_app(vec![item("A", 10, false)]);
    assert!(matches!(app.handle_action(Action::StartClean), Command::Continue));
    assert_eq!(app.state, AppState::Selecting);
}

#[test]
fn failed_deletion_frees_nothing() {
    let results = vec![CleanResult { path: "x".into(), success: false, size: 0 }];
    assert_eq!(cleaned_size(&results), 0);
}

#[test]
fn scan_waits_for_sizes_after_discovery() {
    let mut app = App::new("/root".to_string(), false, 6);
    let items = vec![item("/root/a", 0, false), item("/root/b.log", 7, false), item("/root/c", 0, false)];
    process_scan_update(&mut app, ScanUpdate::ItemsFound(items, 2));
    assert_eq!(app.state, AppState::Scanning);
    assert!(app.calculating_sizes);
    process_scan_update(&mut app, ScanUpdate::ScanComplete(12));
    assert_eq!(app.state, AppState::Scanning);
    process_scan_update(&mut app, ScanUpdate::SizeUpdate("/root/c".into(), 300));
    assert_eq!(app.state, AppState::Scanning);
    assert_eq!((app.completed_size_jobs, app.total_size_jobs), (1, 2));
    process_scan_update(&mut app, ScanUpdate::SizeUpdate("/root/a".into(), 50));
    assert_eq!(app.state, AppState::Selecting);
    assert!(!app.scanning);
    let order: Vec<&str> = app.items.iter().map(|i| i.path.as_str()).collect();
    assert_eq!(order, vec!["/root/c", "/root/a", "/root/b.log"]);
    assert_eq!(app.total_size, 357);
    assert_eq!(app.cursor, Some(0));
    assert_eq!(app.scan_duration_ms, 12);
}

#[test]
fn scan_waits_for_discovery_after_last_size() {
    let mut app = App::new("/root".to_string(), false, 6);
    process_scan_update(&mut app, ScanUpdate::SizeUpdate("/root/a".into(), 40));
    process_scan_update(&mut app, ScanUpdate::SizeUpdate("/root/c".into(), 90));
    process_scan_update(&mut app, ScanUpdate::SizeCalculationComplete);
    assert_eq!(app.state, AppState::Scanning);
    assert!(app.items.is_empty());
    let items = vec![item("/root/a", 0, false), item("/root/c", 0, false)];
    process_scan_update(&mut app, ScanUpdate::ItemsFound(items, 2));
    assert_eq!(app.state, AppState::Selecting);
    assert_eq!(app.completed_size_jobs, 2);
    let sizes: Vec<u64> = app.items.iter().map(|i| i.size).collect();
    assert_eq!(sizes, vec![90, 40]);
    assert_eq!(app.total_size, 130);
}

#[test]
fn resolver_end_signal_before_last_size_does_not_end_scan() {
    let mut app = App::new("/root".to_string(), false, 6);
    let items = vec![item("/root/a", 0, false), item("/root/c", 0, false)];
    process_scan_update(&mut app, ScanUpdate::ItemsFound(items, 2));
    process_scan_update(&mut app, ScanUpdate::SizeUpdate("/root/a".into(), 40));
    process_scan_update(&mut app, ScanUpdate::SizeCalculationComplete);
    assert_eq!(app.state, AppState::Scanning);
    assert!(app.scanning);
    assert_eq!((app.completed_size_jobs, app.total_size_jobs), (1, 2));
    process_scan_update(&mut app, ScanUpdate::SizeUpdate("/root/c".into(), 90));
    assert_eq!(app.state, AppState::Selecting);
    let sizes: Vec<u64> = app.items.iter().map(|i| i.size).collect();
    assert_eq!(sizes, vec![90, 40]);
    assert_eq!(app.total_size, 130);
}

#[test]
fn resolver_end_signal_alone_does_not_end_scan() {
    let mut app = App::new("/root".to_string(), false, 6);
    process_scan_update(&mut app, ScanUpdate::ItemsFound(vec![item("/root/a", 0, false)], 1));
    process_scan_update(&mut app, ScanUpdate::SizeCalculationComplete);
    assert_eq!(app.state, AppState::Scanning);
    assert_eq!((app.completed_size_jobs, app.total_size_jobs), (0, 1));
}

#[test]
fn scan_with_nothing_to_size_ends_at_discovery() {
    let mut app = App::new("/root".to_string(), false, 6);
    process_scan_update(&mut app, ScanUpdate::ItemsScanned(3));
    assert_eq!(app.scanned_items, 3);
    process_scan_update(&mut app, ScanUpdate::ItemsFound(vec![item("/root/x.log", 4, false)], 0));
    assert_eq!(app.state, AppState::Selecting);
    assert_eq!(app.total_size, 4);
}

#[test]
fn rescan_resets_everything() {
    let mut app = selecting_app(vec![item("A", 10, true), item("B", 20, false)]);
    app.cleaned_size = 99;
    assert!(matches!(app.handle_action(Action::RescanRequested), Command::StartScan));
    assert_eq!(app.state, AppState::Scanning);
    assert!(app.scanning);
    assert!(app.items.is_empty());
    assert_eq!((app.total_size, app.cleaned_size), (0, 0));
    assert_eq!((app.scanned_items, app.total_size_jobs, app.completed_size_jobs), (0, 0, 0));
    assert_eq!(app.cursor, None);
}

#[test]
fn navigation_wraps_at_both_ends() {
    let mut app = selecting_app(vec![item("A", 30, false), item("B", 20, false), item("C", 10, false)]);
    assert_eq!(app.cursor, Some(0));
    app.handle_action(Action::NavigatePrevious);
    assert_eq!(app.cursor, Some(2));
    app.handle_action(Action::NavigateNext);
    assert_eq!(app.cursor, Some(0));
    app.handle_action(Action::NavigateNext);
    assert_eq!(app.cursor, Some(1));
}

#[test]
fn toggling_updates_the_selected_total() {
    let mut app = selecting_app(vec![item("A", 30, false), item("B", 20, false)]);
    app.handle_action(Action::ToggleSelection);
    assert!(app.items[0].selected);
    assert_eq!(app.total_size, 30);
    assert_eq!(app.selected_count(), 1);
    app.handle_action(Action::NavigateNext);
    app.handle_action(Action::ToggleSelection);
    assert_eq!(app.total_size, 50);
    assert_eq!(app.selected_size(), 50);
    app.handle_action(Action::ToggleSelection);
    assert_eq!(app.total_size, 30);
}

#[test]
fn help_overlay_returns_to_previous_state() {
    let mut app = selecting_app(vec![item("A", 1, false)]);
    app.handle_action(Action::ToggleHelp);
    assert_eq!(app.state, AppState::Help);
    app.handle_action(Action::ScrollHelp(-3));
    assert_eq!(app.help_scroll, 0);
    app.handle_action(Action::ScrollHelp(5));
    app.handle_action(Action::ScrollHelp(-1));
    assert_eq!(app.help_scroll, 4);
    app.handle_action(Action::NavigateNext);
    assert_eq!(app.state, AppState::Help);
    app.handle_action(Action::ToggleHelp);
    assert_eq!(app.state, AppState::Selecting);
    assert!(matches!(app.handle_action(Action::Quit), Command::Quit));
}

#[test]
fn scan_finishing_under_help_returns_to_selecting() {
    let mut app = App::new("/root".to_string(), false, 6);
    app.handle_action(Action::ToggleHelp);
    assert_eq!(app.previous_state, Some(AppState::Scanning));
    process_scan_update(&mut app, ScanUpdate::ItemsFound(vec![], 0));
    assert_eq!(app.state, AppState::Help);
    app.handle_action(Action::ToggleHelp);
    assert_eq!(app.state, AppState::Selecting);
}

#[test]
fn selected_info_describes_the_selection() {
    let mut app = selecting_app(vec![item("/root/a", 3, false), item("/root/b", 2, false)]);
    assert_eq!(app.get_selected_info(), "No items selected");
    app.handle_action(Action::ToggleSelection);
    assert_eq!(app.get_selected_info(), "Selected: /root/a (Build output directory)");
    app.handle_action(Action::NavigateNext);
    app.handle_action(Action::ToggleSelection);
    assert_eq!(app.get_selected_info(), "Selected: 2 items of various types");
}

#[test]
fn sorting_is_descending_and_stable() {
    let items = vec![item("a", 1, false), item("b", 5, false), item("c", 1, false), item("d", 9, false)];
    let sorted = sort_items_by_size(&items);
    let order: Vec<&str> = sorted.iter().map(|i| i.path.as_str()).collect();
    assert_eq!(order, vec!["d", "b", "a", "c"]);
}

#[test]
fn display_info_falls_back_to_category() {
    let a = CleanableItem::new("p".into(), "cat".into(), 0, String::new());
    assert_eq!(a.display_info(), "cat");
    let b = CleanableItem::new("p".into(), "cat".into(), 0, "info".into());
    assert_eq!(b.display_info(), "info");
    assert_eq!(b.display_path(), "p");
}

#[test]
fn context_reports_pattern_matches() {
    let ctx = DevTidyContext::new();
    assert_eq!(
        ctx.check_cleanable_pattern("node_modules"),
        "PATTERN MATCH: 'node_modules' matches DevTidy pattern 'node_modules' - Node.js dependencies. This CAN be safely deleted."
    );
    assert_eq!(
        ctx.check_cleanable_pattern("build-arm"),
        "PATTERN MATCH: 'build-arm' matches DevTidy wildcard pattern 'build-*' - Wildcard build output directories. This CAN be safely deleted."
    );
    assert_eq!(
        ctx.check_cleanable_pattern("src"),
        "NO PATTERN MATCH: 'src' does not match any DevTidy cleanable patterns. This should NOT be deleted as it's likely important project files."
    );
    let app_context = ctx.get_app_context();
    assert!(app_context.starts_with("You are DevTidy's AI assistant."));
    assert!(app_context.contains("\n  - node_modules: Node.js dependencies\n  - pnpm-lock.yaml: pnpm lock file\n"));
    assert!(app_context.ends_with("to give informed deletion advice."));
}

#[test]
fn context_keeps_the_last_five_exchanges() {
    let mut ctx = DevTidyContext::new();
    assert_eq!(ctx.get_conversation_context(), "No previous conversation.");
    ctx.add_exchange("hi".into(), "hello".into());
    assert_eq!(ctx.get_conversation_context(), "Recent conversation:\nPrevious exchange 1:\nUser: hi\nAI: hello");
    for i in 0..6 {
        ctx.add_exchange(format!("q{}", i), format!("a{}", i));
    }
    let text = ctx.get_conversation_context();
    assert!(!text.contains("User: hi"));
    assert!(!text.contains("User: q0"));
    assert!(text.contains("Previous exchange 1:\nUser: q1\nAI: a1"));
    assert!(text.ends_with("Previous exchange 5:\nUser: q5\nAI: a5"));
    let chat = ctx.create_chat_prompt("what is dist?");
    assert!(chat.contains("\n\nUser question: what is dist?\n\nAnswer as DevTidy's AI assistant."));
}

#[test]
fn default_context_is_empty() {
    let ctx = DevTidyContext::default();
    assert_eq!(ctx.get_conversation_context(), "No previous conversation.");
}

#[test]
fn prompts_combine_their_parts() {
    let ctx = DevTidyContext::new();
    let explain = ctx.create_explain_prompt("target");
    assert!(explain.contains("PATTERN MATCH: 'target' matches DevTidy pattern 'target' - Rust build artifacts."));
    assert!(explain.contains("\n\nFolder/file to explain: 'target'\n\nNo previous conversation.\n\nExplain what"));
    let suggest = ctx.create_suggest_prompt("dist", "1.2 MB");
    assert!(suggest.contains("\n\nFolder: 'dist' (size: 1.2 MB)\n\nBased on DevTidy's patterns above"));
}

#[test]
fn folder_display_name_is_the_last_component() {
    assert_eq!(get_folder_display_name("/home/user/project"), "project");
    assert_eq!(get_folder_display_name("/home/user/project/"), "project");
    assert_eq!(get_folder_display_name("/"), "unknown");
}
