use terminal_sessions::error::ErrorKind;
use terminal_sessions::terminal::{
    resolve_working_directory, ShellCommand, TerminalInfo, TerminalManager, TerminalSize,
    DEFAULT_TERMINAL_COLS, DEFAULT_TERMINAL_ROWS, MAX_TERMINAL_ID,
};

fn spawn(manager: &mut TerminalManager, cwd: &str, name: Option<&str>) -> TerminalInfo {
    let plan = manager
        .plan_spawn(Some(cwd.to_string()), None, None)
        .expect("an identifier is left");
    manager
        .spawn_terminal(plan, name.map(|n| n.to_string()))
        .expect("an identifier is left")
}

fn sorted_ids(manager: &TerminalManager) -> Vec<u32> {
    let mut ids: Vec<u32> = manager.list_terminals().iter().map(|info| info.id).collect();
    ids.sort();
    ids
}

#[test]
fn first_session_gets_identifier_one() {
    let mut manager = TerminalManager::new();
    let info = spawn(&mut manager, "/tmp", None);
    assert_eq!(info.id, 1);
    assert_eq!(info.name, "Terminal 1");
    assert_eq!(info.cwd, "/tmp");
}

#[test]
fn default_manager_is_a_new_manager() {
    let mut manager = TerminalManager::default();
    assert!(manager.list_terminals().is_empty());
    assert_eq!(spawn(&mut manager, ".", None).id, 1);
}

#[test]
fn requested_name_is_kept() {
    let mut manager = TerminalManager::new();
    let info = spawn(&mut manager, "/srv", Some("build"));
    assert_eq!(info.name, "build");
    assert_eq!(info.id, 1);
}

#[test]
fn default_name_carries_the_identifier() {
    let mut manager = TerminalManager::starting_at(4_294_967_000);
    let info = spawn(&mut manager, "/", None);
    assert_eq!(info.id, 4_294_967_000);
    assert_eq!(info.name, "Terminal 4294967000");
}

#[test]
fn creation_time_is_rfc_3339() {
    let mut manager = TerminalManager::new();
    let info = spawn(&mut manager, "/tmp", None);
    assert!(chrono::DateTime::parse_from_rfc3339(&info.created_at).is_ok());
}

#[test]
fn register_keeps_the_given_creation_time() {
    let mut manager = TerminalManager::new();
    let info = manager
        .register(
            "/work".to_string(),
            Some("one".to_string()),
            "1996-12-19T16:39:57-08:00".to_string(),
        )
        .unwrap();
    assert_eq!(info.id, 1);
    assert_eq!(info.name, "one");
    assert_eq!(info.cwd, "/work");
    assert_eq!(info.created_at, "1996-12-19T16:39:57-08:00");
    let listed = manager.list_terminals();
    assert_eq!(listed.len(), 1);
    assert_eq!(listed[0].created_at, "1996-12-19T16:39:57-08:00");
}

#[test]
fn identifiers_increase_and_are_never_reused() {
    let mut manager = TerminalManager::new();
    let a = spawn(&mut manager, "/a", None).id;
    let b = spawn(&mut manager, "/b", None).id;
    manager.close_terminal(a).unwrap();
    let c = spawn(&mut manager, "/c", None).id;
    manager.close_terminal(c).unwrap();
    manager.close_terminal(b).unwrap();
    let d = spawn(&mut manager, "/d", None).id;
    assert_eq!((a, b, c, d), (1, 2, 3, 4));
}

#[test]
fn identifiers_are_not_reused_after_close_all() {
    let mut manager = TerminalManager::new();
    spawn(&mut manager, "/a", None);
    spawn(&mut manager, "/b", None);
    manager.close_all();
    assert!(manager.list_terminals().is_empty());
    assert_eq!(spawn(&mut manager, "/c", None).id, 3);
}

#[test]
fn created_session_is_listed_once_with_its_metadata() {
    let mut manager = TerminalManager::new();
    spawn(&mut manager, "/first", None);
    let info = spawn(&mut manager, "/second", Some("two"));
    spawn(&mut manager, "/third", None);
    let listed = manager.list_terminals();
    let matching: Vec<&TerminalInfo> = listed.iter().filter(|i| i.id == info.id).collect();
    assert_eq!(matching.len(), 1);
    assert_eq!(matching[0].name, info.name);
    assert_eq!(matching[0].cwd, info.cwd);
    assert_eq!(matching[0].created_at, info.created_at);
    manager.close_terminal(info.id).unwrap();
    assert!(manager.list_terminals().iter().all(|i| i.id != info.id));
}

#[test]
fn closed_session_is_not_found_afterwards() {
    let mut manager = TerminalManager::new();
    let id = spawn(&mut manager, "/tmp", None).id;
    assert!(manager.close_terminal(id).is_ok());
    let write = manager.write_to_terminal(id, "ls\n").unwrap_err();
    assert_eq!(write.kind, ErrorKind::NotFound);
    assert_eq!(write.message, "Terminal 1 not found");
    let resize = manager.resize_terminal(id, 100, 40).unwrap_err();
    assert_eq!(resize.kind, ErrorKind::NotFound);
    assert_eq!(resize.message, "Terminal 1 not found");
    let update = manager.update_terminal_cwd(id, "/x".to_string()).unwrap_err();
    assert_eq!(update.kind, ErrorKind::NotFound);
    assert_eq!(update.message, "Terminal 1 not found");
    let again = manager.close_terminal(id).unwrap_err();
    assert_eq!(again.kind, ErrorKind::NotFound);
    assert_eq!(again.message, "Terminal 1 not found");
}

#[test]
fn closing_an_unknown_session_is_not_found() {
    let mut manager = TerminalManager::new();
    let error = manager.close_terminal(7).unwrap_err();
    assert_eq!(error.kind, ErrorKind::NotFound);
    assert_eq!(error.message, "Terminal 7 not found");
}

#[test]
fn closing_one_session_leaves_the_others() {
    let mut manager = TerminalManager::new();
    spawn(&mut manager, "/a", None);
    spawn(&mut manager, "/b", None);
    spawn(&mut manager, "/c", None);
    manager.close_terminal(2).unwrap();
    assert_eq!(sorted_ids(&manager), vec![1, 3]);
}

#[test]
fn many_sessions_are_all_registered_under_distinct_identifiers() {
    let mut manager = TerminalManager::new();
    for _ in 0..50 {
        spawn(&mut manager, "/tmp", None);
    }
    let ids = sorted_ids(&manager);
    assert_eq!(ids.len(), 50);
    assert_eq!(ids, (1..=50).collect::<Vec<u32>>());
}

#[test]
fn exhausted_allocator_refuses_without_side_effects() {
    let mut manager = TerminalManager::starting_at(MAX_TERMINAL_ID);
    let plan = manager.plan_spawn(Some("/tmp".to_string()), None, None);
    let error = plan.unwrap_err();
    assert_eq!(error.kind, ErrorKind::IdOverflow);
    assert_eq!(error.message, "Terminal ID overflow - please restart the application");
    let refused = manager.register("/tmp".to_string(), None, "now".to_string()).unwrap_err();
    assert_eq!(refused.kind, ErrorKind::IdOverflow);
    assert!(manager.list_terminals().is_empty());
}

#[test]
fn stale_plan_is_refused_once_the_allocator_is_exhausted() {
    let mut manager = TerminalManager::starting_at(MAX_TERMINAL_ID - 1);
    let first = manager.plan_spawn(Some("/a".to_string()), None, None).unwrap();
    let second = manager.plan_spawn(Some("/b".to_string()), None, None).unwrap();
    let info = manager.spawn_terminal(first, None).unwrap();
    assert_eq!(info.id, MAX_TERMINAL_ID - 1);
    let error = manager.spawn_terminal(second, None).unwrap_err();
    assert_eq!(error.kind, ErrorKind::IdOverflow);
    assert_eq!(sorted_ids(&manager), vec![MAX_TERMINAL_ID - 1]);
}

#[test]
fn last_identifier_is_two_below_the_largest_number() {
    assert_eq!(MAX_TERMINAL_ID, u32::MAX - 1);
    let mut manager = TerminalManager::starting_at(u32::MAX);
    assert!(manager.plan_spawn(None, None, None).is_err());
    assert!(manager.register(".".to_string(), None, "now".to_string()).is_err());
}

#[test]
fn starting_at_zero_starts_at_one() {
    let mut manager = TerminalManager::starting_at(0);
    assert_eq!(spawn(&mut manager, "/tmp", None).id, 1);
}

#[test]
fn write_hands_back_the_bytes_of_the_data() {
    let mut manager = TerminalManager::new();
    let id = spawn(&mut manager, "/tmp", None).id;
    assert_eq!(manager.write_to_terminal(id, "ls -la\r").unwrap(), b"ls -la\r");
    assert_eq!(manager.write_to_terminal(id, "é\u{1b}[A").unwrap(), &[0xc3, 0xa9, 0x1b, 0x5b, 0x41]);
    assert_eq!(manager.write_to_terminal(id, "").unwrap(), b"");
}

#[test]
fn resize_gives_the_geometry_without_pixels() {
    let mut manager = TerminalManager::new();
    let id = spawn(&mut manager, "/tmp", None).id;
    let size = manager.resize_terminal(id, 132, 43).unwrap();
    assert_eq!(size, TerminalSize { rows: 43, cols: 132, pixel_width: 0, pixel_height: 0 });
    assert_eq!(TerminalSize::from_cells(1, 2), TerminalSize { rows: 2, cols: 1, pixel_width: 0, pixel_height: 0 });
}

#[test]
fn update_cwd_changes_only_the_working_directory() {
    let mut manager = TerminalManager::new();
    let info = spawn(&mut manager, "/before", Some("shell"));
    let other = spawn(&mut manager, "/other", None);
    manager.update_terminal_cwd(info.id, "/after".to_string()).unwrap();
    let listed = manager.list_terminals();
    let updated = listed.iter().find(|i| i.id == info.id).unwrap();
    assert_eq!(updated.cwd, "/after");
    assert_eq!(updated.name, "shell");
    assert_eq!(updated.created_at, info.created_at);
    let untouched = listed.iter().find(|i| i.id == other.id).unwrap();
    assert_eq!(untouched.cwd, "/other");
    assert_eq!(listed.len(), 2);
}

#[test]
fn update_cwd_of_unknown_session_changes_nothing() {
    let mut manager = TerminalManager::new();
    spawn(&mut manager, "/a", None);
    let error = manager.update_terminal_cwd(9, "/b".to_string()).unwrap_err();
    assert_eq!(error.kind, ErrorKind::NotFound);
    assert_eq!(error.message, "Terminal 9 not found");
    let listed = manager.list_terminals();
    assert_eq!(listed.len(), 1);
    assert_eq!(listed[0].cwd, "/a");
}

#[test]
fn plan_opens_eighty_by_twenty_four() {
    let manager = TerminalManager::new();
    let plan = manager.plan_spawn(Some("/tmp".to_string()), None, None).unwrap();
    assert_eq!(DEFAULT_TERMINAL_COLS, 80);
    assert_eq!(DEFAULT_TERMINAL_ROWS, 24);
    assert_eq!(plan.size, TerminalSize { rows: 24, cols: 80, pixel_width: 0, pixel_height: 0 });
}

#[test]
fn plan_starts_an_interactive_shell_that_advertises_colours() {
    let manager = TerminalManager::new();
    let plan = manager.plan_spawn(Some("/projects".to_string()), None, None).unwrap();
    assert_eq!(plan.command.program, "powershell.exe");
    assert_eq!(plan.command.args, vec!["-NoLogo", "-NoExit", "-NoProfile"]);
    assert_eq!(plan.command.cwd, "/projects");
    assert_eq!(
        plan.command.env,
        vec![
            ("TERM".to_string(), "xterm-256color".to_string()),
            ("COLORTERM".to_string(), "truecolor".to_string()),
        ]
    );
    let direct = ShellCommand::interactive("/elsewhere".to_string());
    assert_eq!(direct.cwd, "/elsewhere");
    assert_eq!(direct.program, "powershell.exe");
}

#[test]
fn working_directory_falls_back_to_home_then_dot() {
    let given = Some("/given".to_string());
    let profile = Some("C:\\Users\\me".to_string());
    let home = Some("/home/me".to_string());
    assert_eq!(resolve_working_directory(given.clone(), profile.clone(), home.clone()), "/given");
    assert_eq!(resolve_working_directory(None, profile.clone(), home.clone()), "C:\\Users\\me");
    assert_eq!(resolve_working_directory(None, None, home.clone()), "/home/me");
    assert_eq!(resolve_working_directory(None, None, None), ".");
    let manager = TerminalManager::new();
    let plan = manager.plan_spawn(None, None, home).unwrap();
    assert_eq!(plan.command.cwd, "/home/me");
    let plan = manager.plan_spawn(None, None, None).unwrap();
    assert_eq!(plan.command.cwd, ".");
}

#[test]
fn session_starts_in_the_planned_directory() {
    let mut manager = TerminalManager::new();
    let plan = manager.plan_spawn(None, Some("/profile".to_string()), None).unwrap();
    let info = manager.spawn_terminal(plan, None).unwrap();
    assert_eq!(info.cwd, "/profile");
}

#[test]
fn clone_of_metadata_has_the_same_fields() {
    let mut manager = TerminalManager::new();
    let info = spawn(&mut manager, "/tmp", Some("n"));
    let copy = info.clone();
    assert_eq!(copy.id, info.id);
    assert_eq!(copy.name, info.name);
    assert_eq!(copy.cwd, info.cwd);
    assert_eq!(copy.created_at, info.created_at);
}
