use autoraise_rs::aerospace::{
    focused_workspace_of, window_ids_of, window_workspace_of, workspace_names_of, AeroCommand,
    AeroSpaceState, CommandOutput, RefreshJob,
};
use std::collections::{HashMap, HashSet};

fn ok(text: &str) -> Option<CommandOutput> {
    Some(CommandOutput { success: true, stdout: text.as_bytes().to_vec(), stderr: Vec::new() })
}

fn failed(err: &str) -> Option<CommandOutput> {
    Some(CommandOutput { success: false, stdout: Vec::new(), stderr: err.as_bytes().to_vec() })
}

fn ids(v: &[u32]) -> HashSet<u32> {
    v.iter().copied().collect()
}

fn args_of(c: &AeroCommand) -> Vec<String> {
    c.args()
}

/// Runs a refresh, answering each query with `answer`; returns the queries asked.
fn drive(state: &mut AeroSpaceState, mut job: RefreshJob, answer: &dyn Fn(&AeroCommand) -> Option<CommandOutput>) -> Vec<AeroCommand> {
    let mut asked = Vec::new();
    while let Some(cmd) = job.next_command() {
        let reply = answer(&cmd);
        asked.push(cmd);
        state.refresh_step(&mut job, reply);
    }
    asked
}

#[test]
fn command_arguments() {
    assert_eq!(AeroCommand::program(), "aerospace");
    assert_eq!(args_of(&AeroCommand::Version), vec!["version"]);
    assert_eq!(args_of(&AeroCommand::FocusedWorkspace), vec!["list-workspaces", "--focused"]);
    assert_eq!(
        args_of(&AeroCommand::WindowWorkspaceMap),
        vec!["list-windows", "--all", "--format", "%{window-id}\t%{workspace}"]
    );
    assert_eq!(
        args_of(&AeroCommand::TiledWindowIds),
        vec!["list-windows", "--all", "--format", "%{window-id}", "--filter-tiling-windows"]
    );
    assert_eq!(args_of(&AeroCommand::AllWorkspaces), vec!["list-workspaces", "--all"]);
    assert_eq!(
        args_of(&AeroCommand::WorkspaceWindows("3".to_string())),
        vec!["list-windows", "--workspace", "3", "--format", "%{window-id}"]
    );
    assert_eq!(
        args_of(&AeroCommand::AllWindowIds),
        vec!["list-windows", "--all", "--format", "%{window-id}"]
    );
}

#[test]
fn window_ids_parsing() {
    assert_eq!(window_ids_of(&ok("12\n 34 \nx\n\n56\r\n")), Some(ids(&[12, 34, 56])));
    assert_eq!(window_ids_of(&None), None);
    assert_eq!(window_ids_of(&failed("error: Unknown flag --filter-tiling-windows")), None);
    assert_eq!(window_ids_of(&failed("unrecognized option")), None);
    // a failure for another reason still reads standard output
    assert_eq!(window_ids_of(&failed("something else")), Some(HashSet::new()));
}

#[test]
fn window_workspace_parsing() {
    let m = window_workspace_of(&ok("1\tA\n2\t B \n3\t\n4\nx\tC\n1\tD\n")).unwrap();
    let expect: HashMap<u32, String> = [(1, "D".to_string()), (2, "B".to_string())].into_iter().collect();
    assert_eq!(m, expect);
    assert_eq!(window_workspace_of(&None), None);
    assert_eq!(window_workspace_of(&failed("Unknown format token")), None);
}

#[test]
fn focused_workspace_parsing() {
    assert_eq!(focused_workspace_of(&ok(" 2 \nother\n")), Some("2".to_string()));
    assert_eq!(focused_workspace_of(&ok("   \n2\n")), None);
    assert_eq!(focused_workspace_of(&ok("")), None);
    assert_eq!(focused_workspace_of(&failed("")), None);
    assert_eq!(focused_workspace_of(&None), None);
}

#[test]
fn workspace_names_parsing() {
    assert_eq!(workspace_names_of(&ok("1\n \n 2 \nweb\n")), Some(vec!["1".to_string(), "2".to_string(), "web".to_string()]));
    assert_eq!(workspace_names_of(&failed("")), None);
    assert_eq!(workspace_names_of(&None), None);
}

#[test]
fn new_state_knows_nothing() {
    let s = AeroSpaceState::new(10, 50);
    assert!(s.floating_window_ids.is_empty());
    assert!(s.window_workspace.is_empty());
    assert_eq!(s.current_workspace, None);
    assert!(!s.available);
    // the first refresh is forced: the last one counts as a minute ago
    assert!(s.refresh_due(0));
    let slow = AeroSpaceState::new(10, 10_000);
    assert!(!slow.refresh_due(0));
    assert!(slow.refresh_due(40_000));
}

#[test]
fn probe_reply_decides_availability() {
    let mut s = AeroSpaceState::new(10, 50);
    assert!(s.probe_availability(None).is_none());
    assert!(!s.available);
    assert!(s.probe_availability(failed("no server")).is_none());
    assert!(!s.available);
    let job = s.probe_availability(ok("aerospace 0.15"));
    assert!(s.available);
    assert!(matches!(job.unwrap().next_command(), Some(AeroCommand::FocusedWorkspace)));
    assert!(matches!(AeroSpaceState::probe_command(), AeroCommand::Version));
}

#[test]
fn refresh_with_both_listings() {
    let mut s = AeroSpaceState::new(10, 50);
    let job = s.probe_availability(ok("0.15")).unwrap();
    let asked = drive(&mut s, job, &|c| match c {
        AeroCommand::FocusedWorkspace => ok("1\n"),
        AeroCommand::WindowWorkspaceMap => ok("10\t1\n11\t1\n12\t2\n"),
        AeroCommand::TiledWindowIds => ok("10\n12\n"),
        _ => panic!("unexpected query {:?}", c),
    });
    assert_eq!(asked.len(), 3);
    assert_eq!(s.floating_window_ids, ids(&[11]));
    assert_eq!(s.window_workspace.get(&12).map(|x| x.as_str()), Some("2"));
    assert_eq!(s.current_workspace.as_deref(), Some("1"));
    assert!(s.window_matches_current_workspace(10));
    assert!(!s.window_matches_current_workspace(12));
    assert!(s.window_matches_current_workspace(99));
}

#[test]
fn refresh_without_tiling_filter_enumerates_workspaces() {
    let mut s = AeroSpaceState::new(10, 50);
    let job = s.probe_availability(ok("0.15")).unwrap();
    let asked = drive(&mut s, job, &|c| match c {
        AeroCommand::FocusedWorkspace => ok("A\n"),
        AeroCommand::WindowWorkspaceMap => ok("1\tA\n2\tA\n3\tB\n"),
        AeroCommand::TiledWindowIds => failed("Unknown flag"),
        AeroCommand::AllWorkspaces => ok("A\nB\n"),
        AeroCommand::WorkspaceWindows(ws) if ws == "A" => ok("1\n"),
        AeroCommand::WorkspaceWindows(ws) if ws == "B" => ok("3\n"),
        _ => panic!("unexpected query {:?}", c),
    });
    assert_eq!(asked.len(), 6);
    assert_eq!(s.floating_window_ids, ids(&[2]));
    assert_eq!(s.window_workspace.len(), 3);
}

#[test]
fn refresh_without_tagged_listing_uses_plain_listing() {
    let mut s = AeroSpaceState::new(10, 50);
    let job = s.probe_availability(ok("0.15")).unwrap();
    let asked = drive(&mut s, job, &|c| match c {
        AeroCommand::FocusedWorkspace => ok("A\n"),
        AeroCommand::WindowWorkspaceMap => failed("Unknown token %{workspace}"),
        AeroCommand::TiledWindowIds => ok("1\n"),
        AeroCommand::AllWorkspaces => ok("A\n"),
        AeroCommand::WorkspaceWindows(_) => ok("1\n4\n"),
        AeroCommand::AllWindowIds => ok("1\n4\n5\n"),
        _ => panic!("unexpected query {:?}", c),
    });
    assert_eq!(asked.len(), 6);
    // tiled comes from the tiled listing, which answered
    assert_eq!(s.floating_window_ids, ids(&[4, 5]));
    let expect: HashMap<u32, String> = [(1, "A".to_string()), (4, "A".to_string())].into_iter().collect();
    assert_eq!(s.window_workspace, expect);
}

#[test]
fn refresh_when_aerospace_silent_clears_everything() {
    let mut s = AeroSpaceState::new(10, 50);
    let job = s.probe_availability(ok("0.15")).unwrap();
    drive(&mut s, job, &|c| match c {
        AeroCommand::FocusedWorkspace => ok("1\n"),
        AeroCommand::WindowWorkspaceMap => ok("7\t1\n"),
        AeroCommand::TiledWindowIds => ok(""),
        _ => panic!(),
    });
    assert_eq!(s.floating_window_ids, ids(&[7]));
    let job = s.refresh();
    let asked = drive(&mut s, job, &|_| None);
    assert_eq!(asked.len(), 5);
    assert!(s.floating_window_ids.is_empty());
    assert!(s.window_workspace.is_empty());
    assert_eq!(s.current_workspace, None);
}

#[test]
fn workspace_check_fails_open() {
    let s = AeroSpaceState::new(10, 50);
    assert!(s.window_matches_current_workspace(1));
}

#[test]
fn invalidate_forces_refresh() {
    let mut s = AeroSpaceState::new(1000, 1000);
    let job = s.refresh();
    drop(job);
    assert!(s.refresh_if_due().is_none());
    assert!(!s.refresh_due(0));
    s.invalidate();
    assert!(s.refresh_due(0));
    assert!(s.refresh_if_due().is_some());
    assert!(s.refresh_if_due().is_none());
}

#[test]
fn refresh_if_elapsed_follows_the_interval() {
    let mut s = AeroSpaceState::new(10, 100);
    let job = s.refresh();
    drop(job);
    assert!(s.refresh_if_elapsed(999).is_none());
    assert!(s.refresh_if_elapsed(1000).is_some());
    assert!(s.refresh_if_elapsed(0).is_none());
    s.invalidate();
    assert!(s.refresh_if_elapsed(0).is_some());
}

#[test]
fn same_replies_give_same_facts() {
    let answer = |c: &AeroCommand| match c {
        AeroCommand::FocusedWorkspace => ok("1\n"),
        AeroCommand::WindowWorkspaceMap => ok("10\t1\n11\t2\n"),
        AeroCommand::TiledWindowIds => ok("10\n"),
        _ => None,
    };
    let mut s = AeroSpaceState::new(10, 50);
    let job = s.probe_availability(ok("0.15")).unwrap();
    drive(&mut s, job, &answer);
    let once = (s.floating_window_ids.clone(), s.window_workspace.clone(), s.current_workspace.clone());
    let job = s.refresh();
    drive(&mut s, job, &answer);
    assert_eq!((s.floating_window_ids.clone(), s.window_workspace.clone(), s.current_workspace.clone()), once);
}
