use fsy::action::CommAction;
use fsy::handler::{plan_action, ticket_reply, Effect};
use fsy::lifecycle::ShutdownLatch;
use fsy::path_watcher::{
    changed_target_actions, get_push_targets_with_file, get_target_locked_path, join_relative,
    ChangedTarget,
};
use fsy::sync_watcher::SyncProcess;
use fsy::target::{NodeData, Target, TargetGroup, TargetMode};

fn s(x: &str) -> String {
    x.to_string()
}

fn node(name: &str, id: &str) -> NodeData {
    NodeData { name: s(name), id: s(id) }
}

fn group(name: &str, path: &str, targets: &[(TargetMode, &str)]) -> TargetGroup {
    TargetGroup {
        name: s(name),
        path: s(path),
        targets: targets
            .iter()
            .map(|(mode, n)| Target { mode: *mode, node_name: s(n) })
            .collect(),
    }
}

fn changed(base: &str, rel: &str) -> ChangedTarget {
    ChangedTarget { base_path: s(base), relative_path: s(rel) }
}

#[test]
fn target_has_changed_requests_the_file() {
    let groups = vec![group("photos", "/p", &[(TargetMode::Pull, "a")])];
    let nodes = vec![node("a", "nodeA")];
    let action = CommAction::TargetHasChanged(s("nodeA"), s("photos"), s("a.jpg"));
    match plan_action(&groups, &nodes, &action) {
        Effect::Enqueue(follow) => {
            assert_eq!(follow, vec![CommAction::SendMessage(s("nodeA"), s("3]]::photos;a.jpg"))]);
        }
        other => panic!("unexpected {:?}", other),
    }
    let stranger = CommAction::TargetHasChanged(s("nodeZ"), s("photos"), s("a.jpg"));
    assert!(matches!(plan_action(&groups, &nodes, &stranger), Effect::Nothing));
    let unknown_group = CommAction::TargetHasChanged(s("nodeA"), s("other"), s("a.jpg"));
    assert!(matches!(plan_action(&groups, &nodes, &unknown_group), Effect::Nothing));
}

#[test]
fn request_target_publishes_a_ticket() {
    let groups = vec![group("docs", "/tmp/docs", &[(TargetMode::Push, "c")])];
    let nodes = vec![node("c", "nodeC")];
    let action = CommAction::RequestTarget(s("nodeC"), s("docs"), s("x.txt"));
    match plan_action(&groups, &nodes, &action) {
        Effect::PublishTicket { path, peer_id, group_name, relative_path } => {
            assert_eq!(path, "/tmp/docs/x.txt");
            let reply = ticket_reply(&peer_id, &group_name, &relative_path, "tk-9");
            assert_eq!(reply, CommAction::SendMessage(s("nodeC"), s("4]]::docs;x.txt;tk-9")));
        }
        other => panic!("unexpected {:?}", other),
    }
    let pull_only = vec![group("docs", "/tmp/docs", &[(TargetMode::Pull, "c")])];
    assert!(matches!(plan_action(&pull_only, &nodes, &action), Effect::Nothing));
}

#[test]
fn download_by_unauthorized_peer_is_dropped() {
    let groups = vec![group("docs", "/tmp/docs", &[(TargetMode::Pull, "a")])];
    let nodes = vec![node("a", "nodeA"), node("z", "nodeZ")];
    let action = CommAction::DownloadTarget(s("nodeZ"), s("docs"), s("x.txt"), s("tk-1"));
    assert!(matches!(plan_action(&groups, &nodes, &action), Effect::Nothing));
}

#[test]
fn download_by_listed_peer_is_guarded_by_lock() {
    let groups = vec![group("docs", "/tmp/docs/", &[(TargetMode::PushPull, "a")])];
    let nodes = vec![node("a", "nodeA")];
    let action = CommAction::DownloadTarget(s("nodeA"), s("docs"), s("sub/x.txt"), s("tk-1"));
    match plan_action(&groups, &nodes, &action) {
        Effect::Download { ticket, dest, lock } => {
            assert_eq!(ticket, "tk-1");
            assert_eq!(dest, "/tmp/docs/sub/x.txt");
            assert_eq!(lock, "/tmp/docs/sub/x.txt.fsy.lock");
        }
        other => panic!("unexpected {:?}", other),
    }
}

#[test]
fn other_actions_do_nothing_or_send() {
    let groups: Vec<TargetGroup> = vec![];
    let nodes: Vec<NodeData> = vec![];
    let send = CommAction::SendMessage(s("n"), s("2]]::g;r"));
    match plan_action(&groups, &nodes, &send) {
        Effect::Send(to, payload) => {
            assert_eq!(to, "n");
            assert_eq!(payload, "2]]::g;r");
        }
        other => panic!("unexpected {:?}", other),
    }
    for action in [
        CommAction::Unknown,
        CommAction::DownloadDone(s("n"), s("tk")),
        CommAction::RequestTargetTimestamp(s("n"), s("g")),
        CommAction::TargetTimestamp(s("n"), s("g"), 5),
    ] {
        assert!(matches!(plan_action(&groups, &nodes, &action), Effect::Nothing));
    }
}

#[test]
fn changed_paths_under_push_paths() {
    let paths = vec![s("/tmp/docs"), s("/tmp/doc"), s("/tmp/f.txt"), s("/srv/")];
    let found = get_push_targets_with_file(&paths, "/tmp/docs/a/b.txt");
    assert_eq!(found.len(), 1);
    assert_eq!(found[0].base_path, "/tmp/docs");
    assert_eq!(found[0].relative_path, "a/b.txt");

    let file = get_push_targets_with_file(&paths, "/tmp/f.txt");
    assert_eq!(file.len(), 1);
    assert_eq!(file[0].relative_path, "");

    let trailing = get_push_targets_with_file(&paths, "/srv/x");
    assert_eq!(trailing.len(), 1);
    assert_eq!(trailing[0].relative_path, "x");

    assert!(get_push_targets_with_file(&paths, "/tmp/docsx/a").is_empty());
    assert!(get_push_targets_with_file(&paths, "/elsewhere").is_empty());
}

#[test]
fn joins_and_lock_markers() {
    assert_eq!(join_relative("/tmp/docs", "x.txt"), "/tmp/docs/x.txt");
    assert_eq!(join_relative("/tmp/docs/", "x.txt"), "/tmp/docs/x.txt");
    assert_eq!(join_relative("/tmp/f.txt", ""), "/tmp/f.txt");
    assert_eq!(get_target_locked_path("/tmp/f.txt"), "/tmp/f.txt.fsy.lock");
    assert_eq!(changed("/tmp/docs", "a.txt").lock_marker_path(), "/tmp/docs/a.txt.fsy.lock");
    assert_eq!(changed("/tmp/f.txt", "").lock_marker_path(), "/tmp/f.txt.fsy.lock");
}

#[test]
fn lock_marker_suppresses_push() {
    let groups = vec![
        group("docs", "/tmp/docs", &[(TargetMode::Push, "b"), (TargetMode::PushPull, "c"), (TargetMode::Pull, "a")]),
        group("mirror", "/tmp/docs", &[(TargetMode::Push, "a")]),
        group("other", "/other", &[(TargetMode::Push, "a")]),
    ];
    let nodes = vec![node("a", "idA"), node("b", "idB"), node("c", "idC")];
    let change = changed("/tmp/docs", "x.txt");
    assert!(changed_target_actions(&groups, &nodes, &change, true).is_empty());
    let actions = changed_target_actions(&groups, &nodes, &change, false);
    assert_eq!(
        actions,
        vec![
            CommAction::SendMessage(s("idB"), s("2]]::docs;x.txt")),
            CommAction::SendMessage(s("idC"), s("2]]::docs;x.txt")),
            CommAction::SendMessage(s("idA"), s("2]]::mirror;x.txt")),
        ]
    );
}

#[test]
fn sync_process_watches_push_paths() {
    let groups = vec![
        group("docs", "/tmp/docs", &[(TargetMode::Push, "b")]),
        group("in", "/tmp/in", &[(TargetMode::Pull, "b")]),
    ];
    let nodes = vec![node("b", "idB")];
    let process = SyncProcess::new(groups, nodes);
    assert_eq!(process.get_paths_to_watch(), vec!["/tmp/docs"]);
    assert_eq!(
        process.get_changed_path_actions("/tmp/docs"),
        Some(vec![CommAction::SendMessage(s("idB"), s("2]]::docs;"))])
    );
    assert_eq!(process.get_changed_path_actions("/tmp/in"), None);
}

#[test]
fn closing_twice_tears_down_once() {
    let mut latch = ShutdownLatch::new();
    assert!(latch.close());
    assert!(!latch.close());
    assert!(latch.closed);
}
