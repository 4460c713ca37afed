use fsy::config::{validate_config, Config, ConfigError, LocalNodeData};
use fsy::target::{
    get_pull_group_paths, get_pull_group_with_name, get_push_group_paths,
    get_push_group_with_name, get_push_groups_with_path, group_has_node_id, NodeData, Target,
    TargetGroup, TargetMode,
};

fn node(name: &str, id: &str) -> NodeData {
    NodeData { name: name.to_string(), id: id.to_string() }
}

fn group(name: &str, path: &str, targets: &[(TargetMode, &str)]) -> TargetGroup {
    TargetGroup {
        name: name.to_string(),
        path: path.to_string(),
        targets: targets
            .iter()
            .map(|(mode, n)| Target { mode: *mode, node_name: n.to_string() })
            .collect(),
    }
}

fn sample_groups() -> Vec<TargetGroup> {
    vec![
        group("photos", "/home/u/photos", &[(TargetMode::Pull, "alice")]),
        group("docs", "/tmp/docs", &[(TargetMode::Push, "bob"), (TargetMode::Pull, "carol")]),
        group("music", "/srv/music", &[(TargetMode::PushPull, "alice")]),
        group("docs", "/tmp/docs2", &[(TargetMode::Push, "alice")]),
    ]
}

fn sample_nodes() -> Vec<NodeData> {
    vec![node("alice", "idA"), node("bob", "idB"), node("carol", "idC")]
}

#[test]
fn push_and_pull_paths() {
    let groups = sample_groups();
    assert_eq!(get_push_group_paths(&groups), vec!["/tmp/docs", "/srv/music", "/tmp/docs2"]);
    assert_eq!(get_pull_group_paths(&groups), vec!["/home/u/photos", "/tmp/docs", "/srv/music"]);
    assert!(get_push_group_paths(&[]).is_empty());
}

#[test]
fn group_lookup_by_name_and_side() {
    let groups = sample_groups();
    let docs = get_push_group_with_name(&groups, "docs").unwrap();
    assert_eq!(docs.path, "/tmp/docs");
    assert!(get_push_group_with_name(&groups, "photos").is_none());
    assert_eq!(get_pull_group_with_name(&groups, "photos").unwrap().path, "/home/u/photos");
    assert_eq!(get_pull_group_with_name(&groups, "music").unwrap().name, "music");
    assert!(get_pull_group_with_name(&groups, "nothing").is_none());
}

#[test]
fn push_groups_by_path() {
    let groups = sample_groups();
    let found = get_push_groups_with_path(&groups, "/tmp/docs");
    assert_eq!(found.len(), 1);
    assert_eq!(found[0].name, "docs");
    assert_eq!(found[0].targets.len(), 2);
    assert!(get_push_groups_with_path(&groups, "/home/u/photos").is_empty());
    assert!(get_push_groups_with_path(&groups, "/tmp/doc").is_empty());
}

#[test]
fn node_ids_by_mode() {
    let groups = sample_groups();
    let nodes = sample_nodes();
    let docs = &groups[1];
    assert_eq!(docs.get_node_ids(&nodes, &[TargetMode::Push, TargetMode::PushPull]), vec!["idB"]);
    assert_eq!(docs.get_node_ids(&nodes, &[TargetMode::Pull]), vec!["idC"]);
    assert!(docs.get_node_ids(&nodes, &[]).is_empty());
    assert!(docs.get_node_ids(&[], &[TargetMode::Push]).is_empty());
}

#[test]
fn group_membership_by_id() {
    let groups = sample_groups();
    let nodes = sample_nodes();
    assert!(group_has_node_id(&groups[1], &nodes, "idB"));
    assert!(group_has_node_id(&groups[1], &nodes, "idC"));
    assert!(!group_has_node_id(&groups[1], &nodes, "idA"));
    assert!(!group_has_node_id(&groups[1], &nodes, "idZ"));
}

fn config(nodes: Vec<NodeData>, target_groups: Vec<TargetGroup>) -> Config {
    Config {
        local: LocalNodeData {
            public_key: "pk".to_string(),
            secret_key: [7u8; 32],
            push_debounce_millisecs: 500,
            loop_debounce_millisecs: 250,
        },
        nodes,
        target_groups,
    }
}

#[test]
fn config_validation() {
    let ok = config(sample_nodes(), vec![group("a", "/a", &[]), group("b", "/b", &[])]);
    assert_eq!(validate_config(&ok), Ok(()));

    let dup_node = config(vec![node("alice", "1"), node("alice", "2")], vec![]);
    assert_eq!(validate_config(&dup_node), Err(ConfigError::DuplicateNodeName));

    let dup_name = config(sample_nodes(), vec![group("a", "/a", &[]), group("a", "/b", &[])]);
    assert_eq!(validate_config(&dup_name), Err(ConfigError::DuplicateGroupName));

    let dup_path = config(sample_nodes(), vec![group("a", "/a", &[]), group("b", "/a", &[])]);
    assert_eq!(validate_config(&dup_path), Err(ConfigError::DuplicateGroupPath));

    assert_eq!(validate_config(&config(vec![], vec![])), Ok(()));
}
