//! The configuration that a node starts from, and its validation.
use vstd::prelude::*;

use crate::target::{NodeData, TargetGroup};
use crate::text::str_eq;

verus! {

/// The local node's identity and timing.
#[derive(Debug)]
pub struct LocalNodeData {
    pub public_key: String,
    pub secret_key: [u8; 32],
    pub push_debounce_millisecs: u64,
    pub loop_debounce_millisecs: u64,
}

/// The local identity, the node directory and the target groups.
#[derive(Debug)]
pub struct Config {
    pub local: LocalNodeData,
    pub nodes: Vec<NodeData>,
    pub target_groups: Vec<TargetGroup>,
}

/// Why a configuration is refused.
#[derive(Debug, Clone, Copy, PartialEq, Eq, Structural)]
pub enum ConfigError {
    /// Two nodes share a name.
    DuplicateNodeName,
    /// Two target groups share a name.
    DuplicateGroupName,
    /// Two target groups share a path.
    DuplicateGroupPath,
}

/// Whether two distinct nodes share a name.
pub open spec fn has_duplicate_node_name(nodes: Seq<NodeData>) -> bool {
    exists|i: int, j: int|
        0 <= i < nodes.len() && 0 <= j < nodes.len() && i != j && #[trigger] nodes[i].name@
            == #[trigger] nodes[j].name@
}

/// Whether two distinct groups share a name.
pub open spec fn has_duplicate_group_name(groups: Seq<TargetGroup>) -> bool {
    exists|i: int, j: int|
        0 <= i < groups.len() && 0 <= j < groups.len() && i != j && #[trigger] groups[i].name@
            == #[trigger] groups[j].name@
}

/// Whether two distinct groups share a path.
pub open spec fn has_duplicate_group_path(groups: Seq<TargetGroup>) -> bool {
    exists|i: int, j: int|
        0 <= i < groups.len() && 0 <= j < groups.len() && i != j && #[trigger] groups[i].path@
            == #[trigger] groups[j].path@
}

/// The outcome of validating a configuration: node names, then group names, then group
/// paths must be unique.
pub open spec fn validation(conf: Config) -> Result<(), ConfigError> {
    if has_duplicate_node_name(conf.nodes@) {
        Err(ConfigError::DuplicateNodeName)
    } else if has_duplicate_group_name(conf.target_groups@) {
        Err(ConfigError::DuplicateGroupName)
    } else if has_duplicate_group_path(conf.target_groups@) {
        Err(ConfigError::DuplicateGroupPath)
    } else {
        Ok(())
    }
}

fn duplicate_node_name(nodes: &Vec<NodeData>) -> (r: bool)
    ensures
        r == has_duplicate_node_name(nodes@),
{
    let mut i: usize = 0;
    while i < nodes.len()
        invariant
            i <= nodes@.len(),
            forall|a: int, b: int|
                0 <= a < i && 0 <= b < nodes@.len() && a != b ==> #[trigger] nodes@[a].name@
                    != #[trigger] nodes@[b].name@,
        decreases nodes@.len() - i,
    {
        let mut j: usize = 0;
        while j < nodes.len()
            invariant
                i < nodes@.len(),
                j <= nodes@.len(),
                forall|a: int, b: int|
                    0 <= a < i && 0 <= b < nodes@.len() && a != b ==> #[trigger] nodes@[a].name@
                        != #[trigger] nodes@[b].name@,
                forall|b: int| 0 <= b < j && b != i ==> nodes@[i as int].name@ != #[trigger] nodes@[b].name@,
            decreases nodes@.len() - j,
        {
            if i != j && str_eq(&nodes[i].name, &nodes[j].name) {
                return true;
            }
            j = j + 1;
        }
        i = i + 1;
    }
    false
}

fn duplicate_group_name(groups: &Vec<TargetGroup>) -> (r: bool)
    ensures
        r == has_duplicate_group_name(groups@),
{
    let mut i: usize = 0;
    while i < groups.len()
        invariant
            i <= groups@.len(),
            forall|a: int, b: int|
                0 <= a < i && 0 <= b < groups@.len() && a != b ==> #[trigger] groups@[a].name@
                    != #[trigger] groups@[b].name@,
        decreases groups@.len() - i,
    {
        let mut j: usize = 0;
        while j < groups.len()
            invariant
                i < groups@.len(),
                j <= groups@.len(),
                forall|a: int, b: int|
                    0 <= a < i && 0 <= b < groups@.len() && a != b ==> #[trigger] groups@[a].name@
                        != #[trigger] groups@[b].name@,
                forall|b: int| 0 <= b < j && b != i ==> groups@[i as int].name@ != #[trigger] groups@[b].name@,
            decreases groups@.len() - j,
        {
            if i != j && str_eq(&groups[i].name, &groups[j].name) {
                return true;
            }
            j = j + 1;
        }
        i = i + 1;
    }
    false
}

fn duplicate_group_path(groups: &Vec<TargetGroup>) -> (r: bool)
    ensures
        r == has_duplicate_group_path(groups@),
{
    let mut i: usize = 0;
    while i < groups.len()
        invariant
            i <= groups@.len(),
            forall|a: int, b: int|
                0 <= a < i && 0 <= b < groups@.len() && a != b ==> #[trigger] groups@[a].path@
                    != #[trigger] groups@[b].path@,
        decreases groups@.len() - i,
    {
        let mut j: usize = 0;
        while j < groups.len()
            invariant
                i < groups@.len(),
                j <= groups@.len(),
                forall|a: int, b: int|
                    0 <= a < i && 0 <= b < groups@.len() && a != b ==> #[trigger] groups@[a].path@
                        != #[trigger] groups@[b].path@,
                forall|b: int| 0 <= b < j && b != i ==> groups@[i as int].path@ != #[trigger] groups@[b].path@,
            decreases groups@.len() - j,
        {
            if i != j && str_eq(&groups[i].path, &groups[j].path) {
                return true;
            }
            j = j + 1;
        }
        i = i + 1;
    }
    false
}

/// Checks that node names, group names and group paths are each unique.
pub fn validate_config(conf: &Config) -> (r: Result<(), ConfigError>)
    ensures
        r == validation(*conf),
{
    if duplicate_node_name(&conf.nodes) {
        return Err(ConfigError::DuplicateNodeName);
    }
    if duplicate_group_name(&conf.target_groups) {
        return Err(ConfigError::DuplicateGroupName);
    }
    if duplicate_group_path(&conf.target_groups) {
        return Err(ConfigError::DuplicateGroupPath);
    }
    Ok(())
}

} // verus!
