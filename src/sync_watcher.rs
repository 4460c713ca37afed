//! The push side of a set of groups: which paths to watch and what a change at one of them
//! announces.
use vstd::prelude::*;

use crate::action::CommAction;
use crate::path_watcher::{actions_view, changed_target_actions, push_actions_for, ChangedTarget, ChangedView};
use crate::target::{get_push_group_paths, side_paths, texts, NodeData, TargetGroup};

verus! {

/// The groups and the node directory that a watcher works from.
pub struct SyncProcess {
    syncs: Vec<TargetGroup>,
    nodes: Vec<NodeData>,
}

impl SyncProcess {
    /// The groups.
    pub closed spec fn groups(&self) -> Seq<TargetGroup> {
        self.syncs@
    }

    /// The node directory.
    pub closed spec fn directory(&self) -> Seq<NodeData> {
        self.nodes@
    }

    pub fn new(syncs: Vec<TargetGroup>, nodes: Vec<NodeData>) -> (r: Self)
        ensures
            r.groups() == syncs@,
            r.directory() == nodes@,
    {
        SyncProcess { syncs, nodes }
    }

    /// The paths of the push groups, in order: the paths to watch.
    pub fn get_paths_to_watch(&self) -> (r: Vec<String>)
        ensures
            texts(r@) == side_paths(self.groups(), true),
    {
        get_push_group_paths(self.syncs.as_slice())
    }

    /// The announcements of a change of the base path `changed_path` itself; `None` when no
    /// push peer is to be told.
    pub fn get_changed_path_actions(&self, changed_path: &str) -> (r: Option<Vec<CommAction>>)
        ensures
            ({
                let expected = push_actions_for(
                    self.groups(),
                    self.directory(),
                    ChangedView { base_path: changed_path@, relative_path: Seq::empty() },
                    false,
                );
                match r {
                    Some(v) => expected.len() > 0 && actions_view(v@) == expected,
                    None => expected.len() == 0,
                }
            }),
    {
        let changed = ChangedTarget {
            base_path: changed_path.to_owned(),
            relative_path: String::new(),
        };
        let actions = changed_target_actions(
            self.syncs.as_slice(),
            self.nodes.as_slice(),
            &changed,
            false,
        );
        if actions.len() > 0 {
            Some(actions)
        } else {
            None
        }
    }
}

} // verus!
