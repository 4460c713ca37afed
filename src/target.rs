//! The target registry: the configured nodes and target groups, with lookups by side, name
//! and path.
use vstd::prelude::*;

use crate::text::{str_eq, str_eq_slice};

verus! {

/// A peer node: a label unique within the configuration and the transport's node id.
#[derive(Debug)]
pub struct NodeData {
    pub name: String,
    pub id: String,
}

/// The direction of a group's relation to a peer.
#[derive(Debug, Clone, Copy, PartialEq, Eq, Structural)]
pub enum TargetMode {
    Push,
    PushPull,
    Pull,
}

/// One relation from a group to a peer, named by the peer's label.
#[derive(Debug)]
pub struct Target {
    pub mode: TargetMode,
    pub node_name: String,
}

/// A named local file or directory with the peers it is kept in sync with.
#[derive(Debug)]
pub struct TargetGroup {
    pub name: String,
    pub path: String,
    pub targets: Vec<Target>,
}

pub struct NodeView {
    pub name: Seq<char>,
    pub id: Seq<char>,
}

pub struct TargetView {
    pub mode: TargetMode,
    pub node_name: Seq<char>,
}

pub struct GroupView {
    pub name: Seq<char>,
    pub path: Seq<char>,
    pub targets: Seq<TargetView>,
}

impl View for NodeData {
    type V = NodeView;

    open spec fn view(&self) -> NodeView {
        NodeView { name: self.name@, id: self.id@ }
    }
}

impl View for Target {
    type V = TargetView;

    open spec fn view(&self) -> TargetView {
        TargetView { mode: self.mode, node_name: self.node_name@ }
    }
}

impl View for TargetGroup {
    type V = GroupView;

    open spec fn view(&self) -> GroupView {
        GroupView {
            name: self.name@,
            path: self.path@,
            targets: targets_view(self.targets@),
        }
    }
}

/// The views of a sequence of targets.
pub open spec fn targets_view(v: Seq<Target>) -> Seq<TargetView> {
    v.map_values(|t: Target| t@)
}

impl Clone for NodeData {
    fn clone(&self) -> (r: Self)
        ensures
            r@ == self@,
    {
        NodeData { name: self.name.clone(), id: self.id.clone() }
    }
}

impl Clone for Target {
    fn clone(&self) -> (r: Self)
        ensures
            r@ == self@,
    {
        Target { mode: self.mode, node_name: self.node_name.clone() }
    }
}

impl Clone for TargetGroup {
    fn clone(&self) -> (r: Self)
        ensures
            r@ == self@,
    {
        let mut targets: Vec<Target> = Vec::new();
        let mut i: usize = 0;
        while i < self.targets.len()
            invariant
                i <= self.targets@.len(),
                targets_view(targets@) == targets_view(self.targets@.subrange(0, i as int)),
            decreases self.targets@.len() - i,
        {
            let ghost prev = targets@;
            let t = self.targets[i].clone();
            targets.push(t);
            assert(targets_view(targets@) =~= targets_view(prev).push(self.targets@[i as int]@));
            assert(targets_view(self.targets@.subrange(0, i + 1)) =~= targets_view(
                self.targets@.subrange(0, i as int),
            ).push(self.targets@[i as int]@));
            i = i + 1;
        }
        assert(self.targets@.subrange(0, i as int) =~= self.targets@);
        TargetGroup { name: self.name.clone(), path: self.path.clone(), targets }
    }
}

/// Whether a mode sends changes out.
pub open spec fn is_push_mode(m: TargetMode) -> bool {
    m == TargetMode::Push || m == TargetMode::PushPull
}

/// Whether a mode accepts changes in.
pub open spec fn is_pull_mode(m: TargetMode) -> bool {
    m == TargetMode::Pull || m == TargetMode::PushPull
}

/// Whether a mode takes part on the push side (`push`) or on the pull side (`!push`).
pub open spec fn on_side(m: TargetMode, push: bool) -> bool {
    if push {
        is_push_mode(m)
    } else {
        is_pull_mode(m)
    }
}

impl GroupView {
    /// Whether the group has a target on the given side.
    pub open spec fn has_side(self, push: bool) -> bool {
        exists|k: int| 0 <= k < self.targets.len() && on_side(#[trigger] self.targets[k].mode, push)
    }

    /// Whether the group has a push or push-pull target.
    pub open spec fn is_push_group(self) -> bool {
        self.has_side(true)
    }

    /// Whether the group has a pull or push-pull target.
    pub open spec fn is_pull_group(self) -> bool {
        self.has_side(false)
    }

    /// Whether the group lists a target whose peer label is `name`, in any mode.
    pub open spec fn lists_node(self, name: Seq<char>) -> bool {
        exists|k: int| 0 <= k < self.targets.len() && #[trigger] self.targets[k].node_name == name
    }

    /// Whether the group lists the peer labelled `name` in one of `modes`.
    pub open spec fn lists_node_in(self, name: Seq<char>, modes: Seq<TargetMode>) -> bool {
        exists|k: int|
            0 <= k < self.targets.len() && modes.contains(#[trigger] self.targets[k].mode)
                && self.targets[k].node_name == name
    }
}

/// The views of a sequence of strings.
pub open spec fn texts(v: Seq<String>) -> Seq<Seq<char>> {
    v.map_values(|s: String| s@)
}

/// The views of a sequence of groups.
pub open spec fn groups_view(v: Seq<TargetGroup>) -> Seq<GroupView> {
    v.map_values(|g: TargetGroup| g@)
}

/// The ids of the nodes, in directory order, that the group lists in one of `modes`.
pub open spec fn node_ids_in(g: GroupView, nodes: Seq<NodeData>, modes: Seq<TargetMode>) -> Seq<
    Seq<char>,
>
    decreases nodes.len(),
{
    if nodes.len() == 0 {
        Seq::empty()
    } else {
        let rest = node_ids_in(g, nodes.drop_last(), modes);
        if g.lists_node_in(nodes.last().name@, modes) {
            rest.push(nodes.last().id@)
        } else {
            rest
        }
    }
}

/// The paths of the groups on the given side, in order.
pub open spec fn side_paths(gs: Seq<TargetGroup>, push: bool) -> Seq<Seq<char>>
    decreases gs.len(),
{
    if gs.len() == 0 {
        Seq::empty()
    } else {
        let rest = side_paths(gs.drop_last(), push);
        if gs.last()@.has_side(push) {
            rest.push(gs.last().path@)
        } else {
            rest
        }
    }
}

/// The push groups whose path is `path`, in order.
pub open spec fn push_groups_at(gs: Seq<TargetGroup>, path: Seq<char>) -> Seq<GroupView>
    decreases gs.len(),
{
    if gs.len() == 0 {
        Seq::empty()
    } else {
        let rest = push_groups_at(gs.drop_last(), path);
        if gs.last()@.is_push_group() && gs.last().path@ == path {
            rest.push(gs.last()@)
        } else {
            rest
        }
    }
}

/// Whether `g` is the group named `name` on the given side.
pub open spec fn is_named_on_side(g: GroupView, name: Seq<char>, push: bool) -> bool {
    g.has_side(push) && g.name == name
}

/// The first group named `name` on the given side, if any.
pub open spec fn first_named(gs: Seq<TargetGroup>, name: Seq<char>, push: bool) -> Option<
    GroupView,
> {
    if exists|i: int| 0 <= i < gs.len() && is_named_on_side(#[trigger] gs[i]@, name, push) {
        let i = choose|i: int|
            0 <= i < gs.len() && is_named_on_side(#[trigger] gs[i]@, name, push) && forall|j: int|
                0 <= j < i ==> !is_named_on_side(#[trigger] gs[j]@, name, push);
        Some(gs[i]@)
    } else {
        None
    }
}

fn has_side(group: &TargetGroup, push: bool) -> (r: bool)
    ensures
        r == group@.has_side(push),
{
    let mut k: usize = 0;
    while k < group.targets.len()
        invariant
            k <= group.targets@.len(),
            forall|j: int| 0 <= j < k ==> !on_side(#[trigger] group@.targets[j].mode, push),
        decreases group.targets@.len() - k,
    {
        let m = group.targets[k].mode;
        let found = if push {
            m == TargetMode::Push || m == TargetMode::PushPull
        } else {
            m == TargetMode::Pull || m == TargetMode::PushPull
        };
        if found {
            assert(group@.targets[k as int].mode == m);
            return true;
        }
        k = k + 1;
    }
    false
}

fn mode_listed(modes: &[TargetMode], m: TargetMode) -> (r: bool)
    ensures
        r == modes@.contains(m),
{
    let mut i: usize = 0;
    while i < modes.len()
        invariant
            i <= modes@.len(),
            forall|j: int| 0 <= j < i ==> modes@[j] != m,
        decreases modes@.len() - i,
    {
        if modes[i] == m {
            return true;
        }
        i = i + 1;
    }
    false
}

fn lists_node_in(group: &TargetGroup, name: &String, modes: &[TargetMode]) -> (r: bool)
    ensures
        r == group@.lists_node_in(name@, modes@),
{
    let mut k: usize = 0;
    while k < group.targets.len()
        invariant
            k <= group.targets@.len(),
            forall|j: int|
                0 <= j < k ==> !(modes@.contains(#[trigger] group@.targets[j].mode)
                    && group@.targets[j].node_name == name@),
        decreases group.targets@.len() - k,
    {
        let t = &group.targets[k];
        if mode_listed(modes, t.mode) && str_eq(&t.node_name, name) {
            assert(group@.targets[k as int] == t@);
            assert(modes@.contains(group@.targets[k as int].mode) && group@.targets[k as int].node_name
                == name@);
            return true;
        }
        k = k + 1;
    }
    false
}

impl TargetGroup {
    /// The ids of the directory's nodes, in directory order, that the group lists in one of
    /// `modes`.
    pub fn get_node_ids(&self, nodes: &[NodeData], modes: &[TargetMode]) -> (r: Vec<String>)
        ensures
            texts(r@) == node_ids_in(self@, nodes@, modes@),
    {
        let mut ids: Vec<String> = Vec::new();
        let mut i: usize = 0;
        while i < nodes.len()
            invariant
                i <= nodes@.len(),
                texts(ids@) == node_ids_in(self@, nodes@.subrange(0, i as int), modes@),
            decreases nodes@.len() - i,
        {
            let ghost prev = ids@;
            let node = &nodes[i];
            let ghost upto = nodes@.subrange(0, i + 1);
            assert(upto.drop_last() =~= nodes@.subrange(0, i as int));
            if lists_node_in(self, &node.name, modes) {
                ids.push(node.id.clone());
                assert(texts(ids@) =~= texts(prev).push(node.id@));
            }
            i = i + 1;
        }
        assert(nodes@.subrange(0, i as int) =~= nodes@);
        ids
    }
}

fn side_group_paths(groups: &[TargetGroup], push: bool) -> (r: Vec<String>)
    ensures
        texts(r@) == side_paths(groups@, push),
{
    let mut paths: Vec<String> = Vec::new();
    let mut i: usize = 0;
    while i < groups.len()
        invariant
            i <= groups@.len(),
            texts(paths@) == side_paths(groups@.subrange(0, i as int), push),
        decreases groups@.len() - i,
    {
        let ghost prev = paths@;
        let g = &groups[i];
        let ghost upto = groups@.subrange(0, i + 1);
        assert(upto.drop_last() =~= groups@.subrange(0, i as int));
        if has_side(g, push) {
            paths.push(g.path.clone());
            assert(texts(paths@) =~= texts(prev).push(g.path@));
        }
        i = i + 1;
    }
    assert(groups@.subrange(0, i as int) =~= groups@);
    paths
}

/// The paths of the push groups, in order.
pub fn get_push_group_paths(groups: &[TargetGroup]) -> (r: Vec<String>)
    ensures
        texts(r@) == side_paths(groups@, true),
{
    side_group_paths(groups, true)
}

/// The paths of the pull groups, in order.
pub fn get_pull_group_paths(groups: &[TargetGroup]) -> (r: Vec<String>)
    ensures
        texts(r@) == side_paths(groups@, false),
{
    side_group_paths(groups, false)
}

/// The push groups whose path is `file_path`, in order.
pub fn get_push_groups_with_path(groups: &[TargetGroup], file_path: &str) -> (r: Vec<TargetGroup>)
    ensures
        groups_view(r@) == push_groups_at(groups@, file_path@),
{
    let mut found: Vec<TargetGroup> = Vec::new();
    let mut i: usize = 0;
    while i < groups.len()
        invariant
            i <= groups@.len(),
            groups_view(found@) == push_groups_at(groups@.subrange(0, i as int), file_path@),
        decreases groups@.len() - i,
    {
        let ghost prev = found@;
        let g = &groups[i];
        let ghost upto = groups@.subrange(0, i + 1);
        assert(upto.drop_last() =~= groups@.subrange(0, i as int));
        if has_side(g, true) && str_eq_slice(&g.path, file_path) {
            let c = g.clone();
            found.push(c);
            assert(groups_view(found@) =~= groups_view(prev).push(g@));
        }
        i = i + 1;
    }
    assert(groups@.subrange(0, i as int) =~= groups@);
    found
}

fn side_group_with_name(groups: &[TargetGroup], name: &str, push: bool) -> (r: Option<
    TargetGroup,
>)
    ensures
        match r {
            Some(g) => first_named(groups@, name@, push) == Some(g@),
            None => first_named(groups@, name@, push) is None,
        },
{
    let mut i: usize = 0;
    while i < groups.len()
        invariant
            i <= groups@.len(),
            forall|j: int| 0 <= j < i ==> !is_named_on_side(#[trigger] groups@[j]@, name@, push),
        decreases groups@.len() - i,
    {
        let g = &groups[i];
        if has_side(g, push) && str_eq_slice(&g.name, name) {
            let ghost gs = groups@;
            assert(is_named_on_side(gs[i as int]@, name@, push));
            let ghost c = choose|c: int|
                0 <= c < gs.len() && is_named_on_side(#[trigger] gs[c]@, name@, push) && forall|
                    j: int,
                | 0 <= j < c ==> !is_named_on_side(#[trigger] gs[j]@, name@, push);
            assert(c == i) by {
                if c < i {
                } else if c > i {
                    assert(!is_named_on_side(gs[i as int]@, name@, push));
                }
            }
            return Some(g.clone());
        }
        i = i + 1;
    }
    None
}

/// The first push group named `name`, if any.
pub fn get_push_group_with_name(groups: &[TargetGroup], name: &str) -> (r: Option<TargetGroup>)
    ensures
        match r {
            Some(g) => first_named(groups@, name@, true) == Some(g@),
            None => first_named(groups@, name@, true) is None,
        },
{
    side_group_with_name(groups, name, true)
}

/// The first pull group named `name`, if any.
pub fn get_pull_group_with_name(groups: &[TargetGroup], name: &str) -> (r: Option<TargetGroup>)
    ensures
        match r {
            Some(g) => first_named(groups@, name@, false) == Some(g@),
            None => first_named(groups@, name@, false) is None,
        },
{
    side_group_with_name(groups, name, false)
}

/// Whether the directory holds a node with id `node_id` whose label the group lists, in
/// any mode.
pub open spec fn group_lists_id(group: GroupView, nodes: Seq<NodeData>, node_id: Seq<char>) -> bool {
    exists|j: int| 0 <= j < nodes.len() && #[trigger] nodes[j].id@ == node_id && group.lists_node(
        nodes[j].name@,
    )
}

fn lists_node(group: &TargetGroup, name: &String) -> (r: bool)
    ensures
        r == group@.lists_node(name@),
{
    let mut k: usize = 0;
    while k < group.targets.len()
        invariant
            k <= group.targets@.len(),
            forall|j: int| 0 <= j < k ==> #[trigger] group@.targets[j].node_name != name@,
        decreases group.targets@.len() - k,
    {
        if str_eq(&group.targets[k].node_name, name) {
            assert(group@.targets[k as int] == group.targets@[k as int]@);
            assert(group@.targets[k as int].node_name == name@);
            return true;
        }
        k = k + 1;
    }
    false
}

/// Whether `node_id` belongs to a node that the group lists.
pub fn group_has_node_id(group: &TargetGroup, nodes: &[NodeData], node_id: &str) -> (r: bool)
    ensures
        r == group_lists_id(group@, nodes@, node_id@),
{
    let mut i: usize = 0;
    while i < nodes.len()
        invariant
            i <= nodes@.len(),
            forall|j: int|
                0 <= j < i ==> !(#[trigger] nodes@[j].id@ == node_id@ && group@.lists_node(
                    nodes@[j].name@,
                )),
        decreases nodes@.len() - i,
    {
        let node = &nodes[i];
        if str_eq_slice(&node.id, node_id) && lists_node(group, &node.name) {
            return true;
        }
        i = i + 1;
    }
    false
}

} // verus!
