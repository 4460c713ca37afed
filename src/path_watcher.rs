//! What a change on disk means for the push groups: which watched base paths a changed path
//! falls under, where an incoming file lands, where its lock marker lies, and which actions
//! announce a change to the peers.
use vstd::prelude::*;

use crate::action::{send_form, ActionView, CommAction};
use crate::target::{
    get_push_groups_with_path, groups_view, node_ids_in, push_groups_at, texts, GroupView,
    NodeData, TargetGroup, TargetMode,
};
use crate::text::{occurs_at, starts_with_text, str_eq_slice};

verus! {

/// A change under a watched base path; `relative_path` is empty when the base path itself
/// changed.
#[derive(Debug)]
pub struct ChangedTarget {
    pub base_path: String,
    pub relative_path: String,
}

pub struct ChangedView {
    pub base_path: Seq<char>,
    pub relative_path: Seq<char>,
}

impl View for ChangedTarget {
    type V = ChangedView;

    open spec fn view(&self) -> ChangedView {
        ChangedView { base_path: self.base_path@, relative_path: self.relative_path@ }
    }
}

impl Clone for ChangedTarget {
    fn clone(&self) -> (r: Self)
        ensures
            r@ == self@,
    {
        ChangedTarget {
            base_path: self.base_path.clone(),
            relative_path: self.relative_path.clone(),
        }
    }
}

/// The path below `base` that `p` names, when `p` lies strictly under the directory `base`:
/// `base` must be followed in `p` by a `/` (or end with one itself) and by a non-empty rest.
pub open spec fn relative_under(p: Seq<char>, base: Seq<char>) -> Option<Seq<char>> {
    if base.len() > 0 && base.last() == '/' {
        if occurs_at(p, base, 0) && p.len() > base.len() {
            Some(p.subrange(base.len() as int, p.len() as int))
        } else {
            None
        }
    } else if occurs_at(p, base, 0) && p.len() > base.len() + 1 && p[base.len() as int] == '/' {
        Some(p.subrange(base.len() + 1int, p.len() as int))
    } else {
        None
    }
}

/// The change records of a changed path `p` against the watched base paths, in order.
pub open spec fn changes_for(bases: Seq<Seq<char>>, p: Seq<char>) -> Seq<ChangedView>
    decreases bases.len(),
{
    if bases.len() == 0 {
        Seq::empty()
    } else {
        let rest = changes_for(bases.drop_last(), p);
        let base = bases.last();
        if p == base {
            rest.push(ChangedView { base_path: base, relative_path: Seq::empty() })
        } else {
            match relative_under(p, base) {
                Some(rel) => rest.push(ChangedView { base_path: base, relative_path: rel }),
                None => rest,
            }
        }
    }
}

/// The views of a sequence of change records.
pub open spec fn changes_view(v: Seq<ChangedTarget>) -> Seq<ChangedView> {
    v.map_values(|c: ChangedTarget| c@)
}

fn slash_str() -> (r: &'static str)
    ensures
        r@ == seq!['/'],
{
    proof { reveal_strlit("/"); }
    "/"
}

/// The path below `base_path` that `file_path` names, when it lies strictly under it.
fn relative_to(file_path: &str, base_path: &String) -> (r: Option<String>)
    ensures
        match r {
            Some(rel) => relative_under(file_path@, base_path@) == Some(rel@),
            None => relative_under(file_path@, base_path@) is None,
        },
{
    let base = base_path.as_str();
    let n = file_path.unicode_len();
    let m = base.unicode_len();
    if !starts_with_text(file_path, base) || n <= m {
        return None;
    }
    if m > 0 && base.get_char(m - 1) == '/' {
        Some(file_path.substring_char(m, n).to_owned())
    } else if n > m + 1 && file_path.get_char(m) == '/' {
        Some(file_path.substring_char(m + 1, n).to_owned())
    } else {
        None
    }
}

/// The change records that a changed `file_path` gives against the watched `push_paths`:
/// one per base path that it equals (with an empty relative path) or lies under.
pub fn get_push_targets_with_file(push_paths: &[String], file_path: &str) -> (r: Vec<
    ChangedTarget,
>)
    ensures
        changes_view(r@) == changes_for(texts(push_paths@), file_path@),
{
    let mut found: Vec<ChangedTarget> = Vec::new();
    let mut i: usize = 0;
    while i < push_paths.len()
        invariant
            i <= push_paths@.len(),
            changes_view(found@) == changes_for(texts(push_paths@.subrange(0, i as int)), file_path@),
        decreases push_paths@.len() - i,
    {
        let ghost prev = found@;
        let base = &push_paths[i];
        let ghost upto = texts(push_paths@.subrange(0, i + 1));
        assert(upto.drop_last() =~= texts(push_paths@.subrange(0, i as int)));
        assert(upto.last() == base@);
        if str_eq_slice(base, file_path) {
            found.push(ChangedTarget { base_path: base.clone(), relative_path: String::new() });
            assert(changes_view(found@) =~= changes_view(prev).push(
                ChangedView { base_path: base@, relative_path: Seq::empty() },
            ));
        } else {
            match relative_to(file_path, base) {
                Some(rel) => {
                    let ghost rv = rel@;
                    found.push(ChangedTarget { base_path: base.clone(), relative_path: rel });
                    assert(changes_view(found@) =~= changes_view(prev).push(
                        ChangedView { base_path: base@, relative_path: rv },
                    ));
                },
                None => {},
            }
        }
        i = i + 1;
    }
    assert(push_paths@.subrange(0, i as int) =~= push_paths@);
    found
}

/// `rel` joined onto `base` with `/`; an empty `rel` names `base` itself.
pub open spec fn join_path(base: Seq<char>, rel: Seq<char>) -> Seq<char> {
    if rel.len() == 0 {
        base
    } else if base.len() > 0 && base.last() == '/' {
        base + rel
    } else {
        base + seq!['/'] + rel
    }
}

/// Joins a relative path onto a base path.
pub fn join_relative(base: &str, rel: &str) -> (r: String)
    ensures
        r@ == join_path(base@, rel@),
{
    let mut joined = base.to_owned();
    if rel.unicode_len() == 0 {
        return joined;
    }
    let m = base.unicode_len();
    if !(m > 0 && base.get_char(m - 1) == '/') {
        joined.append(slash_str());
    }
    joined.append(rel);
    joined
}

/// The suffix of a lock marker's name.
pub open spec fn lock_suffix() -> Seq<char> {
    seq!['.', 'f', 's', 'y', '.', 'l', 'o', 'c', 'k']
}

/// The lock marker of a path: the sibling file `<path>.fsy.lock`.
pub open spec fn lock_path(p: Seq<char>) -> Seq<char> {
    p + lock_suffix()
}

/// The path of the lock marker that guards `path` during an incoming download.
pub fn get_target_locked_path(path: &str) -> (r: String)
    ensures
        r@ == lock_path(path@),
{
    proof { reveal_strlit(".fsy.lock"); }
    let mut marker = path.to_owned();
    marker.append(".fsy.lock");
    marker
}

impl ChangedTarget {
    /// The path of the lock marker for the changed file, `<base>/<rel>.fsy.lock`.
    pub fn lock_marker_path(&self) -> (r: String)
        ensures
            r@ == lock_path(join_path(self.base_path@, self.relative_path@)),
    {
        let file = join_relative(self.base_path.as_str(), self.relative_path.as_str());
        get_target_locked_path(file.as_str())
    }
}

/// The modes in which a peer receives pushes.
pub open spec fn push_modes() -> Seq<TargetMode> {
    seq![TargetMode::Push, TargetMode::PushPull]
}

/// The announcement of a change at `rel` in group `g` to the peer `id`.
pub open spec fn announce_one(g: GroupView, rel: Seq<char>, id: Seq<char>) -> ActionView {
    send_form(ActionView::TargetHasChanged(id, g.name, rel))
}

/// The announcements of a change at `rel` to each group's push peers, group by group.
pub open spec fn announcements(gs: Seq<GroupView>, nodes: Seq<NodeData>, rel: Seq<char>) -> Seq<
    ActionView,
>
    decreases gs.len(),
{
    if gs.len() == 0 {
        Seq::empty()
    } else {
        let g = gs.last();
        announcements(gs.drop_last(), nodes, rel) + node_ids_in(g, nodes, push_modes()).map_values(
            |id: Seq<char>| announce_one(g, rel, id),
        )
    }
}

/// The views of a sequence of actions.
pub open spec fn actions_view(v: Seq<CommAction>) -> Seq<ActionView> {
    v.map_values(|a: CommAction| a@)
}

/// The push actions that a change calls for: none while its lock marker is present, else for
/// each push group at the change's base path and each of its push peers, a `TargetHasChanged`
/// in its `SendMessage` form.
pub open spec fn push_actions_for(
    groups: Seq<TargetGroup>,
    nodes: Seq<NodeData>,
    changed: ChangedView,
    locked: bool,
) -> Seq<ActionView> {
    if locked {
        Seq::empty()
    } else {
        announcements(push_groups_at(groups, changed.base_path), nodes, changed.relative_path)
    }
}

/// Lock-marker echo suppression: whatever the groups, the directory and the change, a change
/// seen while its lock marker is present gives no push action.
pub proof fn lemma_lock_suppresses_echo(
    groups: Seq<TargetGroup>,
    nodes: Seq<NodeData>,
    changed: ChangedView,
)
    ensures
        push_actions_for(groups, nodes, changed, true) == Seq::<ActionView>::empty(),
{
}

/// The actions that announce `changed` to the peers; `locked` tells whether the change's lock
/// marker is present, in which case the change is an incoming download's echo and nothing is
/// announced.
pub fn changed_target_actions(
    groups: &[TargetGroup],
    nodes: &[NodeData],
    changed: &ChangedTarget,
    locked: bool,
) -> (r: Vec<CommAction>)
    ensures
        actions_view(r@) == push_actions_for(groups@, nodes@, changed@, locked),
        locked ==> r@.len() == 0,
{
    let mut out: Vec<CommAction> = Vec::new();
    if locked {
        assert(actions_view(out@) =~= Seq::<ActionView>::empty());
        return out;
    }
    let found = get_push_groups_with_path(groups, changed.base_path.as_str());
    let ghost gs = groups_view(found@);
    let mut modes: Vec<TargetMode> = Vec::new();
    modes.push(TargetMode::Push);
    modes.push(TargetMode::PushPull);
    assert(modes@ =~= push_modes());
    let rel = &changed.relative_path;
    let mut i: usize = 0;
    while i < found.len()
        invariant
            i <= found@.len(),
            gs == groups_view(found@),
            modes@ == push_modes(),
            actions_view(out@) == announcements(gs.subrange(0, i as int), nodes@, rel@),
        decreases found@.len() - i,
    {
        let g = &found[i];
        let ghost gv = gs[i as int];
        assert(gv == g@);
        let ids = g.get_node_ids(nodes, modes.as_slice());
        let ghost base = out@;
        let ghost idv = texts(ids@);
        let mut j: usize = 0;
        while j < ids.len()
            invariant
                j <= ids@.len(),
                idv == texts(ids@),
                gv == g@,
                actions_view(out@) == actions_view(base) + idv.subrange(0, j as int).map_values(
                    |id: Seq<char>| announce_one(gv, rel@, id),
                ),
            decreases ids@.len() - j,
        {
            let ghost prev = out@;
            let a = CommAction::TargetHasChanged(ids[j].clone(), g.name.clone(), rel.clone());
            let msg = a.to_send_message();
            out.push(msg);
            assert(actions_view(out@) =~= actions_view(prev).push(msg@));
            assert(idv.subrange(0, j + 1).map_values(|id: Seq<char>| announce_one(gv, rel@, id))
                =~= idv.subrange(0, j as int).map_values(
                |id: Seq<char>| announce_one(gv, rel@, id),
            ).push(announce_one(gv, rel@, idv[j as int])));
            j = j + 1;
        }
        assert(idv.subrange(0, j as int) =~= idv);
        assert(gs.subrange(0, i + 1).drop_last() =~= gs.subrange(0, i as int));
        i = i + 1;
    }
    assert(gs.subrange(0, i as int) =~= gs);
    out
}

} // verus!
