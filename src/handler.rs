//! The action handler's decisions. Each action is turned into one effect on the outside
//! world (a send, a ticket publication, a download, follow-up actions, or nothing); the
//! dispatcher performs the effect and feeds any outcome back through `ticket_reply`.
use vstd::prelude::*;

use crate::action::{send_form, ActionView, CommAction};
use crate::path_watcher::{
    actions_view, get_target_locked_path, join_path, join_relative, lock_path,
};
use crate::target::{
    first_named, get_pull_group_with_name, get_push_group_with_name, group_has_node_id,
    group_lists_id, NodeData, TargetGroup,
};

verus! {

/// What handling one action asks of the outside world.
#[derive(Debug)]
pub enum Effect {
    /// Nothing to do.
    Nothing,
    /// `Send(to_node_id, payload)`: send a payload over the transport.
    Send(String, String),
    /// Push these follow-up actions onto the queue.
    Enqueue(Vec<CommAction>),
    /// Publish the file at `path` as a ticket, then queue `ticket_reply(peer_id, group_name,
    /// relative_path, ticket)`.
    PublishTicket { path: String, peer_id: String, group_name: String, relative_path: String },
    /// Create the lock marker at `lock`, download `ticket` to `dest`, then remove the marker,
    /// whether the download succeeded or not.
    Download { ticket: String, dest: String, lock: String },
}

pub enum EffectView {
    Nothing,
    Send(Seq<char>, Seq<char>),
    Enqueue(Seq<ActionView>),
    PublishTicket {
        path: Seq<char>,
        peer_id: Seq<char>,
        group_name: Seq<char>,
        relative_path: Seq<char>,
    },
    Download { ticket: Seq<char>, dest: Seq<char>, lock: Seq<char> },
}

impl View for Effect {
    type V = EffectView;

    open spec fn view(&self) -> EffectView {
        match self {
            Effect::Nothing => EffectView::Nothing,
            Effect::Send(to, payload) => EffectView::Send(to@, payload@),
            Effect::Enqueue(actions) => EffectView::Enqueue(actions_view(actions@)),
            Effect::PublishTicket { path, peer_id, group_name, relative_path } =>
                EffectView::PublishTicket {
                path: path@,
                peer_id: peer_id@,
                group_name: group_name@,
                relative_path: relative_path@,
            },
            Effect::Download { ticket, dest, lock } => EffectView::Download {
                ticket: ticket@,
                dest: dest@,
                lock: lock@,
            },
        }
    }
}

/// The effect of handling `a`:
/// - `SendMessage` is sent as it is;
/// - `TargetHasChanged` from a peer that the named pull group lists asks for the file back
///   with a `RequestTarget`;
/// - `RequestTarget` for a push group publishes the file under the group's path;
/// - `DownloadTarget` from a peer that the named pull group lists downloads the ticket to the
///   file under the group's path, guarded by its lock marker;
/// - everything else, and every lookup that fails, does nothing.
pub open spec fn plan(groups: Seq<TargetGroup>, nodes: Seq<NodeData>, a: ActionView) -> EffectView {
    match a {
        ActionView::SendMessage(to, payload) => EffectView::Send(to, payload),
        ActionView::TargetHasChanged(from, name, rel) => match first_named(groups, name, false) {
            Some(g) => if group_lists_id(g, nodes, from) {
                EffectView::Enqueue(seq![send_form(ActionView::RequestTarget(from, g.name, rel))])
            } else {
                EffectView::Nothing
            },
            None => EffectView::Nothing,
        },
        ActionView::RequestTarget(from, name, rel) => match first_named(groups, name, true) {
            Some(g) => EffectView::PublishTicket {
                path: join_path(g.path, rel),
                peer_id: from,
                group_name: name,
                relative_path: rel,
            },
            None => EffectView::Nothing,
        },
        ActionView::DownloadTarget(from, name, rel, ticket) => match first_named(
            groups,
            name,
            false,
        ) {
            Some(g) => if group_lists_id(g, nodes, from) {
                EffectView::Download {
                    ticket,
                    dest: join_path(g.path, rel),
                    lock: lock_path(join_path(g.path, rel)),
                }
            } else {
                EffectView::Nothing
            },
            None => EffectView::Nothing,
        },
        _ => EffectView::Nothing,
    }
}

/// Decides what handling `action` asks of the outside world.
pub fn plan_action(groups: &[TargetGroup], nodes: &[NodeData], action: &CommAction) -> (r: Effect)
    ensures
        r@ == plan(groups@, nodes@, action@),
{
    match action {
        CommAction::SendMessage(to, payload) => Effect::Send(to.clone(), payload.clone()),
        CommAction::TargetHasChanged(from, name, rel) => {
            match get_pull_group_with_name(groups, name.as_str()) {
                Some(g) => {
                    if group_has_node_id(&g, nodes, from.as_str()) {
                        let request = CommAction::RequestTarget(
                            from.clone(),
                            g.name.clone(),
                            rel.clone(),
                        ).to_send_message();
                        let mut follow: Vec<CommAction> = Vec::new();
                        follow.push(request);
                        assert(actions_view(follow@) =~= seq![
                            send_form(ActionView::RequestTarget(from@, g.name@, rel@)),
                        ]);
                        Effect::Enqueue(follow)
                    } else {
                        Effect::Nothing
                    }
                },
                None => Effect::Nothing,
            }
        },
        CommAction::RequestTarget(from, name, rel) => {
            match get_push_group_with_name(groups, name.as_str()) {
                Some(g) => Effect::PublishTicket {
                    path: join_relative(g.path.as_str(), rel.as_str()),
                    peer_id: from.clone(),
                    group_name: name.clone(),
                    relative_path: rel.clone(),
                },
                None => Effect::Nothing,
            }
        },
        CommAction::DownloadTarget(from, name, rel, ticket) => {
            match get_pull_group_with_name(groups, name.as_str()) {
                Some(g) => {
                    if group_has_node_id(&g, nodes, from.as_str()) {
                        let dest = join_relative(g.path.as_str(), rel.as_str());
                        let lock = get_target_locked_path(dest.as_str());
                        Effect::Download { ticket: ticket.clone(), dest, lock }
                    } else {
                        Effect::Nothing
                    }
                },
                None => Effect::Nothing,
            }
        },
        _ => Effect::Nothing,
    }
}

/// The answer to a `RequestTarget` once its file is published as `ticket`: a
/// `DownloadTarget` for the requesting peer, in its `SendMessage` form.
pub fn ticket_reply(peer_id: &str, group_name: &str, relative_path: &str, ticket: &str) -> (r:
    CommAction)
    ensures
        r@ == send_form(
            ActionView::DownloadTarget(peer_id@, group_name@, relative_path@, ticket@),
        ),
{
    CommAction::DownloadTarget(
        peer_id.to_owned(),
        group_name.to_owned(),
        relative_path.to_owned(),
        ticket.to_owned(),
    ).to_send_message()
}

} // verus!
