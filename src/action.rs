//! The action protocol: namespaces, the `CommAction` message type and its wire codec.
//!
//! One action travels as the text `<ns>]]::<body>`, where `<ns>` is the decimal tag of the
//! action's namespace and the body's fields are separated by `;`.
use vstd::prelude::*;

use crate::text::{
    is_digit, lemma_byte_text_round_trip, lemma_i64_text_round_trip, occurs_at,
    byte_of_text, decimal_string, decimal_text, first_occurrence_from, i64_of_text, parse_i64,
    parse_u8, signed_decimal_string, signed_decimal_text, split_once, split_once_text, str_eq,
};

verus! {

/// Whether chrono can represent `secs` seconds after the Unix epoch as a UTC date and time.
pub uninterp spec fn utc_seconds_in_range(secs: int) -> bool;

/// Relies on chrono's `DateTime::<Utc>::from_timestamp`, which returns `None` exactly when the
/// number of seconds lies outside the dates that chrono can represent.
#[verifier::external_body]
fn utc_timestamp_in_range(secs: i64) -> (r: bool)
    ensures
        r == utc_seconds_in_range(secs as int),
{
    chrono::DateTime::<chrono::Utc>::from_timestamp(secs, 0).is_some()
}

/// The namespace tag that opens every wire message.
#[derive(Debug, Clone, Copy, PartialEq, Eq, Structural)]
pub enum ActionNamespace {
    Unknown,
    SendMessage,
    TargetHasChanged,
    RequestTarget,
    DownloadTarget,
    DownloadDone,
    RequestTargetTimestamp,
    TargetTimestamp,
}

impl ActionNamespace {
    /// The decimal tag of the namespace on the wire; `Unknown` is 0.
    pub open spec fn tag(self) -> u8 {
        match self {
            ActionNamespace::Unknown => 0,
            ActionNamespace::SendMessage => 1,
            ActionNamespace::TargetHasChanged => 2,
            ActionNamespace::RequestTarget => 3,
            ActionNamespace::DownloadTarget => 4,
            ActionNamespace::DownloadDone => 5,
            ActionNamespace::RequestTargetTimestamp => 6,
            ActionNamespace::TargetTimestamp => 7,
        }
    }

    pub fn to_u8(&self) -> (r: u8)
        ensures
            r == self.tag(),
    {
        match self {
            ActionNamespace::SendMessage => 1,
            ActionNamespace::TargetHasChanged => 2,
            ActionNamespace::RequestTarget => 3,
            ActionNamespace::DownloadTarget => 4,
            ActionNamespace::DownloadDone => 5,
            ActionNamespace::RequestTargetTimestamp => 6,
            ActionNamespace::TargetTimestamp => 7,
            ActionNamespace::Unknown => 0,
        }
    }
}

/// The namespace that a tag names; tags outside 1 to 7 name `Unknown`.
pub open spec fn namespace_of_tag(b: u8) -> ActionNamespace {
    if b == 1 {
        ActionNamespace::SendMessage
    } else if b == 2 {
        ActionNamespace::TargetHasChanged
    } else if b == 3 {
        ActionNamespace::RequestTarget
    } else if b == 4 {
        ActionNamespace::DownloadTarget
    } else if b == 5 {
        ActionNamespace::DownloadDone
    } else if b == 6 {
        ActionNamespace::RequestTargetTimestamp
    } else if b == 7 {
        ActionNamespace::TargetTimestamp
    } else {
        ActionNamespace::Unknown
    }
}

/// The namespace that a header text names: a byte in decimal, else `Unknown`.
pub open spec fn namespace_of_text(s: Seq<char>) -> ActionNamespace {
    match byte_of_text(s) {
        Some(b) => namespace_of_tag(b),
        None => ActionNamespace::Unknown,
    }
}

fn namespace_from_tag(b: u8) -> (r: ActionNamespace)
    ensures
        r == namespace_of_tag(b),
{
    match b {
        1 => ActionNamespace::SendMessage,
        2 => ActionNamespace::TargetHasChanged,
        3 => ActionNamespace::RequestTarget,
        4 => ActionNamespace::DownloadTarget,
        5 => ActionNamespace::DownloadDone,
        6 => ActionNamespace::RequestTargetTimestamp,
        7 => ActionNamespace::TargetTimestamp,
        _ => ActionNamespace::Unknown,
    }
}

impl From<String> for ActionNamespace {
    fn from(value: String) -> (r: Self)
        ensures
            r == namespace_of_text(value@),
    {
        match parse_u8(value.as_str()) {
            Some(b) => namespace_from_tag(b),
            None => ActionNamespace::Unknown,
        }
    }
}

impl vstd::std_specs::convert::FromSpecImpl<String> for ActionNamespace {
    open spec fn obeys_from_spec() -> bool {
        true
    }

    open spec fn from_spec(v: String) -> Self {
        namespace_of_text(v@)
    }
}

/// The delimiter between the namespace tag and the body.
pub open spec fn delimiter() -> Seq<char> {
    seq![']', ']', ':', ':']
}

/// The separator between the fields of a body.
pub open spec fn separator() -> Seq<char> {
    seq![';']
}

/// A wire message: the tag in decimal, the delimiter, then the body.
pub open spec fn wire_text(tag: u8, body: Seq<char>) -> Seq<char> {
    decimal_text(tag as nat) + delimiter() + body
}

/// A message cut into its namespace and its body; no delimiter gives `Unknown` and an empty body.
pub open spec fn ns_split_text(raw: Seq<char>) -> (ActionNamespace, Seq<char>) {
    match split_once_text(raw, delimiter()) {
        Some(parts) => (namespace_of_text(parts.0), parts.1),
        None => (ActionNamespace::Unknown, Seq::empty()),
    }
}

fn delimiter_str() -> (r: &'static str)
    ensures
        r@ == delimiter(),
{
    proof { reveal_strlit("]]::"); }
    "]]::"
}

fn separator_str() -> (r: &'static str)
    ensures
        r@ == separator(),
{
    proof { reveal_strlit(";"); }
    ";"
}

/// Cuts a message into its namespace and its body.
pub fn get_ns_split(raw_msg: &str) -> (r: (ActionNamespace, String))
    ensures
        (r.0, r.1@) == ns_split_text(raw_msg@),
{
    match split_once(raw_msg, delimiter_str()) {
        Some(parts) => {
            let module = parts.0;
            (ActionNamespace::from(module), parts.1)
        },
        None => (ActionNamespace::Unknown, String::new()),
    }
}

/// Frames a body with a namespace's header.
pub fn template_msg_with_ns(namespace: ActionNamespace, raw_msg: &str) -> (r: String)
    ensures
        r@ == wire_text(namespace.tag(), raw_msg@),
{
    let mut msg = decimal_string(namespace.to_u8() as u64);
    msg.append(delimiter_str());
    msg.append(raw_msg);
    msg
}


/// An action: the unit of work of the queue and the message of the wire.
/// Node ids, group names, relative paths and tickets are text; a timestamp is in Unix seconds.
#[derive(Debug)]
pub enum CommAction {
    Unknown,
    /// `SendMessage(to_node_id, payload)`
    SendMessage(String, String),
    /// `TargetHasChanged(peer_id, group_name, relative_path)`
    TargetHasChanged(String, String, String),
    /// `RequestTarget(peer_id, group_name, relative_path)`
    RequestTarget(String, String, String),
    /// `DownloadTarget(peer_id, group_name, relative_path, ticket)`
    DownloadTarget(String, String, String, String),
    /// `DownloadDone(peer_id, ticket)`
    DownloadDone(String, String),
    /// `RequestTargetTimestamp(peer_id, group_name)`
    RequestTargetTimestamp(String, String),
    /// `TargetTimestamp(peer_id, group_name, unix_seconds)`
    TargetTimestamp(String, String, i64),
}

/// The mathematical value of a `CommAction`.
pub enum ActionView {
    Unknown,
    SendMessage(Seq<char>, Seq<char>),
    TargetHasChanged(Seq<char>, Seq<char>, Seq<char>),
    RequestTarget(Seq<char>, Seq<char>, Seq<char>),
    DownloadTarget(Seq<char>, Seq<char>, Seq<char>, Seq<char>),
    DownloadDone(Seq<char>, Seq<char>),
    RequestTargetTimestamp(Seq<char>, Seq<char>),
    TargetTimestamp(Seq<char>, Seq<char>, int),
}

impl View for CommAction {
    type V = ActionView;

    open spec fn view(&self) -> ActionView {
        match self {
            CommAction::Unknown => ActionView::Unknown,
            CommAction::SendMessage(a, b) => ActionView::SendMessage(a@, b@),
            CommAction::TargetHasChanged(a, b, c) => ActionView::TargetHasChanged(a@, b@, c@),
            CommAction::RequestTarget(a, b, c) => ActionView::RequestTarget(a@, b@, c@),
            CommAction::DownloadTarget(a, b, c, d) => ActionView::DownloadTarget(a@, b@, c@, d@),
            CommAction::DownloadDone(a, b) => ActionView::DownloadDone(a@, b@),
            CommAction::RequestTargetTimestamp(a, b) => ActionView::RequestTargetTimestamp(a@, b@),
            CommAction::TargetTimestamp(a, b, t) => ActionView::TargetTimestamp(a@, b@, *t as int),
        }
    }
}

impl Clone for CommAction {
    fn clone(&self) -> (r: Self)
        ensures
            r@ == self@,
    {
        match self {
            CommAction::Unknown => CommAction::Unknown,
            CommAction::SendMessage(a, b) => CommAction::SendMessage(a.clone(), b.clone()),
            CommAction::TargetHasChanged(a, b, c) => CommAction::TargetHasChanged(
                a.clone(),
                b.clone(),
                c.clone(),
            ),
            CommAction::RequestTarget(a, b, c) => CommAction::RequestTarget(
                a.clone(),
                b.clone(),
                c.clone(),
            ),
            CommAction::DownloadTarget(a, b, c, d) => CommAction::DownloadTarget(
                a.clone(),
                b.clone(),
                c.clone(),
                d.clone(),
            ),
            CommAction::DownloadDone(a, b) => CommAction::DownloadDone(a.clone(), b.clone()),
            CommAction::RequestTargetTimestamp(a, b) => CommAction::RequestTargetTimestamp(
                a.clone(),
                b.clone(),
            ),
            CommAction::TargetTimestamp(a, b, t) => CommAction::TargetTimestamp(
                a.clone(),
                b.clone(),
                *t,
            ),
        }
    }
}

impl PartialEq for CommAction {
    fn eq(&self, other: &CommAction) -> (r: bool)
        ensures
            r == (self@ == other@),
    {
        match self {
            CommAction::Unknown => match other {
                CommAction::Unknown => true,
                _ => false,
            },
            CommAction::SendMessage(a1, b1) => match other {
                CommAction::SendMessage(a2, b2) => str_eq(a1, a2) && str_eq(b1, b2),
                _ => false,
            },
            CommAction::TargetHasChanged(a1, b1, c1) => match other {
                CommAction::TargetHasChanged(a2, b2, c2) => str_eq(a1, a2) && str_eq(b1, b2) && str_eq(c1, c2),
                _ => false,
            },
            CommAction::RequestTarget(a1, b1, c1) => match other {
                CommAction::RequestTarget(a2, b2, c2) => str_eq(a1, a2) && str_eq(b1, b2) && str_eq(c1, c2),
                _ => false,
            },
            CommAction::DownloadTarget(a1, b1, c1, d1) => match other {
                CommAction::DownloadTarget(a2, b2, c2, d2) => str_eq(a1, a2) && str_eq(b1, b2) && str_eq(c1, c2)
                    && str_eq(d1, d2),
                _ => false,
            },
            CommAction::DownloadDone(a1, b1) => match other {
                CommAction::DownloadDone(a2, b2) => str_eq(a1, a2) && str_eq(b1, b2),
                _ => false,
            },
            CommAction::RequestTargetTimestamp(a1, b1) => match other {
                CommAction::RequestTargetTimestamp(a2, b2) => str_eq(a1, a2) && str_eq(b1, b2),
                _ => false,
            },
            CommAction::TargetTimestamp(a1, b1, t1) => match other {
                CommAction::TargetTimestamp(a2, b2, t2) => str_eq(a1, a2) && str_eq(b1, b2) && *t1 == *t2,
                _ => false,
            },
        }
    }
}

impl vstd::std_specs::cmp::PartialEqSpecImpl for CommAction {
    open spec fn obeys_eq_spec() -> bool {
        true
    }

    open spec fn eq_spec(&self, other: &CommAction) -> bool {
        self@ == other@
    }
}

/// A body of exactly three `;`-separated fields.
pub open spec fn three_fields(body: Seq<char>) -> Option<(Seq<char>, Seq<char>, Seq<char>)> {
    match split_once_text(body, separator()) {
        Some(first) => match split_once_text(first.1, separator()) {
            Some(second) => if first_occurrence_from(second.1, separator(), 0) is None {
                Some((first.0, second.0, second.1))
            } else {
                None
            },
            None => None,
        },
        None => None,
    }
}

/// The action that a message from `node_id` carries; `Unknown` for anything outside the grammar.
pub open spec fn decode_text(node_id: Seq<char>, raw: Seq<char>) -> ActionView {
    let (ns, body) = ns_split_text(raw);
    match ns {
        ActionNamespace::SendMessage => ActionView::SendMessage(node_id, body),
        ActionNamespace::TargetHasChanged => match split_once_text(body, separator()) {
            Some(f) => ActionView::TargetHasChanged(node_id, f.0, f.1),
            None => ActionView::Unknown,
        },
        ActionNamespace::RequestTarget => match split_once_text(body, separator()) {
            Some(f) => ActionView::RequestTarget(node_id, f.0, f.1),
            None => ActionView::Unknown,
        },
        ActionNamespace::DownloadTarget => match three_fields(body) {
            Some(f) => ActionView::DownloadTarget(node_id, f.0, f.1, f.2),
            None => ActionView::Unknown,
        },
        ActionNamespace::DownloadDone => ActionView::DownloadDone(node_id, body),
        ActionNamespace::RequestTargetTimestamp => ActionView::RequestTargetTimestamp(
            node_id,
            body,
        ),
        ActionNamespace::TargetTimestamp => match split_once_text(body, separator()) {
            Some(f) => match i64_of_text(f.1) {
                Some(t) => if utc_seconds_in_range(t as int) {
                    ActionView::TargetTimestamp(node_id, f.0, t as int)
                } else {
                    ActionView::Unknown
                },
                None => ActionView::Unknown,
            },
            None => ActionView::Unknown,
        },
        ActionNamespace::Unknown => ActionView::Unknown,
    }
}

/// Two fields joined by the separator.
pub open spec fn join2(a: Seq<char>, b: Seq<char>) -> Seq<char> {
    a + separator() + b
}

/// The `SendMessage` that carries an action to its peer; a `SendMessage` stays as it is and
/// `Unknown` stays `Unknown`.
pub open spec fn send_form(a: ActionView) -> ActionView {
    match a {
        ActionView::Unknown => ActionView::Unknown,
        ActionView::SendMessage(to, payload) => ActionView::SendMessage(to, payload),
        ActionView::TargetHasChanged(to, name, rel) => ActionView::SendMessage(
            to,
            wire_text(2, join2(name, rel)),
        ),
        ActionView::RequestTarget(to, name, rel) => ActionView::SendMessage(
            to,
            wire_text(3, join2(name, rel)),
        ),
        ActionView::DownloadTarget(to, name, rel, ticket) => ActionView::SendMessage(
            to,
            wire_text(4, join2(join2(name, rel), ticket)),
        ),
        ActionView::DownloadDone(to, ticket) => ActionView::SendMessage(to, wire_text(5, ticket)),
        ActionView::RequestTargetTimestamp(to, name) => ActionView::SendMessage(
            to,
            wire_text(6, name),
        ),
        ActionView::TargetTimestamp(to, name, t) => ActionView::SendMessage(
            to,
            wire_text(7, join2(name, signed_decimal_text(t))),
        ),
    }
}

fn join_fields(a: &String, b: &str) -> (r: String)
    ensures
        r@ == join2(a@, b@),
{
    let mut s = a.clone();
    s.append(separator_str());
    s.append(b);
    s
}

/// Exactly three `;`-separated fields, when the body has them.
fn split_three(body: &str) -> (r: Option<(String, String, String)>)
    ensures
        match r {
            Some(f) => three_fields(body@) == Some((f.0@, f.1@, f.2@)),
            None => three_fields(body@) is None,
        },
{
    match split_once(body, separator_str()) {
        Some(first) => match split_once(first.1.as_str(), separator_str()) {
            Some(second) => {
                let (name, rest) = (first.0, first.1);
                let (rel, ticket) = (second.0, second.1);
                match crate::text::find_text(ticket.as_str(), separator_str()) {
                    None => Some((name, rel, ticket)),
                    Some(_) => None,
                }
            },
            None => None,
        },
        None => None,
    }
}

impl CommAction {
    /// Reads the action that the message `raw_msg` from `node_id` carries.
    pub fn from_namespaced_msg(node_id: &str, raw_msg: &str) -> (r: Self)
        ensures
            r@ == decode_text(node_id@, raw_msg@),
    {
        let (module, body) = get_ns_split(raw_msg);
        let from = node_id.to_owned();
        match module {
            ActionNamespace::SendMessage => CommAction::SendMessage(from, body),
            ActionNamespace::TargetHasChanged => match split_once(body.as_str(), separator_str()) {
                Some(f) => CommAction::TargetHasChanged(from, f.0, f.1),
                None => CommAction::Unknown,
            },
            ActionNamespace::RequestTarget => match split_once(body.as_str(), separator_str()) {
                Some(f) => CommAction::RequestTarget(from, f.0, f.1),
                None => CommAction::Unknown,
            },
            ActionNamespace::DownloadTarget => match split_three(body.as_str()) {
                Some(f) => CommAction::DownloadTarget(from, f.0, f.1, f.2),
                None => CommAction::Unknown,
            },
            ActionNamespace::DownloadDone => CommAction::DownloadDone(from, body),
            ActionNamespace::RequestTargetTimestamp => CommAction::RequestTargetTimestamp(
                from,
                body,
            ),
            ActionNamespace::TargetTimestamp => match split_once(body.as_str(), separator_str()) {
                Some(f) => match parse_i64(f.1.as_str()) {
                    Some(t) => if utc_timestamp_in_range(t) {
                        CommAction::TargetTimestamp(from, f.0, t)
                    } else {
                        CommAction::Unknown
                    },
                    None => CommAction::Unknown,
                },
                None => CommAction::Unknown,
            },
            ActionNamespace::Unknown => CommAction::Unknown,
        }
    }

    /// The `SendMessage` that carries this action to its peer.
    pub fn to_send_message(&self) -> (r: Self)
        ensures
            r@ == send_form(self@),
    {
        match self {
            CommAction::Unknown => CommAction::Unknown,
            CommAction::SendMessage(to, payload) => CommAction::SendMessage(
                to.clone(),
                payload.clone(),
            ),
            CommAction::TargetHasChanged(to, name, rel) => {
                let body = join_fields(name, rel.as_str());
                let msg = template_msg_with_ns(ActionNamespace::TargetHasChanged, body.as_str());
                CommAction::SendMessage(to.clone(), msg)
            },
            CommAction::RequestTarget(to, name, rel) => {
                let body = join_fields(name, rel.as_str());
                let msg = template_msg_with_ns(ActionNamespace::RequestTarget, body.as_str());
                CommAction::SendMessage(to.clone(), msg)
            },
            CommAction::DownloadTarget(to, name, rel, ticket) => {
                let head = join_fields(name, rel.as_str());
                let body = join_fields(&head, ticket.as_str());
                let msg = template_msg_with_ns(ActionNamespace::DownloadTarget, body.as_str());
                CommAction::SendMessage(to.clone(), msg)
            },
            CommAction::DownloadDone(to, ticket) => {
                let msg = template_msg_with_ns(ActionNamespace::DownloadDone, ticket.as_str());
                CommAction::SendMessage(to.clone(), msg)
            },
            CommAction::RequestTargetTimestamp(to, name) => {
                let msg = template_msg_with_ns(
                    ActionNamespace::RequestTargetTimestamp,
                    name.as_str(),
                );
                CommAction::SendMessage(to.clone(), msg)
            },
            CommAction::TargetTimestamp(to, name, t) => {
                let stamp = signed_decimal_string(*t);
                let body = join_fields(name, stamp.as_str());
                let msg = template_msg_with_ns(ActionNamespace::TargetTimestamp, body.as_str());
                CommAction::SendMessage(to.clone(), msg)
            },
        }
    }
}


/// Whether a field holds no `;`, so that it can stand before another field on the wire.
pub open spec fn is_plain_field(s: Seq<char>) -> bool {
    forall|i: int| 0 <= i < s.len() ==> s[i] != ';'
}

/// The peer that an action names: its first field.
pub open spec fn peer_of(a: ActionView) -> Seq<char> {
    match a {
        ActionView::Unknown => Seq::empty(),
        ActionView::SendMessage(p, _) => p,
        ActionView::TargetHasChanged(p, _, _) => p,
        ActionView::RequestTarget(p, _, _) => p,
        ActionView::DownloadTarget(p, _, _, _) => p,
        ActionView::DownloadDone(p, _) => p,
        ActionView::RequestTargetTimestamp(p, _) => p,
        ActionView::TargetTimestamp(p, _, _) => p,
    }
}

/// Whether the wire can carry an action and give it back: a protocol action (neither
/// `Unknown` nor `SendMessage`) whose fields before the last one hold no `;`, and whose
/// timestamp, if any, is an `i64` that chrono can represent.
pub open spec fn is_wire_safe(a: ActionView) -> bool {
    match a {
        ActionView::Unknown => false,
        ActionView::SendMessage(_, _) => false,
        ActionView::TargetHasChanged(_, name, _) => is_plain_field(name),
        ActionView::RequestTarget(_, name, _) => is_plain_field(name),
        ActionView::DownloadTarget(_, name, rel, ticket) => is_plain_field(name) && is_plain_field(
            rel,
        ) && is_plain_field(ticket),
        ActionView::DownloadDone(_, _) => true,
        ActionView::RequestTargetTimestamp(_, _) => true,
        ActionView::TargetTimestamp(_, name, t) => is_plain_field(name) && i64::MIN <= t
            <= i64::MAX && utc_seconds_in_range(t),
    }
}

proof fn lemma_split_at_separator(a: Seq<char>, b: Seq<char>)
    requires
        is_plain_field(a),
    ensures
        split_once_text(join2(a, b), separator()) == Some((a, b)),
{
    let s = join2(a, b);
    assert forall|k: int| 0 <= k < a.len() implies !#[trigger] occurs_at(s, separator(), k) by {
        assert(s.subrange(k, k + 1)[0] == a[k]);
    }
    assert(s.subrange(a.len() as int, a.len() + 1int) =~= separator());
    crate::text::lemma_first_occurrence_found(s, separator(), 0, a.len() as int);
    assert(s.subrange(0, a.len() as int) =~= a);
    assert(s.subrange(a.len() + 1int, s.len() as int) =~= b);
}

proof fn lemma_no_separator(a: Seq<char>)
    requires
        is_plain_field(a),
    ensures
        first_occurrence_from(a, separator(), 0) is None,
{
    assert forall|k: int| 0 <= k implies !#[trigger] occurs_at(a, separator(), k) by {
        if occurs_at(a, separator(), k) {
            assert(a.subrange(k, k + 1)[0] == a[k]);
        }
    }
    crate::text::lemma_first_occurrence_none(a, separator(), 0);
}

proof fn lemma_ns_split_wire(tag: u8, body: Seq<char>)
    ensures
        ns_split_text(wire_text(tag, body)) == (namespace_of_tag(tag), body),
{
    let d = decimal_text(tag as nat);
    let s = wire_text(tag, body);
    crate::text::lemma_decimal_text(tag as nat);
    lemma_byte_text_round_trip(tag);
    assert forall|k: int| 0 <= k < d.len() implies !#[trigger] occurs_at(s, delimiter(), k) by {
        assert(s.subrange(k, k + 4)[0] == d[k]);
        assert(is_digit(d[k]));
    }
    assert(s.subrange(d.len() as int, d.len() + 4int) =~= delimiter());
    crate::text::lemma_first_occurrence_found(s, delimiter(), 0, d.len() as int);
    assert(s.subrange(0, d.len() as int) =~= d);
    assert(s.subrange(d.len() + 4int, s.len() as int) =~= body);
}

/// Codec round trip: every protocol action that the wire can carry is read back, from its
/// peer's id and the payload of its `SendMessage`, as the same action.
pub proof fn lemma_codec_round_trip(a: ActionView)
    requires
        is_wire_safe(a),
    ensures
        send_form(a) matches ActionView::SendMessage(to, payload) && to == peer_of(a)
            && decode_text(to, payload) == a,
{
    match a {
        ActionView::TargetHasChanged(to, name, rel) => {
            lemma_ns_split_wire(2, join2(name, rel));
            lemma_split_at_separator(name, rel);
        },
        ActionView::RequestTarget(to, name, rel) => {
            lemma_ns_split_wire(3, join2(name, rel));
            lemma_split_at_separator(name, rel);
        },
        ActionView::DownloadTarget(to, name, rel, ticket) => {
            let body = join2(join2(name, rel), ticket);
            lemma_ns_split_wire(4, body);
            assert(body =~= join2(name, join2(rel, ticket)));
            lemma_split_at_separator(name, join2(rel, ticket));
            lemma_split_at_separator(rel, ticket);
            lemma_no_separator(ticket);
        },
        ActionView::DownloadDone(to, ticket) => {
            lemma_ns_split_wire(5, ticket);
        },
        ActionView::RequestTargetTimestamp(to, name) => {
            lemma_ns_split_wire(6, name);
        },
        ActionView::TargetTimestamp(to, name, t) => {
            let stamp = signed_decimal_text(t);
            lemma_ns_split_wire(7, join2(name, stamp));
            lemma_split_at_separator(name, stamp);
            lemma_i64_text_round_trip(t as i64);
        },
        _ => {},
    }
}

/// Sending form is idempotent: an action already in its `SendMessage` form keeps it.
pub proof fn lemma_send_form_idempotent(a: ActionView)
    ensures
        send_form(send_form(a)) == send_form(a),
{
}

/// Decoding is total and falls back to `Unknown`: a payload without the delimiter, or
/// whose header is not one of the tags 1 to 7, reads as `Unknown` from any node.
pub proof fn lemma_decode_outside_grammar(node_id: Seq<char>, raw: Seq<char>)
    requires
        split_once_text(raw, delimiter()) is None || (split_once_text(raw, delimiter()) matches Some(
            parts,
        ) && !(byte_of_text(parts.0) matches Some(b) && 1 <= b <= 7)),
    ensures
        decode_text(node_id, raw) == ActionView::Unknown,
{
}

} // verus!
