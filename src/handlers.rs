//! The relay's operations: register, unregister, open a connection, publish,
//! and handle what a connected client sends.
use vstd::prelude::*;
use crate::registry::{
    Registry, RecordView, pending_client, without, retopiced, topics_view, targets, is_pending,
    activated,
};

verus! {

/// A request to register: the subscriber identity of the client.
pub struct RegisterRequest {
    pub user_id: usize,
}

/// The answer to a registration: where to open the connection.
pub struct RegisterResponce {
    pub url: String,
}

/// A message to publish to `topic`, only to subscriber `user_id` if given.
pub struct Event {
    pub topic: String,
    pub user_id: Option<usize>,
    pub message: String,
}

/// The topics that a connected client wants from now on.
pub struct TopicsRequest {
    pub topics: Vec<String>,
}

/// What the connection of a client delivered next.
pub enum Inbound {
    /// A text message, with its decoding as a topics request if it has one.
    Text { text: String, request: Option<TopicsRequest> },
    /// A message that is not text.
    NonText,
    /// The transport failed.
    Failed,
    /// The remote end closed the connection.
    Closed,
}

/// Whether the read loop of a connection goes on.
#[derive(PartialEq, Eq, Structural, Debug, Clone, Copy)]
pub enum Step {
    Continue,
    Stop,
}

/// The address at which the client of `token` opens its connection.
pub open spec fn connect_url(token: Seq<char>) -> Seq<char> {
    seq!['w', 's', ':', '/', '/', '1', '2', '7', '.', '0', '.', '0', '.', '1', ':', '8', '0', '8', '0', '/', 'w', 's', '/']
        + token
}

/// The heartbeat text, with or without one trailing newline.
pub open spec fn heartbeat(text: Seq<char>) -> bool {
    text == seq!['p', 'i', 'n', 'g'] || text == seq!['p', 'i', 'n', 'g', '\n']
}

/// The records after the connection of `token` delivered `msg`.
pub open spec fn after_inbound(v: Seq<RecordView>, token: Seq<char>, msg: Inbound) -> Seq<RecordView> {
    match msg {
        Inbound::Text { text, request } => if heartbeat(text@) {
            v
        } else {
            match request {
                Some(q) => retopiced(v, token, topics_view(q.topics@)),
                None => v,
            }
        },
        _ => without(v, token),
    }
}

/// Registers a client of `body.user_id` and returns the address at which it
/// connects; `None` once the registry has no serial left.
pub fn register_handler<S>(clients: &mut Registry<S>, body: &RegisterRequest) -> (r: Option<
    RegisterResponce,
>)
    requires
        old(clients).wf(),
    ensures
        final(clients).wf(),
        r.is_some() <==> !old(clients).exhausted(),
        match r {
            Some(resp) => {
                let t = final(clients)@.last().0;
                &&& resp.url@ == connect_url(t)
                &&& final(clients)@ == old(clients)@.push((t, pending_client(body.user_id)))
                &&& !old(clients).issued().contains(t)
                &&& final(clients).issued() == old(clients).issued().insert(t)
            },
            None => final(clients)@ == old(clients)@ && final(clients).issued() == old(
                clients,
            ).issued(),
        },
{
    match clients.register_client(body.user_id) {
        None => None,
        Some(token) => {
            proof { reveal_strlit("ws://127.0.0.1:8080/ws/"); }
            let mut url = String::from_str("ws://127.0.0.1:8080/ws/");
            url.append(token.as_str());
            assert(url@ =~= connect_url(token@));
            Some(RegisterResponce { url })
        },
    }
}

/// Forgets the record of `id`, if there is one. A live connection of it is
/// not closed: it only stops receiving publishes.
pub fn unregister_handler<S>(clients: &mut Registry<S>, id: &String)
    requires
        old(clients).wf(),
    ensures
        final(clients).wf(),
        final(clients).issued() == old(clients).issued(),
        final(clients)@ == without(old(clients)@, id@),
{
    clients.remove(id)
}

/// Claims the pending record of `id` for a new connection whose outbound
/// sender is `sender`. `false` stands for "not found": the token is unknown or
/// already claimed, and nothing changed.
pub fn ws_handler<S>(clients: &mut Registry<S>, id: &String, sender: S) -> (r: bool)
    requires
        old(clients).wf(),
    ensures
        final(clients).wf(),
        final(clients).issued() == old(clients).issued(),
        r == is_pending(old(clients)@, id@),
        r ==> final(clients)@ == activated(old(clients)@, id@),
        !r ==> final(clients)@ == old(clients)@,
{
    clients.attach(id, sender)
}

/// The tokens of the connections that `body` is delivered to.
pub fn publish_handler<S>(clients: &Registry<S>, body: &Event) -> (r: Vec<String>)
    ensures
        topics_view(r@) == targets(clients@, body.topic@, body.user_id),
{
    clients.recipients(&body.topic, body.user_id)
}

/// `text` is the heartbeat, which changes nothing.
pub fn is_heartbeat(text: &String) -> (r: bool)
    ensures
        r == heartbeat(text@),
{
    proof {
        reveal_strlit("ping");
        reveal_strlit("ping\n");
    }
    let ping = String::from_str("ping");
    let ping_line = String::from_str("ping\n");
    assert(ping@ =~= seq!['p', 'i', 'n', 'g']);
    assert(ping_line@ =~= seq!['p', 'i', 'n', 'g', '\n']);
    *text == ping || *text == ping_line
}

/// Handles what the connection of `id` delivered next. A heartbeat changes
/// nothing; a topics request replaces the client's topics; other text is
/// ignored. Anything else ends the connection and removes its record.
pub fn client_msg<S>(clients: &mut Registry<S>, id: &String, msg: Inbound) -> (r: Step)
    requires
        old(clients).wf(),
    ensures
        final(clients).wf(),
        final(clients).issued() == old(clients).issued(),
        final(clients)@ == after_inbound(old(clients)@, id@, msg),
        r == (match msg {
            Inbound::Text { .. } => Step::Continue,
            _ => Step::Stop,
        }),
{
    match msg {
        Inbound::Text { text, request } => {
            if !is_heartbeat(&text) {
                match request {
                    Some(q) => clients.update_topics(id, q.topics),
                    None => {},
                }
            }
            Step::Continue
        },
        _ => {
            clients.remove(id);
            Step::Stop
        },
    }
}

} // verus!
