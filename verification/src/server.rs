//! What the gateway does with the events that sessions hand upward: it
//! answers a handshake with the ready dispatch and turns an activity frame
//! into the message to publish.

use crate::decimal::{decimal, lemma_decimal_injective, to_decimal};
use crate::ipc::structs::{
    IpcCommand, IpcCommandView, IpcFrame, IpcFrameView, IpcMessage, IpcMessageView,
};
use crate::json::clone_value;
use crate::structs::{
    normalize, opt_text, IpcActivityMessage, IpcActivityMessageView, IpcPartialActivityMessage,
};
use serde_json::Value;
use std::collections::HashMap;
use vstd::prelude::*;

verus! {

broadcast use vstd::std_specs::hash::group_hash_axioms;

/// What the gateway does about an event.
#[derive(Debug, PartialEq, Eq)]
pub enum ServerAction {
    /// Nothing.
    Nothing,
    /// Send this command to the session of this id.
    Reply { socket_id: usize, command: IpcCommand },
    /// Publish this message to the subscribers.
    Publish(IpcActivityMessage),
}

/// What a [`ServerAction`] stands for in contracts: the same value with its
/// strings and lists as sequences.
pub enum ServerActionView {
    Nothing,
    Reply { socket_id: usize, command: IpcCommandView },
    Publish(IpcActivityMessageView),
}

impl View for ServerAction {
    type V = ServerActionView;

    open spec fn view(&self) -> ServerActionView {
        match self {
            ServerAction::Nothing => ServerActionView::Nothing,
            ServerAction::Reply { socket_id, command } => ServerActionView::Reply {
                socket_id: *socket_id,
                command: command@,
            },
            ServerAction::Publish(message) => ServerActionView::Publish(message@),
        }
    }
}

/// The frame that tells a session that its handshake was accepted: a
/// `DISPATCH` of the event `READY` with the gateway's identity as data and
/// an empty nonce.
pub open spec fn ready_frame(identity: Value) -> IpcFrameView {
    IpcFrameView {
        args: None,
        data: Some(identity),
        cmd: "DISPATCH"@,
        evt: Some("READY"@),
        nonce: Seq::empty(),
    }
}

/// The gateway's part between the sessions and the relay: it remembers
/// the client id of each session that has shaken hands.
#[derive(Debug)]
pub struct Server {
    identity: Value,
    client_ids: HashMap<usize, String>,
}

/// What a [`Server`] stands for in contracts: the same value with its
/// strings and lists as sequences.
pub struct ServerView {
    /// The data of every ready dispatch.
    pub identity: Value,
    /// The client id of each session that has shaken hands.
    pub client_ids: Map<usize, Seq<char>>,
}

impl View for Server {
    type V = ServerView;

    closed spec fn view(&self) -> ServerView {
        ServerView {
            identity: self.identity,
            client_ids: self.client_ids@.map_values(|id: String| id@),
        }
    }
}

impl ServerView {
    /// The client id of a session, if it has shaken hands.
    pub open spec fn client_id(self, socket_id: usize) -> Option<Seq<char>> {
        if self.client_ids.contains_key(socket_id) {
            Some(self.client_ids[socket_id])
        } else {
            None
        }
    }

    /// The gateway after an event of the session `socket_id`, and what it
    /// does about the event.
    ///
    /// A handshake is remembered and answered with the ready dispatch. An
    /// activity frame with arguments is published in canonical form, under
    /// the session's id in decimal and the client id of the session's
    /// handshake. Nothing else has any effect.
    pub open spec fn dispatch(self, socket_id: usize, message: IpcMessageView) -> (
        ServerView,
        ServerActionView,
    ) {
        match message {
            IpcMessageView::Handshake(handshake) => (
                ServerView {
                    client_ids: self.client_ids.insert(socket_id, handshake.client_id),
                    ..self
                },
                ServerActionView::Reply {
                    socket_id,
                    command: IpcCommandView::Frame(ready_frame(self.identity)),
                },
            ),
            IpcMessageView::Frame(frame) => match frame.args {
                Some(args) => (
                    self,
                    ServerActionView::Publish(
                        normalize(
                            Some(args.activity),
                            args.pid,
                            decimal(socket_id as nat),
                            self.client_id(socket_id),
                        ),
                    ),
                ),
                None => (self, ServerActionView::Nothing),
            },
            _ => (self, ServerActionView::Nothing),
        }
    }
}

impl Server {
    /// A gateway that knows no session yet. `identity` is the data that
    /// every ready dispatch will carry.
    pub fn new(identity: Value) -> (server: Server)
        ensures
            server@ == (ServerView { identity, client_ids: Map::empty() }),
    {
        let server = Server { identity, client_ids: HashMap::new() };
        assert(server@.client_ids =~= Map::empty());
        server
    }

    /// The client id of a session, if it has shaken hands.
    pub fn client_id(&self, socket_id: usize) -> (client_id: Option<String>)
        ensures
            opt_text(client_id) == self@.client_id(socket_id),
    {
        match self.client_ids.get(&socket_id) {
            Some(id) => Some(id.clone()),
            None => None,
        }
    }

    /// Takes an event that the session `socket_id` handed upward and says
    /// what to do about it.
    pub fn dispatch(&mut self, socket_id: usize, message: IpcMessage) -> (action: ServerAction)
        ensures
            (final(self)@, action@) == old(self)@.dispatch(socket_id, message@),
    {
        match message {
            IpcMessage::Handshake(handshake) => {
                let ready = IpcFrame {
                    args: None,
                    data: Some(clone_value(&self.identity)),
                    cmd: "DISPATCH".to_owned(),
                    evt: Some("READY".to_owned()),
                    nonce: String::new(),
                };
                self.client_ids.insert(socket_id, handshake.client_id);
                assert(self@.client_ids =~= old(self)@.client_ids.insert(
                    socket_id,
                    handshake.client_id@,
                ));
                ServerAction::Reply { socket_id, command: IpcCommand::Frame(ready) }
            },
            IpcMessage::Frame(frame) => match frame.args {
                Some(args) => {
                    let client_id = self.client_id(socket_id);
                    ServerAction::Publish(
                        IpcPartialActivityMessage::to_full_message(
                            Some(args.activity),
                            args.pid,
                            to_decimal(socket_id),
                            &client_id,
                        ),
                    )
                },
                None => ServerAction::Nothing,
            },
            _ => ServerAction::Nothing,
        }
    }
}

/// Sessions publish apart: what the gateway publishes for a session
/// stands under that session's id in decimal, so that no two sessions
/// share an entry of the relay's table.
pub proof fn lemma_sessions_publish_apart(
    server: ServerView,
    one: usize,
    other: usize,
    first: IpcMessageView,
    second: IpcMessageView,
)
    requires
        one != other,
        server.dispatch(one, first).1 is Publish,
        server.dispatch(other, second).1 is Publish,
    ensures
        server.dispatch(one, first).1->Publish_0.socket_id == decimal(one as nat),
        server.dispatch(other, second).1->Publish_0.socket_id == decimal(other as nat),
        server.dispatch(one, first).1->Publish_0.socket_id != server.dispatch(
            other,
            second,
        ).1->Publish_0.socket_id,
{
    if decimal(one as nat) == decimal(other as nat) {
        lemma_decimal_injective(one as nat, other as nat);
    }
}

/// The gateway publishes only what a session sent: an activity frame with
/// arguments is published, a handshake is answered, and nothing else has
/// any effect; and only a handshake changes what the gateway remembers.
pub proof fn lemma_dispatch_effects(server: ServerView, socket_id: usize, message: IpcMessageView)
    ensures
        server.dispatch(socket_id, message).1 is Publish <==> (message matches IpcMessageView::Frame(
            frame,
        ) && frame.args is Some),
        server.dispatch(socket_id, message).1 is Reply <==> message is Handshake,
        !(message is Handshake) ==> server.dispatch(socket_id, message).0 == server,
        server.dispatch(socket_id, message).0.identity == server.identity,
{
}

} // verus!
