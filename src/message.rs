//! Envelopes between clients and the server.
use vstd::prelude::*;

use crate::room_messages::{join_request, join_room, list_rooms, server_after_join, server_after_list};
use crate::server::{GameServer, ServerView, Session};

verus! {

/// A message from or to a client: a type tag and a content string, which is
/// itself usually a JSON text.
#[derive(Debug, Clone)]
pub struct ClientMessage {
    pub message_type: String,
    pub content: String,
}

/// What an envelope is: its type tag and its content.
pub struct EnvelopeView {
    pub message_type: Seq<char>,
    pub content: Seq<char>,
}

impl View for ClientMessage {
    type V = EnvelopeView;

    open spec fn view(&self) -> EnvelopeView {
        EnvelopeView { message_type: self.message_type@, content: self.content@ }
    }
}

impl ClientMessage {
    /// An envelope with the given tag and content.
    pub fn new(message_type: String, content: String) -> (r: ClientMessage)
        ensures
            r@.message_type == message_type@,
            r@.content == content@,
    {
        ClientMessage { message_type, content }
    }

    /// A copy of this envelope.
    pub fn duplicate(&self) -> (r: ClientMessage)
        ensures
            r@ == self@,
    {
        ClientMessage { message_type: self.message_type.clone(), content: self.content.clone() }
    }
}

/// A message that a session sent to the server.
#[derive(Debug, Clone)]
pub struct ClientMessageIncoming {
    pub session_id: u128,
    pub message: ClientMessage,
}

/// A message on its way to a client.
#[derive(Debug, Clone)]
pub struct ClientMessageOutgoing(pub ClientMessage);

/// A request to register a session with the server.
#[derive(Debug)]
pub struct Connect(pub Session);

/// A built-in handler that can be registered for a message type.
#[derive(Debug, Clone, Copy, PartialEq, Eq, Structural)]
pub enum MessageCallback {
    /// Replies with the listing of every room.
    ListRooms,
    /// Lets the sender join the room that the content names.
    JoinRoom,
}

/// A registered handler, shareable between connections.
#[derive(Debug, Clone, Copy)]
pub struct MessageCallbackSendSync(pub MessageCallback);

/// Handler lists by message type.
pub type HandlerMap = Map<Seq<char>, Seq<MessageCallback>>;

/// The handler lists that a callback table holds, by message type.
pub uninterp spec fn callback_lists(t: CallbackTable) -> HandlerMap;

/// The dispatcher's table: a hashbrown map from message type to its handlers.
#[verifier::external_body]
pub struct CallbackTable {
    map: hashbrown::HashMap<String, Vec<MessageCallbackSendSync>>,
}

impl CallbackTable {
    /// Relies on hashbrown::HashMap::new: a map with no entries.
    #[verifier::external_body]
    fn new() -> (r: CallbackTable)
        ensures
            callback_lists(r) == HandlerMap::empty(),
    {
        CallbackTable { map: hashbrown::HashMap::new() }
    }

    /// Relies on hashbrown::HashMap::entry and Entry::or_insert_with: the list
    /// of `message_type`, created empty where there is none, gets `callback`
    /// at its end; no other entry changes.
    #[verifier::external_body]
    fn push(&mut self, message_type: String, callback: MessageCallback)
        ensures
            callback_lists(*final(self)) == callback_lists(*old(self)).insert(
                message_type@,
                handlers_for(callback_lists(*old(self)), message_type@).push(callback),
            ),
    {
        self.map.entry(message_type).or_insert_with(Vec::new).push(MessageCallbackSendSync(callback));
    }

    /// Relies on hashbrown::HashMap::get: the list of `message_type`, if any.
    #[verifier::external_body]
    fn get(&self, message_type: &String) -> (r: Option<&Vec<MessageCallbackSendSync>>)
        ensures
            r is None <==> !callback_lists(*self).contains_key(message_type@),
            r matches Some(v) ==> v@.map_values(|c: MessageCallbackSendSync| c.0)
                == callback_lists(*self)[message_type@],
    {
        self.map.get(message_type)
    }
}

/// The handlers that `handlers` holds for `message_type`; none where the type
/// was never registered.
pub open spec fn handlers_for(handlers: HandlerMap, message_type: Seq<char>) -> Seq<MessageCallback> {
    if handlers.contains_key(message_type) {
        handlers[message_type]
    } else {
        Seq::empty()
    }
}

/// What one handler does to the coordinator for `message` from `session`.
pub open spec fn callback_effect(cb: MessageCallback, session: u128, message: EnvelopeView, s: ServerView) -> ServerView {
    match cb {
        MessageCallback::ListRooms => server_after_list(s, session),
        MessageCallback::JoinRoom => match join_request(message.content) {
            Some(room) => server_after_join(s, session, room),
            None => s,
        },
    }
}

/// The coordinator after each of `cbs`, in order, handled `message` from `session`.
pub open spec fn apply_callbacks(cbs: Seq<MessageCallback>, session: u128, message: EnvelopeView, s: ServerView) -> ServerView
    decreases cbs.len(),
{
    if cbs.len() == 0 {
        s
    } else {
        callback_effect(cbs.last(), session, message, apply_callbacks(cbs.drop_last(), session, message, s))
    }
}

/// The coordinator after `message` from `session` was dispatched to the
/// handlers registered for its type.
pub open spec fn server_after_dispatch(
    handlers: HandlerMap,
    session: u128,
    message: EnvelopeView,
    s: ServerView,
) -> ServerView {
    apply_callbacks(handlers_for(handlers, message.message_type), session, message, s)
}

/// No-op on an unregistered type: a message whose type has no handlers leaves
/// the coordinator, its queue of replies included, exactly as it was.
pub proof fn lemma_unregistered_type_is_noop(
    handlers: HandlerMap,
    session: u128,
    message: EnvelopeView,
    s: ServerView,
)
    requires
        !handlers.contains_key(message.message_type),
    ensures
        server_after_dispatch(handlers, session, message, s) == s,
{
}

/// Handlers only ever append to the queue of replies.
pub proof fn lemma_dispatch_appends(cbs: Seq<MessageCallback>, session: u128, message: EnvelopeView, s: ServerView)
    ensures
        s.outbox.is_prefix_of(apply_callbacks(cbs, session, message, s).outbox),
    decreases cbs.len(),
{
    if cbs.len() > 0 {
        lemma_dispatch_appends(cbs.drop_last(), session, message, s);
        let mid = apply_callbacks(cbs.drop_last(), session, message, s);
        let end = apply_callbacks(cbs, session, message, s);
        assert(mid.outbox.is_prefix_of(end.outbox)) by {
            assert(end.outbox.len() >= mid.outbox.len());
            assert forall|i: int| 0 <= i < mid.outbox.len() implies mid.outbox[i] == end.outbox[i] by {}
        }
    }
}

/// Per-connection ordering: when one connection sends two frames, the first
/// is dispatched in full before the second, so every reply to the first is
/// queued ahead of every reply to the second.
pub proof fn lemma_per_connection_order(
    handlers: HandlerMap,
    session: u128,
    first: EnvelopeView,
    second: EnvelopeView,
    s: ServerView,
)
    ensures
        ({
            let s1 = server_after_dispatch(handlers, session, first, s);
            let s2 = server_after_dispatch(handlers, session, second, s1);
            s.outbox.is_prefix_of(s1.outbox) && s1.outbox.is_prefix_of(s2.outbox)
        }),
{
    let s1 = server_after_dispatch(handlers, session, first, s);
    lemma_dispatch_appends(handlers_for(handlers, first.message_type), session, first, s);
    lemma_dispatch_appends(handlers_for(handlers, second.message_type), session, second, s1);
}

/// The message dispatcher: for each message type, its handlers in order.
pub struct MessageHandler {
    callbacks: CallbackTable,
}

impl View for MessageHandler {
    type V = HandlerMap;

    closed spec fn view(&self) -> HandlerMap {
        callback_lists(self.callbacks)
    }
}

impl MessageHandler {
    /// A dispatcher with no handlers.
    pub fn new() -> (r: MessageHandler)
        ensures
            r@ == HandlerMap::empty(),
    {
        MessageHandler { callbacks: CallbackTable::new() }
    }

    /// Appends `callback` to the handlers of `message_type`.
    pub fn add_callback(&mut self, message_type: &str, callback: MessageCallback)
        ensures
            final(self)@ == old(self)@.insert(message_type@, handlers_for(old(self)@, message_type@).push(callback)),
    {
        self.callbacks.push(message_type.to_string(), callback);
    }

    /// Runs every handler registered for the message's type, in order of
    /// registration; a type with no handlers changes nothing.
    pub fn handle_message(&self, message: &ClientMessageIncoming, server: &mut GameServer)
        requires
            old(server).wf(),
        ensures
            final(server).wf(),
            final(server)@ == server_after_dispatch(self@, message.session_id, message.message@, old(server)@),
    {
        let ghost m = message.message@;
        let ghost session = message.session_id;
        match self.callbacks.get(&message.message.message_type) {
            None => {},
            Some(list) => {
                let ghost cbs = list@.map_values(|c: MessageCallbackSendSync| c.0);
                let mut i: usize = 0;
                while i < list.len()
                    invariant
                        i <= list@.len(),
                        cbs == list@.map_values(|c: MessageCallbackSendSync| c.0),
                        cbs == handlers_for(self@, m.message_type),
                        m == message.message@,
                        session == message.session_id,
                        server.wf(),
                        server@ == apply_callbacks(cbs.take(i as int), session, m, old(server)@),
                    decreases list@.len() - i,
                {
                    assert(cbs.take(i + 1).drop_last() =~= cbs.take(i as int));
                    match list[i].0 {
                        MessageCallback::ListRooms => list_rooms(message, server),
                        MessageCallback::JoinRoom => join_room(message, server),
                    }
                    i = i + 1;
                }
                assert(cbs.take(cbs.len() as int) =~= cbs);
            },
        }
    }
}

} // verus!
