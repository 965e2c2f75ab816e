//! The per-connection protocol state machine: it turns inbound frames into
//! dispatches and replies, and outbound envelopes into text frames.
use vstd::prelude::*;

use crate::codec::{encode_envelope, envelope_text, json_str_member, str_member};
use crate::message::{
    ClientMessage, ClientMessageIncoming, ClientMessageOutgoing, EnvelopeView, MessageHandler,
    server_after_dispatch,
};
use crate::server::{GameServer, ServerView, server_after_add, server_after_remove};

verus! {

/// Where a connection stands.
#[derive(Debug, Clone, Copy, PartialEq, Eq, Structural)]
pub enum ConnectionState {
    Connecting,
    Open,
    Closing,
    Closed,
}

/// A frame that arrived on a connection.
#[derive(Debug)]
pub enum Frame {
    Ping(Vec<u8>),
    Pong(Vec<u8>),
    Text(String),
    Binary(Vec<u8>),
    Close,
    /// Any other frame, or a protocol error.
    Other,
}

/// What the connection writes back for a frame.
#[derive(Debug)]
pub enum Reply {
    Nothing,
    Pong(Vec<u8>),
    Binary(Vec<u8>),
    Close,
}

/// The envelope that a text frame holds: a JSON object with string members
/// `type` and `content`.
pub open spec fn envelope_of(text: Seq<char>) -> Option<EnvelopeView> {
    match (json_str_member(text, "type"@), json_str_member(text, "content"@)) {
        (Some(t), Some(c)) => Some(EnvelopeView { message_type: t, content: c }),
        _ => None,
    }
}

/// Reads an envelope from the text of a frame.
pub fn decode_envelope(text: &str) -> (r: Option<ClientMessage>)
    ensures
        r is None <==> envelope_of(text@) is None,
        r matches Some(m) ==> envelope_of(text@) == Some(m@),
{
    let message_type = match str_member(text, "type") {
        Some(t) => t,
        None => return None,
    };
    match str_member(text, "content") {
        Some(content) => Some(ClientMessage { message_type, content }),
        None => None,
    }
}

/// One client connection.
pub struct WsSession {
    pub id: u128,
    pub state: ConnectionState,
}

impl WsSession {
    /// A connection with session identifier `id`, not yet open.
    pub fn new(id: u128) -> (r: WsSession)
        ensures
            r.id == id,
            r.state == ConnectionState::Connecting,
    {
        WsSession { id, state: ConnectionState::Connecting }
    }

    /// Opens the connection and registers its session; does nothing unless the
    /// connection is still connecting.
    pub fn started(&mut self, server: &mut GameServer)
        requires
            old(server).wf(),
        ensures
            final(server).wf(),
            final(self).id == old(self).id,
            old(self).state == ConnectionState::Connecting ==> final(self).state == ConnectionState::Open
                && final(server)@ == server_after_add(old(server)@, old(self).id),
            old(self).state != ConnectionState::Connecting ==> final(self).state == old(self).state
                && final(server)@ == old(server)@,
    {
        if self.state == ConnectionState::Connecting {
            server.add_session(self.id);
            self.state = ConnectionState::Open;
        }
    }

    /// Handles one inbound frame. A close, in whatever state, removes the
    /// session from the registry and from every room and leaves the
    /// connection closed; it is answered with a close unless the connection
    /// was closed already. While the connection is open, a ping is answered
    /// with a pong of the same bytes, binary data is echoed, and a text frame
    /// that holds an envelope is dispatched while any other text is ignored.
    /// Other frames, and any frame but a close while the connection is not
    /// open, are ignored.
    pub fn handle(&mut self, frame: Frame, handler: &MessageHandler, server: &mut GameServer) -> (r: Reply)
        requires
            old(server).wf(),
        ensures
            final(server).wf(),
            final(self).id == old(self).id,
            frame is Close ==> final(server)@ == server_after_remove(old(server)@, old(self).id)
                && final(self).state == ConnectionState::Closed
                && (r is Close <==> old(self).state != ConnectionState::Closed)
                && (r is Close || r is Nothing),
            !(frame is Close) && old(self).state != ConnectionState::Open ==> final(self).state == old(self).state
                && final(server)@ == old(server)@ && r is Nothing,
            old(self).state == ConnectionState::Open ==> match frame {
                Frame::Ping(b) => (r matches Reply::Pong(p) && p@ == b@) && final(server)@ == old(server)@
                    && final(self).state == ConnectionState::Open,
                Frame::Binary(b) => (r matches Reply::Binary(p) && p@ == b@) && final(server)@ == old(server)@
                    && final(self).state == ConnectionState::Open,
                Frame::Text(t) => r is Nothing && final(self).state == ConnectionState::Open
                    && final(server)@ == match envelope_of(t@) {
                        Some(m) => server_after_dispatch(handler@, old(self).id, m, old(server)@),
                        None => old(server)@,
                    },
                Frame::Close => true,
                _ => r is Nothing && final(server)@ == old(server)@ && final(self).state == ConnectionState::Open,
            },
    {
        if let Frame::Close = frame {
            let was_closed = self.state == ConnectionState::Closed;
            self.state = ConnectionState::Closing;
            server.remove_session(self.id);
            self.state = ConnectionState::Closed;
            return if was_closed { Reply::Nothing } else { Reply::Close };
        }
        if self.state != ConnectionState::Open {
            return Reply::Nothing;
        }
        match frame {
            Frame::Ping(bytes) => Reply::Pong(bytes),
            Frame::Text(text) => {
                match decode_envelope(text.as_str()) {
                    Some(message) => {
                        let incoming = ClientMessageIncoming { session_id: self.id, message };
                        handler.handle_message(&incoming, server);
                    },
                    None => {},
                }
                Reply::Nothing
            },
            Frame::Binary(bytes) => Reply::Binary(bytes),
            _ => Reply::Nothing,
        }
    }

    /// The text frame that carries an outbound envelope.
    pub fn handle_outgoing(&self, message: &ClientMessageOutgoing) -> (r: String)
        ensures
            r@ == envelope_text(message.0@.message_type, message.0@.content),
    {
        encode_envelope(message.0.message_type.as_str(), message.0.content.as_str())
    }
}

} // verus!
