use vstd::prelude::*;

use crate::replay::{replay_line, MessageReplayBuffer};

verus! {

/// A client kept as a plain value by the Lua side: whether it is connected,
/// and every text it was given to send, oldest first.
pub struct WebsocketClient {
    pub running: bool,
    pub message_replay_buffer: MessageReplayBuffer,
}

impl WebsocketClient {
    /// A client that is not connected and has sent nothing.
    pub fn new() -> (c: Self)
        ensures
            !c.running,
            c.message_replay_buffer@ == Seq::<Seq<char>>::empty(),
    {
        WebsocketClient { running: false, message_replay_buffer: MessageReplayBuffer::new() }
    }

    /// Marks the client as connected; its messages are kept.
    pub fn connect(&mut self)
        ensures
            final(self).running,
            final(self).message_replay_buffer@ == old(self).message_replay_buffer@,
    {
        self.running = true;
    }

    /// Marks the client as not connected; its messages are kept.
    pub fn disconnect(&mut self)
        ensures
            !final(self).running,
            final(self).message_replay_buffer@ == old(self).message_replay_buffer@,
    {
        self.running = false;
    }

    /// Keeps `data` after every text given before; whether the client is
    /// connected does not change.
    pub fn send_data(&mut self, data: String)
        ensures
            final(self).running == old(self).running,
            final(self).message_replay_buffer@ == old(self).message_replay_buffer@.push(data@),
    {
        self.message_replay_buffer.add(data);
    }

    /// Whether the client is connected.
    pub fn is_active(&self) -> (b: bool)
        ensures
            b == self.running,
    {
        self.running
    }

    /// The lines that replaying the client's messages shows, oldest first.
    pub fn replay_messages(&self) -> (lines: Vec<String>)
        ensures
            lines@.map_values(|l: String| l@) == self.message_replay_buffer@.map_values(
                |m: Seq<char>| replay_line(m),
            ),
    {
        self.message_replay_buffer.replay_lines()
    }

    /// A copy of every text the client was given, oldest first.
    pub fn check_replay_messages(&self) -> (messages: Vec<String>)
        ensures
            messages@.map_values(|m: String| m@) == self.message_replay_buffer@,
    {
        self.message_replay_buffer.messages()
    }
}

} // verus!
