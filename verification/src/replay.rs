use vstd::prelude::*;
use vstd::string::*;

verus! {

/// The text that replaying a buffered message shows for it.
pub open spec fn replay_line(message: Seq<char>) -> Seq<char> {
    "From Rust: "@ + message
}

/// Every message broadcast by a server, in the order of broadcasting, kept
/// so that a client that connects later receives them all first.
pub struct OutboundMessageReplayBuffer {
    pub messages: Vec<String>,
}

impl View for OutboundMessageReplayBuffer {
    type V = Seq<Seq<char>>;

    open spec fn view(&self) -> Seq<Seq<char>> {
        self.messages@.map_values(|m: String| m@)
    }
}

impl OutboundMessageReplayBuffer {
    /// An empty buffer.
    pub fn new() -> (buffer: Self)
        ensures
            buffer@ == Seq::<Seq<char>>::empty(),
    {
        OutboundMessageReplayBuffer { messages: Vec::new() }
    }

    /// Appends `message` after every message already held.
    pub fn add(&mut self, message: String)
        ensures
            final(self)@ == old(self)@.push(message@),
    {
        self.messages.push(message);
        proof {
            assert(self@ =~= old(self)@.push(message@));
        }
    }

    /// A copy of the held messages, oldest first.
    pub fn messages(&self) -> (messages: Vec<String>)
        ensures
            messages@.map_values(|m: String| m@) == self@,
    {
        self.messages.clone()
    }

    /// The lines that replaying the buffer shows, one per message, oldest first.
    pub fn replay_lines(&self) -> (lines: Vec<String>)
        ensures
            lines@.map_values(|l: String| l@) == self@.map_values(|m: Seq<char>| replay_line(m)),
    {
        let lines = replay_lines_of(&self.messages);
        proof {
            assert(lines@.map_values(|l: String| l@) =~= self@.map_values(
                |m: Seq<char>| replay_line(m),
            ));
        }
        lines
    }
}

fn replay_lines_of(messages: &Vec<String>) -> (lines: Vec<String>)
    ensures
        lines@.map_values(|l: String| l@) == messages@.map_values(|m: String| replay_line(m@)),
{
    let mut lines: Vec<String> = Vec::new();
    let mut i: usize = 0;
    while i < messages.len()
        invariant
            i <= messages.len(),
            lines@.len() == i,
            forall|j: int| 0 <= j < i ==> #[trigger] lines@[j]@ == replay_line(messages@[j]@),
        decreases messages.len() - i,
    {
        proof {
            reveal_strlit("From Rust: ");
        }
        let mut line = String::from_str("From Rust: ");
        line.append(messages[i].as_str());
        lines.push(line);
        i = i + 1;
    }
    proof {
        assert(lines@.map_values(|l: String| l@) =~= messages@.map_values(
            |m: String| replay_line(m@),
        ));
    }
    lines
}

/// The messages a client accumulates while it is not connected, kept so
/// that they can be shown again.
pub struct MessageReplayBuffer {
    pub messages: Vec<String>,
}

impl View for MessageReplayBuffer {
    type V = Seq<Seq<char>>;

    open spec fn view(&self) -> Seq<Seq<char>> {
        self.messages@.map_values(|m: String| m@)
    }
}

impl MessageReplayBuffer {
    /// An empty buffer.
    pub fn new() -> (buffer: Self)
        ensures
            buffer@ == Seq::<Seq<char>>::empty(),
    {
        MessageReplayBuffer { messages: Vec::new() }
    }

    /// Appends `message` after every message already held.
    pub fn add(&mut self, message: String)
        ensures
            final(self)@ == old(self)@.push(message@),
    {
        self.messages.push(message);
        proof {
            assert(self@ =~= old(self)@.push(message@));
        }
    }

    /// A copy of the held messages, oldest first.
    pub fn messages(&self) -> (messages: Vec<String>)
        ensures
            messages@.map_values(|m: String| m@) == self@,
    {
        self.messages.clone()
    }

    /// The lines that replaying the buffer shows, one per message, oldest first.
    pub fn replay_lines(&self) -> (lines: Vec<String>)
        ensures
            lines@.map_values(|l: String| l@) == self@.map_values(|m: Seq<char>| replay_line(m)),
    {
        let lines = replay_lines_of(&self.messages);
        proof {
            assert(lines@.map_values(|l: String| l@) =~= self@.map_values(
                |m: Seq<char>| replay_line(m),
            ));
        }
        lines
    }
}

} // verus!
