use vstd::prelude::*;

verus! {

/// One message of a topic's log: an opaque sequence of payload bytes.
#[derive(Debug, PartialEq, Eq)]
pub struct Message {
    pub payload: Vec<u8>,
}

impl View for Message {
    type V = Seq<u8>;

    open spec fn view(&self) -> Seq<u8> {
        self.payload@
    }
}

impl Message {
    /// The frame format stores a payload length in four bytes, so a
    /// message is well formed when its payload fits that field.
    pub open spec fn wf(self) -> bool {
        self.payload@.len() <= u32::MAX
    }

    pub fn new(payload: Vec<u8>) -> (m: Message)
        requires
            payload@.len() <= u32::MAX,
        ensures
            m.wf(),
            m@ == payload@,
    {
        Message { payload }
    }
}

/// The payload bytes of each message in a sequence, in the same order.
pub open spec fn payloads_of(messages: Seq<Message>) -> Seq<Seq<u8>> {
    messages.map_values(|m: Message| m@)
}

/// In-memory staging queue batching appends before a disk flush, strictly
/// first-in first-out. Pushing never fails on its own; the owning segment
/// is responsible for flushing once the threshold is reached.
pub struct MessageBuffer {
    pub messages: Vec<Message>,
}

impl View for MessageBuffer {
    type V = Seq<Message>;

    open spec fn view(&self) -> Seq<Message> {
        self.messages@
    }
}

impl MessageBuffer {
    pub fn new() -> (b: MessageBuffer)
        ensures
            b@ =~= Seq::<Message>::empty(),
    {
        MessageBuffer { messages: Vec::new() }
    }

    /// Appends one message at the tail; no reordering is ever permitted.
    pub fn push(&mut self, message: Message)
        ensures
            final(self)@ == old(self)@.push(message),
    {
        self.messages.push(message);
    }

    /// Exact number of buffered messages.
    pub fn len(&self) -> (n: usize)
        ensures
            n == self@.len(),
    {
        self.messages.len()
    }
}

} // verus!
