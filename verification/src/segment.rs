use vstd::prelude::*;
use crate::codec::{decode_all, decode_messages, encode_all, encode_messages, payloads_wf};
use crate::error::StreamError;
use crate::message::{payloads_of, Message, MessageBuffer};

verus! {

/// Default capacity of one segment, in messages.
pub const SEGMENT_SIZE: u64 = 1000;

/// Default number of buffered messages that triggers a flush.
pub const MESSAGES_IN_BUFFER_THRESHOLD: u64 = 100;

/// Sizing of the storage engine, validated once at startup and threaded
/// down to every segment at construction.
#[derive(Clone, Copy, Debug, PartialEq, Eq, Structural)]
pub struct StorageConfig {
    /// Capacity of one segment, in messages.
    pub segment_size: u64,
    /// Number of buffered messages that triggers a flush.
    pub messages_in_buffer_threshold: u64,
}

impl StorageConfig {
    /// A configuration is valid when the segment capacity is a positive
    /// multiple of the buffer flush threshold.
    pub open spec fn valid(self) -> bool {
        &&& self.messages_in_buffer_threshold >= 1
        &&& self.segment_size >= self.messages_in_buffer_threshold
        &&& self.segment_size % self.messages_in_buffer_threshold == 0
    }

    /// The default sizing.
    pub fn new() -> (c: StorageConfig)
        ensures
            c.valid(),
            c.segment_size == SEGMENT_SIZE,
            c.messages_in_buffer_threshold == MESSAGES_IN_BUFFER_THRESHOLD,
    {
        StorageConfig { segment_size: SEGMENT_SIZE, messages_in_buffer_threshold: MESSAGES_IN_BUFFER_THRESHOLD }
    }

    /// Checks the sizing invariant; the error carries the offending values.
    pub fn validate(&self) -> (r: Result<(), StreamError>)
        ensures
            self.valid() <==> r is Ok,
            !self.valid() ==> r == Err::<(), StreamError>(StreamError::InvalidSegmentSize(
                self.segment_size,
                self.messages_in_buffer_threshold,
            )),
    {
        if self.messages_in_buffer_threshold == 0 || self.segment_size
            < self.messages_in_buffer_threshold || self.segment_size
            % self.messages_in_buffer_threshold != 0 {
            Err(StreamError::InvalidSegmentSize(self.segment_size, self.messages_in_buffer_threshold))
        } else {
            Ok(())
        }
    }
}

/// For every valid configuration, the segment capacity is at least the
/// flush threshold and an exact multiple of it.
pub proof fn lemma_valid_config_divisible(c: StorageConfig)
    requires
        c.valid(),
    ensures
        c.segment_size >= c.messages_in_buffer_threshold,
        c.segment_size % c.messages_in_buffer_threshold == 0,
{
}

/// One bounded, append-only unit of a topic's log: the durable messages
/// already flushed, plus an in-memory buffer batching new appends.
pub struct Segment {
    /// Position of this segment within its topic, in ascending log order.
    pub sequence: u64,
    /// Sizing this segment was created with.
    pub config: StorageConfig,
    /// Messages already flushed to the segment's durable storage.
    pub stored: Vec<Message>,
    /// Messages appended but not yet flushed, in arrival order.
    pub buffer: MessageBuffer,
}

impl Segment {
    /// Payloads already flushed to durable storage, in log order.
    pub open spec fn durable(self) -> Seq<Seq<u8>> {
        payloads_of(self.stored@)
    }

    /// Payloads still waiting in the buffer, in arrival order.
    pub open spec fn pending(self) -> Seq<Seq<u8>> {
        payloads_of(self.buffer@)
    }

    /// Every payload of the segment, durable first, buffered after.
    pub open spec fn log(self) -> Seq<Seq<u8>> {
        self.durable() + self.pending()
    }

    /// Number of messages held, durable and buffered together.
    pub open spec fn count(self) -> int {
        self.stored@.len() + self.buffer@.len() as int
    }

    /// Structural invariant except for the buffer bound: sizing is valid,
    /// the segment is within capacity, every message fits a frame, and the
    /// buffer never exceeds the flush threshold.
    pub open spec fn inv(self) -> bool {
        &&& self.config.valid()
        &&& self.count() <= self.config.segment_size
        &&& self.buffer@.len() <= self.config.messages_in_buffer_threshold
        &&& forall|i: int| 0 <= i < self.stored@.len() ==> (#[trigger] self.stored@[i]).wf()
        &&& forall|i: int| 0 <= i < self.buffer@.len() ==> (#[trigger] self.buffer@[i]).wf()
    }

    /// Full invariant between operations: the buffer is strictly below the
    /// threshold, since reaching it triggers an immediate flush.
    pub open spec fn wf(self) -> bool {
        &&& self.inv()
        &&& self.buffer@.len() < self.config.messages_in_buffer_threshold
    }

    /// An empty segment with the given sequence number.
    pub fn create(sequence: u64, config: StorageConfig) -> (s: Segment)
        requires
            config.valid(),
        ensures
            s.wf(),
            s.sequence == sequence,
            s.config == config,
            s.log() =~= Seq::<Seq<u8>>::empty(),
            s.durable() =~= Seq::<Seq<u8>>::empty(),
            s.count() == 0,
    {
        Segment { sequence, config, stored: Vec::new(), buffer: MessageBuffer::new() }
    }

    /// Whether the segment has reached its capacity, so that the next
    /// append must go to a fresh segment.
    pub open spec fn is_full_spec(self) -> bool {
        self.count() >= self.config.segment_size
    }

    pub fn is_full(&self) -> (r: bool)
        requires
            self.inv(),
        ensures
            r == self.is_full_spec(),
    {
        self.stored.len() as u64 + self.buffer.len() as u64 >= self.config.segment_size
    }

    /// Appends one message to the buffer; reaching the flush threshold
    /// flushes the buffer to durable storage at once.
    pub fn append(&mut self, message: Message)
        requires
            old(self).wf(),
            message.wf(),
            !old(self).is_full_spec(),
        ensures
            final(self).wf(),
            final(self).sequence == old(self).sequence,
            final(self).config == old(self).config,
            final(self).count() == old(self).count() + 1,
            final(self).log() == old(self).log().push(message@),
            old(self).buffer@.len() + 1 == old(self).config.messages_in_buffer_threshold
                ==> final(self).durable() == old(self).log().push(message@)
                && final(self).pending().len() == 0,
            old(self).buffer@.len() + 1 < old(self).config.messages_in_buffer_threshold
                ==> final(self).durable() == old(self).durable()
                && final(self).pending() == old(self).pending().push(message@),
    {
        let ghost before = *self;
        self.buffer.push(message);
        proof {
            assert(self.pending() =~= before.pending().push(message@));
            assert(self.log() =~= before.log().push(message@));
        }
        if self.buffer.len() as u64 >= self.config.messages_in_buffer_threshold {
            let ghost mid = *self;
            self.flush();
            proof {
                assert(mid.log() == before.log().push(message@));
            }
        }
    }

    /// Moves every buffered message to durable storage, in order. Flushing
    /// an empty buffer leaves the durable storage untouched.
    pub fn flush(&mut self)
        requires
            old(self).inv(),
        ensures
            final(self).wf(),
            final(self).sequence == old(self).sequence,
            final(self).config == old(self).config,
            final(self).count() == old(self).count(),
            final(self).log() == old(self).log(),
            final(self).durable() == old(self).log(),
            final(self).pending().len() == 0,
            old(self).pending().len() == 0 ==> final(self).durable() == old(self).durable(),
    {
        let ghost before = *self;
        self.stored.append(&mut self.buffer.messages);
        proof {
            assert(self.durable() =~= before.durable() + before.pending());
            assert(self.pending() =~= Seq::<Seq<u8>>::empty());
            assert(self.log() =~= before.log());
            if before.pending().len() == 0 {
                assert(self.durable() =~= before.durable());
            }
        }
    }

    /// The byte image of the durable part, as it is written to disk.
    pub fn durable_bytes(&self) -> (bytes: Vec<u8>)
        requires
            self.inv(),
        ensures
            bytes@ == encode_all(self.durable()),
    {
        encode_messages(&self.stored)
    }

    /// Rebuilds a segment from the byte image read back from disk. An empty
    /// image is a valid segment with zero messages; a truncated image, or
    /// one holding more messages than the configured capacity, is corrupt.
    pub fn load(sequence: u64, config: StorageConfig, bytes: &Vec<u8>) -> (r: Result<
        Segment,
        StreamError,
    >)
        requires
            config.valid(),
        ensures
            match decode_all(bytes@) {
                Some(ps) => if ps.len() <= config.segment_size {
                    &&& r matches Ok(s)
                    &&& s.wf()
                    &&& s.sequence == sequence
                    &&& s.config == config
                    &&& s.durable() == ps
                    &&& s.pending().len() == 0
                    &&& s.log() == ps
                } else {
                    r == Err::<Segment, StreamError>(StreamError::CannotParseSegment)
                },
                None => r == Err::<Segment, StreamError>(StreamError::CannotParseSegment),
            },
    {
        match decode_messages(bytes) {
            Ok(stored) => {
                if stored.len() as u64 > config.segment_size {
                    Err(StreamError::CannotParseSegment)
                } else {
                    let s = Segment { sequence, config, stored, buffer: MessageBuffer::new() };
                    proof {
                        assert(s.log() =~= s.durable());
                    }
                    Ok(s)
                }
            },
            Err(_) => Err(StreamError::CannotParseSegment),
        }
    }
}

/// Round trip: parsing the byte image written for a segment's durable part
/// restores exactly that durable part.
pub proof fn lemma_segment_round_trip(s: Segment)
    requires
        s.inv(),
    ensures
        decode_all(encode_all(s.durable())) == Some(s.durable()),
{
    assert(payloads_wf(s.durable()));
    crate::codec::lemma_decode_all_encode_all(s.durable());
}

} // verus!
