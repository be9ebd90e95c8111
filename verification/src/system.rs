use vstd::prelude::*;
use crate::codec::decode_all;
use crate::consumer_offsets::ConsumerOffsetInfo;
use crate::error::StreamError;
use crate::message::Message;
use crate::segment::StorageConfig;
use crate::stream::{Stream, TopicOnDisk};
use crate::topic::segment_image_ok;

verus! {

/// Lifecycle of the process-wide orchestrator: it serves traffic only
/// while running, and a successful shutdown ends in the stopped state.
#[derive(Clone, Copy, Debug, PartialEq, Eq, Structural)]
pub enum SystemState {
    Running,
    Stopped,
}

/// What the startup pass over the filesystem found: whether the base and
/// topics directories exist (or could be created), and the byte images of
/// every persisted topic.
pub struct DiskLayout {
    /// The base directory exists or was created.
    pub base_dir_ready: bool,
    /// The topics directory exists or was created.
    pub topics_dir_ready: bool,
    /// One entry per persisted topic directory, ids unique.
    pub topics: Vec<TopicOnDisk>,
}

/// Process-wide orchestrator: owns the single stream, validates the sizing
/// invariant at startup, loads persisted topics, and drains every buffer
/// at shutdown.
pub struct System {
    pub stream: Stream,
    pub config: StorageConfig,
    pub state: SystemState,
}

impl System {
    pub open spec fn wf(self) -> bool {
        &&& self.config.valid()
        &&& self.stream.wf()
        &&& self.stream.config == self.config
    }

    /// Builds the system from a validated configuration and what startup
    /// found on disk. The sizing invariant is checked before anything else,
    /// so a misconfigured build fails before any directory or topic is
    /// touched; each directory failure maps to its own error; a corrupt
    /// topic aborts the whole startup.
    pub fn init(config: StorageConfig, disk: DiskLayout) -> (r: Result<System, StreamError>)
        requires
            forall|i: int, j: int| 0 <= i < j < disk.topics@.len()
                ==> (#[trigger] disk.topics@[i]).topic_id != (#[trigger] disk.topics@[j]).topic_id,
        ensures
            !config.valid() ==> r == Err::<System, StreamError>(StreamError::InvalidSegmentSize(
                config.segment_size,
                config.messages_in_buffer_threshold,
            )),
            config.valid() && !disk.base_dir_ready ==> r == Err::<System, StreamError>(
                StreamError::CannotCreateBaseDirectory,
            ),
            config.valid() && disk.base_dir_ready && !disk.topics_dir_ready ==> r == Err::<
                System,
                StreamError,
            >(StreamError::CannotCreateTopicsDirectory),
            match r {
                Ok(sys) => {
                    &&& config.valid()
                    &&& disk.base_dir_ready
                    &&& disk.topics_dir_ready
                    &&& sys.wf()
                    &&& sys.config == config
                    &&& sys.state == SystemState::Running
                    &&& sys.stream.topics@.len() == disk.topics@.len()
                    &&& forall|i: int| 0 <= i < disk.topics@.len()
                        ==> (#[trigger] sys.stream.topics@[i]).topic_id
                            == disk.topics@[i].topic_id
                        && sys.stream.topics@[i].all_flushed()
                        && sys.stream.topics@[i].segments@.len()
                            == disk.topics@[i].segments@.len()
                        && (forall|j: int| 0 <= j < disk.topics@[i].segments@.len()
                            ==> decode_all((#[trigger] disk.topics@[i].segments@[j])@)
                                == Some(sys.stream.topics@[i].segments@[j].durable()))
                },
                Err(e) => config.valid() && disk.base_dir_ready && disk.topics_dir_ready ==> e
                    == StreamError::CannotParseSegment && (exists|i: int, j: int|
                    0 <= i < disk.topics@.len() && 0 <= j < disk.topics@[i].segments@.len()
                        && !segment_image_ok(
                        (#[trigger] disk.topics@[i].segments@[j])@,
                        config,
                    )),
            },
            config.valid() && disk.base_dir_ready && disk.topics_dir_ready && (forall|
                i: int,
                j: int,
            |
                0 <= i < disk.topics@.len() && 0 <= j < disk.topics@[i].segments@.len()
                    ==> segment_image_ok((#[trigger] disk.topics@[i].segments@[j])@, config))
                ==> r is Ok,
    {
        match config.validate() {
            Ok(_) => {},
            Err(e) => {
                return Err(e);
            },
        }
        if !disk.base_dir_ready {
            return Err(StreamError::CannotCreateBaseDirectory);
        }
        if !disk.topics_dir_ready {
            return Err(StreamError::CannotCreateTopicsDirectory);
        }
        let mut stream = Stream::create(0, config);
        match stream.load_topics_from_disk(&disk.topics) {
            Ok(_) => Ok(System { stream, config, state: SystemState::Running }),
            Err(e) => Err(e),
        }
    }

    /// Appends one message at the tail of the named topic's log.
    pub fn append_message(&mut self, topic_id: u64, message: Message) -> (r: Result<
        (),
        StreamError,
    >)
        requires
            old(self).wf(),
            message.wf(),
        ensures
            final(self).wf(),
            final(self).config == old(self).config,
            final(self).state == old(self).state,
            final(self).stream.stream_id == old(self).stream.stream_id,
            final(self).stream.topics@.len() == old(self).stream.topics@.len(),
            !old(self).stream.has_topic(topic_id) ==> r == Err::<(), StreamError>(
                StreamError::TopicNotFound,
            ),
            old(self).stream.has_topic(topic_id) ==> r is Ok,
            forall|i: int| 0 <= i < old(self).stream.topics@.len() && (#[trigger] old(self).stream.topics@[i]).topic_id == topic_id && r is Ok
                ==> final(self).stream.topics@[i].log() == old(self).stream.topics@[i].log().push(
                message@,
            ) && final(self).stream.topics@[i].topic_id == topic_id && final(self).stream.topics@[i].consumer_offsets@ == old(self).stream.topics@[i].consumer_offsets@,
            forall|i: int| 0 <= i < old(self).stream.topics@.len() && (#[trigger] old(self).stream.topics@[i]).topic_id != topic_id ==> final(self).stream.topics@[i] == old(self).stream.topics@[i],
    {
        self.stream.append_message(topic_id, message)
    }

    /// Inserts or overwrites the committed offset of one consumer of the
    /// named topic. The offset is stored as given, without validation
    /// against the current log length.
    pub fn store_consumer_offset(&mut self, topic_id: u64, consumer_id: u64, offset: u64) -> (r:
        Result<(), StreamError>)
        requires
            old(self).wf(),
        ensures
            final(self).wf(),
            final(self).config == old(self).config,
            final(self).state == old(self).state,
            final(self).stream.stream_id == old(self).stream.stream_id,
            final(self).stream.topics@.len() == old(self).stream.topics@.len(),
            !old(self).stream.has_topic(topic_id) ==> r == Err::<(), StreamError>(
                StreamError::TopicNotFound,
            ),
            old(self).stream.has_topic(topic_id) ==> r is Ok,
            forall|i: int| 0 <= i < old(self).stream.topics@.len() && (#[trigger] old(self).stream.topics@[i]).topic_id == topic_id ==> final(self).stream.topics@[i].offset_of(consumer_id) == Some(offset) && final(self).stream.topics@[i].topic_id == topic_id && final(self).stream.topics@[i].segments@
                == old(self).stream.topics@[i].segments@ && (forall|c: u64|
                c != consumer_id ==> final(self).stream.topics@[i].offset_of(c) == old(self).stream.topics@[i].offset_of(c)),
            forall|i: int| 0 <= i < old(self).stream.topics@.len() && (#[trigger] old(self).stream.topics@[i]).topic_id != topic_id ==> final(self).stream.topics@[i] == old(self).stream.topics@[i],
    {
        self.stream.store_consumer_offset(topic_id, consumer_id, offset)
    }

    /// The committed offset of one consumer as a fresh snapshot, or the
    /// typed error naming what was missing; never a default position.
    pub fn get_consumer_offset(&self, topic_id: u64, consumer_id: u64) -> (r: Result<
        ConsumerOffsetInfo,
        StreamError,
    >)
        requires
            self.wf(),
        ensures
            !self.stream.has_topic(topic_id) ==> r == Err::<ConsumerOffsetInfo, StreamError>(
                StreamError::TopicNotFound,
            ),
            forall|i: int| 0 <= i < self.stream.topics@.len()
                && (#[trigger] self.stream.topics@[i]).topic_id == topic_id ==> r == match self.stream.topics@[i].offset_of(consumer_id) {
                Some(offset) => Ok::<ConsumerOffsetInfo, StreamError>(ConsumerOffsetInfo {
                    stream_id: self.stream.stream_id,
                    topic_id,
                    consumer_id,
                    offset,
                }),
                None => Err::<ConsumerOffsetInfo, StreamError>(
                    StreamError::ConsumerOffsetNotFound,
                ),
            },
    {
        match self.stream.get_consumer_offset(topic_id, consumer_id) {
            Ok(offset) => Ok(
                ConsumerOffsetInfo {
                    stream_id: self.stream.stream_id,
                    topic_id,
                    consumer_id,
                    offset,
                },
            ),
            Err(e) => Err(e),
        }
    }

    /// Flushes every buffered message of every topic to durable storage.
    pub fn save_existing_messages(&mut self) -> (r: Result<(), StreamError>)
        requires
            old(self).wf(),
        ensures
            r is Ok,
            final(self).wf(),
            final(self).config == old(self).config,
            final(self).state == old(self).state,
            final(self).stream.stream_id == old(self).stream.stream_id,
            final(self).stream.topics@.len() == old(self).stream.topics@.len(),
            forall|i: int| 0 <= i < old(self).stream.topics@.len() ==> (#[trigger] final(self).stream.topics@[i]).log() == old(self).stream.topics@[i].log() && final(self).stream.topics@[i].all_flushed() && final(self).stream.topics@[i].topic_id == old(self).stream.topics@[i].topic_id && final(self).stream.topics@[i].consumer_offsets@ == old(self).stream.topics@[i].consumer_offsets@
                && final(self).stream.topics@[i].segments@.len() == old(self).stream.topics@[i].segments@.len() && (forall|j: int|
                0 <= j < old(self).stream.topics@[i].segments@.len() ==> (#[trigger] final(self).stream.topics@[i].segments@[j]).durable() == old(self).stream.topics@[i].segments@[j].log()),
    {
        self.stream.save_existing_messages()
    }

    /// Drains every in-memory buffer to durable storage and stops. After a
    /// successful shutdown every message ever appended is durable, buffered
    /// ones below the flush threshold included; a flush failure would be
    /// surfaced in the result, not suppressed.
    pub fn shutdown(&mut self) -> (r: Result<(), StreamError>)
        requires
            old(self).wf(),
        ensures
            r is Ok,
            final(self).wf(),
            final(self).config == old(self).config,
            final(self).state == SystemState::Stopped,
            final(self).stream.stream_id == old(self).stream.stream_id,
            final(self).stream.topics@.len() == old(self).stream.topics@.len(),
            forall|i: int| 0 <= i < old(self).stream.topics@.len() ==> (#[trigger] final(self).stream.topics@[i]).log() == old(self).stream.topics@[i].log() && final(self).stream.topics@[i].all_flushed() && final(self).stream.topics@[i].topic_id == old(self).stream.topics@[i].topic_id && final(self).stream.topics@[i].consumer_offsets@ == old(self).stream.topics@[i].consumer_offsets@
                && final(self).stream.topics@[i].segments@.len() == old(self).stream.topics@[i].segments@.len() && (forall|j: int|
                0 <= j < old(self).stream.topics@[i].segments@.len() ==> (#[trigger] final(self).stream.topics@[i].segments@[j]).durable() == old(self).stream.topics@[i].segments@[j].log()),
    {
        let r = self.save_existing_messages();
        self.state = SystemState::Stopped;
        r
    }
}

} // verus!
