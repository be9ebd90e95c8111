use vstd::prelude::*;
use crate::codec::decode_all;
use crate::error::StreamError;
use crate::message::Message;
use crate::segment::StorageConfig;
use crate::topic::{segment_image_ok, Topic};

verus! {

/// The byte images of one persisted topic: its id and the image of each of
/// its segment files, in ascending sequence order.
pub struct TopicOnDisk {
    pub topic_id: u64,
    pub segments: Vec<Vec<u8>>,
}

/// A named collection of topics: the registry one broker process serves.
pub struct Stream {
    /// Identity of the stream.
    pub stream_id: u64,
    /// Sizing shared by every topic of the stream.
    pub config: StorageConfig,
    /// The topics, one entry per topic id.
    pub topics: Vec<Topic>,
}

impl Stream {
    /// Topic ids are unique, and every topic is well formed and shares the
    /// stream's sizing.
    pub open spec fn wf(self) -> bool {
        &&& self.config.valid()
        &&& forall|i: int| 0 <= i < self.topics@.len() ==> (#[trigger] self.topics@[i]).wf()
            && self.topics@[i].config == self.config
        &&& forall|i: int, j: int| 0 <= i < j < self.topics@.len()
            ==> (#[trigger] self.topics@[i]).topic_id != (#[trigger] self.topics@[j]).topic_id
    }

    /// Whether some topic carries the given id.
    pub open spec fn has_topic(self, topic_id: u64) -> bool {
        exists|i: int| 0 <= i < self.topics@.len() && (#[trigger] self.topics@[i]).topic_id
            == topic_id
    }

    /// An empty in-memory stream; no disk is touched.
    pub fn create(stream_id: u64, config: StorageConfig) -> (s: Stream)
        requires
            config.valid(),
        ensures
            s.wf(),
            s.stream_id == stream_id,
            s.config == config,
            s.topics@.len() == 0,
    {
        Stream { stream_id, config, topics: Vec::new() }
    }

    /// Adds an empty topic under a fresh id; refuses a taken id.
    pub fn create_topic(&mut self, topic_id: u64) -> (r: Result<(), StreamError>)
        requires
            old(self).wf(),
        ensures
            final(self).wf(),
            final(self).stream_id == old(self).stream_id,
            final(self).config == old(self).config,
            old(self).has_topic(topic_id) ==> r == Err::<(), StreamError>(
                StreamError::TopicAlreadyExists,
            ) && final(self).topics@ == old(self).topics@,
            !old(self).has_topic(topic_id) ==> r is Ok && final(self).topics@.len() == old(self).topics@.len() + 1 && final(self).topics@.last().topic_id == topic_id
                && final(self).topics@.last().log() =~= Seq::<Seq<u8>>::empty()
                && final(self).topics@.last().segments@.len() == 0
                && (forall|c: u64| final(self).topics@.last().offset_of(c) == None::<u64>)
                && forall|i: int| 0 <= i < old(self).topics@.len()
                    ==> (#[trigger] final(self).topics@[i]) == old(self).topics@[i],
    {
        let n = self.topics.len();
        let mut i: usize = 0;
        while i < n
            invariant
                old(self).wf(),
                *self == *old(self),
                n == self.topics@.len(),
                i <= n,
                forall|k: int| 0 <= k < i ==> (#[trigger] self.topics@[k]).topic_id != topic_id,
            decreases n - i,
        {
            if self.topics[i].topic_id == topic_id {
                return Err(StreamError::TopicAlreadyExists);
            }
            i = i + 1;
        }
        let topic = Topic::create(topic_id, self.config);
        self.topics.push(topic);
        Ok(())
    }

    /// Index of the topic carrying the given id, if any.
    fn find_topic(&self, topic_id: u64) -> (r: Option<usize>)
        requires
            self.wf(),
        ensures
            match r {
                Some(i) => i < self.topics@.len() && self.topics@[i as int].topic_id == topic_id,
                None => !self.has_topic(topic_id),
            },
    {
        let n = self.topics.len();
        let mut i: usize = 0;
        while i < n
            invariant
                n == self.topics@.len(),
                i <= n,
                forall|k: int| 0 <= k < i ==> (#[trigger] self.topics@[k]).topic_id != topic_id,
            decreases n - i,
        {
            if self.topics[i].topic_id == topic_id {
                return Some(i);
            }
            i = i + 1;
        }
        None
    }

    /// Appends one message at the tail of the named topic's log.
    pub fn append_message(&mut self, topic_id: u64, message: Message) -> (r: Result<
        (),
        StreamError,
    >)
        requires
            old(self).wf(),
            message.wf(),
        ensures
            final(self).wf(),
            final(self).stream_id == old(self).stream_id,
            final(self).config == old(self).config,
            final(self).topics@.len() == old(self).topics@.len(),
            !old(self).has_topic(topic_id) ==> r == Err::<(), StreamError>(
                StreamError::TopicNotFound,
            ) && final(self).topics@ == old(self).topics@,
            old(self).has_topic(topic_id) ==> r is Ok,
            forall|i: int| 0 <= i < old(self).topics@.len() && (#[trigger] old(self).topics@[i]).topic_id != topic_id ==> final(self).topics@[i] == old(self).topics@[i],
            forall|i: int| 0 <= i < old(self).topics@.len() && (#[trigger] old(self).topics@[i]).topic_id == topic_id && r is Ok ==> final(self).topics@[i].log() == old(self).topics@[i].log().push(message@) && final(self).topics@[i].consumer_offsets@ == old(self).topics@[i].consumer_offsets@ && final(self).topics@[i].topic_id == topic_id,
    {
        let found = self.find_topic(topic_id);
        match found {
            Some(i) => {
                let ghost pre = self.topics@;
                let topic = &mut self.topics[i];
                topic.append_message(message);
                proof {
                    assert(self.topics@ =~= pre.update(i as int, self.topics@[i as int]));
                }
                Ok(())
            },
            None => Err(StreamError::TopicNotFound),
        }
    }

    /// Inserts or overwrites the committed offset of one consumer of the
    /// named topic.
    pub fn store_consumer_offset(&mut self, topic_id: u64, consumer_id: u64, offset: u64) -> (r:
        Result<(), StreamError>)
        requires
            old(self).wf(),
        ensures
            final(self).wf(),
            final(self).stream_id == old(self).stream_id,
            final(self).config == old(self).config,
            final(self).topics@.len() == old(self).topics@.len(),
            !old(self).has_topic(topic_id) ==> r == Err::<(), StreamError>(
                StreamError::TopicNotFound,
            ) && final(self).topics@ == old(self).topics@,
            old(self).has_topic(topic_id) ==> r is Ok,
            forall|i: int| 0 <= i < old(self).topics@.len() && (#[trigger] old(self).topics@[i]).topic_id != topic_id ==> final(self).topics@[i] == old(self).topics@[i],
            forall|i: int| 0 <= i < old(self).topics@.len() && (#[trigger] old(self).topics@[i]).topic_id == topic_id ==> final(self).topics@[i].offset_of(consumer_id)
                == Some(offset) && final(self).topics@[i].segments@ == old(self).topics@[i].segments@ && final(self).topics@[i].topic_id == topic_id && (forall|c: u64|
                c != consumer_id ==> final(self).topics@[i].offset_of(c) == old(self).topics@[i].offset_of(c)),
    {
        let found = self.find_topic(topic_id);
        match found {
            Some(i) => {
                let ghost pre = self.topics@;
                let topic = &mut self.topics[i];
                topic.store_consumer_offset(consumer_id, offset);
                proof {
                    assert(self.topics@ =~= pre.update(i as int, self.topics@[i as int]));
                }
                Ok(())
            },
            None => Err(StreamError::TopicNotFound),
        }
    }

    /// The offset committed by one consumer of the named topic, or the
    /// typed error naming what was missing.
    pub fn get_consumer_offset(&self, topic_id: u64, consumer_id: u64) -> (r: Result<
        u64,
        StreamError,
    >)
        requires
            self.wf(),
        ensures
            !self.has_topic(topic_id) ==> r == Err::<u64, StreamError>(StreamError::TopicNotFound),
            forall|i: int| 0 <= i < self.topics@.len() && (#[trigger] self.topics@[i]).topic_id
                == topic_id ==> r == match self.topics@[i].offset_of(consumer_id) {
                Some(offset) => Ok::<u64, StreamError>(offset),
                None => Err::<u64, StreamError>(StreamError::ConsumerOffsetNotFound),
            },
    {
        let found = self.find_topic(topic_id);
        match found {
            Some(i) => self.topics[i].get_consumer_offset(consumer_id),
            None => Err(StreamError::TopicNotFound),
        }
    }

    /// Flushes every topic's segments to durable storage, in registry
    /// order; used at shutdown.
    pub fn save_existing_messages(&mut self) -> (r: Result<(), StreamError>)
        requires
            old(self).wf(),
        ensures
            r is Ok,
            final(self).wf(),
            final(self).stream_id == old(self).stream_id,
            final(self).config == old(self).config,
            final(self).topics@.len() == old(self).topics@.len(),
            forall|i: int| 0 <= i < old(self).topics@.len() ==> (#[trigger] final(self).topics@[i]).log()
                == old(self).topics@[i].log() && final(self).topics@[i].all_flushed() && final(self).topics@[i].topic_id == old(self).topics@[i].topic_id && final(self).topics@[i].consumer_offsets@ == old(self).topics@[i].consumer_offsets@
                && final(self).topics@[i].segments@.len() == old(self).topics@[i].segments@.len()
                && (forall|j: int| 0 <= j < old(self).topics@[i].segments@.len()
                    ==> (#[trigger] final(self).topics@[i].segments@[j]).durable()
                        == old(self).topics@[i].segments@[j].log()),
    {
        let ghost orig = *old(self);
        let mut i: usize = 0;
        while i < self.topics.len()
            invariant
                orig.wf(),
                i <= self.topics@.len(),
                self.topics@.len() == orig.topics@.len(),
                self.stream_id == orig.stream_id,
                self.config == orig.config,
                forall|k: int| i <= k < self.topics@.len() ==> (#[trigger] self.topics@[k])
                    == orig.topics@[k],
                forall|k: int| 0 <= k < i ==> (#[trigger] self.topics@[k]).wf()
                    && self.topics@[k].config == orig.config
                    && self.topics@[k].topic_id == orig.topics@[k].topic_id
                    && self.topics@[k].all_flushed()
                    && self.topics@[k].log() == orig.topics@[k].log()
                    && self.topics@[k].consumer_offsets@ == orig.topics@[k].consumer_offsets@
                    && self.topics@[k].segments@.len() == orig.topics@[k].segments@.len()
                    && (forall|j: int| 0 <= j < orig.topics@[k].segments@.len()
                        ==> (#[trigger] self.topics@[k].segments@[j]).durable()
                            == orig.topics@[k].segments@[j].log()),
            decreases self.topics@.len() - i,
        {
            let ghost pre = self.topics@;
            proof {
                assert(pre[i as int] == orig.topics@[i as int]);
                assert(orig.topics@[i as int].wf());
            }
            let topic = &mut self.topics[i];
            let _ = topic.save_existing_messages();
            proof {
                assert(self.topics@ =~= pre.update(i as int, self.topics@[i as int]));
            }
            i = i + 1;
        }
        Ok(())
    }

    /// Mutable access to the topic registry, the sanctioned path for a
    /// shutdown pass over every topic.
    pub fn get_topics_mut(&mut self) -> (r: &mut Vec<Topic>)
        ensures
            *r == old(self).topics,
            final(self).topics == *final(r),
            final(self).stream_id == old(self).stream_id,
            final(self).config == old(self).config,
    {
        &mut self.topics
    }

    /// Rebuilds every persisted topic. Fails as a whole, leaving the
    /// registry unchanged, when any topic fails to load.
    pub fn load_topics_from_disk(&mut self, disk: &Vec<TopicOnDisk>) -> (r: Result<
        (),
        StreamError,
    >)
        requires
            old(self).wf(),
            old(self).topics@.len() == 0,
            forall|i: int, j: int| 0 <= i < j < disk@.len() ==> (#[trigger] disk@[i]).topic_id
                != (#[trigger] disk@[j]).topic_id,
        ensures
            final(self).wf(),
            final(self).stream_id == old(self).stream_id,
            final(self).config == old(self).config,
            r is Err ==> final(self).topics@.len() == 0 && r == Err::<(), StreamError>(
                StreamError::CannotParseSegment,
            ) && (exists|i: int, j: int| 0 <= i < disk@.len() && 0 <= j
                < disk@[i].segments@.len() && !segment_image_ok(
                (#[trigger] disk@[i].segments@[j])@,
                old(self).config,
            )),
            (forall|i: int, j: int| 0 <= i < disk@.len() && 0 <= j < disk@[i].segments@.len()
                ==> segment_image_ok((#[trigger] disk@[i].segments@[j])@, old(self).config))
                ==> r is Ok,
            r is Ok ==> final(self).topics@.len() == disk@.len() && forall|i: int|
                0 <= i < disk@.len() ==> (#[trigger] final(self).topics@[i]).topic_id
                    == disk@[i].topic_id && final(self).topics@[i].all_flushed() && final(self).topics@[i].segments@.len() == disk@[i].segments@.len() && (forall|j: int|
                    0 <= j < disk@[i].segments@.len() ==> decode_all(
                        (#[trigger] disk@[i].segments@[j])@,
                    ) == Some(final(self).topics@[i].segments@[j].durable())),
    {
        let mut loaded: Vec<Topic> = Vec::new();
        let mut i: usize = 0;
        while i < disk.len()
            invariant
                old(self).wf(),
                old(self).topics@.len() == 0,
                *self == *old(self),
                i <= disk@.len(),
                loaded@.len() == i,
                forall|a: int, b: int| 0 <= a < b < disk@.len() ==> (#[trigger] disk@[a]).topic_id
                    != (#[trigger] disk@[b]).topic_id,
                forall|k: int| 0 <= k < i ==> (#[trigger] loaded@[k]).wf()
                    && loaded@[k].config == self.config
                    && loaded@[k].topic_id == disk@[k].topic_id
                    && loaded@[k].all_flushed()
                    && loaded@[k].segments@.len() == disk@[k].segments@.len()
                    && (forall|j: int| 0 <= j < disk@[k].segments@.len() ==> decode_all(
                        (#[trigger] disk@[k].segments@[j])@,
                    ) == Some(loaded@[k].segments@[j].durable())),
            decreases disk@.len() - i,
        {
            let entry = &disk[i];
            match Topic::load(entry.topic_id, self.config, &entry.segments) {
                Ok(topic) => {
                    loaded.push(topic);
                },
                Err(_) => {
                    proof {
                        let k = choose|k: int| 0 <= k < entry.segments@.len()
                            && !segment_image_ok(entry.segments@[k]@, self.config);
                        assert(disk@[i as int].segments@[k] == entry.segments@[k]);
                        assert(!segment_image_ok(disk@[i as int].segments@[k]@, old(self).config));
                    }
                    return Err(StreamError::CannotParseSegment);
                },
            }
            i = i + 1;
        }
        self.topics = loaded;
        Ok(())
    }
}

} // verus!
