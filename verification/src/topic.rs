use vstd::prelude::*;
use crate::codec::{decode_all, encode_all};
use crate::error::StreamError;
use crate::message::Message;
use crate::segment::{Segment, StorageConfig};

verus! {

/// The payloads of a row of segments, joined in ascending sequence order.
pub open spec fn concat_logs(segments: Seq<Segment>) -> Seq<Seq<u8>>
    decreases segments.len(),
{
    if segments.len() == 0 {
        Seq::empty()
    } else {
        concat_logs(segments.drop_last()) + segments.last().log()
    }
}

/// Two rows of segments with pointwise equal logs have equal joined logs.
proof fn lemma_concat_logs_pointwise(a: Seq<Segment>, b: Seq<Segment>)
    requires
        a.len() == b.len(),
        forall|i: int| 0 <= i < a.len() ==> (#[trigger] a[i]).log() == b[i].log(),
    ensures
        concat_logs(a) == concat_logs(b),
    decreases a.len(),
{
    if a.len() > 0 {
        lemma_concat_logs_pointwise(a.drop_last(), b.drop_last());
    }
}

/// The offset committed for a consumer: the first entry of the table that
/// carries its id, if any.
pub open spec fn offset_lookup(entries: Seq<(u64, u64)>, consumer_id: u64) -> Option<u64>
    decreases entries.len(),
{
    if entries.len() == 0 {
        None
    } else if entries[0].0 == consumer_id {
        Some(entries[0].1)
    } else {
        offset_lookup(entries.drop_first(), consumer_id)
    }
}

proof fn lemma_offset_lookup_found(entries: Seq<(u64, u64)>, consumer_id: u64, i: int)
    requires
        0 <= i < entries.len(),
        entries[i].0 == consumer_id,
        forall|k: int| 0 <= k < i ==> (#[trigger] entries[k]).0 != consumer_id,
    ensures
        offset_lookup(entries, consumer_id) == Some(entries[i].1),
    decreases entries.len(),
{
    if i > 0 {
        lemma_offset_lookup_found(entries.drop_first(), consumer_id, i - 1);
    }
}

proof fn lemma_offset_lookup_absent(entries: Seq<(u64, u64)>, consumer_id: u64)
    requires
        forall|k: int| 0 <= k < entries.len() ==> (#[trigger] entries[k]).0 != consumer_id,
    ensures
        offset_lookup(entries, consumer_id) == None::<u64>,
    decreases entries.len(),
{
    if entries.len() > 0 {
        lemma_offset_lookup_absent(entries.drop_first(), consumer_id);
    }
}

/// Overwriting the entry at `i` changes no other consumer's lookup.
proof fn lemma_offset_lookup_update(
    entries: Seq<(u64, u64)>,
    i: int,
    entry: (u64, u64),
    other: u64,
)
    requires
        0 <= i < entries.len(),
        entry.0 != other,
        entries[i].0 != other,
    ensures
        offset_lookup(entries.update(i, entry), other) == offset_lookup(entries, other),
    decreases entries.len(),
{
    let updated = entries.update(i, entry);
    if i == 0 {
        assert(updated.drop_first() =~= entries.drop_first());
    } else {
        assert(updated[0] == entries[0]);
        if entries[0].0 != other {
            assert(updated.drop_first() =~= entries.drop_first().update(i - 1, entry));
            lemma_offset_lookup_update(entries.drop_first(), i - 1, entry, other);
        }
    }
}

/// Appending an entry changes no other consumer's lookup.
proof fn lemma_offset_lookup_push(entries: Seq<(u64, u64)>, entry: (u64, u64), other: u64)
    requires
        entry.0 != other,
    ensures
        offset_lookup(entries.push(entry), other) == offset_lookup(entries, other),
    decreases entries.len(),
{
    if entries.len() == 0 {
        assert(entries.push(entry)[0] == entry);
        assert(entries.push(entry).drop_first() =~= Seq::<(u64, u64)>::empty());
        assert(offset_lookup(Seq::<(u64, u64)>::empty(), other) == None::<u64>);
    } else {
        assert(entries.push(entry)[0] == entries[0]);
        if entries[0].0 != other {
            assert(entries.push(entry).drop_first() =~= entries.drop_first().push(entry));
            lemma_offset_lookup_push(entries.drop_first(), entry, other);
        }
    }
}

/// Appending an entry for a consumer with no earlier entry makes its
/// lookup return that entry.
proof fn lemma_offset_lookup_push_new(entries: Seq<(u64, u64)>, entry: (u64, u64))
    requires
        forall|k: int| 0 <= k < entries.len() ==> (#[trigger] entries[k]).0 != entry.0,
    ensures
        offset_lookup(entries.push(entry), entry.0) == Some(entry.1),
    decreases entries.len(),
{
    if entries.len() == 0 {
        assert(entries.push(entry)[0] == entry);
    } else {
        assert(entries.push(entry)[0] == entries[0]);
        assert(entries.push(entry).drop_first() =~= entries.drop_first().push(entry));
        lemma_offset_lookup_push_new(entries.drop_first(), entry);
    }
}

/// Whether one segment file image can be loaded under the given sizing:
/// it parses, and holds no more messages than one segment may.
pub open spec fn segment_image_ok(bytes: Seq<u8>, config: StorageConfig) -> bool {
    decode_all(bytes) matches Some(ps) && ps.len() <= config.segment_size
}

/// One logical message log: an ordered row of segments, and the table of
/// offsets committed by this topic's consumers.
pub struct Topic {
    /// Identity of the topic within its stream.
    pub topic_id: u64,
    /// Sizing shared by every segment of the topic.
    pub config: StorageConfig,
    /// The segments, in ascending sequence order; appends go to the last.
    pub segments: Vec<Segment>,
    /// Committed consumer offsets, one entry per consumer.
    pub consumer_offsets: Vec<(u64, u64)>,
}

impl Topic {
    /// Every payload of the topic, in log order.
    pub open spec fn log(self) -> Seq<Seq<u8>> {
        concat_logs(self.segments@)
    }

    /// The offset committed by a consumer, if any.
    pub open spec fn offset_of(self, consumer_id: u64) -> Option<u64> {
        offset_lookup(self.consumer_offsets@, consumer_id)
    }

    /// Every segment is well formed, shares the topic's sizing, and sits at
    /// the index its sequence number names.
    pub open spec fn wf(self) -> bool {
        &&& self.config.valid()
        &&& forall|i: int| 0 <= i < self.segments@.len() ==> (#[trigger] self.segments@[i]).wf()
            && self.segments@[i].config == self.config
            && self.segments@[i].sequence == i as u64
    }

    /// Whether every appended message has reached durable storage.
    pub open spec fn all_flushed(self) -> bool {
        forall|i: int| 0 <= i < self.segments@.len() ==> (#[trigger] self.segments@[i]).pending().len() == 0
    }

    /// An empty topic.
    pub fn create(topic_id: u64, config: StorageConfig) -> (t: Topic)
        requires
            config.valid(),
        ensures
            t.wf(),
            t.topic_id == topic_id,
            t.config == config,
            t.log() =~= Seq::<Seq<u8>>::empty(),
            t.segments@.len() == 0,
            forall|c: u64| t.offset_of(c) == None::<u64>,
    {
        Topic { topic_id, config, segments: Vec::new(), consumer_offsets: Vec::new() }
    }

    /// Appends one message at the tail of the log. When the last segment is
    /// full, or the topic has none, the message opens the next segment.
    pub fn append_message(&mut self, message: Message)
        requires
            old(self).wf(),
            message.wf(),
        ensures
            final(self).wf(),
            final(self).topic_id == old(self).topic_id,
            final(self).config == old(self).config,
            final(self).log() == old(self).log().push(message@),
            final(self).consumer_offsets@ == old(self).consumer_offsets@,
    {
        let n = self.segments.len();
        if n == 0 || self.segments[n - 1].is_full() {
            let ghost before = self.segments@;
            let mut segment = Segment::create(n as u64, self.config);
            segment.append(message);
            self.segments.push(segment);
            proof {
                assert(self.segments@.drop_last() =~= before);
                assert(segment.log() =~= Seq::<Seq<u8>>::empty().push(message@));
                assert(concat_logs(before) + Seq::<Seq<u8>>::empty().push(message@)
                    =~= concat_logs(before).push(message@));
            }
        } else {
            let ghost before = self.segments@;
            let segment = &mut self.segments[n - 1];
            segment.append(message);
            proof {
                let after = self.segments@;
                assert(after =~= before.update(n - 1, after[n - 1]));
                assert(after.drop_last() =~= before.drop_last());
                assert(after.last().log() == before.last().log().push(message@));
                assert(concat_logs(after) == concat_logs(after.drop_last()) + after.last().log());
                assert(concat_logs(before.drop_last()) + before.last().log().push(message@)
                    =~= (concat_logs(before.drop_last()) + before.last().log()).push(message@));
            }
        }
    }

    /// Forces every segment's buffer to durable storage, in ascending
    /// sequence order; used at shutdown. Cannot fail in this engine, and
    /// says so in its result.
    pub fn save_existing_messages(&mut self) -> (r: Result<(), StreamError>)
        requires
            old(self).wf(),
        ensures
            r is Ok,
            final(self).wf(),
            final(self).topic_id == old(self).topic_id,
            final(self).config == old(self).config,
            final(self).consumer_offsets@ == old(self).consumer_offsets@,
            final(self).segments@.len() == old(self).segments@.len(),
            final(self).all_flushed(),
            final(self).log() == old(self).log(),
            forall|i: int| 0 <= i < old(self).segments@.len() ==> (#[trigger] final(self).segments@[i]).durable()
                == old(self).segments@[i].log(),
    {
        let ghost orig = *old(self);
        let mut i: usize = 0;
        while i < self.segments.len()
            invariant
                orig.wf(),
                i <= self.segments@.len(),
                self.segments@.len() == orig.segments@.len(),
                self.topic_id == orig.topic_id,
                self.config == orig.config,
                self.consumer_offsets@ == orig.consumer_offsets@,
                forall|k: int| i <= k < self.segments@.len() ==> (#[trigger] self.segments@[k])
                    == orig.segments@[k],
                forall|k: int| 0 <= k < i ==> (#[trigger] self.segments@[k]).wf()
                    && self.segments@[k].config == orig.config
                    && self.segments@[k].sequence == k as u64
                    && self.segments@[k].pending().len() == 0
                    && self.segments@[k].durable() == orig.segments@[k].log()
                    && self.segments@[k].log() == orig.segments@[k].log(),
            decreases self.segments@.len() - i,
        {
            let ghost pre = self.segments@;
            proof {
                assert(pre[i as int] == orig.segments@[i as int]);
                assert(orig.segments@[i as int].wf());
            }
            let segment = &mut self.segments[i];
            segment.flush();
            proof {
                assert(self.segments@ =~= pre.update(i as int, self.segments@[i as int]));
            }
            i = i + 1;
        }
        proof {
            lemma_concat_logs_pointwise(self.segments@, orig.segments@);
        }
        Ok(())
    }

    /// Inserts or overwrites the committed offset of one consumer. The
    /// offset is recorded as given: this layer does not check it against
    /// the current log length.
    pub fn store_consumer_offset(&mut self, consumer_id: u64, offset: u64)
        requires
            old(self).wf(),
        ensures
            final(self).wf(),
            final(self).topic_id == old(self).topic_id,
            final(self).config == old(self).config,
            final(self).segments@ == old(self).segments@,
            final(self).offset_of(consumer_id) == Some(offset),
            forall|c: u64| c != consumer_id ==> final(self).offset_of(c) == old(self).offset_of(c),
    {
        let ghost orig = self.consumer_offsets@;
        let n = self.consumer_offsets.len();
        let mut i: usize = 0;
        while i < n
            invariant
                old(self).wf(),
                n == self.consumer_offsets@.len(),
                i <= n,
                self.topic_id == old(self).topic_id,
                self.config == old(self).config,
                self.segments@ == old(self).segments@,
                self.consumer_offsets@ == orig,
                orig == old(self).consumer_offsets@,
                forall|k: int| 0 <= k < i ==> (#[trigger] orig[k]).0 != consumer_id,
            decreases n - i,
        {
            if self.consumer_offsets[i].0 == consumer_id {
                self.consumer_offsets[i] = (consumer_id, offset);
                proof {
                    lemma_offset_lookup_found(self.consumer_offsets@, consumer_id, i as int);
                    assert forall|c: u64| c != consumer_id implies offset_lookup(
                        self.consumer_offsets@,
                        c,
                    ) == offset_lookup(orig, c) by {
                        lemma_offset_lookup_update(orig, i as int, (consumer_id, offset), c);
                    }
                }
                return ;
            }
            i = i + 1;
        }
        self.consumer_offsets.push((consumer_id, offset));
        proof {
            lemma_offset_lookup_push_new(orig, (consumer_id, offset));
            assert forall|c: u64| c != consumer_id implies offset_lookup(
                self.consumer_offsets@,
                c,
            ) == offset_lookup(orig, c) by {
                lemma_offset_lookup_push(orig, (consumer_id, offset), c);
            }
        }
    }

    /// The committed offset of one consumer, or the typed not-found
    /// condition when the consumer has never committed.
    pub fn get_consumer_offset(&self, consumer_id: u64) -> (r: Result<u64, StreamError>)
        ensures
            match self.offset_of(consumer_id) {
                Some(offset) => r == Ok::<u64, StreamError>(offset),
                None => r == Err::<u64, StreamError>(StreamError::ConsumerOffsetNotFound),
            },
    {
        let n = self.consumer_offsets.len();
        let mut i: usize = 0;
        while i < n
            invariant
                n == self.consumer_offsets@.len(),
                i <= n,
                forall|k: int| 0 <= k < i ==> (#[trigger] self.consumer_offsets@[k]).0
                    != consumer_id,
            decreases n - i,
        {
            let entry = self.consumer_offsets[i];
            if entry.0 == consumer_id {
                proof {
                    lemma_offset_lookup_found(self.consumer_offsets@, consumer_id, i as int);
                }
                return Ok(entry.1);
            }
            i = i + 1;
        }
        proof {
            lemma_offset_lookup_absent(self.consumer_offsets@, consumer_id);
        }
        Err(StreamError::ConsumerOffsetNotFound)
    }

    /// Rebuilds a topic from the byte images of its segment files, given in
    /// ascending sequence order. Fails on the first corrupt image; the
    /// offset table starts empty, as offsets are not part of the segment
    /// files.
    pub fn load(topic_id: u64, config: StorageConfig, blobs: &Vec<Vec<u8>>) -> (r: Result<
        Topic,
        StreamError,
    >)
        requires
            config.valid(),
        ensures
            match r {
                Ok(t) => {
                    &&& t.wf()
                    &&& t.topic_id == topic_id
                    &&& t.config == config
                    &&& t.all_flushed()
                    &&& t.segments@.len() == blobs@.len()
                    &&& forall|i: int| 0 <= i < blobs@.len()
                        ==> decode_all(blobs@[i]@) == Some((#[trigger] t.segments@[i]).durable())
                        && t.segments@[i].log() == t.segments@[i].durable()
                    &&& forall|c: u64| t.offset_of(c) == None::<u64>
                },
                Err(e) => {
                    &&& e == StreamError::CannotParseSegment
                    &&& exists|i: int| 0 <= i < blobs@.len() && !segment_image_ok(
                        (#[trigger] blobs@[i])@,
                        config,
                    )
                },
            },
            (forall|i: int| 0 <= i < blobs@.len() ==> segment_image_ok(
                (#[trigger] blobs@[i])@,
                config,
            )) ==> r is Ok,
    {
        let mut segments: Vec<Segment> = Vec::new();
        let mut i: usize = 0;
        while i < blobs.len()
            invariant
                config.valid(),
                i <= blobs@.len(),
                segments@.len() == i,
                forall|k: int| 0 <= k < i ==> (#[trigger] segments@[k]).wf()
                    && segments@[k].config == config
                    && segments@[k].sequence == k as u64
                    && segments@[k].pending().len() == 0
                    && decode_all(blobs@[k]@) == Some(segments@[k].durable())
                    && segments@[k].log() == segments@[k].durable(),
            decreases blobs@.len() - i,
        {
            match Segment::load(i as u64, config, &blobs[i]) {
                Ok(segment) => {
                    segments.push(segment);
                },
                Err(_) => {
                    proof {
                        assert(!segment_image_ok(blobs@[i as int]@, config));
                    }
                    return Err(StreamError::CannotParseSegment);
                },
            }
            i = i + 1;
        }
        Ok(Topic { topic_id, config, segments, consumer_offsets: Vec::new() })
    }
}

/// Round trip at topic level: parsing the byte images written for a fully
/// flushed topic restores every segment's messages, in order.
pub proof fn lemma_topic_round_trip(t: Topic)
    requires
        t.wf(),
        t.all_flushed(),
    ensures
        forall|i: int| 0 <= i < t.segments@.len() ==> decode_all(encode_all(
            (#[trigger] t.segments@[i]).durable(),
        )) == Some(t.segments@[i].durable()) && t.segments@[i].durable() == t.segments@[i].log(),
{
    assert forall|i: int| 0 <= i < t.segments@.len() implies decode_all(encode_all(
        (#[trigger] t.segments@[i]).durable(),
    )) == Some(t.segments@[i].durable()) && t.segments@[i].durable() == t.segments@[i].log() by {
        crate::segment::lemma_segment_round_trip(t.segments@[i]);
        assert(t.segments@[i].durable() =~= t.segments@[i].log());
    }
}

} // verus!
