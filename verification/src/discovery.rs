//! The topics that the bridge has seen on the network, which of them it forwards, and the frames
//! that it makes of them.

use crate::bridge::ZenohConfig;
use crate::sorting::{is_sorted, lemma_in_order, sort, Ranked};
use crate::telemetry::{header_fault, MessageHeader, Priority, SCHEMA_VERSION};
use crate::text::{
    at_most, is_blank, lemma_text_order, lemma_text_order_transitive, text_bytes, text_not_after,
    views,
};
use crate::text_map::{has_key, keys_differ, lemma_map_of, map_of, Entry, TextMap};
use vstd::prelude::*;

verus! {

/// What is known of a topic.
#[derive(Debug, Clone)]
pub struct TopicStat {
    pub schema: String,
    pub decodable: bool,
    pub count: u64,
    pub prev_count: u64,
    pub last_bytes: usize,
    /// The samples of the last whole interval between two catalogs.
    pub recent: u64,
    pub last_seen_ms: u64,
}

/// One row of the catalog.
#[derive(Debug, Clone)]
pub struct CatalogEntry {
    pub key: String,
    pub schema: String,
    pub decodable: bool,
    pub selected: bool,
    pub count: u64,
    /// The samples of the last whole interval between two catalogs.
    pub recent: u64,
    pub last_bytes: usize,
    pub last_seen_ms: u64,
}

/// What the bridge has discovered and forwards.
#[derive(Debug)]
pub struct TopicRegistry {
    pub topics: TextMap<TopicStat>,
    pub selected: TextMap<()>,
    pub sequence: u64,
    pub vehicle_id: String,
    pub auto_select_known: bool,
    pub connected: bool,
    pub endpoint: String,
}

/// What is known of a topic.
pub ghost struct Topic {
    pub schema: Seq<char>,
    pub decodable: bool,
    pub count: u64,
    pub prev_count: u64,
    pub last_bytes: usize,
    pub recent: u64,
    pub last_seen_ms: u64,
}

/// The milliseconds between two catalogs.
pub const CATALOG_INTERVAL_MS: u64 = 500;

/// The schema of topics that cannot be decoded.
pub const RAW_SCHEMA: &'static str = "Raw";

impl View for TopicStat {
    type V = Topic;

    open spec fn view(&self) -> Topic {
        Topic {
            schema: self.schema@,
            decodable: self.decodable,
            count: self.count,
            prev_count: self.prev_count,
            last_bytes: self.last_bytes,
            recent: self.recent,
            last_seen_ms: self.last_seen_ms,
        }
    }
}

impl CatalogEntry {
    /// The row says what is known of its topic.
    pub open spec fn tells(self, topic: Topic, selected: bool) -> bool {
        &&& self.schema@ == topic.schema
        &&& self.decodable == topic.decodable
        &&& self.selected == selected
        &&& self.count == topic.count
        &&& self.recent == topic.recent
        &&& self.last_bytes == topic.last_bytes
        &&& self.last_seen_ms == topic.last_seen_ms
    }
}

impl Ranked for CatalogEntry {
    open spec fn not_after(self, other: Self) -> bool {
        text_not_after(self.key@, other.key@)
    }

    fn is_not_after(&self, other: &Self) -> (result: bool) {
        at_most(self.key.as_str(), other.key.as_str())
    }

    proof fn lemma_total(left: Self, right: Self) {
        lemma_text_order(left.key@, right.key@);
    }

    proof fn lemma_transitive(first: Self, second: Self, third: Self) {
        lemma_text_order_transitive(first.key@, second.key@, third.key@);
    }
}

/// The topic after one more sample.
pub open spec fn with_sample(topic: Topic, size: usize, now_ms: u64) -> Topic {
    Topic {
        count: if topic.count == u64::MAX {
            0
        } else {
            (topic.count + 1) as u64
        },
        last_bytes: size,
        last_seen_ms: now_ms,
        ..topic
    }
}

/// A topic of which no sample was counted yet.
pub open spec fn new_topic(schema: Seq<char>, now_ms: u64) -> Topic {
    Topic {
        schema,
        decodable: schema != RAW_SCHEMA@,
        count: 0,
        prev_count: 0,
        last_bytes: 0,
        recent: 0,
        last_seen_ms: now_ms,
    }
}

/// The topic once its rate was computed anew.
pub open spec fn with_rate(topic: Topic) -> Topic {
    Topic {
        recent: if topic.count < topic.prev_count {
            0
        } else {
            (topic.count - topic.prev_count) as u64
        },
        prev_count: topic.count,
        ..topic
    }
}

/// The topics by their keys.
pub open spec fn topic_views(topics: Map<Seq<char>, TopicStat>) -> Map<Seq<char>, Topic> {
    topics.map_values(|stat: TopicStat| stat@)
}

/// The keys in a list.
pub open spec fn keys_in(keys: Seq<Seq<char>>) -> Set<Seq<char>> {
    keys.to_set()
}

fn rated(stat: &TopicStat) -> (result: TopicStat)
    ensures
        result@ == with_rate(stat@),
{
    let recent: u64 = if stat.count < stat.prev_count {
        0
    } else {
        stat.count - stat.prev_count
    };
    TopicStat {
        schema: stat.schema.clone(),
        decodable: stat.decodable,
        count: stat.count,
        prev_count: stat.count,
        last_bytes: stat.last_bytes,
        recent,
        last_seen_ms: stat.last_seen_ms,
    }
}

impl TopicRegistry {
    /// No key occurs twice.
    pub open spec fn well_formed(self) -> bool {
        self.topics.well_formed() && self.selected.well_formed()
    }

    /// The topics by their keys.
    pub open spec fn known(self) -> Map<Seq<char>, Topic> {
        topic_views(self.topics@)
    }

    /// The keys that are forwarded.
    pub open spec fn forwarded(self) -> Set<Seq<char>> {
        self.selected@.dom()
    }

    /// Everything but the topics and the selection.
    pub open spec fn same_identity(self, other: Self) -> bool {
        &&& self.vehicle_id == other.vehicle_id
        &&& self.auto_select_known == other.auto_select_known
        &&& self.connected == other.connected
        &&& self.endpoint == other.endpoint
    }

    /// What is known of the topics once a sample of the key was counted.
    pub open spec fn known_after(
        self,
        key: Seq<char>,
        schema: Seq<char>,
        size: usize,
        now_ms: u64,
    ) -> Map<Seq<char>, Topic> {
        self.known().insert(
            key,
            with_sample(
                if self.known().dom().contains(key) {
                    self.known()[key]
                } else {
                    new_topic(schema, now_ms)
                },
                size,
                now_ms,
            ),
        )
    }

    /// The keys that are forwarded once a sample of the key was counted.
    pub open spec fn forwarded_after(self, key: Seq<char>, schema: Seq<char>) -> Set<Seq<char>> {
        if !self.known().dom().contains(key) && self.auto_select_known && schema != RAW_SCHEMA@ {
            self.forwarded().insert(key)
        } else {
            self.forwarded()
        }
    }

    /// The number of the frame after the next one.
    pub open spec fn sequence_after(self) -> u64 {
        if self.sequence == u64::MAX {
            0
        } else {
            (self.sequence + 1) as u64
        }
    }

    /// The header is that of the next frame, for a sample of the key.
    pub open spec fn heads(
        self,
        header: MessageHeader,
        key: Seq<char>,
        schema: Seq<char>,
        now_ms: u64,
    ) -> bool {
        &&& header.sequence == self.sequence
        &&& header.source_time_ns == now_ms * 1_000_000
        &&& header.receive_time_ns == now_ms * 1_000_000
        &&& header.expire_time_ns == 0
        &&& header.vehicle_id@ == self.vehicle_id@
        &&& header.schema_version == SCHEMA_VERSION
        &&& header.message_type@ == schema
        &&& header.priority == Priority::Normal
        &&& header.stream_id@ == key
    }

    /// A registry that has seen nothing.
    pub fn new(config: &ZenohConfig) -> (registry: Self)
        ensures
            registry.well_formed(),
            registry.known() == Map::<Seq<char>, Topic>::empty(),
            registry.forwarded() == Set::<Seq<char>>::empty(),
            registry.sequence == 1,
            registry.vehicle_id@ == config@.vehicle_id,
            registry.auto_select_known == config.auto_select_known,
            !registry.connected,
            registry.endpoint@ == crate::bridge::value_or(config@.listen, config@.connect),
    {
        let registry = TopicRegistry {
            topics: TextMap::new(),
            selected: TextMap::new(),
            sequence: 1,
            vehicle_id: config.vehicle_id.clone(),
            auto_select_known: config.auto_select_known,
            connected: false,
            endpoint: config.endpoint_label().to_owned(),
        };
        assert(registry.known() =~= Map::<Seq<char>, Topic>::empty());
        assert(registry.forwarded() =~= Set::<Seq<char>>::empty());
        registry
    }

    /// Forwards the given keys, and no others.
    pub fn set_selection(&mut self, keys: Vec<String>)
        requires
            old(self).well_formed(),
        ensures
            final(self).well_formed(),
            final(self).same_identity(*old(self)),
            final(self).topics == old(self).topics,
            final(self).sequence == old(self).sequence,
            final(self).forwarded() == keys_in(views(keys@)),
    {
        let mut selected: TextMap<()> = TextMap::new();
        assert(selected@.dom() =~= keys_in(views(keys@).take(0)));
        for index in 0..keys.len()
            invariant
                selected.well_formed(),
                selected@.dom() == keys_in(views(keys@).take(index as int)),
        {
            let ghost before = views(keys@).take(index as int);
            let ghost after = views(keys@).take(index + 1);
            selected.set(keys[index].as_str(), ());
            proof {
                let key = keys@[index as int]@;
                assert(after == before.push(key));
                assert forall|other: Seq<char>| keys_in(after).contains(other) <==> keys_in(
                    before,
                ).insert(key).contains(other) by {
                    if before.contains(other) {
                        let i = choose|i: int| 0 <= i < before.len() && before[i] == other;
                        assert(after[i] == other);
                    }
                    if other == key {
                        assert(after[index as int] == other);
                    }
                    if after.contains(other) {
                        let i = choose|i: int| 0 <= i < after.len() && after[i] == other;
                        if i < before.len() {
                            assert(before[i] == other);
                        }
                    }
                }
                assert(selected@.dom() =~= keys_in(after));
            }
        }
        assert(views(keys@).take(keys@.len() as int) =~= views(keys@));
        self.selected = selected;
    }

    /// Whether samples of the key are forwarded.
    pub fn is_selected(&self, key: &str) -> (result: bool)
        requires
            self.well_formed(),
        ensures
            result == self.forwarded().contains(key@),
    {
        self.selected.contains(key)
    }

    /// Notes that the session was opened or has ended.
    pub fn set_connected(&mut self, connected: bool)
        ensures
            *final(self) == (TopicRegistry { connected, ..*old(self) }),
    {
        self.connected = connected;
    }

    /// Counts a sample. A topic that is seen for the first time and can be decoded is forwarded
    /// from then on, where known topics are to be selected by themselves.
    pub fn record_sample(&mut self, key: &str, schema: &str, size: usize, now_ms: u64)
        requires
            old(self).well_formed(),
        ensures
            final(self).well_formed(),
            final(self).same_identity(*old(self)),
            final(self).sequence == old(self).sequence,
            final(self).known() == old(self).known_after(key@, schema@, size, now_ms),
            final(self).forwarded() == old(self).forwarded_after(key@, schema@),
    {
        let ghost before = self.known();
        assert(before.dom() =~= self.topics@.dom());
        let raw = *schema == *RAW_SCHEMA;
        let (known_schema, decodable, count, prev_count, recent): (
            String,
            bool,
            u64,
            u64,
            u64,
        ) = match self.topics.get(key) {
            Some(stat) => (
                stat.schema.clone(),
                stat.decodable,
                stat.count,
                stat.prev_count,
                stat.recent,
            ),
            None => (schema.to_owned(), !raw, 0, 0, 0),
        };
        if !self.topics.contains(key) && self.auto_select_known && !raw {
            self.selected.set(key, ());
            assert(self.forwarded() =~= old(self).forwarded().insert(key@));
        }
        let stat = TopicStat {
            schema: known_schema,
            decodable,
            count: count.wrapping_add(1),
            prev_count,
            last_bytes: size,
            recent,
            last_seen_ms: now_ms,
        };
        let ghost view = stat@;
        self.topics.set(key, stat);
        assert(self.known() =~= before.insert(key@, view));
    }

    /// Computes the rate of every topic anew.
    pub fn recompute_rates(&mut self)
        requires
            old(self).well_formed(),
        ensures
            final(self).well_formed(),
            final(self).same_identity(*old(self)),
            final(self).sequence == old(self).sequence,
            final(self).selected == old(self).selected,
            final(self).known() == old(self).known().map_values(|topic: Topic| with_rate(topic)),
    {
        let ghost before = self.topics.entries@;
        let mut entries: Vec<Entry<TopicStat>> = Vec::new();
        for index in 0..self.topics.entries.len()
            invariant
                self.topics.entries@ == before,
                entries@.len() == index,
                forall|i: int|
                    0 <= i < index ==> (#[trigger] entries@[i]).key@ == before[i].key@
                        && entries@[i].value@ == with_rate(before[i].value@),
        {
            let entry = &self.topics.entries[index];
            entries.push(Entry { key: entry.key.clone(), value: rated(&entry.value) });
        }
        proof {
            let after = entries@;
            assert(keys_differ(after)) by {
                assert forall|i: int, j: int| 0 <= i < j < after.len() implies (
                #[trigger] after[i]).key@ != (#[trigger] after[j]).key@ by {
                    assert(before[i].key@ != before[j].key@);
                }
            }
            lemma_map_of(before);
            lemma_map_of(after);
            let expected = topic_views(map_of(before)).map_values(|topic: Topic| with_rate(topic));
            assert forall|key: Seq<char>| #[trigger]
                topic_views(map_of(after)).dom().contains(key) == expected.dom().contains(
                    key,
                ) by {
                if has_key(after, key) {
                    let i = choose|i: int|
                        0 <= i < after.len() && (#[trigger] after[i]).key@ == key;
                    assert(before[i].key@ == key);
                }
                if has_key(before, key) {
                    let i = choose|i: int|
                        0 <= i < before.len() && (#[trigger] before[i]).key@ == key;
                    assert(after[i].key@ == key);
                }
            }
            assert forall|key: Seq<char>| expected.dom().contains(key) implies #[trigger]
            topic_views(map_of(after))[key] == expected[key] by {
                let i = choose|i: int|
                    0 <= i < before.len() && (#[trigger] before[i]).key@ == key;
                assert(after[i].key@ == key);
                assert(map_of(before)[before[i].key@] == before[i].value);
                assert(map_of(after)[after[i].key@] == after[i].value);
            }
            assert(topic_views(map_of(after)) =~= expected);
        }
        self.topics = TextMap { entries };
    }

    /// The rows of the catalog: one for each topic, by their keys.
    pub fn catalog(&self) -> (rows: Vec<CatalogEntry>)
        requires
            self.well_formed(),
        ensures
            is_sorted(rows@),
            rows@.len() == self.known().dom().len(),
            forall|i: int, j: int|
                0 <= i < j < rows@.len() ==> (#[trigger] rows@[i]).key@ != (
                #[trigger] rows@[j]).key@,
            forall|i: int|
                0 <= i < rows@.len() ==> self.known().dom().contains((#[trigger] rows@[i]).key@)
                    && rows@[i].tells(
                    self.known()[rows@[i].key@],
                    self.forwarded().contains(rows@[i].key@),
                ),
    {
        let mut rows: Vec<CatalogEntry> = Vec::new();
        proof {
            lemma_map_of(self.topics.entries@);
            assert(self.known().dom() =~= self.topics@.dom());
        }
        for index in 0..self.topics.entries.len()
            invariant
                self.well_formed(),
                self.known().dom() == self.topics@.dom(),
                forall|i: int|
                    0 <= i < self.topics.entries@.len() ==> self.topics@.dom().contains(
                        (#[trigger] self.topics.entries@[i]).key@,
                    ) && self.topics@[self.topics.entries@[i].key@]
                        == self.topics.entries@[i].value,
                rows@.len() == index,
                forall|i: int|
                    0 <= i < index ==> (#[trigger] rows@[i]).key@ == self.topics.entries@[i].key@
                        && rows@[i].tells(
                        self.known()[rows@[i].key@],
                        self.forwarded().contains(rows@[i].key@),
                    ),
        {
            let entry = &self.topics.entries[index];
            let stat = &entry.value;
            rows.push(
                CatalogEntry {
                    key: entry.key.clone(),
                    schema: stat.schema.clone(),
                    decodable: stat.decodable,
                    selected: self.selected.contains(entry.key.as_str()),
                    count: stat.count,
                    recent: stat.recent,
                    last_bytes: stat.last_bytes,
                    last_seen_ms: stat.last_seen_ms,
                },
            );
        }
        let ghost unsorted = rows@;
        let sorted = sort(rows);
        proof {
            lemma_in_order(unsorted);
            crate::parameters::lemma_same_items(sorted@, unsorted);
            assert forall|i: int| 0 <= i < sorted@.len() implies self.known().dom().contains(
                (#[trigger] sorted@[i]).key@,
            ) && sorted@[i].tells(
                self.known()[sorted@[i].key@],
                self.forwarded().contains(sorted@[i].key@),
            ) by {
                assert(unsorted.contains(sorted@[i]));
                let k = choose|k: int| 0 <= k < unsorted.len() && unsorted[k] == sorted@[i];
                assert(self.topics.entries@[k].key@ == sorted@[i].key@);
            }
            lemma_sorted_keys_differ(self.topics.entries@, unsorted, sorted@);
        }
        sorted
    }

    /// The header of the next frame, for a sample of the key.
    pub fn next_header(&mut self, key: &str, schema: &str, now_ms: u64) -> (header: MessageHeader)
        requires
            now_ms * 1_000_000 <= u64::MAX,
        ensures
            final(self).sequence == old(self).sequence_after(),
            final(self).topics == old(self).topics,
            final(self).selected == old(self).selected,
            final(self).same_identity(*old(self)),
            old(self).heads(header, key@, schema@, now_ms),
    {
        let sequence: u64 = self.sequence;
        self.sequence = sequence.wrapping_add(1);
        MessageHeader {
            sequence,
            source_time_ns: now_ms * 1_000_000,
            receive_time_ns: now_ms * 1_000_000,
            expire_time_ns: 0,
            vehicle_id: self.vehicle_id.clone(),
            schema_version: SCHEMA_VERSION,
            message_type: schema.to_owned(),
            priority: Priority::Normal,
            stream_id: key.to_owned(),
        }
    }

    /// Counts a sample, and gives the header of its frame where samples of the key are forwarded.
    /// `schema` is what the key stands for, `message_type` what the sample was decoded as.
    pub fn take_sample(
        &mut self,
        key: &str,
        schema: &str,
        message_type: &str,
        size: usize,
        now_ms: u64,
    ) -> (header: Option<MessageHeader>)
        requires
            old(self).well_formed(),
            now_ms * 1_000_000 <= u64::MAX,
        ensures
            final(self).well_formed(),
            final(self).same_identity(*old(self)),
            final(self).known() == old(self).known_after(key@, schema@, size, now_ms),
            final(self).forwarded() == old(self).forwarded_after(key@, schema@),
            header is Some == final(self).forwarded().contains(key@),
            match header {
                Some(header) => {
                    &&& old(self).heads(header, key@, message_type@, now_ms)
                    &&& final(self).sequence == old(self).sequence_after()
                },
                None => final(self).sequence == old(self).sequence,
            },
    {
        self.record_sample(key, schema, size, now_ms);
        if !self.is_selected(key) {
            return None;
        }
        Some(self.next_header(key, message_type, now_ms))
    }
}

proof fn lemma_sorted_keys_differ(
    entries: Seq<Entry<TopicStat>>,
    unsorted: Seq<CatalogEntry>,
    sorted: Seq<CatalogEntry>,
)
    requires
        keys_differ(entries),
        unsorted.len() == entries.len(),
        sorted.len() == unsorted.len(),
        sorted.to_multiset() == unsorted.to_multiset(),
        forall|i: int|
            0 <= i < unsorted.len() ==> (#[trigger] unsorted[i]).key@ == entries[i].key@,
    ensures
        forall|i: int, j: int|
            0 <= i < j < sorted.len() ==> (#[trigger] sorted[i]).key@ != (
            #[trigger] sorted[j]).key@,
{
    assert(unsorted.no_duplicates()) by {
        assert forall|i: int, j: int| 0 <= i < unsorted.len() && 0 <= j < unsorted.len() && i
            != j implies unsorted[i] != unsorted[j] by {
            assert(unsorted[i].key@ == entries[i].key@);
            assert(unsorted[j].key@ == entries[j].key@);
            if i < j {
                assert(entries[i].key@ != entries[j].key@);
            } else {
                assert(entries[j].key@ != entries[i].key@);
            }
        }
    }
    unsorted.lemma_multiset_has_no_duplicates();
    sorted.lemma_multiset_has_no_duplicates_conv();
    crate::parameters::lemma_same_items(sorted, unsorted);
    assert forall|i: int, j: int| 0 <= i < j < sorted.len() implies (#[trigger] sorted[i]).key@
        != (#[trigger] sorted[j]).key@ by {
        assert(unsorted.contains(sorted[i]));
        assert(unsorted.contains(sorted[j]));
        let a = choose|a: int| 0 <= a < unsorted.len() && unsorted[a] == sorted[i];
        let b = choose|b: int| 0 <= b < unsorted.len() && unsorted[b] == sorted[j];
        assert(sorted[i] != sorted[j]);
        assert(unsorted[a].key@ == entries[a].key@);
        assert(unsorted[b].key@ == entries[b].key@);
        if a < b {
            assert(entries[a].key@ != entries[b].key@);
        } else {
            assert(entries[b].key@ != entries[a].key@);
        }
    }
}

/// The encoding that a publisher stamped on a sample; the network's default means none.
pub fn stamped_encoding(encoding: &str) -> (stamped: Option<&str>)
    ensures
        stamped is Some == (encoding@.len() > 0 && encoding@ != "zenoh/bytes"@),
        stamped is Some ==> stamped->0@ == encoding@,
{
    if text_bytes(encoding) == 0 || *encoding == *"zenoh/bytes" {
        None
    } else {
        Some(encoding)
    }
}

/// The header of a forwarded frame passes validation at any time, as long as the vehicle and the
/// key have names.
pub proof fn lemma_forwarded_headers_are_valid(header: MessageHeader, now_ns: u64)
    requires
        header.schema_version == SCHEMA_VERSION,
        header.expire_time_ns == 0,
        !is_blank(header.vehicle_id@),
        !is_blank(header.stream_id@),
    ensures
        header_fault(header, now_ns) is None,
{
}

/// The samples counted between two computations of the rates are what the second one shows.
pub proof fn lemma_rate_counts_samples(topic: Topic, samples: Seq<(usize, u64)>)
    requires
        topic.count == topic.prev_count,
        topic.count + samples.len() <= u64::MAX,
    ensures
        with_rate(sampled(topic, samples)).recent == samples.len(),
        with_rate(sampled(topic, samples)).count == topic.count + samples.len(),
{
    lemma_sampled(topic, samples);
}

/// The topic after the given samples.
pub open spec fn sampled(topic: Topic, samples: Seq<(usize, u64)>) -> Topic
    decreases samples.len(),
{
    if samples.len() == 0 {
        topic
    } else {
        with_sample(sampled(topic, samples.drop_last()), samples.last().0, samples.last().1)
    }
}

proof fn lemma_sampled(topic: Topic, samples: Seq<(usize, u64)>)
    requires
        topic.count + samples.len() <= u64::MAX,
    ensures
        sampled(topic, samples).count == topic.count + samples.len(),
        sampled(topic, samples).prev_count == topic.prev_count,
    decreases samples.len(),
{
    if samples.len() > 0 {
        lemma_sampled(topic, samples.drop_last());
    }
}

} // verus!
