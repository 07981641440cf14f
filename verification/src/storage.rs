//! The storage engine: named topics, each a fixed list of partitions, each partition
//! an append-only log of records.

use crate::types::{records, Content, OffsetValue, TopicAddress, TopicAddressView};
use vstd::prelude::*;

verus! {

/// The records of one partition, oldest first.
pub type Log = Seq<Seq<char>>;

/// What a cluster holds: for each topic name the logs of its partitions.
pub type Topics = Map<Seq<char>, Seq<Log>>;

/// The offset that stands on the wire for the record at `index`: the low 32 bits of
/// the index, which is the index itself for the first 2^32 records of a partition.
pub open spec fn offset_at(index: int) -> u32 {
    (index % 0x1_0000_0000) as u32
}

/// The log that `address` names in `topics`, where the topic exists and has a
/// partition of that number.
pub open spec fn log_at(topics: Topics, address: TopicAddressView) -> Option<Log> {
    if topics.contains_key(address.name) && address.partition < topics[address.name].len() {
        Some(topics[address.name][address.partition as int])
    } else {
        None
    }
}

/// `topics` with `log` in the place that `address` names.
pub open spec fn with_log(topics: Topics, address: TopicAddressView, log: Log) -> Topics {
    topics.insert(address.name, topics[address.name].update(address.partition as int, log))
}

/// `count` logs without a record.
pub open spec fn empty_logs(count: nat) -> Seq<Log> {
    Seq::new(count, |i: int| Seq::<Seq<char>>::empty())
}

/// An ordered, append-only log of records.
pub struct Partition {
    pub queue: Vec<Content>,
}

impl View for Partition {
    type V = Log;

    open spec fn view(&self) -> Log {
        records(self.queue@)
    }
}

/// The logs of `partitions`.
pub open spec fn logs(partitions: Seq<Partition>) -> Seq<Log> {
    partitions.map_values(|partition: Partition| partition@)
}

impl Partition {
    /// A partition without records.
    pub fn new() -> (partition: Partition)
        ensures
            partition@ == Seq::<Seq<char>>::empty(),
    {
        let partition = Partition { queue: Vec::new() };
        partition
    }

    /// Appends one record and returns its offset.
    pub fn add_content(&mut self, content: Content) -> (offset: OffsetValue)
        ensures
            final(self)@ == old(self)@.push(content@),
            offset.0 == offset_at(old(self)@.len() as int),
    {
        let index: u64 = self.queue.len() as u64;
        self.queue.push(content);
        OffsetValue((index % 0x1_0000_0000) as u32)
    }

    /// Appends `contents` in order and returns the offset of the last of them, or
    /// nothing where `contents` is empty.
    pub fn add_contents(&mut self, contents: Vec<Content>) -> (offset: Option<OffsetValue>)
        ensures
            final(self)@ == old(self)@ + records(contents@),
            contents@.len() == 0 ==> offset is None,
            contents@.len() > 0 ==> offset == Some(
                OffsetValue(offset_at(old(self)@.len() + contents@.len() - 1)),
            ),
    {
        let mut contents = contents;
        let count: usize = contents.len();
        self.queue.append(&mut contents);
        if count == 0 {
            None
        } else {
            let last: u64 = (self.queue.len() - 1) as u64;
            Some(OffsetValue((last % 0x1_0000_0000) as u32))
        }
    }
}

/// A topic: its name and its partitions, as many as it was created with.
struct Topic {
    name: String,
    partitions: Vec<Partition>,
}

/// No two of `topics` have the same name.
spec fn distinct_names(topics: Seq<Topic>) -> bool {
    forall|i: int, j: int| 0 <= i < j < topics.len() ==> topics[i].name@ != topics[j].name@
}

/// `topics[i]` is called `name`.
spec fn named(topics: Seq<Topic>, name: Seq<char>, i: int) -> bool {
    0 <= i < topics.len() && topics[i].name@ == name
}

/// Where the topic called `name` stands among `topics`, if there is one.
spec fn position(topics: Seq<Topic>, name: Seq<char>) -> Option<int> {
    if exists|i: int| named(topics, name, i) {
        Some(choose|i: int| named(topics, name, i))
    } else {
        None
    }
}

/// The logs of `topics`, by name.
spec fn by_name(topics: Seq<Topic>) -> Topics {
    Map::new(
        |name: Seq<char>| position(topics, name) is Some,
        |name: Seq<char>| logs(topics[position(topics, name).unwrap()].partitions@),
    )
}

/// Among topics with distinct names, a topic is found where it stands.
proof fn lemma_position(topics: Seq<Topic>, i: int)
    requires
        distinct_names(topics),
        0 <= i < topics.len(),
    ensures
        position(topics, topics[i].name@) == Some(i),
{
    assert(named(topics, topics[i].name@, i));
}

/// A name that no topic has is not found.
proof fn lemma_no_position(topics: Seq<Topic>, name: Seq<char>)
    requires
        forall|i: int| 0 <= i < topics.len() ==> topics[i].name@ != name,
    ensures
        position(topics, name) is None,
{
}

/// Putting a topic in the place of one of the same name changes the logs under that
/// name and no others.
proof fn lemma_replace(topics: Seq<Topic>, i: int, topic: Topic)
    requires
        distinct_names(topics),
        0 <= i < topics.len(),
        topics[i].name@ == topic.name@,
    ensures
        distinct_names(topics.update(i, topic)),
        by_name(topics.update(i, topic)) == by_name(topics).insert(
            topic.name@,
            logs(topic.partitions@),
        ),
{
    let after = topics.update(i, topic);
    assert(distinct_names(after));
    assert forall|name: Seq<char>| position(after, name) == position(topics, name) by {
        if exists|k: int| named(topics, name, k) {
            let k = choose|k: int| named(topics, name, k);
            lemma_position(topics, k);
            lemma_position(after, k);
        } else {
            assert forall|k: int| 0 <= k < after.len() implies after[k].name@ != name by {
                assert(!named(topics, name, k));
            }
            lemma_no_position(after, name);
        }
    }
    lemma_position(after, i);
}

/// Adding a topic whose name no topic has yet adds its logs under its name and
/// changes no others.
proof fn lemma_add(topics: Seq<Topic>, topic: Topic)
    requires
        distinct_names(topics),
        position(topics, topic.name@) is None,
    ensures
        distinct_names(topics.push(topic)),
        by_name(topics.push(topic)) == by_name(topics).insert(
            topic.name@,
            logs(topic.partitions@),
        ),
{
    let after = topics.push(topic);
    let last = topics.len() as int;
    assert forall|k: int| 0 <= k < topics.len() implies topics[k].name@ != topic.name@ by {
        assert(!named(topics, topic.name@, k));
    }
    lemma_position(after, last);
    assert forall|name: Seq<char>| name != topic.name@ implies position(after, name)
        == position(topics, name) by {
        if exists|k: int| named(topics, name, k) {
            let k = choose|k: int| named(topics, name, k);
            lemma_position(topics, k);
            lemma_position(after, k);
        } else {
            assert forall|k: int| 0 <= k < after.len() implies after[k].name@ != name by {
                if k < topics.len() {
                    assert(!named(topics, name, k));
                }
            }
            lemma_no_position(after, name);
        }
    }
}

/// The topics of a broker, by name.
pub struct Cluster {
    topics: Vec<Topic>,
}

impl View for Cluster {
    type V = Topics;

    closed spec fn view(&self) -> Topics {
        by_name(self.topics@)
    }
}

impl Cluster {
    #[verifier::type_invariant]
    spec fn well_formed(&self) -> bool {
        distinct_names(self.topics@)
    }

    /// A cluster without topics.
    pub fn new() -> (cluster: Cluster)
        ensures
            cluster@ == Map::<Seq<char>, Seq<Log>>::empty(),
    {
        let cluster = Cluster { topics: Vec::new() };
        cluster
    }

    /// Finds the topic called `name`.
    fn find(&self, name: &String) -> (found: Option<usize>)
        ensures
            match found {
                Some(i) => position(self.topics@, name@) == Some(i as int) && named(
                    self.topics@,
                    name@,
                    i as int,
                ),
                None => position(self.topics@, name@) is None,
            },
    {
        proof {
            use_type_invariant(self);
        }
        let mut i: usize = 0;
        while i < self.topics.len()
            invariant
                i <= self.topics.len(),
                distinct_names(self.topics@),
                forall|j: int| 0 <= j < i ==> self.topics[j].name@ != name@,
            decreases self.topics.len() - i,
        {
            if self.topics[i].name == *name {
                proof {
                    lemma_position(self.topics@, i as int);
                }
                return Some(i);
            }
            i += 1;
        }
        proof {
            lemma_no_position(self.topics@, name@);
        }
        None
    }

    /// Creates the topic `topic_name` with `partition_number` empty partitions. A
    /// topic of that name that exists already is replaced, and its records with it.
    pub fn add_topic(&mut self, topic_name: String, partition_number: usize)
        ensures
            final(self)@ == old(self)@.insert(topic_name@, empty_logs(partition_number as nat)),
    {
        let mut partitions: Vec<Partition> = Vec::new();
        let mut created: usize = 0;
        while created < partition_number
            invariant
                created <= partition_number,
                partitions.len() == created,
                forall|k: int| 0 <= k < created ==> (#[trigger] partitions[k])@ == Seq::<
                    Seq<char>,
                >::empty(),
            decreases partition_number - created,
        {
            partitions.push(Partition::new());
            created += 1;
        }
        assert(logs(partitions@) =~= empty_logs(partition_number as nat));
        proof {
            use_type_invariant(&*self);
        }
        let found = self.find(&topic_name);
        // The topics leave the cluster while they change, and come back at the end.
        let mut topics: Vec<Topic> = Vec::new();
        core::mem::swap(&mut self.topics, &mut topics);
        let topic = Topic { name: topic_name, partitions };
        match found {
            Some(i) => {
                proof {
                    lemma_replace(topics@, i as int, topic);
                }
                topics.set(i, topic);
            },
            None => {
                proof {
                    lemma_add(topics@, topic);
                }
                topics.push(topic);
            },
        }
        self.topics = topics;
    }

    /// The partition that `topic` names, where the topic exists and has a partition
    /// of that number.
    pub fn get_partition(&self, topic: TopicAddress) -> (partition: Option<&Partition>)
        ensures
            match log_at(self@, topic@) {
                Some(log) => partition is Some && partition->0@ == log,
                None => partition is None,
            },
    {
        match self.find(&topic.name) {
            Some(i) => {
                let partition_list = &self.topics[i].partitions;
                let number: usize = topic.partition as usize;
                if number < partition_list.len() {
                    Some(&partition_list[number])
                } else {
                    None
                }
            },
            None => None,
        }
    }

    /// Appends `contents`, in order, to the partition that `topic` names, and returns
    /// the offset of the last of them. Nothing is stored and nothing returned where
    /// the topic is unknown, has no partition of that number, or `contents` is empty.
    pub fn add_content(&mut self, topic: TopicAddress, contents: Vec<Content>) -> (offset: Option<
        OffsetValue,
    >)
        ensures
            match log_at(old(self)@, topic@) {
                Some(log) => {
                    &&& final(self)@ == with_log(old(self)@, topic@, log + records(contents@))
                    &&& contents@.len() == 0 ==> offset is None
                    &&& contents@.len() > 0 ==> offset == Some(
                        OffsetValue(offset_at(log.len() + contents@.len() - 1)),
                    )
                },
                None => offset is None && final(self)@ == old(self)@,
            },
    {
        proof {
            use_type_invariant(&*self);
        }
        let i: usize = match self.find(&topic.name) {
            Some(i) => i,
            None => {
                return None;
            },
        };
        let number: usize = topic.partition as usize;
        if number >= self.topics[i].partitions.len() {
            return None;
        }
        // The topics leave the cluster while they change, and come back at the end.
        let mut topics: Vec<Topic> = Vec::new();
        core::mem::swap(&mut self.topics, &mut topics);
        let ghost before = topics@;
        let offset = topics[i].partitions[number].add_contents(contents);
        proof {
            lemma_replace(before, i as int, topics@[i as int]);
            assert(logs(topics@[i as int].partitions@) =~= logs(
                before[i as int].partitions@,
            ).update(number as int, topics@[i as int].partitions@[number as int]@));
        }
        self.topics = topics;
        offset
    }
}

} // verus!
