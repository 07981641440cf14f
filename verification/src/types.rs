//! Value types shared by the codec, the storage engine and the broker.

use vstd::prelude::*;

verus! {

/// Zero-based position of a record inside one partition.
#[derive(Clone, Copy, Debug, PartialEq, Eq)]
pub struct OffsetValue(pub u32);

/// A partition of a named topic.
#[derive(Debug, PartialEq, Eq)]
pub struct TopicAddress {
    pub name: String,
    pub partition: u32,
}

/// What a `TopicAddress` stands for: the topic's name and the partition index.
pub struct TopicAddressView {
    pub name: Seq<char>,
    pub partition: u32,
}

impl View for TopicAddress {
    type V = TopicAddressView;

    open spec fn view(&self) -> TopicAddressView {
        TopicAddressView { name: self.name@, partition: self.partition }
    }
}

impl TopicAddress {
    /// The partition `partition` of the topic `name`.
    pub fn new(name: String, partition: u32) -> (address: TopicAddress)
        ensures
            address.name == name,
            address.partition == partition,
    {
        TopicAddress { name, partition }
    }
}

/// A record payload.
#[derive(Debug, PartialEq, Eq)]
pub struct Content {
    pub value: String,
}

impl View for Content {
    type V = Seq<char>;

    open spec fn view(&self) -> Seq<char> {
        self.value@
    }
}

impl Content {
    /// The record with the payload `value`.
    pub fn new(value: String) -> (content: Content)
        ensures
            content.value == value,
    {
        Content { value }
    }
}

/// The payloads of `contents`, as character sequences.
pub open spec fn records(contents: Seq<Content>) -> Seq<Seq<char>> {
    contents.map_values(|c: Content| c@)
}

impl Clone for Content {
    fn clone(&self) -> (copy: Content)
        ensures
            copy@ == self@,
    {
        Content { value: self.value.clone() }
    }
}

/// A broker's id and its "host:port" address.
#[derive(Debug, PartialEq, Eq)]
pub struct BrokerInfo(pub u32, pub String);

} // verus!
