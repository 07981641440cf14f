use logstreamer::{Cluster, Content, OffsetValue, Partition, TopicAddress};

fn content(value: &str) -> Content {
    Content::new(String::from(value))
}

fn address(name: &str, partition: u32) -> TopicAddress {
    TopicAddress::new(String::from(name), partition)
}

fn values(partition: &Partition) -> Vec<String> {
    partition.queue.iter().map(|content| content.value.clone()).collect()
}

#[test]
fn new_partition_is_empty() {
    assert!(Partition::new().queue.is_empty());
}

#[test]
fn partition_offsets_count_from_zero() {
    let mut partition = Partition::new();
    assert_eq!(partition.add_content(content("a")), OffsetValue(0));
    assert_eq!(partition.add_content(content("b")), OffsetValue(1));
    assert_eq!(partition.add_content(content("c")), OffsetValue(2));
    assert_eq!(values(&partition), vec!["a", "b", "c"]);
}

#[test]
fn partition_appends_a_list_and_returns_the_last_offset() {
    let mut partition = Partition::new();
    assert_eq!(partition.add_contents(vec![content("a"), content("b")]), Some(OffsetValue(1)));
    assert_eq!(partition.add_contents(Vec::new()), None);
    assert_eq!(partition.add_contents(vec![content("c")]), Some(OffsetValue(2)));
    assert_eq!(values(&partition), vec!["a", "b", "c"]);
}

#[test]
fn new_cluster_has_no_topic() {
    let cluster = Cluster::new();
    assert!(cluster.get_partition(address("topic", 0)).is_none());
}

#[test]
fn cluster_topic_has_as_many_partitions_as_asked_for() {
    let mut cluster = Cluster::new();
    cluster.add_topic(String::from("topic"), 3);
    for partition in 0..3 {
        let found = cluster.get_partition(address("topic", partition));
        assert!(found.is_some());
        assert!(found.unwrap().queue.is_empty());
    }
    assert!(cluster.get_partition(address("topic", 3)).is_none());
    assert!(cluster.get_partition(address("topic", u32::MAX)).is_none());
    assert!(cluster.get_partition(address("other", 0)).is_none());
}

#[test]
fn cluster_topic_without_partitions_has_none() {
    let mut cluster = Cluster::new();
    cluster.add_topic(String::from("topic"), 0);
    assert!(cluster.get_partition(address("topic", 0)).is_none());
    assert_eq!(cluster.add_content(address("topic", 0), vec![content("a")]), None);
}

#[test]
fn cluster_appends_and_returns_the_last_offset() {
    let mut cluster = Cluster::new();
    cluster.add_topic(String::from("topic"), 1);
    assert_eq!(
        cluster.add_content(address("topic", 0), vec![content("a"), content("b"), content("c")]),
        Some(OffsetValue(2))
    );
    assert_eq!(cluster.add_content(address("topic", 0), vec![content("d")]), Some(OffsetValue(3)));
    let partition = cluster.get_partition(address("topic", 0)).unwrap();
    assert_eq!(values(partition), vec!["a", "b", "c", "d"]);
}

#[test]
fn cluster_stores_nothing_for_an_unknown_partition() {
    let mut cluster = Cluster::new();
    assert_eq!(cluster.add_content(address("missing", 0), vec![content("a")]), None);
    cluster.add_topic(String::from("topic"), 2);
    assert_eq!(cluster.add_content(address("missing", 0), vec![content("a")]), None);
    assert_eq!(cluster.add_content(address("topic", 2), vec![content("a")]), None);
    assert!(cluster.get_partition(address("topic", 0)).unwrap().queue.is_empty());
    assert!(cluster.get_partition(address("topic", 1)).unwrap().queue.is_empty());
}

#[test]
fn cluster_stores_nothing_for_an_empty_list() {
    let mut cluster = Cluster::new();
    cluster.add_topic(String::from("topic"), 1);
    assert_eq!(cluster.add_content(address("topic", 0), Vec::new()), None);
    assert_eq!(cluster.add_content(address("topic", 0), vec![content("a")]), Some(OffsetValue(0)));
    assert_eq!(cluster.add_content(address("topic", 0), Vec::new()), None);
    assert_eq!(values(cluster.get_partition(address("topic", 0)).unwrap()), vec!["a"]);
}

#[test]
fn cluster_partitions_do_not_share_records() {
    let mut cluster = Cluster::new();
    cluster.add_topic(String::from("t"), 2);
    cluster.add_topic(String::from("u"), 1);
    assert_eq!(cluster.add_content(address("t", 0), vec![content("left")]), Some(OffsetValue(0)));
    assert_eq!(cluster.add_content(address("t", 1), vec![content("right")]), Some(OffsetValue(0)));
    assert_eq!(cluster.add_content(address("u", 0), vec![content("q0")]), Some(OffsetValue(0)));
    assert_eq!(cluster.add_content(address("t", 1), vec![content("more")]), Some(OffsetValue(1)));
    assert_eq!(values(cluster.get_partition(address("t", 0)).unwrap()), vec!["left"]);
    assert_eq!(values(cluster.get_partition(address("t", 1)).unwrap()), vec!["right", "more"]);
    assert_eq!(values(cluster.get_partition(address("u", 0)).unwrap()), vec!["q0"]);
}

#[test]
fn creating_a_topic_again_replaces_it() {
    let mut cluster = Cluster::new();
    cluster.add_topic(String::from("topic"), 1);
    cluster.add_topic(String::from("other"), 1);
    cluster.add_content(address("topic", 0), vec![content("a")]);
    cluster.add_content(address("other", 0), vec![content("b")]);
    cluster.add_topic(String::from("topic"), 2);
    assert!(cluster.get_partition(address("topic", 0)).unwrap().queue.is_empty());
    assert!(cluster.get_partition(address("topic", 1)).unwrap().queue.is_empty());
    assert_eq!(values(cluster.get_partition(address("other", 0)).unwrap()), vec!["b"]);
    assert_eq!(cluster.add_content(address("topic", 0), vec![content("c")]), Some(OffsetValue(0)));
}

#[test]
fn interleaved_producers_get_every_offset_once() {
    let producers = 4;
    let each = 25;
    let mut cluster = Cluster::new();
    cluster.add_topic(String::from("topic"), 1);
    let mut offsets = Vec::new();
    for round in 0..each {
        for producer in 0..producers {
            let record = format!("{}-{}", producer, round);
            let offset = cluster.add_content(address("topic", 0), vec![content(&record)]);
            offsets.push(offset.unwrap().0);
        }
    }
    let expected: Vec<u32> = (0..(producers * each) as u32).collect();
    assert_eq!(offsets, expected);
    let stored = values(cluster.get_partition(address("topic", 0)).unwrap());
    assert_eq!(stored.len(), producers * each);
    for producer in 0..producers {
        for round in 0..each {
            let record = format!("{}-{}", producer, round);
            assert_eq!(stored.iter().filter(|value| **value == record).count(), 1);
        }
    }
}
