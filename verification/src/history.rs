//! What a broker's answers say about its logs: offsets count the records of a
//! partition in the order of their arrival, reads give the records back under those
//! offsets, and a request for a partition that does not exist changes nothing.

use crate::communication::{response_frame, take_responses, ResponseView};
use crate::endpoint::{range_end, read_range, reply_frames, BrokerState};
use crate::round_trip::{lemma_response_alone, lemma_responses_round_trip, responses_fit};
use crate::storage::{log_at, Log};
use crate::types::TopicAddressView;
use vstd::prelude::*;
use vstd::seq_lib::lemma_multiset_commutative;

verus! {

/// The broker after each of `records` was sent to `address` in a request of its own,
/// one after the other.
pub open spec fn after_produces(
    state: BrokerState,
    address: TopicAddressView,
    records: Log,
) -> BrokerState
    decreases records.len(),
{
    if records.len() == 0 {
        state
    } else {
        after_produces(state, address, records.drop_last()).stored(address, seq![records.last()])
    }
}

/// The answers to those requests, in order.
pub open spec fn produce_answers(
    state: BrokerState,
    address: TopicAddressView,
    records: Log,
) -> Seq<Seq<ResponseView>>
    decreases records.len(),
{
    if records.len() == 0 {
        Seq::empty()
    } else {
        produce_answers(state, address, records.drop_last()).push(
            after_produces(state, address, records.drop_last()).store_answer(
                address,
                seq![records.last()],
            ),
        )
    }
}

/// Storing records in a partition leaves the partition with the records added at the
/// end of its log, every other log as it was, and the failure detector alone.
pub proof fn lemma_store_touches_one_log(
    state: BrokerState,
    address: TopicAddressView,
    contents: Log,
    other: TopicAddressView,
)
    requires
        log_at(state.topics, address) is Some,
    ensures
        log_at(state.stored(address, contents).topics, address) == Some(
            log_at(state.topics, address).unwrap() + contents,
        ),
        other != address ==> log_at(state.stored(address, contents).topics, other) == log_at(
            state.topics,
            other,
        ),
        state.stored(address, contents).detector == state.detector,
{
}

/// Records sent one by one to a partition stand at the end of its log in the order
/// of their arrival. However their senders took turns, the log holds every record
/// as often as it was sent, beside what it held before, and nothing else.
pub proof fn lemma_records_stand_in_order(
    state: BrokerState,
    address: TopicAddressView,
    records: Log,
)
    requires
        log_at(state.topics, address) is Some,
    ensures
        log_at(after_produces(state, address, records).topics, address) == Some(
            log_at(state.topics, address).unwrap() + records,
        ),
        (log_at(state.topics, address).unwrap() + records).to_multiset() == log_at(
            state.topics,
            address,
        ).unwrap().to_multiset().add(records.to_multiset()),
    decreases records.len(),
{
    let log = log_at(state.topics, address).unwrap();
    lemma_multiset_commutative(log, records);
    if records.len() > 0 {
        let earlier = records.drop_last();
        lemma_records_stand_in_order(state, address, earlier);
        lemma_store_touches_one_log(
            after_produces(state, address, earlier),
            address,
            seq![records.last()],
            address,
        );
        assert((log + earlier) + seq![records.last()] =~= log + records);
    } else {
        assert(log + records =~= log);
    }
}

/// Records sent one by one to a partition that holds `log` get the offsets
/// `log.len()`, `log.len() + 1` and so on, in the order of their arrival, and stand
/// in the log in that order, as long as the offsets fit in 32 bits. Whoever sent
/// them, and however the senders took turns: each record has one offset, each
/// offset one record.
pub proof fn lemma_offsets_count_up(state: BrokerState, address: TopicAddressView, records: Log)
    requires
        log_at(state.topics, address) is Some,
        log_at(state.topics, address).unwrap().len() + records.len() <= 0x1_0000_0000,
    ensures
        log_at(after_produces(state, address, records).topics, address) == Some(
            log_at(state.topics, address).unwrap() + records,
        ),
        produce_answers(state, address, records).len() == records.len(),
        forall|i: int|
            0 <= i < records.len() ==> #[trigger] produce_answers(state, address, records)[i]
                == seq![
                ResponseView::Offset((log_at(state.topics, address).unwrap().len() + i) as u32),
            ],
    decreases records.len(),
{
    lemma_records_stand_in_order(state, address, records);
    if records.len() > 0 {
        let earlier = records.drop_last();
        lemma_offsets_count_up(state, address, earlier);
        lemma_records_stand_in_order(state, address, earlier);
    }
}

/// A record that was stored can be read at the offset that the broker answered with.
pub proof fn lemma_stored_record_is_visible(
    state: BrokerState,
    address: TopicAddressView,
    contents: Log,
    limit: u32,
)
    requires
        log_at(state.topics, address) is Some,
        contents.len() > 0,
        log_at(state.topics, address).unwrap().len() + contents.len() <= 0x1_0000_0000,
        limit > 0,
    ensures
        ({
            let last = (log_at(state.topics, address).unwrap().len() + contents.len() - 1) as u32;
            &&& state.store_answer(address, contents) == seq![ResponseView::Offset(last)]
            &&& state.stored(address, contents).read_answer(address, last, limit) == seq![
                ResponseView::Content(last, contents.last()),
            ]
        }),
{
    let log = log_at(state.topics, address).unwrap();
    let last = (log.len() + contents.len() - 1) as u32;
    lemma_store_touches_one_log(state, address, contents, address);
    lemma_read_in_range(log + contents, last, limit);
}

/// A read of `limit` records from an offset inside the log gives the records from
/// that offset on, as many as there are up to `limit`, each under its own offset.
pub proof fn lemma_read_in_range(log: Log, offset: u32, limit: u32)
    requires
        offset < log.len() <= 0x1_0000_0000,
        limit > 0,
    ensures
        read_range(log, offset, limit) == Seq::new(
            (range_end(log.len(), offset, limit) - offset) as nat,
            |i: int| ResponseView::Content((offset + i) as u32, log[offset + i]),
        ),
{
}

/// A read from offset 0 of as many records as the log holds gives every record,
/// oldest first, under the offsets 0, 1, and so on.
pub proof fn lemma_read_all(log: Log)
    requires
        log.len() <= u32::MAX,
    ensures
        read_range(log, 0, log.len() as u32) == Seq::new(
            log.len(),
            |i: int| ResponseView::Content(i as u32, log[i]),
        ),
{
}

/// A read at or after the end of a log that holds records gives the last record
/// that the range allows, under the offset that was asked for.
pub proof fn lemma_read_past_the_end(log: Log, offset: u32, limit: u32)
    requires
        0 < log.len() <= offset,
    ensures
        read_range(log, offset, limit) == seq![
            ResponseView::Content(offset, log[log.len() - 1]),
        ],
{
}

/// What the sender of a request reads from the bytes of the answer is the answer, or
/// one `Empty` where the answer has no response.
pub proof fn lemma_answer_reads_back(answer: Seq<ResponseView>)
    requires
        responses_fit(answer),
    ensures
        take_responses(reply_frames(answer), 0) == Some(
            if answer.len() == 0 {
                seq![ResponseView::Empty]
            } else {
                answer
            },
        ),
{
    if answer.len() == 0 {
        lemma_response_alone(ResponseView::Empty);
    } else {
        lemma_responses_round_trip(answer);
    }
}

/// Sending to and reading from a topic that does not exist is answered with one
/// `Error`, and the broker stays as it was.
pub proof fn lemma_unknown_topic(
    state: BrokerState,
    address: TopicAddressView,
    contents: Log,
    offset: u32,
    limit: u32,
)
    requires
        !state.topics.contains_key(address.name),
    ensures
        state.store_answer(address, contents) == seq![ResponseView::Error],
        state.read_answer(address, offset, limit) == seq![ResponseView::Error],
        state.stored(address, contents) == state,
{
}

/// A read from a partition without records has no responses, so its sender is
/// answered with the frame of one `Empty`, and reads one `Empty`.
pub proof fn lemma_empty_partition(
    state: BrokerState,
    address: TopicAddressView,
    offset: u32,
    limit: u32,
)
    requires
        log_at(state.topics, address) == Some(Seq::<Seq<char>>::empty()),
    ensures
        state.read_answer(address, offset, limit) == Seq::<ResponseView>::empty(),
        reply_frames(state.read_answer(address, offset, limit)) == response_frame(
            ResponseView::Empty,
        ),
        take_responses(reply_frames(state.read_answer(address, offset, limit)), 0) == Some(
            seq![ResponseView::Empty],
        ),
{
    lemma_response_alone(ResponseView::Empty);
}

} // verus!
