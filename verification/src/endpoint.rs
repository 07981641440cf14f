//! The broker: one cluster of topics, one failure detector once it is initialised,
//! and the dispatcher that answers requests from them.
//!
//! The broker opens no connection and waits for nothing. What it has to send to
//! other brokers it hands to its caller, as `Outbound` values.

use crate::communication::{
    lemma_response_frames_push, response_frame, response_frames, responses, take_request, Action,
    ActionMessage, ActionView, Response, ResponseMessage, ResponseView,
};
use crate::detector::{
    deliveries, one_shot, DetectorState, FailureDetector, Outbound, OutboundView, Round,
};
use crate::storage::{empty_logs, log_at, offset_at, with_log, Cluster, Log, Topics};
use crate::types::{records, Content, OffsetValue, TopicAddress, TopicAddressView};
use crate::wire::texts;
use vstd::prelude::*;

verus! {

/// Seconds between two looks at a broker that has no failure detector yet.
pub const IDLE_WAIT: u64 = 2;

/// Where a read of `limit` records from `offset` ends in a log of `len` records.
pub open spec fn range_end(len: nat, offset: u32, limit: u32) -> int {
    if offset + limit < len {
        offset + limit
    } else {
        len as int
    }
}

/// Where a read of `limit` records from `offset` starts in a log of `len` records:
/// at `offset`, but never after the last record that the read may cover.
pub open spec fn range_start(len: nat, offset: u32, limit: u32) -> int {
    let end = range_end(len, offset, limit);
    if end == 0 {
        0
    } else if offset < end - 1 {
        offset as int
    } else {
        end - 1
    }
}

/// The answer to a read of `limit` records from `offset` in `log`: the records from
/// `range_start` up to `range_end`, numbered from `offset` on. A read that starts at
/// or after the end of the log gets the record before `range_end` under the number
/// `offset`.
pub open spec fn read_range(log: Log, offset: u32, limit: u32) -> Seq<ResponseView> {
    let start = range_start(log.len(), offset, limit);
    let end = range_end(log.len(), offset, limit);
    Seq::new(
        (end - start) as nat,
        |i: int| ResponseView::Content(offset_at(offset + i), log[start + i]),
    )
}

/// What the first broker tells the others when it becomes the controller: each
/// broker but the first gets `InitializeBroker` with its own id and the list.
pub open spec fn announcements(brokers: Seq<Seq<char>>) -> Seq<OutboundView> {
    Seq::new(
        (brokers.len() - 1) as nat,
        |i: int| one_shot(brokers[i + 1], ActionView::InitializeBroker((i + 1) as u32, brokers)),
    )
}

/// What a broker holds.
pub struct BrokerState {
    pub topics: Topics,
    pub detector: Option<DetectorState>,
}

impl BrokerState {
    /// The failure detector, where there is one, is valid.
    pub open spec fn valid(self) -> bool {
        self.detector matches Some(detector) ==> detector.valid()
    }

    /// A broker without topics and without a failure detector.
    pub open spec fn initial() -> BrokerState {
        BrokerState { topics: Map::empty(), detector: None }
    }

    /// The broker after `contents` were sent to `address`. Nothing changes where
    /// `address` names no partition.
    pub open spec fn stored(self, address: TopicAddressView, contents: Log) -> BrokerState {
        match log_at(self.topics, address) {
            Some(log) => BrokerState {
                topics: with_log(self.topics, address, log + contents),
                ..self
            },
            None => self,
        }
    }

    /// The answer to the sending of `contents` to `address`: the offset of the last
    /// of them, or `Error` where `address` names no partition or nothing was sent.
    pub open spec fn store_answer(self, address: TopicAddressView, contents: Log) -> Seq<
        ResponseView,
    > {
        match log_at(self.topics, address) {
            Some(log) => if contents.len() > 0 {
                seq![ResponseView::Offset(offset_at(log.len() + contents.len() - 1))]
            } else {
                seq![ResponseView::Error]
            },
            None => seq![ResponseView::Error],
        }
    }

    /// The answer to a read at `address`: the records in range, or `Error` where
    /// `address` names no partition.
    pub open spec fn read_answer(self, address: TopicAddressView, offset: u32, limit: u32) -> Seq<
        ResponseView,
    > {
        match log_at(self.topics, address) {
            Some(log) => read_range(log, offset, limit),
            None => seq![ResponseView::Error],
        }
    }

    /// The broker with the topic `name` of `partitions` empty partitions.
    pub open spec fn with_topic(self, name: Seq<char>, partitions: nat) -> BrokerState {
        BrokerState { topics: self.topics.insert(name, empty_logs(partitions)), ..self }
    }

    /// The broker with a new failure detector for broker `id` among `brokers`.
    pub open spec fn with_detector(self, id: u32, brokers: Seq<Seq<char>>) -> BrokerState {
        BrokerState { detector: Some(DetectorState::initial(id, brokers)), ..self }
    }

    /// The broker after `IamAlive` from `sender`, which only a failure detector
    /// takes note of.
    pub open spec fn signalled(self, sender: u32) -> BrokerState {
        match self.detector {
            Some(detector) => BrokerState {
                detector: Some(detector.after_signal(sender)),
                ..self
            },
            None => self,
        }
    }

    /// The broker after one round of its failure detector.
    pub open spec fn after_round(self) -> BrokerState {
        match self.detector {
            Some(detector) => BrokerState { detector: Some(detector.after_round()), ..self },
            None => self,
        }
    }

    /// The broker after the request `action`.
    pub open spec fn after(self, action: ActionView) -> BrokerState {
        match action {
            ActionView::Produce(topic, contents) => self.stored(topic, contents),
            ActionView::CreateTopic(name, partitions) => self.with_topic(name, partitions as nat),
            ActionView::InitializeController(brokers) => self.with_detector(0, brokers),
            ActionView::InitializeBroker(id, brokers) => self.with_detector(id, brokers),
            ActionView::IamAlive(id) => self.signalled(id),
            _ => self,
        }
    }

    /// The responses to the request `action`. `Quit` is answered with `Empty`; the
    /// requests that only change the broker, and `Invalid`, with no response.
    pub open spec fn answer(self, action: ActionView) -> Seq<ResponseView> {
        match action {
            ActionView::Produce(topic, contents) => self.store_answer(topic, contents),
            ActionView::Consume(topic, offset, limit) => self.read_answer(topic, offset, limit),
            ActionView::Quit => seq![ResponseView::Empty],
            _ => Seq::empty(),
        }
    }
}

/// What the request `action` makes a broker send to other brokers.
pub open spec fn sends(action: ActionView) -> Seq<OutboundView> {
    match action {
        ActionView::InitializeController(brokers) => announcements(brokers),
        _ => Seq::empty(),
    }
}

/// Whether a broker can act on `action`: a broker that is to run a failure detector
/// is one of the brokers listed, the controller the first of them, and every broker
/// listed has an id of 32 bits.
pub open spec fn acceptable(action: ActionView) -> bool {
    match action {
        ActionView::InitializeController(brokers) => 0 < brokers.len() <= 0x1_0000_0000,
        ActionView::InitializeBroker(id, brokers) => id < brokers.len(),
        _ => true,
    }
}

/// The bytes that answer a request with `list`: the frames of the responses, or the
/// frame of `Empty` where there is none, so that there is always something to read.
pub open spec fn reply_frames(list: Seq<ResponseView>) -> Seq<u8> {
    if list.len() == 0 {
        response_frame(ResponseView::Empty)
    } else {
        response_frames(list)
    }
}

/// Why a broker does nothing about the bytes of a request.
#[derive(Clone, Copy, Debug, PartialEq, Eq)]
pub enum RequestError {
    /// The frame of the request runs past the end of the buffer.
    Framing,
    /// The request is to run a failure detector for a broker that is not among the
    /// brokers it lists.
    Membership,
}

/// What a broker does about one request.
#[derive(Debug, PartialEq, Eq)]
pub struct Reply {
    /// The responses to the sender, in order.
    pub responses: Vec<ResponseMessage>,
    /// What to send to other brokers before the sender is answered.
    pub outbound: Vec<Outbound>,
    /// Whether to close the sender's connection once it is answered.
    pub close: bool,
}

impl Reply {
    /// The bytes to answer the sender with.
    pub fn as_vec(&self) -> (bytes: Vec<u8>)
        ensures
            bytes@ == reply_frames(responses(self.responses@)),
    {
        let mut response_content: Vec<u8> = Vec::new();
        let mut i: usize = 0;
        while i < self.responses.len()
            invariant
                i <= self.responses.len(),
                response_content@ == response_frames(
                    responses(self.responses@).subrange(0, i as int),
                ),
            decreases self.responses.len() - i,
        {
            let mut frame = self.responses[i].as_vec();
            proof {
                let done = responses(self.responses@).subrange(0, i as int);
                lemma_response_frames_push(done, self.responses[i as int]@);
                assert(done.push(self.responses[i as int]@) =~= responses(
                    self.responses@,
                ).subrange(0, i + 1));
            }
            response_content.append(&mut frame);
            i += 1;
        }
        assert(responses(self.responses@).subrange(0, i as int) =~= responses(self.responses@));

        if response_content.is_empty() {
            let mut frame = ResponseMessage::new_empty().as_vec();
            response_content.append(&mut frame);
        }
        response_content
    }
}

/// A broker.
pub struct Broker {
    cluster: Cluster,
    failure_detector: Option<FailureDetector>,
}

impl View for Broker {
    type V = BrokerState;

    closed spec fn view(&self) -> BrokerState {
        BrokerState {
            topics: self.cluster@,
            detector: match self.failure_detector {
                Some(detector) => Some(detector@),
                None => None,
            },
        }
    }
}

impl Broker {
    /// A broker without topics and without a failure detector.
    pub fn new() -> (broker: Broker)
        ensures
            broker@ == BrokerState::initial(),
    {
        let cluster = Cluster::new();
        let failure_detector = None;
        Broker { cluster, failure_detector }
    }

    /// Recalls what holds of every broker. There is nothing to run but a look at
    /// whether the broker has a failure detector.
    fn validity(&self)
        ensures
            self@.valid(),
    {
        match &self.failure_detector {
            Some(failure_detector) => failure_detector.validity(),
            None => {},
        }
    }

    /// Makes this broker the controller of `brokers`, of which it is the first:
    /// installs a failure detector for broker 0 and hands back what to tell the
    /// other brokers.
    pub fn init_controller(&mut self, brokers: Vec<String>) -> (reply: Reply)
        requires
            0 < brokers@.len() <= 0x1_0000_0000,
        ensures
            final(self)@ == old(self)@.with_detector(0, texts(brokers@)),
            final(self)@.valid(),
            reply.responses@.len() == 0,
            deliveries(reply.outbound@) == announcements(texts(brokers@)),
            !reply.close,
    {
        let mut outbound: Vec<Outbound> = Vec::new();
        let count: usize = brokers.len();
        let mut i: usize = 1;
        while i < count
            invariant
                count == brokers.len(),
                count <= 0x1_0000_0000,
                1 <= i <= count,
                outbound.len() == i - 1,
                forall|k: int|
                    0 <= k < outbound.len() ==> (#[trigger] outbound[k])@ == one_shot(
                        brokers[k + 1]@,
                        ActionView::InitializeBroker((k + 1) as u32, texts(brokers@)),
                    ),
            decreases count - i,
        {
            let list = brokers.clone();
            let mut messages: Vec<ActionMessage> = Vec::new();
            messages.push(
                ActionMessage::new(Action::InitializeBroker(i as u32, list), String::new()),
            );
            messages.push(ActionMessage::new(Action::Quit, String::new()));
            let delivery = Outbound { address: brokers[i].clone(), messages };
            assert(delivery@.messages =~= one_shot(
                brokers[i as int]@,
                ActionView::InitializeBroker(i as u32, texts(brokers@)),
            ).messages);
            outbound.push(delivery);
            i += 1;
        }

        let failure_detector = FailureDetector::new(0, brokers);
        self.failure_detector = Some(failure_detector);
        Reply { responses: Vec::new(), outbound, close: false }
    }

    /// Installs a failure detector for broker `id` among `brokers`, in place of any
    /// that there was.
    pub fn init_broker(&mut self, id: u32, brokers: Vec<String>) -> (answer: Vec<ResponseMessage>)
        requires
            id < brokers@.len(),
        ensures
            final(self)@ == old(self)@.with_detector(id, texts(brokers@)),
            final(self)@.valid(),
            answer@.len() == 0,
    {
        let failure_detector = FailureDetector::new(id, brokers);
        self.failure_detector = Some(failure_detector);
        Vec::new()
    }

    /// Hands `IamAlive` from broker `id` to the failure detector, where there is one.
    pub fn receive_signal(&mut self, id: u32) -> (answer: Vec<ResponseMessage>)
        ensures
            final(self)@ == old(self)@.signalled(id),
            final(self)@.valid(),
            answer@.len() == 0,
    {
        match &mut self.failure_detector {
            Some(failure_detector) => {
                failure_detector.receive_signal(id);
            },
            None => {},
        }
        Vec::new()
    }

    /// One round of the failure detector: what to send and how long to wait. A
    /// broker without a failure detector sends nothing and looks again after
    /// `IDLE_WAIT` seconds.
    pub fn loop_failure_detector(&mut self) -> (round: Round)
        ensures
            final(self)@ == old(self)@.after_round(),
            final(self)@.valid(),
            match old(self)@.detector {
                Some(detector) => round.wait == detector.wait_after_round() && deliveries(
                    round.outbound@,
                ) == detector.heartbeats(),
                None => round.wait == IDLE_WAIT && round.outbound@.len() == 0,
            },
    {
        match &mut self.failure_detector {
            Some(failure_detector) => failure_detector.run_loop(),
            None => Round { wait: IDLE_WAIT, outbound: Vec::new() },
        }
    }

    /// Appends `content` to the partition that `topic` names and answers with the
    /// offset of the last record, or with `Error` where nothing was stored.
    pub fn store_data(&mut self, topic: TopicAddress, content: Vec<Content>) -> (answer: Vec<
        ResponseMessage,
    >)
        ensures
            final(self)@ == old(self)@.stored(topic@, records(content@)),
            responses(answer@) == old(self)@.store_answer(topic@, records(content@)),
    {
        let response = match self.cluster.add_content(topic, content) {
            Some(offset) => Response::Offset(offset),
            None => Response::Error,
        };
        let mut answer: Vec<ResponseMessage> = Vec::new();
        answer.push(ResponseMessage::new(response));
        answer
    }

    /// Reads up to `limit` records from `offset` on in the partition that `topic`
    /// names, or answers with `Error` where it names none.
    pub fn read_data(&self, topic: TopicAddress, offset: OffsetValue, limit: u32) -> (answer: Vec<
        ResponseMessage,
    >)
        ensures
            responses(answer@) == self@.read_answer(topic@, offset.0, limit),
    {
        let mut content_list: Vec<ResponseMessage> = Vec::new();

        match self.cluster.get_partition(topic) {
            Some(partition) => {
                let queue = &partition.queue;
                let ghost log = partition@;
                let len: usize = queue.len();
                let wanted: u64 = offset.0 as u64 + limit as u64;
                let range_end: usize = if wanted < len as u64 {
                    wanted as usize
                } else {
                    len
                };
                if range_end == 0 {
                    return content_list;
                }
                let range_start: usize = if (offset.0 as u64) < (range_end - 1) as u64 {
                    offset.0 as usize
                } else {
                    range_end - 1
                };
                let mut position: u64 = offset.0 as u64;
                let mut i: usize = range_start;

                while i < range_end
                    invariant
                        log == records(queue@),
                        range_end == self::range_end(log.len(), offset.0, limit),
                        range_start == self::range_start(log.len(), offset.0, limit),
                        range_start <= i <= range_end <= queue.len(),
                        position == offset.0 + (i - range_start),
                        content_list.len() == i - range_start,
                        forall|k: int|
                            0 <= k < content_list.len() ==> (#[trigger] content_list[k])@
                                == ResponseView::Content(
                                offset_at(offset.0 + k),
                                log[range_start + k],
                            ),
                    decreases range_end - i,
                {
                    let value = queue[i].clone();
                    content_list.push(
                        ResponseMessage::new(
                            Response::Content(
                                OffsetValue((position % 0x1_0000_0000) as u32),
                                value,
                            ),
                        ),
                    );
                    position += 1;
                    i += 1;
                }
                content_list
            },
            None => {
                content_list.push(ResponseMessage::new(Response::Error));
                content_list
            },
        }
    }

    /// Creates the topic `topic` with `partition_number` empty partitions, in place
    /// of any topic of that name.
    pub fn add_topic(&mut self, topic: String, partition_number: u32) -> (answer: Vec<
        ResponseMessage,
    >)
        ensures
            final(self)@ == old(self)@.with_topic(topic@, partition_number as nat),
            answer@.len() == 0,
    {
        self.cluster.add_topic(topic, partition_number as usize);
        Vec::new()
    }
}

impl Broker {
    /// Whether the broker can act on `action`.
    pub fn accepts(action: &Action) -> (accepted: bool)
        ensures
            accepted == acceptable(action@),
    {
        match action {
            Action::InitializeController(brokers) => {
                let count: usize = brokers.len();
                0 < count && count as u64 <= 0x1_0000_0000
            },
            Action::InitializeBroker(id, brokers) => {
                let count: usize = brokers.len();
                (*id as u64) < count as u64
            },
            _ => true,
        }
    }

    /// Acts on one request and says what to answer, what to send to other brokers,
    /// and whether the sender is done.
    pub fn dispatch(&mut self, message: ActionMessage) -> (reply: Reply)
        requires
            acceptable(message@.action),
        ensures
            final(self)@ == old(self)@.after(message@.action),
            final(self)@.valid(),
            responses(reply.responses@) == old(self)@.answer(message@.action),
            deliveries(reply.outbound@) == sends(message@.action),
            reply.close == (message@.action is Quit),
    {
        let mut close = false;
        let mut outbound: Vec<Outbound> = Vec::new();
        let response_list = match message.action {
            Action::Produce(topic, content) => self.store_data(topic, content),
            Action::Consume(topic, offset, limit) => self.read_data(topic, offset, limit),
            Action::CreateTopic(topic, partition_number) => self.add_topic(
                topic,
                partition_number,
            ),
            Action::InitializeController(brokers) => {
                let reply = self.init_controller(brokers);
                outbound = reply.outbound;
                reply.responses
            },
            Action::InitializeBroker(id, brokers) => self.init_broker(id, brokers),
            Action::IamAlive(id) => self.receive_signal(id),
            Action::Invalid => Vec::new(),
            Action::Quit => {
                close = true;
                let mut last: Vec<ResponseMessage> = Vec::new();
                last.push(ResponseMessage::new_empty());
                last
            },
        };
        self.validity();
        Reply { responses: response_list, outbound, close }
    }

    /// Reads the request at the start of `buffer` and acts on it. Nothing changes
    /// where the request runs past the end of `buffer` or is one that the broker
    /// cannot act on.
    pub fn handle_request(&mut self, buffer: &[u8]) -> (reply: Result<Reply, RequestError>)
        ensures
            final(self)@.valid(),
            match take_request(buffer@) {
                Some((request, _)) => if acceptable(request.action) {
                    &&& reply is Ok
                    &&& final(self)@ == old(self)@.after(request.action)
                    &&& responses(reply->Ok_0.responses@) == old(self)@.answer(request.action)
                    &&& deliveries(reply->Ok_0.outbound@) == sends(request.action)
                    &&& reply->Ok_0.close == (request.action is Quit)
                } else {
                    reply == Err::<Reply, RequestError>(RequestError::Membership) && final(self)@
                        == old(self)@
                },
                None => reply == Err::<Reply, RequestError>(RequestError::Framing) && final(self)@
                    == old(self)@,
            },
    {
        self.validity();
        let message = match ActionMessage::try_parse(buffer) {
            Some(message) => message,
            None => {
                return Err(RequestError::Framing);
            },
        };
        if !Broker::accepts(&message.action) {
            return Err(RequestError::Membership);
        }
        Ok(self.dispatch(message))
    }
}

impl Default for Broker {
    fn default() -> (broker: Broker)
        ensures
            broker@ == BrokerState::initial(),
    {
        Broker::new()
    }
}

/// The controller of a cluster of brokers.
pub struct Controller {}

} // verus!
