//! The wire codec: requests (`ActionMessage`) and responses (`ResponseMessage`) to
//! and from their binary frames.
//!
//! A request is one tag byte, a body that the tag decides, and the sender's consumer
//! id as a string. A response is one tag byte and its body; several responses may
//! follow one another in a buffer, up to an `Empty` response or the buffer's end.

use crate::types::{records, Content, OffsetValue, TopicAddress, TopicAddressView};
use crate::wire::{
    len_prefix, string_frame, string_frames, take_string, take_strings, take_u32, take_u8, texts,
    u32_be, write_contents, write_string, write_strings, write_u32, Buffer,
};
use vstd::pervasive::unreached;
use vstd::prelude::*;

verus! {

/// What a client asks of a broker.
#[derive(Debug, PartialEq, Eq)]
pub enum Action {
    /// Append the records to the partition. Tag 1.
    Produce(TopicAddress, Vec<Content>),
    /// Read from the partition, from the offset on, no more records than the limit.
    /// Tag 2.
    Consume(TopicAddress, OffsetValue, u32),
    /// Create the topic with that many partitions. Tag 3.
    CreateTopic(String, u32),
    /// Become the controller of the brokers at these addresses. Tag 4.
    InitializeController(Vec<String>),
    /// Watch the other brokers as the broker with this id among the brokers at these
    /// addresses. Tag 5.
    InitializeBroker(u32, Vec<String>),
    /// The broker with this id is alive. Tag 6.
    IamAlive(u32),
    /// The sender is done. Tag 99.
    Quit,
    /// No request that a broker knows. Written with tag 0, read from every tag that
    /// stands for no other action.
    Invalid,
}

/// An `Action` over character sequences.
pub enum ActionView {
    Produce(TopicAddressView, Seq<Seq<char>>),
    Consume(TopicAddressView, u32, u32),
    CreateTopic(Seq<char>, u32),
    InitializeController(Seq<Seq<char>>),
    InitializeBroker(u32, Seq<Seq<char>>),
    IamAlive(u32),
    Quit,
    Invalid,
}

impl View for Action {
    type V = ActionView;

    open spec fn view(&self) -> ActionView {
        match *self {
            Action::Produce(topic, contents) => ActionView::Produce(topic@, records(contents@)),
            Action::Consume(topic, offset, limit) => ActionView::Consume(topic@, offset.0, limit),
            Action::CreateTopic(name, partitions) => ActionView::CreateTopic(name@, partitions),
            Action::InitializeController(brokers) => ActionView::InitializeController(
                texts(brokers@),
            ),
            Action::InitializeBroker(id, brokers) => ActionView::InitializeBroker(
                id,
                texts(brokers@),
            ),
            Action::IamAlive(id) => ActionView::IamAlive(id),
            Action::Quit => ActionView::Quit,
            Action::Invalid => ActionView::Invalid,
        }
    }
}

/// A request: an action and the id of the consumer that sends it.
#[derive(Debug, PartialEq, Eq)]
pub struct ActionMessage {
    pub action: Action,
    pub consumer_id: String,
}

/// An `ActionMessage` over character sequences.
pub struct ActionMessageView {
    pub action: ActionView,
    pub consumer_id: Seq<char>,
}

impl View for ActionMessage {
    type V = ActionMessageView;

    open spec fn view(&self) -> ActionMessageView {
        ActionMessageView { action: self.action@, consumer_id: self.consumer_id@ }
    }
}

/// The tag byte of `action` and its body.
pub open spec fn action_frame(action: ActionView) -> Seq<u8> {
    match action {
        ActionView::Produce(topic, contents) => seq![1u8] + string_frame(topic.name) + u32_be(
            topic.partition,
        ) + u32_be(len_prefix(contents.len())) + string_frames(contents),
        ActionView::Consume(topic, offset, limit) => seq![2u8] + string_frame(topic.name)
            + u32_be(topic.partition) + u32_be(offset) + u32_be(limit),
        ActionView::CreateTopic(name, partitions) => seq![3u8] + string_frame(name) + u32_be(
            partitions,
        ),
        ActionView::InitializeController(brokers) => seq![4u8] + u32_be(
            len_prefix(brokers.len()),
        ) + string_frames(brokers),
        ActionView::InitializeBroker(id, brokers) => seq![5u8] + u32_be(id) + u32_be(
            len_prefix(brokers.len()),
        ) + string_frames(brokers),
        ActionView::IamAlive(id) => seq![6u8] + u32_be(id),
        ActionView::Quit => seq![99u8],
        ActionView::Invalid => seq![0u8],
    }
}

/// The frame of a request: its action, then its consumer id.
pub open spec fn request_frame(message: ActionMessageView) -> Seq<u8> {
    action_frame(message.action) + string_frame(message.consumer_id)
}

/// The topic address (name, then partition) at `at`, and the position after it.
pub open spec fn take_topic(bytes: Seq<u8>, at: int) -> Option<(TopicAddressView, int)> {
    match take_string(bytes, at) {
        Some((name, after_name)) => match take_u32(bytes, after_name) {
            Some((partition, next)) => Some((TopicAddressView { name, partition }, next)),
            None => None,
        },
        None => None,
    }
}

/// A count at `at`, then that many strings, and the position after them.
pub open spec fn take_list(bytes: Seq<u8>, at: int) -> Option<(Seq<Seq<char>>, int)> {
    match take_u32(bytes, at) {
        Some((count, start)) => take_strings(bytes, start, count as nat),
        None => None,
    }
}

/// The body that follows the tag byte `tag` from `at`, and the position after it.
/// A tag that stands for no action has no body and reads as `Invalid`.
pub open spec fn take_body(bytes: Seq<u8>, tag: u8, at: int) -> Option<(ActionView, int)> {
    if tag == 1 {
        match take_topic(bytes, at) {
            Some((topic, after_topic)) => match take_list(bytes, after_topic) {
                Some((contents, next)) => Some((ActionView::Produce(topic, contents), next)),
                None => None,
            },
            None => None,
        }
    } else if tag == 2 {
        match take_topic(bytes, at) {
            Some((topic, after_topic)) => match take_u32(bytes, after_topic) {
                Some((offset, after_offset)) => match take_u32(bytes, after_offset) {
                    Some((limit, next)) => Some((ActionView::Consume(topic, offset, limit), next)),
                    None => None,
                },
                None => None,
            },
            None => None,
        }
    } else if tag == 3 {
        match take_topic(bytes, at) {
            Some((topic, next)) => Some(
                (ActionView::CreateTopic(topic.name, topic.partition), next),
            ),
            None => None,
        }
    } else if tag == 4 {
        match take_list(bytes, at) {
            Some((brokers, next)) => Some((ActionView::InitializeController(brokers), next)),
            None => None,
        }
    } else if tag == 5 {
        match take_u32(bytes, at) {
            Some((id, after_id)) => match take_list(bytes, after_id) {
                Some((brokers, next)) => Some((ActionView::InitializeBroker(id, brokers), next)),
                None => None,
            },
            None => None,
        }
    } else if tag == 6 {
        match take_u32(bytes, at) {
            Some((id, next)) => Some((ActionView::IamAlive(id), next)),
            None => None,
        }
    } else if tag == 99 {
        Some((ActionView::Quit, at))
    } else {
        Some((ActionView::Invalid, at))
    }
}

/// The request framed at the start of `bytes` and the number of bytes it takes, or
/// nothing where the frame runs past the end of `bytes`. Bytes after the frame do not
/// count.
pub open spec fn take_request(bytes: Seq<u8>) -> Option<(ActionMessageView, int)> {
    match take_u8(bytes, 0) {
        Some((tag, after_tag)) => match take_body(bytes, tag, after_tag) {
            Some((action, after_action)) => match take_string(bytes, after_action) {
                Some((consumer_id, next)) => Some(
                    (ActionMessageView { action, consumer_id }, next),
                ),
                None => None,
            },
            None => None,
        },
        None => None,
    }
}

/// Reads the body that follows the tag byte `tag`.
fn read_body(data: &mut Buffer, tag: u8) -> (action: Option<Action>)
    ensures
        final(data).bytes() == old(data).bytes(),
        match take_body(old(data).bytes(), tag, old(data).at()) {
            Some((body, next)) => action is Some && action->0@ == body && final(data).at()
                == next,
            None => action is None,
        },
{
    match tag {
        1 => {
            let name = data.read_string()?;
            let partition: u32 = data.read_u32()?;
            let topic = TopicAddress::new(name, partition);
            let content_length: u32 = data.read_u32()?;
            let content_list = data.read_contents(content_length)?;
            Some(Action::Produce(topic, content_list))
        },
        2 => {
            let name = data.read_string()?;
            let partition: u32 = data.read_u32()?;
            let topic = TopicAddress::new(name, partition);
            let offset = OffsetValue(data.read_u32()?);
            let limit: u32 = data.read_u32()?;
            Some(Action::Consume(topic, offset, limit))
        },
        3 => {
            let topic = data.read_string()?;
            let partition: u32 = data.read_u32()?;
            Some(Action::CreateTopic(topic, partition))
        },
        4 => {
            let size: u32 = data.read_u32()?;
            let broker_list = data.read_strings(size)?;
            Some(Action::InitializeController(broker_list))
        },
        5 => {
            let broker_id: u32 = data.read_u32()?;
            let size: u32 = data.read_u32()?;
            let broker_list = data.read_strings(size)?;
            Some(Action::InitializeBroker(broker_id, broker_list))
        },
        6 => {
            let id: u32 = data.read_u32()?;
            Some(Action::IamAlive(id))
        },
        99 => Some(Action::Quit),
        _ => Some(Action::Invalid),
    }
}

impl ActionMessage {
    /// The request for `action` from the consumer `consumer_id`.
    pub fn new(action: Action, consumer_id: String) -> (message: ActionMessage)
        ensures
            message.action == action,
            message.consumer_id == consumer_id,
    {
        ActionMessage { action, consumer_id }
    }

    /// Reads the request framed at the start of `buffer`, or nothing where its frame
    /// runs past the end of `buffer`.
    pub fn try_parse(buffer: &[u8]) -> (message: Option<ActionMessage>)
        ensures
            match take_request(buffer@) {
                Some((request, _)) => message is Some && message->0@ == request,
                None => message is None,
            },
    {
        let mut data = Buffer::new(buffer);
        let tag: u8 = data.read_u8()?;
        let action = read_body(&mut data, tag)?;
        let consumer_id = data.read_string()?;
        Some(ActionMessage { action, consumer_id })
    }

    /// Reads the request framed at the start of `buffer`, which holds all of it.
    pub fn parse(buffer: &[u8]) -> (message: ActionMessage)
        requires
            take_request(buffer@) is Some,
        ensures
            message@ == take_request(buffer@).unwrap().0,
    {
        match ActionMessage::try_parse(buffer) {
            Some(message) => message,
            None => unreached(),
        }
    }

    /// The frame of this request.
    pub fn as_vec(&self) -> (bytes: Vec<u8>)
        ensures
            bytes@ == request_frame(self@),
    {
        let mut content_vec: Vec<u8> = Vec::new();

        match &self.action {
            Action::Produce(topic, content_list) => {
                content_vec.push(1);
                write_string(&mut content_vec, &topic.name);
                write_u32(&mut content_vec, topic.partition);
                let count: u64 = content_list.len() as u64;
                write_u32(&mut content_vec, (count % 0x1_0000_0000) as u32);
                write_contents(&mut content_vec, content_list);
            },
            Action::Consume(topic, offset, limit) => {
                content_vec.push(2);
                write_string(&mut content_vec, &topic.name);
                write_u32(&mut content_vec, topic.partition);
                write_u32(&mut content_vec, offset.0);
                write_u32(&mut content_vec, *limit);
            },
            Action::CreateTopic(topic, partition) => {
                content_vec.push(3);
                write_string(&mut content_vec, topic);
                write_u32(&mut content_vec, *partition);
            },
            Action::InitializeController(broker_list) => {
                content_vec.push(4);
                let count: u64 = broker_list.len() as u64;
                write_u32(&mut content_vec, (count % 0x1_0000_0000) as u32);
                write_strings(&mut content_vec, broker_list);
            },
            Action::InitializeBroker(broker_id, broker_list) => {
                content_vec.push(5);
                write_u32(&mut content_vec, *broker_id);
                let count: u64 = broker_list.len() as u64;
                write_u32(&mut content_vec, (count % 0x1_0000_0000) as u32);
                write_strings(&mut content_vec, broker_list);
            },
            Action::IamAlive(id) => {
                content_vec.push(6);
                write_u32(&mut content_vec, *id);
            },
            Action::Quit => content_vec.push(99),
            Action::Invalid => content_vec.push(0),
        }

        write_string(&mut content_vec, &self.consumer_id);

        content_vec
    }
}

/// What a broker answers.
#[derive(Debug, PartialEq, Eq)]
pub enum Response {
    /// Nothing more follows. Written with tag 0, read from every tag that stands for
    /// no other response.
    Empty,
    /// The offset of the last record that was stored. Tag 2.
    Offset(OffsetValue),
    /// One record and its offset. Tag 1.
    Content(OffsetValue, Content),
    /// The address of the broker to ask instead. Tag 4.
    AskTheController(String),
    /// Nothing was stored or read: the request named a partition that does not
    /// exist, or it sent no record. Tag 3.
    Error,
}

/// A `Response` over character sequences.
pub enum ResponseView {
    Empty,
    Offset(u32),
    Content(u32, Seq<char>),
    AskTheController(Seq<char>),
    Error,
}

impl View for Response {
    type V = ResponseView;

    open spec fn view(&self) -> ResponseView {
        match *self {
            Response::Empty => ResponseView::Empty,
            Response::Offset(offset) => ResponseView::Offset(offset.0),
            Response::Content(offset, content) => ResponseView::Content(offset.0, content@),
            Response::AskTheController(address) => ResponseView::AskTheController(address@),
            Response::Error => ResponseView::Error,
        }
    }
}

/// One response on the wire.
#[derive(Debug, PartialEq, Eq)]
pub struct ResponseMessage {
    pub response: Response,
}

impl View for ResponseMessage {
    type V = ResponseView;

    open spec fn view(&self) -> ResponseView {
        self.response@
    }
}

/// The responses of `list`, over character sequences.
pub open spec fn responses(list: Seq<ResponseMessage>) -> Seq<ResponseView> {
    list.map_values(|message: ResponseMessage| message@)
}

/// The frame of one response: its tag byte and its body.
pub open spec fn response_frame(response: ResponseView) -> Seq<u8> {
    match response {
        ResponseView::Empty => seq![0u8],
        ResponseView::Content(offset, value) => seq![1u8] + u32_be(offset) + string_frame(value),
        ResponseView::Offset(offset) => seq![2u8] + u32_be(offset),
        ResponseView::Error => seq![3u8],
        ResponseView::AskTheController(address) => seq![4u8] + string_frame(address),
    }
}

/// The frames of `list`, one after the other.
pub open spec fn response_frames(list: Seq<ResponseView>) -> Seq<u8>
    decreases list.len(),
{
    if list.len() == 0 {
        Seq::empty()
    } else {
        response_frame(list[0]) + response_frames(list.drop_first())
    }
}

/// Framing a list with one more response at its end appends that response's frame.
pub proof fn lemma_response_frames_push(list: Seq<ResponseView>, last: ResponseView)
    ensures
        response_frames(list.push(last)) == response_frames(list) + response_frame(last),
    decreases list.len(),
{
    if list.len() == 0 {
        assert(list.push(last).drop_first() =~= Seq::<ResponseView>::empty());
        assert(response_frames(Seq::<ResponseView>::empty()) =~= Seq::<u8>::empty());
    } else {
        lemma_response_frames_push(list.drop_first(), last);
        assert(list.push(last).drop_first() =~= list.drop_first().push(last));
    }
}

/// The response framed at `at` and the position after it, or nothing where it runs
/// past the end of `bytes`. A tag that stands for no response reads as `Empty`.
pub open spec fn take_response(bytes: Seq<u8>, at: int) -> Option<(ResponseView, int)> {
    match take_u8(bytes, at) {
        Some((tag, after_tag)) => {
            if tag == 1 {
                match take_u32(bytes, after_tag) {
                    Some((offset, after_offset)) => match take_string(bytes, after_offset) {
                        Some((value, next)) => Some((ResponseView::Content(offset, value), next)),
                        None => None,
                    },
                    None => None,
                }
            } else if tag == 2 {
                match take_u32(bytes, after_tag) {
                    Some((offset, next)) => Some((ResponseView::Offset(offset), next)),
                    None => None,
                }
            } else if tag == 3 {
                Some((ResponseView::Error, after_tag))
            } else if tag == 4 {
                match take_string(bytes, after_tag) {
                    Some((address, next)) => Some((ResponseView::AskTheController(address), next)),
                    None => None,
                }
            } else {
                Some((ResponseView::Empty, after_tag))
            }
        },
        None => None,
    }
}

/// The responses framed one after the other from `at`: the list ends with the first
/// `Empty`, which it holds, or with the response that ends where `bytes` ends. There
/// is no list where `bytes` holds nothing at `at` or a response runs past its end.
pub open spec fn take_responses(bytes: Seq<u8>, at: int) -> Option<Seq<ResponseView>>
    decreases bytes.len() - at,
{
    match take_response(bytes, at) {
        Some((response, next)) => {
            if response is Empty || next >= bytes.len() {
                Some(seq![response])
            } else {
                match take_responses(bytes, next) {
                    Some(rest) => Some(seq![response] + rest),
                    None => None,
                }
            }
        },
        None => None,
    }
}

/// Reads one response.
fn read_response(data: &mut Buffer) -> (response: Option<Response>)
    ensures
        final(data).bytes() == old(data).bytes(),
        match take_response(old(data).bytes(), old(data).at()) {
            Some((read, next)) => response is Some && response->0@ == read && final(data).at()
                == next,
            None => response is None,
        },
{
    match data.read_u8()? {
        1 => {
            let offset = OffsetValue(data.read_u32()?);
            let content = Content::new(data.read_string()?);
            Some(Response::Content(offset, content))
        },
        2 => {
            let offset = OffsetValue(data.read_u32()?);
            Some(Response::Offset(offset))
        },
        3 => Some(Response::Error),
        4 => {
            let broker = data.read_string()?;
            Some(Response::AskTheController(broker))
        },
        _ => Some(Response::Empty),
    }
}

impl ResponseMessage {
    /// The message that carries `response`.
    pub fn new(response: Response) -> (message: ResponseMessage)
        ensures
            message.response == response,
    {
        ResponseMessage { response }
    }

    /// The message that ends a list of responses.
    pub fn new_empty() -> (message: ResponseMessage)
        ensures
            message@ == ResponseView::Empty,
    {
        ResponseMessage { response: Response::Empty }
    }

    /// Reads the responses framed one after the other from the start of `buffer`, or
    /// nothing where `buffer` is empty or one of them runs past its end.
    pub fn try_parse(buffer: &[u8]) -> (list: Option<Vec<ResponseMessage>>)
        ensures
            match take_responses(buffer@, 0) {
                Some(read) => list is Some && responses(list->0@) == read,
                None => list is None,
            },
    {
        let mut result_list: Vec<ResponseMessage> = Vec::new();
        let mut data = Buffer::new(buffer);
        let mut read_all = false;

        while !read_all
            invariant
                data.bytes() == buffer@,
                !read_all ==> take_responses(buffer@, 0) == (match take_responses(
                    buffer@,
                    data.at(),
                ) {
                    Some(rest) => Some(responses(result_list@) + rest),
                    None => None,
                }),
                read_all ==> take_responses(buffer@, 0) == Some(responses(result_list@)),
            decreases buffer@.len() - data.at() + (if read_all { 0int } else { 1int }),
        {
            let response = read_response(&mut data)?;
            read_all = matches!(response, Response::Empty);
            result_list.push(ResponseMessage { response });
            read_all = read_all || data.finished_read();
        }

        Some(result_list)
    }

    /// Reads the responses framed one after the other from the start of `buffer`,
    /// which holds every one of them whole.
    pub fn parse(buffer: &[u8]) -> (list: Vec<ResponseMessage>)
        requires
            take_responses(buffer@, 0) is Some,
        ensures
            responses(list@) == take_responses(buffer@, 0).unwrap(),
    {
        match ResponseMessage::try_parse(buffer) {
            Some(list) => list,
            None => unreached(),
        }
    }

    /// The frame of this response.
    pub fn as_vec(&self) -> (bytes: Vec<u8>)
        ensures
            bytes@ == response_frame(self@),
    {
        let mut content_vec: Vec<u8> = Vec::new();

        match &self.response {
            Response::Empty => content_vec.push(0),
            Response::Content(offset, content) => {
                content_vec.push(1);
                write_u32(&mut content_vec, offset.0);
                write_string(&mut content_vec, &content.value);
            },
            Response::Offset(offset) => {
                content_vec.push(2);
                write_u32(&mut content_vec, offset.0);
            },
            Response::Error => content_vec.push(3),
            Response::AskTheController(broker_id) => {
                content_vec.push(4);
                write_string(&mut content_vec, broker_id);
            },
        }

        content_vec
    }
}

} // verus!
