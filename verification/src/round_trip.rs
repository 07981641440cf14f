//! Reading gives back what was written: every frame that the codec writes, it reads
//! as the value that was written, whatever follows the frame.

use crate::communication::{
    action_frame, request_frame, response_frame, response_frames, take_body, take_list,
    take_request, take_response, take_responses, take_topic, ActionMessageView, ActionView,
    ResponseView,
};
use crate::types::TopicAddressView;
use crate::wire::{
    len_prefix, string_frame, string_frames, take_string, take_strings, take_u32, take_u8, u32_be,
};
use vstd::prelude::*;
use vstd::utf8::*;

verus! {

/// `frame` stands in `bytes` from position `at`.
pub open spec fn holds(bytes: Seq<u8>, at: int, frame: Seq<u8>) -> bool {
    &&& 0 <= at
    &&& at + frame.len() <= bytes.len()
    &&& bytes.subrange(at, at + frame.len()) == frame
}

/// The UTF-8 encoding of `text` is short enough for a 32-bit length prefix.
pub open spec fn text_fits(text: Seq<char>) -> bool {
    encode_utf8(text).len() <= u32::MAX
}

/// `list` is short enough for a 32-bit count, and so is each of its strings for its
/// length prefix.
pub open spec fn list_fits(list: Seq<Seq<char>>) -> bool {
    &&& list.len() <= u32::MAX
    &&& forall|i: int| 0 <= i < list.len() ==> text_fits(#[trigger] list[i])
}

/// Every string and list of `action` fits its prefix.
pub open spec fn action_fits(action: ActionView) -> bool {
    match action {
        ActionView::Produce(topic, contents) => text_fits(topic.name) && list_fits(contents),
        ActionView::Consume(topic, _, _) => text_fits(topic.name),
        ActionView::CreateTopic(name, _) => text_fits(name),
        ActionView::InitializeController(brokers) => list_fits(brokers),
        ActionView::InitializeBroker(_, brokers) => list_fits(brokers),
        ActionView::IamAlive(_) => true,
        ActionView::Quit => true,
        ActionView::Invalid => true,
    }
}

/// Every string and list of `message` fits its prefix.
pub open spec fn request_fits(message: ActionMessageView) -> bool {
    action_fits(message.action) && text_fits(message.consumer_id)
}

/// The string of `response`, where it has one, fits its length prefix.
pub open spec fn response_fits(response: ResponseView) -> bool {
    match response {
        ResponseView::Content(_, value) => text_fits(value),
        ResponseView::AskTheController(address) => text_fits(address),
        _ => true,
    }
}

/// Where a frame made of two parts stands, the first part stands at the same place
/// and the second right after it.
pub proof fn lemma_holds_split(bytes: Seq<u8>, at: int, first: Seq<u8>, second: Seq<u8>)
    requires
        holds(bytes, at, first + second),
    ensures
        holds(bytes, at, first),
        holds(bytes, at + first.len(), second),
{
    let whole = first + second;
    assert(bytes.subrange(at, at + first.len()) =~= whole.subrange(0, first.len() as int));
    assert(whole.subrange(0, first.len() as int) =~= first);
    assert(bytes.subrange(at + first.len(), at + first.len() + second.len())
        =~= whole.subrange(first.len() as int, whole.len() as int));
    assert(whole.subrange(first.len() as int, whole.len() as int) =~= second);
}

/// The big-endian bytes of a number read back as that number.
pub proof fn lemma_u32_round_trip(bytes: Seq<u8>, at: int, value: u32)
    requires
        holds(bytes, at, u32_be(value)),
    ensures
        take_u32(bytes, at) == Some((value, at + 4)),
{
    let part = bytes.subrange(at, at + 4);
    assert(part == u32_be(value));
}

/// The frame of a string reads back as that string.
pub proof fn lemma_string_round_trip(bytes: Seq<u8>, at: int, text: Seq<char>)
    requires
        text_fits(text),
        holds(bytes, at, string_frame(text)),
    ensures
        take_string(bytes, at) == Some((text, at + string_frame(text).len())),
{
    let encoded = encode_utf8(text);
    let prefix = u32_be(len_prefix(encoded.len()));
    lemma_holds_split(bytes, at, prefix, encoded);
    lemma_u32_round_trip(bytes, at, len_prefix(encoded.len()));
    encode_utf8_valid_utf8(text);
    encode_utf8_decode_utf8(text);
}

/// The frames of a list of strings read back as that list.
pub proof fn lemma_strings_round_trip(bytes: Seq<u8>, at: int, list: Seq<Seq<char>>)
    requires
        list_fits(list),
        holds(bytes, at, string_frames(list)),
    ensures
        take_strings(bytes, at, list.len()) == Some((list, at + string_frames(list).len())),
    decreases list.len(),
{
    if list.len() > 0 {
        let rest = list.drop_first();
        lemma_holds_split(bytes, at, string_frame(list[0]), string_frames(rest));
        lemma_string_round_trip(bytes, at, list[0]);
        assert(list_fits(rest));
        lemma_strings_round_trip(bytes, at + string_frame(list[0]).len(), rest);
    }
}

/// A count and the frames of as many strings read back as the list of those strings.
pub proof fn lemma_list_round_trip(bytes: Seq<u8>, at: int, list: Seq<Seq<char>>)
    requires
        list_fits(list),
        holds(bytes, at, u32_be(len_prefix(list.len())) + string_frames(list)),
    ensures
        take_list(bytes, at) == Some((list, at + 4 + string_frames(list).len())),
{
    let count = u32_be(len_prefix(list.len()));
    lemma_holds_split(bytes, at, count, string_frames(list));
    lemma_u32_round_trip(bytes, at, len_prefix(list.len()));
    lemma_strings_round_trip(bytes, at + 4, list);
}

/// A name and a partition number read back as the topic address that they make.
pub proof fn lemma_topic_round_trip(bytes: Seq<u8>, at: int, topic: TopicAddressView)
    requires
        text_fits(topic.name),
        holds(bytes, at, string_frame(topic.name) + u32_be(topic.partition)),
    ensures
        take_topic(bytes, at) == Some((topic, at + string_frame(topic.name).len() + 4)),
{
    lemma_holds_split(bytes, at, string_frame(topic.name), u32_be(topic.partition));
    lemma_string_round_trip(bytes, at, topic.name);
    lemma_u32_round_trip(bytes, at + string_frame(topic.name).len(), topic.partition);
}

/// The first byte of a frame is its tag, and the rest of the frame stands right
/// after it.
proof fn lemma_tag(bytes: Seq<u8>, at: int, tag: u8, body: Seq<u8>)
    requires
        holds(bytes, at, seq![tag] + body),
    ensures
        take_u8(bytes, at) == Some((tag, at + 1)),
        holds(bytes, at + 1, body),
{
    lemma_holds_split(bytes, at, seq![tag], body);
    assert(bytes[at] == bytes.subrange(at, at + 1)[0]);
}

/// The frame of a `Produce` reads back as it was written.
proof fn lemma_produce_round_trip(bytes: Seq<u8>, topic: TopicAddressView, contents: Seq<Seq<char>>)
    requires
        text_fits(topic.name),
        list_fits(contents),
        holds(bytes, 0, action_frame(ActionView::Produce(topic, contents))),
    ensures
        take_u8(bytes, 0) == Some((1u8, 1int)),
        take_body(bytes, 1, 1) == Some(
            (
                ActionView::Produce(topic, contents),
                action_frame(ActionView::Produce(topic, contents)).len() as int,
            ),
        ),
{
    let address = string_frame(topic.name) + u32_be(topic.partition);
    let list = u32_be(len_prefix(contents.len())) + string_frames(contents);
    assert(action_frame(ActionView::Produce(topic, contents)) =~= seq![1u8] + (address + list));
    lemma_tag(bytes, 0, 1, address + list);
    lemma_holds_split(bytes, 1, address, list);
    lemma_topic_round_trip(bytes, 1, topic);
    lemma_list_round_trip(bytes, 1 + address.len() as int, contents);
}

/// The frame of a `Consume` reads back as it was written.
proof fn lemma_consume_round_trip(bytes: Seq<u8>, topic: TopicAddressView, offset: u32, limit: u32)
    requires
        text_fits(topic.name),
        holds(bytes, 0, action_frame(ActionView::Consume(topic, offset, limit))),
    ensures
        take_u8(bytes, 0) == Some((2u8, 1int)),
        take_body(bytes, 2, 1) == Some(
            (
                ActionView::Consume(topic, offset, limit),
                action_frame(ActionView::Consume(topic, offset, limit)).len() as int,
            ),
        ),
{
    let address = string_frame(topic.name) + u32_be(topic.partition);
    let range = u32_be(offset) + u32_be(limit);
    assert(action_frame(ActionView::Consume(topic, offset, limit)) =~= seq![2u8] + (address
        + range));
    lemma_tag(bytes, 0, 2, address + range);
    lemma_holds_split(bytes, 1, address, range);
    lemma_holds_split(bytes, 1 + address.len() as int, u32_be(offset), u32_be(limit));
    lemma_topic_round_trip(bytes, 1, topic);
    lemma_u32_round_trip(bytes, 1 + address.len() as int, offset);
    lemma_u32_round_trip(bytes, 1 + address.len() as int + 4, limit);
}

/// The frame of a `CreateTopic` reads back as it was written.
proof fn lemma_create_topic_round_trip(bytes: Seq<u8>, name: Seq<char>, partitions: u32)
    requires
        text_fits(name),
        holds(bytes, 0, action_frame(ActionView::CreateTopic(name, partitions))),
    ensures
        take_u8(bytes, 0) == Some((3u8, 1int)),
        take_body(bytes, 3, 1) == Some(
            (
                ActionView::CreateTopic(name, partitions),
                action_frame(ActionView::CreateTopic(name, partitions)).len() as int,
            ),
        ),
{
    let address = string_frame(name) + u32_be(partitions);
    assert(action_frame(ActionView::CreateTopic(name, partitions)) =~= seq![3u8] + address);
    lemma_tag(bytes, 0, 3, address);
    lemma_topic_round_trip(bytes, 1, TopicAddressView { name, partition: partitions });
}

/// The frame of an `InitializeController` reads back as it was written.
proof fn lemma_initialize_controller_round_trip(bytes: Seq<u8>, brokers: Seq<Seq<char>>)
    requires
        list_fits(brokers),
        holds(bytes, 0, action_frame(ActionView::InitializeController(brokers))),
    ensures
        take_u8(bytes, 0) == Some((4u8, 1int)),
        take_body(bytes, 4, 1) == Some(
            (
                ActionView::InitializeController(brokers),
                action_frame(ActionView::InitializeController(brokers)).len() as int,
            ),
        ),
{
    let list = u32_be(len_prefix(brokers.len())) + string_frames(brokers);
    assert(action_frame(ActionView::InitializeController(brokers)) =~= seq![4u8] + list);
    lemma_tag(bytes, 0, 4, list);
    lemma_list_round_trip(bytes, 1, brokers);
}

/// The frame of an `InitializeBroker` reads back as it was written.
proof fn lemma_initialize_broker_round_trip(bytes: Seq<u8>, id: u32, brokers: Seq<Seq<char>>)
    requires
        list_fits(brokers),
        holds(bytes, 0, action_frame(ActionView::InitializeBroker(id, brokers))),
    ensures
        take_u8(bytes, 0) == Some((5u8, 1int)),
        take_body(bytes, 5, 1) == Some(
            (
                ActionView::InitializeBroker(id, brokers),
                action_frame(ActionView::InitializeBroker(id, brokers)).len() as int,
            ),
        ),
{
    let list = u32_be(len_prefix(brokers.len())) + string_frames(brokers);
    assert(action_frame(ActionView::InitializeBroker(id, brokers)) =~= seq![5u8] + (u32_be(id)
        + list));
    lemma_tag(bytes, 0, 5, u32_be(id) + list);
    lemma_holds_split(bytes, 1, u32_be(id), list);
    lemma_u32_round_trip(bytes, 1, id);
    lemma_list_round_trip(bytes, 5, brokers);
}

/// The frame of an `IamAlive` reads back as it was written.
proof fn lemma_i_am_alive_round_trip(bytes: Seq<u8>, id: u32)
    requires
        holds(bytes, 0, action_frame(ActionView::IamAlive(id))),
    ensures
        take_u8(bytes, 0) == Some((6u8, 1int)),
        take_body(bytes, 6, 1) == Some((ActionView::IamAlive(id), 5int)),
        action_frame(ActionView::IamAlive(id)).len() == 5,
{
    lemma_tag(bytes, 0, 6, u32_be(id));
    lemma_u32_round_trip(bytes, 1, id);
}

/// The frame of an action reads back as that action.
pub proof fn lemma_action_round_trip(bytes: Seq<u8>, action: ActionView)
    requires
        action_fits(action),
        holds(bytes, 0, action_frame(action)),
    ensures
        take_u8(bytes, 0) is Some,
        take_body(bytes, take_u8(bytes, 0).unwrap().0, 1) == Some(
            (action, action_frame(action).len() as int),
        ),
{
    match action {
        ActionView::Produce(topic, contents) => {
            lemma_produce_round_trip(bytes, topic, contents);
        },
        ActionView::Consume(topic, offset, limit) => {
            lemma_consume_round_trip(bytes, topic, offset, limit);
        },
        ActionView::CreateTopic(name, partitions) => {
            lemma_create_topic_round_trip(bytes, name, partitions);
        },
        ActionView::InitializeController(brokers) => {
            lemma_initialize_controller_round_trip(bytes, brokers);
        },
        ActionView::InitializeBroker(id, brokers) => {
            lemma_initialize_broker_round_trip(bytes, id, brokers);
        },
        ActionView::IamAlive(id) => {
            lemma_i_am_alive_round_trip(bytes, id);
        },
        ActionView::Quit => {
            assert(bytes[0] == bytes.subrange(0, 1)[0]);
        },
        ActionView::Invalid => {
            assert(bytes[0] == bytes.subrange(0, 1)[0]);
        },
    }
}

/// A buffer that starts with the frame of a request reads as that request, whatever
/// follows the frame.
pub proof fn lemma_request_prefix(bytes: Seq<u8>, message: ActionMessageView)
    requires
        request_fits(message),
        holds(bytes, 0, request_frame(message)),
    ensures
        take_request(bytes) == Some((message, request_frame(message).len() as int)),
{
    lemma_holds_split(bytes, 0, action_frame(message.action), string_frame(message.consumer_id));
    lemma_action_round_trip(bytes, message.action);
    lemma_string_round_trip(
        bytes,
        action_frame(message.action).len() as int,
        message.consumer_id,
    );
}

/// Writing a request and reading what was written gives the request back, for every
/// request whose strings and lists fit their 32-bit prefixes.
pub proof fn lemma_request_round_trip(message: ActionMessageView)
    requires
        request_fits(message),
    ensures
        take_request(request_frame(message)) == Some(
            (message, request_frame(message).len() as int),
        ),
{
    let frame = request_frame(message);
    assert(frame.subrange(0, frame.len() as int) =~= frame);
    lemma_request_prefix(frame, message);
}

/// Every response of `list` fits its length prefix, and none but the last is
/// `Empty`.
pub open spec fn responses_fit(list: Seq<ResponseView>) -> bool {
    &&& forall|i: int| 0 <= i < list.len() ==> response_fits(#[trigger] list[i])
    &&& forall|i: int| 0 <= i < list.len() - 1 ==> !(#[trigger] list[i] is Empty)
}

/// The frame of a response reads back as that response.
pub proof fn lemma_response_round_trip(bytes: Seq<u8>, at: int, response: ResponseView)
    requires
        response_fits(response),
        holds(bytes, at, response_frame(response)),
    ensures
        take_response(bytes, at) == Some((response, at + response_frame(response).len())),
{
    match response {
        ResponseView::Empty => {
            lemma_tag(bytes, at, 0, Seq::empty());
        },
        ResponseView::Content(offset, value) => {
            assert(response_frame(response) =~= seq![1u8] + (u32_be(offset) + string_frame(
                value,
            )));
            lemma_tag(bytes, at, 1, u32_be(offset) + string_frame(value));
            lemma_holds_split(bytes, at + 1, u32_be(offset), string_frame(value));
            lemma_u32_round_trip(bytes, at + 1, offset);
            lemma_string_round_trip(bytes, at + 5, value);
        },
        ResponseView::Offset(offset) => {
            lemma_tag(bytes, at, 2, u32_be(offset));
            lemma_u32_round_trip(bytes, at + 1, offset);
        },
        ResponseView::Error => {
            lemma_tag(bytes, at, 3, Seq::empty());
        },
        ResponseView::AskTheController(address) => {
            lemma_tag(bytes, at, 4, string_frame(address));
            lemma_string_round_trip(bytes, at + 1, address);
        },
    }
}

/// The frames of several responses, standing one after the other from `at`, read
/// back as those responses, where the last of them is `Empty` or ends the buffer.
pub proof fn lemma_responses_at(bytes: Seq<u8>, at: int, list: Seq<ResponseView>)
    requires
        list.len() > 0,
        responses_fit(list),
        holds(bytes, at, response_frames(list)),
        list.last() is Empty || at + response_frames(list).len() == bytes.len(),
    ensures
        take_responses(bytes, at) == Some(list),
    decreases list.len(),
{
    let rest = list.drop_first();
    lemma_holds_split(bytes, at, response_frame(list[0]), response_frames(rest));
    lemma_response_round_trip(bytes, at, list[0]);
    let next = at + response_frame(list[0]).len();
    if list.len() > 1 {
        assert(responses_fit(rest));
        lemma_frames_not_empty(rest);
        lemma_responses_at(bytes, next, rest);
    }
}

/// A list that holds a response has a frame of at least one byte.
proof fn lemma_frames_not_empty(list: Seq<ResponseView>)
    requires
        list.len() > 0,
    ensures
        response_frames(list).len() > 0,
{
}

/// Writing one response and reading what was written gives a list of that response
/// alone.
pub proof fn lemma_response_alone(response: ResponseView)
    requires
        response_fits(response),
    ensures
        take_responses(response_frame(response), 0) == Some(seq![response]),
{
    lemma_responses_round_trip(seq![response]);
    assert(seq![response].drop_first() =~= Seq::<ResponseView>::empty());
    assert(response_frames(Seq::<ResponseView>::empty()) =~= Seq::<u8>::empty());
}

/// Writing several responses one after the other and reading what was written gives
/// the same responses back, in order. An `Empty` may stand at the end of the list
/// only: reading stops at the first one.
pub proof fn lemma_responses_round_trip(list: Seq<ResponseView>)
    requires
        list.len() > 0,
        responses_fit(list),
    ensures
        take_responses(response_frames(list), 0) == Some(list),
{
    let frames = response_frames(list);
    assert(frames.subrange(0, frames.len() as int) =~= frames);
    lemma_responses_at(frames, 0, list);
}

/// A buffer that starts with the frames of several responses and then an `Empty`
/// reads as those responses and the `Empty`, whatever follows it.
pub proof fn lemma_responses_terminated(bytes: Seq<u8>, list: Seq<ResponseView>)
    requires
        responses_fit(list.push(ResponseView::Empty)),
        holds(bytes, 0, response_frames(list.push(ResponseView::Empty))),
    ensures
        take_responses(bytes, 0) == Some(list.push(ResponseView::Empty)),
{
    lemma_responses_at(bytes, 0, list.push(ResponseView::Empty));
}

} // verus!
