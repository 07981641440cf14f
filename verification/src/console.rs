//! Lines of console input as requests, for a client that a person types into.
//!
//! The first byte of a line is the command. `i` makes the broker at the default
//! address the controller of the three default brokers; `n` creates the default topic
//! with one partition; `p`, followed by text, sends the text as one record; `c`,
//! followed by two numbers of four characters each and a consumer id, reads from the
//! offset that the first number gives as many records as the second one gives; `q`
//! quits. Any other line is an invalid request. Line ends are left out of every text.

use crate::communication::{Action, ActionMessage, ActionMessageView, ActionView};
use crate::types::{records, Content, OffsetValue, TopicAddress, TopicAddressView};
use crate::wire::{decode_lossy, text_of, texts};
use vstd::prelude::*;

verus! {

/// `text` with `with` in the place of every `pattern`.
pub open spec fn replaced(text: Seq<char>, pattern: char, with: Seq<char>) -> Seq<char>
    decreases text.len(),
{
    if text.len() == 0 {
        Seq::empty()
    } else if text[0] == pattern {
        with + replaced(text.drop_first(), pattern, with)
    } else {
        seq![text[0]] + replaced(text.drop_first(), pattern, with)
    }
}

/// The number that the decimal digits `digits` write.
pub open spec fn digits_value(digits: Seq<char>) -> nat
    decreases digits.len(),
{
    if digits.len() == 0 {
        0
    } else {
        (digits_value(digits.drop_last()) * 10 + (digits.last() as u32 - '0' as u32)) as nat
    }
}

/// `text` without the `+` that it may begin with.
pub open spec fn unsigned(text: Seq<char>) -> Seq<char> {
    if text.len() > 0 && text[0] == '+' {
        text.drop_first()
    } else {
        text
    }
}

/// Every character of `digits` is a decimal digit.
pub open spec fn all_digits(digits: Seq<char>) -> bool {
    forall|i: int| 0 <= i < digits.len() ==> '0' <= #[trigger] digits[i] <= '9'
}

/// The number that `text` writes in decimal digits, with or without a `+` before
/// them, where it fits in 32 bits. There is none for any other text.
pub open spec fn decimal(text: Seq<char>) -> Option<u32> {
    let digits = unsigned(text);
    if digits.len() > 0 && all_digits(digits) && digits_value(digits) <= u32::MAX {
        Some(digits_value(digits) as u32)
    } else {
        None
    }
}

/// Calls `str::replace` with a character for a pattern: every occurrence of the
/// character gives way to `with`, and the other characters stay, in order.
#[verifier::external_body]
fn replace(text: &str, pattern: char, with: &str) -> (out: String)
    ensures
        out@ == replaced(text@, pattern, with@),
{
    text.replace(pattern, with)
}

/// Calls `str::parse::<u32>`, which reads decimal digits with or without a `+`
/// before them, and hands back its number, or nothing for its error: an empty
/// text, a character that is no digit, or a number that does not fit.
#[verifier::external_body]
fn parse_u32(text: &str) -> (number: Option<u32>)
    ensures
        number == decimal(text@),
{
    text.parse::<u32>().ok()
}

/// The text that `bytes` stand for, without carriage returns and line feeds.
pub open spec fn clean_text(bytes: Seq<u8>) -> Seq<char> {
    replaced(replaced(text_of(bytes), '\r', Seq::empty()), '\n', Seq::empty())
}

/// The name of the topic that console commands work on.
pub open spec fn default_topic() -> TopicAddressView {
    TopicAddressView { name: "topic"@, partition: 0 }
}

/// The brokers that the command `i` lists.
pub open spec fn default_brokers() -> Seq<Seq<char>> {
    seq!["127.0.0.1:8080"@, "127.0.0.1:8081"@, "127.0.0.1:8082"@]
}

/// The request for the command `c`, given what its two numbers read as.
pub open spec fn consume_command(
    offset: Option<u32>,
    limit: Option<u32>,
    consumer_id: Seq<char>,
) -> Option<ActionMessageView> {
    match (offset, limit) {
        (Some(offset), Some(limit)) => Some(
            ActionMessageView {
                action: ActionView::Consume(default_topic(), offset, limit),
                consumer_id,
            },
        ),
        _ => None,
    }
}

/// The request that the line `input` stands for. There is none for a line without
/// a byte, nor for a `c` that is too short for its two numbers or whose numbers do
/// not read as numbers.
pub open spec fn command_of(input: Seq<u8>) -> Option<ActionMessageView> {
    if input.len() == 0 {
        None
    } else if input[0] == 105 {
        Some(
            ActionMessageView {
                action: ActionView::InitializeController(default_brokers()),
                consumer_id: Seq::empty(),
            },
        )
    } else if input[0] == 99 {
        if input.len() < 9 {
            None
        } else {
            consume_command(
                decimal(clean_text(input.subrange(1, 5))),
                decimal(clean_text(input.subrange(5, 9))),
                clean_text(input.subrange(9, input.len() as int)),
            )
        }
    } else if input[0] == 112 {
        Some(
            ActionMessageView {
                action: ActionView::Produce(
                    default_topic(),
                    seq![clean_text(input.subrange(1, input.len() as int))],
                ),
                consumer_id: Seq::empty(),
            },
        )
    } else if input[0] == 110 {
        Some(
            ActionMessageView {
                action: ActionView::CreateTopic(default_topic().name, 1),
                consumer_id: Seq::empty(),
            },
        )
    } else if input[0] == 113 {
        Some(ActionMessageView { action: ActionView::Quit, consumer_id: Seq::empty() })
    } else {
        Some(ActionMessageView { action: ActionView::Invalid, consumer_id: Seq::empty() })
    }
}

/// The text of `input` without its line ends. Bytes that are no UTF-8 read as they
/// do on the wire.
pub fn to_clean_string(input: &[u8]) -> (text: String)
    ensures
        text@ == clean_text(input@),
{
    proof {
        reveal_strlit("");
    }
    assert(""@ =~= Seq::<char>::empty());
    let decoded = decode_lossy(input);
    let without_returns = replace(decoded.as_str(), '\r', "");
    replace(without_returns.as_str(), '\n', "")
}

fn topic() -> (address: TopicAddress)
    ensures
        address@ == default_topic(),
{
    TopicAddress::new("topic".to_owned(), 0)
}

/// The request for the command `c` with the numbers `offset` and `limit`, where both
/// are numbers.
pub fn consume(offset: Option<u32>, limit: Option<u32>, consumer_id: String) -> (message: Option<
    ActionMessage,
>)
    ensures
        match consume_command(offset, limit, consumer_id@) {
            Some(request) => message is Some && message->0@ == request,
            None => message is None,
        },
{
    match (offset, limit) {
        (Some(offset), Some(limit)) => Some(
            ActionMessage::new(Action::Consume(topic(), OffsetValue(offset), limit), consumer_id),
        ),
        _ => None,
    }
}

/// The request that the line `input` stands for, where it stands for one.
pub fn command(input: &[u8]) -> (message: Option<ActionMessage>)
    ensures
        match command_of(input@) {
            Some(request) => message is Some && message->0@ == request,
            None => message is None,
        },
{
    if input.len() == 0 {
        return None;
    }
    let action: u8 = input[0];
    match action {
        // i
        105 => {
            let mut brokers: Vec<String> = Vec::new();
            brokers.push("127.0.0.1:8080".to_owned());
            brokers.push("127.0.0.1:8081".to_owned());
            brokers.push("127.0.0.1:8082".to_owned());
            assert(texts(brokers@) =~= default_brokers());
            Some(ActionMessage::new(Action::InitializeController(brokers), String::new()))
        },
        // c - consume
        99 => {
            if input.len() < 9 {
                return None;
            }
            let offset = parse_u32(to_clean_string(&input[1..5]).as_str());
            let limit = parse_u32(to_clean_string(&input[5..9]).as_str());
            consume(offset, limit, to_clean_string(&input[9..input.len()]))
        },
        // p - produce
        112 => {
            let mut content: Vec<Content> = Vec::new();
            content.push(Content::new(to_clean_string(&input[1..input.len()])));
            assert(records(content@) =~= seq![clean_text(input@.subrange(1, input@.len() as int))]);
            Some(ActionMessage::new(Action::Produce(topic(), content), String::new()))
        },
        // n - new topic
        110 => Some(ActionMessage::new(Action::CreateTopic("topic".to_owned(), 1), String::new())),
        // q - quit
        113 => Some(ActionMessage::new(Action::Quit, String::new())),
        _ => Some(ActionMessage::new(Action::Invalid, String::new())),
    }
}

} // verus!
