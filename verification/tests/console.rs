use logstreamer::console::{command, consume, to_clean_string};
use logstreamer::{Action, ActionMessage, Content, OffsetValue, TopicAddress};

fn request(action: Action, consumer_id: &str) -> ActionMessage {
    ActionMessage::new(action, String::from(consumer_id))
}

fn topic() -> TopicAddress {
    TopicAddress::new(String::from("topic"), 0)
}

#[test]
fn clean_string_drops_line_ends() {
    assert_eq!(to_clean_string(b"hello\r\n"), "hello");
    assert_eq!(to_clean_string(b"a\rb\nc\r\n\r\nd"), "abcd");
    assert_eq!(to_clean_string(b"\n\n"), "");
    assert_eq!(to_clean_string(b""), "");
    assert_eq!(to_clean_string("h\u{e9}\n".as_bytes()), "h\u{e9}");
    assert_eq!(to_clean_string(&[b'a', 0xff, b'\n']), "a\u{fffd}");
}

#[test]
fn initialize_command_lists_the_default_brokers() {
    let brokers = vec![
        String::from("127.0.0.1:8080"),
        String::from("127.0.0.1:8081"),
        String::from("127.0.0.1:8082"),
    ];
    assert_eq!(command(b"i\n"), Some(request(Action::InitializeController(brokers), "")));
}

#[test]
fn new_topic_command_creates_the_default_topic() {
    assert_eq!(command(b"n\n"), Some(request(Action::CreateTopic(String::from("topic"), 1), "")));
}

#[test]
fn produce_command_sends_the_rest_of_the_line() {
    let expected = request(
        Action::Produce(topic(), vec![Content::new(String::from("hello world"))]),
        "",
    );
    assert_eq!(command(b"phello world\r\n"), Some(expected));
    let nothing = request(Action::Produce(topic(), vec![Content::new(String::new())]), "");
    assert_eq!(command(b"p"), Some(nothing));
}

#[test]
fn consume_command_reads_two_numbers_of_four_characters() {
    let expected = request(Action::Consume(topic(), OffsetValue(12), 30), "me");
    assert_eq!(command(b"c00120030me\n"), Some(expected));
    let expected = request(Action::Consume(topic(), OffsetValue(9999), 0), "");
    assert_eq!(command(b"c99990000"), Some(expected));
    let expected = request(Action::Consume(topic(), OffsetValue(7), 8), "");
    assert_eq!(command(b"c+007+008\n"), Some(expected));
    // a line end inside a number is left out before the number is read
    let expected = request(Action::Consume(topic(), OffsetValue(124), 10), "x");
    assert_eq!(command(b"c12\n40010x"), Some(expected));
}

#[test]
fn consume_command_without_its_numbers_is_no_request() {
    assert_eq!(command(b"c"), None);
    assert_eq!(command(b"c0012003"), None);
    assert_eq!(command(b"c 0012 0030"), None);
    assert_eq!(command(b"cabcd0030"), None);
    assert_eq!(command(b"c0012-030"), None);
    assert_eq!(command(b"c\n\n\n\n0030"), None);
}

#[test]
fn quit_command_quits() {
    assert_eq!(command(b"q\n"), Some(request(Action::Quit, "")));
}

#[test]
fn other_lines_are_invalid_requests() {
    assert_eq!(command(b"x\n"), Some(request(Action::Invalid, "")));
    assert_eq!(command(b"\n"), Some(request(Action::Invalid, "")));
    assert_eq!(command(b"Produce"), Some(request(Action::Invalid, "")));
}

#[test]
fn line_without_a_byte_is_no_request() {
    assert_eq!(command(b""), None);
}

#[test]
fn consume_request_needs_both_numbers() {
    let expected = request(Action::Consume(topic(), OffsetValue(1), 2), "id");
    assert_eq!(consume(Some(1), Some(2), String::from("id")), Some(expected));
    assert_eq!(consume(None, Some(2), String::new()), None);
    assert_eq!(consume(Some(1), None, String::new()), None);
    assert_eq!(consume(None, None, String::new()), None);
}
