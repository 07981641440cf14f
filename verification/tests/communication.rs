use logstreamer::{
    Action, ActionMessage, Content, OffsetValue, Response, ResponseMessage, TopicAddress,
};

#[test]
fn should_convert_invalid_action() {
    let consumer_id = String::from("consumer_id");
    let message = ActionMessage::new(Action::Invalid, consumer_id.clone());

    let message_as_vec = message.as_vec();
    let message = ActionMessage::parse(&message_as_vec[..]);

    assert!(matches!(message.action, Action::Invalid));
    assert_eq!(message.consumer_id, consumer_id);
}

#[test]
fn should_convert_quit_action() {
    let consumer_id = String::from("consumer_id");
    let message = ActionMessage::new(Action::Quit, consumer_id.clone());

    let message_as_vec = message.as_vec();
    let message = ActionMessage::parse(&message_as_vec[..]);

    assert!(matches!(message.action, Action::Quit));
    assert_eq!(message.consumer_id, consumer_id);
}

#[test]
fn should_convert_consume_action() {
    let topic = TopicAddress::new(String::from("topic"), 1);
    let consumer_id = String::from("consumer_id");
    let message = ActionMessage::new(
        Action::Consume(topic, OffsetValue(3), 10),
        consumer_id.clone(),
    );

    let parsed_message = message.as_vec();
    let message = ActionMessage::parse(&parsed_message[..]);

    if let Action::Consume(parsed_topic, offset, limit) = message.action {
        assert_eq!(parsed_topic.name, "topic");
        assert_eq!(parsed_topic.partition, 1);
        assert_eq!(offset.0, 3);
        assert_eq!(limit, 10);
    } else {
        assert!(false);
    }

    assert_eq!(message.consumer_id, consumer_id);
}

#[test]
fn should_convert_produce_action() {
    let consumer_id = String::from("consumer_id");
    let topic = TopicAddress::new(String::from("topic"), 1);
    let content = vec![Content::new(String::from("Message Content"))];

    let message = ActionMessage::new(Action::Produce(topic, content), consumer_id.clone());

    let parsed_message = message.as_vec();
    let message = ActionMessage::parse(&parsed_message[..]);

    if let Action::Produce(parsed_topic, content) = message.action {
        assert_eq!(parsed_topic.name, "topic");
        assert_eq!(parsed_topic.partition, 1);
        assert_eq!(content.len(), 1);
        assert_eq!(content.first().unwrap().value, "Message Content");
    } else {
        assert!(false);
    }

    assert_eq!(message.consumer_id, consumer_id);
}

#[test]
fn should_convert_produce_multiple_content_action() {
    let consumer_id = String::from("consumer_id");
    let topic = TopicAddress::new(String::from("topic"), 1);
    let content = vec![
        Content::new(String::from("Message Content")),
        Content::new(String::from("Message other")),
        Content::new(String::from("Message final")),
    ];

    let message = ActionMessage::new(Action::Produce(topic, content), consumer_id.clone());

    let parsed_message = message.as_vec();
    let message = ActionMessage::parse(&parsed_message[..]);

    if let Action::Produce(parsed_topic, content) = message.action {
        assert_eq!(parsed_topic.name, "topic");
        assert_eq!(parsed_topic.partition, 1);
        assert_eq!(content.len(), 3);
        assert_eq!(content.get(0).unwrap().value, "Message Content");
        assert_eq!(content.get(1).unwrap().value, "Message other");
        assert_eq!(content.get(2).unwrap().value, "Message final");
    } else {
        assert!(false);
    }

    assert_eq!(message.consumer_id, consumer_id);
}

#[test]
fn should_convert_create_topic_action() {
    let consumer_id = String::from("consumer_id");
    let topic = String::from("topic");

    let message =
        ActionMessage::new(Action::CreateTopic(topic.clone(), 1), consumer_id.clone());

    let parsed_message = message.as_vec();
    let message = ActionMessage::parse(&parsed_message[..]);

    if let Action::CreateTopic(parsed_topic, partition) = message.action {
        assert_eq!(parsed_topic, topic);
        assert_eq!(partition, 1);
    } else {
        assert!(false);
    }

    assert_eq!(message.consumer_id, consumer_id);
}

#[test]
fn shoyd_convert_initialize_controller_action() {
    let broker_list = vec![String::from("broker1"), String::from("broker2")];

    let message = ActionMessage::new(
        Action::InitializeController(broker_list),
        String::from("consumer_id"),
    );

    let parsed_message = message.as_vec();
    let message = ActionMessage::parse(&parsed_message[..]);

    if let Action::InitializeController(list) = message.action {
        assert_eq!(2, list.len());
        assert_eq!(list.get(0).unwrap(), "broker1");
        assert_eq!(list.get(1).unwrap(), "broker2");
    } else {
        assert!(false);
    }
}

#[test]
fn shoyd_convert_iamalive_action() {
    let message = ActionMessage::new(Action::IamAlive(10), String::from("consumer_id"));

    let parsed_message = message.as_vec();
    let message = ActionMessage::parse(&parsed_message[..]);

    if let Action::IamAlive(id) = message.action {
        assert_eq!(id, 10);
    } else {
        assert!(false);
    }
}

#[test]
fn shoyd_convert_initialize_broker_action() {
    let broker_list = vec![String::from("broker1"), String::from("broker2")];

    let message = ActionMessage::new(
        Action::InitializeBroker(5, broker_list),
        String::from("consumer_id"),
    );

    let parsed_message = message.as_vec();
    let message = ActionMessage::parse(&parsed_message[..]);

    if let Action::InitializeBroker(id, list) = message.action {
        assert_eq!(5, id);
        assert_eq!(2, list.len());
        assert_eq!(list.get(0).unwrap(), "broker1");
        assert_eq!(list.get(1).unwrap(), "broker2");
    } else {
        assert!(false);
    }
}

#[test]
fn should_convert_empty_response() {
    let message = ResponseMessage::new(Response::Empty);

    let parsed_message = message.as_vec();
    let message = ResponseMessage::parse(&parsed_message[..]);
    let message = message.first().unwrap();

    assert!(matches!(message.response, Response::Empty));
}

#[test]
fn should_convert_error_response() {
    let message = ResponseMessage::new(Response::Error);

    let parsed_message = message.as_vec();
    let message = ResponseMessage::parse(&parsed_message[..]);
    let message = message.first().unwrap();

    assert!(matches!(message.response, Response::Error));
}

#[test]
fn should_convert_content_response() {
    let content = Content::new(String::from("nice content"));
    let message = ResponseMessage::new(Response::Content(OffsetValue(100), content));

    let parsed_message = message.as_vec();
    let message = ResponseMessage::parse(&parsed_message[..]);
    let message = message.first().unwrap();

    if let Response::Content(offset, content) = &message.response {
        assert_eq!(offset.0, 100);
        assert_eq!(content.value, "nice content");
    } else {
        assert!(false);
    }
}

#[test]
fn should_convert_offset_response() {
    let message = ResponseMessage::new(Response::Offset(OffsetValue(100)));

    let parsed_message = message.as_vec();
    let message = ResponseMessage::parse(&parsed_message[..]);
    let message = message.first().unwrap();

    if let Response::Offset(value) = &message.response {
        assert_eq!(value.0, 100);
    } else {
        assert!(false);
    }
}

#[test]
fn should_convert_askthecontrolller_response() {
    let message =
        ResponseMessage::new(Response::AskTheController(String::from("localhost:8080")));

    let parsed_message = message.as_vec();
    let message = ResponseMessage::parse(&parsed_message[..]);
    let message = message.first().unwrap();

    if let Response::AskTheController(value) = &message.response {
        assert_eq!(value, "localhost:8080");
    } else {
        assert!(false);
    }
}

#[test]
fn should_parse_mixed_response() {
    let mut bytes = Vec::new();

    bytes.extend_from_slice(
        &ResponseMessage::new(Response::Content(
            OffsetValue(100),
            Content::new(String::from("nice content")),
        ))
        .as_vec(),
    );

    bytes.extend_from_slice(&ResponseMessage::new(Response::Offset(OffsetValue(101))).as_vec());

    bytes.extend_from_slice(
        &ResponseMessage::new(Response::Content(
            OffsetValue(102),
            Content::new(String::from("last content")),
        ))
        .as_vec(),
    );

    let message_list = ResponseMessage::parse(&bytes[..]);

    assert_eq!(message_list.len(), 3);

    let message = message_list.get(0).unwrap();
    if let Response::Content(offset, content) = &message.response {
        assert_eq!(offset.0, 100);
        assert_eq!(content.value, "nice content");
    } else {
        assert!(false);
    }

    let message = message_list.get(1).unwrap();
    if let Response::Offset(offset) = &message.response {
        assert_eq!(offset.0, 101);
    } else {
        assert!(false);
    }

    let message = message_list.get(2).unwrap();
    if let Response::Content(offset, content) = &message.response {
        assert_eq!(offset.0, 102);
        assert_eq!(content.value, "last content");
    } else {
        assert!(false);
    }
}

#[test]
fn should_parse_multiple_content_responses() {
    let mut bytes = Vec::new();

    bytes.extend_from_slice(
        &ResponseMessage::new(Response::Content(
            OffsetValue(100),
            Content::new(String::from("nice content")),
        ))
        .as_vec(),
    );

    bytes.extend_from_slice(
        &ResponseMessage::new(Response::Content(
            OffsetValue(101),
            Content::new(String::from("other content")),
        ))
        .as_vec(),
    );

    bytes.extend_from_slice(&ResponseMessage::new(Response::Error).as_vec());

    bytes.extend_from_slice(
        &ResponseMessage::new(Response::Content(
            OffsetValue(102),
            Content::new(String::from("last content")),
        ))
        .as_vec(),
    );

    let message_list = ResponseMessage::parse(&bytes[..]);

    assert_eq!(message_list.len(), 4);

    let message = message_list.first().unwrap();
    if let Response::Content(offset, content) = &message.response {
        assert_eq!(offset.0, 100);
        assert_eq!(content.value, "nice content");
    } else {
        assert!(false);
    }

    let message = message_list.get(1).unwrap();
    if let Response::Content(offset, content) = &message.response {
        assert_eq!(offset.0, 101);
        assert_eq!(content.value, "other content");
    } else {
        assert!(false);
    }

    let message = message_list.get(2).unwrap();
    assert!(matches!(message.response, Response::Error));

    let message = message_list.get(3).unwrap();
    if let Response::Content(offset, content) = &message.response {
        assert_eq!(offset.0, 102);
        assert_eq!(content.value, "last content");
    } else {
        assert!(false);
    }
}
