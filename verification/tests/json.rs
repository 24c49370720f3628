use dataflowgrid::json_deserializer::{deserialize_orderedbag_from_string, OrderedBagDeserializer, StringCharIterator};
use dataflowgrid::json_entry::StreamableJSONEntry;
use dataflowgrid::json_parser::{
    StreamableJSONReaderCallback, StreamableJSONReaderCallbackReturn, StreamableJSONReaderError,
    StreamableJSONReaderEvent, StreambleJSONReader,
};
use dataflowgrid::cursedbuffer::CursedBuffer;
use dataflowgrid::json_serializer::{SerializerError, StreamableJSONSerializer};
use dataflowgrid::orderedbag::OrderedBag;
use dataflowgrid::readers::IteratorReadable;

struct TestCallback {
    events: Vec<StreamableJSONReaderEvent>,
}

impl StreamableJSONReaderCallback for TestCallback {
    fn on_streamablejson_event(
        &mut self,
        event: StreamableJSONReaderEvent,
    ) -> StreamableJSONReaderCallbackReturn {
        println!("{:?}", event);
        self.events.push(event);
        StreamableJSONReaderCallbackReturn::Continue
    }
}

struct ScriptedCallback {
    result: Vec<StreamableJSONReaderCallbackReturn>,
    events: Vec<StreamableJSONReaderEvent>,
}

impl StreamableJSONReaderCallback for ScriptedCallback {
    fn on_streamablejson_event(
        &mut self,
        event: StreamableJSONReaderEvent,
    ) -> StreamableJSONReaderCallbackReturn {
        println!("{:?}", event);
        self.events.push(event);
        self.result.pop().unwrap()
    }
}

fn readable_of(text: &str) -> IteratorReadable<char> {
    IteratorReadable::new(text.chars().collect())
}

#[test]
fn test_continue() {
    let b = "{}";
    let mut c = ScriptedCallback {
        result: vec![
            StreamableJSONReaderCallbackReturn::Continue,
            StreamableJSONReaderCallbackReturn::Continue,
            StreamableJSONReaderCallbackReturn::Continue,
            StreamableJSONReaderCallbackReturn::Continue,
        ],
        events: Vec::new(),
    };

    let mut reader = StreambleJSONReader::new(&mut c);

    reader.pushdata(&mut readable_of(b), &mut c).unwrap();
    reader.finish(&mut c).unwrap();
    let mut events = c.events;

    assert_eq!(events.pop().unwrap(), StreamableJSONReaderEvent::Finished);
    assert_eq!(events.pop().unwrap(), StreamableJSONReaderEvent::EndObject);
    assert_eq!(events.pop().unwrap(), StreamableJSONReaderEvent::StartObject);
    assert_eq!(events.pop().unwrap(), StreamableJSONReaderEvent::Initialized);
    assert!(events.pop().is_none());
}

#[test]
fn test_stopok() {
    let b = "{}";
    let mut c = ScriptedCallback {
        result: vec![
            StreamableJSONReaderCallbackReturn::Continue,
            StreamableJSONReaderCallbackReturn::StopOk,
        ],
        events: Vec::new(),
    };

    let mut reader = StreambleJSONReader::new(&mut c);

    reader.pushdata(&mut readable_of(b), &mut c).unwrap();
    reader.finish(&mut c).unwrap();
    let mut events = c.events;

    assert_eq!(events.pop().unwrap(), StreamableJSONReaderEvent::Finished);
    assert_eq!(events.pop().unwrap(), StreamableJSONReaderEvent::Initialized);
    assert!(events.pop().is_none());
}

#[test]
fn test_stopok2() {
    let b = "{}";
    let mut c = ScriptedCallback {
        result: vec![
            StreamableJSONReaderCallbackReturn::Continue,
            StreamableJSONReaderCallbackReturn::StopOk,
            StreamableJSONReaderCallbackReturn::Continue,
        ],
        events: Vec::new(),
    };

    let mut reader = StreambleJSONReader::new(&mut c);

    reader.pushdata(&mut readable_of(b), &mut c).unwrap();
    reader.finish(&mut c).expect_err("we were in the middle of an object");
    let mut events = c.events;

    assert_eq!(events.pop().unwrap(), StreamableJSONReaderEvent::StartObject);
    assert_eq!(events.pop().unwrap(), StreamableJSONReaderEvent::Initialized);
    assert!(events.pop().is_none());
}

#[test]
fn test_stoperr() {
    let b = "{}";
    let mut c = ScriptedCallback {
        result: vec![
            StreamableJSONReaderCallbackReturn::Continue,
            StreamableJSONReaderCallbackReturn::StopErr("test".to_string()),
            StreamableJSONReaderCallbackReturn::Continue,
        ],
        events: Vec::new(),
    };

    let mut reader = StreambleJSONReader::new(&mut c);

    let err = reader.pushdata(&mut readable_of(b), &mut c).expect_err("we generated this error");
    if let StreamableJSONReaderError::CallbackError(err) = err {
        assert_eq!(err, "test");
    } else {
        panic!("wrong error type");
    }
    reader.finish(&mut c).expect_err("we were in the middle of an object");
    let mut events = c.events;

    assert_eq!(events.pop().unwrap(), StreamableJSONReaderEvent::StartObject);
    assert_eq!(events.pop().unwrap(), StreamableJSONReaderEvent::Initialized);
    assert!(events.pop().is_none());
}

#[test]
fn test_entities() {
    let b = "true ";
    let mut c = TestCallback { events: Vec::new() };

    let mut reader = StreambleJSONReader::new(&mut c);

    reader.pushdata(&mut readable_of(b), &mut c).unwrap();
    let mut events = c.events;

    assert_eq!(events.pop().unwrap(), StreamableJSONReaderEvent::Constant(String::from("true")));
    assert_eq!(events.pop().unwrap(), StreamableJSONReaderEvent::Initialized);
    assert!(events.pop().is_none());
}

#[test]
fn test_string1() {
    let b = " \"test\" ";
    let mut c = TestCallback { events: Vec::new() };

    let mut reader = StreambleJSONReader::new(&mut c);

    reader.pushdata(&mut readable_of(b), &mut c).unwrap();
    reader.finish(&mut c).unwrap();

    let mut events = c.events;

    assert_eq!(events.pop().unwrap(), StreamableJSONReaderEvent::Finished);
    assert_eq!(events.pop().unwrap(), StreamableJSONReaderEvent::String(String::from("test")));
    assert_eq!(events.pop().unwrap(), StreamableJSONReaderEvent::Initialized);
    assert!(events.pop().is_none());
}

#[test]
fn test_unicodeescape() {
    let b = " \"test\\\"\\u0008\\u000c\\n\\r\\t\\\\\"";
    let mut c = TestCallback { events: Vec::new() };

    let mut reader = StreambleJSONReader::new(&mut c);

    reader.pushdata(&mut readable_of(b), &mut c).unwrap();
    reader.finish(&mut c).unwrap();

    let mut events = c.events;

    assert_eq!(events.pop().unwrap(), StreamableJSONReaderEvent::Finished);
    assert_eq!(
        events.pop().unwrap(),
        StreamableJSONReaderEvent::String(String::from("test\"\u{0008}\u{000c}\n\r\t\\"))
    );
    assert_eq!(events.pop().unwrap(), StreamableJSONReaderEvent::Initialized);
    assert!(events.pop().is_none());
}

#[test]
fn test_constant() {
    let b = " test";
    let mut c = TestCallback { events: Vec::new() };

    let mut reader = StreambleJSONReader::new(&mut c);

    reader.pushdata(&mut readable_of(b), &mut c).unwrap();
    reader.finish(&mut c).unwrap();

    let mut events = c.events;

    assert_eq!(events.pop().unwrap(), StreamableJSONReaderEvent::Finished);
    assert_eq!(events.pop().unwrap(), StreamableJSONReaderEvent::Constant(String::from("test")));
    assert_eq!(events.pop().unwrap(), StreamableJSONReaderEvent::Initialized);
    assert!(events.pop().is_none());
}

#[test]
fn test_invalid_constant() {
    let b = " test";
    let mut c = TestCallback { events: Vec::new() };

    let mut reader = StreambleJSONReader::new(&mut c);

    reader.pushdata(&mut readable_of(b), &mut c).unwrap();
    reader
        .pushdata(&mut readable_of(":2"), &mut c)
        .expect_err("this should fail because not inside of object");

    let mut events = c.events;

    assert_eq!(events.pop().unwrap(), StreamableJSONReaderEvent::Constant(String::from("test")));
    assert_eq!(events.pop().unwrap(), StreamableJSONReaderEvent::Initialized);
    assert!(events.pop().is_none());
}

#[test]
fn tests_test_type() {
    let mut c = TestCallback { events: Vec::new() };
    let mut reader = StreambleJSONReader::new(&mut c);
    let b = "test()";
    reader.pushdata(&mut readable_of(b), &mut c).unwrap();
    reader.finish(&mut c).unwrap();

    let mut events = c.events;

    assert_eq!(events.pop().unwrap(), StreamableJSONReaderEvent::Finished);
    assert_eq!(events.pop().unwrap(), StreamableJSONReaderEvent::EndType);
    assert_eq!(events.pop().unwrap(), StreamableJSONReaderEvent::StartType(String::from("test")));
    assert_eq!(events.pop().unwrap(), StreamableJSONReaderEvent::Initialized);
    assert!(events.pop().is_none());
}

#[test]
fn test_type_with_string() {
    let mut c = TestCallback { events: Vec::new() };
    let mut reader = StreambleJSONReader::new(&mut c);
    let b = "test(\"string\")";
    reader.pushdata(&mut readable_of(b), &mut c).unwrap();
    reader.finish(&mut c).unwrap();

    let mut events = c.events;

    assert_eq!(events.pop().unwrap(), StreamableJSONReaderEvent::Finished);
    assert_eq!(events.pop().unwrap(), StreamableJSONReaderEvent::EndType);
    assert_eq!(events.pop().unwrap(), StreamableJSONReaderEvent::String(String::from("string")));
    assert_eq!(events.pop().unwrap(), StreamableJSONReaderEvent::StartType(String::from("test")));
    assert_eq!(events.pop().unwrap(), StreamableJSONReaderEvent::Initialized);
    assert!(events.pop().is_none());
}

#[test]
fn test_empty_array() {
    let mut c = TestCallback { events: Vec::new() };
    let mut reader = StreambleJSONReader::new(&mut c);
    let b = "[]";
    reader.pushdata(&mut readable_of(b), &mut c).unwrap();
    reader.finish(&mut c).unwrap();

    let mut events = c.events;

    assert_eq!(events.pop().unwrap(), StreamableJSONReaderEvent::Finished);
    assert_eq!(events.pop().unwrap(), StreamableJSONReaderEvent::EndArray);
    assert_eq!(events.pop().unwrap(), StreamableJSONReaderEvent::StartArray);
    assert_eq!(events.pop().unwrap(), StreamableJSONReaderEvent::Initialized);
    assert!(events.pop().is_none());
}

#[test]
fn test_array_with_numbers() {
    let mut c = TestCallback { events: Vec::new() };
    let mut reader = StreambleJSONReader::new(&mut c);
    let b = "[1,2]";
    reader.pushdata(&mut readable_of(b), &mut c).unwrap();
    reader.finish(&mut c).unwrap();

    let mut events = c.events;
    assert_eq!(events.pop().unwrap(), StreamableJSONReaderEvent::Finished);
    assert_eq!(events.pop().unwrap(), StreamableJSONReaderEvent::EndArray);
    assert_eq!(events.pop().unwrap(), StreamableJSONReaderEvent::Constant(String::from("2")));
    assert_eq!(events.pop().unwrap(), StreamableJSONReaderEvent::Constant(String::from("1")));
    assert_eq!(events.pop().unwrap(), StreamableJSONReaderEvent::StartArray);
    assert_eq!(events.pop().unwrap(), StreamableJSONReaderEvent::Initialized);
    assert!(events.pop().is_none());
}

#[test]
fn test_array_with_strings() {
    let mut c = TestCallback { events: Vec::new() };
    let mut reader = StreambleJSONReader::new(&mut c);
    let b = "[\"abc\",\"def\"]";
    reader.pushdata(&mut readable_of(b), &mut c).unwrap();
    reader.finish(&mut c).unwrap();

    let mut events = c.events;
    assert_eq!(events.pop().unwrap(), StreamableJSONReaderEvent::Finished);
    assert_eq!(events.pop().unwrap(), StreamableJSONReaderEvent::EndArray);
    assert_eq!(events.pop().unwrap(), StreamableJSONReaderEvent::String(String::from("def")));
    assert_eq!(events.pop().unwrap(), StreamableJSONReaderEvent::String(String::from("abc")));
    assert_eq!(events.pop().unwrap(), StreamableJSONReaderEvent::StartArray);
    assert_eq!(events.pop().unwrap(), StreamableJSONReaderEvent::Initialized);
    assert!(events.pop().is_none());
}

#[test]
fn test_array_with_numbers_and_strings() {
    let mut c = TestCallback { events: Vec::new() };
    let mut reader = StreambleJSONReader::new(&mut c);
    let b = "[\"abc\", 1,\"def\" ,2]";
    reader.pushdata(&mut readable_of(b), &mut c).unwrap();
    reader.finish(&mut c).unwrap();

    let mut events = c.events;
    assert_eq!(events.pop().unwrap(), StreamableJSONReaderEvent::Finished);
    assert_eq!(events.pop().unwrap(), StreamableJSONReaderEvent::EndArray);
    assert_eq!(events.pop().unwrap(), StreamableJSONReaderEvent::Constant(String::from("2")));
    assert_eq!(events.pop().unwrap(), StreamableJSONReaderEvent::String(String::from("def")));
    assert_eq!(events.pop().unwrap(), StreamableJSONReaderEvent::Constant(String::from("1")));
    assert_eq!(events.pop().unwrap(), StreamableJSONReaderEvent::String(String::from("abc")));
    assert_eq!(events.pop().unwrap(), StreamableJSONReaderEvent::StartArray);
    assert_eq!(events.pop().unwrap(), StreamableJSONReaderEvent::Initialized);
    assert!(events.pop().is_none());
}

#[test]
fn test_empty_object() {
    let mut c = TestCallback { events: Vec::new() };
    let mut reader = StreambleJSONReader::new(&mut c);
    let b = "{}";
    reader.pushdata(&mut readable_of(b), &mut c).unwrap();
    reader.finish(&mut c).unwrap();

    let mut events = c.events;
    assert_eq!(events.pop().unwrap(), StreamableJSONReaderEvent::Finished);
    assert_eq!(events.pop().unwrap(), StreamableJSONReaderEvent::EndObject);
    assert_eq!(events.pop().unwrap(), StreamableJSONReaderEvent::StartObject);
    assert_eq!(events.pop().unwrap(), StreamableJSONReaderEvent::Initialized);
    assert!(events.pop().is_none());
}

#[test]
fn tests_test_object() {
    let mut c = TestCallback { events: Vec::new() };
    let mut reader = StreambleJSONReader::new(&mut c);
    let b = "{\"abc\":\"def\"}";
    reader.pushdata(&mut readable_of(b), &mut c).unwrap();
    reader.finish(&mut c).unwrap();

    let mut events = c.events;
    assert_eq!(events.pop().unwrap(), StreamableJSONReaderEvent::Finished);
    assert_eq!(events.pop().unwrap(), StreamableJSONReaderEvent::EndObject);
    assert_eq!(events.pop().unwrap(), StreamableJSONReaderEvent::String(String::from("def")));
    assert_eq!(events.pop().unwrap(), StreamableJSONReaderEvent::String(String::from("abc")));
    assert_eq!(events.pop().unwrap(), StreamableJSONReaderEvent::StartObject);
    assert_eq!(events.pop().unwrap(), StreamableJSONReaderEvent::Initialized);
    assert!(events.pop().is_none());
}

#[test]
fn test_object2() {
    let mut c = TestCallback { events: Vec::new() };
    let mut reader = StreambleJSONReader::new(&mut c);
    let b = "{\"abc\":\"def\", 1: 2}";
    reader.pushdata(&mut readable_of(b), &mut c).unwrap();
    reader.finish(&mut c).unwrap();

    let mut events = c.events;
    assert_eq!(events.pop().unwrap(), StreamableJSONReaderEvent::Finished);
    assert_eq!(events.pop().unwrap(), StreamableJSONReaderEvent::EndObject);
    assert_eq!(events.pop().unwrap(), StreamableJSONReaderEvent::Constant(String::from("2")));
    assert_eq!(events.pop().unwrap(), StreamableJSONReaderEvent::Constant(String::from("1")));
    assert_eq!(events.pop().unwrap(), StreamableJSONReaderEvent::String(String::from("def")));
    assert_eq!(events.pop().unwrap(), StreamableJSONReaderEvent::String(String::from("abc")));
    assert_eq!(events.pop().unwrap(), StreamableJSONReaderEvent::StartObject);
    assert_eq!(events.pop().unwrap(), StreamableJSONReaderEvent::Initialized);
    assert!(events.pop().is_none());
}

#[test]
fn test_nestedobject1() {
    let mut c = TestCallback { events: Vec::new() };
    let mut reader = StreambleJSONReader::new(&mut c);
    let b = "{1 : { 2:3}}";
    reader.pushdata(&mut readable_of(b), &mut c).unwrap();
    reader.finish(&mut c).unwrap();

    let mut events = c.events;
    assert_eq!(events.pop().unwrap(), StreamableJSONReaderEvent::Finished);
    assert_eq!(events.pop().unwrap(), StreamableJSONReaderEvent::EndObject);
    assert_eq!(events.pop().unwrap(), StreamableJSONReaderEvent::EndObject);
    assert_eq!(events.pop().unwrap(), StreamableJSONReaderEvent::Constant(String::from("3")));
    assert_eq!(events.pop().unwrap(), StreamableJSONReaderEvent::Constant(String::from("2")));
    assert_eq!(events.pop().unwrap(), StreamableJSONReaderEvent::StartObject);
    assert_eq!(events.pop().unwrap(), StreamableJSONReaderEvent::Constant(String::from("1")));
    assert_eq!(events.pop().unwrap(), StreamableJSONReaderEvent::StartObject);
    assert_eq!(events.pop().unwrap(), StreamableJSONReaderEvent::Initialized);
    assert!(events.pop().is_none());
}

#[test]
fn test_nestedobject1_with_array() {
    let mut c = TestCallback { events: Vec::new() };
    let mut reader = StreambleJSONReader::new(&mut c);
    let b = "{1 : [{ 2:3},{4:5}]}";
    reader.pushdata(&mut readable_of(b), &mut c).unwrap();
    reader.finish(&mut c).unwrap();

    let mut events = c.events;
    assert_eq!(events.pop().unwrap(), StreamableJSONReaderEvent::Finished);
    assert_eq!(events.pop().unwrap(), StreamableJSONReaderEvent::EndObject);
    assert_eq!(events.pop().unwrap(), StreamableJSONReaderEvent::EndArray);
    assert_eq!(events.pop().unwrap(), StreamableJSONReaderEvent::EndObject);
    assert_eq!(events.pop().unwrap(), StreamableJSONReaderEvent::Constant(String::from("5")));
    assert_eq!(events.pop().unwrap(), StreamableJSONReaderEvent::Constant(String::from("4")));
    assert_eq!(events.pop().unwrap(), StreamableJSONReaderEvent::StartObject);
    assert_eq!(events.pop().unwrap(), StreamableJSONReaderEvent::EndObject);
    assert_eq!(events.pop().unwrap(), StreamableJSONReaderEvent::Constant(String::from("3")));
    assert_eq!(events.pop().unwrap(), StreamableJSONReaderEvent::Constant(String::from("2")));
    assert_eq!(events.pop().unwrap(), StreamableJSONReaderEvent::StartObject);
    assert_eq!(events.pop().unwrap(), StreamableJSONReaderEvent::StartArray);
    assert_eq!(events.pop().unwrap(), StreamableJSONReaderEvent::Constant(String::from("1")));
    assert_eq!(events.pop().unwrap(), StreamableJSONReaderEvent::StartObject);
    assert_eq!(events.pop().unwrap(), StreamableJSONReaderEvent::Initialized);
    assert!(events.pop().is_none());
}

#[test]
fn test_type_mapping() {
    let mut c = TestCallback { events: Vec::new() };
    let mut reader = StreambleJSONReader::new(&mut c);
    let b = "{a(b):c(d)}";
    reader.pushdata(&mut readable_of(b), &mut c).unwrap();
    reader.finish(&mut c).unwrap();

    let mut events = c.events;
    assert_eq!(events.pop().unwrap(), StreamableJSONReaderEvent::Finished);
    assert_eq!(events.pop().unwrap(), StreamableJSONReaderEvent::EndObject);
    assert_eq!(events.pop().unwrap(), StreamableJSONReaderEvent::EndType);
    assert_eq!(events.pop().unwrap(), StreamableJSONReaderEvent::Constant(String::from("d")));
    assert_eq!(events.pop().unwrap(), StreamableJSONReaderEvent::StartType(String::from("c")));
    assert_eq!(events.pop().unwrap(), StreamableJSONReaderEvent::EndType);
    assert_eq!(events.pop().unwrap(), StreamableJSONReaderEvent::Constant(String::from("b")));
    assert_eq!(events.pop().unwrap(), StreamableJSONReaderEvent::StartType(String::from("a")));
    assert_eq!(events.pop().unwrap(), StreamableJSONReaderEvent::StartObject);
    assert_eq!(events.pop().unwrap(), StreamableJSONReaderEvent::Initialized);
    assert!(events.pop().is_none());
}

#[test]
fn test_nested_type() {
    let mut c = TestCallback { events: Vec::new() };
    let mut reader = StreambleJSONReader::new(&mut c);
    let b = "{a(b(c)):d(e)}";
    reader.pushdata(&mut readable_of(b), &mut c).unwrap();
    reader.finish(&mut c).unwrap();

    let mut events = c.events;
    assert_eq!(events.pop().unwrap(), StreamableJSONReaderEvent::Finished);
    assert_eq!(events.pop().unwrap(), StreamableJSONReaderEvent::EndObject);
    assert_eq!(events.pop().unwrap(), StreamableJSONReaderEvent::EndType);
    assert_eq!(events.pop().unwrap(), StreamableJSONReaderEvent::Constant(String::from("e")));
    assert_eq!(events.pop().unwrap(), StreamableJSONReaderEvent::StartType(String::from("d")));
    assert_eq!(events.pop().unwrap(), StreamableJSONReaderEvent::EndType);
    assert_eq!(events.pop().unwrap(), StreamableJSONReaderEvent::EndType);
    assert_eq!(events.pop().unwrap(), StreamableJSONReaderEvent::Constant(String::from("c")));
    assert_eq!(events.pop().unwrap(), StreamableJSONReaderEvent::StartType(String::from("b")));
    assert_eq!(events.pop().unwrap(), StreamableJSONReaderEvent::StartType(String::from("a")));
    assert_eq!(events.pop().unwrap(), StreamableJSONReaderEvent::StartObject);
    assert_eq!(events.pop().unwrap(), StreamableJSONReaderEvent::Initialized);
    assert!(events.pop().is_none());
}

#[test]
fn push_after_finish_is_invalid_state() {
    let mut c = TestCallback { events: Vec::new() };
    let mut reader = StreambleJSONReader::new(&mut c);
    reader.pushdata(&mut readable_of("{}"), &mut c).unwrap();
    reader.finish(&mut c).unwrap();
    let err = reader.pushdata(&mut readable_of("x"), &mut c).unwrap_err();
    assert!(matches!(err, StreamableJSONReaderError::InvalidState));
}

#[test]
fn surrogate_escape_is_rejected() {
    let mut c = TestCallback { events: Vec::new() };
    let mut reader = StreambleJSONReader::new(&mut c);
    // a lone surrogate is not a scalar value: five more characters after
    // the four digits force the escape to be resolved
    let err = reader.pushdata(&mut readable_of("\"\\ud800xxxxx\""), &mut c).unwrap_err();
    assert!(matches!(err, StreamableJSONReaderError::InvalidJSON));
}

#[test]
fn invalid_character_is_rejected() {
    let mut c = TestCallback { events: Vec::new() };
    let mut reader = StreambleJSONReader::new(&mut c);
    let err = reader.pushdata(&mut readable_of("!"), &mut c).unwrap_err();
    assert!(matches!(err, StreamableJSONReaderError::InvalidJSON));
}

#[test]
fn test_orderedbag_deserializer() {
    let mut deserializer = OrderedBagDeserializer::new();
    let mut reader = StreambleJSONReader::new(&mut deserializer);
    reader.pushdata(&mut readable_of("{}"), &mut deserializer).unwrap();
    reader.finish(&mut deserializer).unwrap();
    assert_eq!(deserializer.result().unwrap(), StreamableJSONEntry::Object(OrderedBag::new()));
}

#[test]
fn deserializer_test_string() {
    let mut deserializer = OrderedBagDeserializer::new();
    let mut reader = StreambleJSONReader::new(&mut deserializer);
    reader.pushdata(&mut readable_of("\"abc\""), &mut deserializer).unwrap();
    reader.finish(&mut deserializer).unwrap();
    assert_eq!(deserializer.result().unwrap(), StreamableJSONEntry::String(String::from("abc")));
}

#[test]
fn deserializer_test_array() {
    let mut deserializer = OrderedBagDeserializer::new();
    let mut reader = StreambleJSONReader::new(&mut deserializer);
    reader.pushdata(&mut readable_of("[1,2]"), &mut deserializer).unwrap();
    reader.finish(&mut deserializer).unwrap();
    assert_eq!(
        deserializer.result().unwrap(),
        StreamableJSONEntry::Array(vec![
            StreamableJSONEntry::Constant("1".into()),
            StreamableJSONEntry::Constant("2".into())
        ])
    );
}

#[test]
fn test_nestedarray() {
    let mut deserializer = OrderedBagDeserializer::new();
    let mut reader = StreambleJSONReader::new(&mut deserializer);
    reader.pushdata(&mut readable_of("[1,[2,[\"3\"]]]"), &mut deserializer).unwrap();
    reader.finish(&mut deserializer).unwrap();
    assert_eq!(
        deserializer.result().unwrap(),
        StreamableJSONEntry::Array(vec![
            StreamableJSONEntry::Constant("1".into()),
            StreamableJSONEntry::Array(vec![
                StreamableJSONEntry::Constant("2".into()),
                StreamableJSONEntry::Array(vec![StreamableJSONEntry::String("3".into())])
            ])
        ])
    );
}

#[test]
fn deserializer_test_type() {
    let mut deserializer = OrderedBagDeserializer::new();
    let mut reader = StreambleJSONReader::new(&mut deserializer);
    reader.pushdata(&mut readable_of("1(2)"), &mut deserializer).unwrap();
    reader.finish(&mut deserializer).unwrap();
    assert_eq!(
        deserializer.result().unwrap(),
        StreamableJSONEntry::Type("1".into(), vec![StreamableJSONEntry::Constant("2".into())])
    );
}

#[test]
fn serializer_test_array() {
    let r = StreamableJSONSerializer::serialize_to_string(&StreamableJSONEntry::Array(vec![
        StreamableJSONEntry::String("value1".to_string()),
        StreamableJSONEntry::String("value2".to_string()),
    ]));
    assert_eq!(r.unwrap(), "[\"value1\",\"value2\"]");
}

#[test]
fn serializer_test_type() {
    let r = StreamableJSONSerializer::serialize_to_string(&StreamableJSONEntry::Type(
        "type".to_string(),
        vec![
            StreamableJSONEntry::Constant("value1".to_string()),
            StreamableJSONEntry::String("value2".to_string()),
        ],
    ));
    assert_eq!(r.unwrap(), "type(value1,\"value2\")");
}

#[test]
fn serializer_test_string() {
    let r = StreamableJSONSerializer::serialize_to_string(&StreamableJSONEntry::String(
        "value1".to_string(),
    ));
    assert_eq!(r.unwrap(), "\"value1\"");
}

#[test]
fn serializer_test_object() {
    let mut k = OrderedBag::new();
    k.push(
        StreamableJSONEntry::String("value2".to_string()),
        StreamableJSONEntry::Constant("value1".to_string()),
    );
    k.push(
        StreamableJSONEntry::String("value2".to_string()),
        StreamableJSONEntry::Constant("value3".to_string()),
    );
    let r = StreamableJSONSerializer::serialize_to_string(&StreamableJSONEntry::Object(k));
    assert_eq!(r.unwrap(), "{\"value2\":value1,\"value2\":value3}");
}

#[test]
fn serializer_on_closed_buffer_fails() {
    let ser = StreamableJSONSerializer::new();
    let mut out: CursedBuffer<char> = CursedBuffer::new();
    out.close();
    let r = ser.serialize(&StreamableJSONEntry::Constant("x".to_string()), &mut out);
    assert!(matches!(r, Err(SerializerError::OutputError(_))));
}

#[test]
fn macrotest_test_object() {
    let _json = deserialize_orderedbag_from_string(
        "{ \"name\" : \"John Doe\", \"age\" : 30, \"city\" : \"New York\" }".to_string(),
    )
    .unwrap();
}

#[test]
fn macrotest_test_array() {
    let _json = deserialize_orderedbag_from_string("[abc, def]".to_string()).unwrap();
}

#[test]
fn string_char_iterator_walks() {
    let mut it = StringCharIterator::new("ab".to_string());
    assert_eq!(it.chars(), vec!['a', 'b']);
    assert_eq!(it.next(), Some('a'));
    assert_eq!(it.chars(), vec!['b']);
    assert_eq!(it.next(), Some('b'));
    assert_eq!(it.next(), None);
}

#[test]
fn round_trip_through_buffer() {
    let text = deserialize_orderedbag_from_string("[\"a\",b(1),{}]".to_string()).unwrap();
    let rendered = StreamableJSONSerializer::serialize_to_string(&text).unwrap();
    assert_eq!(rendered, "[\"a\",b(1),{}]");
}
