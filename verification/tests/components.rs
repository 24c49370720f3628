use dataflowgrid::decoders::{ASCIIDecoder, TextDecoder};
use dataflowgrid::doss_stream::{
    Deserializer, DossLowLevelStream, DossLowLevelStreamEvent, DossStreamError,
};
use dataflowgrid::doss_types::Decimal;
use dataflowgrid::elbow::{elbow_ws_decision, ElbowFrameKind, ElbowWsAction};
use dataflowgrid::reusable::Reusable;
use dataflowgrid::typedstream::{TypedStreamElement, TypedStreamEvent, TypeStream2OrderedMultiDictProcessor};
use std::cell::RefCell;
use std::rc::Rc;

#[test]
fn test_simple_object() {
    let mut processor = TypeStream2OrderedMultiDictProcessor::new();
    processor.process(TypedStreamEvent::INIT).unwrap();
    processor.process(TypedStreamEvent::STARTOBJECT).unwrap();
    processor.process(TypedStreamEvent::STRING("key".to_string())).unwrap();
    processor.process(TypedStreamEvent::STRING("value".to_string())).unwrap();
    processor.process(TypedStreamEvent::ENDOBJECT).unwrap();
    processor.process(TypedStreamEvent::FINISH).unwrap();

    let result = processor.get_result();
    assert!(result.is_some());
}

#[test]
fn test_2_strings() {
    let mut processor = TypeStream2OrderedMultiDictProcessor::new();
    processor.process(TypedStreamEvent::INIT).unwrap();
    processor.process(TypedStreamEvent::STRING("key".to_string())).unwrap();
    processor.process(TypedStreamEvent::STRING("value".to_string())).unwrap();
    processor.process(TypedStreamEvent::FINISH).unwrap();

    assert_eq!(processor.get_result().unwrap(), TypedStreamElement::String("key".to_owned()));
    assert_eq!(processor.get_result().unwrap(), TypedStreamElement::String("value".to_owned()));
    assert!(processor.get_result().is_none());
}

#[test]
fn typedstream_array_nesting() {
    let mut processor = TypeStream2OrderedMultiDictProcessor::new();
    processor.process(TypedStreamEvent::INIT).unwrap();
    processor.process(TypedStreamEvent::STARTARRAY).unwrap();
    processor.process(TypedStreamEvent::TRUE).unwrap();
    processor.process(TypedStreamEvent::NULL).unwrap();
    processor.process(TypedStreamEvent::ENDARRAY).unwrap();
    processor.process(TypedStreamEvent::FINISH).unwrap();

    assert_eq!(
        processor.get_result().unwrap(),
        TypedStreamElement::Array(vec![
            TypedStreamElement::Boolean(true),
            TypedStreamElement::Null
        ])
    );
}

#[test]
fn ascii_hello_world() {
    let decoder = ASCIIDecoder::new();
    let bytes = "Hello, World!".as_bytes();
    let mut chars = ['\0'; 13];
    let result = decoder.decode(bytes, &mut chars);
    assert!(result.is_ok());
    let result = result.unwrap();
    assert_eq!(result.consumed_bytes, 13);
    assert_eq!(result.generated_chars, 13);
    assert_eq!(chars, ['H', 'e', 'l', 'l', 'o', ',', ' ', 'W', 'o', 'r', 'l', 'd', '!']);

    let result = decoder.finish(&mut chars).unwrap();
    assert_eq!(result.consumed_bytes, 0);
    assert_eq!(result.generated_chars, 0);
}

#[test]
fn test_decimal_usize() {
    let v = Decimal::from_usize(1);
    assert_eq!(v.get_usize().unwrap(), 1);
}

#[test]
fn decimal_signs_and_errors() {
    let v = Decimal::from_isize(-5);
    assert_eq!(v.get_isize().unwrap(), -5);
    assert!(v.get_usize().is_err());

    let v = Decimal::from_isize(5);
    assert_eq!(v.get_isize().unwrap(), 5);
    assert_eq!(v.get_usize().unwrap(), 5);

    let wide = Decimal::new(false, false, 0, vec![1, 2]);
    assert!(wide.get_usize().is_err());
    assert!(wide.get_isize().is_err());

    let empty = Decimal::new(false, false, 0, Vec::new());
    assert_eq!(empty.get_usize().unwrap(), 0);
    assert_eq!(empty.get_isize().unwrap(), 0);
}

struct ConsoleStream {}

impl DossLowLevelStream for ConsoleStream {
    fn doss_event(&self, event: &DossLowLevelStreamEvent) {
        println!("Event: {:?}", event);
    }
}

#[test]
fn deserialize_empty() {
    let deserializer = Deserializer::new();
    let serialized = [1_u8, 2, 3, 4];
    let logger = ConsoleStream {};
    let deserialized = deserializer.deserialize(&serialized, &logger);
    deserialized.unwrap()
}

#[test]
fn deserialize_invalid_opcode() {
    let deserializer = Deserializer::new();
    let serialized = [1_u8, 200];
    let logger = ConsoleStream {};
    let r = deserializer.deserialize(&serialized, &logger);
    assert_eq!(r.unwrap_err(), DossStreamError::InvalidData);
}

#[test]
fn test_reusable() {
    let inner = Rc::new(RefCell::new(0));
    let callback = |x: Rc<RefCell<i32>>| {
        *x.borrow_mut() += 1;
    };
    let mut reusable = Reusable::new(inner.clone());
    assert_eq!(*reusable.get().borrow(), 0);
    assert_eq!(Rc::strong_count(&inner), 2);
    reusable.clone_handle();
    assert_eq!(*reusable.get().borrow(), 0);
    assert_eq!(reusable.strong_count(), 2);
    let released = reusable.drop_handle();
    assert!(!released);
    assert_eq!(*reusable.get().borrow(), 0);
    assert_eq!(Rc::strong_count(&inner), 2);
    let released = reusable.drop_handle();
    assert!(released);
    callback(reusable.into_inner());
    // after the last handle left, the release action ran exactly once
    assert_eq!(*inner.borrow(), 1);
    assert_eq!(Rc::strong_count(&inner), 1);
}

#[test]
fn ws_frame_decisions() {
    assert_eq!(elbow_ws_decision(ElbowFrameKind::Close), ElbowWsAction::CloseQuietly);
    assert_eq!(elbow_ws_decision(ElbowFrameKind::Text), ElbowWsAction::WriteIntoBuffer);
    assert_eq!(elbow_ws_decision(ElbowFrameKind::Binary), ElbowWsAction::WriteIntoBuffer);
    assert_eq!(elbow_ws_decision(ElbowFrameKind::Other), ElbowWsAction::CloseWithFrame);
}
