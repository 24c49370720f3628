//! The low-level binary stream format: one opcode byte per event.
//!
//! [`Deserializer::deserialize`] walks a byte slice, turns each byte into
//! its [`DossLowLevelStreamEvent`] and hands it to the processor; an
//! unassigned opcode stops the walk with an error.  Reading the bytes from
//! a file or socket is the surrounding application's business.

use vstd::prelude::*;

verus! {

/// One event of the low-level stream.
#[derive(Debug, Clone, Copy)]
pub enum DossLowLevelStreamEvent {
    NoOp,
    True,
    False,
    Varint,
    Decimal,
    Float,
    DateTime,
    String,
    Binary,
    Reference,
    BlockStart,
    BlockEnd,
    ArrayStart,
    ArrayEnd,
    NULL,
    UnsignedVarint,
    TypeStart,
    TypeEnd,
    SetConfig,
    StoreInDict,
    StoreButDontUse,
    SetDictPointer,
    ClearDictEntries,
    StackStart,
    StackEnd,
    SetHint,
    SkipBytes16le,
    SkipBytes32le,
    ImportDict,
    FileStart,
}

/// Error of the low-level stream walk.
#[derive(Debug, PartialEq, Eq, Structural, Clone, Copy)]
pub enum DossStreamError {
    InvalidData,
}

/// Consumer of the low-level events.
pub trait DossLowLevelStream {
    /// Called once for each decoded event, in stream order.
    fn doss_event(&self, event: &DossLowLevelStreamEvent);
}

/// The event assigned to opcode `op`, if any.  Every opcode the event enum
/// assigns is accepted, the typed-value pair (`TypeStart`/`TypeEnd`)
/// included.
pub open spec fn event_of_opcode(op: u8) -> Option<DossLowLevelStreamEvent> {
    if op == 0 {
        Some(DossLowLevelStreamEvent::NoOp)
    } else if op == 1 {
        Some(DossLowLevelStreamEvent::True)
    } else if op == 2 {
        Some(DossLowLevelStreamEvent::False)
    } else if op == 3 {
        Some(DossLowLevelStreamEvent::Varint)
    } else if op == 4 {
        Some(DossLowLevelStreamEvent::Decimal)
    } else if op == 5 {
        Some(DossLowLevelStreamEvent::Float)
    } else if op == 6 {
        Some(DossLowLevelStreamEvent::DateTime)
    } else if op == 7 {
        Some(DossLowLevelStreamEvent::String)
    } else if op == 8 {
        Some(DossLowLevelStreamEvent::Binary)
    } else if op == 9 {
        Some(DossLowLevelStreamEvent::Reference)
    } else if op == 10 {
        Some(DossLowLevelStreamEvent::BlockStart)
    } else if op == 11 {
        Some(DossLowLevelStreamEvent::BlockEnd)
    } else if op == 12 {
        Some(DossLowLevelStreamEvent::ArrayStart)
    } else if op == 13 {
        Some(DossLowLevelStreamEvent::ArrayEnd)
    } else if op == 14 {
        Some(DossLowLevelStreamEvent::NULL)
    } else if op == 15 {
        Some(DossLowLevelStreamEvent::UnsignedVarint)
    } else if op == 16 {
        Some(DossLowLevelStreamEvent::TypeStart)
    } else if op == 17 {
        Some(DossLowLevelStreamEvent::TypeEnd)
    } else if op == 20 {
        Some(DossLowLevelStreamEvent::SetConfig)
    } else if op == 21 {
        Some(DossLowLevelStreamEvent::StoreInDict)
    } else if op == 22 {
        Some(DossLowLevelStreamEvent::StoreButDontUse)
    } else if op == 23 {
        Some(DossLowLevelStreamEvent::SetDictPointer)
    } else if op == 24 {
        Some(DossLowLevelStreamEvent::ClearDictEntries)
    } else if op == 25 {
        Some(DossLowLevelStreamEvent::StackStart)
    } else if op == 26 {
        Some(DossLowLevelStreamEvent::StackEnd)
    } else if op == 27 {
        Some(DossLowLevelStreamEvent::SetHint)
    } else if op == 30 {
        Some(DossLowLevelStreamEvent::SkipBytes16le)
    } else if op == 31 {
        Some(DossLowLevelStreamEvent::SkipBytes32le)
    } else if op == 40 {
        Some(DossLowLevelStreamEvent::ImportDict)
    } else if op == 50 {
        Some(DossLowLevelStreamEvent::FileStart)
    } else {
        None
    }
}

/// The event assigned to opcode `op`, or `None` for an unassigned opcode.
pub fn opcode_event(op: u8) -> (r: Option<DossLowLevelStreamEvent>)
    ensures
        r == event_of_opcode(op),
{
    match op {
        0 => Some(DossLowLevelStreamEvent::NoOp),
        1 => Some(DossLowLevelStreamEvent::True),
        2 => Some(DossLowLevelStreamEvent::False),
        3 => Some(DossLowLevelStreamEvent::Varint),
        4 => Some(DossLowLevelStreamEvent::Decimal),
        5 => Some(DossLowLevelStreamEvent::Float),
        6 => Some(DossLowLevelStreamEvent::DateTime),
        7 => Some(DossLowLevelStreamEvent::String),
        8 => Some(DossLowLevelStreamEvent::Binary),
        9 => Some(DossLowLevelStreamEvent::Reference),
        10 => Some(DossLowLevelStreamEvent::BlockStart),
        11 => Some(DossLowLevelStreamEvent::BlockEnd),
        12 => Some(DossLowLevelStreamEvent::ArrayStart),
        13 => Some(DossLowLevelStreamEvent::ArrayEnd),
        14 => Some(DossLowLevelStreamEvent::NULL),
        15 => Some(DossLowLevelStreamEvent::UnsignedVarint),
        16 => Some(DossLowLevelStreamEvent::TypeStart),
        17 => Some(DossLowLevelStreamEvent::TypeEnd),
        20 => Some(DossLowLevelStreamEvent::SetConfig),
        21 => Some(DossLowLevelStreamEvent::StoreInDict),
        22 => Some(DossLowLevelStreamEvent::StoreButDontUse),
        23 => Some(DossLowLevelStreamEvent::SetDictPointer),
        24 => Some(DossLowLevelStreamEvent::ClearDictEntries),
        25 => Some(DossLowLevelStreamEvent::StackStart),
        26 => Some(DossLowLevelStreamEvent::StackEnd),
        27 => Some(DossLowLevelStreamEvent::SetHint),
        30 => Some(DossLowLevelStreamEvent::SkipBytes16le),
        31 => Some(DossLowLevelStreamEvent::SkipBytes32le),
        40 => Some(DossLowLevelStreamEvent::ImportDict),
        50 => Some(DossLowLevelStreamEvent::FileStart),
        _ => None,
    }
}

/// Walks byte streams of the low-level format.
pub struct Deserializer {}

impl Deserializer {
    pub fn new() -> (r: Deserializer) {
        Deserializer {  }
    }

    /// Decodes every byte of `bytes` and hands the events to `processor`,
    /// in order; succeeds exactly when every byte is an assigned opcode.
    pub fn deserialize<P: DossLowLevelStream>(&self, bytes: &[u8], processor: &P) -> (r: Result<
        (),
        DossStreamError,
    >)
        ensures
            r is Ok <==> (forall|i: int|
                0 <= i < bytes@.len() ==> event_of_opcode(#[trigger] bytes@[i]) is Some),
            r is Err ==> r == Err::<(), DossStreamError>(DossStreamError::InvalidData),
    {
        let mut i: usize = 0;
        while i < bytes.len()
            invariant
                i <= bytes@.len(),
                forall|j: int| 0 <= j < i ==> event_of_opcode(#[trigger] bytes@[j]) is Some,
            decreases bytes@.len() - i,
        {
            match opcode_event(bytes[i]) {
                Some(event) => {
                    processor.doss_event(&event);
                },
                None => {
                    return Err(DossStreamError::InvalidData);
                },
            }
            i = i + 1;
        }
        Ok(())
    }
}

} // verus!
