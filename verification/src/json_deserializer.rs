//! A parse-event consumer that folds the JSON-like text into a
//! [`StreamableJSONEntry`] tree, and a convenience entry point that parses
//! a whole string.

use vstd::prelude::*;

verus! {

use crate::json_parser::{
    StreamableJSONReaderCallback, StreamableJSONReaderCallbackReturn, StreamableJSONReaderError,
    StreamableJSONReaderEvent, StreambleJSONReader,
};
use crate::json_serializer::chars_of_str;
use crate::json_entry::StreamableJSONEntry;
use crate::orderedbag::OrderedBag;
use crate::readers::IteratorReadable;

/// `new` is the container `last` with the finished value `e` added: object
/// members are keyed with the placeholder key `"1"`, arrays and typed
/// values append; a non-container is left alone.
pub open spec fn entry_added(
    last: StreamableJSONEntry,
    e: StreamableJSONEntry,
    new: StreamableJSONEntry,
) -> bool {
    match last {
        StreamableJSONEntry::Object(b) => (new matches StreamableJSONEntry::Object(b2) && ({
            &&& b2.keys_seq().len() == b.keys_seq().len() + 1
            &&& b2.keys_seq().take(b.keys_seq().len() as int) == b.keys_seq()
            &&& b2.keys_seq().last() matches StreamableJSONEntry::String(k) && k@ == seq!['1']
            &&& b2.values_seq() == b.values_seq().push(e)
        })),
        StreamableJSONEntry::Array(a) => (new matches StreamableJSONEntry::Array(a2) && a2@ == a@.push(
            e,
        )),
        StreamableJSONEntry::Type(t, a) => (new matches StreamableJSONEntry::Type(t2, a2) && t2 == t
            && a2@ == a@.push(e)),
        _ => new == last,
    }
}

/// The effect of handing a finished value `e` to the deserializer: into the
/// innermost open container, or into the results at top level.
pub open spec fn add_effect(
    pre_stack: Seq<StreamableJSONEntry>,
    pre_results: Seq<StreamableJSONEntry>,
    e: StreamableJSONEntry,
    post_stack: Seq<StreamableJSONEntry>,
    post_results: Seq<StreamableJSONEntry>,
) -> bool {
    if pre_stack.len() == 0 {
        post_results == pre_results.push(e) && post_stack == pre_stack
    } else {
        &&& post_results == pre_results
        &&& post_stack.len() == pre_stack.len()
        &&& post_stack.drop_last() == pre_stack.drop_last()
        &&& entry_added(pre_stack.last(), e, post_stack.last())
    }
}

/// Folds parse events into [`StreamableJSONEntry`] trees.
pub struct OrderedBagDeserializer {
    stack: Vec<StreamableJSONEntry>,
    results: Vec<StreamableJSONEntry>,
}

impl OrderedBagDeserializer {
    /// The open containers, outermost first.
    pub closed spec fn stack_seq(&self) -> Seq<StreamableJSONEntry> {
        self.stack@
    }

    /// The finished top-level values, oldest first.
    pub closed spec fn results_seq(&self) -> Seq<StreamableJSONEntry> {
        self.results@
    }

    pub fn new() -> (r: OrderedBagDeserializer)
        ensures
            r.stack_seq() == Seq::<StreamableJSONEntry>::empty(),
            r.results_seq() == Seq::<StreamableJSONEntry>::empty(),
    {
        let r = OrderedBagDeserializer { stack: Vec::new(), results: Vec::new() };
        proof {
            assert(r.stack_seq() =~= Seq::<StreamableJSONEntry>::empty());
            assert(r.results_seq() =~= Seq::<StreamableJSONEntry>::empty());
        }
        r
    }

    /// Hands out the oldest finished top-level value, if one is ready.
    pub fn result(&mut self) -> (r: Option<StreamableJSONEntry>)
        ensures
            final(self).stack_seq() == old(self).stack_seq(),
            old(self).results_seq().len() == 0 ==> r is None && final(self).results_seq()
                == old(self).results_seq(),
            old(self).results_seq().len() > 0 ==> ({
                &&& r matches Some(v) && v == old(self).results_seq()[0]
                &&& final(self).results_seq() == old(self).results_seq().drop_first()
            }),
    {
        if self.results.len() == 0 {
            None
        } else {
            let v = self.results.remove(0);
            proof {
                assert(final(self).results_seq() =~= old(self).results_seq().drop_first());
            }
            Some(v)
        }
    }

    /// Moves `entry` into the innermost open container, or into the results
    /// at top level; a non-container on top of the stack (which this type
    /// never produces itself) absorbs nothing.
    fn add_to_last_stack_element(&mut self, entry: StreamableJSONEntry)
        ensures
            add_effect(
                old(self).stack_seq(),
                old(self).results_seq(),
                entry,
                final(self).stack_seq(),
                final(self).results_seq(),
            ),
    {
        if self.stack.len() == 0 {
            self.results.push(entry);
        } else {
            let mut last = match self.stack.pop() {
                Some(l) => l,
                None => unreached(),
            };
            match &mut last {
                StreamableJSONEntry::Array(items) => {
                    items.push(entry);
                },
                StreamableJSONEntry::Object(opt) => {
                    let mut key = String::new();
                    crate::json_serializer::push_char(&mut key, '1');
                    opt.push(StreamableJSONEntry::String(key), entry);
                },
                StreamableJSONEntry::Type(_, attr) => {
                    attr.push(entry);
                },
                _ => {},
            }
            self.stack.push(last);
            proof {
                assert(final(self).stack_seq().drop_last() =~= old(self).stack_seq().drop_last());
                let l0 = old(self).stack_seq().last();
                let l1 = final(self).stack_seq().last();
                if l0 is Object {
                    let b = l0->Object_0;
                    let b2 = l1->Object_0;
                    assert(b2.keys_seq().take(b.keys_seq().len() as int) =~= b.keys_seq());
                }
            }
        }
    }

    /// Applies one parse event: containers open on the stack and, when they
    /// close, sink into their parent or the results; strings and constants
    /// sink directly.  Always answers `Continue`.
    pub fn apply_event(&mut self, event: StreamableJSONReaderEvent) -> (r:
        StreamableJSONReaderCallbackReturn)
        ensures
            r is Continue,
            ({
                let s0 = old(self).stack_seq();
                let r0 = old(self).results_seq();
                let s1 = final(self).stack_seq();
                let r1 = final(self).results_seq();
                match event {
                    StreamableJSONReaderEvent::StartObject => {
                        &&& r1 == r0
                        &&& s1.len() == s0.len() + 1 && s1.drop_last() == s0
                        &&& s1.last() matches StreamableJSONEntry::Object(b) && b.keys_seq().len()
                            == 0 && b.values_seq().len() == 0
                    },
                    StreamableJSONReaderEvent::StartArray => {
                        &&& r1 == r0
                        &&& s1.len() == s0.len() + 1 && s1.drop_last() == s0
                        &&& s1.last() matches StreamableJSONEntry::Array(a) && a@.len() == 0
                    },
                    StreamableJSONReaderEvent::StartType(t) => {
                        &&& r1 == r0
                        &&& s1.len() == s0.len() + 1 && s1.drop_last() == s0
                        &&& s1.last() matches StreamableJSONEntry::Type(t2, a) && t2 == t
                            && a@.len() == 0
                    },
                    StreamableJSONReaderEvent::EndObject => (s0.len() > 0 ==> add_effect(
                        s0.drop_last(),
                        r0,
                        s0.last(),
                        s1,
                        r1,
                    )) && (s0.len() == 0 ==> s1 == s0 && r1 == r0),
                    StreamableJSONReaderEvent::EndArray => (s0.len() > 0 ==> add_effect(
                        s0.drop_last(),
                        r0,
                        s0.last(),
                        s1,
                        r1,
                    )) && (s0.len() == 0 ==> s1 == s0 && r1 == r0),
                    StreamableJSONReaderEvent::EndType => (s0.len() > 0 ==> add_effect(
                        s0.drop_last(),
                        r0,
                        s0.last(),
                        s1,
                        r1,
                    )) && (s0.len() == 0 ==> s1 == s0 && r1 == r0),
                    StreamableJSONReaderEvent::String(s) => add_effect(
                        s0,
                        r0,
                        StreamableJSONEntry::String(s),
                        s1,
                        r1,
                    ),
                    StreamableJSONReaderEvent::Constant(s) => add_effect(
                        s0,
                        r0,
                        StreamableJSONEntry::Constant(s),
                        s1,
                        r1,
                    ),
                    _ => s1 == s0 && r1 == r0,
                }
            }),
    {
        match event {
            StreamableJSONReaderEvent::StartObject => {
                self.stack.push(StreamableJSONEntry::Object(OrderedBag::new()));
            },
            StreamableJSONReaderEvent::EndObject | StreamableJSONReaderEvent::EndArray
                | StreamableJSONReaderEvent::EndType => {
                match self.stack.pop() {
                    Some(obj) => {
                        self.add_to_last_stack_element(obj);
                    },
                    None => {},
                }
            },
            StreamableJSONReaderEvent::StartArray => {
                self.stack.push(StreamableJSONEntry::Array(Vec::new()));
            },
            StreamableJSONReaderEvent::String(s) => {
                self.add_to_last_stack_element(StreamableJSONEntry::String(s));
            },
            StreamableJSONReaderEvent::Constant(s) => {
                self.add_to_last_stack_element(StreamableJSONEntry::Constant(s));
            },
            StreamableJSONReaderEvent::StartType(s) => {
                self.stack.push(StreamableJSONEntry::Type(s, Vec::new()));
            },
            _ => {},
        }
        StreamableJSONReaderCallbackReturn::Continue
    }
}

impl StreamableJSONReaderCallback for OrderedBagDeserializer {
    // the full effect of an event is the contract of `apply_event`; parsing
    // is never asked to stop
    fn on_streamablejson_event(&mut self, event: StreamableJSONReaderEvent) -> (r:
        StreamableJSONReaderCallbackReturn)
        ensures
            r is Continue,
            ({
                let s0 = old(self).stack_seq();
                let r0 = old(self).results_seq();
                let s1 = final(self).stack_seq();
                let r1 = final(self).results_seq();
                match event {
                    StreamableJSONReaderEvent::StartObject => {
                        &&& r1 == r0
                        &&& s1.len() == s0.len() + 1 && s1.drop_last() == s0
                        &&& s1.last() matches StreamableJSONEntry::Object(b) && b.keys_seq().len()
                            == 0 && b.values_seq().len() == 0
                    },
                    StreamableJSONReaderEvent::StartArray => {
                        &&& r1 == r0
                        &&& s1.len() == s0.len() + 1 && s1.drop_last() == s0
                        &&& s1.last() matches StreamableJSONEntry::Array(a) && a@.len() == 0
                    },
                    StreamableJSONReaderEvent::StartType(t) => {
                        &&& r1 == r0
                        &&& s1.len() == s0.len() + 1 && s1.drop_last() == s0
                        &&& s1.last() matches StreamableJSONEntry::Type(t2, a) && t2 == t
                            && a@.len() == 0
                    },
                    StreamableJSONReaderEvent::EndObject => (s0.len() > 0 ==> add_effect(
                        s0.drop_last(),
                        r0,
                        s0.last(),
                        s1,
                        r1,
                    )) && (s0.len() == 0 ==> s1 == s0 && r1 == r0),
                    StreamableJSONReaderEvent::EndArray => (s0.len() > 0 ==> add_effect(
                        s0.drop_last(),
                        r0,
                        s0.last(),
                        s1,
                        r1,
                    )) && (s0.len() == 0 ==> s1 == s0 && r1 == r0),
                    StreamableJSONReaderEvent::EndType => (s0.len() > 0 ==> add_effect(
                        s0.drop_last(),
                        r0,
                        s0.last(),
                        s1,
                        r1,
                    )) && (s0.len() == 0 ==> s1 == s0 && r1 == r0),
                    StreamableJSONReaderEvent::String(s) => add_effect(
                        s0,
                        r0,
                        StreamableJSONEntry::String(s),
                        s1,
                        r1,
                    ),
                    StreamableJSONReaderEvent::Constant(s) => add_effect(
                        s0,
                        r0,
                        StreamableJSONEntry::Constant(s),
                        s1,
                        r1,
                    ),
                    _ => s1 == s0 && r1 == r0,
                }
            }),
    {
        self.apply_event(event)
    }
}

/// One-shot convenience: parses `text` completely and hands back the single
/// value it describes, or the first parse error; a text that leaves nothing
/// behind is reported as `InvalidState`.  The deserializer never asks the
/// parser to stop, so a callback error cannot occur.
pub fn deserialize_orderedbag_from_string(text: String) -> (r: Result<
    StreamableJSONEntry,
    StreamableJSONReaderError,
>)
    ensures
        r matches Err(e) ==> !(e is CallbackError),
{
    let mut deserializer = OrderedBagDeserializer::new();
    let mut reader = StreambleJSONReader::new(&mut deserializer);
    let mut it = IteratorReadable::new(chars_of_str(text.as_str()));
    match reader.pushdata(&mut it, &mut deserializer) {
        Ok(u) => (),
        Err(e) => {
            return Err(e);
        },
    }
    match reader.finish(&mut deserializer) {
        Ok(u) => (),
        Err(e) => {
            return Err(e);
        },
    }
    match deserializer.result() {
        Some(v) => Ok(v),
        None => Err(StreamableJSONReaderError::InvalidState),
    }
}

/// Yields the characters of a string, front to back, consuming them.
pub struct StringCharIterator {
    text: Vec<char>,
}

impl StringCharIterator {
    /// The characters not yet handed out.
    pub closed spec fn remaining_chars(&self) -> Seq<char> {
        self.text@
    }

    pub fn new(text: String) -> (r: StringCharIterator)
        ensures
            r.remaining_chars() == text@,
    {
        StringCharIterator { text: chars_of_str(text.as_str()) }
    }

    /// Hands out the next character, consuming it.
    pub fn next(&mut self) -> (r: Option<char>)
        ensures
            old(self).remaining_chars().len() == 0 ==> r is None && final(self).remaining_chars()
                == old(self).remaining_chars(),
            old(self).remaining_chars().len() > 0 ==> ({
                &&& r == Some(old(self).remaining_chars()[0])
                &&& final(self).remaining_chars() == old(self).remaining_chars().drop_first()
            }),
    {
        if self.text.len() == 0 {
            None
        } else {
            let c = self.text.remove(0);
            proof {
                assert(final(self).remaining_chars() =~= old(self).remaining_chars().drop_first());
            }
            Some(c)
        }
    }

    /// The characters still to come, as a vector.
    pub fn chars(&self) -> (r: Vec<char>)
        ensures
            r@ == self.remaining_chars(),
    {
        let mut r: Vec<char> = Vec::new();
        let mut i: usize = 0;
        while i < self.text.len()
            invariant
                i <= self.text@.len(),
                r@ == self.text@.take(i as int),
            decreases self.text@.len() - i,
        {
            r.push(self.text[i]);
            proof {
                assert(r@ =~= self.text@.take(i as int + 1));
            }
            i = i + 1;
        }
        proof {
            assert(r@ =~= self.text@);
        }
        r
    }
}

} // verus!
