//! An incremental, push-based parser for the JSON-like text form.
//!
//! Characters are pushed in portions; the parser keeps a state stack and
//! reports structure to a caller-supplied callback as events.  The callback
//! steers parsing with its return value: go on, skip, or stop with or
//! without an error.

use vstd::prelude::*;

verus! {

use crate::readers::Readable;

/// Parser state, one frame per open construct.
#[derive(Debug, Clone, Copy)]
pub enum StreamableJSONReaderStateEnum {
    INIT { is_key: bool },
    OBJECT { is_key: bool },
    ARRAY,
    STRING { is_key: bool },
    CONSTANT { is_key: bool },
    TYPE,
}

/// One structural event of the text.
#[derive(Debug, PartialEq)]
pub enum StreamableJSONReaderEvent {
    StartObject,
    EndObject,
    StartArray,
    EndArray,
    String(String),
    Constant(String),
    MarkerKey,
    MarkerValue,
    StartType(String),
    EndType,
    Finished,
    Initialized,
}

/// Parser failures: malformed text, a push into a finished parser, or an
/// error handed back by the callback.
#[derive(Debug)]
pub enum StreamableJSONReaderError {
    InvalidJSON,
    InvalidState,
    CallbackError(String),
}

/// What the callback asks the parser to do after an event.
#[derive(Debug)]
pub enum StreamableJSONReaderCallbackReturn {
    Continue,
    SkipValue,
    Skip,
    StopOk,
    StopErr(String),
}

/// Consumer of parse events; its return value steers the parser.
pub trait StreamableJSONReaderCallback {
    fn on_streamablejson_event(&mut self, event: StreamableJSONReaderEvent) -> (r:
        StreamableJSONReaderCallbackReturn);
}

/// Whether every answer the callback type `C` can give lets parsing go on:
/// no possible call of its event handler returns `StopOk` or `StopErr`.
pub open spec fn never_stops<C: StreamableJSONReaderCallback>() -> bool {
    forall|m: &mut C, e: StreamableJSONReaderEvent, a: StreamableJSONReaderCallbackReturn|
        call_ensures(C::on_streamablejson_event, (m, e), a) ==> (!(a is StopOk) && !(a
            is StopErr))
}

/// Whether `c` counts as whitespace between tokens.  Relies on
/// char::is_whitespace below: the result depends on the character alone.
pub uninterp spec fn is_whitespace_char(c: char) -> bool;

/// Relies on char::is_whitespace: the White_Space property of the
/// character, and nothing else.
#[verifier::external_body]
fn char_is_whitespace(c: char) -> (r: bool)
    ensures
        r == is_whitespace_char(c),
{
    c.is_whitespace()
}

/// Whether `c` counts as a constant or type-name character.  Relies on
/// char::is_alphanumeric below: the result depends on the character alone.
pub uninterp spec fn is_alphanumeric_char(c: char) -> bool;

/// Relies on char::is_alphanumeric: the Alphabetic and Number properties of
/// the character, and nothing else.
#[verifier::external_body]
fn char_is_alphanumeric(c: char) -> (r: bool)
    ensures
        r == is_alphanumeric_char(c),
{
    c.is_alphanumeric()
}

/// Relies on char::from_u32: `Some` exactly for Unicode scalar values (not
/// a surrogate, at most 0x10FFFF), carrying that code.
#[verifier::external_body]
fn char_from_u32(v: u32) -> (r: Option<char>)
    ensures
        (r matches Some(c) && c as u32 == v) <==> (v < 0xD800 || (0xE000 <= v && v <= 0x10FFFF)),
        r is Some <==> (v < 0xD800 || (0xE000 <= v && v <= 0x10FFFF)),
{
    char::from_u32(v)
}

/// The value of `c` as a hexadecimal digit, if it is one.
pub open spec fn hex_digit_val(c: char) -> Option<u32> {
    let u = c as u32;
    if 48 <= u && u <= 57 {
        Some((u - 48) as u32)
    } else if 97 <= u && u <= 102 {
        Some((u - 87) as u32)
    } else if 65 <= u && u <= 70 {
        Some((u - 55) as u32)
    } else {
        None
    }
}

/// The value of `c` as a hexadecimal digit: `0`-`9`, `a`-`f` or `A`-`F`.
fn hex_value(c: char) -> (r: Option<u32>)
    ensures
        r == hex_digit_val(c),
        r matches Some(v) ==> v < 16,
{
    let u = c as u32;
    if 48 <= u && u <= 57 {
        Some(u - 48)
    } else if 97 <= u && u <= 102 {
        Some(u - 87)
    } else if 65 <= u && u <= 70 {
        Some(u - 55)
    } else {
        None
    }
}

/// `post` carries everything `pre` carried, in the same order, possibly
/// followed by more.
pub open spec fn events_extend(
    post: Seq<StreamableJSONReaderEvent>,
    pre: Seq<StreamableJSONReaderEvent>,
) -> bool {
    &&& pre.len() <= post.len()
    &&& forall|k: int| 0 <= k < pre.len() ==> post[k] == pre[k]
}

/// The push-based parser.  It does not own its callback; the caller passes
/// the same callback to every operation.
pub struct StreambleJSONReader {
    chars: Vec<char>,
    stack: Vec<StreamableJSONReaderStateEnum>,
    stringescape: bool,
    stringescapeunicode: bool,
    stringescapeunicodecount: u8,
    stringescapeunicodevalue: u32,
    last_callback_return: StreamableJSONReaderCallbackReturn,
    events_log: Ghost<Seq<StreamableJSONReaderEvent>>,
}

impl StreambleJSONReader {
    /// The state stack, outermost frame first.
    pub closed spec fn stack_seq(&self) -> Seq<StreamableJSONReaderStateEnum> {
        self.stack@
    }

    /// The characters accumulated for the token being read.
    pub closed spec fn pending_chars(&self) -> Seq<char> {
        self.chars@
    }

    /// What the callback answered last.
    pub closed spec fn last_return(&self) -> StreamableJSONReaderCallbackReturn {
        self.last_callback_return
    }

    /// Every event delivered to the callback so far, in delivery order.
    pub closed spec fn events_sent(&self) -> Seq<StreamableJSONReaderEvent> {
        self.events_log@
    }

    /// Bounds on the escape-sequence scratch state.
    pub closed spec fn escapes_wf(&self) -> bool {
        &&& self.stringescapeunicodecount <= 4
        &&& (self.stringescapeunicodecount == 0 ==> self.stringescapeunicodevalue == 0)
        &&& (self.stringescapeunicodecount == 1 ==> self.stringescapeunicodevalue < 16)
        &&& (self.stringescapeunicodecount == 2 ==> self.stringescapeunicodevalue < 256)
        &&& (self.stringescapeunicodecount == 3 ==> self.stringescapeunicodevalue < 4096)
        &&& (self.stringescapeunicodecount == 4 ==> self.stringescapeunicodevalue < 65536)
    }

    /// A fresh parser over `callback`, which immediately receives the
    /// `Initialized` event — exactly once, before anything is parsed; its
    /// answer is held for the first push.
    pub fn new<C: StreamableJSONReaderCallback>(callback: &mut C) -> (r: StreambleJSONReader)
        ensures
            r.stack_seq().len() == 1,
            r.stack_seq()[0] == (StreamableJSONReaderStateEnum::INIT { is_key: false }),
            r.pending_chars().len() == 0,
            r.escapes_wf(),
            r.events_sent() == seq![StreamableJSONReaderEvent::Initialized],
            never_stops::<C>() ==> (!(r.last_return() is StopOk) && !(r.last_return()
                is StopErr)),
    {
        let mut stack: Vec<StreamableJSONReaderStateEnum> = Vec::new();
        stack.push(StreamableJSONReaderStateEnum::INIT { is_key: false });
        let ghost initial_events: Seq<StreamableJSONReaderEvent> = seq![
            StreamableJSONReaderEvent::Initialized,
        ];
        let r = callback.on_streamablejson_event(StreamableJSONReaderEvent::Initialized);
        StreambleJSONReader {
            chars: Vec::new(),
            stack,
            stringescape: false,
            stringescapeunicode: false,
            stringescapeunicodecount: 0,
            stringescapeunicodevalue: 0,
            last_callback_return: r,
            events_log: Ghost(initial_events),
        }
    }

    /// Forwards `event` to the callback — it joins the event log — and
    /// holds the callback's answer for the next push step.
    pub fn callback<C: StreamableJSONReaderCallback>(
        &mut self,
        event: StreamableJSONReaderEvent,
        cb: &mut C,
    )
        ensures
            final(self).stack_seq() == old(self).stack_seq(),
            final(self).pending_chars() == old(self).pending_chars(),
            final(self).escapes_wf() == old(self).escapes_wf(),
            final(self).events_sent() == old(self).events_sent().push(event),
            never_stops::<C>() ==> (!(final(self).last_return() is StopOk)
                && !(final(self).last_return() is StopErr)),
    {
        self.events_log = Ghost(self.events_log@.push(event));
        self.last_callback_return = cb.on_streamablejson_event(event);
    }

    /// Parses the characters of `data` until they run out or the callback
    /// asks to stop.  A pending `StopErr` or `StopOk` from the callback is
    /// honoured before anything is read; each consumed character advances
    /// the state stack and may raise events through `callback`.
    pub fn pushdata<R: Readable<char>, C: StreamableJSONReaderCallback>(
        &mut self,
        data: &mut R,
        callback: &mut C,
    ) -> (r: Result<(), StreamableJSONReaderError>)
        requires
            old(self).escapes_wf(),
        ensures
            final(self).escapes_wf(),
            events_extend(final(self).events_sent(), old(self).events_sent()),
            (old(self).last_return() matches StreamableJSONReaderCallbackReturn::StopErr(m) ==> ({
                &&& r == Err::<(), StreamableJSONReaderError>(
                    StreamableJSONReaderError::CallbackError(m),
                )
                &&& final(self).stack_seq() == old(self).stack_seq()
                &&& final(self).pending_chars() == old(self).pending_chars()
                &&& final(self).events_sent() == old(self).events_sent()
                &&& final(data).remaining() == old(data).remaining()
                &&& final(data).consumed() == old(data).consumed()
            })),
            (old(self).last_return() matches StreamableJSONReaderCallbackReturn::StopOk ==> ({
                &&& r == Ok::<(), StreamableJSONReaderError>(())
                &&& final(self).stack_seq() == old(self).stack_seq()
                &&& final(self).pending_chars() == old(self).pending_chars()
                &&& final(self).events_sent() == old(self).events_sent()
                &&& final(data).remaining() == old(data).remaining()
                &&& final(data).consumed() == old(data).consumed()
            })),
            r == Err::<(), StreamableJSONReaderError>(StreamableJSONReaderError::InvalidState)
                ==> final(self).stack_seq().len() == 0,
            (never_stops::<C>() && !(old(self).last_return() is StopOk)
                && !(old(self).last_return() is StopErr)) ==> ({
                &&& !(r matches Err(e) && e is CallbackError)
                &&& (r is Ok ==> final(data).remaining().len() == 0)
            }),
    {
        match &self.last_callback_return {
            StreamableJSONReaderCallbackReturn::StopErr(m) => {
                let msg = m.clone();
                self.last_callback_return = StreamableJSONReaderCallbackReturn::Continue;
                return Err(StreamableJSONReaderError::CallbackError(msg));
            },
            StreamableJSONReaderCallbackReturn::StopOk => {
                self.last_callback_return = StreamableJSONReaderCallbackReturn::Continue;
                return Ok(());
            },
            _ => {},
        }
        let mut reprocess_char = false;
        let mut c: char = ' ';
        loop
            invariant
                self.escapes_wf(),
                events_extend(self.events_sent(), old(self).events_sent()),
                !(old(self).last_return() is StopErr),
                !(old(self).last_return() is StopOk),
                never_stops::<C>() ==> (!(self.last_return() is StopOk) && !(self.last_return()
                    is StopErr)),
            decreases
                    data.remaining().len(),
                    (if reprocess_char {
                        1int
                    } else {
                        0int
                    }),
                    self.stack@.len(),
        {
            match &self.last_callback_return {
                StreamableJSONReaderCallbackReturn::StopErr(m) => {
                    let msg = m.clone();
                    self.last_callback_return = StreamableJSONReaderCallbackReturn::Continue;
                    return Err(StreamableJSONReaderError::CallbackError(msg));
                },
                StreamableJSONReaderCallbackReturn::StopOk => {
                    self.last_callback_return = StreamableJSONReaderCallbackReturn::Continue;
                    return Ok(());
                },
                _ => {
                    self.last_callback_return = StreamableJSONReaderCallbackReturn::Continue;
                },
            }
            if !reprocess_char {
                match data.read_next() {
                    Ok(ch) => {
                        c = ch;
                    },
                    Err(_) => {
                        return Ok(());
                    },
                }
            }
            let was_reprocess = reprocess_char;
            reprocess_char = false;
            if self.stack.len() == 0 {
                return Err(StreamableJSONReaderError::InvalidState);
            }
            let ghost stack0 = self.stack@;
            let top = self.stack[self.stack.len() - 1];
            match top {
                StreamableJSONReaderStateEnum::INIT { is_key } => {
                    if char_is_whitespace(c) {
                        continue ;
                    }
                    if c == '{' {
                        self.stack.push(StreamableJSONReaderStateEnum::OBJECT { is_key: true });
                        self.callback(StreamableJSONReaderEvent::StartObject, callback);
                    } else if c == '[' {
                        self.stack.push(StreamableJSONReaderStateEnum::ARRAY);
                        self.stack.push(StreamableJSONReaderStateEnum::INIT { is_key });
                        self.callback(StreamableJSONReaderEvent::StartArray, callback);
                    } else if c == '"' {
                        self.stack.push(StreamableJSONReaderStateEnum::STRING { is_key });
                        self.chars.clear();
                    } else if c == ')' || c == ']' || c == '}' || c == ',' || c == ':' {
                        // this frame was a type argument list or similar
                        // that just ended: give the closing character to
                        // the frame below
                        reprocess_char = true;
                        let _popped = self.stack.pop();
                        self.chars.clear();
                    } else {
                        if char_is_alphanumeric(c) {
                            self.stack.push(StreamableJSONReaderStateEnum::CONSTANT { is_key });
                            self.chars.push(c);
                        } else {
                            return Err(StreamableJSONReaderError::InvalidJSON);
                        }
                    }
                },
                StreamableJSONReaderStateEnum::OBJECT { is_key } => {
                    if c == '}' {
                        let _popped = self.stack.pop();
                        self.callback(StreamableJSONReaderEvent::EndObject, callback);
                    } else if c == ':' {
                        if is_key {
                            let _popped = self.stack.pop();
                            self.stack.push(
                                StreamableJSONReaderStateEnum::OBJECT { is_key: false },
                            );
                            self.stack.push(StreamableJSONReaderStateEnum::INIT { is_key: false });
                        } else {
                            self.stack.push(StreamableJSONReaderStateEnum::INIT { is_key: false });
                        }
                        self.chars.clear();
                    } else if c == ',' {
                        self.stack.push(StreamableJSONReaderStateEnum::INIT { is_key: true });
                    } else {
                        if char_is_whitespace(c) {
                            continue ;
                        }
                        if c == '"' {
                            self.stack.push(StreamableJSONReaderStateEnum::STRING { is_key });
                            self.chars.clear();
                        } else {
                            self.chars.push(c);
                            self.stack.push(StreamableJSONReaderStateEnum::CONSTANT { is_key });
                        }
                    }
                },
                StreamableJSONReaderStateEnum::ARRAY => {
                    if c == ']' {
                        let _popped = self.stack.pop();
                        self.callback(StreamableJSONReaderEvent::EndArray, callback);
                    } else if c == ',' {
                        self.stack.push(StreamableJSONReaderStateEnum::INIT { is_key: false });
                    } else {
                        if char_is_whitespace(c) {
                            continue ;
                        }
                        if c == '"' {
                            let _popped = self.stack.pop();
                            let s = crate::json_serializer::collect_string(&self.chars);
                            self.callback(StreamableJSONReaderEvent::String(s), callback);
                        } else {
                            return Err(StreamableJSONReaderError::InvalidJSON);
                        }
                    }
                },
                StreamableJSONReaderStateEnum::STRING { is_key } => {
                    if self.stringescape {
                        if self.stringescapeunicode {
                            if self.stringescapeunicodecount < 4 {
                                match hex_value(c) {
                                    Some(d) => {
                                        self.stringescapeunicodevalue = self.stringescapeunicodevalue
                                            * 16 + d;
                                        self.stringescapeunicodecount =
                                        self.stringescapeunicodecount + 1;
                                        continue ;
                                    },
                                    None => {
                                        return Err(StreamableJSONReaderError::InvalidJSON);
                                    },
                                }
                            } else {
                                // four digits are in; the current character
                                // is absorbed by the escape
                                match char_from_u32(self.stringescapeunicodevalue) {
                                    Some(u) => {
                                        self.chars.push(u);
                                    },
                                    None => {
                                        return Err(StreamableJSONReaderError::InvalidJSON);
                                    },
                                }
                                self.stringescapeunicode = false;
                                self.stringescapeunicodecount = 0;
                                self.stringescapeunicodevalue = 0;
                            }
                        } else {
                            if c == '"' {
                                self.chars.push('"');
                                self.stringescape = false;
                            } else if c == '\\' {
                                self.chars.push('\\');
                                self.stringescape = false;
                            } else if c == '/' {
                                self.chars.push('/');
                                self.stringescape = false;
                            } else if c == 'b' {
                                self.chars.push('\u{0008}');
                                self.stringescape = false;
                            } else if c == 'f' {
                                self.chars.push('\u{000c}');
                                self.stringescape = false;
                            } else if c == 'n' {
                                self.chars.push('\n');
                                self.stringescape = false;
                            } else if c == 'r' {
                                self.chars.push('\r');
                                self.stringescape = false;
                            } else if c == 't' {
                                self.chars.push('\t');
                                self.stringescape = false;
                            } else if c == 'u' {
                                self.stringescapeunicode = true;
                            } else {
                                return Err(StreamableJSONReaderError::InvalidJSON);
                            }
                        }
                    } else {
                        if c == '\\' {
                            self.stringescape = true;
                        } else {
                            if c == '"' {
                                let s = crate::json_serializer::collect_string(&self.chars);
                                self.callback(StreamableJSONReaderEvent::String(s), callback);
                                let _popped = self.stack.pop();
                            } else {
                                self.chars.push(c);
                            }
                        }
                    }
                },
                StreamableJSONReaderStateEnum::CONSTANT { is_key } => {
                    if char_is_alphanumeric(c) {
                        self.chars.push(c);
                    } else if c == '(' {
                        let _popped = self.stack.pop();
                        self.stack.push(StreamableJSONReaderStateEnum::TYPE);
                        self.stack.push(StreamableJSONReaderStateEnum::INIT { is_key });
                        let s = crate::json_serializer::collect_string(&self.chars);
                        self.callback(StreamableJSONReaderEvent::StartType(s), callback);
                        self.chars.clear();
                    } else {
                        let s = crate::json_serializer::collect_string(&self.chars);
                        self.callback(StreamableJSONReaderEvent::Constant(s), callback);
                        let _popped = self.stack.pop();
                        reprocess_char = true;
                        self.chars.clear();
                    }
                },
                StreamableJSONReaderStateEnum::TYPE => {
                    if c == ')' {
                        let _popped = self.stack.pop();
                        self.callback(StreamableJSONReaderEvent::EndType, callback);
                    } else {
                        let s = crate::json_serializer::collect_string(&self.chars);
                        self.callback(StreamableJSONReaderEvent::Constant(s), callback);
                        self.chars.clear();
                        let _popped = self.stack.pop();
                        reprocess_char = true;
                    }
                },
            }
        }
    }

    /// Closes the text: accepts a parser that is back at its initial frame
    /// (flushing a pending non-key constant first), reports `Finished`, and
    /// rejects anything still half open.
    pub fn finish<C: StreamableJSONReaderCallback>(&mut self, callback: &mut C) -> (r: Result<
        (),
        StreamableJSONReaderError,
    >)
        ensures
            ({
                let s = old(self).stack_seq();
                let ev = old(self).events_sent();
                if s.len() == 0 {
                    r == Err::<(), StreamableJSONReaderError>(
                        StreamableJSONReaderError::InvalidState,
                    ) && final(self).stack_seq() == s && final(self).events_sent() == ev
                } else {
                    &&& final(self).stack_seq() == s.drop_last()
                    &&& match s.last() {
                        StreamableJSONReaderStateEnum::INIT { is_key } => {
                            if s.len() > 2 {
                                r == Err::<(), StreamableJSONReaderError>(
                                    StreamableJSONReaderError::InvalidState,
                                ) && final(self).events_sent() == ev
                            } else {
                                r == Ok::<(), StreamableJSONReaderError>(())
                                    && final(self).events_sent() == ev.push(
                                    StreamableJSONReaderEvent::Finished,
                                )
                            }
                        },
                        StreamableJSONReaderStateEnum::CONSTANT { is_key } => {
                            if is_key {
                                r == Err::<(), StreamableJSONReaderError>(
                                    StreamableJSONReaderError::InvalidJSON,
                                ) && final(self).events_sent() == ev
                            } else {
                                // the pending constant is flushed first
                                &&& events_extend(final(self).events_sent(), ev)
                                &&& (final(self).events_sent()[ev.len() as int] matches
                                    StreamableJSONReaderEvent::Constant(cs) && cs@
                                    == old(self).pending_chars())
                                &&& if s.len() > 2 {
                                    r == Err::<(), StreamableJSONReaderError>(
                                        StreamableJSONReaderError::InvalidState,
                                    ) && final(self).events_sent().len() == ev.len() + 1
                                } else {
                                    &&& r == Ok::<(), StreamableJSONReaderError>(())
                                    &&& final(self).events_sent().len() == ev.len() + 2
                                    &&& final(self).events_sent().last()
                                        == StreamableJSONReaderEvent::Finished
                                }
                            }
                        },
                        _ => r == Err::<(), StreamableJSONReaderError>(
                            StreamableJSONReaderError::InvalidJSON,
                        ) && final(self).events_sent() == ev,
                    }
                }
            }),
    {
        if self.stack.len() == 0 {
            return Err(StreamableJSONReaderError::InvalidState);
        }
        let top = match self.stack.pop() {
            Some(t) => t,
            None => unreached(),
        };
        match top {
            StreamableJSONReaderStateEnum::INIT { .. } => {},
            StreamableJSONReaderStateEnum::OBJECT { .. } => {
                return Err(StreamableJSONReaderError::InvalidJSON);
            },
            StreamableJSONReaderStateEnum::ARRAY => {
                return Err(StreamableJSONReaderError::InvalidJSON);
            },
            StreamableJSONReaderStateEnum::STRING { .. } => {
                return Err(StreamableJSONReaderError::InvalidJSON);
            },
            StreamableJSONReaderStateEnum::CONSTANT { is_key } => {
                if !is_key {
                    let s = crate::json_serializer::collect_string(&self.chars);
                    self.callback(StreamableJSONReaderEvent::Constant(s), callback);
                } else {
                    return Err(StreamableJSONReaderError::InvalidJSON);
                }
            },
            StreamableJSONReaderStateEnum::TYPE => {
                return Err(StreamableJSONReaderError::InvalidJSON);
            },
        }
        if self.stack.len() > 1 {
            return Err(StreamableJSONReaderError::InvalidState);
        }
        self.callback(StreamableJSONReaderEvent::Finished, callback);
        Ok(())
    }
}

} // verus!
