//! A typed event stream and a processor that folds it into ordered
//! dictionaries.
//!
//! Events describe a tree of objects, arrays, typed values and scalars; the
//! processor keeps a stack of partially built containers and moves each
//! finished value into its parent, or into the result list at top level.

use vstd::prelude::*;

verus! {

use crate::orderedbag::OrderedBag;

/// One event of the typed stream.
///
/// Events carrying arbitrary dynamic values or dynamic errors are not
/// representable in a verified type; a driver that needs them keeps them on
/// its own side of the stream.
#[derive(Debug)]
pub enum TypedStreamEvent {
    INIT,
    STARTOBJECT,
    ENDOBJECT,
    STARTARRAY,
    ENDARRAY,
    STARTTYPE(String),
    ENDTYPE,
    STRING(String),
    DECIMAL(usize),
    NULL,
    TRUE,
    FALSE,
    FINISH,
    BYTEARRAY(Vec<u8>),
    HINT(String),
}

/// What the processor asks the driver to do next.
#[derive(Debug)]
pub enum TypedStreamEventReturn {
    CONTINUE,
    STOP,
    SKIP,
    ERROR,
}

#[derive(Debug)]
pub enum TypedStreamEventError {
    InvalidEvent,
    InvalidType,
    InvalidValue,
    InvalidState,
}

/// One value of the tree being built.  As with [`TypedStreamEvent`], leaves
/// holding arbitrary dynamic values or dynamic errors have no verified
/// representation and are left to the application layer.
#[derive(Debug, PartialEq)]
pub enum TypedStreamElement {
    Object(OrderedBag<TypedStreamElement, TypedStreamElement>),
    Array(Vec<TypedStreamElement>),
    Type(String, Vec<TypedStreamElement>),
    String(String),
    Decimal,
    Null,
    Boolean(bool),
    ByteArray(Vec<u8>),
}

/// Whether `el` is a container that children can be inserted into.
pub open spec fn is_container(el: TypedStreamElement) -> bool {
    match el {
        TypedStreamElement::Object(_) => true,
        TypedStreamElement::Array(_) => true,
        TypedStreamElement::Type(_, _) => true,
        _ => false,
    }
}

/// Every element of a processor stack is an open container.
pub open spec fn stack_ok(s: Seq<TypedStreamElement>) -> bool {
    forall|i: int| 0 <= i < s.len() ==> is_container(#[trigger] s[i])
}

/// `new` is `last` with `e` inserted: pushed as the next key of an object
/// whose columns are in step (else as the pending value), or appended to an
/// array's or typed value's children.
pub open spec fn inserted(
    last: TypedStreamElement,
    e: TypedStreamElement,
    new: TypedStreamElement,
) -> bool {
    match last {
        TypedStreamElement::Object(b) => (new matches TypedStreamElement::Object(b2) && (
        if b.keys_seq().len() == b.values_seq().len() {
            b2.keys_seq() == b.keys_seq().push(e) && b2.values_seq() == b.values_seq()
        } else {
            b2.keys_seq() == b.keys_seq() && b2.values_seq() == b.values_seq().push(e)
        })),
        TypedStreamElement::Array(a) => (new matches TypedStreamElement::Array(a2) && a2@ == a@.push(
            e,
        )),
        TypedStreamElement::Type(t, a) => (new matches TypedStreamElement::Type(t2, a2) && t2 == t
            && a2@ == a@.push(e)),
        _ => false,
    }
}

/// The effect of handing the finished value `e` to a processor whose stack
/// and results are `pre_stack` and `pre_results`: into the innermost open
/// container, or into the results at top level.
pub open spec fn insert_effect(
    pre_stack: Seq<TypedStreamElement>,
    pre_results: Seq<TypedStreamElement>,
    e: TypedStreamElement,
    post_stack: Seq<TypedStreamElement>,
    post_results: Seq<TypedStreamElement>,
) -> bool {
    if pre_stack.len() == 0 {
        post_results == pre_results.push(e) && post_stack == pre_stack
    } else {
        &&& post_results == pre_results
        &&& post_stack.len() == pre_stack.len()
        &&& post_stack.drop_last() == pre_stack.drop_last()
        &&& inserted(pre_stack.last(), e, post_stack.last())
    }
}

/// Folds a typed event stream into [`TypedStreamElement`] trees.
pub struct TypeStream2OrderedMultiDictProcessor {
    stack: Vec<TypedStreamElement>,
    results: Vec<TypedStreamElement>,
}

impl TypeStream2OrderedMultiDictProcessor {
    /// The open containers, outermost first.
    pub closed spec fn stack_seq(&self) -> Seq<TypedStreamElement> {
        self.stack@
    }

    /// The finished top-level values, oldest first.
    pub closed spec fn results_seq(&self) -> Seq<TypedStreamElement> {
        self.results@
    }

    pub fn new() -> (r: TypeStream2OrderedMultiDictProcessor)
        ensures
            r.stack_seq() == Seq::<TypedStreamElement>::empty(),
            r.results_seq() == Seq::<TypedStreamElement>::empty(),
    {
        let r = TypeStream2OrderedMultiDictProcessor { stack: Vec::new(), results: Vec::new() };
        proof {
            assert(r.stack_seq() =~= Seq::<TypedStreamElement>::empty());
            assert(r.results_seq() =~= Seq::<TypedStreamElement>::empty());
        }
        r
    }

    /// Moves `element` into the innermost open container, or into the
    /// results at top level.
    pub fn insert_into_last_stack_element(&mut self, element: TypedStreamElement) -> (r: Result<
        TypedStreamEventReturn,
        TypedStreamEventError,
    >)
        requires
            stack_ok(old(self).stack_seq()),
        ensures
            r matches Ok(c) && c is CONTINUE,
            insert_effect(
                old(self).stack_seq(),
                old(self).results_seq(),
                element,
                final(self).stack_seq(),
                final(self).results_seq(),
            ),
            stack_ok(final(self).stack_seq()),
    {
        if self.stack.len() == 0 {
            self.results.push(element);
            Ok(TypedStreamEventReturn::CONTINUE)
        } else {
            let mut last = match self.stack.pop() {
                Some(l) => l,
                None => unreached(),
            };
            match &mut last {
                TypedStreamElement::Object(obj) => {
                    if obj.keys_and_values_in_sync() {
                        obj.insert_key_only(element);
                    } else {
                        obj.insert_value_only(element);
                    }
                },
                TypedStreamElement::Array(arr) => {
                    arr.push(element);
                },
                TypedStreamElement::Type(_, t) => {
                    t.push(element);
                },
                _ => {
                    unreached()
                },
            }
            self.stack.push(last);
            proof {
                assert(final(self).stack_seq().drop_last() =~= old(self).stack_seq().drop_last());
            }
            Ok(TypedStreamEventReturn::CONTINUE)
        }
    }

    /// Applies one event: containers open and close on the stack, scalars
    /// and closed containers move into their parent (or the results), and
    /// `FINISH` asks to stop once nothing is left open.
    pub fn process(&mut self, event: TypedStreamEvent) -> (r: Result<
        TypedStreamEventReturn,
        TypedStreamEventError,
    >)
        requires
            stack_ok(old(self).stack_seq()),
            (event matches TypedStreamEvent::ENDOBJECT ==> old(self).stack_seq().len() > 0),
            (event matches TypedStreamEvent::ENDARRAY ==> old(self).stack_seq().len() > 0),
            (event matches TypedStreamEvent::ENDTYPE ==> old(self).stack_seq().len() > 0),
        ensures
            stack_ok(final(self).stack_seq()),
            ({
                let s0 = old(self).stack_seq();
                let r0 = old(self).results_seq();
                let s1 = final(self).stack_seq();
                let r1 = final(self).results_seq();
                match event {
                    TypedStreamEvent::INIT => {
                        if s0.len() == 0 {
                            r matches Ok(c) && c is CONTINUE && s1 == s0 && r1 == r0
                        } else {
                            r matches Err(e) && e is InvalidState && s1 == s0 && r1 == r0
                        }
                    },
                    TypedStreamEvent::STARTOBJECT => {
                        &&& r matches Ok(c) && c is CONTINUE
                        &&& r1 == r0
                        &&& s1.len() == s0.len() + 1 && s1.drop_last() == s0
                        &&& s1.last() matches TypedStreamElement::Object(b) && b.keys_seq().len()
                            == 0 && b.values_seq().len() == 0
                    },
                    TypedStreamEvent::STARTARRAY => {
                        &&& r matches Ok(c) && c is CONTINUE
                        &&& r1 == r0
                        &&& s1.len() == s0.len() + 1 && s1.drop_last() == s0
                        &&& s1.last() matches TypedStreamElement::Array(a) && a@.len() == 0
                    },
                    TypedStreamEvent::STARTTYPE(t) => {
                        &&& r matches Ok(c) && c is CONTINUE
                        &&& r1 == r0
                        &&& s1.len() == s0.len() + 1 && s1.drop_last() == s0
                        &&& s1.last() matches TypedStreamElement::Type(t2, a) && t2 == t && a@.len()
                            == 0
                    },
                    TypedStreamEvent::ENDOBJECT => (r matches Ok(c) && c is CONTINUE
                        && insert_effect(s0.drop_last(), r0, s0.last(), s1, r1)),
                    TypedStreamEvent::ENDARRAY => (r matches Ok(c) && c is CONTINUE
                        && insert_effect(s0.drop_last(), r0, s0.last(), s1, r1)),
                    TypedStreamEvent::ENDTYPE => (r matches Ok(c) && c is CONTINUE
                        && insert_effect(s0.drop_last(), r0, s0.last(), s1, r1)),
                    TypedStreamEvent::STRING(s) => (r matches Ok(c) && c is CONTINUE
                        && insert_effect(s0, r0, TypedStreamElement::String(s), s1, r1)),
                    TypedStreamEvent::DECIMAL(_) => (r matches Ok(c) && c is CONTINUE && s1 == s0
                        && r1 == r0),
                    TypedStreamEvent::NULL => (r matches Ok(c) && c is CONTINUE && insert_effect(
                        s0,
                        r0,
                        TypedStreamElement::Null,
                        s1,
                        r1,
                    )),
                    TypedStreamEvent::TRUE => (r matches Ok(c) && c is CONTINUE && insert_effect(
                        s0,
                        r0,
                        TypedStreamElement::Boolean(true),
                        s1,
                        r1,
                    )),
                    TypedStreamEvent::FALSE => (r matches Ok(c) && c is CONTINUE && insert_effect(
                        s0,
                        r0,
                        TypedStreamElement::Boolean(false),
                        s1,
                        r1,
                    )),
                    TypedStreamEvent::FINISH => {
                        if s0.len() != 0 {
                            r matches Err(e) && e is InvalidState && s1 == s0 && r1 == r0
                        } else {
                            r matches Ok(c) && c is STOP && s1 == s0 && r1 == r0
                        }
                    },
                    TypedStreamEvent::BYTEARRAY(b) => (r matches Ok(c) && c is CONTINUE
                        && insert_effect(s0, r0, TypedStreamElement::ByteArray(b), s1, r1)),
                    TypedStreamEvent::HINT(_) => (r matches Ok(c) && c is CONTINUE && s1 == s0 && r1
                        == r0),
                }
            }),
    {
        match event {
            TypedStreamEvent::INIT => {
                if self.stack.len() == 0 {
                    Ok(TypedStreamEventReturn::CONTINUE)
                } else {
                    Err(TypedStreamEventError::InvalidState)
                }
            },
            TypedStreamEvent::STARTOBJECT => {
                self.stack.push(TypedStreamElement::Object(OrderedBag::new()));
                Ok(TypedStreamEventReturn::CONTINUE)
            },
            TypedStreamEvent::ENDOBJECT | TypedStreamEvent::ENDARRAY | TypedStreamEvent::ENDTYPE => {
                let o = match self.stack.pop() {
                    Some(o) => o,
                    None => unreached(),
                };
                self.insert_into_last_stack_element(o)
            },
            TypedStreamEvent::STARTARRAY => {
                self.stack.push(TypedStreamElement::Array(Vec::new()));
                Ok(TypedStreamEventReturn::CONTINUE)
            },
            TypedStreamEvent::STARTTYPE(s) => {
                self.stack.push(TypedStreamElement::Type(s, Vec::new()));
                Ok(TypedStreamEventReturn::CONTINUE)
            },
            TypedStreamEvent::STRING(s) => self.insert_into_last_stack_element(
                TypedStreamElement::String(s),
            ),
            TypedStreamEvent::DECIMAL(_) => Ok(TypedStreamEventReturn::CONTINUE),
            TypedStreamEvent::NULL => self.insert_into_last_stack_element(TypedStreamElement::Null),
            TypedStreamEvent::TRUE => self.insert_into_last_stack_element(
                TypedStreamElement::Boolean(true),
            ),
            TypedStreamEvent::FALSE => self.insert_into_last_stack_element(
                TypedStreamElement::Boolean(false),
            ),
            TypedStreamEvent::FINISH => {
                if self.stack.len() != 0 {
                    Err(TypedStreamEventError::InvalidState)
                } else {
                    Ok(TypedStreamEventReturn::STOP)
                }
            },
            TypedStreamEvent::BYTEARRAY(b) => self.insert_into_last_stack_element(
                TypedStreamElement::ByteArray(b),
            ),
            TypedStreamEvent::HINT(_) => Ok(TypedStreamEventReturn::CONTINUE),
        }
    }

    /// Hands out the oldest finished top-level value, if one is ready.
    pub fn get_result(&mut self) -> (r: Option<TypedStreamElement>)
        ensures
            final(self).stack_seq() == old(self).stack_seq(),
            old(self).results_seq().len() == 0 ==> r is None && final(self).results_seq()
                == old(self).results_seq(),
            old(self).results_seq().len() > 0 ==> ({
                &&& r matches Some(v) && v == old(self).results_seq()[0]
                &&& final(self).results_seq() == old(self).results_seq().drop_first()
            }),
    {
        if self.results.len() == 0 {
            None
        } else {
            let v = self.results.remove(0);
            proof {
                assert(final(self).results_seq() =~= old(self).results_seq().drop_first());
            }
            Some(v)
        }
    }
}

} // verus!
