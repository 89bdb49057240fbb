//! The body-type registry: a fixed-capacity table keyed by a dense 8-bit tag.
//!
//! Registration assigns tags monotonically from zero, records the body's
//! layout, keeps the side map from type identifier to tag for the slow path,
//! and tracks the worst-case framed size over everything registered, which
//! later sizes the ring.

use vstd::prelude::*;

use crate::compressed_type_identifier::{
    CompressedTypeIdentifier, COMPRESSED_TYPE_IDENTIFIER_EXCLUSIVE_MAXIMUM,
};
use crate::framing::{
    lemma_message_layout, largest_possible_total_message_size_including_message_header,
    smallest_possible_total_message_size_including_message_header,
    spec_largest_possible_total_message_size, valid_body_layout, MAXIMUM_TOTAL_MESSAGE_SIZE,
};
use crate::message::Message;
use crate::message_handling::{DispatchEvent, MessageDispatch};
use crate::registration_table::{
    registration_entries, registration_table_get, registration_table_len, registration_table_new,
    registration_table_push, BodyTypeRegistration, RegistrationTable,
};
use crate::type_identifier_map::{
    type_identifier_map_get, type_identifier_map_insert, type_identifier_map_new,
    type_identifier_map_view, TypeIdentifierMap,
};

verus! {

/// Why a registration was refused.
///
/// All three are programmer errors under the source convention; they are
/// surfaced as values so that callers can observe them.
#[derive(Clone, Copy, PartialEq, Eq, Structural, Debug)]
pub enum RegistrationError {
    /// The body's worst-case framed size would not fit the header's 16-bit
    /// size field.
    BodyTooLarge,
    /// The body type is already registered in this table.
    DuplicateBodyType,
    /// The table already holds 255 registrations.
    TableFull,
}

/// The worst-case framed size a registration implies.
pub open spec fn spec_registration_largest_message(r: BodyTypeRegistration) -> int {
    spec_largest_possible_total_message_size(r.body_size as int, r.body_alignment as int)
}

/// A registration the table accepts: a well-formed body layout whose
/// worst-case framed size fits the header's 16-bit size field.
pub open spec fn valid_registration(r: BodyTypeRegistration) -> bool {
    &&& valid_body_layout(r.body_size as int, r.body_alignment as int)
    &&& spec_registration_largest_message(r) <= MAXIMUM_TOTAL_MESSAGE_SIZE
}

/// The registered body sizes, indexed by tag value; what the framing codec's
/// parser consults.
pub open spec fn spec_body_sizes_of(regs: Seq<BodyTypeRegistration>) -> Seq<usize> {
    Seq::new(regs.len(), |i: int| regs[i].body_size)
}

/// The running maximum of worst-case framed sizes over a table, starting from
/// the bare-header frame of a zero-sized body.
pub open spec fn spec_table_largest_message(regs: Seq<BodyTypeRegistration>) -> int
    decreases regs.len(),
{
    if regs.len() == 0 {
        4
    } else {
        let rest = spec_table_largest_message(regs.drop_last());
        let last = spec_registration_largest_message(regs.last());
        if last > rest {
            last
        } else {
            rest
        }
    }
}

/// The running maximum over valid registrations stays within the sizes a ring
/// can be built from: at least one header, at most a 16-bit total, and a
/// multiple of the header size.
pub proof fn lemma_table_largest_message_bounds(regs: Seq<BodyTypeRegistration>)
    requires
        forall|i: int| 0 <= i < regs.len() ==> valid_registration(#[trigger] regs[i]),
    ensures
        4 <= spec_table_largest_message(regs) <= MAXIMUM_TOTAL_MESSAGE_SIZE,
        spec_table_largest_message(regs) % 4 == 0,
    decreases regs.len(),
{
    if regs.len() == 0 {
    } else {
        assert(forall|i: int|
            0 <= i < regs.drop_last().len() ==> #[trigger] regs.drop_last()[i] == regs[i]);
        lemma_table_largest_message_bounds(regs.drop_last());
        let last = regs.last();
        assert(valid_registration(last));
        lemma_message_layout(0, last.body_size as int, last.body_alignment as int);
    }
}

/// The registration a message body type declares of itself.
pub open spec fn spec_message_registration<M: Message>() -> BodyTypeRegistration {
    BodyTypeRegistration {
        type_identifier: M::spec_type_identifier(),
        body_size: M::spec_body_size(),
        body_alignment: M::spec_body_alignment(),
    }
}

/// Whether a message body type is registered in a table exactly as it
/// declares itself.
pub open spec fn spec_message_is_registered_in<M: Message>(handlers: MessageHandlers) -> bool {
    exists|i: int|
        0 <= i < handlers.spec_registrations().len() && #[trigger] handlers.spec_registrations()[i]
            == spec_message_registration::<M>()
}

/// A map that maps body types (not instances) to the handling machinery for
/// instances of those types.
///
/// Holds at most 255 registrations; the dense tag keyed table makes
/// per-message dispatch an array index, and the hash map is touched only off
/// the hot path.
pub struct MessageHandlers {
    registrations: RegistrationTable,
    type_identifier_to_compressed_type_identifier: TypeIdentifierMap,
    largest_possible_message: usize,
}

impl MessageHandlers {
    /// The registrations in tag order.
    pub closed spec fn spec_registrations(&self) -> Seq<BodyTypeRegistration> {
        registration_entries(self.registrations)
    }

    /// The slow-path map from type identifier to tag value.
    pub closed spec fn spec_lookup(&self) -> Map<u64, u8> {
        type_identifier_map_view(self.type_identifier_to_compressed_type_identifier)
    }

    /// The running maximum of worst-case framed sizes.
    pub closed spec fn spec_largest_possible_message(&self) -> int {
        self.largest_possible_message as int
    }

    /// The registered body sizes in tag order.
    pub open spec fn spec_body_sizes(&self) -> Seq<usize> {
        spec_body_sizes_of(self.spec_registrations())
    }

    /// Well-formedness: at most 255 valid registrations; the side map and the
    /// dense table are inverse to one another; and the running maximum is
    /// exactly the maximum over the table.
    pub open spec fn wf(&self) -> bool {
        let regs = self.spec_registrations();
        let lookup = self.spec_lookup();
        &&& regs.len() <= COMPRESSED_TYPE_IDENTIFIER_EXCLUSIVE_MAXIMUM
        &&& (forall|i: int| 0 <= i < regs.len() ==> valid_registration(#[trigger] regs[i]))
        &&& (forall|i: int|
            0 <= i < regs.len() ==> lookup.dom().contains(#[trigger] regs[i].type_identifier)
                && lookup[regs[i].type_identifier] == i as u8)
        &&& (forall|t: u64|
            #[trigger] lookup.dom().contains(t) ==> (lookup[t] as int) < regs.len()
                && regs[lookup[t] as int].type_identifier == t)
        &&& self.spec_largest_possible_message() == spec_table_largest_message(regs)
    }

    /// Whether a type identifier is registered in this table.
    pub open spec fn spec_is_registered(&self, type_identifier: u64) -> bool {
        exists|i: int|
            0 <= i < self.spec_registrations().len() && #[trigger] self.spec_registrations()[i].type_identifier
                == type_identifier
    }

    /// Tags are dense and assigned in registration order: the table's i-th
    /// registration is the one that tag value i refers to, for every i below
    /// the table's size.
    pub proof fn lemma_tags_are_assigned_in_order(&self)
        requires
            self.wf(),
        ensures
            forall|i: int|
                0 <= i < self.spec_registrations().len() ==> self.spec_lookup()[#[trigger] self.spec_registrations()[i].type_identifier]
                    == i as u8,
    {
    }

    /// Distinct tags name distinct body types: the registered type
    /// identifiers never repeat.
    pub proof fn lemma_distinct_type_identifiers(&self)
        requires
            self.wf(),
        ensures
            forall|i: int, j: int|
                0 <= i < self.spec_registrations().len() && 0 <= j
                    < self.spec_registrations().len() && i != j
                    ==> #[trigger] self.spec_registrations()[i].type_identifier
                    != #[trigger] self.spec_registrations()[j].type_identifier,
    {
        let regs = self.spec_registrations();
        assert forall|i: int, j: int|
            0 <= i < regs.len() && 0 <= j < regs.len() && i != j implies #[trigger] regs[i].type_identifier
            != #[trigger] regs[j].type_identifier by {
            if regs[i].type_identifier == regs[j].type_identifier {
                assert(self.spec_lookup()[regs[i].type_identifier] == i as u8);
                assert(self.spec_lookup()[regs[j].type_identifier] == j as u8);
            }
        }
    }

    /// Registers a body type and returns the tag that will refer to it.
    ///
    /// Tags are assigned monotonically from 0, so they can be predicted;
    /// there is a 1:1 relationship between body types and tags. A body whose
    /// worst-case framed size would overflow the header's 16-bit size field
    /// is refused, as are duplicates and a full table.
    pub fn register_message_handler_internal(
        &mut self,
        type_identifier: u64,
        body_size: usize,
        body_alignment: usize,
    ) -> (r: Result<CompressedTypeIdentifier, RegistrationError>)
        requires
            old(self).wf(),
            valid_body_layout(body_size as int, body_alignment as int),
        ensures
            final(self).wf(),
            ({
                let regs = old(self).spec_registrations();
                let largest = spec_largest_possible_total_message_size(
                    body_size as int,
                    body_alignment as int,
                );
                match r {
                    Ok(tag) => {
                        &&& largest <= MAXIMUM_TOTAL_MESSAGE_SIZE
                        &&& !old(self).spec_is_registered(type_identifier)
                        &&& regs.len() < COMPRESSED_TYPE_IDENTIFIER_EXCLUSIVE_MAXIMUM
                        &&& tag.spec_index() == regs.len()
                        &&& final(self).spec_registrations() == regs.push(
                            BodyTypeRegistration { type_identifier, body_size, body_alignment },
                        )
                        &&& final(self).spec_largest_possible_message() == if largest > old(
                            self,
                        ).spec_largest_possible_message() {
                            largest
                        } else {
                            old(self).spec_largest_possible_message()
                        }
                    },
                    Err(RegistrationError::BodyTooLarge) => {
                        &&& largest > MAXIMUM_TOTAL_MESSAGE_SIZE
                        &&& *final(self) == *old(self)
                    },
                    Err(RegistrationError::DuplicateBodyType) => {
                        &&& largest <= MAXIMUM_TOTAL_MESSAGE_SIZE
                        &&& old(self).spec_is_registered(type_identifier)
                        &&& *final(self) == *old(self)
                    },
                    Err(RegistrationError::TableFull) => {
                        &&& largest <= MAXIMUM_TOTAL_MESSAGE_SIZE
                        &&& !old(self).spec_is_registered(type_identifier)
                        &&& regs.len() == COMPRESSED_TYPE_IDENTIFIER_EXCLUSIVE_MAXIMUM
                        &&& *final(self) == *old(self)
                    },
                }
            }),
    {
        proof {
            lemma_message_layout(0, body_size as int, body_alignment as int);
        }
        if body_size > MAXIMUM_TOTAL_MESSAGE_SIZE {
            return Err(RegistrationError::BodyTooLarge);
        }
        let largest = largest_possible_total_message_size_including_message_header(
            body_size,
            body_alignment,
        );
        if largest > MAXIMUM_TOTAL_MESSAGE_SIZE {
            return Err(RegistrationError::BodyTooLarge);
        }
        let already = type_identifier_map_get(
            &self.type_identifier_to_compressed_type_identifier,
            type_identifier,
        );
        if already.is_some() {
            proof {
                let i = old(self).spec_lookup()[type_identifier] as int;
                assert(old(self).spec_registrations()[i].type_identifier == type_identifier);
            }
            return Err(RegistrationError::DuplicateBodyType);
        }
        let length = registration_table_len(&self.registrations);
        if length == COMPRESSED_TYPE_IDENTIFIER_EXCLUSIVE_MAXIMUM {
            proof {
                if old(self).spec_is_registered(type_identifier) {
                    let i = choose|i: int|
                        0 <= i < old(self).spec_registrations().len() && #[trigger] old(
                            self,
                        ).spec_registrations()[i].type_identifier == type_identifier;
                    assert(old(self).spec_lookup().dom().contains(type_identifier));
                }
            }
            return Err(RegistrationError::TableFull);
        }
        let next_compressed_type_identifier = CompressedTypeIdentifier::next(length);
        let registration = BodyTypeRegistration { type_identifier, body_size, body_alignment };
        type_identifier_map_insert(
            &mut self.type_identifier_to_compressed_type_identifier,
            type_identifier,
            length as u8,
        );
        registration_table_push(&mut self.registrations, registration);
        if largest > self.largest_possible_message {
            self.largest_possible_message = largest;
        }
        proof {
            let regs = old(self).spec_registrations();
            let new_regs = self.spec_registrations();
            if old(self).spec_is_registered(type_identifier) {
                let i = choose|i: int|
                    0 <= i < regs.len() && #[trigger] regs[i].type_identifier == type_identifier;
                assert(old(self).spec_lookup().dom().contains(type_identifier));
            }
            assert(new_regs.drop_last() =~= regs);
            assert forall|i: int| 0 <= i < new_regs.len() implies valid_registration(
                #[trigger] new_regs[i],
            ) by {
                if i < regs.len() {
                    assert(new_regs[i] == regs[i]);
                }
            }
            assert forall|i: int| 0 <= i < new_regs.len() implies self.spec_lookup().dom().contains(
                #[trigger] new_regs[i].type_identifier,
            ) && self.spec_lookup()[new_regs[i].type_identifier] == i as u8 by {
                if i < regs.len() {
                    assert(new_regs[i] == regs[i]);
                    assert(regs[i].type_identifier != type_identifier);
                }
            }
            assert forall|t: u64| #[trigger] self.spec_lookup().dom().contains(t) implies (
            self.spec_lookup()[t] as int) < new_regs.len()
                && new_regs[self.spec_lookup()[t] as int].type_identifier == t by {
                if t == type_identifier {
                    assert(self.spec_lookup()[t] == regs.len() as u8);
                    assert(new_regs[regs.len() as int].type_identifier == t);
                } else {
                    assert(old(self).spec_lookup().dom().contains(t));
                    let i = old(self).spec_lookup()[t] as int;
                    assert(new_regs[i] == regs[i]);
                }
            }
        }
        Ok(next_compressed_type_identifier)
    }

    /// Registers a message body type and returns the tag that will refer to
    /// it, recording the type's identifier, size and alignment.
    pub fn register_message_handler<M: Message>(&mut self) -> (r: Result<
        CompressedTypeIdentifier,
        RegistrationError,
    >)
        requires
            old(self).wf(),
        ensures
            final(self).wf(),
            ({
                let registration = spec_message_registration::<M>();
                match r {
                    Ok(tag) => {
                        &&& tag.spec_index() == old(self).spec_registrations().len()
                        &&& final(self).spec_registrations() == old(
                            self,
                        ).spec_registrations().push(registration)
                        &&& spec_message_is_registered_in::<M>(*final(self))
                    },
                    Err(RegistrationError::BodyTooLarge) => {
                        &&& spec_registration_largest_message(registration)
                            > MAXIMUM_TOTAL_MESSAGE_SIZE
                        &&& *final(self) == *old(self)
                    },
                    Err(RegistrationError::DuplicateBodyType) => {
                        &&& old(self).spec_is_registered(M::spec_type_identifier())
                        &&& *final(self) == *old(self)
                    },
                    Err(RegistrationError::TableFull) => {
                        &&& old(self).spec_registrations().len()
                            == COMPRESSED_TYPE_IDENTIFIER_EXCLUSIVE_MAXIMUM
                        &&& *final(self) == *old(self)
                    },
                }
            }),
    {
        proof {
            M::layout_is_valid();
        }
        let r = self.register_message_handler_internal(
            M::type_identifier(),
            M::body_size(),
            M::body_alignment(),
        );
        proof {
            if r is Ok {
                let regs = self.spec_registrations();
                assert(regs[regs.len() - 1] == spec_message_registration::<M>());
            }
        }
        r
    }

    /// Finds the tag for a message body type.
    ///
    /// Slow, as it uses a hash map look up; call it once per producer and
    /// body type and cache the tag rather than on the critical path.
    pub fn find_fixed_size_message_body_compressed_type_identifier<M: Message>(&self) -> (r:
        Option<CompressedTypeIdentifier>)
        requires
            self.wf(),
        ensures
            match r {
                Some(tag) => {
                    &&& 0 <= tag.spec_index() < self.spec_registrations().len()
                    &&& self.spec_registrations()[tag.spec_index()].type_identifier
                        == M::spec_type_identifier()
                    &&& spec_message_is_registered_in::<M>(*self) ==> self.spec_registrations()[tag.spec_index()]
                        == spec_message_registration::<M>()
                },
                None => !self.spec_is_registered(M::spec_type_identifier()),
            },
    {
        let r = self.find_fixed_size_message_body_compressed_type_identifier_from_type_identifier(
            M::type_identifier(),
        );
        proof {
            if r is Some && spec_message_is_registered_in::<M>(*self) {
                let tag = r.unwrap().spec_index();
                let i = choose|i: int|
                    0 <= i < self.spec_registrations().len()
                        && #[trigger] self.spec_registrations()[i]
                        == spec_message_registration::<M>();
                self.lemma_distinct_type_identifiers();
                assert(self.spec_registrations()[i].type_identifier
                    == M::spec_type_identifier());
                assert(i == tag);
            }
        }
        r
    }

    /// Finds the tag registered for a type identifier.
    ///
    /// Slow, as it uses a hash map look up; call it once per producer and
    /// body type and cache the tag rather than on the critical path.
    pub fn find_fixed_size_message_body_compressed_type_identifier_from_type_identifier(
        &self,
        type_identifier: u64,
    ) -> (r: Option<CompressedTypeIdentifier>)
        requires
            self.wf(),
        ensures
            match r {
                Some(tag) => {
                    &&& 0 <= tag.spec_index() < self.spec_registrations().len()
                    &&& self.spec_registrations()[tag.spec_index()].type_identifier
                        == type_identifier
                },
                None => !self.spec_is_registered(type_identifier),
            },
    {
        let looked_up = type_identifier_map_get(
            &self.type_identifier_to_compressed_type_identifier,
            type_identifier,
        );
        match looked_up {
            Some(tag_value) => {
                proof {
                    assert(self.spec_lookup().dom().contains(type_identifier));
                    assert(tag_value == self.spec_lookup()[type_identifier]);
                    assert((self.spec_lookup()[type_identifier] as int)
                        < self.spec_registrations().len());
                }
                Some(CompressedTypeIdentifier::from_index(tag_value))
            },
            None => {
                proof {
                    if self.spec_is_registered(type_identifier) {
                        let i = choose|i: int|
                            0 <= i < self.spec_registrations().len() && #[trigger] self.spec_registrations()[i].type_identifier
                                == type_identifier;
                        assert(self.spec_lookup().dom().contains(type_identifier));
                    }
                }
                None
            },
        }
    }

    /// The registration a tag refers to.
    ///
    /// Constant-time; the caller keeps the tag one this table handed out.
    pub fn entry(&self, compressed_type_identifier: CompressedTypeIdentifier) -> (r:
        BodyTypeRegistration)
        requires
            self.wf(),
            compressed_type_identifier.spec_index() < self.spec_registrations().len(),
        ensures
            r == self.spec_registrations()[compressed_type_identifier.spec_index()],
            valid_registration(r),
    {
        registration_table_get(&self.registrations, compressed_type_identifier.index())
    }

    /// How many body types are registered.
    pub fn number_of_registrations(&self) -> (r: usize)
        requires
            self.wf(),
        ensures
            r == self.spec_registrations().len(),
    {
        registration_table_len(&self.registrations)
    }

    /// The byte budget for a ring that should hold `preferred` messages of
    /// the worst-case framed size over everything registered.
    pub fn queue_size_in_bytes(&self, preferred_maximum_number_of_elements_of_largest_possible_fixed_size_message_body: usize) -> (r: usize)
        requires
            self.wf(),
            self.spec_largest_possible_message()
                * preferred_maximum_number_of_elements_of_largest_possible_fixed_size_message_body
                <= usize::MAX,
        ensures
            r == self.spec_largest_possible_message()
                * preferred_maximum_number_of_elements_of_largest_possible_fixed_size_message_body,
    {
        self.largest_possible_message
            * preferred_maximum_number_of_elements_of_largest_possible_fixed_size_message_body
    }

    /// Calls the handler registered for this tag, then the destructor, in
    /// that order; the destructor runs even when the handler fails.
    ///
    /// The event log pins the order down: the handler's event precedes the
    /// destructor's.
    pub fn call_and_drop_in_place<D: MessageDispatch>(
        &self,
        compressed_type_identifier: CompressedTypeIdentifier,
        message_body: &Vec<u8>,
        dispatcher: &mut D,
    ) -> (r: Result<(), D::DequeuedMessageProcessingError>)
        ensures
            final(dispatcher).handled() == old(dispatcher).handled().push(
                (compressed_type_identifier.spec_index() as u8, message_body@, r is Ok),
            ),
            final(dispatcher).dropped() == old(dispatcher).dropped().push(
                (compressed_type_identifier.spec_index() as u8, message_body@),
            ),
            final(dispatcher).events() == old(dispatcher).events().push(
                (DispatchEvent::Handled {
                    compressed_type_identifier: compressed_type_identifier.spec_index() as u8,
                    message_body: message_body@,
                    ok: r is Ok,
                }),
            ).push(
                (DispatchEvent::Dropped {
                    compressed_type_identifier: compressed_type_identifier.spec_index() as u8,
                    message_body: message_body@,
                }),
            ),
    {
        let result = dispatcher.handle_message(compressed_type_identifier, message_body);
        Self::drop_message(compressed_type_identifier, message_body, dispatcher);
        result
    }

    /// Calls only the destructor registered for this tag, as the teardown
    /// drain does.
    pub fn drop_in_place<D: MessageDispatch>(
        &self,
        compressed_type_identifier: CompressedTypeIdentifier,
        message_body: &Vec<u8>,
        dispatcher: &mut D,
    )
        ensures
            final(dispatcher).dropped() == old(dispatcher).dropped().push(
                (compressed_type_identifier.spec_index() as u8, message_body@),
            ),
            final(dispatcher).handled() == old(dispatcher).handled(),
            final(dispatcher).events() == old(dispatcher).events().push(
                (DispatchEvent::Dropped {
                    compressed_type_identifier: compressed_type_identifier.spec_index() as u8,
                    message_body: message_body@,
                }),
            ),
    {
        Self::drop_message(compressed_type_identifier, message_body, dispatcher);
    }

    /// Destroys one message body through the dispatch table.
    pub fn drop_message<D: MessageDispatch>(
        compressed_type_identifier: CompressedTypeIdentifier,
        message_body: &Vec<u8>,
        dispatcher: &mut D,
    )
        ensures
            final(dispatcher).dropped() == old(dispatcher).dropped().push(
                (compressed_type_identifier.spec_index() as u8, message_body@),
            ),
            final(dispatcher).handled() == old(dispatcher).handled(),
            final(dispatcher).events() == old(dispatcher).events().push(
                (DispatchEvent::Dropped {
                    compressed_type_identifier: compressed_type_identifier.spec_index() as u8,
                    message_body: message_body@,
                }),
            ),
    {
        dispatcher.drop_message(compressed_type_identifier, message_body);
    }
}

impl Default for MessageHandlers {
    /// An empty table: no registrations, and a worst-case framed size of one
    /// bare header.
    fn default() -> (r: Self)
        ensures
            r.wf(),
            r.spec_registrations() == Seq::<BodyTypeRegistration>::empty(),
            r.spec_largest_possible_message() == 4,
    {
        let r = MessageHandlers {
            registrations: registration_table_new(),
            type_identifier_to_compressed_type_identifier: type_identifier_map_new(),
            largest_possible_message: smallest_possible_total_message_size_including_message_header(),
        };
        r
    }
}

} // verus!
