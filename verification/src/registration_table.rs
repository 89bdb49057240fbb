//! The dense, fixed-capacity table of body-type registrations, backed by an
//! `arrayvec::ArrayVec` so that registration allocates nothing.

use vstd::prelude::*;

verus! {

/// What one registration records of its body type: a process-unique type
/// identifier, and the body's size and alignment.
#[derive(Clone, Copy, PartialEq, Eq, Structural, Debug)]
pub struct BodyTypeRegistration {
    /// The process-unique identifier of the body type, standing for the
    /// language's runtime type identifier.
    pub type_identifier: u64,
    /// The body's size in bytes.
    pub body_size: usize,
    /// The body's alignment in bytes.
    pub body_alignment: usize,
}

/// The registrations in insertion order; the position of a registration is
/// its tag's value.
///
/// The backing store is a fixed-capacity vector of 255 entries, one per
/// possible tag.
#[verifier::external_body]
pub struct RegistrationTable {
    entries: arrayvec::ArrayVec<BodyTypeRegistration, 255>,
}

/// What the table holds, in insertion order.
pub uninterp spec fn registration_entries(table: RegistrationTable) -> Seq<BodyTypeRegistration>;

/// Relies on `arrayvec::ArrayVec::new`: a freshly created vector is empty.
#[verifier::external_body]
pub(crate) fn registration_table_new() -> (r: RegistrationTable)
    ensures
        registration_entries(r) == Seq::<BodyTypeRegistration>::empty(),
{
    RegistrationTable { entries: arrayvec::ArrayVec::new() }
}

/// Relies on `arrayvec::ArrayVec::len`: the number of elements held.
#[verifier::external_body]
pub(crate) fn registration_table_len(table: &RegistrationTable) -> (r: usize)
    ensures
        r == registration_entries(*table).len(),
{
    table.entries.len()
}

/// Relies on `arrayvec::ArrayVec::push`: appends the element at the end; the
/// vector is kept strictly below its capacity of 255, so the push cannot
/// panic.
#[verifier::external_body]
pub(crate) fn registration_table_push(
    table: &mut RegistrationTable,
    registration: BodyTypeRegistration,
)
    requires
        registration_entries(*old(table)).len() < 255,
    ensures
        registration_entries(*final(table)) == registration_entries(*old(table)).push(
            registration,
        ),
{
    table.entries.push(registration)
}

/// Relies on indexing through `arrayvec::ArrayVec`'s slice view: the element
/// at `index`, which the caller keeps in bounds.
#[verifier::external_body]
pub(crate) fn registration_table_get(table: &RegistrationTable, index: usize) -> (r:
    BodyTypeRegistration)
    requires
        index < registration_entries(*table).len(),
    ensures
        r == registration_entries(*table)[index as int],
{
    table.entries[index]
}

} // verus!
