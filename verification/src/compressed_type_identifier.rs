//! The compact 8-bit type tag handed out at registration time.

use vstd::prelude::*;

verus! {

/// A compressed type identifier is more efficient to use than a full type
/// identifier, but can only be used for up to 255 types within one handlers
/// table.
///
/// Tags are assigned monotonically starting at 0; two tags are equal if and
/// only if they refer to the same body type within the same table.
#[derive(Clone, Copy, PartialEq, Eq, Structural, Debug, Hash)]
pub struct CompressedTypeIdentifier(pub u8);

/// One more than the largest tag value a table may hand out: tables hold at
/// most 255 registrations, leaving tag value 255 free as a potential skip
/// marker.
pub const COMPRESSED_TYPE_IDENTIFIER_EXCLUSIVE_MAXIMUM: usize = 255;

impl CompressedTypeIdentifier {
    /// The tag's value, as a mathematical integer.
    pub open spec fn spec_index(self) -> int {
        self.0 as int
    }

    /// The tag's value, used to index the dense registration table.
    pub fn index(self) -> (r: usize)
        ensures
            r == self.spec_index(),
    {
        self.0 as usize
    }

    /// The tag that the next registration will receive, given how many
    /// registrations a table currently holds.
    pub fn next(current_number_of_registrations: usize) -> (r: Self)
        requires
            current_number_of_registrations < COMPRESSED_TYPE_IDENTIFIER_EXCLUSIVE_MAXIMUM,
        ensures
            r.spec_index() == current_number_of_registrations,
    {
        CompressedTypeIdentifier(current_number_of_registrations as u8)
    }

    /// Reconstructs a tag from its value; tags are only meaningful for values
    /// a table has actually handed out.
    pub fn from_index(index: u8) -> (r: Self)
        requires
            index < COMPRESSED_TYPE_IDENTIFIER_EXCLUSIVE_MAXIMUM,
        ensures
            r.spec_index() == index,
    {
        CompressedTypeIdentifier(index)
    }
}

} // verus!
