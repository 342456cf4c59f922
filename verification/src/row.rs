//! The fixed-width record shape: a `Row` of an id and two text fields,
//! together with the byte-budget constants that the page layout is derived
//! from.

use vstd::prelude::*;

verus! {

/// Bytes reserved for the `id` field (an unsigned 32-bit integer).
pub const ID_SIZE: usize = 4;

/// Byte budget for the `username` field.
pub const USERNAME_SIZE: usize = 32;

/// Byte budget for the `email` field.
pub const EMAIL_SIZE: usize = 255;

/// Serialized size of one row; every stored row fits this budget.
pub const ROW_SIZE: usize = ID_SIZE + USERNAME_SIZE + EMAIL_SIZE;

/// The byte length of a text value under UTF-8 encoding, which is what the
/// field budgets are measured in.
pub open spec fn text_byte_len(s: Seq<char>) -> nat {
    vstd::utf8::encode_utf8(s).len()
}

/// The mathematical model of a row: the id together with the two text
/// fields as character sequences.
pub struct RowV {
    pub id: u32,
    pub username: Seq<char>,
    pub email: Seq<char>,
}

/// One fixed-shape record. Construction from raw field values never fails;
/// field validation is the parser's job.
pub struct Row {
    pub id: u32,
    pub username: String,
    pub email: String,
}

impl View for Row {
    type V = RowV;

    open spec fn view(&self) -> RowV {
        RowV { id: self.id, username: self.username@, email: self.email@ }
    }
}

/// A row respects the field byte budgets. Stored rows all satisfy this, so
/// the fixed serialized size is an honest bound.
pub open spec fn row_fits(r: RowV) -> bool {
    &&& text_byte_len(r.username) <= USERNAME_SIZE
    &&& text_byte_len(r.email) <= EMAIL_SIZE
}

impl Row {
    /// Builds a row from its raw field values; never fails.
    pub fn new(id: u32, username: String, email: String) -> (r: Row)
        ensures
            r@ == (RowV { id: id, username: username@, email: email@ }),
    {
        Row { id, username, email }
    }

    /// An independent copy carrying the same field values.
    pub fn duplicate(&self) -> (r: Row)
        ensures
            r@ == self@,
    {
        Row { id: self.id, username: self.username.clone(), email: self.email.clone() }
    }
}

} // verus!
