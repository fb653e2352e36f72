use vstd::prelude::*;

verus! {

/// One typed cell of a decoded game-asset table. The upstream decoder
/// produces rows of such cells; every component of the pipeline reads
/// them positionally through the accessors below.
#[derive(Debug, Clone, PartialEq, Eq)]
pub enum Cell {
    Int(i32),
    UInt(u32),
    Byte(u8),
    Text(String),
}

/// One row of a decoded table: an ordered sequence of typed cells.
#[derive(Debug, Clone)]
pub struct Row {
    pub cells: Vec<Cell>,
}

/// The integer carried by a cell, when the cell is a signed integer.
pub open spec fn spec_int_value(c: Cell) -> Option<i32> {
    match c {
        Cell::Int(v) => Some(v),
        _ => None,
    }
}

/// The integer carried by a cell, when the cell is an unsigned integer.
pub open spec fn spec_uint_value(c: Cell) -> Option<u32> {
    match c {
        Cell::UInt(v) => Some(v),
        _ => None,
    }
}

/// The byte carried by a cell, when the cell is a byte.
pub open spec fn spec_byte_value(c: Cell) -> Option<u8> {
    match c {
        Cell::Byte(v) => Some(v),
        _ => None,
    }
}

/// The string carried by a cell, when the cell is a string.
pub open spec fn spec_string_value(c: Cell) -> Option<String> {
    match c {
        Cell::Text(s) => Some(s),
        _ => None,
    }
}

/// Reads a signed-integer cell. Any other cell kind is a structural
/// mismatch with the upstream schema, reported as `None`.
pub fn parse_int_value(value: &Cell) -> (r: Option<i32>)
    ensures
        r == spec_int_value(*value),
{
    match value {
        Cell::Int(v) => Some(*v),
        _ => None,
    }
}

/// Reads an unsigned-integer cell.
pub fn parse_uint_value(value: &Cell) -> (r: Option<u32>)
    ensures
        r == spec_uint_value(*value),
{
    match value {
        Cell::UInt(v) => Some(*v),
        _ => None,
    }
}

/// Reads a byte cell.
pub fn parse_byte_value(value: &Cell) -> (r: Option<u8>)
    ensures
        r == spec_byte_value(*value),
{
    match value {
        Cell::Byte(v) => Some(*v),
        _ => None,
    }
}

/// Reads a string cell.
pub fn parse_string_value(value: &Cell) -> (r: Option<String>)
    ensures
        r == spec_string_value(*value),
{
    match value {
        Cell::Text(s) => Some(s.clone()),
        _ => None,
    }
}

/// Whether row `r` has a signed-integer cell at column `i`.
pub open spec fn has_int_at(r: Row, i: int) -> bool {
    &&& 0 <= i < r.cells@.len()
    &&& spec_int_value(r.cells@[i]) is Some
}

/// The signed integer at column `i` of row `r`.
pub open spec fn int_at(r: Row, i: int) -> i32 {
    spec_int_value(r.cells@[i])->0
}

/// Whether row `r` has a byte cell at column `i`.
pub open spec fn has_byte_at(r: Row, i: int) -> bool {
    &&& 0 <= i < r.cells@.len()
    &&& spec_byte_value(r.cells@[i]) is Some
}

/// The byte at column `i` of row `r`.
pub open spec fn byte_at(r: Row, i: int) -> u8 {
    spec_byte_value(r.cells@[i])->0
}

/// Reads the signed-integer cell at column `i`, if the row has one there.
pub fn row_int(r: &Row, i: usize) -> (res: Option<i32>)
    ensures
        match res {
            Some(v) => has_int_at(*r, i as int) && v == int_at(*r, i as int),
            None => !has_int_at(*r, i as int),
        },
{
    if i < r.cells.len() {
        parse_int_value(&r.cells[i])
    } else {
        None
    }
}

/// Whether row `r` has a string cell at column `i`.
pub open spec fn has_text_at(r: Row, i: int) -> bool {
    &&& 0 <= i < r.cells@.len()
    &&& spec_string_value(r.cells@[i]) is Some
}

/// The string at column `i` of row `r`.
pub open spec fn text_at(r: Row, i: int) -> String {
    spec_string_value(r.cells@[i])->0
}

/// Reads the string cell at column `i`, if the row has one there.
pub fn row_text(r: &Row, i: usize) -> (res: Option<String>)
    ensures
        match res {
            Some(v) => has_text_at(*r, i as int) && v == text_at(*r, i as int),
            None => !has_text_at(*r, i as int),
        },
{
    if i < r.cells.len() {
        parse_string_value(&r.cells[i])
    } else {
        None
    }
}

/// Reads the byte cell at column `i`, if the row has one there.
pub fn row_byte(r: &Row, i: usize) -> (res: Option<u8>)
    ensures
        match res {
            Some(v) => has_byte_at(*r, i as int) && v == byte_at(*r, i as int),
            None => !has_byte_at(*r, i as int),
        },
{
    if i < r.cells.len() {
        parse_byte_value(&r.cells[i])
    } else {
        None
    }
}

/// A sequence is a prefix of itself.
pub proof fn lemma_prefix_refl<A>(s: Seq<A>)
    ensures
        s.is_prefix_of(s),
{
    assert(s =~= s.subrange(0, s.len() as int));
}

/// The empty sequence is a prefix of every sequence.
pub proof fn lemma_empty_prefix<A>(s: Seq<A>)
    ensures
        Seq::<A>::empty().is_prefix_of(s),
{
    assert(Seq::<A>::empty() =~= s.subrange(0, 0));
}

/// Prefix-of is transitive.
pub proof fn lemma_prefix_trans<A>(a: Seq<A>, b: Seq<A>, c: Seq<A>)
    requires
        a.is_prefix_of(b),
        b.is_prefix_of(c),
    ensures
        a.is_prefix_of(c),
{
    assert(a =~= c.subrange(0, a.len() as int));
}

} // verus!
