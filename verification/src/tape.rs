//! The tape: a flattened, position-indexed encoding of parsed JSON.
//!
//! Each element occupies one slot. A `StartObject(end)` or `StartList(end)`
//! element records the position `end` of its matching close marker, so that
//! a traversal can skip a whole subtree without walking it.

use vstd::prelude::*;

verus! {

/// One slot of the tape.
#[derive(Clone, Copy, Debug, PartialEq, Eq)]
pub enum TapeElement {
    /// Begins a JSON object; the payload is the position of the matching
    /// `EndObject`, so the object's children occupy the positions in between.
    StartObject(u32),
    /// Closes a JSON object; the payload is the position of the matching
    /// `StartObject`.
    EndObject(u32),
    /// Begins a JSON array; the payload is the position of the matching
    /// `EndList`.
    StartList(u32),
    /// Closes a JSON array; the payload is the position of the matching
    /// `StartList`.
    EndList(u32),
    /// A string scalar; the payload indexes the tape's string table.
    String(u32),
    /// A numeric scalar; the payload indexes the tape's string table, which
    /// holds the source's numeric text verbatim.
    Number(u32),
    /// The literal `true`.
    True,
    /// The literal `false`.
    False,
    /// The literal `null`.
    Null,
}

/// Whether an element may stand at the starting position of a JSON value.
/// Close markers never do: meeting one there is a structural fault.
pub open spec fn is_value_element(e: TapeElement) -> bool {
    !(e is EndObject || e is EndList)
}

/// The position immediately following the value that starts at `pos`:
/// one past the close marker for objects and arrays, the next slot for
/// scalars.
pub open spec fn spec_next(t: Seq<TapeElement>, pos: int) -> int {
    if 0 <= pos < t.len() {
        match t[pos] {
            TapeElement::StartObject(end) => end + 1,
            TapeElement::StartList(end) => end + 1,
            _ => pos + 1,
        }
    } else {
        pos + 1
    }
}

/// A structural fault met while traversing the tape: `Tape::next` was asked
/// to advance past a position that does not start a value. The text names
/// the decoding context in which the fault arose.
#[derive(Debug)]
pub enum JsonError {
    TapeStructure(String),
}

/// A flattened JSON document (or several), plus the side table that holds
/// the text of its string and number scalars.
pub struct Tape {
    /// The elements, indexed by position.
    pub elements: Vec<TapeElement>,
    /// The string table; `String(idx)` and `Number(idx)` elements index it.
    pub strings: Vec<String>,
}

impl Tape {
    /// The elements as a mathematical sequence.
    pub open spec fn elems(self) -> Seq<TapeElement> {
        self.elements@
    }

    /// The string table as a sequence of character sequences.
    pub open spec fn strs(self) -> Seq<Seq<char>> {
        Seq::new(self.strings@.len(), |i: int| self.strings@[i]@)
    }

    /// Every position must be addressable by a `u32`.
    pub open spec fn wf(self) -> bool {
        self.elements@.len() <= u32::MAX
    }

    /// The element at `pos`.
    pub fn get(&self, pos: u32) -> (e: TapeElement)
        requires
            (pos as int) < self.elems().len(),
        ensures
            e == self.elems()[pos as int],
    {
        self.elements[pos as usize]
    }

    /// The text of the string-table entry `idx`.
    pub fn get_string(&self, idx: u32) -> (r: &str)
        requires
            (idx as int) < self.strs().len(),
        ensures
            r@ == self.strs()[idx as int],
    {
        self.strings[idx as usize].as_str()
    }

    /// Advances past the value that starts at `cur_idx`, returning the
    /// position of the next sibling. Fails when no value starts there (the
    /// element is a close marker) or when the recorded subtree end leaves
    /// `u32` range; `expected` names the decoding context in the error.
    pub fn next(&self, cur_idx: u32, expected: &str) -> (r: Result<u32, JsonError>)
        requires
            (cur_idx as int) < self.elems().len(),
            self.wf(),
        ensures
            (r is Ok) == (is_value_element(self.elems()[cur_idx as int])
                && spec_next(self.elems(), cur_idx as int) <= u32::MAX),
            r matches Ok(n) ==> n == spec_next(self.elems(), cur_idx as int),
    {
        match self.get(cur_idx) {
            TapeElement::EndObject(_) | TapeElement::EndList(_) => {
                Err(JsonError::TapeStructure(expected.to_owned()))
            },
            TapeElement::StartObject(end) | TapeElement::StartList(end) => {
                if end == u32::MAX {
                    Err(JsonError::TapeStructure(expected.to_owned()))
                } else {
                    Ok(end + 1)
                }
            },
            _ => Ok(cur_idx + 1),
        }
    }
}

} // verus!
