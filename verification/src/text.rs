//! Canonical JSON text of a tape value, as a mathematical function.
//!
//! `serialized` gives, for a well-formed value rooted at a tape position,
//! the exact character sequence that the decoder emits: the source text with
//! every insignificant whitespace removed, string scalars between double
//! quotes, numeric text verbatim.

use crate::tape::{spec_next, TapeElement};
use vstd::prelude::*;

verus! {

/// Well-formedness of the value that starts at `pos`: the element starts a
/// value, scalar payloads index the string table, and the children of an
/// object or array fill the recorded range exactly, objects alternating
/// string keys and values.
pub open spec fn wf_value(t: Seq<TapeElement>, st: Seq<Seq<char>>, pos: int) -> bool
    decreases t.len() - pos, 0int,
{
    if !(0 <= pos < t.len()) {
        false
    } else {
        match t[pos] {
            TapeElement::StartObject(end) => pos < end && end < t.len()
                && wf_fields(t, st, pos + 1, end as int, true),
            TapeElement::StartList(end) => pos < end && end < t.len()
                && wf_items(t, st, pos + 1, end as int),
            TapeElement::String(idx) => idx < st.len(),
            TapeElement::Number(idx) => idx < st.len(),
            TapeElement::True => true,
            TapeElement::False => true,
            TapeElement::Null => true,
            TapeElement::EndObject(_) => false,
            TapeElement::EndList(_) => false,
        }
    }
}

/// Well-formedness of an object's children in `[from, end)`: keys (string
/// elements) and values strictly alternate starting with a key, each child
/// is well-formed, consecutive children abut, and the walk lands exactly on
/// `end` just after a value (`key` flags that a key is expected next).
pub open spec fn wf_fields(
    t: Seq<TapeElement>,
    st: Seq<Seq<char>>,
    from: int,
    end: int,
    key: bool,
) -> bool
    decreases t.len() - from, 1int,
{
    if !(0 <= from && from <= end && end <= t.len()) {
        false
    } else if from == end {
        key
    } else if spec_next(t, from) <= from || spec_next(t, from) > end {
        false
    } else {
        wf_value(t, st, from) && (key ==> t[from] is String)
            && wf_fields(t, st, spec_next(t, from), end, !key)
    }
}

/// Well-formedness of an array's children in `[from, end)`: each child is
/// well-formed, consecutive children abut, and the walk lands exactly on
/// `end`.
pub open spec fn wf_items(t: Seq<TapeElement>, st: Seq<Seq<char>>, from: int, end: int) -> bool
    decreases t.len() - from, 1int,
{
    if !(0 <= from && from <= end && end <= t.len()) {
        false
    } else if from == end {
        true
    } else if spec_next(t, from) <= from || spec_next(t, from) > end {
        false
    } else {
        wf_value(t, st, from) && wf_items(t, st, spec_next(t, from), end)
    }
}

/// The canonical JSON text of the value that starts at `pos`.
pub open spec fn serialized(t: Seq<TapeElement>, st: Seq<Seq<char>>, pos: int) -> Seq<char>
    decreases t.len() - pos, 0int,
{
    if !(0 <= pos < t.len()) {
        Seq::empty()
    } else {
        match t[pos] {
            TapeElement::StartObject(end) => {
                if pos < end && end < t.len() {
                    seq!['{'] + ser_fields(t, st, pos + 1, end as int, true) + seq!['}']
                } else {
                    Seq::empty()
                }
            },
            TapeElement::StartList(end) => {
                if pos < end && end < t.len() {
                    seq!['['] + ser_items(t, st, pos + 1, end as int) + seq![']']
                } else {
                    Seq::empty()
                }
            },
            TapeElement::String(idx) => {
                if idx < st.len() {
                    seq!['"'] + st[idx as int] + seq!['"']
                } else {
                    Seq::empty()
                }
            },
            TapeElement::Number(idx) => {
                if idx < st.len() {
                    st[idx as int]
                } else {
                    Seq::empty()
                }
            },
            TapeElement::True => seq!['t', 'r', 'u', 'e'],
            TapeElement::False => seq!['f', 'a', 'l', 's', 'e'],
            TapeElement::Null => seq!['n', 'u', 'l', 'l'],
            TapeElement::EndObject(_) => Seq::empty(),
            TapeElement::EndList(_) => Seq::empty(),
        }
    }
}

/// The text of an object's children in `[from, end)`: each child's text,
/// with `:` after a key and `,` after a value, and no separator after the
/// last child (`key` flags that the child at `from` is a key).
pub open spec fn ser_fields(
    t: Seq<TapeElement>,
    st: Seq<Seq<char>>,
    from: int,
    end: int,
    key: bool,
) -> Seq<char>
    decreases t.len() - from, 1int,
{
    if !(0 <= from && from < end && end <= t.len()) {
        Seq::empty()
    } else if spec_next(t, from) <= from || spec_next(t, from) >= end {
        serialized(t, st, from)
    } else {
        serialized(t, st, from) + seq![if key { ':' } else { ',' }]
            + ser_fields(t, st, spec_next(t, from), end, !key)
    }
}

/// The text of an array's children in `[from, end)`: each child's text,
/// with `,` between consecutive children and none after the last.
pub open spec fn ser_items(t: Seq<TapeElement>, st: Seq<Seq<char>>, from: int, end: int) -> Seq<
    char,
>
    decreases t.len() - from, 1int,
{
    if !(0 <= from && from < end && end <= t.len()) {
        Seq::empty()
    } else if spec_next(t, from) <= from || spec_next(t, from) >= end {
        serialized(t, st, from)
    } else {
        serialized(t, st, from) + seq![','] + ser_items(t, st, spec_next(t, from), end)
    }
}

/// The output row for the value at position `pos`: a null row when the
/// decoder is nullable and the element is `Null`, else the canonical text.
pub open spec fn row_text(
    t: Seq<TapeElement>,
    st: Seq<Seq<char>>,
    nullable: bool,
    pos: int,
) -> Option<Seq<char>> {
    if nullable && 0 <= pos < t.len() && t[pos] is Null {
        None
    } else {
        Some(serialized(t, st, pos))
    }
}

/// The whole output for a batch of row positions, one row per position, in
/// input order.
pub open spec fn decoded_rows(
    t: Seq<TapeElement>,
    st: Seq<Seq<char>>,
    nullable: bool,
    positions: Seq<u32>,
) -> Seq<Option<Seq<char>>> {
    Seq::new(positions.len(), |i: int| row_text(t, st, nullable, positions[i] as int))
}

/// The UTF-8 byte length of one output row; a null row stores no bytes.
pub open spec fn row_bytes(
    t: Seq<TapeElement>,
    st: Seq<Seq<char>>,
    nullable: bool,
    pos: int,
) -> int {
    match row_text(t, st, nullable, pos) {
        None => 0,
        Some(text) => vstd::utf8::encode_utf8(text).len() as int,
    }
}

/// The total UTF-8 byte length of a batch's output rows.
pub open spec fn rows_bytes(
    t: Seq<TapeElement>,
    st: Seq<Seq<char>>,
    nullable: bool,
    positions: Seq<u32>,
) -> int
    decreases positions.len(),
{
    if positions.len() == 0 {
        0
    } else {
        row_bytes(t, st, nullable, positions[0] as int) + rows_bytes(
            t,
            st,
            nullable,
            positions.drop_first(),
        )
    }
}

/// Null handling: a nullable column's row whose element is `Null` becomes a
/// null output row, never the text `null`; without nullability the same row
/// becomes exactly the four-character text `null`.
pub proof fn lemma_null_handling(t: Seq<TapeElement>, st: Seq<Seq<char>>, pos: int)
    requires
        0 <= pos < t.len(),
        t[pos] is Null,
    ensures
        row_text(t, st, true, pos) is None,
        row_text(t, st, false, pos) == Some(seq!['n', 'u', 'l', 'l']),
{
}

/// Nesting correctness: an object with zero keys serializes to exactly
/// `{}`, with no stray punctuation.
pub proof fn lemma_empty_object(t: Seq<TapeElement>, st: Seq<Seq<char>>, pos: int, end: u32)
    requires
        0 <= pos < t.len(),
        t[pos] == TapeElement::StartObject(end),
        end == pos + 1,
        (end as int) < t.len(),
    ensures
        serialized(t, st, pos) == seq!['{', '}'],
{
    assert(ser_fields(t, st, pos + 1, end as int, true) =~= Seq::<char>::empty());
    assert(serialized(t, st, pos) =~= seq!['{', '}']);
}

/// Nesting correctness: an array with zero elements serializes to exactly
/// `[]`, with no stray punctuation.
pub proof fn lemma_empty_list(t: Seq<TapeElement>, st: Seq<Seq<char>>, pos: int, end: u32)
    requires
        0 <= pos < t.len(),
        t[pos] == TapeElement::StartList(end),
        end == pos + 1,
        (end as int) < t.len(),
    ensures
        serialized(t, st, pos) == seq!['[', ']'],
{
    assert(ser_items(t, st, pos + 1, end as int) =~= Seq::<char>::empty());
    assert(serialized(t, st, pos) =~= seq!['[', ']']);
}

/// Key/value alternation: in a well-formed object's children, the first
/// pair's key is followed by `:` and its value; `,` follows only where
/// another pair follows, so no separator ever trails the last pair.
pub proof fn lemma_field_alternation(t: Seq<TapeElement>, st: Seq<Seq<char>>, from: int, end: int)
    requires
        wf_fields(t, st, from, end, true),
        from < end,
    ensures
        ({
            let key_end = spec_next(t, from);
            let pair_end = spec_next(t, key_end);
            &&& key_end < end
            &&& ser_fields(t, st, from, end, true) == serialized(t, st, from) + seq![':']
                + serialized(t, st, key_end) + (if pair_end == end {
                Seq::<char>::empty()
            } else {
                seq![','] + ser_fields(t, st, pair_end, end, true)
            })
        }),
{
    let key_end = spec_next(t, from);
    let pair_end = spec_next(t, key_end);
    assert(wf_fields(t, st, key_end, end, false));
    assert(key_end < end);
    assert(ser_fields(t, st, from, end, true) == serialized(t, st, from) + seq![':'] + ser_fields(
        t,
        st,
        key_end,
        end,
        false,
    ));
    if pair_end == end {
        assert(ser_fields(t, st, key_end, end, false) == serialized(t, st, key_end));
        assert(serialized(t, st, from) + seq![':'] + serialized(t, st, key_end) + Seq::<
            char,
        >::empty() =~= serialized(t, st, from) + seq![':'] + serialized(t, st, key_end));
    } else {
        assert(ser_fields(t, st, key_end, end, false) == serialized(t, st, key_end) + seq![',']
            + ser_fields(t, st, pair_end, end, true));
        assert(serialized(t, st, from) + seq![':'] + (serialized(t, st, key_end) + seq![',']
            + ser_fields(t, st, pair_end, end, true)) =~= serialized(t, st, from) + seq![':']
            + serialized(t, st, key_end) + (seq![','] + ser_fields(t, st, pair_end, end, true)));
    }
}

/// Numeric fidelity: a number's stored source text is reproduced verbatim,
/// with no reformatting.
pub proof fn lemma_number_verbatim(t: Seq<TapeElement>, st: Seq<Seq<char>>, pos: int, idx: u32)
    requires
        0 <= pos < t.len(),
        t[pos] == TapeElement::Number(idx),
        (idx as int) < st.len(),
    ensures
        serialized(t, st, pos) == st[idx as int],
{
}

/// Round-trip fidelity of string scalars: the stored literal text is
/// reproduced unchanged between two double quotes.
pub proof fn lemma_string_quoted(t: Seq<TapeElement>, st: Seq<Seq<char>>, pos: int, idx: u32)
    requires
        0 <= pos < t.len(),
        t[pos] == TapeElement::String(idx),
        (idx as int) < st.len(),
    ensures
        serialized(t, st, pos) == seq!['"'] + st[idx as int] + seq!['"'],
{
}

/// Extending a prefix of a batch by one position adds that row's bytes.
pub proof fn lemma_rows_bytes_take_succ(
    t: Seq<TapeElement>,
    st: Seq<Seq<char>>,
    nullable: bool,
    positions: Seq<u32>,
    i: int,
)
    requires
        0 <= i < positions.len(),
    ensures
        rows_bytes(t, st, nullable, positions.take(i + 1)) == rows_bytes(
            t,
            st,
            nullable,
            positions.take(i),
        ) + row_bytes(t, st, nullable, positions[i] as int),
    decreases i,
{
    if i == 0 {
        assert(positions.take(0) =~= Seq::<u32>::empty());
        assert(positions.take(1).drop_first() =~= Seq::<u32>::empty());
    } else {
        lemma_rows_bytes_take_succ(t, st, nullable, positions.drop_first(), i - 1);
        assert(positions.take(i + 1).drop_first() =~= positions.drop_first().take(i));
        assert(positions.take(i).drop_first() =~= positions.drop_first().take(i - 1));
    }
}

/// A batch's rows never store a negative number of bytes.
pub proof fn lemma_rows_bytes_nonneg(
    t: Seq<TapeElement>,
    st: Seq<Seq<char>>,
    nullable: bool,
    positions: Seq<u32>,
)
    ensures
        rows_bytes(t, st, nullable, positions) >= 0,
    decreases positions.len(),
{
    if positions.len() > 0 {
        lemma_rows_bytes_nonneg(t, st, nullable, positions.drop_first());
    }
}

/// A prefix of a batch stores no more bytes than the whole batch.
pub proof fn lemma_rows_bytes_take_le(
    t: Seq<TapeElement>,
    st: Seq<Seq<char>>,
    nullable: bool,
    positions: Seq<u32>,
    i: int,
)
    requires
        0 <= i <= positions.len(),
    ensures
        rows_bytes(t, st, nullable, positions.take(i)) <= rows_bytes(t, st, nullable, positions),
    decreases positions.len() - i,
{
    if i == positions.len() {
        assert(positions.take(i) =~= positions);
    } else {
        lemma_rows_bytes_take_succ(t, st, nullable, positions, i);
        lemma_rows_bytes_take_le(t, st, nullable, positions, i + 1);
    }
}

} // verus!
