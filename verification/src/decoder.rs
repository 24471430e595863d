//! The textual-passthrough decoder: re-serializes arbitrary JSON values
//! from a tape into canonical JSON text rows of a columnar string array.

use crate::columnar::{
    array_rows, builder_append_null, builder_append_value, builder_bytes, builder_finish,
    builder_new, builder_rows,
};
use crate::tape::{spec_next, JsonError, Tape, TapeElement};
use crate::text::{
    decoded_rows, lemma_rows_bytes_take_le, lemma_rows_bytes_take_succ, rows_bytes, ser_fields,
    ser_items, serialized, wf_fields, wf_items, wf_value,
};
use vstd::prelude::*;

verus! {

/// Decodes values of any JSON shape into text rows of a string column.
pub struct JsonArrayDecoder {
    is_nullable: bool,
}

impl JsonArrayDecoder {
    /// Whether a `Null` element at a row's start position becomes a null
    /// output row rather than the four-character text `null`.
    pub closed spec fn spec_is_nullable(self) -> bool {
        self.is_nullable
    }

    /// A decoder for a column; `is_nullable` says whether the column admits
    /// null rows.
    pub fn new(is_nullable: bool) -> (d: Self)
        ensures
            d.spec_is_nullable() == is_nullable,
    {
        Self { is_nullable }
    }

    /// Appends the canonical JSON text of the value rooted at `pos` to `s`.
    pub fn decode_int(&self, s: &mut String, tape: &Tape, pos: u32) -> (r: Result<(), JsonError>)
        requires
            tape.wf(),
            wf_value(tape.elems(), tape.strs(), pos as int),
        ensures
            r is Ok,
            final(s)@ == old(s)@ + serialized(tape.elems(), tape.strs(), pos as int),
        decreases tape.elems().len() - pos as int,
    {
        let ghost t = tape.elems();
        let ghost st = tape.strs();
        let ghost s0 = s@;
        match tape.get(pos) {
            TapeElement::StartObject(end) => {
                s.append("{");
                proof {
                    reveal_strlit("{");
                    assert(s@ =~= s0 + seq!['{']);
                }
                let mut cur_idx: u32 = pos + 1;
                let mut key: bool = true;
                while cur_idx < end
                    invariant
                        tape.wf(),
                        t == tape.elems(),
                        st == tape.strs(),
                        t[pos as int] == TapeElement::StartObject(end),
                        pos < end && (end as int) < t.len(),
                        pos < cur_idx && cur_idx <= end,
                        cur_idx < end ==> wf_fields(t, st, cur_idx as int, end as int, key),
                        s@ + ser_fields(t, st, cur_idx as int, end as int, key) == s0 + seq!['{']
                            + ser_fields(t, st, pos as int + 1, end as int, true),
                    decreases end as int - cur_idx as int,
                {
                    let ghost s_before = s@;
                    let ghost cur0 = cur_idx as int;
                    self.decode_int(s, tape, cur_idx)?;
                    proof {
                        assert(wf_value(t, st, cur0));
                        assert(crate::tape::is_value_element(t[cur0]));
                        assert(spec_next(t, cur0) <= end as int);
                    }
                    cur_idx = tape.next(cur_idx, "json")?;
                    proof {
                        assert(cur_idx as int == spec_next(t, cur0));
                    }
                    if cur_idx < end {
                        if key {
                            s.append(":");
                            proof {
                                reveal_strlit(":");
                                assert(s@ =~= s_before + serialized(t, st, cur0) + seq![':']);
                            }
                        } else {
                            s.append(",");
                            proof {
                                reveal_strlit(",");
                                assert(s@ =~= s_before + serialized(t, st, cur0) + seq![',']);
                            }
                        }
                        proof {
                            assert(ser_fields(t, st, cur0, end as int, key) == serialized(
                                t,
                                st,
                                cur0,
                            ) + seq![if key { ':' } else { ',' }] + ser_fields(
                                t,
                                st,
                                cur_idx as int,
                                end as int,
                                !key,
                            ));
                            assert(s@ + ser_fields(t, st, cur_idx as int, end as int, !key)
                                =~= s_before + ser_fields(t, st, cur0, end as int, key));
                        }
                        key = !key;
                    } else {
                        proof {
                            assert(ser_fields(t, st, cur0, end as int, key) == serialized(
                                t,
                                st,
                                cur0,
                            ));
                            assert(s@ + ser_fields(t, st, cur_idx as int, end as int, key)
                                =~= s_before + ser_fields(t, st, cur0, end as int, key));
                        }
                    }
                }
                s.append("}");
                proof {
                    reveal_strlit("}");
                    assert(ser_fields(t, st, end as int, end as int, key) =~= Seq::<char>::empty());
                    assert(s@ =~= s0 + serialized(t, st, pos as int));
                }
            },
            TapeElement::StartList(end) => {
                s.append("[");
                proof {
                    reveal_strlit("[");
                    assert(s@ =~= s0 + seq!['[']);
                }
                let mut cur_idx: u32 = pos + 1;
                while cur_idx < end
                    invariant
                        tape.wf(),
                        t == tape.elems(),
                        st == tape.strs(),
                        t[pos as int] == TapeElement::StartList(end),
                        pos < end && (end as int) < t.len(),
                        pos < cur_idx && cur_idx <= end,
                        cur_idx < end ==> wf_items(t, st, cur_idx as int, end as int),
                        s@ + ser_items(t, st, cur_idx as int, end as int) == s0 + seq!['[']
                            + ser_items(t, st, pos as int + 1, end as int),
                    decreases end as int - cur_idx as int,
                {
                    let ghost s_before = s@;
                    let ghost cur0 = cur_idx as int;
                    self.decode_int(s, tape, cur_idx)?;
                    proof {
                        assert(wf_value(t, st, cur0));
                        assert(crate::tape::is_value_element(t[cur0]));
                        assert(spec_next(t, cur0) <= end as int);
                    }
                    cur_idx = tape.next(cur_idx, "json")?;
                    proof {
                        assert(cur_idx as int == spec_next(t, cur0));
                    }
                    if cur_idx < end {
                        s.append(",");
                        proof {
                            reveal_strlit(",");
                            assert(ser_items(t, st, cur0, end as int) == serialized(t, st, cur0)
                                + seq![','] + ser_items(t, st, cur_idx as int, end as int));
                            assert(s@ + ser_items(t, st, cur_idx as int, end as int) =~= s_before
                                + ser_items(t, st, cur0, end as int));
                        }
                    } else {
                        proof {
                            assert(ser_items(t, st, cur0, end as int) == serialized(t, st, cur0));
                            assert(s@ + ser_items(t, st, cur_idx as int, end as int) =~= s_before
                                + ser_items(t, st, cur0, end as int));
                        }
                    }
                }
                s.append("]");
                proof {
                    reveal_strlit("]");
                    assert(ser_items(t, st, end as int, end as int) =~= Seq::<char>::empty());
                    assert(s@ =~= s0 + serialized(t, st, pos as int));
                }
            },
            TapeElement::String(idx) => {
                s.append("\"");
                s.append(tape.get_string(idx));
                s.append("\"");
                proof {
                    reveal_strlit("\"");
                    assert(s@ =~= s0 + serialized(t, st, pos as int));
                }
            },
            TapeElement::Number(idx) => {
                s.append(tape.get_string(idx));
            },
            TapeElement::True => {
                s.append("true");
                proof {
                    reveal_strlit("true");
                    assert(s@ =~= s0 + serialized(t, st, pos as int));
                }
            },
            TapeElement::False => {
                s.append("false");
                proof {
                    reveal_strlit("false");
                    assert(s@ =~= s0 + serialized(t, st, pos as int));
                }
            },
            TapeElement::Null => {
                s.append("null");
                proof {
                    reveal_strlit("null");
                    assert(s@ =~= s0 + serialized(t, st, pos as int));
                }
            },
            TapeElement::EndObject(_) => {
                vstd::pervasive::unreached::<()>()
            },
            TapeElement::EndList(_) => {
                vstd::pervasive::unreached::<()>()
            },
        }
        Ok(())
    }

    /// Decodes one batch: for each tape position, in order, appends one row
    /// to a fresh columnar string array — a null row where the column is
    /// nullable and the element is `Null`, else the value's canonical JSON
    /// text — and finishes the array. The batch's total text must stay
    /// within `i32` range, since the array records byte offsets as `i32`.
    pub fn decode(&self, tape: &Tape, pos: &[u32]) -> (r: Result<arrow_data::ArrayData, JsonError>)
        requires
            tape.wf(),
            forall|i: int|
                0 <= i < pos@.len() ==> wf_value(tape.elems(), tape.strs(), #[trigger] pos@[i] as int),
            rows_bytes(tape.elems(), tape.strs(), self.spec_is_nullable(), pos@) <= i32::MAX,
        ensures
            r matches Ok(d) && array_rows(d) == decoded_rows(
                tape.elems(),
                tape.strs(),
                self.spec_is_nullable(),
                pos@,
            ),
    {
        let ghost t = tape.elems();
        let ghost st = tape.strs();
        let ghost nb = self.spec_is_nullable();
        let mut builder = builder_new();
        let n = pos.len();
        let mut i: usize = 0;
        while i < n
            invariant
                tape.wf(),
                t == tape.elems(),
                st == tape.strs(),
                nb == self.spec_is_nullable(),
                n == pos@.len(),
                i <= n,
                forall|j: int| 0 <= j < pos@.len() ==> wf_value(t, st, #[trigger] pos@[j] as int),
                rows_bytes(t, st, nb, pos@) <= i32::MAX,
                builder_rows(builder) == decoded_rows(t, st, nb, pos@.take(i as int)),
                builder_bytes(builder) == rows_bytes(t, st, nb, pos@.take(i as int)),
            decreases n - i,
        {
            let p = pos[i];
            let mut s = String::new();
            proof {
                lemma_rows_bytes_take_succ(t, st, nb, pos@, i as int);
                lemma_rows_bytes_take_le(t, st, nb, pos@, i as int + 1);
            }
            if self.is_nullable {
                if matches!(tape.get(p), TapeElement::Null) {
                    builder_append_null(&mut builder);
                    proof {
                        assert(decoded_rows(t, st, nb, pos@.take(i as int + 1)) =~= decoded_rows(
                            t,
                            st,
                            nb,
                            pos@.take(i as int),
                        ).push(None::<Seq<char>>));
                    }
                    i = i + 1;
                    continue;
                }
            }
            self.decode_int(&mut s, tape, p)?;
            builder_append_value(&mut builder, s.as_str());
            proof {
                assert(decoded_rows(t, st, nb, pos@.take(i as int + 1)) =~= decoded_rows(
                    t,
                    st,
                    nb,
                    pos@.take(i as int),
                ).push(Some(serialized(t, st, p as int))));
            }
            i = i + 1;
        }
        proof {
            assert(pos@.take(n as int) =~= pos@);
        }
        let data = builder_finish(&mut builder);
        Ok(data)
    }

    /// Whether the value at `pos` is acceptable for this column: always,
    /// except a `Null` element when the column is not nullable.
    pub fn validate_row(&self, tape: &Tape, pos: u32) -> (r: bool)
        requires
            (pos as int) < tape.elems().len(),
        ensures
            r == (tape.elems()[pos as int] is Null ==> self.spec_is_nullable()),
    {
        match tape.get(pos) {
            TapeElement::Null => self.is_nullable,
            _ => true,
        }
    }
}

} // verus!
