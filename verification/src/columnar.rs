//! The columnar string output, held by the string builder of the
//! `arrow-array` crate and finished into an `arrow-data` array.
//!
//! The builder and the finished array are opaque here; what they hold is
//! named by `builder_rows`, `builder_bytes` and `array_rows`, and every
//! method the decoder calls goes through a trusted wrapper whose contract
//! states, over those names, what the crate's code does.

use vstd::prelude::*;

verus! {

#[verifier::external_type_specification]
#[verifier::external_body]
pub struct ExArrayData(arrow_data::ArrayData);

/// The `arrow-array` string builder (`GenericStringBuilder<i32>`) behind an
/// opaque wall: the generic builder type itself cannot be declared here, so
/// it sits in a private field and is reached only through the trusted
/// functions below.
#[verifier::external_body]
pub struct StringColumnBuilder {
    inner: arrow_array::builder::GenericStringBuilder<i32>,
}

/// The rows the builder holds so far, in insertion order: a null row is
/// `None`, a finished text row is `Some` of its characters.
pub uninterp spec fn builder_rows(b: StringColumnBuilder) -> Seq<Option<Seq<char>>>;

/// The total UTF-8 byte length of the text rows the builder holds. The
/// builder records byte offsets as `i32`, so this total must stay within
/// `i32` range.
pub uninterp spec fn builder_bytes(b: StringColumnBuilder) -> int;

/// The rows a finished columnar array holds, in row order.
pub uninterp spec fn array_rows(d: arrow_data::ArrayData) -> Seq<Option<Seq<char>>>;

/// Relies on `GenericByteBuilder::new`: a fresh builder holds no rows and
/// no bytes.
#[verifier::external_body]
pub(crate) fn builder_new() -> (b: StringColumnBuilder)
    ensures
        builder_rows(b) == Seq::<Option<Seq<char>>>::empty(),
        builder_bytes(b) == 0,
{
    StringColumnBuilder { inner: arrow_array::builder::GenericStringBuilder::new() }
}

/// Relies on `GenericByteBuilder::append_value`: appends one non-null row
/// holding the given text. It records the new byte total as an `i32` offset
/// and panics past `i32::MAX`, so the requirement keeps the total within
/// range.
#[verifier::external_body]
pub(crate) fn builder_append_value(b: &mut StringColumnBuilder, value: &str)
    requires
        builder_bytes(*old(b)) + vstd::utf8::encode_utf8(value@).len() <= i32::MAX,
    ensures
        builder_rows(*final(b)) == builder_rows(*old(b)).push(Some(value@)),
        builder_bytes(*final(b)) == builder_bytes(*old(b)) + vstd::utf8::encode_utf8(
            value@,
        ).len(),
{
    b.inner.append_value(value)
}

/// Relies on `GenericByteBuilder::append_null`: appends one null row and
/// stores no bytes. It re-records the current byte total as an `i32`
/// offset, so that total must already be within range.
#[verifier::external_body]
pub(crate) fn builder_append_null(b: &mut StringColumnBuilder)
    requires
        builder_bytes(*old(b)) <= i32::MAX,
    ensures
        builder_rows(*final(b)) == builder_rows(*old(b)).push(None::<Seq<char>>),
        builder_bytes(*final(b)) == builder_bytes(*old(b)),
{
    b.inner.append_null()
}

/// Relies on `GenericByteBuilder::finish`, which moves the accumulated
/// buffers into a `GenericByteArray` of the same rows and resets the
/// builder, and on `Array::into_data`, which converts that array into its
/// underlying `ArrayData` unchanged.
#[verifier::external_body]
pub(crate) fn builder_finish(b: &mut StringColumnBuilder) -> (d: arrow_data::ArrayData)
    ensures
        array_rows(d) == builder_rows(*old(b)),
        builder_rows(*final(b)) == Seq::<Option<Seq<char>>>::empty(),
        builder_bytes(*final(b)) == 0,
{
    arrow_array::Array::into_data(b.inner.finish())
}

} // verus!
