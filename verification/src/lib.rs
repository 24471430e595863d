//! Textual passthrough decoding of parsed JSON.
//!
//! A parsed JSON document is held as a flattened, position-indexed *tape*.
//! When a string-typed column must hold an arbitrary JSON value (an object,
//! an array, or a scalar), the decoder re-serializes the value rooted at a
//! tape position back into canonical JSON text, with no insignificant
//! whitespace, and appends one text row per input position to a columnar
//! string array.

pub mod columnar;
pub mod decoder;
pub mod tape;
pub mod text;
