//! The value tree: the recursive data model that the formatter walks.

use vstd::prelude::*;

verus! {

/// A JSON composite node: either an object or an array.
///
/// An object is an ordered sequence of key–value pairs. Insertion order is
/// kept and determines serialized order; keys are not deduplicated or
/// validated, duplicates pass through untouched. An array is an ordered
/// sequence of values.
pub enum Json {
    Obj(Vec<(String, JsonVal)>),
    Arr(Vec<JsonVal>),
}

/// A single JSON datum: text, number, nested container, boolean, or null.
///
/// `Num` carries the number's decimal rendering as text (`"31"`, `"2.5"`),
/// exactly as it should appear in the output. Producing that text from a
/// machine float is the caller's business, so the tree itself stays free of
/// floating point; the rendering is spliced into the output unquoted and
/// unescaped.
pub enum JsonVal {
    Str(String),
    Num(String),
    Composite(Json),
    Bool(bool),
    Null,
}

} // verus!
