//! Values as a document hands them to a library call.

use vstd::prelude::*;

verus! {

/// A value of the host document, reduced to what an argument reader looks at:
/// the text the host prints for it, and its shape.
pub struct Value {
    /// The host's text for the value. For a string it is the string itself.
    pub text: String,
    /// What kind of value it is.
    pub shape: Shape,
}

/// The kinds of value an argument reader tells apart.
pub enum Shape {
    /// A string.
    Str,
    /// An array and its items.
    Array(Vec<Value>),
    /// A tuple and its parts.
    Tuple(Vec<Value>),
    /// Any other kind of value.
    Other,
}

} // verus!
