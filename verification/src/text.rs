//! Text forms. The library formats no floating-point number itself: where a
//! text holds one, the caller hands in the function that writes it.

use vstd::prelude::*;
use vstd::string::{to_string_from_display_ensures, StringExecFns};
use crate::double::Double;

verus! {

/// Whether `text` is what `value` displays as.
pub open spec fn shows<T: core::fmt::Display>(value: T, text: Seq<char>) -> bool {
    exists|t: String| #[trigger] to_string_from_display_ensures(&value, t) && t@ == text
}

/// Whether `text` is something that `number` writes for `value`.
pub open spec fn writes<F: Fn(Double) -> String>(number: F, value: Double, text: Seq<char>) -> bool {
    exists|t: String| #[trigger] call_ensures(number, (value,), t) && t@ == text
}

/// Whether `number` can be asked for the text of every value.
pub open spec fn writes_all<F: Fn(Double) -> String>(number: F) -> bool {
    forall|value: Double| #[trigger] call_requires(number, (value,))
}

/// The text of `value` as it displays.
pub fn shown<T: core::fmt::Display>(value: &T) -> (text: String)
    ensures
        shows(*value, text@),
{
    value.to_string()
}

/// The text that `number` writes for `value`.
pub fn written<F: Fn(Double) -> String>(number: &F, value: Double) -> (text: String)
    requires
        writes_all(*number),
    ensures
        writes(*number, value, text@),
{
    number(value)
}

} // verus!
