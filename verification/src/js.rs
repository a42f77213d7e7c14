//! The JavaScript backend: a stand-in that runs nothing and answers every
//! script with the default value of the requested shape.

use vstd::prelude::*;

verus! {

/// The shapes the JavaScript backend can produce: every type with a default.
pub trait Evaluatable: Default {

}

impl<T: Default> Evaluatable for T {

}

/// What the JavaScript backend reports when it fails.
pub type EvalError = &'static str;

/// The outcome of one evaluation by the JavaScript backend.
pub type EvalResult<T> = core::result::Result<T, EvalError>;

/// Whether `value` is what `T::default()` returns: the empty text, the empty
/// sequence, the unit value.
pub open spec fn is_default<T: Default>(value: T) -> bool {
    call_ensures(T::default, (), value)
}

/// Answers `_script` with the default value of `T`. The script is neither
/// parsed nor run.
pub fn eval<T: Evaluatable>(_script: &str) -> (outcome: EvalResult<T>)
    ensures
        outcome matches Ok(value) && is_default(value),
{
    Ok(T::default())
}

} // verus!
