//! Diagnostic state surfaced to the host.
//!
//! The host keeps one `Diagnostics` value per thread of use; every failing
//! operation records a human-readable cause in it, and the host reads and
//! clears it explicitly. Keeping the slot an explicit value (rather than
//! hidden process state) makes the single-writer contract checkable.

use vstd::prelude::*;

verus! {

/// The last-error slot: empty until a failure writes to it.
pub struct Diagnostics {
    pub last_error: Option<String>,
}

impl Diagnostics {
    /// A fresh slot holds no diagnostic.
    pub fn new() -> (d: Diagnostics)
        ensures
            d.last_error is None,
    {
        Diagnostics { last_error: None }
    }

    /// Reads the current diagnostic without clearing it.
    pub fn last_error(&self) -> (r: &Option<String>)
        ensures
            r == &self.last_error,
    {
        &self.last_error
    }

    /// Clears the slot.
    pub fn clear(&mut self)
        ensures
            final(self).last_error is None,
    {
        self.last_error = None;
    }
}

/// Records `msg` as the most recent failure cause, replacing any earlier one.
pub fn set_error(d: &mut Diagnostics, msg: String)
    ensures
        final(d).last_error == Some(msg),
{
    d.last_error = Some(msg);
}

} // verus!
