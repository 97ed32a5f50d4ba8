//! The request-metrics fairing marker. Its timing and logging hooks are
//! bound to the web framework and live with the application.

use vstd::prelude::*;

verus! {

/// Marks a mounted request-metrics fairing.
pub struct Metrics;

} // verus!
