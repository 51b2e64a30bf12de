//! The critical-section token that every access to the driver state takes.

use vstd::prelude::*;

verus! {

/// `critical_section::CriticalSection`: a value of it exists only while the
/// critical section is held. Nothing is claimed about it; the driver's
/// operations take one so that they can only be called from inside.
#[verifier::external_type_specification]
#[verifier::external_body]
pub struct ExCriticalSection<'cs>(critical_section::CriticalSection<'cs>);

} // verus!
