//! Error taxonomy shared by every operation of the service.

use vstd::prelude::*;

verus! {

/// The per-call failure kinds.  `Unauthorized` and `AppointmentConflict`
/// are part of the taxonomy but unused by the booking subsystem, which
/// reports slot contention as `InvalidInput`.
pub enum Error {
    NotFound { msg: String },
    InvalidInput { msg: String },
    Unauthorized { msg: String },
    AppointmentConflict { msg: String },
    AlreadyExists { msg: String },
}

} // verus!
