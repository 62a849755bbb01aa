//! The platform layer of a windowing library: a table that resolves window
//! ids to native windows and keeps their parent/child hierarchy free of
//! cycles, the control-flow state machine that schedules an event loop, the
//! per-window dispatch table, and video-mode reselection across monitors.

use vstd::prelude::*;

pub mod monitor;
pub mod window;
pub mod event_loop;
pub mod dispatch;

verus! {

/// Identifier of an input device. This backend reports one constant device.
#[derive(Debug, Copy, Clone, PartialEq, Eq, Structural, PartialOrd, Ord, Hash)]
pub struct DeviceId;

impl DeviceId {
    /// The single device identifier this backend reports.
    pub fn dummy() -> (r: DeviceId)
        ensures
            r == DeviceId,
    {
        DeviceId
    }
}

/// Failure to create a native window.
#[derive(Debug, Clone, Copy)]
pub enum OsError {
    /// An error code reported by Core Graphics (a `CGError`, which is an `i32`).
    CGError(i32),
    /// A fixed diagnostic message.
    CreationError(&'static str),
}

} // verus!
