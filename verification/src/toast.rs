//! Toast notifications: short messages shown over the interface.

use vstd::prelude::*;
use crate::clock::epoch_now;

verus! {

/// The flavour of a toast notification.
#[derive(Debug, Clone, Copy, PartialEq, Eq, Structural)]
pub enum ToastType {
    Success,
    Error,
    Info,
}

/// One toast notification, stamped with when it appeared.
#[derive(Debug, Clone)]
pub struct Toast {
    pub message: String,
    pub toast_type: ToastType,
    /// Epoch seconds at creation; wall-clock time, so that the stamp
    /// survives process suspension.
    pub shown_at: u64,
}

impl Toast {
    /// A toast of the given flavour, stamped with the current time.
    pub fn new(message: String, toast_type: ToastType) -> (t: Toast)
        ensures
            t.message@ == message@,
            t.toast_type == toast_type,
    {
        Toast { message, toast_type, shown_at: epoch_now() }
    }

    /// A success toast.
    pub fn success(message: String) -> (t: Toast)
        ensures
            t.message@ == message@,
            t.toast_type == ToastType::Success,
    {
        Toast::new(message, ToastType::Success)
    }

    /// An error toast.
    pub fn error(message: String) -> (t: Toast)
        ensures
            t.message@ == message@,
            t.toast_type == ToastType::Error,
    {
        Toast::new(message, ToastType::Error)
    }

    /// An informational toast.
    pub fn info(message: String) -> (t: Toast)
        ensures
            t.message@ == message@,
            t.toast_type == ToastType::Info,
    {
        Toast::new(message, ToastType::Info)
    }
}

} // verus!
