//! Notifications: one at a time, each dismissed after a time that depends on its kind.

use vstd::prelude::*;
use crate::perf::instant_now;
use std::time::Instant;

verus! {

/// Toast notification variants.
#[derive(Debug, Clone, Copy, PartialEq, Eq, Structural)]
pub enum ToastVariant {
    /// Success message
    Success,
    /// Warning message
    Warning,
    /// Error message
    Error,
}

/// How long a toast of each variant stays, in milliseconds.
pub open spec fn dismiss_millis_of(v: ToastVariant) -> u64 {
    match v {
        ToastVariant::Success => 2000,
        ToastVariant::Warning => 3000,
        ToastVariant::Error => 4000,
    }
}

/// The symbol shown with each variant.
pub open spec fn icon_of(v: ToastVariant) -> Seq<char> {
    match v {
        ToastVariant::Success => "\u{2713}"@,
        ToastVariant::Warning => "\u{26A0}"@,
        ToastVariant::Error => "\u{2715}"@,
    }
}

impl ToastVariant {
    /// The symbol shown with this variant.
    pub fn icon(&self) -> (r: &'static str)
        ensures
            r@ == icon_of(*self),
    {
        match self {
            ToastVariant::Success => "\u{2713}",
            ToastVariant::Warning => "\u{26A0}",
            ToastVariant::Error => "\u{2715}",
        }
    }

    /// How long a toast of this variant stays, in milliseconds.
    pub fn dismiss_millis(&self) -> (r: u64)
        ensures
            r == dismiss_millis_of(*self),
    {
        match self {
            ToastVariant::Success => 2000,
            ToastVariant::Warning => 3000,
            ToastVariant::Error => 4000,
        }
    }
}

/// `Instant::elapsed`, in whole milliseconds. Nothing is stated of it: it is the time.
#[verifier::external_body]
fn elapsed_millis(start: &Instant) -> (r: u128) {
    start.elapsed().as_millis()
}

/// A single toast notification.
#[derive(Debug)]
pub struct Toast {
    /// The message to display
    pub message: String,
    /// The variant (determines color and duration)
    pub variant: ToastVariant,
    /// When the toast was created
    pub created_at: Instant,
}

impl Toast {
    /// A success toast, created now.
    pub fn success(message: String) -> (r: Self)
        ensures
            r.message@ == message@,
            r.variant == ToastVariant::Success,
    {
        Toast { message, variant: ToastVariant::Success, created_at: instant_now() }
    }

    /// A warning toast, created now.
    pub fn warning(message: String) -> (r: Self)
        ensures
            r.message@ == message@,
            r.variant == ToastVariant::Warning,
    {
        Toast { message, variant: ToastVariant::Warning, created_at: instant_now() }
    }

    /// An error toast, created now.
    pub fn error(message: String) -> (r: Self)
        ensures
            r.message@ == message@,
            r.variant == ToastVariant::Error,
    {
        Toast { message, variant: ToastVariant::Error, created_at: instant_now() }
    }

    /// Whether a toast shown for `elapsed_ms` milliseconds is due to go.
    pub fn expired_after(&self, elapsed_ms: u128) -> (r: bool)
        ensures
            r == (elapsed_ms >= dismiss_millis_of(self.variant)),
    {
        elapsed_ms >= self.variant.dismiss_millis() as u128
    }

    /// Whether the toast is due to go now. The answer depends on the time, so no clause states
    /// it; `expired_after` decides it from the elapsed time measured here.
    pub fn should_dismiss(&self) -> (r: bool) {
        let elapsed = elapsed_millis(&self.created_at);
        self.expired_after(elapsed)
    }
}

/// Shows one toast at a time: a new one replaces the one shown.
#[derive(Debug)]
pub struct ToastManager {
    current_toast: Option<Toast>,
}

impl ToastManager {
    /// The toast shown, if any.
    pub closed spec fn shown(&self) -> Option<Toast> {
        self.current_toast
    }

    /// A manager showing nothing.
    pub fn new() -> (r: Self)
        ensures
            r.shown() is None,
    {
        ToastManager { current_toast: None }
    }

    /// Shows a toast in place of the one shown.
    pub fn show(&mut self, toast: Toast)
        ensures
            final(self).shown() == Some(toast),
    {
        self.current_toast = Some(toast);
    }

    /// Shows a success toast.
    pub fn success(&mut self, message: String)
        ensures
            final(self).shown() matches Some(t) && t.variant == ToastVariant::Success && t.message@ == message@,
    {
        self.show(Toast::success(message));
    }

    /// Shows a warning toast.
    pub fn warning(&mut self, message: String)
        ensures
            final(self).shown() matches Some(t) && t.variant == ToastVariant::Warning && t.message@ == message@,
    {
        self.show(Toast::warning(message));
    }

    /// Shows an error toast.
    pub fn error(&mut self, message: String)
        ensures
            final(self).shown() matches Some(t) && t.variant == ToastVariant::Error && t.message@ == message@,
    {
        self.show(Toast::error(message));
    }

    /// Shows an information toast, drawn as a warning.
    pub fn info(&mut self, message: String)
        ensures
            final(self).shown() matches Some(t) && t.variant == ToastVariant::Warning && t.message@ == message@,
    {
        self.show(Toast::warning(message));
    }

    /// Closes the toast shown.
    pub fn dismiss(&mut self)
        ensures
            final(self).shown() is None,
    {
        self.current_toast = None;
    }

    /// Drops the toast shown once it has been shown for `elapsed_ms` milliseconds or more
    /// than its variant allows.
    pub fn update_after(&mut self, elapsed_ms: u128)
        ensures
            final(self).shown() == (match old(self).shown() {
                Some(t) => if elapsed_ms >= dismiss_millis_of(t.variant) {
                    None
                } else {
                    Some(t)
                },
                None => None,
            }),
    {
        let expired = match &self.current_toast {
            Some(t) => t.expired_after(elapsed_ms),
            None => false,
        };
        if expired {
            self.current_toast = None;
        }
    }

    /// Drops the toast shown when it is due to go now.
    pub fn update(&mut self)
        ensures
            final(self).shown() is None || final(self).shown() == old(self).shown(),
    {
        let expired = match &self.current_toast {
            Some(t) => t.should_dismiss(),
            None => false,
        };
        if expired {
            self.current_toast = None;
        }
    }

    /// The toast shown, if any.
    pub fn current(&self) -> (r: Option<&Toast>)
        ensures
            match (r, self.shown()) {
                (Some(a), Some(b)) => *a == b,
                (None, None) => true,
                _ => false,
            },
    {
        match &self.current_toast {
            Some(t) => Some(t),
            None => None,
        }
    }
}

} // verus!
