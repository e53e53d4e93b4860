//! The notification debouncer: one `SingleNotification` slot per alert
//! category, owning at most one live desktop notification at a time.
//! A slot re-displays only when its text changes, so an alert that holds
//! across many ticks does not flicker, and it closes the old bubble before
//! a new one is shown.

use vstd::prelude::*;

verus! {

/// Urgency of a desktop notification, as the notification server
/// understands it.
#[derive(Clone, Copy, PartialEq, Eq, Structural, Debug)]
pub enum Urgency {
    Normal,
    Critical,
}

#[verifier::external_type_specification]
#[verifier::external_body]
pub struct ExNotificationHandle(notify_rust::NotificationHandle);

/// Relies on notify_rust's `Notification` builder and `Notification::show`:
/// asks the notification server to render a bubble with the given summary,
/// urgency and timeout, and returns its handle.  Nothing is promised of the
/// result: whether a handle comes back depends on the notification server.
#[verifier::external_body]
fn notify_show(summary: &str, urgency: Urgency, timeout_ms: i32) -> Option<
    notify_rust::NotificationHandle,
> {
    notify_rust::Notification::new().summary(summary).urgency(
        match urgency {
            Urgency::Normal => notify_rust::Urgency::Normal,
            Urgency::Critical => notify_rust::Urgency::Critical,
        },
    ).timeout(notify_rust::Timeout::from(timeout_ms)).show().ok()
}

/// Relies on `notify_rust::NotificationHandle::close`: asks the
/// notification server to close the bubble behind the handle.
#[verifier::external_body]
fn notify_close(hnd: notify_rust::NotificationHandle) {
    hnd.close()
}

/// A debouncing slot for one alert category.  It owns at most one live
/// notification handle, remembers the text it last asked the server to
/// display, and counts (in ghost state) how often it called the server,
/// so that contracts can state when a call was and was not made.
pub struct SingleNotification {
    hnd: Option<notify_rust::NotificationHandle>,
    summary: Option<String>,
    shows: Ghost<nat>,
    closes: Ghost<nat>,
}

impl SingleNotification {
    /// The text this slot last asked the server to display, if any.
    pub closed spec fn summary_view(self) -> Option<Seq<char>> {
        match self.summary {
            Some(s) => Some(s@),
            None => None,
        }
    }

    /// Whether the slot holds a live notification handle.
    pub closed spec fn is_live(self) -> bool {
        self.hnd is Some
    }

    /// How often this slot has asked the server to show a notification.
    pub closed spec fn shows_count(self) -> nat {
        self.shows@
    }

    /// How often this slot has asked the server to close a notification.
    pub closed spec fn closes_count(self) -> nat {
        self.closes@
    }

    /// What `close` does: with a live handle, one close call goes out and
    /// the remembered text is cleared; without one, nothing happens at all.
    pub open spec fn close_transition(o: Self, n: Self) -> bool {
        if o.is_live() {
            &&& !n.is_live()
            &&& n.summary_view() is None
            &&& n.closes_count() == o.closes_count() + 1
            &&& n.shows_count() == o.shows_count()
        } else {
            n == o
        }
    }

    /// What `show` does: with the same text as currently remembered it is
    /// a no-op (no server call at all); with different text, any live
    /// notification is closed first and exactly one show call goes out.
    /// Whether the new handle is live depends on the server, so that is
    /// left open.
    pub open spec fn show_transition(o: Self, n: Self, text: Seq<char>) -> bool {
        if o.summary_view() == Some(text) {
            n == o
        } else {
            &&& n.summary_view() == Some(text)
            &&& n.shows_count() == o.shows_count() + 1
            &&& n.closes_count() == o.closes_count() + (if o.is_live() {
                1nat
            } else {
                0nat
            })
        }
    }

    /// Shows a notification with the given text, unless that text is
    /// already the one on display; a text change closes the old bubble
    /// before the new one is shown, so two are never live at once.
    pub fn show(&mut self, summary: String, urgency: Urgency, timeout: i32)
        ensures
            Self::show_transition(*old(self), *final(self), summary@),
    {
        let equal = match &self.summary {
            Some(s) => *s == summary,
            None => false,
        };
        if !equal {
            self.close();
            self.hnd = notify_show(summary.as_str(), urgency, timeout);
            self.summary = Some(summary);
            self.shows = Ghost(self.shows@ + 1);
        }
    }

    /// Closes the live notification, if there is one.
    pub fn close(&mut self)
        ensures
            Self::close_transition(*old(self), *final(self)),
    {
        match self.hnd.take() {
            Some(h) => {
                self.summary = None;
                self.closes = Ghost(self.closes@ + 1);
                notify_close(h);
            },
            None => {},
        }
    }

    /// Whether a live notification handle is currently held; the runtime
    /// counterpart of `is_live`.
    pub fn live(&self) -> (r: bool)
        ensures
            r == self.is_live(),
    {
        self.hnd.is_some()
    }

    /// The currently remembered text, as shown to the server.
    pub fn summary_text(&self) -> (r: Option<&String>)
        ensures
            match r {
                Some(s) => self.summary_view() == Some(s@),
                None => self.summary_view() is None,
            },
    {
        self.summary.as_ref()
    }
}

/// Showing the same text twice is idempotent: the second `show` leaves the
/// slot exactly as it was and sends the server no second request, so two
/// identical invocations cost at most one show call in total.
pub proof fn lemma_show_idempotent(
    a: SingleNotification,
    b: SingleNotification,
    c: SingleNotification,
    text: Seq<char>,
)
    requires
        SingleNotification::show_transition(a, b, text),
        SingleNotification::show_transition(b, c, text),
    ensures
        c == b,
        c.shows_count() <= a.shows_count() + 1,
{
}

/// Showing text B after text A replaces the notification: exactly one new
/// show call goes out, and when A's notification was live it is closed in
/// the same step, so the slot never has two live notifications.
pub proof fn lemma_show_replaces(
    a: SingleNotification,
    b: SingleNotification,
    c: SingleNotification,
    text_a: Seq<char>,
    text_b: Seq<char>,
)
    requires
        SingleNotification::show_transition(a, b, text_a),
        SingleNotification::show_transition(b, c, text_b),
        text_a != text_b,
    ensures
        c.summary_view() == Some(text_b),
        c.shows_count() == b.shows_count() + 1,
        b.is_live() ==> c.closes_count() == b.closes_count() + 1,
        !b.is_live() ==> c.closes_count() == b.closes_count(),
{
}

impl Default for SingleNotification {
    /// A fresh slot: nothing shown, nothing remembered, no server calls.
    fn default() -> (r: Self)
        ensures
            r.summary_view() is None,
            !r.is_live(),
            r.shows_count() == 0,
            r.closes_count() == 0,
    {
        SingleNotification { hnd: None, summary: None, shows: Ghost(0nat), closes: Ghost(0nat) }
    }
}

} // verus!
