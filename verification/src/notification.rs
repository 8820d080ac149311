//! Notifications that expire after a timeout.
//!
//! Time is a count of milliseconds on the wall clock. The methods whose name
//! ends in `_at` take the present time as an argument; the others read the
//! clock.

use crate::clock::wall_clock_ms;
use vstd::prelude::*;

verus! {

/// How serious a notification is.
#[derive(Debug, Clone, Copy, PartialEq, Eq, Structural)]
pub enum NotificationType {
    Info,
    Warning,
    Error,
}

/// A message for the user that is shown for `timeout_ms` milliseconds.
#[derive(Debug)]
pub struct Notification {
    pub id: u64,
    pub message: String,
    pub notification_type: NotificationType,
    /// When the notification was created, in milliseconds of the wall clock.
    pub created_at_ms: u64,
    pub timeout_ms: u64,
}

/// Whether a notification created at `created_at_ms` with the timeout
/// `timeout_ms` is expired at `now_ms`: the timeout has passed since it was
/// created. At a time before its creation it is not expired.
pub open spec fn spec_expired(created_at_ms: u64, timeout_ms: u64, now_ms: u64) -> bool {
    now_ms >= created_at_ms && now_ms - created_at_ms >= timeout_ms
}

impl Notification {
    /// Whether the notification is expired at `now_ms`.
    pub open spec fn spec_is_expired_at(self, now_ms: u64) -> bool {
        spec_expired(self.created_at_ms, self.timeout_ms, now_ms)
    }

    /// Creates a notification at the time `now_ms`.
    pub fn new_at(
        id: u64,
        message: String,
        notification_type: NotificationType,
        timeout_ms: u64,
        now_ms: u64,
    ) -> (notification: Notification)
        ensures
            notification == (Notification {
                id,
                message,
                notification_type,
                created_at_ms: now_ms,
                timeout_ms,
            }),
    {
        Notification { id, message, notification_type, created_at_ms: now_ms, timeout_ms }
    }

    /// Creates a notification at the present time of the wall clock.
    pub fn new(id: u64, message: String, notification_type: NotificationType, timeout_ms: u64) -> (notification:
        Notification)
        ensures
            notification.id == id,
            notification.message == message,
            notification.notification_type == notification_type,
            notification.timeout_ms == timeout_ms,
    {
        Notification::new_at(id, message, notification_type, timeout_ms, wall_clock_ms())
    }

    /// Whether the notification is expired at `now_ms`.
    pub fn is_expired_at(&self, now_ms: u64) -> (expired: bool)
        ensures
            expired == self.spec_is_expired_at(now_ms),
    {
        now_ms >= self.created_at_ms && now_ms - self.created_at_ms >= self.timeout_ms
    }

    /// Whether the notification is expired at the present time of the wall
    /// clock: the answer of [`Notification::is_expired_at`] for the reading
    /// of the clock.
    pub fn is_expired(&self) -> (expired: bool)
        ensures
            exists|now_ms: u64| expired == #[trigger] self.spec_is_expired_at(now_ms),
    {
        let now_ms = wall_clock_ms();
        let expired = self.is_expired_at(now_ms);
        assert(expired == self.spec_is_expired_at(now_ms));
        expired
    }
}

impl Clone for Notification {
    /// A clone holds what the notification holds.
    fn clone(&self) -> (copy: Notification)
        ensures
            copy == *self,
    {
        Notification {
            id: self.id,
            message: self.message.clone(),
            notification_type: self.notification_type,
            created_at_ms: self.created_at_ms,
            timeout_ms: self.timeout_ms,
        }
    }
}

/// The id that follows `id`; after the largest id the count starts again
/// at 0.
pub open spec fn spec_next_id(id: u64) -> u64 {
    if id == u64::MAX {
        0
    } else {
        (id + 1) as u64
    }
}

/// The notifications other than those with the id `id`, in their order.
pub open spec fn spec_without_id(notifications: Seq<Notification>, id: u64) -> Seq<Notification> {
    notifications.filter(|n: Notification| n.id != id)
}

/// The notifications that are not expired at `now_ms`, in their order.
pub open spec fn spec_active(notifications: Seq<Notification>, now_ms: u64) -> Seq<Notification> {
    notifications.filter(|n: Notification| !n.spec_is_expired_at(now_ms))
}

/// The notifications that are shown, in the order in which they were added.
pub struct NotificationManager {
    next_id: u64,
    pub notifications: Vec<Notification>,
}

impl View for NotificationManager {
    type V = Seq<Notification>;

    /// The notifications, in the order in which they were added.
    closed spec fn view(&self) -> Seq<Notification> {
        self.notifications@
    }
}

impl NotificationManager {
    /// The id that the next notification gets.
    pub closed spec fn next_id(&self) -> u64 {
        self.next_id
    }

    /// Creates a manager without notifications, whose first id is 0.
    pub fn new() -> (manager: NotificationManager)
        ensures
            manager@ == Seq::<Notification>::empty(),
            manager.next_id() == 0,
    {
        NotificationManager { next_id: 0, notifications: Vec::new() }
    }

    /// Adds a notification created at `now_ms` behind the others and returns
    /// its id, which is the next id of the manager.
    pub fn add_at(
        &mut self,
        message: String,
        notification_type: NotificationType,
        timeout_ms: u64,
        now_ms: u64,
    ) -> (id: u64)
        ensures
            id == old(self).next_id(),
            final(self).next_id() == spec_next_id(old(self).next_id()),
            final(self)@ == old(self)@.push(
                Notification { id, message, notification_type, created_at_ms: now_ms, timeout_ms },
            ),
    {
        let id = self.next_id;
        self.next_id = if id == u64::MAX {
            0
        } else {
            id + 1
        };
        let notification = Notification::new_at(id, message, notification_type, timeout_ms, now_ms);
        self.notifications.push(notification);
        id
    }

    /// Adds a notification created at the present time of the wall clock
    /// behind the others and returns its id, which is the next id of the
    /// manager.
    pub fn add(&mut self, message: String, notification_type: NotificationType, timeout_ms: u64) -> (id:
        u64)
        ensures
            id == old(self).next_id(),
            final(self).next_id() == spec_next_id(old(self).next_id()),
            final(self)@.len() == old(self)@.len() + 1,
            final(self)@.drop_last() == old(self)@,
            final(self)@.last().id == id,
            final(self)@.last().message == message,
            final(self)@.last().notification_type == notification_type,
            final(self)@.last().timeout_ms == timeout_ms,
    {
        let id = self.add_at(message, notification_type, timeout_ms, wall_clock_ms());
        assert(self@.drop_last() =~= old(self)@);
        id
    }

    /// Removes the notifications with the id `id`; the others keep their
    /// order.
    pub fn remove(&mut self, id: u64)
        ensures
            final(self)@ == spec_without_id(old(self)@, id),
            final(self).next_id() == old(self).next_id(),
    {
        let mut all: Vec<Notification> = Vec::new();
        std::mem::swap(&mut self.notifications, &mut all);
        let ghost before = all@;
        let ghost pred = |n: Notification| n.id != id;
        let mut kept: Vec<Notification> = Vec::new();
        for notification in it: all
            invariant
                it.seq() == before,
                pred == (|n: Notification| n.id != id),
                kept@ == before.take(it.index() as int).filter(pred),
        {
            proof {
                reveal(Seq::filter);
                let upto = before.take(it.index() + 1);
                assert(upto.drop_last() =~= before.take(it.index() as int));
                assert(upto.last() == notification);
            }
            if notification.id != id {
                kept.push(notification);
            }
        }
        assert(before.take(before.len() as int) =~= before);
        self.notifications = kept;
    }

    /// Removes the notifications that are expired at `now_ms`; the others
    /// keep their order.
    pub fn remove_expired_at(&mut self, now_ms: u64)
        ensures
            final(self)@ == spec_active(old(self)@, now_ms),
            final(self).next_id() == old(self).next_id(),
    {
        let mut all: Vec<Notification> = Vec::new();
        std::mem::swap(&mut self.notifications, &mut all);
        let ghost before = all@;
        let ghost pred = |n: Notification| !n.spec_is_expired_at(now_ms);
        let mut kept: Vec<Notification> = Vec::new();
        for notification in it: all
            invariant
                it.seq() == before,
                pred == (|n: Notification| !n.spec_is_expired_at(now_ms)),
                kept@ == before.take(it.index() as int).filter(pred),
        {
            proof {
                reveal(Seq::filter);
                let upto = before.take(it.index() + 1);
                assert(upto.drop_last() =~= before.take(it.index() as int));
                assert(upto.last() == notification);
            }
            if !notification.is_expired_at(now_ms) {
                kept.push(notification);
            }
        }
        assert(before.take(before.len() as int) =~= before);
        self.notifications = kept;
    }

    /// Removes the notifications that are expired at the present time of the
    /// wall clock; the others keep their order.
    pub fn remove_expired(&mut self)
        ensures
            exists|now_ms: u64|
                final(self)@ == #[trigger] spec_active(
                    old(self)@,
                    now_ms,
                ),
            final(self).next_id() == old(self).next_id(),
    {
        let now_ms = wall_clock_ms();
        self.remove_expired_at(now_ms);
        assert(self@ == spec_active(old(self)@, now_ms));
    }

    /// The notifications that are not expired at `now_ms`, in their order.
    pub fn get_active_at(&self, now_ms: u64) -> (active: Vec<&Notification>)
        ensures
            active@.len() == spec_active(self@, now_ms).len(),
            forall|i: int|
                0 <= i < active@.len() ==> *#[trigger] active@[i] == spec_active(self@, now_ms)[i],
    {
        let ghost pred = |n: Notification| !n.spec_is_expired_at(now_ms);
        let mut active: Vec<&Notification> = Vec::new();
        let mut i: usize = 0;
        while i < self.notifications.len()
            invariant
                i <= self.notifications@.len(),
                pred == (|n: Notification| !n.spec_is_expired_at(now_ms)),
                active@.len() == self.notifications@.take(i as int).filter(pred).len(),
                forall|j: int|
                    0 <= j < active@.len() ==> *#[trigger] active@[j] == self.notifications@.take(
                        i as int,
                    ).filter(pred)[j],
            decreases self.notifications@.len() - i,
        {
            proof {
                reveal(Seq::filter);
                let upto = self.notifications@.take(i + 1);
                assert(upto.drop_last() =~= self.notifications@.take(i as int));
                assert(upto.last() == self.notifications@[i as int]);
            }
            if !self.notifications[i].is_expired_at(now_ms) {
                active.push(&self.notifications[i]);
            }
            i += 1;
        }
        assert(self.notifications@.take(i as int) =~= self.notifications@);
        active
    }

    /// The notifications that are not expired at the present time of the
    /// wall clock, in their order.
    pub fn get_active(&self) -> (active: Vec<&Notification>)
        ensures
            exists|now_ms: u64|
                active@.len() == (#[trigger] spec_active(self@, now_ms)).len() && forall|i: int|
                    0 <= i < active@.len() ==> *#[trigger] active@[i] == spec_active(
                        self@,
                        now_ms,
                    )[i],
    {
        let now_ms = wall_clock_ms();
        let active = self.get_active_at(now_ms);
        assert(active@.len() == spec_active(self@, now_ms).len());
        active
    }
}

impl Default for NotificationManager {
    fn default() -> (manager: NotificationManager)
        ensures
            manager@ == Seq::<Notification>::empty(),
            manager.next_id() == 0,
    {
        NotificationManager::new()
    }
}

} // verus!
