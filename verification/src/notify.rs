//! Notification records: write-once event entries whose only mutable part
//! is the read flag.

use vstd::prelude::*;

use crate::error::Error;
use crate::state::State;
use crate::state::StateView;
use crate::types::Notification;
use crate::types::NotificationView;

verus! {

/// Writes `x` into slot `i` of a vector.
pub(crate) fn set_at<T>(v: &mut Vec<T>, i: usize, x: T)
    requires
        i < old(v).len(),
    ensures
        final(v)@ == old(v)@.update(i as int, x),
{
    let slot = &mut v[i];
    *slot = x;
}

/// The store after recording a notification: a record with the same id is
/// replaced, otherwise the notification is appended.
pub open spec fn create_notification_post(pre: StateView, n: NotificationView) -> StateView {
    if pre.has_notification(n.id) {
        StateView { notifications: pre.notifications.update(pre.notification_idx(n.id), n), ..pre }
    } else {
        StateView { notifications: pre.notifications.push(n), ..pre }
    }
}

/// The store after marking a notification read: only the read flag of the
/// named record changes.
pub open spec fn mark_notification_read_post(pre: StateView, id: Seq<char>) -> StateView {
    if pre.has_notification(id) {
        StateView {
            notifications: pre.notifications.update(
                pre.notification_idx(id),
                (NotificationView { is_read: true, ..pre.notification_for(id) }),
            ),
            ..pre
        }
    } else {
        pre
    }
}

impl State {
    /// Records a notification; an existing record with the same id is
    /// replaced.
    pub fn create_notification(&mut self, notification: Notification) -> (r: Result<bool, Error>)
        requires
            old(self).inv(),
        ensures
            final(self).inv(),
            r == Ok::<bool, Error>(true),
            final(self)@ == create_notification_post(old(self)@, notification@),
    {
        let ghost pre = self@;
        let ghost nv = notification@;
        match self.find_notification(&notification.id) {
            Some(i) => {
                set_at(&mut self.notifications, i, notification);
                proof {
                    assert(self@ =~= create_notification_post(pre, nv));
                    lemma_notifications_only_change(pre, self@);
                }
            },
            None => {
                self.notifications.push(notification);
                proof {
                    assert(self@ =~= create_notification_post(pre, nv));
                    lemma_notifications_only_change(pre, self@);
                }
            },
        }
        Ok(true)
    }

    /// Returns all notifications addressed to one user, in creation order.
    pub fn get_user_notifications(&self, user_id: &String) -> (r: Vec<Notification>)
        ensures
            r.deep_view() == self@.notifications.filter(
                |n: NotificationView| n.user_id == user_id@,
            ),
    {
        let ghost pred = |n: NotificationView| n.user_id == user_id@;
        let mut out: Vec<Notification> = Vec::new();
        proof {
            assert(out.deep_view() =~= self@.notifications.take(0).filter(pred));
        }
        let n = self.notifications.len();
        let mut i: usize = 0;
        while i < n
            invariant
                n == self.notifications.len(),
                i <= n,
                out.deep_view() == self@.notifications.take(i as int).filter(pred),
                pred == (|n: NotificationView| n.user_id == user_id@),
            decreases n - i,
        {
            proof {
                assert(self@.notifications.take(i + 1) =~= self@.notifications.take(i as int).push(
                    self@.notifications[i as int],
                ));
                crate::seqs::lemma_filter_push(
                    self@.notifications.take(i as int),
                    self@.notifications[i as int],
                    pred,
                );
            }
            if self.notifications[i].user_id == *user_id {
                out.push(self.notifications[i].clone());
                proof {
                    assert(out.deep_view() =~= self@.notifications.take(i + 1).filter(pred));
                }
            } else {
                proof {
                    assert(out.deep_view() =~= self@.notifications.take(i + 1).filter(pred));
                }
            }
            i += 1;
        }
        proof {
            assert(self@.notifications.take(n as int) =~= self@.notifications);
        }
        out
    }

    /// Sets the read flag of the named notification; everything else in
    /// the store is untouched. Fails exactly when no such notification
    /// exists.
    pub fn mark_notification_read(&mut self, notification_id: &String) -> (r: Result<bool, Error>)
        requires
            old(self).inv(),
        ensures
            final(self).inv(),
            r == if old(self)@.has_notification(notification_id@) {
                Ok::<bool, Error>(true)
            } else {
                Err::<bool, Error>(Error::NotFound)
            },
            final(self)@ == mark_notification_read_post(old(self)@, notification_id@),
    {
        let ghost pre = self@;
        match self.find_notification(notification_id) {
            Some(i) => {
                let mut n = self.notifications[i].clone();
                n.is_read = true;
                set_at(&mut self.notifications, i, n);
                proof {
                    assert(self@ =~= mark_notification_read_post(pre, notification_id@));
                    lemma_notifications_only_change(pre, self@);
                }
                Ok(true)
            },
            None => Err(Error::NotFound),
        }
    }
}

/// A change confined to the notifications store, where ids at each slot are
/// kept unique, preserves the whole invariant: no other clause reads the
/// notifications.
proof fn lemma_notifications_only_change(pre: StateView, post: StateView)
    requires
        pre.wf(),
        post == (StateView { notifications: post.notifications, ..pre }),
        post.notifications_unique(),
    ensures
        post.wf(),
{
    assert forall|i: int| 0 <= i < post.shifts.len() implies post.applicants_ok(
        #[trigger] post.shifts[i],
    ) by {
        assert(pre.applicants_ok(pre.shifts[i]));
    }
    assert forall|i: int| 0 <= i < post.shifts.len() implies post.assignment_ok(
        #[trigger] post.shifts[i],
    ) by {
        assert(pre.assignment_ok(pre.shifts[i]));
    }
}

} // verus!
