//! Shift postings: creation, owner-only update and deletion, and the read
//! operations over the shift store.

use vstd::prelude::*;

use crate::error::Error;
use crate::notify::set_at;
use crate::seqs::lemma_filter_push;
use crate::state::lemma_ledger_frame;
use crate::state::State;
use crate::state::StateView;
use crate::text::str_contains;
use crate::text::str_contains_spec;
use crate::types::Shift;
use crate::types::ShiftStatus;
use crate::types::ShiftView;
use crate::types::UserType;

verus! {

/// Decision of `create_shift`: the caller must resolve to a Business
/// identity whose id matches the draft's owning business id.
pub open spec fn create_shift_check(pre: StateView, caller: Seq<char>, draft: ShiftView) -> Option<
    Error,
> {
    if !pre.has_user(caller) {
        Some(Error::NotFound)
    } else if pre.user_for(caller).user_type != UserType::Business {
        Some(Error::NotABusiness)
    } else if draft.business_id != pre.user_for(caller).id {
        Some(Error::IdMismatch)
    } else {
        None
    }
}

/// The shift as stored: the system stamps the id and the timestamps,
/// starts the applicant list empty, and leaves the worker unassigned —
/// assignment comes only from application approval.
pub open spec fn created_shift(draft: ShiftView, new_id: Seq<char>, now: i64) -> ShiftView {
    ShiftView {
        id: new_id,
        created_at: now,
        updated_at: now,
        applicants: Seq::empty(),
        assigned_worker: None,
        ..draft
    }
}

/// The store after `create_shift`: on success the stamped shift is
/// appended; on any failure nothing changes.
pub open spec fn create_shift_post(
    pre: StateView,
    caller: Seq<char>,
    draft: ShiftView,
    new_id: Seq<char>,
    now: i64,
) -> StateView {
    if create_shift_check(pre, caller, draft) is None {
        StateView { shifts: pre.shifts.push(created_shift(draft, new_id, now)), ..pre }
    } else {
        pre
    }
}

/// Decision of `update_shift` and `delete_shift`: the shift and the
/// caller's identity must exist and the caller must own the shift.
pub open spec fn owned_shift_check(pre: StateView, caller: Seq<char>, shift_id: Seq<char>) -> Option<
    Error,
> {
    if !pre.has_shift(shift_id) {
        Some(Error::NotFound)
    } else if !pre.has_user(caller) {
        Some(Error::NotFound)
    } else if pre.shift_for(shift_id).business_id != pre.user_for(caller).id {
        Some(Error::Unauthorized)
    } else {
        None
    }
}

/// The replacement shift an update stores: the caller replaces the posting
/// fields, while the identity, the creation time, the applicant list and
/// the assignment — which only the approval workflow may move — are kept.
pub open spec fn updated_shift(existing: ShiftView, draft: ShiftView, now: i64) -> ShiftView {
    ShiftView {
        id: existing.id,
        created_at: existing.created_at,
        applicants: existing.applicants,
        assigned_worker: existing.assigned_worker,
        updated_at: now,
        ..draft
    }
}

/// The store after `update_shift`: on success the owned shift is replaced
/// as `updated_shift` says; on any failure nothing changes.
pub open spec fn update_shift_post(
    pre: StateView,
    caller: Seq<char>,
    shift_id: Seq<char>,
    draft: ShiftView,
    now: i64,
) -> StateView {
    if owned_shift_check(pre, caller, shift_id) is None {
        StateView {
            shifts: pre.shifts.update(
                pre.shift_idx(shift_id),
                updated_shift(pre.shift_for(shift_id), draft, now),
            ),
            ..pre
        }
    } else {
        pre
    }
}

/// The store after `delete_shift`: on success the shift leaves the store;
/// its applications stay behind. On any failure nothing changes.
pub open spec fn delete_shift_post(pre: StateView, caller: Seq<char>, shift_id: Seq<char>) -> StateView {
    if owned_shift_check(pre, caller, shift_id) is None {
        StateView { shifts: pre.shifts.remove(pre.shift_idx(shift_id)), ..pre }
    } else {
        pre
    }
}

/// Whether a shift passes the open-shift listing: it must be open, and
/// when a location filter is given its location must contain the filter.
pub open spec fn available_shift(s: ShiftView, location_filter: Option<Seq<char>>) -> bool {
    s.status == ShiftStatus::Open && match location_filter {
        None => true,
        Some(loc) => str_contains_spec(s.location, loc),
    }
}

impl State {
    /// A business posts a shift. The system stamps the given fresh id and
    /// the timestamps, clears the applicant list, and stores the shift;
    /// the stored shift is returned.
    pub fn create_shift(&mut self, caller: &String, now: i64, new_id: String, shift: Shift) -> (r:
        Result<Shift, Error>)
        requires
            old(self).inv(),
            old(self)@.shift_id_fresh(new_id@),
        ensures
            final(self).inv(),
            match r {
                Ok(s) => create_shift_check(old(self)@, caller@, shift@) is None && s@
                    == created_shift(shift@, new_id@, now),
                Err(e) => create_shift_check(old(self)@, caller@, shift@) == Some(e),
            },
            final(self)@ == create_shift_post(old(self)@, caller@, shift@, new_id@, now),
    {
        let ghost pre = self@;
        let ghost draft = shift@;
        let user_i = match self.find_user(caller) {
            Some(i) => i,
            None => {
                return Err(Error::NotFound);
            },
        };
        if !(self.user_profiles[user_i].user_type == UserType::Business) {
            return Err(Error::NotABusiness);
        }
        if !(shift.business_id == self.user_profiles[user_i].id) {
            return Err(Error::IdMismatch);
        }
        let mut sh = shift;
        sh.id = new_id;
        sh.created_at = now;
        sh.updated_at = now;
        sh.applicants = Vec::new();
        sh.assigned_worker = None;
        let ghost sv = sh@;
        let stored = sh.clone();
        self.shifts.push(stored);
        proof {
            assert(sv =~= created_shift(draft, sv.id, now));
            let postv = self@;
            assert(postv.shifts =~= pre.shifts.push(sv));
            assert(postv =~= create_shift_post(pre, caller@, draft, sv.id, now));
            lemma_ledger_frame(pre, postv);
            // the fresh id keeps shift ids unique
            assert forall|i: int, j: int|
                0 <= i < j < postv.shifts.len() implies (#[trigger] postv.shifts[i]).id
                != (#[trigger] postv.shifts[j]).id by {
                if j < pre.shifts.len() {
                    assert(pre.shifts[i].id != pre.shifts[j].id);
                } else {
                    assert(pre.shifts[i].id != sv.id);
                }
            }
            // no application refers to the fresh id, so the new shift's
            // empty applicant list is consistent, and older shifts are
            // untouched
            assert forall|i: int| 0 <= i < postv.shifts.len() implies postv.applicants_ok(
                #[trigger] postv.shifts[i],
            ) by {
                if i < pre.shifts.len() {
                    assert(pre.applicants_ok(pre.shifts[i]));
                    let si = postv.shifts[i];
                    assert forall|j: int| 0 <= j < si.applicants.len() implies postv.has_app(
                        si.id,
                        #[trigger] si.applicants[j],
                    ) by {
                        assert(pre.has_app(si.id, si.applicants[j]));
                        let k = pre.app_idx(si.id, si.applicants[j]);
                        assert(postv.applications[k].shift_id == si.id);
                    }
                } else {
                    assert(postv.shifts[i] == sv);
                }
            }
            assert forall|i: int| 0 <= i < postv.shifts.len() implies postv.assignment_ok(
                #[trigger] postv.shifts[i],
            ) by {
                if i < pre.shifts.len() {
                    assert(pre.assignment_ok(pre.shifts[i]));
                    let si = postv.shifts[i];
                    match si.assigned_worker {
                        Some(w0) => {
                            let k = pre.app_idx(si.id, w0);
                            assert(postv.applications[k].shift_id == si.id
                                && postv.applications[k].worker_id == w0);
                            assert(postv.has_app(si.id, w0));
                            let k2 = postv.app_idx(si.id, w0);
                            if k2 != k {
                                assert(!(postv.applications[k2].shift_id
                                    == postv.applications[k].shift_id
                                    && postv.applications[k2].worker_id
                                    == postv.applications[k].worker_id));
                            }
                        },
                        None => {},
                    }
                } else {
                    assert(postv.shifts[i] == sv);
                }
            }
        }
        Ok(sh)
    }

    /// Fetches a shift by id.
    pub fn get_shift(&self, shift_id: &String) -> (r: Result<Shift, Error>)
        requires
            self.inv(),
        ensures
            match r {
                Ok(s) => self@.has_shift(shift_id@) && s@ == self@.shift_for(shift_id@),
                Err(e) => !self@.has_shift(shift_id@) && e == Error::NotFound,
            },
    {
        match self.find_shift(shift_id) {
            Some(i) => Ok(self.shifts[i].clone()),
            None => Err(Error::NotFound),
        }
    }

    /// The owning business replaces a shift's posting fields; the shift's
    /// identity, applicant list and assignment are kept. The stored shift
    /// is returned.
    pub fn update_shift(&mut self, caller: &String, now: i64, shift_id: &String, shift: Shift) -> (r:
        Result<Shift, Error>)
        requires
            old(self).inv(),
        ensures
            final(self).inv(),
            match r {
                Ok(s) => owned_shift_check(old(self)@, caller@, shift_id@) is None && s@
                    == updated_shift(old(self)@.shift_for(shift_id@), shift@, now),
                Err(e) => owned_shift_check(old(self)@, caller@, shift_id@) == Some(e),
            },
            final(self)@ == update_shift_post(old(self)@, caller@, shift_id@, shift@, now),
    {
        let ghost pre = self@;
        let ghost draft = shift@;
        let shift_i = match self.find_shift(shift_id) {
            Some(i) => i,
            None => {
                return Err(Error::NotFound);
            },
        };
        let user_i = match self.find_user(caller) {
            Some(i) => i,
            None => {
                return Err(Error::NotFound);
            },
        };
        if !(self.shifts[shift_i].business_id == self.user_profiles[user_i].id) {
            return Err(Error::Unauthorized);
        }
        let existing = &self.shifts[shift_i];
        let mut sh = shift;
        sh.id = existing.id.clone();
        sh.created_at = existing.created_at;
        sh.applicants = crate::types::clone_string_vec(&existing.applicants);
        sh.assigned_worker = crate::types::clone_opt_string(&existing.assigned_worker);
        sh.updated_at = now;
        let ghost sv = sh@;
        let stored = sh.clone();
        set_at(&mut self.shifts, shift_i, stored);
        proof {
            assert(sv =~= updated_shift(pre.shift_for(shift_id@), draft, now));
            let postv = self@;
            assert(postv.shifts =~= pre.shifts.update(pre.shift_idx(shift_id@), sv));
            assert(postv =~= update_shift_post(pre, caller@, shift_id@, draft, now));
            lemma_ledger_frame(pre, postv);
            let s0 = pre.shift_idx(shift_id@);
            assert forall|i: int, j: int|
                0 <= i < j < postv.shifts.len() implies (#[trigger] postv.shifts[i]).id
                != (#[trigger] postv.shifts[j]).id by {
                assert(pre.shifts[i].id != pre.shifts[j].id);
                assert(postv.shifts[i].id == pre.shifts[i].id);
                assert(postv.shifts[j].id == pre.shifts[j].id);
            }
            assert forall|i: int| 0 <= i < postv.shifts.len() implies postv.applicants_ok(
                #[trigger] postv.shifts[i],
            ) by {
                assert(pre.applicants_ok(pre.shifts[i]));
                let si = postv.shifts[i];
                assert(si.id == pre.shifts[i].id && si.applicants == pre.shifts[i].applicants);
                assert forall|j: int| 0 <= j < si.applicants.len() implies postv.has_app(
                    si.id,
                    #[trigger] si.applicants[j],
                ) by {
                    assert(pre.has_app(si.id, si.applicants[j]));
                }
            }
            assert forall|i: int| 0 <= i < postv.shifts.len() implies postv.assignment_ok(
                #[trigger] postv.shifts[i],
            ) by {
                assert(pre.assignment_ok(pre.shifts[i]));
                let si = postv.shifts[i];
                assert(si.id == pre.shifts[i].id && si.assigned_worker
                    == pre.shifts[i].assigned_worker);
            }
        }
        Ok(sh)
    }

    /// The owning business removes a shift from the store; applications
    /// that name it are not cascaded.
    pub fn delete_shift(&mut self, caller: &String, shift_id: &String) -> (r: Result<bool, Error>)
        requires
            old(self).inv(),
        ensures
            final(self).inv(),
            match r {
                Ok(b) => owned_shift_check(old(self)@, caller@, shift_id@) is None && b,
                Err(e) => owned_shift_check(old(self)@, caller@, shift_id@) == Some(e),
            },
            final(self)@ == delete_shift_post(old(self)@, caller@, shift_id@),
    {
        let ghost pre = self@;
        let shift_i = match self.find_shift(shift_id) {
            Some(i) => i,
            None => {
                return Err(Error::NotFound);
            },
        };
        let user_i = match self.find_user(caller) {
            Some(i) => i,
            None => {
                return Err(Error::NotFound);
            },
        };
        if !(self.shifts[shift_i].business_id == self.user_profiles[user_i].id) {
            return Err(Error::Unauthorized);
        }
        self.shifts.remove(shift_i);
        proof {
            let postv = self@;
            let s0 = pre.shift_idx(shift_id@);
            assert(postv.shifts =~= pre.shifts.remove(s0));
            assert(postv =~= delete_shift_post(pre, caller@, shift_id@));
            lemma_ledger_frame(pre, postv);
            // every remaining slot holds a shift that was already there
            assert forall|i: int|
                0 <= i < postv.shifts.len() implies #[trigger] postv.shifts[i] == (if i < s0 {
                pre.shifts[i]
            } else {
                pre.shifts[i + 1]
            }) by {}
            assert forall|i: int, j: int|
                0 <= i < j < postv.shifts.len() implies (#[trigger] postv.shifts[i]).id
                != (#[trigger] postv.shifts[j]).id by {
                let pi: int = if i < s0 {
                    i
                } else {
                    i + 1
                };
                let pj: int = if j < s0 {
                    j
                } else {
                    j + 1
                };
                assert(pre.shifts[pi].id != pre.shifts[pj].id);
            }
            assert forall|i: int| 0 <= i < postv.shifts.len() implies postv.applicants_ok(
                #[trigger] postv.shifts[i],
            ) by {
                let pi: int = if i < s0 {
                    i
                } else {
                    i + 1
                };
                assert(pre.applicants_ok(pre.shifts[pi]));
                let si = postv.shifts[i];
                assert forall|j: int| 0 <= j < si.applicants.len() implies postv.has_app(
                    si.id,
                    #[trigger] si.applicants[j],
                ) by {
                    assert(pre.has_app(si.id, si.applicants[j]));
                }
            }
            assert forall|i: int| 0 <= i < postv.shifts.len() implies postv.assignment_ok(
                #[trigger] postv.shifts[i],
            ) by {
                let pi: int = if i < s0 {
                    i
                } else {
                    i + 1
                };
                assert(pre.assignment_ok(pre.shifts[pi]));
            }
        }
        Ok(true)
    }

    /// Returns all shifts posted by one business, in creation order.
    pub fn get_shifts_by_business(&self, business_id: &String) -> (r: Vec<Shift>)
        ensures
            r.deep_view() == self@.shifts.filter(|s: ShiftView| s.business_id == business_id@),
    {
        let ghost pred = |s: ShiftView| s.business_id == business_id@;
        let mut out: Vec<Shift> = Vec::new();
        proof {
            assert(out.deep_view() =~= self@.shifts.take(0).filter(pred));
        }
        let n = self.shifts.len();
        let mut i: usize = 0;
        while i < n
            invariant
                n == self.shifts.len(),
                i <= n,
                out.deep_view() == self@.shifts.take(i as int).filter(pred),
                pred == (|s: ShiftView| s.business_id == business_id@),
            decreases n - i,
        {
            proof {
                assert(self@.shifts.take(i + 1) =~= self@.shifts.take(i as int).push(
                    self@.shifts[i as int],
                ));
                lemma_filter_push(self@.shifts.take(i as int), self@.shifts[i as int], pred);
            }
            if self.shifts[i].business_id == *business_id {
                out.push(self.shifts[i].clone());
                proof {
                    assert(out.deep_view() =~= self@.shifts.take(i + 1).filter(pred));
                }
            } else {
                proof {
                    assert(out.deep_view() =~= self@.shifts.take(i + 1).filter(pred));
                }
            }
            i += 1;
        }
        proof {
            assert(self@.shifts.take(n as int) =~= self@.shifts);
        }
        out
    }

    /// Returns all open shifts, optionally narrowed to those whose
    /// location contains the given text, in creation order.
    pub fn get_available_shifts(&self, location_filter: Option<String>) -> (r: Vec<Shift>)
        ensures
            r.deep_view() == self@.shifts.filter(
                |s: ShiftView| available_shift(s, location_filter.deep_view()),
            ),
    {
        let ghost pred = |s: ShiftView| available_shift(s, location_filter.deep_view());
        let mut out: Vec<Shift> = Vec::new();
        proof {
            assert(out.deep_view() =~= self@.shifts.take(0).filter(pred));
        }
        let n = self.shifts.len();
        let mut i: usize = 0;
        while i < n
            invariant
                n == self.shifts.len(),
                i <= n,
                out.deep_view() == self@.shifts.take(i as int).filter(pred),
                pred == (|s: ShiftView| available_shift(s, location_filter.deep_view())),
            decreases n - i,
        {
            proof {
                assert(self@.shifts.take(i + 1) =~= self@.shifts.take(i as int).push(
                    self@.shifts[i as int],
                ));
                lemma_filter_push(self@.shifts.take(i as int), self@.shifts[i as int], pred);
            }
            let is_open = self.shifts[i].status == ShiftStatus::Open;
            let passes = if is_open {
                match &location_filter {
                    None => true,
                    Some(loc) => str_contains(self.shifts[i].location.as_str(), loc.as_str()),
                }
            } else {
                false
            };
            if passes {
                out.push(self.shifts[i].clone());
                proof {
                    assert(pred(self@.shifts[i as int]));
                    assert(out.deep_view() =~= self@.shifts.take(i + 1).filter(pred));
                }
            } else {
                proof {
                    assert(!pred(self@.shifts[i as int]));
                    assert(out.deep_view() =~= self@.shifts.take(i + 1).filter(pred));
                }
            }
            i += 1;
        }
        proof {
            assert(self@.shifts.take(n as int) =~= self@.shifts);
        }
        out
    }
}

} // verus!
