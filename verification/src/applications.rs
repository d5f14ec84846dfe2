//! Application intake and approval: the decision half of the shift
//! lifecycle. A worker applies to an open shift once; the owning business
//! approves or rejects the pending application, and approval assigns the
//! worker to the shift.

use vstd::prelude::*;

use crate::error::Error;
use crate::notify::set_at;
use crate::seqs::lemma_filter_push;
use crate::state::lemma_ledger_frame;
use crate::state::State;
use crate::state::StateView;
use crate::types::ApplicationStatus;
use crate::types::ShiftApplication;
use crate::types::ShiftApplicationView;
use crate::types::ShiftStatus;
use crate::types::ShiftView;
use crate::types::UserType;

verus! {

/// Whether a vector of strings holds one with the given view.
pub fn string_vec_contains(v: &Vec<String>, x: &String) -> (b: bool)
    ensures
        b == v.deep_view().contains(x@),
{
    let n = v.len();
    let mut i: usize = 0;
    while i < n
        invariant
            n == v.len(),
            i <= n,
            forall|j: int| 0 <= j < i ==> v.deep_view()[j] != x@,
        decreases n - i,
    {
        if v[i] == *x {
            proof {
                assert(v.deep_view()[i as int] == x@);
            }
            return true;
        }
        i += 1;
    }
    false
}

/// Decision of `apply_to_shift`: the caller must resolve to a Worker
/// identity, the shift must exist and be open, and the worker must not
/// already be an applicant.
pub open spec fn apply_to_shift_result(
    pre: StateView,
    caller: Seq<char>,
    shift_id: Seq<char>,
) -> Result<bool, Error> {
    if !pre.has_user(caller) {
        Err(Error::NotFound)
    } else if pre.user_for(caller).user_type != UserType::Worker {
        Err(Error::NotAWorker)
    } else if !pre.has_shift(shift_id) {
        Err(Error::NotFound)
    } else if pre.shift_for(shift_id).status != ShiftStatus::Open {
        Err(Error::ShiftNotOpen)
    } else if pre.shift_for(shift_id).applicants.contains(pre.user_for(caller).id) {
        Err(Error::AlreadyApplied)
    } else {
        Ok(true)
    }
}

/// The store after `apply_to_shift`: on success a pending application for
/// (shift, worker) is appended and the worker joins the shift's applicant
/// list; on any failure nothing changes.
pub open spec fn apply_to_shift_post(
    pre: StateView,
    caller: Seq<char>,
    shift_id: Seq<char>,
    message: Option<Seq<char>>,
    now: i64,
) -> StateView {
    if apply_to_shift_result(pre, caller, shift_id) matches Ok(_) {
        let u = pre.user_for(caller).id;
        let s = pre.shift_for(shift_id);
        StateView {
            applications: pre.applications.push(
                (ShiftApplicationView {
                    shift_id: shift_id,
                    worker_id: u,
                    applied_at: now,
                    message: message,
                    status: ApplicationStatus::Pending,
                }),
            ),
            shifts: pre.shifts.update(
                pre.shift_idx(shift_id),
                (ShiftView { applicants: s.applicants.push(u), updated_at: now, ..s }),
            ),
            ..pre
        }
    } else {
        pre
    }
}

/// Decision of `approve_application` and `reject_application`: the shift
/// and the caller's identity must exist, the caller must own the shift,
/// and the named application must exist and be pending. Approval further
/// needs the shift to be unassigned, so that exactly one approved
/// application can exist per shift.
pub open spec fn decide_application_result(
    pre: StateView,
    caller: Seq<char>,
    shift_id: Seq<char>,
    worker_id: Seq<char>,
    approve: bool,
) -> Result<bool, Error> {
    if !pre.has_shift(shift_id) {
        Err(Error::NotFound)
    } else if !pre.has_user(caller) {
        Err(Error::NotFound)
    } else if pre.shift_for(shift_id).business_id != pre.user_for(caller).id {
        Err(Error::Unauthorized)
    } else if !pre.has_app(shift_id, worker_id) {
        Err(Error::NotFound)
    } else if pre.app_for(shift_id, worker_id).status != ApplicationStatus::Pending {
        Err(Error::WrongApplicationStatus)
    } else if approve && pre.shift_for(shift_id).assigned_worker is Some {
        Err(Error::AlreadyAssigned)
    } else {
        Ok(true)
    }
}

/// The store after `approve_application`: the pending application flips to
/// approved, and the shift is assigned to the worker and moves to the
/// `Approved` status; on any failure nothing changes.
pub open spec fn approve_application_post(
    pre: StateView,
    caller: Seq<char>,
    shift_id: Seq<char>,
    worker_id: Seq<char>,
    now: i64,
) -> StateView {
    if decide_application_result(pre, caller, shift_id, worker_id, true) matches Ok(_) {
        let a = pre.app_for(shift_id, worker_id);
        let s = pre.shift_for(shift_id);
        StateView {
            applications: pre.applications.update(
                pre.app_idx(shift_id, worker_id),
                (ShiftApplicationView { status: ApplicationStatus::Approved, ..a }),
            ),
            shifts: pre.shifts.update(
                pre.shift_idx(shift_id),
                (ShiftView {
                    assigned_worker: Some(worker_id),
                    status: ShiftStatus::Approved,
                    updated_at: now,
                    ..s
                }),
            ),
            ..pre
        }
    } else {
        pre
    }
}

/// The store after `reject_application`: the pending application flips to
/// rejected and the shift is untouched; on any failure nothing changes.
pub open spec fn reject_application_post(
    pre: StateView,
    caller: Seq<char>,
    shift_id: Seq<char>,
    worker_id: Seq<char>,
) -> StateView {
    if decide_application_result(pre, caller, shift_id, worker_id, false) matches Ok(_) {
        let a = pre.app_for(shift_id, worker_id);
        StateView {
            applications: pre.applications.update(
                pre.app_idx(shift_id, worker_id),
                (ShiftApplicationView { status: ApplicationStatus::Rejected, ..a }),
            ),
            ..pre
        }
    } else {
        pre
    }
}

impl State {
    /// A worker applies to an open shift: records a pending application
    /// keyed by (shift, worker) and appends the worker to the shift's
    /// applicant list. Refused for a duplicate application, a shift that
    /// is not open, or a caller that is not a worker.
    pub fn apply_to_shift(
        &mut self,
        caller: &String,
        now: i64,
        shift_id: &String,
        message: Option<String>,
    ) -> (r: Result<bool, Error>)
        requires
            old(self).inv(),
        ensures
            final(self).inv(),
            r == apply_to_shift_result(old(self)@, caller@, shift_id@),
            final(self)@ == apply_to_shift_post(
                old(self)@,
                caller@,
                shift_id@,
                message.deep_view(),
                now,
            ),
    {
        let ghost pre = self@;
        let user_i = match self.find_user(caller) {
            Some(i) => i,
            None => {
                return Err(Error::NotFound);
            },
        };
        if !(self.user_profiles[user_i].user_type == UserType::Worker) {
            return Err(Error::NotAWorker);
        }
        let shift_i = match self.find_shift(shift_id) {
            Some(i) => i,
            None => {
                return Err(Error::NotFound);
            },
        };
        if !(self.shifts[shift_i].status == ShiftStatus::Open) {
            return Err(Error::ShiftNotOpen);
        }
        if string_vec_contains(&self.shifts[shift_i].applicants, &self.user_profiles[user_i].id) {
            return Err(Error::AlreadyApplied);
        }
        let ghost u = pre.user_for(caller@).id;
        let user_id = self.user_profiles[user_i].id.clone();
        let application = ShiftApplication {
            shift_id: shift_id.clone(),
            worker_id: user_id.clone(),
            applied_at: now,
            message,
            status: ApplicationStatus::Pending,
        };
        let ghost av = application@;
        proof {
            // no application exists for this pair: the applicant list and
            // the application records agree, and the worker is not listed
            if pre.has_app(shift_id@, u) {
                let k = pre.app_idx(shift_id@, u);
                assert(pre.applicants_ok(pre.shifts[shift_i as int]));
                assert(pre.shifts[shift_i as int].applicants.contains(
                    pre.applications[k].worker_id,
                ));
            }
        }
        self.applications.push(application);
        let mut sh = self.shifts[shift_i].clone();
        let ghost spre = sh@;
        sh.applicants.push(user_id);
        sh.updated_at = now;
        let ghost sv = sh@;
        proof {
            assert(sv =~= (ShiftView { applicants: spre.applicants.push(u), updated_at: now, ..spre }));
        }
        set_at(&mut self.shifts, shift_i, sh);
        proof {
            let postv = self@;
            assert(postv.applications =~= pre.applications.push(av));
            assert(postv.shifts =~= pre.shifts.update(pre.shift_idx(shift_id@), sv));
            assert(postv =~= apply_to_shift_post(pre, caller@, shift_id@, av.message, now));
            lemma_ledger_frame(pre, postv);
            // the new pair is unique among applications
            assert forall|i: int, j: int|
                0 <= i < j < postv.applications.len() implies !((
            #[trigger] postv.applications[i]).shift_id == (#[trigger] postv.applications[j]).shift_id
                && postv.applications[i].worker_id == postv.applications[j].worker_id) by {
                if j < pre.applications.len() {
                    assert(!(pre.applications[i].shift_id == pre.applications[j].shift_id
                        && pre.applications[i].worker_id == pre.applications[j].worker_id));
                } else {
                    assert(postv.applications[j] == av);
                    if postv.applications[i].shift_id == shift_id@ && postv.applications[i].worker_id
                        == u {
                        assert(pre.has_app(shift_id@, u));
                    }
                }
            }
            // every shift's applicant list still matches its applications
            assert forall|i: int| 0 <= i < postv.shifts.len() implies postv.applicants_ok(
                #[trigger] postv.shifts[i],
            ) by {
                assert(pre.applicants_ok(pre.shifts[i]));
                let si = postv.shifts[i];
                if i == pre.shift_idx(shift_id@) {
                    // the updated shift: old applicants plus the worker
                    assert forall|a: int, b: int|
                        0 <= a < si.applicants.len() && 0 <= b < si.applicants.len() && a != b
                            implies si.applicants[a] != si.applicants[b] by {
                        let olds = spre.applicants;
                        if a < olds.len() && b < olds.len() {
                            assert(olds.no_duplicates());
                        } else if a < olds.len() {
                            if olds[a] == u {
                                assert(olds.contains(u));
                            }
                        } else if b < olds.len() {
                            if olds[b] == u {
                                assert(olds.contains(u));
                            }
                        }
                    }
                    assert(si.applicants.no_duplicates());
                    assert forall|j: int| 0 <= j < si.applicants.len() implies postv.has_app(
                        si.id,
                        #[trigger] si.applicants[j],
                    ) by {
                        if j < spre.applicants.len() {
                            assert(pre.has_app(spre.id, spre.applicants[j]));
                            let k = pre.app_idx(spre.id, spre.applicants[j]);
                            assert(postv.applications[k].shift_id == si.id);
                        } else {
                            assert(postv.applications[postv.applications.len() - 1].worker_id == u);
                        }
                    }
                    assert forall|k: int|
                        0 <= k < postv.applications.len() && (
                    #[trigger] postv.applications[k]).shift_id == si.id implies si.applicants.contains(
                        postv.applications[k].worker_id,
                    ) by {
                        if k < pre.applications.len() {
                            assert(spre.applicants.contains(pre.applications[k].worker_id));
                            let j = choose|j: int|
                                0 <= j < spre.applicants.len() && spre.applicants[j]
                                    == pre.applications[k].worker_id;
                            assert(si.applicants[j] == pre.applications[k].worker_id);
                        } else {
                            assert(si.applicants[si.applicants.len() - 1] == u);
                        }
                    }
                } else {
                    // an untouched shift: the new application names another
                    // shift id, since shift ids are unique
                    assert(si == pre.shifts[i]);
                    assert(pre.shifts[pre.shift_idx(shift_id@)].id == shift_id@);
                    assert(si.id != shift_id@);
                    assert forall|j: int| 0 <= j < si.applicants.len() implies postv.has_app(
                        si.id,
                        #[trigger] si.applicants[j],
                    ) by {
                        assert(pre.has_app(si.id, si.applicants[j]));
                        let k = pre.app_idx(si.id, si.applicants[j]);
                        assert(postv.applications[k].shift_id == si.id);
                    }
                }
            }
            // assignment stays consistent: the new application is pending
            assert forall|i: int| 0 <= i < postv.shifts.len() implies postv.assignment_ok(
                #[trigger] postv.shifts[i],
            ) by {
                assert(pre.assignment_ok(pre.shifts[i]));
                let si = postv.shifts[i];
                match si.assigned_worker {
                    Some(w0) => {
                        let k = pre.app_idx(si.id, w0);
                        assert(pre.applications[k].shift_id == si.id && pre.applications[k].worker_id
                            == w0);
                        assert(postv.applications[k] == pre.applications[k]);
                        assert(postv.has_app(si.id, w0));
                        let k2 = postv.app_idx(si.id, w0);
                        if k2 != k {
                            assert(!(postv.applications[k2].shift_id
                                == postv.applications[k].shift_id
                                && postv.applications[k2].worker_id
                                == postv.applications[k].worker_id));
                        }
                        assert(postv.app_for(si.id, w0).status == ApplicationStatus::Approved);
                    },
                    None => {},
                }
            }
        }
        Ok(true)
    }

    /// Returns all applications for one shift, in application order.
    pub fn get_shift_applications(&self, shift_id: &String) -> (r: Vec<ShiftApplication>)
        ensures
            r.deep_view() == self@.applications.filter(
                |a: ShiftApplicationView| a.shift_id == shift_id@,
            ),
    {
        let ghost pred = |a: ShiftApplicationView| a.shift_id == shift_id@;
        let mut out: Vec<ShiftApplication> = Vec::new();
        proof {
            assert(out.deep_view() =~= self@.applications.take(0).filter(pred));
        }
        let n = self.applications.len();
        let mut i: usize = 0;
        while i < n
            invariant
                n == self.applications.len(),
                i <= n,
                out.deep_view() == self@.applications.take(i as int).filter(pred),
                pred == (|a: ShiftApplicationView| a.shift_id == shift_id@),
            decreases n - i,
        {
            proof {
                assert(self@.applications.take(i + 1) =~= self@.applications.take(i as int).push(
                    self@.applications[i as int],
                ));
                lemma_filter_push(
                    self@.applications.take(i as int),
                    self@.applications[i as int],
                    pred,
                );
            }
            if self.applications[i].shift_id == *shift_id {
                out.push(self.applications[i].clone());
                proof {
                    assert(out.deep_view() =~= self@.applications.take(i + 1).filter(pred));
                }
            } else {
                proof {
                    assert(out.deep_view() =~= self@.applications.take(i + 1).filter(pred));
                }
            }
            i += 1;
        }
        proof {
            assert(self@.applications.take(n as int) =~= self@.applications);
        }
        out
    }

    /// The owning business approves a pending application: the application
    /// flips to approved and the shift is assigned to that worker and
    /// moves to `Approved`.
    pub fn approve_application(
        &mut self,
        caller: &String,
        now: i64,
        shift_id: &String,
        worker_id: &String,
    ) -> (r: Result<bool, Error>)
        requires
            old(self).inv(),
        ensures
            final(self).inv(),
            r == decide_application_result(old(self)@, caller@, shift_id@, worker_id@, true),
            final(self)@ == approve_application_post(
                old(self)@,
                caller@,
                shift_id@,
                worker_id@,
                now,
            ),
    {
        let ghost pre = self@;
        let shift_i = match self.find_shift(shift_id) {
            Some(i) => i,
            None => {
                return Err(Error::NotFound);
            },
        };
        let user_i = match self.find_user(caller) {
            Some(i) => i,
            None => {
                return Err(Error::NotFound);
            },
        };
        if !(self.shifts[shift_i].business_id == self.user_profiles[user_i].id) {
            return Err(Error::Unauthorized);
        }
        let app_i = match self.find_app(shift_id, worker_id) {
            Some(i) => i,
            None => {
                return Err(Error::NotFound);
            },
        };
        if !(matches!(self.applications[app_i].status, ApplicationStatus::Pending)) {
            return Err(Error::WrongApplicationStatus);
        }
        if self.shifts[shift_i].assigned_worker.is_some() {
            return Err(Error::AlreadyAssigned);
        }
        let mut app = self.applications[app_i].clone();
        let ghost apre = app@;
        app.status = ApplicationStatus::Approved;
        let ghost av = app@;
        proof {
            assert(av =~= (ShiftApplicationView { status: ApplicationStatus::Approved, ..apre }));
        }
        set_at(&mut self.applications, app_i, app);
        let mut sh = self.shifts[shift_i].clone();
        let ghost spre = sh@;
        sh.assigned_worker = Some(worker_id.clone());
        sh.status = ShiftStatus::Approved;
        sh.updated_at = now;
        let ghost sv = sh@;
        proof {
            assert(sv =~= (ShiftView {
                assigned_worker: Some(worker_id@),
                status: ShiftStatus::Approved,
                updated_at: now,
                ..spre
            }));
        }
        set_at(&mut self.shifts, shift_i, sh);
        proof {
            let postv = self@;
            assert(postv.applications =~= pre.applications.update(
                pre.app_idx(shift_id@, worker_id@),
                av,
            ));
            assert(postv.shifts =~= pre.shifts.update(pre.shift_idx(shift_id@), sv));
            assert(postv =~= approve_application_post(pre, caller@, shift_id@, worker_id@, now));
            lemma_ledger_frame(pre, postv);
            let k0 = pre.app_idx(shift_id@, worker_id@);
            let s0 = pre.shift_idx(shift_id@);
            // the applicant lists still match: keys at every slot are kept
            assert forall|i: int| 0 <= i < postv.shifts.len() implies postv.applicants_ok(
                #[trigger] postv.shifts[i],
            ) by {
                assert(pre.applicants_ok(pre.shifts[i]));
                let si = postv.shifts[i];
                assert(si.applicants == pre.shifts[i].applicants);
                assert(si.id == pre.shifts[i].id);
                assert forall|j: int| 0 <= j < si.applicants.len() implies postv.has_app(
                    si.id,
                    #[trigger] si.applicants[j],
                ) by {
                    assert(pre.has_app(si.id, si.applicants[j]));
                    let k = pre.app_idx(si.id, si.applicants[j]);
                    assert(postv.applications[k].shift_id == si.id && postv.applications[k].worker_id
                        == si.applicants[j]);
                }
                assert forall|k: int|
                    0 <= k < postv.applications.len() && (#[trigger] postv.applications[k]).shift_id
                        == si.id implies si.applicants.contains(postv.applications[k].worker_id) by {
                    assert(pre.applications[k].shift_id == postv.applications[k].shift_id);
                    assert(pre.applications[k].worker_id == postv.applications[k].worker_id);
                    assert(si.applicants == pre.shifts[i].applicants);
                }
            }
            // exactly one approved application per assigned shift
            assert forall|i: int| 0 <= i < postv.shifts.len() implies postv.assignment_ok(
                #[trigger] postv.shifts[i],
            ) by {
                assert(pre.assignment_ok(pre.shifts[i]));
                let si = postv.shifts[i];
                if i == s0 {
                    assert(postv.applications[k0] == av);
                    assert(postv.has_app(si.id, worker_id@));
                    let k2 = postv.app_idx(si.id, worker_id@);
                    if k2 != k0 {
                        assert(!(postv.applications[k2].shift_id == postv.applications[k0].shift_id
                            && postv.applications[k2].worker_id
                            == postv.applications[k0].worker_id));
                    }
                    assert(postv.app_for(si.id, worker_id@).status == ApplicationStatus::Approved);
                    assert forall|k: int|
                        0 <= k < postv.applications.len() && (
                    #[trigger] postv.applications[k]).shift_id == si.id && postv.applications[k].status
                        == ApplicationStatus::Approved implies postv.applications[k].worker_id
                        == worker_id@ by {
                        if k != k0 {
                            assert(pre.applications[k].status != ApplicationStatus::Approved);
                        }
                    }
                } else {
                    assert(si == pre.shifts[i]);
                    assert(pre.shifts[s0].id == shift_id@);
                    assert(si.id != shift_id@);
                    assert(pre.applications[k0].shift_id == shift_id@);
                    match si.assigned_worker {
                        Some(w0) => {
                            let k = pre.app_idx(si.id, w0);
                            assert(pre.applications[k].shift_id == si.id
                                && pre.applications[k].worker_id == w0);
                            assert(k != k0);
                            assert(postv.applications[k] == pre.applications[k]);
                            assert(postv.has_app(si.id, w0));
                            let k2 = postv.app_idx(si.id, w0);
                            if k2 != k {
                                assert(!(postv.applications[k2].shift_id
                                    == postv.applications[k].shift_id
                                    && postv.applications[k2].worker_id
                                    == postv.applications[k].worker_id));
                            }
                            assert(postv.app_for(si.id, w0).status == ApplicationStatus::Approved);
                        },
                        None => {},
                    }
                }
            }
        }
        Ok(true)
    }

    /// The owning business rejects a pending application: the application
    /// flips to rejected; the shift itself is untouched.
    pub fn reject_application(
        &mut self,
        caller: &String,
        shift_id: &String,
        worker_id: &String,
    ) -> (r: Result<bool, Error>)
        requires
            old(self).inv(),
        ensures
            final(self).inv(),
            r == decide_application_result(old(self)@, caller@, shift_id@, worker_id@, false),
            final(self)@ == reject_application_post(old(self)@, caller@, shift_id@, worker_id@),
    {
        let ghost pre = self@;
        let shift_i = match self.find_shift(shift_id) {
            Some(i) => i,
            None => {
                return Err(Error::NotFound);
            },
        };
        let user_i = match self.find_user(caller) {
            Some(i) => i,
            None => {
                return Err(Error::NotFound);
            },
        };
        if !(self.shifts[shift_i].business_id == self.user_profiles[user_i].id) {
            return Err(Error::Unauthorized);
        }
        let app_i = match self.find_app(shift_id, worker_id) {
            Some(i) => i,
            None => {
                return Err(Error::NotFound);
            },
        };
        if !(matches!(self.applications[app_i].status, ApplicationStatus::Pending)) {
            return Err(Error::WrongApplicationStatus);
        }
        let mut app = self.applications[app_i].clone();
        let ghost apre = app@;
        app.status = ApplicationStatus::Rejected;
        let ghost av = app@;
        proof {
            assert(av =~= (ShiftApplicationView { status: ApplicationStatus::Rejected, ..apre }));
        }
        set_at(&mut self.applications, app_i, app);
        proof {
            let postv = self@;
            assert(postv.applications =~= pre.applications.update(
                pre.app_idx(shift_id@, worker_id@),
                av,
            ));
            assert(postv =~= reject_application_post(pre, caller@, shift_id@, worker_id@));
            lemma_ledger_frame(pre, postv);
            let k0 = pre.app_idx(shift_id@, worker_id@);
            assert forall|i: int| 0 <= i < postv.shifts.len() implies postv.applicants_ok(
                #[trigger] postv.shifts[i],
            ) by {
                assert(pre.applicants_ok(pre.shifts[i]));
                let si = postv.shifts[i];
                assert forall|j: int| 0 <= j < si.applicants.len() implies postv.has_app(
                    si.id,
                    #[trigger] si.applicants[j],
                ) by {
                    assert(pre.has_app(si.id, si.applicants[j]));
                    let k = pre.app_idx(si.id, si.applicants[j]);
                    assert(postv.applications[k].shift_id == si.id && postv.applications[k].worker_id
                        == si.applicants[j]);
                }
                assert forall|k: int|
                    0 <= k < postv.applications.len() && (#[trigger] postv.applications[k]).shift_id
                        == si.id implies si.applicants.contains(postv.applications[k].worker_id) by {
                    assert(pre.applications[k].shift_id == postv.applications[k].shift_id);
                    assert(pre.applications[k].worker_id == postv.applications[k].worker_id);
                }
            }
            // the rejected application was pending, so it was not the one
            // an assigned shift counts on
            assert forall|i: int| 0 <= i < postv.shifts.len() implies postv.assignment_ok(
                #[trigger] postv.shifts[i],
            ) by {
                assert(pre.assignment_ok(pre.shifts[i]));
                let si = postv.shifts[i];
                match si.assigned_worker {
                    Some(w0) => {
                        let k = pre.app_idx(si.id, w0);
                        assert(pre.applications[k].shift_id == si.id
                            && pre.applications[k].worker_id == w0);
                        assert(pre.applications[k].status == ApplicationStatus::Approved);
                        assert(k != k0);
                        assert(postv.applications[k] == pre.applications[k]);
                        assert(postv.has_app(si.id, w0));
                        let k2 = postv.app_idx(si.id, w0);
                        if k2 != k {
                            assert(!(postv.applications[k2].shift_id
                                == postv.applications[k].shift_id
                                && postv.applications[k2].worker_id
                                == postv.applications[k].worker_id));
                        }
                        assert(postv.app_for(si.id, w0).status == ApplicationStatus::Approved);
                    },
                    None => {},
                }
            }
        }
        Ok(true)
    }
}

} // verus!
