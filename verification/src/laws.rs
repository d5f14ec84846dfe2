//! The cross-entity laws of the store, stated over the abstract state and
//! proved from the invariant that every operation maintains.

use vstd::prelude::*;

use crate::applications::apply_to_shift_post;
use crate::applications::apply_to_shift_result;
use crate::error::Error;
use crate::state::average_matches;
use crate::state::StateView;
use crate::types::ApplicationStatus;
use crate::types::WorkHistoryView;

verus! {

/// Law: a worker's cached average on the profile and on the credential
/// document agree, and both are exactly the arithmetic mean of every
/// persisted rating of that worker — absent exactly when no rating exists.
/// The invariant keeps this true at all times, in particular immediately
/// after any rating is recorded.
pub proof fn lemma_average_consistency(s: StateView, worker_id: Seq<char>)
    requires
        s.wf(),
        s.has_worker(worker_id),
        s.has_doc(worker_id),
    ensures
        s.worker_for(worker_id).average_rating == s.doc_for(worker_id).average_rating,
        average_matches(s.worker_for(worker_id).average_rating, s.ratings_of(worker_id)),
        (s.worker_for(worker_id).average_rating is None) == (s.ratings_of(worker_id).len() == 0),
{
    let wi = s.worker_idx(worker_id);
    let di = s.doc_idx(worker_id);
    assert(average_matches(s.worker_profiles[wi].average_rating, s.ratings_of(worker_id)));
    assert(average_matches(s.did_documents[di].average_rating, s.ratings_of(worker_id)));
    let a = s.worker_profiles[wi].average_rating;
    let b = s.did_documents[di].average_rating;
    match (a, b) {
        (Some(x), Some(y)) => {
            assert(x.sum == y.sum && x.count == y.count);
            assert(x == y);
        },
        _ => {},
    }
}

/// Law: a shift has an assigned worker exactly when an approved
/// application for it exists; then the approved application is unique and
/// names the assigned worker.
pub proof fn lemma_assignment_consistency(s: StateView, shift_id: Seq<char>)
    requires
        s.wf(),
        s.has_shift(shift_id),
    ensures
        (s.shift_for(shift_id).assigned_worker is Some) == (exists|k: int|
            0 <= k < s.applications.len() && (#[trigger] s.applications[k]).shift_id == shift_id
                && s.applications[k].status == ApplicationStatus::Approved),
        s.shift_for(shift_id).assigned_worker matches Some(w0) ==> s.has_app(shift_id, w0)
            && s.app_for(shift_id, w0).status == ApplicationStatus::Approved && (forall|k: int|
            0 <= k < s.applications.len() && (#[trigger] s.applications[k]).shift_id == shift_id
                && s.applications[k].status == ApplicationStatus::Approved
                ==> s.applications[k].worker_id == w0),
{
    let i = s.shift_idx(shift_id);
    assert(s.assignment_ok(s.shifts[i]));
    match s.shifts[i].assigned_worker {
        Some(w0) => {
            let k = s.app_idx(shift_id, w0);
            assert(0 <= k < s.applications.len() && s.applications[k].shift_id == shift_id
                && s.applications[k].status == ApplicationStatus::Approved);
        },
        None => {},
    }
}

/// Law: applying to the same shift twice is refused the second time with
/// `AlreadyApplied` — a `Conflict` — the store does not move, and the
/// worker stands in the applicant list exactly once.
pub proof fn lemma_apply_idempotent(
    s0: StateView,
    caller: Seq<char>,
    shift_id: Seq<char>,
    m1: Option<Seq<char>>,
    t1: i64,
    m2: Option<Seq<char>>,
    t2: i64,
)
    requires
        s0.wf(),
        apply_to_shift_result(s0, caller, shift_id) == Ok::<bool, Error>(true),
    ensures
        ({
            let s1 = apply_to_shift_post(s0, caller, shift_id, m1, t1);
            &&& apply_to_shift_result(s1, caller, shift_id) == Err::<bool, Error>(
                Error::AlreadyApplied,
            )
            &&& Error::AlreadyApplied.kind_spec() == crate::error::ErrorKind::Conflict
            &&& apply_to_shift_post(s1, caller, shift_id, m2, t2) == s1
            &&& s1.shift_for(shift_id).applicants.contains(s0.user_for(caller).id)
            &&& s1.shift_for(shift_id).applicants.no_duplicates()
        }),
{
    let s1 = apply_to_shift_post(s0, caller, shift_id, m1, t1);
    let u = s0.user_for(caller).id;
    let i0 = s0.shift_idx(shift_id);
    let snew = s1.shifts[i0];
    assert(s1.user_profiles == s0.user_profiles);
    assert(s1.has_user(caller) && s1.user_idx(caller) == s0.user_idx(caller));
    assert(snew.id == shift_id);
    assert(s1.has_shift(shift_id));
    let j = s1.shift_idx(shift_id);
    if j != i0 {
        assert(s1.shifts[j].id == shift_id);
        assert(s0.shifts[j].id == shift_id);
        assert(s0.shifts[i0].id == shift_id);
        assert(s0.shifts[j].id != s0.shifts[i0].id);
    }
    assert(s1.shift_for(shift_id) == snew);
    assert(snew.applicants == s0.shift_for(shift_id).applicants.push(u));
    assert(snew.applicants[snew.applicants.len() - 1] == u);
    assert(snew.applicants.contains(u));
    assert(apply_to_shift_result(s1, caller, shift_id) == Err::<bool, Error>(
        Error::AlreadyApplied,
    ));
    let olds = s0.shift_for(shift_id).applicants;
    assert(s0.applicants_ok(s0.shifts[i0]));
    assert forall|a: int, b: int|
        0 <= a < snew.applicants.len() && 0 <= b < snew.applicants.len() && a != b
            implies snew.applicants[a] != snew.applicants[b] by {
        if a < olds.len() && b < olds.len() {
            assert(olds.no_duplicates());
        } else if a < olds.len() {
            if olds[a] == u {
                assert(olds.contains(u));
            }
        } else if b < olds.len() {
            if olds[b] == u {
                assert(olds.contains(u));
            }
        }
    }
}

/// Law: a caller whose resolved identity does not own a shift can neither
/// update nor delete it, nor decide its applications: every such call is
/// `Unauthorized` and the store does not move.
pub proof fn lemma_unauthorized_shift_mutation(
    s: StateView,
    caller: Seq<char>,
    shift_id: Seq<char>,
    worker_id: Seq<char>,
    draft: crate::types::ShiftView,
    now: i64,
)
    requires
        s.wf(),
        s.has_user(caller),
        s.has_shift(shift_id),
        s.shift_for(shift_id).business_id != s.user_for(caller).id,
    ensures
        crate::shifts::owned_shift_check(s, caller, shift_id) == Some(Error::Unauthorized),
        crate::shifts::update_shift_post(s, caller, shift_id, draft, now) == s,
        crate::shifts::delete_shift_post(s, caller, shift_id) == s,
        crate::applications::decide_application_result(s, caller, shift_id, worker_id, true)
            == Err::<bool, Error>(Error::Unauthorized),
        crate::applications::approve_application_post(s, caller, shift_id, worker_id, now) == s,
        crate::applications::reject_application_post(s, caller, shift_id, worker_id) == s,
{
}

/// Law: a caller whose resolved identity is not the business named in a
/// ledger record cannot write that record: the call is `Unauthorized` and
/// the store does not move.
pub proof fn lemma_unauthorized_ledger_write(
    s: StateView,
    caller: Seq<char>,
    e: WorkHistoryView,
    rv: crate::types::RatingView,
    now: i64,
)
    requires
        s.wf(),
        s.has_user(caller),
    ensures
        s.user_for(caller).id != e.business_id ==> crate::ledger::create_work_history_result(
            s,
            caller,
            e,
        ) == Err::<bool, Error>(Error::Unauthorized) && crate::ledger::create_work_history_post(
            s,
            caller,
            e,
            now,
        ) == s,
        s.user_for(caller).id != rv.business_id ==> crate::ledger::create_rating_result(
            s,
            caller,
            rv,
        ) == Err::<bool, Error>(Error::Unauthorized) && crate::ledger::create_rating_post(
            s,
            caller,
            rv,
            now,
        ) == s,
{
}

/// Law: a profile mutation whose target is owned by another identity is
/// `Unauthorized` and the store does not move.
pub proof fn lemma_unauthorized_profile_mutation(
    s: StateView,
    caller: Seq<char>,
    u: crate::types::UserProfileView,
    w: crate::types::WorkerProfileView,
    b: crate::types::BusinessProfileView,
    now: i64,
)
    requires
        s.wf(),
        s.has_user(caller),
    ensures
        u.owner_principal != caller ==> crate::profiles::update_user_profile_check(s, caller, u)
            == Some(Error::Unauthorized) && crate::profiles::update_user_profile_post(
            s,
            caller,
            u,
            now,
        ) == s,
        w.user_id != s.user_for(caller).id ==> crate::profiles::update_profile_check(
            s,
            caller,
            w.user_id,
            s.has_worker(w.user_id),
        ) == Some(Error::Unauthorized) && crate::profiles::update_worker_profile_post(s, caller, w)
            == s,
        b.user_id != s.user_for(caller).id ==> crate::profiles::update_profile_check(
            s,
            caller,
            b.user_id,
            s.has_business(b.user_id),
        ) == Some(Error::Unauthorized) && crate::profiles::update_business_profile_post(s, caller, b)
            == s,
{
}

/// Law: a credential document lists its worker's history entry ids in
/// exactly the order the entries were created — the order the history
/// listing returns — and its shift counter counts them.
pub proof fn lemma_history_order(s: StateView, worker_id: Seq<char>)
    requires
        s.wf(),
        s.has_doc(worker_id),
    ensures
        s.doc_for(worker_id).work_history == s.history_of(worker_id).map_values(
            |h: WorkHistoryView| h.id,
        ),
        s.doc_for(worker_id).total_shifts == s.history_of(worker_id).len(),
{
    let di = s.doc_idx(worker_id);
    assert(s.doc_ok(s.did_documents[di]));
}

} // verus!
