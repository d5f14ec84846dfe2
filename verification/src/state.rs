//! The entity store of the marketplace core: one keyed collection per
//! entity type, held in memory and modeled as sequences in creation order,
//! together with the cross-entity invariant that every operation preserves.
//!
//! The durable key-value store of the host is an external collaborator;
//! the core works against this injected state so the lifecycle and ledger
//! rules are provable and testable on their own.

use vstd::prelude::*;

use crate::types::ApplicationStatus;
use crate::types::BusinessProfile;
use crate::types::BusinessProfileView;
use crate::types::DIDDocument;
use crate::types::DIDDocumentView;
use crate::types::Notification;
use crate::types::NotificationView;
use crate::types::PrincipalUserId;
use crate::types::PrincipalUserIdView;
use crate::types::Rating;
use crate::types::RatingAverage;
use crate::types::RatingView;
use crate::types::Shift;
use crate::types::ShiftApplication;
use crate::types::ShiftApplicationView;
use crate::types::ShiftView;
use crate::types::UserProfile;
use crate::types::UserProfileView;
use crate::types::WorkHistory;
use crate::types::WorkHistoryView;
use crate::types::WorkerProfile;
use crate::types::WorkerProfileView;

verus! {

/// Sum of the integer scores of a sequence of ratings.
pub open spec fn sum_scores(rs: Seq<RatingView>) -> int
    decreases rs.len(),
{
    if rs.len() == 0 {
        0
    } else {
        sum_scores(rs.drop_last()) + rs.last().rating
    }
}

/// Appending a rating adds its score to the sum.
pub proof fn lemma_sum_scores_push(rs: Seq<RatingView>, r: RatingView)
    ensures
        sum_scores(rs.push(r)) == sum_scores(rs) + r.rating,
{
    assert(rs.push(r).drop_last() =~= rs);
    assert(rs.push(r).last() == r);
}

/// The score sum is non-negative and at most 255 per rating.
pub proof fn lemma_sum_scores_bounds(rs: Seq<RatingView>)
    ensures
        0 <= sum_scores(rs) <= 255 * rs.len(),
    decreases rs.len(),
{
    if rs.len() > 0 {
        lemma_sum_scores_bounds(rs.drop_last());
    }
}

/// The exact mean of a sequence of ratings: absent for an empty sequence,
/// otherwise the pair of score sum and count.
pub open spec fn avg_of(rs: Seq<RatingView>) -> Option<RatingAverage> {
    if rs.len() == 0 {
        None
    } else {
        Some(RatingAverage { sum: sum_scores(rs) as u128, count: rs.len() as u64 })
    }
}

/// For any rating sequence a machine can hold, `avg_of` is the average
/// that `average_matches` accepts.
pub proof fn lemma_avg_of_matches(rs: Seq<RatingView>)
    requires
        rs.len() <= 0xffff_ffff_ffff_ffff,
    ensures
        average_matches(avg_of(rs), rs),
{
    lemma_sum_scores_bounds(rs);
}

/// Whether a cached average is exactly the arithmetic mean of the given
/// ratings: absent for an empty set, and otherwise the exact pair of score
/// sum and count.
pub open spec fn average_matches(a: Option<RatingAverage>, rs: Seq<RatingView>) -> bool {
    match a {
        None => rs.len() == 0,
        Some(av) => rs.len() > 0 && av.sum == sum_scores(rs) && av.count == rs.len(),
    }
}

/// The abstract value of the whole store: each collection as the sequence
/// of its records, in creation order.
#[verifier::ext_equal]
pub ghost struct StateView {
    pub user_profiles: Seq<UserProfileView>,
    pub principal_to_user_id: Seq<PrincipalUserIdView>,
    pub worker_profiles: Seq<WorkerProfileView>,
    pub business_profiles: Seq<BusinessProfileView>,
    pub shifts: Seq<ShiftView>,
    pub work_history: Seq<WorkHistoryView>,
    pub ratings: Seq<RatingView>,
    pub did_documents: Seq<DIDDocumentView>,
    pub applications: Seq<ShiftApplicationView>,
    pub notifications: Seq<NotificationView>,
}

impl StateView {
    // ---- lookups, defined for each store by its key ----

    pub open spec fn has_user(self, principal: Seq<char>) -> bool {
        exists|i: int|
            0 <= i < self.user_profiles.len() && (#[trigger] self.user_profiles[i]).owner_principal
                == principal
    }

    pub open spec fn user_idx(self, principal: Seq<char>) -> int {
        choose|i: int|
            0 <= i < self.user_profiles.len() && (#[trigger] self.user_profiles[i]).owner_principal
                == principal
    }

    pub open spec fn user_for(self, principal: Seq<char>) -> UserProfileView {
        self.user_profiles[self.user_idx(principal)]
    }

    pub open spec fn has_worker(self, user_id: Seq<char>) -> bool {
        exists|i: int|
            0 <= i < self.worker_profiles.len() && (#[trigger] self.worker_profiles[i]).user_id
                == user_id
    }

    pub open spec fn worker_idx(self, user_id: Seq<char>) -> int {
        choose|i: int|
            0 <= i < self.worker_profiles.len() && (#[trigger] self.worker_profiles[i]).user_id
                == user_id
    }

    pub open spec fn worker_for(self, user_id: Seq<char>) -> WorkerProfileView {
        self.worker_profiles[self.worker_idx(user_id)]
    }

    pub open spec fn has_business(self, user_id: Seq<char>) -> bool {
        exists|i: int|
            0 <= i < self.business_profiles.len() && (#[trigger] self.business_profiles[i]).user_id
                == user_id
    }

    pub open spec fn business_idx(self, user_id: Seq<char>) -> int {
        choose|i: int|
            0 <= i < self.business_profiles.len() && (#[trigger] self.business_profiles[i]).user_id
                == user_id
    }

    pub open spec fn business_for(self, user_id: Seq<char>) -> BusinessProfileView {
        self.business_profiles[self.business_idx(user_id)]
    }

    pub open spec fn has_shift(self, id: Seq<char>) -> bool {
        exists|i: int| 0 <= i < self.shifts.len() && (#[trigger] self.shifts[i]).id == id
    }

    pub open spec fn shift_idx(self, id: Seq<char>) -> int {
        choose|i: int| 0 <= i < self.shifts.len() && (#[trigger] self.shifts[i]).id == id
    }

    pub open spec fn shift_for(self, id: Seq<char>) -> ShiftView {
        self.shifts[self.shift_idx(id)]
    }

    pub open spec fn has_history(self, id: Seq<char>) -> bool {
        exists|i: int| 0 <= i < self.work_history.len() && (#[trigger] self.work_history[i]).id == id
    }

    pub open spec fn has_rating(self, id: Seq<char>) -> bool {
        exists|i: int| 0 <= i < self.ratings.len() && (#[trigger] self.ratings[i]).id == id
    }

    pub open spec fn has_doc(self, worker_id: Seq<char>) -> bool {
        exists|i: int|
            0 <= i < self.did_documents.len() && (#[trigger] self.did_documents[i]).worker_id
                == worker_id
    }

    pub open spec fn doc_idx(self, worker_id: Seq<char>) -> int {
        choose|i: int|
            0 <= i < self.did_documents.len() && (#[trigger] self.did_documents[i]).worker_id
                == worker_id
    }

    pub open spec fn doc_for(self, worker_id: Seq<char>) -> DIDDocumentView {
        self.did_documents[self.doc_idx(worker_id)]
    }

    pub open spec fn has_app(self, shift_id: Seq<char>, worker_id: Seq<char>) -> bool {
        exists|i: int|
            0 <= i < self.applications.len() && (#[trigger] self.applications[i]).shift_id
                == shift_id && self.applications[i].worker_id == worker_id
    }

    pub open spec fn app_idx(self, shift_id: Seq<char>, worker_id: Seq<char>) -> int {
        choose|i: int|
            0 <= i < self.applications.len() && (#[trigger] self.applications[i]).shift_id
                == shift_id && self.applications[i].worker_id == worker_id
    }

    pub open spec fn app_for(self, shift_id: Seq<char>, worker_id: Seq<char>) -> ShiftApplicationView {
        self.applications[self.app_idx(shift_id, worker_id)]
    }

    pub open spec fn has_notification(self, id: Seq<char>) -> bool {
        exists|i: int|
            0 <= i < self.notifications.len() && (#[trigger] self.notifications[i]).id == id
    }

    pub open spec fn notification_idx(self, id: Seq<char>) -> int {
        choose|i: int|
            0 <= i < self.notifications.len() && (#[trigger] self.notifications[i]).id == id
    }

    pub open spec fn notification_for(self, id: Seq<char>) -> NotificationView {
        self.notifications[self.notification_idx(id)]
    }

    // ---- derived sequences ----

    /// All persisted ratings of one worker, in creation order.
    pub open spec fn ratings_of(self, worker_id: Seq<char>) -> Seq<RatingView> {
        self.ratings.filter(|r: RatingView| r.worker_id == worker_id)
    }

    /// All persisted work history entries of one worker, in creation order.
    pub open spec fn history_of(self, worker_id: Seq<char>) -> Seq<WorkHistoryView> {
        self.work_history.filter(|h: WorkHistoryView| h.worker_id == worker_id)
    }

    /// A shift id that nothing in the store refers to: the id generator of
    /// the host hands such ids to shift creation.
    pub open spec fn shift_id_fresh(self, id: Seq<char>) -> bool {
        &&& forall|i: int| 0 <= i < self.shifts.len() ==> (#[trigger] self.shifts[i]).id != id
        &&& forall|i: int|
            0 <= i < self.applications.len() ==> (#[trigger] self.applications[i]).shift_id != id
    }

    // ---- the invariant, one named clause per concern ----

    /// At most one identity record per owning caller.
    pub open spec fn users_unique(self) -> bool {
        forall|i: int, j: int|
            #![trigger self.user_profiles[i], self.user_profiles[j]]
            0 <= i < j < self.user_profiles.len() ==> self.user_profiles[i].owner_principal
                != self.user_profiles[j].owner_principal
    }

    /// The reverse caller index mirrors the identity records entry by
    /// entry.
    pub open spec fn principal_index_wf(self) -> bool {
        &&& self.principal_to_user_id.len() == self.user_profiles.len()
        &&& forall|i: int|
            0 <= i < self.user_profiles.len() ==> (#[trigger] self.principal_to_user_id[i]).principal
                == self.user_profiles[i].owner_principal && self.principal_to_user_id[i].user_id
                == self.user_profiles[i].id
    }

    /// At most one worker profile per identity id.
    pub open spec fn workers_unique(self) -> bool {
        forall|i: int, j: int|
            #![trigger self.worker_profiles[i], self.worker_profiles[j]]
            0 <= i < j < self.worker_profiles.len() ==> self.worker_profiles[i].user_id
                != self.worker_profiles[j].user_id
    }

    /// At most one business profile per identity id.
    pub open spec fn businesses_unique(self) -> bool {
        forall|i: int, j: int|
            #![trigger self.business_profiles[i], self.business_profiles[j]]
            0 <= i < j < self.business_profiles.len() ==> self.business_profiles[i].user_id
                != self.business_profiles[j].user_id
    }

    /// Shift ids are unique.
    pub open spec fn shifts_unique(self) -> bool {
        forall|i: int, j: int|
            #![trigger self.shifts[i], self.shifts[j]]
            0 <= i < j < self.shifts.len() ==> self.shifts[i].id != self.shifts[j].id
    }

    /// Work history ids are unique.
    pub open spec fn history_unique(self) -> bool {
        forall|i: int, j: int|
            #![trigger self.work_history[i], self.work_history[j]]
            0 <= i < j < self.work_history.len() ==> self.work_history[i].id
                != self.work_history[j].id
    }

    /// Rating ids are unique.
    pub open spec fn ratings_unique(self) -> bool {
        forall|i: int, j: int|
            #![trigger self.ratings[i], self.ratings[j]]
            0 <= i < j < self.ratings.len() ==> self.ratings[i].id != self.ratings[j].id
    }

    /// At most one credential document per worker id.
    pub open spec fn docs_unique(self) -> bool {
        forall|i: int, j: int|
            #![trigger self.did_documents[i], self.did_documents[j]]
            0 <= i < j < self.did_documents.len() ==> self.did_documents[i].worker_id
                != self.did_documents[j].worker_id
    }

    /// At most one application per (shift id, worker id) pair.
    pub open spec fn apps_unique(self) -> bool {
        forall|i: int, j: int|
            #![trigger self.applications[i], self.applications[j]]
            0 <= i < j < self.applications.len() ==> !(self.applications[i].shift_id
                == self.applications[j].shift_id && self.applications[i].worker_id
                == self.applications[j].worker_id)
    }

    /// Notification ids are unique.
    pub open spec fn notifications_unique(self) -> bool {
        forall|i: int, j: int|
            #![trigger self.notifications[i], self.notifications[j]]
            0 <= i < j < self.notifications.len() ==> self.notifications[i].id
                != self.notifications[j].id
    }

    /// A shift's applicant list has no duplicates and agrees exactly with
    /// the application records for that shift.
    pub open spec fn applicants_ok(self, s: ShiftView) -> bool {
        &&& s.applicants.no_duplicates()
        &&& forall|j: int|
            0 <= j < s.applicants.len() ==> self.has_app(s.id, #[trigger] s.applicants[j])
        &&& forall|k: int|
            0 <= k < self.applications.len() && (#[trigger] self.applications[k]).shift_id == s.id
                ==> s.applicants.contains(self.applications[k].worker_id)
    }

    pub open spec fn applicants_wf(self) -> bool {
        forall|i: int|
            0 <= i < self.shifts.len() ==> self.applicants_ok(#[trigger] self.shifts[i])
    }

    /// A shift has an assigned worker exactly when exactly one of its
    /// applications is approved, and then the assigned worker is that
    /// applicant.
    pub open spec fn assignment_ok(self, s: ShiftView) -> bool {
        match s.assigned_worker {
            Some(w0) => {
                &&& self.has_app(s.id, w0)
                &&& self.app_for(s.id, w0).status == ApplicationStatus::Approved
                &&& forall|k: int|
                    0 <= k < self.applications.len() && (#[trigger] self.applications[k]).shift_id
                        == s.id && self.applications[k].status == ApplicationStatus::Approved
                        ==> self.applications[k].worker_id == w0
            },
            None => forall|k: int|
                0 <= k < self.applications.len() && (#[trigger] self.applications[k]).shift_id
                    == s.id ==> self.applications[k].status != ApplicationStatus::Approved,
        }
    }

    pub open spec fn assignment_wf(self) -> bool {
        forall|i: int|
            0 <= i < self.shifts.len() ==> self.assignment_ok(#[trigger] self.shifts[i])
    }

    /// Every cached average equals the mean of the worker's persisted
    /// ratings.
    pub open spec fn averages_wf(self) -> bool {
        &&& forall|i: int|
            0 <= i < self.worker_profiles.len() ==> average_matches(
                (#[trigger] self.worker_profiles[i]).average_rating,
                self.ratings_of(self.worker_profiles[i].user_id),
            )
        &&& forall|i: int|
            0 <= i < self.did_documents.len() ==> average_matches(
                (#[trigger] self.did_documents[i]).average_rating,
                self.ratings_of(self.did_documents[i].worker_id),
            )
    }

    /// A credential document lists exactly the ids of its worker's history
    /// entries and ratings, in creation order, and counts the history
    /// entries.
    pub open spec fn doc_ok(self, d: DIDDocumentView) -> bool {
        &&& d.work_history == self.history_of(d.worker_id).map_values(|h: WorkHistoryView| h.id)
        &&& d.ratings == self.ratings_of(d.worker_id).map_values(|r: RatingView| r.id)
        &&& d.total_shifts == self.history_of(d.worker_id).len()
    }

    pub open spec fn docs_wf(self) -> bool {
        forall|i: int|
            0 <= i < self.did_documents.len() ==> self.doc_ok(#[trigger] self.did_documents[i])
    }

    /// Every worker profile has its credential document, created with it.
    pub open spec fn workers_have_docs(self) -> bool {
        forall|i: int|
            0 <= i < self.worker_profiles.len() ==> self.has_doc(
                (#[trigger] self.worker_profiles[i]).user_id,
            )
    }

    /// The full invariant of the store.
    pub open spec fn wf(self) -> bool {
        &&& self.users_unique()
        &&& self.principal_index_wf()
        &&& self.workers_unique()
        &&& self.businesses_unique()
        &&& self.shifts_unique()
        &&& self.history_unique()
        &&& self.ratings_unique()
        &&& self.docs_unique()
        &&& self.apps_unique()
        &&& self.notifications_unique()
        &&& self.applicants_wf()
        &&& self.assignment_wf()
        &&& self.averages_wf()
        &&& self.docs_wf()
        &&& self.workers_have_docs()
    }
}

/// A change that leaves the shifts and the applications as they were
/// preserves the applicant and assignment clauses: they read nothing else.
pub proof fn lemma_shift_app_frame(pre: StateView, post: StateView)
    requires
        pre.applicants_wf(),
        pre.assignment_wf(),
        post.shifts == pre.shifts,
        post.applications == pre.applications,
    ensures
        post.applicants_wf(),
        post.assignment_wf(),
{
    assert forall|i: int| 0 <= i < post.shifts.len() implies post.applicants_ok(
        #[trigger] post.shifts[i],
    ) by {
        assert(pre.applicants_ok(pre.shifts[i]));
    }
    assert forall|i: int| 0 <= i < post.shifts.len() implies post.assignment_ok(
        #[trigger] post.shifts[i],
    ) by {
        assert(pre.assignment_ok(pre.shifts[i]));
    }
}

/// A change that leaves the ledger stores and profile collections as they
/// were preserves the aggregate clauses: they read nothing else.
pub proof fn lemma_ledger_frame(pre: StateView, post: StateView)
    requires
        pre.averages_wf(),
        pre.docs_wf(),
        pre.workers_have_docs(),
        post.worker_profiles == pre.worker_profiles,
        post.did_documents == pre.did_documents,
        post.ratings == pre.ratings,
        post.work_history == pre.work_history,
    ensures
        post.averages_wf(),
        post.docs_wf(),
        post.workers_have_docs(),
{
    assert forall|i: int|
        0 <= i < post.worker_profiles.len() implies average_matches(
        (#[trigger] post.worker_profiles[i]).average_rating,
        post.ratings_of(post.worker_profiles[i].user_id),
    ) by {
        assert(average_matches(
            pre.worker_profiles[i].average_rating,
            pre.ratings_of(pre.worker_profiles[i].user_id),
        ));
    }
    assert forall|i: int|
        0 <= i < post.did_documents.len() implies average_matches(
        (#[trigger] post.did_documents[i]).average_rating,
        post.ratings_of(post.did_documents[i].worker_id),
    ) by {
        assert(average_matches(
            pre.did_documents[i].average_rating,
            pre.ratings_of(pre.did_documents[i].worker_id),
        ));
    }
    assert forall|i: int| 0 <= i < post.did_documents.len() implies post.doc_ok(
        #[trigger] post.did_documents[i],
    ) by {
        assert(pre.doc_ok(pre.did_documents[i]));
    }
    assert forall|i: int| 0 <= i < post.worker_profiles.len() implies post.has_doc(
        (#[trigger] post.worker_profiles[i]).user_id,
    ) by {
        assert(pre.has_doc(pre.worker_profiles[i].user_id));
        let j = pre.doc_idx(pre.worker_profiles[i].user_id);
        assert(post.did_documents[j].worker_id == pre.worker_profiles[i].user_id);
    }
}

/// The whole store, one collection per entity type.
pub struct State {
    pub user_profiles: Vec<UserProfile>,
    pub principal_to_user_id: Vec<PrincipalUserId>,
    pub worker_profiles: Vec<WorkerProfile>,
    pub business_profiles: Vec<BusinessProfile>,
    pub shifts: Vec<Shift>,
    pub work_history: Vec<WorkHistory>,
    pub ratings: Vec<Rating>,
    pub did_documents: Vec<DIDDocument>,
    pub applications: Vec<ShiftApplication>,
    pub notifications: Vec<Notification>,
}

impl View for State {
    type V = StateView;

    open spec fn view(&self) -> StateView {
        StateView {
            user_profiles: self.user_profiles.deep_view(),
            principal_to_user_id: self.principal_to_user_id.deep_view(),
            worker_profiles: self.worker_profiles.deep_view(),
            business_profiles: self.business_profiles.deep_view(),
            shifts: self.shifts.deep_view(),
            work_history: self.work_history.deep_view(),
            ratings: self.ratings.deep_view(),
            did_documents: self.did_documents.deep_view(),
            applications: self.applications.deep_view(),
            notifications: self.notifications.deep_view(),
        }
    }
}

impl State {
    /// The store invariant; established by `new` and preserved by every
    /// operation.
    pub open spec fn inv(&self) -> bool {
        self@.wf()
    }

    /// An empty store.
    pub fn new() -> (s: State)
        ensures
            s.inv(),
            s@.user_profiles.len() == 0,
            s@.principal_to_user_id.len() == 0,
            s@.worker_profiles.len() == 0,
            s@.business_profiles.len() == 0,
            s@.shifts.len() == 0,
            s@.work_history.len() == 0,
            s@.ratings.len() == 0,
            s@.did_documents.len() == 0,
            s@.applications.len() == 0,
            s@.notifications.len() == 0,
    {
        State {
            user_profiles: Vec::new(),
            principal_to_user_id: Vec::new(),
            worker_profiles: Vec::new(),
            business_profiles: Vec::new(),
            shifts: Vec::new(),
            work_history: Vec::new(),
            ratings: Vec::new(),
            did_documents: Vec::new(),
            applications: Vec::new(),
            notifications: Vec::new(),
        }
    }

    // ---- internal lookups by key ----

    pub(crate) fn find_user(&self, principal: &String) -> (r: Option<usize>)
        requires
            self@.users_unique(),
        ensures
            match r {
                Some(i) => self@.has_user(principal@) && i as int == self@.user_idx(principal@)
                    && i < self.user_profiles.len() && self@.user_profiles[i as int].owner_principal
                    == principal@,
                None => !self@.has_user(principal@),
            },
    {
        let n = self.user_profiles.len();
        let mut i: usize = 0;
        while i < n
            invariant
                self@.users_unique(),
                n == self.user_profiles.len(),
                i <= n,
                forall|j: int|
                    0 <= j < i ==> (#[trigger] self@.user_profiles[j]).owner_principal
                        != principal@,
            decreases n - i,
        {
            if self.user_profiles[i].owner_principal == *principal {
                proof {
                    assert(self@.has_user(principal@));
                    let j = self@.user_idx(principal@);
                    if j != i as int {
                        assert(self@.user_profiles[j].owner_principal
                            != self@.user_profiles[i as int].owner_principal);
                    }
                }
                return Some(i);
            }
            i += 1;
        }
        None
    }

    pub(crate) fn find_worker(&self, user_id: &String) -> (r: Option<usize>)
        requires
            self@.workers_unique(),
        ensures
            match r {
                Some(i) => self@.has_worker(user_id@) && i as int == self@.worker_idx(user_id@)
                    && i < self.worker_profiles.len() && self@.worker_profiles[i as int].user_id
                    == user_id@,
                None => !self@.has_worker(user_id@),
            },
    {
        let n = self.worker_profiles.len();
        let mut i: usize = 0;
        while i < n
            invariant
                self@.workers_unique(),
                n == self.worker_profiles.len(),
                i <= n,
                forall|j: int|
                    0 <= j < i ==> (#[trigger] self@.worker_profiles[j]).user_id != user_id@,
            decreases n - i,
        {
            if self.worker_profiles[i].user_id == *user_id {
                proof {
                    assert(self@.has_worker(user_id@));
                    let j = self@.worker_idx(user_id@);
                    if j != i as int {
                        assert(self@.worker_profiles[j].user_id
                            != self@.worker_profiles[i as int].user_id);
                    }
                }
                return Some(i);
            }
            i += 1;
        }
        None
    }

    pub(crate) fn find_business(&self, user_id: &String) -> (r: Option<usize>)
        requires
            self@.businesses_unique(),
        ensures
            match r {
                Some(i) => self@.has_business(user_id@) && i as int == self@.business_idx(user_id@)
                    && i < self.business_profiles.len() && self@.business_profiles[i as int].user_id
                    == user_id@,
                None => !self@.has_business(user_id@),
            },
    {
        let n = self.business_profiles.len();
        let mut i: usize = 0;
        while i < n
            invariant
                self@.businesses_unique(),
                n == self.business_profiles.len(),
                i <= n,
                forall|j: int|
                    0 <= j < i ==> (#[trigger] self@.business_profiles[j]).user_id != user_id@,
            decreases n - i,
        {
            if self.business_profiles[i].user_id == *user_id {
                proof {
                    assert(self@.has_business(user_id@));
                    let j = self@.business_idx(user_id@);
                    if j != i as int {
                        assert(self@.business_profiles[j].user_id
                            != self@.business_profiles[i as int].user_id);
                    }
                }
                return Some(i);
            }
            i += 1;
        }
        None
    }

    pub(crate) fn find_shift(&self, id: &String) -> (r: Option<usize>)
        requires
            self@.shifts_unique(),
        ensures
            match r {
                Some(i) => self@.has_shift(id@) && i as int == self@.shift_idx(id@) && i
                    < self.shifts.len() && self@.shifts[i as int].id == id@,
                None => !self@.has_shift(id@),
            },
    {
        let n = self.shifts.len();
        let mut i: usize = 0;
        while i < n
            invariant
                self@.shifts_unique(),
                n == self.shifts.len(),
                i <= n,
                forall|j: int| 0 <= j < i ==> (#[trigger] self@.shifts[j]).id != id@,
            decreases n - i,
        {
            if self.shifts[i].id == *id {
                proof {
                    assert(self@.has_shift(id@));
                    let j = self@.shift_idx(id@);
                    if j != i as int {
                        assert(self@.shifts[j].id != self@.shifts[i as int].id);
                    }
                }
                return Some(i);
            }
            i += 1;
        }
        None
    }

    pub(crate) fn find_history(&self, id: &String) -> (r: Option<usize>)
        ensures
            match r {
                Some(i) => self@.has_history(id@) && i < self.work_history.len()
                    && self@.work_history[i as int].id == id@,
                None => !self@.has_history(id@),
            },
    {
        let n = self.work_history.len();
        let mut i: usize = 0;
        while i < n
            invariant
                n == self.work_history.len(),
                i <= n,
                forall|j: int| 0 <= j < i ==> (#[trigger] self@.work_history[j]).id != id@,
            decreases n - i,
        {
            if self.work_history[i].id == *id {
                proof {
                    assert(self@.work_history[i as int].id == id@);
                }
                return Some(i);
            }
            i += 1;
        }
        None
    }

    pub(crate) fn find_rating(&self, id: &String) -> (r: Option<usize>)
        ensures
            match r {
                Some(i) => self@.has_rating(id@) && i < self.ratings.len()
                    && self@.ratings[i as int].id == id@,
                None => !self@.has_rating(id@),
            },
    {
        let n = self.ratings.len();
        let mut i: usize = 0;
        while i < n
            invariant
                n == self.ratings.len(),
                i <= n,
                forall|j: int| 0 <= j < i ==> (#[trigger] self@.ratings[j]).id != id@,
            decreases n - i,
        {
            if self.ratings[i].id == *id {
                proof {
                    assert(self@.ratings[i as int].id == id@);
                }
                return Some(i);
            }
            i += 1;
        }
        None
    }

    pub(crate) fn find_doc(&self, worker_id: &String) -> (r: Option<usize>)
        requires
            self@.docs_unique(),
        ensures
            match r {
                Some(i) => self@.has_doc(worker_id@) && i as int == self@.doc_idx(worker_id@) && i
                    < self.did_documents.len() && self@.did_documents[i as int].worker_id
                    == worker_id@,
                None => !self@.has_doc(worker_id@),
            },
    {
        let n = self.did_documents.len();
        let mut i: usize = 0;
        while i < n
            invariant
                self@.docs_unique(),
                n == self.did_documents.len(),
                i <= n,
                forall|j: int|
                    0 <= j < i ==> (#[trigger] self@.did_documents[j]).worker_id != worker_id@,
            decreases n - i,
        {
            if self.did_documents[i].worker_id == *worker_id {
                proof {
                    assert(self@.has_doc(worker_id@));
                    let j = self@.doc_idx(worker_id@);
                    if j != i as int {
                        assert(self@.did_documents[j].worker_id
                            != self@.did_documents[i as int].worker_id);
                    }
                }
                return Some(i);
            }
            i += 1;
        }
        None
    }

    pub(crate) fn find_app(&self, shift_id: &String, worker_id: &String) -> (r: Option<usize>)
        requires
            self@.apps_unique(),
        ensures
            match r {
                Some(i) => self@.has_app(shift_id@, worker_id@) && i as int == self@.app_idx(
                    shift_id@,
                    worker_id@,
                ) && i < self.applications.len() && self@.applications[i as int].shift_id
                    == shift_id@ && self@.applications[i as int].worker_id == worker_id@,
                None => !self@.has_app(shift_id@, worker_id@),
            },
    {
        let n = self.applications.len();
        let mut i: usize = 0;
        while i < n
            invariant
                self@.apps_unique(),
                n == self.applications.len(),
                i <= n,
                forall|j: int|
                    0 <= j < i ==> !((#[trigger] self@.applications[j]).shift_id == shift_id@
                        && self@.applications[j].worker_id == worker_id@),
            decreases n - i,
        {
            if self.applications[i].shift_id == *shift_id && self.applications[i].worker_id
                == *worker_id {
                proof {
                    assert(self@.has_app(shift_id@, worker_id@));
                    let j = self@.app_idx(shift_id@, worker_id@);
                    if j != i as int {
                        assert(!(self@.applications[j].shift_id
                            == self@.applications[i as int].shift_id
                            && self@.applications[j].worker_id
                            == self@.applications[i as int].worker_id));
                    }
                }
                return Some(i);
            }
            i += 1;
        }
        None
    }

    pub(crate) fn find_notification(&self, id: &String) -> (r: Option<usize>)
        requires
            self@.notifications_unique(),
        ensures
            match r {
                Some(i) => self@.has_notification(id@) && i as int == self@.notification_idx(id@)
                    && i < self.notifications.len() && self@.notifications[i as int].id == id@,
                None => !self@.has_notification(id@),
            },
    {
        let n = self.notifications.len();
        let mut i: usize = 0;
        while i < n
            invariant
                self@.notifications_unique(),
                n == self.notifications.len(),
                i <= n,
                forall|j: int| 0 <= j < i ==> (#[trigger] self@.notifications[j]).id != id@,
            decreases n - i,
        {
            if self.notifications[i].id == *id {
                proof {
                    assert(self@.has_notification(id@));
                    let j = self@.notification_idx(id@);
                    if j != i as int {
                        assert(self@.notifications[j].id != self@.notifications[i as int].id);
                    }
                }
                return Some(i);
            }
            i += 1;
        }
        None
    }

    /// Whether an id is usable for a new shift: no shift carries it and no
    /// application refers to it. The host's id generator only hands out
    /// such ids; callers outside the proof check with this before creating
    /// a shift.
    pub fn is_shift_id_fresh(&self, id: &String) -> (b: bool)
        ensures
            b == self@.shift_id_fresh(id@),
    {
        let n = self.shifts.len();
        let mut i: usize = 0;
        while i < n
            invariant
                n == self.shifts.len(),
                i <= n,
                forall|j: int| 0 <= j < i ==> (#[trigger] self@.shifts[j]).id != id@,
            decreases n - i,
        {
            if self.shifts[i].id == *id {
                proof {
                    assert(self@.shifts[i as int].id == id@);
                }
                return false;
            }
            i += 1;
        }
        let m = self.applications.len();
        let mut k: usize = 0;
        while k < m
            invariant
                m == self.applications.len(),
                n == self.shifts.len(),
                forall|j: int| 0 <= j < n ==> (#[trigger] self@.shifts[j]).id != id@,
                k <= m,
                forall|j: int| 0 <= j < k ==> (#[trigger] self@.applications[j]).shift_id != id@,
            decreases m - k,
        {
            if self.applications[k].shift_id == *id {
                proof {
                    assert(self@.applications[k as int].shift_id == id@);
                }
                return false;
            }
            k += 1;
        }
        true
    }
}

} // verus!
