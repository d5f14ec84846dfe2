//! The reputation ledger: append-only work history entries and ratings,
//! each ingestion followed synchronously by recomputation of the derived
//! aggregates on the worker's credential document and profile.

use vstd::prelude::*;

use crate::error::Error;
use crate::notify::set_at;
use crate::seqs::lemma_filter_push;
use crate::seqs::lemma_map_values_push;
use crate::state::average_matches;
use crate::state::lemma_shift_app_frame;
use crate::state::lemma_sum_scores_push;
use crate::state::sum_scores;
use crate::state::State;
use crate::state::StateView;
use crate::types::DIDDocument;
use crate::types::DIDDocumentView;
use crate::types::Rating;
use crate::types::RatingView;
use crate::types::WorkHistory;
use crate::types::WorkHistoryView;

verus! {

/// Decision of `create_work_history`: only the business named in the entry
/// may record it, and a duplicate entry id is refused so that persisted
/// entries are never overwritten.
pub open spec fn create_work_history_result(
    pre: StateView,
    caller: Seq<char>,
    e: WorkHistoryView,
) -> Result<bool, Error> {
    if !pre.has_user(caller) {
        Err(Error::NotFound)
    } else if pre.user_for(caller).id != e.business_id {
        Err(Error::Unauthorized)
    } else if pre.has_history(e.id) {
        Err(Error::DuplicateRecord)
    } else {
        Ok(true)
    }
}

/// The store after `create_work_history`: on success the entry is
/// appended; if the worker has a credential document, the entry id is
/// appended to it and its shift counter and timestamp move. On any failure
/// nothing changes.
pub open spec fn create_work_history_post(
    pre: StateView,
    caller: Seq<char>,
    e: WorkHistoryView,
    now: i64,
) -> StateView {
    if create_work_history_result(pre, caller, e) matches Ok(_) {
        let mid = StateView { work_history: pre.work_history.push(e), ..pre };
        if pre.has_doc(e.worker_id) {
            let d = pre.doc_for(e.worker_id);
            StateView {
                did_documents: pre.did_documents.update(
                    pre.doc_idx(e.worker_id),
                    (DIDDocumentView {
                        work_history: d.work_history.push(e.id),
                        total_shifts: (d.total_shifts + 1) as u64,
                        updated_at: now,
                        ..d
                    }),
                ),
                ..mid
            }
        } else {
            mid
        }
    } else {
        pre
    }
}

/// Decision of `create_rating`: only the business named in the rating may
/// record it, and a duplicate rating id is refused so that persisted
/// ratings are never overwritten.
pub open spec fn create_rating_result(
    pre: StateView,
    caller: Seq<char>,
    rv: RatingView,
) -> Result<bool, Error> {
    if !pre.has_user(caller) {
        Err(Error::NotFound)
    } else if pre.user_for(caller).id != rv.business_id {
        Err(Error::Unauthorized)
    } else if pre.has_rating(rv.id) {
        Err(Error::DuplicateRecord)
    } else {
        Ok(true)
    }
}

/// The mean over the worker's persisted ratings once `rv` is appended:
/// always present, since at least `rv` itself is in the set.
pub open spec fn new_average(pre: StateView, rv: RatingView) -> Option<crate::types::RatingAverage> {
    let rs = pre.ratings_of(rv.worker_id).push(rv);
    Some(
        crate::types::RatingAverage { sum: sum_scores(rs) as u128, count: rs.len() as u64 },
    )
}

/// The store after `create_rating`: on success the rating is appended and
/// the recomputed mean is written into the worker's credential document
/// (with the rating id appended) and worker profile, where each exists.
/// On any failure nothing changes.
pub open spec fn create_rating_post(
    pre: StateView,
    caller: Seq<char>,
    rv: RatingView,
    now: i64,
) -> StateView {
    if create_rating_result(pre, caller, rv) matches Ok(_) {
        let avg = new_average(pre, rv);
        let s1 = StateView { ratings: pre.ratings.push(rv), ..pre };
        let s2 = if pre.has_doc(rv.worker_id) {
            let d = pre.doc_for(rv.worker_id);
            StateView {
                did_documents: pre.did_documents.update(
                    pre.doc_idx(rv.worker_id),
                    (DIDDocumentView {
                        ratings: d.ratings.push(rv.id),
                        average_rating: avg,
                        updated_at: now,
                        ..d
                    }),
                ),
                ..s1
            }
        } else {
            s1
        };
        if pre.has_worker(rv.worker_id) {
            let wp = pre.worker_for(rv.worker_id);
            StateView {
                worker_profiles: pre.worker_profiles.update(
                    pre.worker_idx(rv.worker_id),
                    (crate::types::WorkerProfileView { average_rating: avg, ..wp }),
                ),
                ..s2
            }
        } else {
            s2
        }
    } else {
        pre
    }
}

impl State {
    /// Records a completed-work entry. Authorized to the business named in
    /// the entry only; the entry is persisted verbatim and, when the
    /// worker's credential document exists, the aggregate follows in the
    /// same step. Without a document the entry is still persisted and the
    /// aggregate step is skipped silently.
    pub fn create_work_history(&mut self, caller: &String, now: i64, work_history: WorkHistory) -> (r:
        Result<bool, Error>)
        requires
            old(self).inv(),
        ensures
            final(self).inv(),
            r == create_work_history_result(old(self)@, caller@, work_history@),
            final(self)@ == create_work_history_post(old(self)@, caller@, work_history@, now),
    {
        let ghost pre = self@;
        let ghost ev = work_history@;
        let user_i = match self.find_user(caller) {
            Some(i) => i,
            None => {
                return Err(Error::NotFound);
            },
        };
        if !(self.user_profiles[user_i].id == work_history.business_id) {
            return Err(Error::Unauthorized);
        }
        if self.find_history(&work_history.id).is_some() {
            return Err(Error::DuplicateRecord);
        }
        let doc_i_opt = self.find_doc(&work_history.worker_id);
        let entry_id = work_history.id.clone();
        self.work_history.push(work_history);
        proof {
            assert(self@.work_history =~= pre.work_history.push(ev));
        }
        if let Some(di) = doc_i_opt {
            let ghost w = ev.worker_id;
            let mut d = self.did_documents[di].clone();
            let ghost dpre = d@;
            let hlen = self.work_history.len();
            proof {
                assert(self@.work_history.len() == hlen as int);
                assert(dpre == pre.doc_for(w));
                assert(pre.doc_ok(pre.did_documents[di as int]));
                lemma_filter_push(
                    pre.work_history,
                    ev,
                    |h: WorkHistoryView| h.worker_id == w,
                );
                assert(self@.history_of(w) == pre.history_of(w).push(ev));
                self@.work_history.lemma_filter_len(|h: WorkHistoryView| h.worker_id == w);
                assert(d@.total_shifts + 1 == self@.history_of(w).len());
                assert(self@.history_of(w).len() <= self@.work_history.len());
                assert(self@.work_history.len() <= usize::MAX);
                assert(d@.total_shifts + 1 <= u64::MAX);
            }
            d.work_history.push(entry_id);
            d.total_shifts = d.total_shifts + 1;
            d.updated_at = now;
            let ghost dv = d@;
            proof {
                assert(dv =~= (DIDDocumentView {
                    work_history: dpre.work_history.push(ev.id),
                    total_shifts: (dpre.total_shifts + 1) as u64,
                    updated_at: now,
                    ..dpre
                }));
            }
            set_at(&mut self.did_documents, di, d);
            proof {
                assert(self@.did_documents =~= pre.did_documents.update(pre.doc_idx(w), dv));
            }
        }
        proof {
            let postv = self@;
            let w = ev.worker_id;
            assert(postv =~= create_work_history_post(pre, caller@, ev, now));
            lemma_shift_app_frame(pre, postv);
            // ids of history entries stay pairwise distinct
            assert forall|i: int, j: int|
                0 <= i < j < postv.work_history.len() implies (#[trigger] postv.work_history[i]).id
                != (#[trigger] postv.work_history[j]).id by {
                if j < pre.work_history.len() {
                    assert(pre.work_history[i].id != pre.work_history[j].id);
                } else {
                    assert(postv.work_history[j] == ev);
                    if postv.work_history[i].id == ev.id {
                        assert(pre.has_history(ev.id));
                    }
                }
            }
            // documents of other workers see the same filtered history
            assert forall|k: int|
                0 <= k < postv.did_documents.len() implies postv.doc_ok(
                #[trigger] postv.did_documents[k],
            ) by {
                let dk = postv.did_documents[k];
                lemma_filter_push(
                    pre.work_history,
                    ev,
                    |h: WorkHistoryView| h.worker_id == dk.worker_id,
                );
                if pre.has_doc(w) && k == pre.doc_idx(w) {
                    let dpre = pre.did_documents[k];
                    assert(pre.doc_ok(dpre));
                    lemma_map_values_push(
                        pre.history_of(w),
                        ev,
                        |h: WorkHistoryView| h.id,
                    );
                } else {
                    assert(pre.doc_ok(pre.did_documents[k]));
                    if dk.worker_id == w {
                        assert(pre.has_doc(w));
                        let j = pre.doc_idx(w);
                        assert(pre.did_documents[j].worker_id == w);
                    }
                    assert(dk.worker_id != w);
                }
            }
            // cached averages are untouched, and so are the ratings
            assert forall|i: int|
                0 <= i < postv.worker_profiles.len() implies average_matches(
                (#[trigger] postv.worker_profiles[i]).average_rating,
                postv.ratings_of(postv.worker_profiles[i].user_id),
            ) by {
                assert(average_matches(
                    pre.worker_profiles[i].average_rating,
                    pre.ratings_of(pre.worker_profiles[i].user_id),
                ));
            }
            assert forall|i: int|
                0 <= i < postv.did_documents.len() implies average_matches(
                (#[trigger] postv.did_documents[i]).average_rating,
                postv.ratings_of(postv.did_documents[i].worker_id),
            ) by {
                assert(average_matches(
                    pre.did_documents[i].average_rating,
                    pre.ratings_of(pre.did_documents[i].worker_id),
                ));
            }
            // every worker profile still has its document
            assert forall|i: int|
                0 <= i < postv.worker_profiles.len() implies postv.has_doc(
                (#[trigger] postv.worker_profiles[i]).user_id,
            ) by {
                assert(pre.has_doc(pre.worker_profiles[i].user_id));
                let j = pre.doc_idx(pre.worker_profiles[i].user_id);
                assert(postv.did_documents[j].worker_id == pre.worker_profiles[i].user_id);
            }
        }
        Ok(true)
    }

    /// Records a rating. Authorized to the business named in the rating
    /// only; the rating is persisted verbatim, and the worker's average is
    /// recomputed over the full persisted rating set and written into the
    /// credential document and the worker profile, where they exist, in
    /// the same step.
    pub fn create_rating(&mut self, caller: &String, now: i64, rating: Rating) -> (r: Result<
        bool,
        Error,
    >)
        requires
            old(self).inv(),
        ensures
            final(self).inv(),
            r == create_rating_result(old(self)@, caller@, rating@),
            final(self)@ == create_rating_post(old(self)@, caller@, rating@, now),
    {
        let ghost pre = self@;
        let ghost rv = rating@;
        let user_i = match self.find_user(caller) {
            Some(i) => i,
            None => {
                return Err(Error::NotFound);
            },
        };
        if !(self.user_profiles[user_i].id == rating.business_id) {
            return Err(Error::Unauthorized);
        }
        if self.find_rating(&rating.id).is_some() {
            return Err(Error::DuplicateRecord);
        }
        let doc_i_opt = self.find_doc(&rating.worker_id);
        let worker_i_opt = self.find_worker(&rating.worker_id);
        let rating_id = rating.id.clone();
        let worker_id = rating.worker_id.clone();
        self.ratings.push(rating);
        let rlen = self.ratings.len();
        proof {
            assert(self@.ratings =~= pre.ratings.push(rv));
            lemma_filter_push(pre.ratings, rv, |x: RatingView| x.worker_id == rv.worker_id);
            assert(self@.ratings_of(rv.worker_id) == pre.ratings_of(rv.worker_id).push(rv));
            assert(self@.ratings.len() == rlen as int);
            self@.ratings.lemma_filter_len(|x: RatingView| x.worker_id == rv.worker_id);
        }
        let worker_ratings = self.get_worker_ratings(&worker_id);
        let avg = calculate_average_rating(&worker_ratings);
        proof {
            let rs = pre.ratings_of(rv.worker_id).push(rv);
            assert(worker_ratings.deep_view() == rs);
            assert(rs.len() > 0);
            assert(avg == new_average(pre, rv));
        }
        if let Some(di) = doc_i_opt {
            let mut d = self.did_documents[di].clone();
            let ghost dpre = d@;
            d.ratings.push(rating_id);
            d.average_rating = avg;
            d.updated_at = now;
            let ghost dv = d@;
            proof {
                assert(dv =~= (DIDDocumentView {
                    ratings: dpre.ratings.push(rv.id),
                    average_rating: new_average(pre, rv),
                    updated_at: now,
                    ..dpre
                }));
            }
            set_at(&mut self.did_documents, di, d);
            proof {
                assert(self@.did_documents =~= pre.did_documents.update(
                    pre.doc_idx(rv.worker_id),
                    dv,
                ));
            }
        }
        if let Some(wi) = worker_i_opt {
            let mut wp = self.worker_profiles[wi].clone();
            let ghost wpre = wp@;
            wp.average_rating = avg;
            let ghost wv = wp@;
            proof {
                assert(wv =~= (crate::types::WorkerProfileView {
                    average_rating: new_average(pre, rv),
                    ..wpre
                }));
            }
            set_at(&mut self.worker_profiles, wi, wp);
            proof {
                assert(self@.worker_profiles =~= pre.worker_profiles.update(
                    pre.worker_idx(rv.worker_id),
                    wv,
                ));
            }
        }
        proof {
            let postv = self@;
            let w = rv.worker_id;
            assert(postv =~= create_rating_post(pre, caller@, rv, now));
            lemma_shift_app_frame(pre, postv);
            // rating ids stay pairwise distinct
            assert forall|i: int, j: int|
                0 <= i < j < postv.ratings.len() implies (#[trigger] postv.ratings[i]).id
                != (#[trigger] postv.ratings[j]).id by {
                if j < pre.ratings.len() {
                    assert(pre.ratings[i].id != pre.ratings[j].id);
                } else {
                    assert(postv.ratings[j] == rv);
                    if postv.ratings[i].id == rv.id {
                        assert(pre.has_rating(rv.id));
                    }
                }
            }
            // worker profile slots keep their identity ids
            assert forall|i: int, j: int|
                0 <= i < j < postv.worker_profiles.len() implies (
            #[trigger] postv.worker_profiles[i]).user_id
                != (#[trigger] postv.worker_profiles[j]).user_id by {
                assert(pre.worker_profiles[i].user_id != pre.worker_profiles[j].user_id);
                assert(postv.worker_profiles[i].user_id == pre.worker_profiles[i].user_id);
                assert(postv.worker_profiles[j].user_id == pre.worker_profiles[j].user_id);
            }
            // document slots keep their worker ids
            assert forall|i: int, j: int|
                0 <= i < j < postv.did_documents.len() implies (
            #[trigger] postv.did_documents[i]).worker_id
                != (#[trigger] postv.did_documents[j]).worker_id by {
                assert(pre.did_documents[i].worker_id != pre.did_documents[j].worker_id);
                assert(postv.did_documents[i].worker_id == pre.did_documents[i].worker_id);
                assert(postv.did_documents[j].worker_id == pre.did_documents[j].worker_id);
            }
            // the new average is the mean over the full current set, and
            // untouched workers keep untouched rating sets
            let rs = pre.ratings_of(w).push(rv);
            crate::state::lemma_sum_scores_bounds(rs);
            assert(average_matches(new_average(pre, rv), rs));
            assert forall|i: int|
                0 <= i < postv.worker_profiles.len() implies average_matches(
                (#[trigger] postv.worker_profiles[i]).average_rating,
                postv.ratings_of(postv.worker_profiles[i].user_id),
            ) by {
                let ui = postv.worker_profiles[i].user_id;
                lemma_filter_push(pre.ratings, rv, |x: RatingView| x.worker_id == ui);
                if pre.has_worker(w) && i == pre.worker_idx(w) {
                    assert(postv.worker_profiles[i].average_rating == new_average(pre, rv));
                } else {
                    assert(pre.worker_profiles[i].user_id != w || !pre.has_worker(w)) by {
                        if pre.worker_profiles[i].user_id == w {
                            assert(pre.has_worker(w));
                            let j = pre.worker_idx(w);
                            assert(pre.worker_profiles[j].user_id == w);
                            if i < j {
                                assert(pre.worker_profiles[i].user_id
                                    != pre.worker_profiles[j].user_id);
                            } else if j < i {
                                assert(pre.worker_profiles[j].user_id
                                    != pre.worker_profiles[i].user_id);
                            }
                        }
                    }
                    assert(average_matches(
                        pre.worker_profiles[i].average_rating,
                        pre.ratings_of(ui),
                    ));
                }
            }
            assert forall|i: int|
                0 <= i < postv.did_documents.len() implies average_matches(
                (#[trigger] postv.did_documents[i]).average_rating,
                postv.ratings_of(postv.did_documents[i].worker_id),
            ) by {
                let ui = postv.did_documents[i].worker_id;
                lemma_filter_push(pre.ratings, rv, |x: RatingView| x.worker_id == ui);
                if pre.has_doc(w) && i == pre.doc_idx(w) {
                    assert(postv.did_documents[i].average_rating == new_average(pre, rv));
                } else {
                    assert(pre.did_documents[i].worker_id != w || !pre.has_doc(w)) by {
                        if pre.did_documents[i].worker_id == w {
                            assert(pre.has_doc(w));
                            let j = pre.doc_idx(w);
                            assert(pre.did_documents[j].worker_id == w);
                            if i < j {
                                assert(pre.did_documents[i].worker_id
                                    != pre.did_documents[j].worker_id);
                            } else if j < i {
                                assert(pre.did_documents[j].worker_id
                                    != pre.did_documents[i].worker_id);
                            }
                        }
                    }
                    assert(average_matches(
                        pre.did_documents[i].average_rating,
                        pre.ratings_of(ui),
                    ));
                }
            }
            // documents still list exactly their worker's record ids
            assert forall|k: int|
                0 <= k < postv.did_documents.len() implies postv.doc_ok(
                #[trigger] postv.did_documents[k],
            ) by {
                let dk = postv.did_documents[k];
                lemma_filter_push(pre.ratings, rv, |x: RatingView| x.worker_id == dk.worker_id);
                if pre.has_doc(w) && k == pre.doc_idx(w) {
                    assert(pre.doc_ok(pre.did_documents[k]));
                    lemma_map_values_push(pre.ratings_of(w), rv, |x: RatingView| x.id);
                } else {
                    assert(pre.doc_ok(pre.did_documents[k]));
                    assert(dk.worker_id != w) by {
                        if dk.worker_id == w {
                            assert(pre.has_doc(w));
                            let j = pre.doc_idx(w);
                            assert(pre.did_documents[j].worker_id == w);
                            if k < j {
                                assert(pre.did_documents[k].worker_id
                                    != pre.did_documents[j].worker_id);
                            } else if j < k {
                                assert(pre.did_documents[j].worker_id
                                    != pre.did_documents[k].worker_id);
                            }
                        }
                    }
                }
            }
            // every worker profile still has its document
            assert forall|i: int|
                0 <= i < postv.worker_profiles.len() implies postv.has_doc(
                (#[trigger] postv.worker_profiles[i]).user_id,
            ) by {
                assert(pre.has_doc(pre.worker_profiles[i].user_id));
                let j = pre.doc_idx(pre.worker_profiles[i].user_id);
                assert(postv.did_documents[j].worker_id == pre.worker_profiles[i].user_id);
            }
        }
        Ok(true)
    }

    /// Returns all work history entries of one worker, in creation order.
    pub fn get_worker_history(&self, worker_id: &String) -> (r: Vec<WorkHistory>)
        ensures
            r.deep_view() == self@.history_of(worker_id@),
    {
        let ghost pred = |h: WorkHistoryView| h.worker_id == worker_id@;
        let mut out: Vec<WorkHistory> = Vec::new();
        proof {
            assert(out.deep_view() =~= self@.work_history.take(0).filter(pred));
        }
        let n = self.work_history.len();
        let mut i: usize = 0;
        while i < n
            invariant
                n == self.work_history.len(),
                i <= n,
                out.deep_view() == self@.work_history.take(i as int).filter(pred),
                pred == (|h: WorkHistoryView| h.worker_id == worker_id@),
            decreases n - i,
        {
            proof {
                assert(self@.work_history.take(i + 1) =~= self@.work_history.take(i as int).push(
                    self@.work_history[i as int],
                ));
                lemma_filter_push(
                    self@.work_history.take(i as int),
                    self@.work_history[i as int],
                    pred,
                );
            }
            if self.work_history[i].worker_id == *worker_id {
                out.push(self.work_history[i].clone());
                proof {
                    assert(out.deep_view() =~= self@.work_history.take(i + 1).filter(pred));
                }
            } else {
                proof {
                    assert(out.deep_view() =~= self@.work_history.take(i + 1).filter(pred));
                }
            }
            i += 1;
        }
        proof {
            assert(self@.work_history.take(n as int) =~= self@.work_history);
        }
        out
    }

    /// Returns all ratings of one worker, in creation order.
    pub fn get_worker_ratings(&self, worker_id: &String) -> (r: Vec<Rating>)
        ensures
            r.deep_view() == self@.ratings_of(worker_id@),
    {
        let ghost pred = |x: RatingView| x.worker_id == worker_id@;
        let mut out: Vec<Rating> = Vec::new();
        proof {
            assert(out.deep_view() =~= self@.ratings.take(0).filter(pred));
        }
        let n = self.ratings.len();
        let mut i: usize = 0;
        while i < n
            invariant
                n == self.ratings.len(),
                i <= n,
                out.deep_view() == self@.ratings.take(i as int).filter(pred),
                pred == (|x: RatingView| x.worker_id == worker_id@),
            decreases n - i,
        {
            proof {
                assert(self@.ratings.take(i + 1) =~= self@.ratings.take(i as int).push(
                    self@.ratings[i as int],
                ));
                lemma_filter_push(
                    self@.ratings.take(i as int),
                    self@.ratings[i as int],
                    pred,
                );
            }
            if self.ratings[i].worker_id == *worker_id {
                out.push(self.ratings[i].clone());
                proof {
                    assert(out.deep_view() =~= self@.ratings.take(i + 1).filter(pred));
                }
            } else {
                proof {
                    assert(out.deep_view() =~= self@.ratings.take(i + 1).filter(pred));
                }
            }
            i += 1;
        }
        proof {
            assert(self@.ratings.take(n as int) =~= self@.ratings);
        }
        out
    }

    /// Fetches a worker's credential document.
    pub fn get_worker_did(&self, worker_id: &String) -> (r: Result<DIDDocument, Error>)
        requires
            self.inv(),
        ensures
            match r {
                Ok(d) => self@.has_doc(worker_id@) && d@ == self@.doc_for(worker_id@),
                Err(e) => !self@.has_doc(worker_id@) && e == Error::NotFound,
            },
    {
        match self.find_doc(worker_id) {
            Some(i) => Ok(self.did_documents[i].clone()),
            None => Err(Error::NotFound),
        }
    }

    /// Exports a worker's credential document for off-system portability;
    /// the projection is identical to a direct fetch.
    pub fn export_worker_did(&self, worker_id: &String) -> (r: Result<DIDDocument, Error>)
        requires
            self.inv(),
        ensures
            match r {
                Ok(d) => self@.has_doc(worker_id@) && d@ == self@.doc_for(worker_id@),
                Err(e) => !self@.has_doc(worker_id@) && e == Error::NotFound,
            },
    {
        self.get_worker_did(worker_id)
    }
}

/// The arithmetic mean of a set of ratings, held exactly as score sum and
/// count; absent for an empty set, which callers must read as "unrated".
pub fn calculate_average_rating(ratings: &Vec<Rating>) -> (r: Option<crate::types::RatingAverage>)
    ensures
        average_matches(r, ratings.deep_view()),
{
    if ratings.len() == 0 {
        return None;
    }
    let n = ratings.len();
    let mut sum: u128 = 0;
    let mut i: usize = 0;
    while i < n
        invariant
            n == ratings.len(),
            i <= n,
            sum == sum_scores(ratings.deep_view().take(i as int)),
            sum <= 255 * (i as int),
        decreases n - i,
    {
        proof {
            assert(ratings.deep_view().take(i + 1) =~= ratings.deep_view().take(i as int).push(
                ratings.deep_view()[i as int],
            ));
            lemma_sum_scores_push(
                ratings.deep_view().take(i as int),
                ratings.deep_view()[i as int],
            );
        }
        sum = sum + (ratings[i].rating as u128);
        i += 1;
    }
    proof {
        assert(ratings.deep_view().take(n as int) =~= ratings.deep_view());
    }
    Some(crate::types::RatingAverage { sum, count: n as u64 })
}

} // verus!
