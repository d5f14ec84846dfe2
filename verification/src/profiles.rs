//! Identity records and the worker and business profiles attached to
//! them. Creating a worker profile also creates the worker's credential
//! document, initialized from the ledger records already persisted for
//! that worker, so the document's derived fields are never stale.

use vstd::prelude::*;

use crate::digest::digest_spec;
use crate::digest::did_signature;
use crate::error::Error;
use crate::notify::set_at;
use crate::seqs::lemma_map_values_push;
use crate::state::avg_of;
use crate::state::lemma_avg_of_matches;
use crate::state::lemma_ledger_frame;
use crate::state::lemma_shift_app_frame;
use crate::state::State;
use crate::state::StateView;
use crate::types::BusinessProfile;
use crate::types::BusinessProfileView;
use crate::types::DIDDocument;
use crate::types::DIDDocumentView;
use crate::types::PrincipalUserId;
use crate::types::PrincipalUserIdView;
use crate::types::Rating;
use crate::types::RatingView;
use crate::types::UserProfile;
use crate::types::UserProfileView;
use crate::types::UserType;
use crate::types::WorkHistory;
use crate::types::WorkHistoryView;
use crate::types::WorkerProfile;
use crate::types::WorkerProfileView;

verus! {

/// Decision of `create_user_profile`: one identity record per caller.
pub open spec fn create_user_profile_check(pre: StateView, caller: Seq<char>) -> Option<Error> {
    if pre.has_user(caller) {
        Some(Error::AlreadyExists)
    } else {
        None
    }
}

/// The identity record as stored: the system stamps the generated id, the
/// owning caller and the timestamps; the rest is the caller's draft.
pub open spec fn created_user(
    draft: UserProfileView,
    caller: Seq<char>,
    new_id: Seq<char>,
    now: i64,
) -> UserProfileView {
    UserProfileView {
        id: new_id,
        owner_principal: caller,
        created_at: now,
        updated_at: now,
        ..draft
    }
}

/// The store after `create_user_profile`: the record and its reverse
/// index entry are appended together.
pub open spec fn create_user_profile_post(
    pre: StateView,
    caller: Seq<char>,
    new_id: Seq<char>,
    draft: UserProfileView,
    now: i64,
) -> StateView {
    if create_user_profile_check(pre, caller) is None {
        StateView {
            user_profiles: pre.user_profiles.push(created_user(draft, caller, new_id, now)),
            principal_to_user_id: pre.principal_to_user_id.push(
                (PrincipalUserIdView { principal: caller, user_id: new_id }),
            ),
            ..pre
        }
    } else {
        pre
    }
}

/// Decision of `update_user_profile`: the submitted record must name the
/// caller as owner, and the caller must already have a record.
pub open spec fn update_user_profile_check(
    pre: StateView,
    caller: Seq<char>,
    draft: UserProfileView,
) -> Option<Error> {
    if draft.owner_principal != caller {
        Some(Error::Unauthorized)
    } else if !pre.has_user(caller) {
        Some(Error::NotFound)
    } else {
        None
    }
}

/// The identity record an update stores: contact fields are replaced,
/// while the id, the owning caller, the role and the creation time are
/// immutable.
pub open spec fn updated_user(existing: UserProfileView, draft: UserProfileView, now: i64) -> UserProfileView {
    UserProfileView {
        id: existing.id,
        owner_principal: existing.owner_principal,
        user_type: existing.user_type,
        created_at: existing.created_at,
        updated_at: now,
        ..draft
    }
}

/// The store after `update_user_profile`.
pub open spec fn update_user_profile_post(
    pre: StateView,
    caller: Seq<char>,
    draft: UserProfileView,
    now: i64,
) -> StateView {
    if update_user_profile_check(pre, caller, draft) is None {
        StateView {
            user_profiles: pre.user_profiles.update(
                pre.user_idx(caller),
                updated_user(pre.user_for(caller), draft, now),
            ),
            ..pre
        }
    } else {
        pre
    }
}

/// Decision of worker or business profile creation: the caller's identity
/// must exist, carry the matching role, and own the declared profile id.
pub open spec fn create_profile_check(
    pre: StateView,
    caller: Seq<char>,
    declared_owner: Seq<char>,
    role: UserType,
) -> Option<Error> {
    if !pre.has_user(caller) {
        Some(Error::NotFound)
    } else if pre.user_for(caller).user_type != role {
        Some(Error::RoleMismatch)
    } else if declared_owner != pre.user_for(caller).id {
        Some(Error::IdMismatch)
    } else {
        None
    }
}

/// The worker profile as stored: the caller's draft, with the cached
/// average replaced by the true mean of the worker's persisted ratings.
pub open spec fn stored_worker(pre: StateView, draft: WorkerProfileView) -> WorkerProfileView {
    WorkerProfileView { average_rating: avg_of(pre.ratings_of(draft.user_id)), ..draft }
}

/// The credential document created alongside a worker profile: it lists
/// the ids of the ledger records already persisted for the worker, counts
/// the history entries, carries the true mean, snapshots the declared
/// skills, and is stamped with the document digest.
pub open spec fn fresh_doc(pre: StateView, draft: WorkerProfileView, now: i64) -> DIDDocumentView {
    DIDDocumentView {
        worker_id: draft.user_id,
        work_history: pre.history_of(draft.user_id).map_values(|h: WorkHistoryView| h.id),
        ratings: pre.ratings_of(draft.user_id).map_values(|r: RatingView| r.id),
        total_shifts: pre.history_of(draft.user_id).len() as u64,
        average_rating: avg_of(pre.ratings_of(draft.user_id)),
        skills_verified: draft.skills,
        created_at: now,
        updated_at: now,
        signature: digest_spec(draft.user_id.len() + 4, now as u64),
    }
}

/// The store after `create_worker_profile`: the profile and its document
/// are written, replacing previous ones for the same worker id if any.
pub open spec fn create_worker_profile_post(
    pre: StateView,
    caller: Seq<char>,
    draft: WorkerProfileView,
    now: i64,
) -> StateView {
    if create_profile_check(pre, caller, draft.user_id, UserType::Worker) is None {
        let wp = stored_worker(pre, draft);
        let d = fresh_doc(pre, draft, now);
        let workers = if pre.has_worker(draft.user_id) {
            pre.worker_profiles.update(pre.worker_idx(draft.user_id), wp)
        } else {
            pre.worker_profiles.push(wp)
        };
        let docs = if pre.has_doc(draft.user_id) {
            pre.did_documents.update(pre.doc_idx(draft.user_id), d)
        } else {
            pre.did_documents.push(d)
        };
        StateView { worker_profiles: workers, did_documents: docs, ..pre }
    } else {
        pre
    }
}

/// The store after `create_business_profile`: the profile is written,
/// replacing a previous one for the same id if any.
pub open spec fn create_business_profile_post(
    pre: StateView,
    caller: Seq<char>,
    draft: BusinessProfileView,
) -> StateView {
    if create_profile_check(pre, caller, draft.user_id, UserType::Business) is None {
        let businesses = if pre.has_business(draft.user_id) {
            pre.business_profiles.update(pre.business_idx(draft.user_id), draft)
        } else {
            pre.business_profiles.push(draft)
        };
        StateView { business_profiles: businesses, ..pre }
    } else {
        pre
    }
}

/// Decision of worker or business profile update: the caller's identity
/// must exist and own the profile, and the profile must exist.
pub open spec fn update_profile_check(
    pre: StateView,
    caller: Seq<char>,
    declared_owner: Seq<char>,
    target_exists: bool,
) -> Option<Error> {
    if !pre.has_user(caller) {
        Some(Error::NotFound)
    } else if declared_owner != pre.user_for(caller).id {
        Some(Error::Unauthorized)
    } else if !target_exists {
        Some(Error::NotFound)
    } else {
        None
    }
}

/// The store after `update_worker_profile`: the profile is replaced,
/// except that the cached average — a derived field — is kept.
pub open spec fn update_worker_profile_post(
    pre: StateView,
    caller: Seq<char>,
    draft: WorkerProfileView,
) -> StateView {
    if update_profile_check(pre, caller, draft.user_id, pre.has_worker(draft.user_id)) is None {
        StateView {
            worker_profiles: pre.worker_profiles.update(
                pre.worker_idx(draft.user_id),
                (WorkerProfileView {
                    average_rating: pre.worker_for(draft.user_id).average_rating,
                    ..draft
                }),
            ),
            ..pre
        }
    } else {
        pre
    }
}

/// The store after `update_business_profile`: the profile is replaced.
pub open spec fn update_business_profile_post(
    pre: StateView,
    caller: Seq<char>,
    draft: BusinessProfileView,
) -> StateView {
    if update_profile_check(pre, caller, draft.user_id, pre.has_business(draft.user_id)) is None {
        StateView {
            business_profiles: pre.business_profiles.update(pre.business_idx(draft.user_id), draft),
            ..pre
        }
    } else {
        pre
    }
}

/// Collects the ids of a run of work history entries, in order.
fn history_ids(entries: &Vec<WorkHistory>) -> (r: Vec<String>)
    ensures
        r.deep_view() == entries.deep_view().map_values(|h: WorkHistoryView| h.id),
{
    let ghost f = |h: WorkHistoryView| h.id;
    let mut out: Vec<String> = Vec::new();
    proof {
        assert(out.deep_view() =~= entries.deep_view().take(0).map_values(f));
    }
    let n = entries.len();
    let mut i: usize = 0;
    while i < n
        invariant
            n == entries.len(),
            i <= n,
            out.deep_view() == entries.deep_view().take(i as int).map_values(f),
            f == (|h: WorkHistoryView| h.id),
        decreases n - i,
    {
        proof {
            assert(entries.deep_view().take(i + 1) =~= entries.deep_view().take(i as int).push(
                entries.deep_view()[i as int],
            ));
            lemma_map_values_push(
                entries.deep_view().take(i as int),
                entries.deep_view()[i as int],
                f,
            );
        }
        out.push(entries[i].id.clone());
        proof {
            assert(out.deep_view() =~= entries.deep_view().take(i + 1).map_values(f));
        }
        i += 1;
    }
    proof {
        assert(entries.deep_view().take(n as int) =~= entries.deep_view());
    }
    out
}

/// Collects the ids of a run of ratings, in order.
fn rating_ids(entries: &Vec<Rating>) -> (r: Vec<String>)
    ensures
        r.deep_view() == entries.deep_view().map_values(|x: RatingView| x.id),
{
    let ghost f = |x: RatingView| x.id;
    let mut out: Vec<String> = Vec::new();
    proof {
        assert(out.deep_view() =~= entries.deep_view().take(0).map_values(f));
    }
    let n = entries.len();
    let mut i: usize = 0;
    while i < n
        invariant
            n == entries.len(),
            i <= n,
            out.deep_view() == entries.deep_view().take(i as int).map_values(f),
            f == (|x: RatingView| x.id),
        decreases n - i,
    {
        proof {
            assert(entries.deep_view().take(i + 1) =~= entries.deep_view().take(i as int).push(
                entries.deep_view()[i as int],
            ));
            lemma_map_values_push(
                entries.deep_view().take(i as int),
                entries.deep_view()[i as int],
                f,
            );
        }
        out.push(entries[i].id.clone());
        proof {
            assert(out.deep_view() =~= entries.deep_view().take(i + 1).map_values(f));
        }
        i += 1;
    }
    proof {
        assert(entries.deep_view().take(n as int) =~= entries.deep_view());
    }
    out
}

impl State {
    /// Creates the caller's identity record: refused when one exists. The
    /// system stamps the generated id, the owner and the timestamps, and
    /// indexes the record by its owning caller.
    pub fn create_user_profile(
        &mut self,
        caller: &String,
        now: i64,
        new_id: String,
        profile: UserProfile,
    ) -> (r: Result<UserProfile, Error>)
        requires
            old(self).inv(),
        ensures
            final(self).inv(),
            match r {
                Ok(p) => create_user_profile_check(old(self)@, caller@) is None && p@
                    == created_user(profile@, caller@, new_id@, now),
                Err(e) => create_user_profile_check(old(self)@, caller@) == Some(e),
            },
            final(self)@ == create_user_profile_post(old(self)@, caller@, new_id@, profile@, now),
    {
        let ghost pre = self@;
        let ghost draft = profile@;
        if self.find_user(caller).is_some() {
            return Err(Error::AlreadyExists);
        }
        let mut p = profile;
        p.id = new_id;
        p.owner_principal = caller.clone();
        p.created_at = now;
        p.updated_at = now;
        let ghost pv = p@;
        let index_entry = PrincipalUserId { principal: caller.clone(), user_id: p.id.clone() };
        let stored = p.clone();
        self.user_profiles.push(stored);
        self.principal_to_user_id.push(index_entry);
        proof {
            assert(pv =~= created_user(draft, caller@, pv.id, now));
            let postv = self@;
            assert(postv.user_profiles =~= pre.user_profiles.push(pv));
            assert(postv.principal_to_user_id =~= pre.principal_to_user_id.push(
                PrincipalUserIdView { principal: caller@, user_id: pv.id },
            ));
            assert(postv =~= create_user_profile_post(pre, caller@, pv.id, draft, now));
            lemma_ledger_frame(pre, postv);
            lemma_shift_app_frame(pre, postv);
            assert forall|i: int, j: int|
                0 <= i < j < postv.user_profiles.len() implies (
            #[trigger] postv.user_profiles[i]).owner_principal
                != (#[trigger] postv.user_profiles[j]).owner_principal by {
                if j < pre.user_profiles.len() {
                    assert(pre.user_profiles[i].owner_principal
                        != pre.user_profiles[j].owner_principal);
                } else {
                    if postv.user_profiles[i].owner_principal == caller@ {
                        assert(pre.has_user(caller@));
                    }
                }
            }
        }
        Ok(p)
    }

    /// Fetches the identity record owned by a caller.
    pub fn get_user_profile(&self, principal: &String) -> (r: Result<UserProfile, Error>)
        requires
            self.inv(),
        ensures
            match r {
                Ok(p) => self@.has_user(principal@) && p@ == self@.user_for(principal@),
                Err(e) => !self@.has_user(principal@) && e == Error::NotFound,
            },
    {
        match self.find_user(principal) {
            Some(i) => Ok(self.user_profiles[i].clone()),
            None => Err(Error::NotFound),
        }
    }

    /// The caller replaces the contact fields of its identity record; the
    /// id, the owner, the role and the creation time are immutable. The
    /// stored record is returned.
    pub fn update_user_profile(&mut self, caller: &String, now: i64, profile: UserProfile) -> (r:
        Result<UserProfile, Error>)
        requires
            old(self).inv(),
        ensures
            final(self).inv(),
            match r {
                Ok(p) => update_user_profile_check(old(self)@, caller@, profile@) is None && p@
                    == updated_user(old(self)@.user_for(caller@), profile@, now),
                Err(e) => update_user_profile_check(old(self)@, caller@, profile@) == Some(e),
            },
            final(self)@ == update_user_profile_post(old(self)@, caller@, profile@, now),
    {
        let ghost pre = self@;
        let ghost draft = profile@;
        if !(profile.owner_principal == *caller) {
            return Err(Error::Unauthorized);
        }
        let user_i = match self.find_user(caller) {
            Some(i) => i,
            None => {
                return Err(Error::NotFound);
            },
        };
        let existing = &self.user_profiles[user_i];
        let mut p = profile;
        p.id = existing.id.clone();
        p.owner_principal = existing.owner_principal.clone();
        p.user_type = existing.user_type;
        p.created_at = existing.created_at;
        p.updated_at = now;
        let ghost pv = p@;
        let stored = p.clone();
        set_at(&mut self.user_profiles, user_i, stored);
        proof {
            assert(pv =~= updated_user(pre.user_for(caller@), draft, now));
            let postv = self@;
            assert(postv.user_profiles =~= pre.user_profiles.update(pre.user_idx(caller@), pv));
            assert(postv =~= update_user_profile_post(pre, caller@, draft, now));
            lemma_ledger_frame(pre, postv);
            lemma_shift_app_frame(pre, postv);
            let u0 = pre.user_idx(caller@);
            assert forall|i: int, j: int|
                0 <= i < j < postv.user_profiles.len() implies (
            #[trigger] postv.user_profiles[i]).owner_principal
                != (#[trigger] postv.user_profiles[j]).owner_principal by {
                assert(pre.user_profiles[i].owner_principal != pre.user_profiles[j].owner_principal);
                assert(postv.user_profiles[i].owner_principal
                    == pre.user_profiles[i].owner_principal);
                assert(postv.user_profiles[j].owner_principal
                    == pre.user_profiles[j].owner_principal);
            }
            assert forall|i: int|
                0 <= i < postv.user_profiles.len() implies (
            #[trigger] postv.principal_to_user_id[i]).principal
                == postv.user_profiles[i].owner_principal && postv.principal_to_user_id[i].user_id
                == postv.user_profiles[i].id by {
                assert(pre.principal_to_user_id[i].principal == pre.user_profiles[i].owner_principal
                    && pre.principal_to_user_id[i].user_id == pre.user_profiles[i].id);
            }
        }
        Ok(p)
    }

    /// Creates (or replaces) the worker profile owned by the caller's
    /// Worker identity, and writes the worker's credential document,
    /// initialized from the ledger records already persisted. The stored
    /// profile — its cached average set to the true mean — is returned.
    pub fn create_worker_profile(&mut self, caller: &String, now: i64, profile: WorkerProfile) -> (r:
        Result<WorkerProfile, Error>)
        requires
            old(self).inv(),
            0 <= now,
        ensures
            final(self).inv(),
            match r {
                Ok(p) => create_profile_check(
                    old(self)@,
                    caller@,
                    profile@.user_id,
                    UserType::Worker,
                ) is None && p@ == stored_worker(old(self)@, profile@),
                Err(e) => create_profile_check(
                    old(self)@,
                    caller@,
                    profile@.user_id,
                    UserType::Worker,
                ) == Some(e),
            },
            final(self)@ == create_worker_profile_post(old(self)@, caller@, profile@, now),
    {
        let ghost pre = self@;
        let ghost draft = profile@;
        let ghost uid = draft.user_id;
        let user_i = match self.find_user(caller) {
            Some(i) => i,
            None => {
                return Err(Error::NotFound);
            },
        };
        if !(self.user_profiles[user_i].user_type == UserType::Worker) {
            return Err(Error::RoleMismatch);
        }
        if !(profile.user_id == self.user_profiles[user_i].id) {
            return Err(Error::IdMismatch);
        }
        let worker_ratings = self.get_worker_ratings(&profile.user_id);
        let avg = calculate_avg(&worker_ratings);
        proof {
            assert(avg == avg_of(pre.ratings_of(uid)));
        }
        let wr_len = worker_ratings.len();
        let hist = self.get_worker_history(&profile.user_id);
        let h_ids = history_ids(&hist);
        let r_ids = rating_ids(&worker_ratings);
        let total: u64 = hist.len() as u64;
        let signature = did_signature(profile.user_id.as_str(), now as u64);
        let worker_slot = self.find_worker(&profile.user_id);
        let doc_slot = self.find_doc(&profile.user_id);
        let mut p = profile;
        p.average_rating = avg;
        let ghost pv = p@;
        let doc = DIDDocument {
            worker_id: p.user_id.clone(),
            work_history: h_ids,
            ratings: r_ids,
            total_shifts: total,
            average_rating: avg,
            skills_verified: crate::types::clone_string_vec(&p.skills),
            created_at: now,
            updated_at: now,
            signature,
        };
        let ghost dv = doc@;
        let stored = p.clone();
        match worker_slot {
            Some(i) => set_at(&mut self.worker_profiles, i, stored),
            None => self.worker_profiles.push(stored),
        }
        match doc_slot {
            Some(i) => set_at(&mut self.did_documents, i, doc),
            None => self.did_documents.push(doc),
        }
        proof {
            assert(pv =~= stored_worker(pre, draft));
            assert(dv =~= fresh_doc(pre, draft, now));
            let postv = self@;
            assert(postv =~= create_worker_profile_post(pre, caller@, draft, now));
            lemma_shift_app_frame(pre, postv);
            assert(pre.ratings_of(uid).len() == wr_len as int);
            lemma_avg_of_matches(pre.ratings_of(uid));
            // worker ids at every slot stay pairwise distinct
            assert forall|i: int, j: int|
                0 <= i < j < postv.worker_profiles.len() implies (
            #[trigger] postv.worker_profiles[i]).user_id
                != (#[trigger] postv.worker_profiles[j]).user_id by {
                if j < pre.worker_profiles.len() {
                    assert(pre.worker_profiles[i].user_id != pre.worker_profiles[j].user_id);
                } else {
                    if postv.worker_profiles[i].user_id == uid {
                        assert(pre.has_worker(uid));
                        if pre.has_worker(uid) {
                            let k = pre.worker_idx(uid);
                            assert(pre.worker_profiles[k].user_id == uid);
                        }
                    }
                }
            }
            assert forall|i: int, j: int|
                0 <= i < j < postv.did_documents.len() implies (
            #[trigger] postv.did_documents[i]).worker_id
                != (#[trigger] postv.did_documents[j]).worker_id by {
                if j < pre.did_documents.len() {
                    assert(pre.did_documents[i].worker_id != pre.did_documents[j].worker_id);
                } else {
                    if postv.did_documents[i].worker_id == uid {
                        assert(pre.has_doc(uid));
                        if pre.has_doc(uid) {
                            let k = pre.doc_idx(uid);
                            assert(pre.did_documents[k].worker_id == uid);
                        }
                    }
                }
            }
            // cached averages still match: the new profile and document
            // carry the true mean, everything else is untouched
            assert forall|i: int|
                0 <= i < postv.worker_profiles.len() implies crate::state::average_matches(
                (#[trigger] postv.worker_profiles[i]).average_rating,
                postv.ratings_of(postv.worker_profiles[i].user_id),
            ) by {
                if i < pre.worker_profiles.len() && postv.worker_profiles[i]
                    != pv {
                    assert(postv.worker_profiles[i] == pre.worker_profiles[i]);
                    assert(crate::state::average_matches(
                        pre.worker_profiles[i].average_rating,
                        pre.ratings_of(pre.worker_profiles[i].user_id),
                    ));
                } else {
                    assert(postv.worker_profiles[i].average_rating == avg_of(pre.ratings_of(uid)));
                }
            }
            assert forall|i: int|
                0 <= i < postv.did_documents.len() implies crate::state::average_matches(
                (#[trigger] postv.did_documents[i]).average_rating,
                postv.ratings_of(postv.did_documents[i].worker_id),
            ) by {
                if i < pre.did_documents.len() && postv.did_documents[i] != dv {
                    assert(postv.did_documents[i] == pre.did_documents[i]);
                    assert(crate::state::average_matches(
                        pre.did_documents[i].average_rating,
                        pre.ratings_of(pre.did_documents[i].worker_id),
                    ));
                } else {
                    assert(postv.did_documents[i].average_rating == avg_of(pre.ratings_of(uid)));
                }
            }
            // documents still list exactly their worker's record ids
            assert forall|i: int| 0 <= i < postv.did_documents.len() implies postv.doc_ok(
                #[trigger] postv.did_documents[i],
            ) by {
                if i < pre.did_documents.len() && postv.did_documents[i] != dv {
                    assert(postv.did_documents[i] == pre.did_documents[i]);
                    assert(pre.doc_ok(pre.did_documents[i]));
                } else {
                    assert(postv.did_documents[i] == dv);
                }
            }
            // every worker profile has its document: the new pair was
            // written together, old pairs are untouched
            assert forall|i: int| 0 <= i < postv.worker_profiles.len() implies postv.has_doc(
                (#[trigger] postv.worker_profiles[i]).user_id,
            ) by {
                let wid = postv.worker_profiles[i].user_id;
                if wid == uid {
                    if pre.has_doc(uid) {
                        let k = pre.doc_idx(uid);
                        assert(postv.did_documents[k].worker_id == uid);
                    } else {
                        assert(postv.did_documents[postv.did_documents.len() - 1].worker_id == uid);
                    }
                } else {
                    assert(i < pre.worker_profiles.len() && postv.worker_profiles[i]
                        == pre.worker_profiles[i]);
                    assert(pre.has_doc(wid));
                    let k = pre.doc_idx(wid);
                    assert(postv.did_documents[k].worker_id == wid);
                }
            }
        }
        Ok(p)
    }

    /// Fetches a worker profile by its identity id.
    pub fn get_worker_profile(&self, user_id: &String) -> (r: Result<WorkerProfile, Error>)
        requires
            self.inv(),
        ensures
            match r {
                Ok(p) => self@.has_worker(user_id@) && p@ == self@.worker_for(user_id@),
                Err(e) => !self@.has_worker(user_id@) && e == Error::NotFound,
            },
    {
        match self.find_worker(user_id) {
            Some(i) => Ok(self.worker_profiles[i].clone()),
            None => Err(Error::NotFound),
        }
    }

    /// The owning caller replaces its worker profile's fields; the cached
    /// average, a derived value, is kept. The stored profile is returned.
    pub fn update_worker_profile(&mut self, caller: &String, profile: WorkerProfile) -> (r: Result<
        WorkerProfile,
        Error,
    >)
        requires
            old(self).inv(),
        ensures
            final(self).inv(),
            match r {
                Ok(p) => update_profile_check(
                    old(self)@,
                    caller@,
                    profile@.user_id,
                    old(self)@.has_worker(profile@.user_id),
                ) is None && p@ == (WorkerProfileView {
                    average_rating: old(self)@.worker_for(profile@.user_id).average_rating,
                    ..profile@
                }),
                Err(e) => update_profile_check(
                    old(self)@,
                    caller@,
                    profile@.user_id,
                    old(self)@.has_worker(profile@.user_id),
                ) == Some(e),
            },
            final(self)@ == update_worker_profile_post(old(self)@, caller@, profile@),
    {
        let ghost pre = self@;
        let ghost draft = profile@;
        let user_i = match self.find_user(caller) {
            Some(i) => i,
            None => {
                return Err(Error::NotFound);
            },
        };
        if !(profile.user_id == self.user_profiles[user_i].id) {
            return Err(Error::Unauthorized);
        }
        let worker_i = match self.find_worker(&profile.user_id) {
            Some(i) => i,
            None => {
                return Err(Error::NotFound);
            },
        };
        let mut p = profile;
        p.average_rating = self.worker_profiles[worker_i].average_rating;
        let ghost pv = p@;
        let stored = p.clone();
        set_at(&mut self.worker_profiles, worker_i, stored);
        proof {
            let postv = self@;
            assert(pv =~= (WorkerProfileView {
                average_rating: pre.worker_for(draft.user_id).average_rating,
                ..draft
            }));
            assert(postv.worker_profiles =~= pre.worker_profiles.update(
                pre.worker_idx(draft.user_id),
                pv,
            ));
            assert(postv =~= update_worker_profile_post(pre, caller@, draft));
            lemma_shift_app_frame(pre, postv);
            assert forall|i: int, j: int|
                0 <= i < j < postv.worker_profiles.len() implies (
            #[trigger] postv.worker_profiles[i]).user_id
                != (#[trigger] postv.worker_profiles[j]).user_id by {
                assert(pre.worker_profiles[i].user_id != pre.worker_profiles[j].user_id);
                assert(postv.worker_profiles[i].user_id == pre.worker_profiles[i].user_id);
                assert(postv.worker_profiles[j].user_id == pre.worker_profiles[j].user_id);
            }
            assert forall|i: int|
                0 <= i < postv.worker_profiles.len() implies crate::state::average_matches(
                (#[trigger] postv.worker_profiles[i]).average_rating,
                postv.ratings_of(postv.worker_profiles[i].user_id),
            ) by {
                assert(crate::state::average_matches(
                    pre.worker_profiles[i].average_rating,
                    pre.ratings_of(pre.worker_profiles[i].user_id),
                ));
                assert(postv.worker_profiles[i].average_rating
                    == pre.worker_profiles[i].average_rating);
                assert(postv.worker_profiles[i].user_id == pre.worker_profiles[i].user_id);
            }
            assert forall|i: int|
                0 <= i < postv.did_documents.len() implies crate::state::average_matches(
                (#[trigger] postv.did_documents[i]).average_rating,
                postv.ratings_of(postv.did_documents[i].worker_id),
            ) by {
                assert(crate::state::average_matches(
                    pre.did_documents[i].average_rating,
                    pre.ratings_of(pre.did_documents[i].worker_id),
                ));
            }
            assert forall|i: int| 0 <= i < postv.did_documents.len() implies postv.doc_ok(
                #[trigger] postv.did_documents[i],
            ) by {
                assert(pre.doc_ok(pre.did_documents[i]));
            }
            assert forall|i: int| 0 <= i < postv.worker_profiles.len() implies postv.has_doc(
                (#[trigger] postv.worker_profiles[i]).user_id,
            ) by {
                assert(pre.has_doc(pre.worker_profiles[i].user_id));
                let k = pre.doc_idx(pre.worker_profiles[i].user_id);
                assert(postv.did_documents[k].worker_id == pre.worker_profiles[i].user_id);
            }
        }
        Ok(p)
    }

    /// Creates (or replaces) the business profile owned by the caller's
    /// Business identity. The stored profile is returned.
    pub fn create_business_profile(&mut self, caller: &String, profile: BusinessProfile) -> (r:
        Result<BusinessProfile, Error>)
        requires
            old(self).inv(),
        ensures
            final(self).inv(),
            match r {
                Ok(p) => create_profile_check(
                    old(self)@,
                    caller@,
                    profile@.user_id,
                    UserType::Business,
                ) is None && p@ == profile@,
                Err(e) => create_profile_check(
                    old(self)@,
                    caller@,
                    profile@.user_id,
                    UserType::Business,
                ) == Some(e),
            },
            final(self)@ == create_business_profile_post(old(self)@, caller@, profile@),
    {
        let ghost pre = self@;
        let ghost draft = profile@;
        let user_i = match self.find_user(caller) {
            Some(i) => i,
            None => {
                return Err(Error::NotFound);
            },
        };
        if !(self.user_profiles[user_i].user_type == UserType::Business) {
            return Err(Error::RoleMismatch);
        }
        if !(profile.user_id == self.user_profiles[user_i].id) {
            return Err(Error::IdMismatch);
        }
        let slot = self.find_business(&profile.user_id);
        let stored = profile.clone();
        match slot {
            Some(i) => set_at(&mut self.business_profiles, i, stored),
            None => self.business_profiles.push(stored),
        }
        proof {
            let postv = self@;
            assert(postv =~= create_business_profile_post(pre, caller@, draft));
            lemma_shift_app_frame(pre, postv);
            lemma_ledger_frame(pre, postv);
            assert forall|i: int, j: int|
                0 <= i < j < postv.business_profiles.len() implies (
            #[trigger] postv.business_profiles[i]).user_id
                != (#[trigger] postv.business_profiles[j]).user_id by {
                if j < pre.business_profiles.len() {
                    assert(pre.business_profiles[i].user_id != pre.business_profiles[j].user_id);
                } else {
                    if postv.business_profiles[i].user_id == draft.user_id {
                        assert(pre.has_business(draft.user_id));
                        if pre.has_business(draft.user_id) {
                            let k = pre.business_idx(draft.user_id);
                            assert(pre.business_profiles[k].user_id == draft.user_id);
                        }
                    }
                }
            }
        }
        Ok(profile)
    }

    /// Fetches a business profile by its identity id.
    pub fn get_business_profile(&self, user_id: &String) -> (r: Result<BusinessProfile, Error>)
        requires
            self.inv(),
        ensures
            match r {
                Ok(p) => self@.has_business(user_id@) && p@ == self@.business_for(user_id@),
                Err(e) => !self@.has_business(user_id@) && e == Error::NotFound,
            },
    {
        match self.find_business(user_id) {
            Some(i) => Ok(self.business_profiles[i].clone()),
            None => Err(Error::NotFound),
        }
    }

    /// The owning caller replaces its business profile's fields. The
    /// stored profile is returned.
    pub fn update_business_profile(&mut self, caller: &String, profile: BusinessProfile) -> (r:
        Result<BusinessProfile, Error>)
        requires
            old(self).inv(),
        ensures
            final(self).inv(),
            match r {
                Ok(p) => update_profile_check(
                    old(self)@,
                    caller@,
                    profile@.user_id,
                    old(self)@.has_business(profile@.user_id),
                ) is None && p@ == profile@,
                Err(e) => update_profile_check(
                    old(self)@,
                    caller@,
                    profile@.user_id,
                    old(self)@.has_business(profile@.user_id),
                ) == Some(e),
            },
            final(self)@ == update_business_profile_post(old(self)@, caller@, profile@),
    {
        let ghost pre = self@;
        let ghost draft = profile@;
        let user_i = match self.find_user(caller) {
            Some(i) => i,
            None => {
                return Err(Error::NotFound);
            },
        };
        if !(profile.user_id == self.user_profiles[user_i].id) {
            return Err(Error::Unauthorized);
        }
        let business_i = match self.find_business(&profile.user_id) {
            Some(i) => i,
            None => {
                return Err(Error::NotFound);
            },
        };
        let stored = profile.clone();
        set_at(&mut self.business_profiles, business_i, stored);
        proof {
            let postv = self@;
            assert(postv.business_profiles =~= pre.business_profiles.update(
                pre.business_idx(draft.user_id),
                draft,
            ));
            assert(postv =~= update_business_profile_post(pre, caller@, draft));
            lemma_shift_app_frame(pre, postv);
            lemma_ledger_frame(pre, postv);
            assert forall|i: int, j: int|
                0 <= i < j < postv.business_profiles.len() implies (
            #[trigger] postv.business_profiles[i]).user_id
                != (#[trigger] postv.business_profiles[j]).user_id by {
                assert(pre.business_profiles[i].user_id != pre.business_profiles[j].user_id);
                assert(postv.business_profiles[i].user_id == pre.business_profiles[i].user_id);
                assert(postv.business_profiles[j].user_id == pre.business_profiles[j].user_id);
            }
        }
        Ok(profile)
    }
}

/// The mean of a run of ratings, as `avg_of` defines it.
fn calculate_avg(ratings: &Vec<Rating>) -> (r: Option<crate::types::RatingAverage>)
    ensures
        r == avg_of(ratings.deep_view()),
{
    let r = crate::ledger::calculate_average_rating(ratings);
    proof {
        lemma_avg_of_matches(ratings.deep_view());
        match r {
            None => {},
            Some(av) => {
                assert(ratings.deep_view().len() > 0);
            },
        }
    }
    r
}

} // verus!
