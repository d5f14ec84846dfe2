//! The reputation ledger: work history, ratings, the derived credential
//! document, the average computation, the digest, and notifications.

use flexwage_backend::digest::did_signature;
use flexwage_backend::digest::generate_verification_hash;
use flexwage_backend::error::Error;
use flexwage_backend::error::ErrorKind;
use flexwage_backend::ledger::calculate_average_rating;
use flexwage_backend::state::State;
use flexwage_backend::text::str_contains;
use flexwage_backend::types::Notification;
use flexwage_backend::types::NotificationType;
use flexwage_backend::types::Rating;
use flexwage_backend::types::UserProfile;
use flexwage_backend::types::UserType;
use flexwage_backend::types::WorkHistory;
use flexwage_backend::types::WorkerProfile;

fn s(x: &str) -> String {
    x.to_string()
}

fn user_draft(user_type: UserType) -> UserProfile {
    UserProfile {
        id: s(""),
        owner_principal: s(""),
        user_type,
        name: s("Someone"),
        email: s("someone@example.com"),
        phone: None,
        location: s("Springfield"),
        created_at: 0,
        updated_at: 0,
        did_document: None,
    }
}

fn worker_draft(user_id: &str) -> WorkerProfile {
    WorkerProfile {
        user_id: s(user_id),
        skills: vec![s("barista"), s("cashier")],
        experience_level: s("junior"),
        availability: vec![],
        bio: None,
        total_shifts_completed: 0,
        average_rating: None,
        is_verified: false,
    }
}

fn rating_draft(id: &str, worker: &str, business: &str, score: u8) -> Rating {
    Rating {
        id: s(id),
        worker_id: s(worker),
        business_id: s(business),
        shift_id: s("S1"),
        rating: score,
        comment: None,
        business_name: s("Cafe Luna"),
        role: s("barista"),
        date_worked: s("2026-01-15"),
        created_at: 0,
        verification_hash: s("client-digest"),
    }
}

fn history_draft(id: &str, worker: &str, business: &str) -> WorkHistory {
    WorkHistory {
        id: s(id),
        worker_id: s(worker),
        business_id: s(business),
        shift_id: s("S1"),
        role: s("barista"),
        date_worked: s("2026-01-15"),
        hours_worked: 480,
        pay_earned: 14_800,
        business_name: s("Cafe Luna"),
        location: s("Springfield"),
        completed_at: 0,
        verification_hash: s("client-digest"),
    }
}

fn setup_business(state: &mut State, principal: &str, id: &str) -> String {
    state
        .create_user_profile(&s(principal), 1_000, s(id), user_draft(UserType::Business))
        .unwrap()
        .id
}

fn setup_worker(state: &mut State, principal: &str, id: &str) -> String {
    let p = state
        .create_user_profile(&s(principal), 1_000, s(id), user_draft(UserType::Worker))
        .unwrap();
    state.create_worker_profile(&s(principal), 1_000, worker_draft(&p.id)).unwrap();
    p.id
}

fn mean(avg: &flexwage_backend::types::RatingAverage) -> f32 {
    avg.sum as f32 / avg.count as f32
}

#[test]
fn ratings_recompute_both_cached_averages() {
    let mut state = State::new();
    let b = setup_business(&mut state, "biz-1", "B1");
    let w = setup_worker(&mut state, "wkr-1", "W1");

    assert_eq!(
        state.create_rating(&s("biz-1"), 2_000, rating_draft("R1", &w, &b, 4)),
        Ok(true)
    );
    let profile = state.get_worker_profile(&w).unwrap();
    let doc = state.get_worker_did(&w).unwrap();
    let a1 = profile.average_rating.unwrap();
    assert_eq!(mean(&a1), 4.0);
    assert_eq!(doc.average_rating.unwrap(), a1);

    assert_eq!(
        state.create_rating(&s("biz-1"), 3_000, rating_draft("R2", &w, &b, 2)),
        Ok(true)
    );
    let profile = state.get_worker_profile(&w).unwrap();
    let doc = state.get_worker_did(&w).unwrap();
    let a2 = profile.average_rating.unwrap();
    assert_eq!(mean(&a2), 3.0);
    assert_eq!(a2.sum, 6);
    assert_eq!(a2.count, 2);
    assert_eq!(doc.average_rating.unwrap(), a2);
    assert_eq!(doc.ratings, vec![s("R1"), s("R2")]);
}

#[test]
fn rating_requires_the_named_business() {
    let mut state = State::new();
    let b = setup_business(&mut state, "biz-1", "B1");
    let w = setup_worker(&mut state, "wkr-1", "W1");

    assert_eq!(
        state.create_rating(&s("wkr-1"), 2_000, rating_draft("R1", &w, &b, 4)),
        Err(Error::Unauthorized)
    );
    assert_eq!(
        state.create_rating(&s("ghost"), 2_000, rating_draft("R1", &w, &b, 4)),
        Err(Error::NotFound)
    );
    assert!(state.get_worker_ratings(&w).is_empty());
    assert_eq!(state.get_worker_profile(&w).unwrap().average_rating, None);
}

#[test]
fn duplicate_ledger_ids_are_conflicts() {
    let mut state = State::new();
    let b = setup_business(&mut state, "biz-1", "B1");
    let w = setup_worker(&mut state, "wkr-1", "W1");

    assert_eq!(state.create_rating(&s("biz-1"), 2_000, rating_draft("R1", &w, &b, 4)), Ok(true));
    assert_eq!(
        state.create_rating(&s("biz-1"), 2_500, rating_draft("R1", &w, &b, 1)),
        Err(Error::DuplicateRecord)
    );
    assert_eq!(Error::DuplicateRecord.kind(), ErrorKind::Conflict);
    // the first rating is untouched
    let ratings = state.get_worker_ratings(&w);
    assert_eq!(ratings.len(), 1);
    assert_eq!(ratings[0].rating, 4);

    assert_eq!(
        state.create_work_history(&s("biz-1"), 3_000, history_draft("H1", &w, &b)),
        Ok(true)
    );
    assert_eq!(
        state.create_work_history(&s("biz-1"), 3_500, history_draft("H1", &w, &b)),
        Err(Error::DuplicateRecord)
    );
}

#[test]
fn work_history_without_document_persists_silently() {
    let mut state = State::new();
    let b = setup_business(&mut state, "biz-1", "B1");
    // the worker has an identity but never created a worker profile, so
    // no credential document exists
    let w = state
        .create_user_profile(&s("wkr-1"), 1_000, s("W1"), user_draft(UserType::Worker))
        .unwrap()
        .id;

    assert_eq!(
        state.create_work_history(&s("biz-1"), 2_000, history_draft("H1", &w, &b)),
        Ok(true)
    );
    let history = state.get_worker_history(&w);
    assert_eq!(history.len(), 1);
    assert_eq!(history[0].id, s("H1"));
    assert_eq!(state.get_worker_did(&w).unwrap_err(), Error::NotFound);
}

#[test]
fn document_lists_history_in_creation_order() {
    let mut state = State::new();
    let b = setup_business(&mut state, "biz-1", "B1");
    let w = setup_worker(&mut state, "wkr-1", "W1");

    for (id, t) in [("H1", 2_000), ("H2", 3_000), ("H3", 4_000)] {
        assert_eq!(
            state.create_work_history(&s("biz-1"), t, history_draft(id, &w, &b)),
            Ok(true)
        );
    }
    let doc = state.get_worker_did(&w).unwrap();
    assert_eq!(doc.work_history, vec![s("H1"), s("H2"), s("H3")]);
    assert_eq!(doc.total_shifts, 3);
    assert_eq!(doc.updated_at, 4_000);

    let listed: Vec<String> = state.get_worker_history(&w).into_iter().map(|h| h.id).collect();
    assert_eq!(listed, vec![s("H1"), s("H2"), s("H3")]);
}

#[test]
fn export_equals_fetch() {
    let mut state = State::new();
    let b = setup_business(&mut state, "biz-1", "B1");
    let w = setup_worker(&mut state, "wkr-1", "W1");
    state.create_work_history(&s("biz-1"), 2_000, history_draft("H1", &w, &b)).unwrap();

    let fetched = state.get_worker_did(&w).unwrap();
    let exported = state.export_worker_did(&w).unwrap();
    assert_eq!(exported.worker_id, fetched.worker_id);
    assert_eq!(exported.work_history, fetched.work_history);
    assert_eq!(exported.ratings, fetched.ratings);
    assert_eq!(exported.total_shifts, fetched.total_shifts);
    assert_eq!(exported.signature, fetched.signature);
    assert_eq!(state.export_worker_did(&s("nobody")).unwrap_err(), Error::NotFound);
}

#[test]
fn worker_profile_creation_builds_document_from_existing_ledger() {
    let mut state = State::new();
    let b = setup_business(&mut state, "biz-1", "B1");
    let w = state
        .create_user_profile(&s("wkr-1"), 1_000, s("W1"), user_draft(UserType::Worker))
        .unwrap()
        .id;
    // ledger records arrive before the worker profile exists
    state.create_work_history(&s("biz-1"), 2_000, history_draft("H1", &w, &b)).unwrap();
    state.create_rating(&s("biz-1"), 2_500, rating_draft("R1", &w, &b, 5)).unwrap();

    let profile = state.create_worker_profile(&s("wkr-1"), 3_000, worker_draft(&w)).unwrap();
    let a = profile.average_rating.unwrap();
    assert_eq!(mean(&a), 5.0);

    let doc = state.get_worker_did(&w).unwrap();
    assert_eq!(doc.work_history, vec![s("H1")]);
    assert_eq!(doc.ratings, vec![s("R1")]);
    assert_eq!(doc.total_shifts, 1);
    assert_eq!(doc.average_rating.unwrap(), a);
    assert_eq!(doc.skills_verified, vec![s("barista"), s("cashier")]);
    // the document digest covers the tagged worker id at creation time
    assert_eq!(doc.signature, did_signature(&w, 3_000));
}

#[test]
fn worker_profile_update_keeps_the_cached_average() {
    let mut state = State::new();
    let b = setup_business(&mut state, "biz-1", "B1");
    let w = setup_worker(&mut state, "wkr-1", "W1");
    state.create_rating(&s("biz-1"), 2_000, rating_draft("R1", &w, &b, 3)).unwrap();

    let mut draft = worker_draft(&w);
    draft.bio = Some(s("experienced barista"));
    draft.average_rating = None;
    let updated = state.update_worker_profile(&s("wkr-1"), draft).unwrap();
    assert_eq!(updated.bio, Some(s("experienced barista")));
    let a = updated.average_rating.unwrap();
    assert_eq!(mean(&a), 3.0);
}

#[test]
fn average_of_no_ratings_is_absent() {
    assert_eq!(calculate_average_rating(&vec![]), None);
    let some = calculate_average_rating(&vec![
        rating_draft("R1", "W1", "B1", 4),
        rating_draft("R2", "W1", "B1", 2),
        rating_draft("R3", "W1", "B1", 0),
    ])
    .unwrap();
    assert_eq!(some.sum, 6);
    assert_eq!(some.count, 3);
    assert_eq!(mean(&some), 2.0);
}

#[test]
fn digest_is_length_times_time() {
    assert_eq!(generate_verification_hash("abcd", 10), 40);
    assert_eq!(generate_verification_hash("", 123), 0);
    // the product is reduced to a machine word
    assert_eq!(
        generate_verification_hash("ab", 0x8000_0000_0000_0001),
        2
    );
    // the document digest adds the four-character tag to the id's length
    assert_eq!(did_signature("w1", 7), 42);
    assert_eq!(
        did_signature("w1", 7),
        generate_verification_hash("did_w1", 7)
    );
}

#[test]
fn substring_search_matches_contains() {
    assert!(str_contains("hello world", "lo w"));
    assert!(str_contains("hello world", ""));
    assert!(str_contains("aaab", "aab"));
    assert!(!str_contains("abc", "abcd"));
    assert!(!str_contains("hello world", "worlds"));
    assert!(str_contains("abc", "abc"));
}

#[test]
fn notifications_store_filter_and_mark_read() {
    let mut state = State::new();
    let n1 = Notification {
        id: s("N1"),
        user_id: s("U1"),
        notification_type: NotificationType::ShiftPosted,
        title: s("New shift"),
        message: s("A shift was posted"),
        related_shift_id: Some(s("S1")),
        is_read: false,
        created_at: 1_000,
    };
    let mut n2 = n1.clone();
    n2.id = s("N2");
    n2.user_id = s("U2");
    n2.notification_type = NotificationType::ShiftApproved;
    assert_eq!(state.create_notification(n1), Ok(true));
    assert_eq!(state.create_notification(n2), Ok(true));

    let for_u1 = state.get_user_notifications(&s("U1"));
    assert_eq!(for_u1.len(), 1);
    assert_eq!(for_u1[0].id, s("N1"));
    assert!(!for_u1[0].is_read);

    assert_eq!(state.mark_notification_read(&s("N1")), Ok(true));
    assert!(state.get_user_notifications(&s("U1"))[0].is_read);
    assert_eq!(state.mark_notification_read(&s("N9")), Err(Error::NotFound));
}

#[test]
fn notification_with_same_id_is_replaced() {
    let mut state = State::new();
    let n = Notification {
        id: s("N1"),
        user_id: s("U1"),
        notification_type: NotificationType::ShiftPosted,
        title: s("first"),
        message: s("first message"),
        related_shift_id: None,
        is_read: false,
        created_at: 1_000,
    };
    let mut replacement = n.clone();
    replacement.title = s("second");
    state.create_notification(n).unwrap();
    state.create_notification(replacement).unwrap();
    let listed = state.get_user_notifications(&s("U1"));
    assert_eq!(listed.len(), 1);
    assert_eq!(listed[0].title, s("second"));
}

#[test]
fn rating_for_unknown_worker_persists_without_aggregates() {
    let mut state = State::new();
    let b = setup_business(&mut state, "biz-1", "B1");
    // no identity, profile or document exists for this worker id
    assert_eq!(
        state.create_rating(&s("biz-1"), 2_000, rating_draft("R1", "stranger", &b, 5)),
        Ok(true)
    );
    assert_eq!(state.get_worker_ratings(&s("stranger")).len(), 1);
    assert_eq!(state.get_worker_profile(&s("stranger")).unwrap_err(), Error::NotFound);
    assert_eq!(state.get_worker_did(&s("stranger")).unwrap_err(), Error::NotFound);
}

#[test]
fn error_kinds_follow_the_taxonomy() {
    assert_eq!(Error::NotFound.kind(), ErrorKind::NotFound);
    assert_eq!(Error::AlreadyExists.kind(), ErrorKind::Conflict);
    assert_eq!(Error::Unauthorized.kind(), ErrorKind::Unauthorized);
    assert_eq!(Error::NotABusiness.kind(), ErrorKind::Unauthorized);
    assert_eq!(Error::NotAWorker.kind(), ErrorKind::Unauthorized);
    assert_eq!(Error::RoleMismatch.kind(), ErrorKind::Unauthorized);
    assert_eq!(Error::IdMismatch.kind(), ErrorKind::Unauthorized);
    assert_eq!(Error::ShiftNotOpen.kind(), ErrorKind::InvalidState);
    assert_eq!(Error::AlreadyApplied.kind(), ErrorKind::Conflict);
    assert_eq!(Error::DuplicateRecord.kind(), ErrorKind::Conflict);
    assert_eq!(Error::WrongApplicationStatus.kind(), ErrorKind::InvalidState);
    assert_eq!(Error::AlreadyAssigned.kind(), ErrorKind::InvalidState);
}
