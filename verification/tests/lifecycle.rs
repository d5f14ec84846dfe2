//! Shift lifecycle: posting, application, approval, rejection, and the
//! authorization rules that gate every transition.

use flexwage_backend::error::Error;
use flexwage_backend::error::ErrorKind;
use flexwage_backend::state::State;
use flexwage_backend::types::ApplicationStatus;
use flexwage_backend::types::BusinessProfile;
use flexwage_backend::types::Shift;
use flexwage_backend::types::ShiftStatus;
use flexwage_backend::types::UserProfile;
use flexwage_backend::types::UserType;
use flexwage_backend::types::WorkerProfile;

fn s(x: &str) -> String {
    x.to_string()
}

fn user_draft(user_type: UserType, name: &str) -> UserProfile {
    UserProfile {
        id: s(""),
        owner_principal: s(""),
        user_type,
        name: s(name),
        email: s("someone@example.com"),
        phone: None,
        location: s("Springfield"),
        created_at: 0,
        updated_at: 0,
        did_document: None,
    }
}

fn worker_draft(user_id: &str) -> WorkerProfile {
    WorkerProfile {
        user_id: s(user_id),
        skills: vec![s("barista")],
        experience_level: s("junior"),
        availability: vec![s("weekends")],
        bio: None,
        total_shifts_completed: 0,
        average_rating: None,
        is_verified: false,
    }
}

fn business_draft(user_id: &str) -> BusinessProfile {
    BusinessProfile {
        user_id: s(user_id),
        business_name: s("Cafe Luna"),
        business_type: s("cafe"),
        business_size: None,
        address: None,
        description: None,
        is_verified: false,
    }
}

fn shift_draft(business_id: &str, location: &str, status: ShiftStatus) -> Shift {
    Shift {
        id: s(""),
        business_id: s(business_id),
        role: s("barista"),
        date: s("2026-01-15"),
        start_time: s("08:00"),
        end_time: s("16:00"),
        pay_rate: 1850,
        location: s(location),
        description: None,
        requirements: vec![],
        status,
        assigned_worker: None,
        applicants: vec![],
        is_urgent: false,
        created_at: 0,
        updated_at: 0,
    }
}

/// Registers a business identity plus profile and returns its identity id.
fn setup_business(state: &mut State, principal: &str, id: &str) -> String {
    let p = state
        .create_user_profile(&s(principal), 1_000, s(id), user_draft(UserType::Business, "Bea"))
        .unwrap();
    state.create_business_profile(&s(principal), business_draft(&p.id)).unwrap();
    p.id
}

/// Registers a worker identity plus profile and returns its identity id.
fn setup_worker(state: &mut State, principal: &str, id: &str) -> String {
    let p = state
        .create_user_profile(&s(principal), 1_000, s(id), user_draft(UserType::Worker, "Wes"))
        .unwrap();
    state.create_worker_profile(&s(principal), 1_000, worker_draft(&p.id)).unwrap();
    p.id
}

#[test]
fn open_shift_application_and_approval() {
    let mut state = State::new();
    let b = setup_business(&mut state, "biz-1", "B1");
    let w = setup_worker(&mut state, "wkr-1", "W1");

    let shift = state
        .create_shift(&s("biz-1"), 2_000, s("S1"), shift_draft(&b, "Springfield", ShiftStatus::Open))
        .unwrap();
    assert_eq!(shift.id, s("S1"));
    assert_eq!(shift.status, ShiftStatus::Open);
    assert!(shift.applicants.is_empty());

    let applied = state
        .apply_to_shift(&s("wkr-1"), 3_000, &s("S1"), Some(s("interested")))
        .unwrap();
    assert!(applied);

    let apps = state.get_shift_applications(&s("S1"));
    assert_eq!(apps.len(), 1);
    assert_eq!(apps[0].worker_id, w);
    assert_eq!(apps[0].message, Some(s("interested")));
    assert!(matches!(apps[0].status, ApplicationStatus::Pending));

    let ok = state.approve_application(&s("biz-1"), 4_000, &s("S1"), &w).unwrap();
    assert!(ok);

    let after = state.get_shift(&s("S1")).unwrap();
    assert_eq!(after.status, ShiftStatus::Approved);
    assert_eq!(after.assigned_worker, Some(w.clone()));
    let apps = state.get_shift_applications(&s("S1"));
    assert!(matches!(apps[0].status, ApplicationStatus::Approved));
}

#[test]
fn apply_twice_conflicts_and_lists_worker_once() {
    let mut state = State::new();
    let b = setup_business(&mut state, "biz-1", "B1");
    let w = setup_worker(&mut state, "wkr-1", "W1");
    state
        .create_shift(&s("biz-1"), 2_000, s("S1"), shift_draft(&b, "Springfield", ShiftStatus::Open))
        .unwrap();

    assert_eq!(state.apply_to_shift(&s("wkr-1"), 3_000, &s("S1"), None), Ok(true));
    let second = state.apply_to_shift(&s("wkr-1"), 3_500, &s("S1"), None);
    assert_eq!(second, Err(Error::AlreadyApplied));
    assert_eq!(Error::AlreadyApplied.kind(), ErrorKind::Conflict);

    let shift = state.get_shift(&s("S1")).unwrap();
    let occurrences = shift.applicants.iter().filter(|a| **a == w).count();
    assert_eq!(occurrences, 1);
    assert_eq!(state.get_shift_applications(&s("S1")).len(), 1);
}

#[test]
fn apply_without_identity_is_not_found() {
    let mut state = State::new();
    let b = setup_business(&mut state, "biz-1", "B1");
    state
        .create_shift(&s("biz-1"), 2_000, s("S1"), shift_draft(&b, "Springfield", ShiftStatus::Open))
        .unwrap();

    let r = state.apply_to_shift(&s("ghost"), 3_000, &s("S1"), None);
    assert_eq!(r, Err(Error::NotFound));
    assert!(state.get_shift_applications(&s("S1")).is_empty());
}

#[test]
fn apply_to_unopen_shift_is_refused() {
    let mut state = State::new();
    let b = setup_business(&mut state, "biz-1", "B1");
    setup_worker(&mut state, "wkr-1", "W1");
    state
        .create_shift(&s("biz-1"), 2_000, s("S1"), shift_draft(&b, "Springfield", ShiftStatus::Draft))
        .unwrap();

    assert_eq!(
        state.apply_to_shift(&s("wkr-1"), 3_000, &s("S1"), None),
        Err(Error::ShiftNotOpen)
    );
}

#[test]
fn business_cannot_apply_and_worker_cannot_post() {
    let mut state = State::new();
    let b = setup_business(&mut state, "biz-1", "B1");
    let w = setup_worker(&mut state, "wkr-1", "W1");
    state
        .create_shift(&s("biz-1"), 2_000, s("S1"), shift_draft(&b, "Springfield", ShiftStatus::Open))
        .unwrap();

    assert_eq!(
        state.apply_to_shift(&s("biz-1"), 3_000, &s("S1"), None),
        Err(Error::NotAWorker)
    );
    assert_eq!(
        state
            .create_shift(&s("wkr-1"), 3_000, s("S2"), shift_draft(&w, "Springfield", ShiftStatus::Open))
            .unwrap_err(),
        Error::NotABusiness
    );
}

#[test]
fn create_shift_id_mismatch_is_refused() {
    let mut state = State::new();
    setup_business(&mut state, "biz-1", "B1");
    let r = state.create_shift(
        &s("biz-1"),
        2_000,
        s("S1"),
        shift_draft("someone-else", "Springfield", ShiftStatus::Open),
    );
    assert_eq!(r.unwrap_err(), Error::IdMismatch);
}

#[test]
fn cross_owner_shift_mutation_is_refused_and_changes_nothing() {
    let mut state = State::new();
    let b = setup_business(&mut state, "biz-1", "B1");
    setup_business(&mut state, "biz-2", "B2");
    state
        .create_shift(&s("biz-1"), 2_000, s("S1"), shift_draft(&b, "Springfield", ShiftStatus::Open))
        .unwrap();
    let before = state.get_shift(&s("S1")).unwrap();

    let update = state.update_shift(
        &s("biz-2"),
        9_000,
        &s("S1"),
        shift_draft(&b, "Shelbyville", ShiftStatus::Cancelled),
    );
    assert_eq!(update.unwrap_err(), Error::Unauthorized);
    assert_eq!(state.delete_shift(&s("biz-2"), &s("S1")), Err(Error::Unauthorized));

    let after = state.get_shift(&s("S1")).unwrap();
    assert_eq!(after.location, before.location);
    assert_eq!(after.status, before.status);
    assert_eq!(after.updated_at, before.updated_at);
    assert_eq!(state.get_shifts_by_business(&b).len(), 1);
}

#[test]
fn update_shift_keeps_identity_and_applicants() {
    let mut state = State::new();
    let b = setup_business(&mut state, "biz-1", "B1");
    let w = setup_worker(&mut state, "wkr-1", "W1");
    state
        .create_shift(&s("biz-1"), 2_000, s("S1"), shift_draft(&b, "Springfield", ShiftStatus::Open))
        .unwrap();
    state.apply_to_shift(&s("wkr-1"), 3_000, &s("S1"), None).unwrap();

    let updated = state
        .update_shift(
            &s("biz-1"),
            5_000,
            &s("S1"),
            shift_draft(&b, "Shelbyville", ShiftStatus::Open),
        )
        .unwrap();
    assert_eq!(updated.id, s("S1"));
    assert_eq!(updated.created_at, 2_000);
    assert_eq!(updated.updated_at, 5_000);
    assert_eq!(updated.location, s("Shelbyville"));
    assert_eq!(updated.applicants, vec![w]);
}

#[test]
fn delete_shift_removes_it() {
    let mut state = State::new();
    let b = setup_business(&mut state, "biz-1", "B1");
    state
        .create_shift(&s("biz-1"), 2_000, s("S1"), shift_draft(&b, "Springfield", ShiftStatus::Open))
        .unwrap();
    assert_eq!(state.delete_shift(&s("biz-1"), &s("S1")), Ok(true));
    assert_eq!(state.get_shift(&s("S1")).unwrap_err(), Error::NotFound);
    assert_eq!(state.delete_shift(&s("biz-1"), &s("S1")), Err(Error::NotFound));
}

#[test]
fn available_shifts_filter_by_status_and_location() {
    let mut state = State::new();
    let b = setup_business(&mut state, "biz-1", "B1");
    state
        .create_shift(&s("biz-1"), 2_000, s("S1"), shift_draft(&b, "Springfield North", ShiftStatus::Open))
        .unwrap();
    state
        .create_shift(&s("biz-1"), 2_000, s("S2"), shift_draft(&b, "Shelbyville", ShiftStatus::Open))
        .unwrap();
    state
        .create_shift(&s("biz-1"), 2_000, s("S3"), shift_draft(&b, "Springfield South", ShiftStatus::Draft))
        .unwrap();

    let all_open = state.get_available_shifts(None);
    assert_eq!(all_open.len(), 2);

    let in_springfield = state.get_available_shifts(Some(s("Springfield")));
    assert_eq!(in_springfield.len(), 1);
    assert_eq!(in_springfield[0].id, s("S1"));

    let nowhere = state.get_available_shifts(Some(s("Capital City")));
    assert!(nowhere.is_empty());
}

#[test]
fn approval_needs_pending_application_and_free_shift() {
    let mut state = State::new();
    let b = setup_business(&mut state, "biz-1", "B1");
    let w1 = setup_worker(&mut state, "wkr-1", "W1");
    let w2 = setup_worker(&mut state, "wkr-2", "W2");
    state
        .create_shift(&s("biz-1"), 2_000, s("S1"), shift_draft(&b, "Springfield", ShiftStatus::Open))
        .unwrap();
    state.apply_to_shift(&s("wkr-1"), 3_000, &s("S1"), None).unwrap();
    state.apply_to_shift(&s("wkr-2"), 3_100, &s("S1"), None).unwrap();

    assert_eq!(
        state.approve_application(&s("biz-1"), 4_000, &s("S1"), &s("W9")),
        Err(Error::NotFound)
    );
    assert_eq!(state.approve_application(&s("biz-1"), 4_000, &s("S1"), &w1), Ok(true));
    // the same application is no longer pending
    assert_eq!(
        state.approve_application(&s("biz-1"), 4_100, &s("S1"), &w1),
        Err(Error::WrongApplicationStatus)
    );
    // the shift is taken, so the competing pending application stays open
    assert_eq!(
        state.approve_application(&s("biz-1"), 4_200, &s("S1"), &w2),
        Err(Error::AlreadyAssigned)
    );
    assert_eq!(Error::AlreadyAssigned.kind(), ErrorKind::InvalidState);
}

#[test]
fn rejection_flips_only_the_application() {
    let mut state = State::new();
    let b = setup_business(&mut state, "biz-1", "B1");
    let w = setup_worker(&mut state, "wkr-1", "W1");
    state
        .create_shift(&s("biz-1"), 2_000, s("S1"), shift_draft(&b, "Springfield", ShiftStatus::Open))
        .unwrap();
    state.apply_to_shift(&s("wkr-1"), 3_000, &s("S1"), None).unwrap();

    assert_eq!(state.reject_application(&s("biz-1"), &s("S1"), &w), Ok(true));
    let apps = state.get_shift_applications(&s("S1"));
    assert!(matches!(apps[0].status, ApplicationStatus::Rejected));
    let shift = state.get_shift(&s("S1")).unwrap();
    assert_eq!(shift.status, ShiftStatus::Open);
    assert_eq!(shift.assigned_worker, None);
    // a decided application cannot be decided again
    assert_eq!(
        state.reject_application(&s("biz-1"), &s("S1"), &w),
        Err(Error::WrongApplicationStatus)
    );
    // an approved application cannot be rejected either
    assert_eq!(
        state.approve_application(&s("biz-1"), 5_000, &s("S1"), &w),
        Err(Error::WrongApplicationStatus)
    );
}

#[test]
fn identity_lifecycle_and_authorization() {
    let mut state = State::new();
    let p = state
        .create_user_profile(&s("alice"), 1_000, s("U1"), user_draft(UserType::Worker, "Alice"))
        .unwrap();
    assert_eq!(p.id, s("U1"));
    assert_eq!(p.owner_principal, s("alice"));

    // one identity record per caller
    let again = state.create_user_profile(
        &s("alice"),
        1_100,
        s("U2"),
        user_draft(UserType::Worker, "Alice"),
    );
    assert_eq!(again.unwrap_err(), Error::AlreadyExists);

    // an update must name the caller as owner
    let mut stolen = state.get_user_profile(&s("alice")).unwrap();
    stolen.name = s("Mallory");
    assert_eq!(
        state.update_user_profile(&s("mallory"), 2_000, stolen).unwrap_err(),
        Error::Unauthorized
    );
    assert_eq!(state.get_user_profile(&s("alice")).unwrap().name, s("Alice"));

    // the role and the id are immutable through updates
    let mut change = state.get_user_profile(&s("alice")).unwrap();
    change.name = s("Alice B");
    change.user_type = UserType::Business;
    change.id = s("U9");
    let updated = state.update_user_profile(&s("alice"), 3_000, change).unwrap();
    assert_eq!(updated.name, s("Alice B"));
    assert_eq!(updated.user_type, UserType::Worker);
    assert_eq!(updated.id, s("U1"));
    assert_eq!(updated.updated_at, 3_000);

    assert_eq!(state.get_user_profile(&s("nobody")).unwrap_err(), Error::NotFound);
}

#[test]
fn profile_creation_checks_role_and_id() {
    let mut state = State::new();
    setup_worker(&mut state, "wkr-1", "W1");
    setup_business(&mut state, "biz-1", "B1");

    assert_eq!(
        state.create_business_profile(&s("wkr-1"), business_draft("W1")).unwrap_err(),
        Error::RoleMismatch
    );
    assert_eq!(
        state.create_worker_profile(&s("biz-1"), 1_000, worker_draft("B1")).unwrap_err(),
        Error::RoleMismatch
    );
    assert_eq!(
        state.create_worker_profile(&s("wkr-1"), 1_000, worker_draft("B1")).unwrap_err(),
        Error::IdMismatch
    );
    assert_eq!(
        state.create_business_profile(&s("ghost"), business_draft("B1")).unwrap_err(),
        Error::NotFound
    );
}

#[test]
fn health_check_reports_true() {
    assert!(flexwage_backend::health_check());
}

#[test]
fn time_millis_truncates_nanoseconds() {
    assert_eq!(flexwage_backend::time_millis(1_234_567_890), 1_234);
    assert_eq!(flexwage_backend::time_millis(999_999), 0);
}
