//! Entity types of the marketplace core and their specification-level views.
//!
//! Every entity has a ghost view struct whose string fields are `Seq<char>`;
//! all contracts in this crate speak about those views. Identifiers are
//! opaque strings. Money amounts are fixed-point integers (cents), worked
//! time is whole minutes, and timestamps are milliseconds.

use vstd::prelude::*;

verus! {

/// The role tag of an identity record: a caller is either a worker who
/// applies to shifts or a business that posts them.
#[derive(Clone, Copy, Debug, PartialEq, Eq, Structural)]
pub enum UserType {
    Worker,
    Business,
}

/// Lifecycle states of a shift.
#[derive(Clone, Copy, Debug, PartialEq, Eq, Structural)]
pub enum ShiftStatus {
    Draft,
    Open,
    Claimed,
    Approved,
    InProgress,
    Completed,
    Cancelled,
}

/// Decision state of a worker's application to a shift.
#[derive(Clone, Copy, Debug, PartialEq, Eq, Structural)]
pub enum ApplicationStatus {
    Pending,
    Approved,
    Rejected,
}

/// Event tag of a notification.
#[derive(Clone, Copy, Debug, PartialEq, Eq, Structural)]
pub enum NotificationType {
    ShiftPosted,
    ShiftClaimed,
    ShiftApproved,
    ShiftRejected,
    ShiftCompleted,
    ShiftCancelled,
    PaymentProcessed,
}

/// An average rating held exactly as the pair of the score sum and the
/// number of ratings it was computed over. The arithmetic mean is
/// `sum / count`; an absent average ("unrated") is represented by
/// `Option::None` at the field that holds this type, never by a zero.
#[derive(Clone, Copy, Debug, PartialEq, Eq, Structural)]
pub struct RatingAverage {
    /// Sum of all integer scores over which the average was taken.
    pub sum: u128,
    /// Number of ratings over which the average was taken; always positive.
    pub count: u64,
}

/// The root account record binding an authenticated caller (its principal,
/// held as the principal's textual form) to a role and contact data.
#[derive(Debug)]
pub struct UserProfile {
    pub id: String,
    pub owner_principal: String,
    pub user_type: UserType,
    pub name: String,
    pub email: String,
    pub phone: Option<String>,
    pub location: String,
    pub created_at: i64,
    pub updated_at: i64,
    pub did_document: Option<String>,
}

#[verifier::ext_equal]
pub ghost struct UserProfileView {
    pub id: Seq<char>,
    pub owner_principal: Seq<char>,
    pub user_type: UserType,
    pub name: Seq<char>,
    pub email: Seq<char>,
    pub phone: Option<Seq<char>>,
    pub location: Seq<char>,
    pub created_at: i64,
    pub updated_at: i64,
    pub did_document: Option<Seq<char>>,
}

impl View for UserProfile {
    type V = UserProfileView;

    open spec fn view(&self) -> UserProfileView {
        UserProfileView {
            id: self.id@,
            owner_principal: self.owner_principal@,
            user_type: self.user_type,
            name: self.name@,
            email: self.email@,
            phone: self.phone.deep_view(),
            location: self.location@,
            created_at: self.created_at,
            updated_at: self.updated_at,
            did_document: self.did_document.deep_view(),
        }
    }
}

impl DeepView for UserProfile {
    type V = UserProfileView;

    open spec fn deep_view(&self) -> UserProfileView {
        self.view()
    }
}

impl Clone for UserProfile {
    fn clone(&self) -> (r: Self)
        ensures
            r@ == self@,
    {
        UserProfile {
            id: self.id.clone(),
            owner_principal: self.owner_principal.clone(),
            user_type: self.user_type,
            name: self.name.clone(),
            email: self.email.clone(),
            phone: clone_opt_string(&self.phone),
            location: self.location.clone(),
            created_at: self.created_at,
            updated_at: self.updated_at,
            did_document: clone_opt_string(&self.did_document),
        }
    }
}

/// A worker's profile, keyed by the identity id of a Worker identity record.
/// `average_rating` is a derived cache: it always reflects the mean of the
/// persisted ratings of this worker at the last recomputation.
#[derive(Debug)]
pub struct WorkerProfile {
    pub user_id: String,
    pub skills: Vec<String>,
    pub experience_level: String,
    pub availability: Vec<String>,
    pub bio: Option<String>,
    pub total_shifts_completed: u64,
    pub average_rating: Option<RatingAverage>,
    pub is_verified: bool,
}

#[verifier::ext_equal]
pub ghost struct WorkerProfileView {
    pub user_id: Seq<char>,
    pub skills: Seq<Seq<char>>,
    pub experience_level: Seq<char>,
    pub availability: Seq<Seq<char>>,
    pub bio: Option<Seq<char>>,
    pub total_shifts_completed: u64,
    pub average_rating: Option<RatingAverage>,
    pub is_verified: bool,
}

impl View for WorkerProfile {
    type V = WorkerProfileView;

    open spec fn view(&self) -> WorkerProfileView {
        WorkerProfileView {
            user_id: self.user_id@,
            skills: self.skills.deep_view(),
            experience_level: self.experience_level@,
            availability: self.availability.deep_view(),
            bio: self.bio.deep_view(),
            total_shifts_completed: self.total_shifts_completed,
            average_rating: self.average_rating,
            is_verified: self.is_verified,
        }
    }
}

impl DeepView for WorkerProfile {
    type V = WorkerProfileView;

    open spec fn deep_view(&self) -> WorkerProfileView {
        self.view()
    }
}

impl Clone for WorkerProfile {
    fn clone(&self) -> (r: Self)
        ensures
            r@ == self@,
    {
        WorkerProfile {
            user_id: self.user_id.clone(),
            skills: clone_string_vec(&self.skills),
            experience_level: self.experience_level.clone(),
            availability: clone_string_vec(&self.availability),
            bio: clone_opt_string(&self.bio),
            total_shifts_completed: self.total_shifts_completed,
            average_rating: self.average_rating,
            is_verified: self.is_verified,
        }
    }
}

/// A business's profile, keyed by the identity id of a Business identity
/// record.
#[derive(Debug)]
pub struct BusinessProfile {
    pub user_id: String,
    pub business_name: String,
    pub business_type: String,
    pub business_size: Option<String>,
    pub address: Option<String>,
    pub description: Option<String>,
    pub is_verified: bool,
}

#[verifier::ext_equal]
pub ghost struct BusinessProfileView {
    pub user_id: Seq<char>,
    pub business_name: Seq<char>,
    pub business_type: Seq<char>,
    pub business_size: Option<Seq<char>>,
    pub address: Option<Seq<char>>,
    pub description: Option<Seq<char>>,
    pub is_verified: bool,
}

impl View for BusinessProfile {
    type V = BusinessProfileView;

    open spec fn view(&self) -> BusinessProfileView {
        BusinessProfileView {
            user_id: self.user_id@,
            business_name: self.business_name@,
            business_type: self.business_type@,
            business_size: self.business_size.deep_view(),
            address: self.address.deep_view(),
            description: self.description.deep_view(),
            is_verified: self.is_verified,
        }
    }
}

impl DeepView for BusinessProfile {
    type V = BusinessProfileView;

    open spec fn deep_view(&self) -> BusinessProfileView {
        self.view()
    }
}

impl Clone for BusinessProfile {
    fn clone(&self) -> (r: Self)
        ensures
            r@ == self@,
    {
        BusinessProfile {
            user_id: self.user_id.clone(),
            business_name: self.business_name.clone(),
            business_type: self.business_type.clone(),
            business_size: clone_opt_string(&self.business_size),
            address: clone_opt_string(&self.address),
            description: clone_opt_string(&self.description),
            is_verified: self.is_verified,
        }
    }
}

/// A postable, applyable, assignable unit of paid work, owned exclusively
/// by the business named in `business_id`. `pay_rate` is in cents per hour.
/// `applicants` records applying workers in application order, without
/// duplicates; `assigned_worker` is set only by application approval.
#[derive(Debug)]
pub struct Shift {
    pub id: String,
    pub business_id: String,
    pub role: String,
    pub date: String,
    pub start_time: String,
    pub end_time: String,
    pub pay_rate: u64,
    pub location: String,
    pub description: Option<String>,
    pub requirements: Vec<String>,
    pub status: ShiftStatus,
    pub assigned_worker: Option<String>,
    pub applicants: Vec<String>,
    pub is_urgent: bool,
    pub created_at: i64,
    pub updated_at: i64,
}

#[verifier::ext_equal]
pub ghost struct ShiftView {
    pub id: Seq<char>,
    pub business_id: Seq<char>,
    pub role: Seq<char>,
    pub date: Seq<char>,
    pub start_time: Seq<char>,
    pub end_time: Seq<char>,
    pub pay_rate: u64,
    pub location: Seq<char>,
    pub description: Option<Seq<char>>,
    pub requirements: Seq<Seq<char>>,
    pub status: ShiftStatus,
    pub assigned_worker: Option<Seq<char>>,
    pub applicants: Seq<Seq<char>>,
    pub is_urgent: bool,
    pub created_at: i64,
    pub updated_at: i64,
}

impl View for Shift {
    type V = ShiftView;

    open spec fn view(&self) -> ShiftView {
        ShiftView {
            id: self.id@,
            business_id: self.business_id@,
            role: self.role@,
            date: self.date@,
            start_time: self.start_time@,
            end_time: self.end_time@,
            pay_rate: self.pay_rate,
            location: self.location@,
            description: self.description.deep_view(),
            requirements: self.requirements.deep_view(),
            status: self.status,
            assigned_worker: self.assigned_worker.deep_view(),
            applicants: self.applicants.deep_view(),
            is_urgent: self.is_urgent,
            created_at: self.created_at,
            updated_at: self.updated_at,
        }
    }
}

impl DeepView for Shift {
    type V = ShiftView;

    open spec fn deep_view(&self) -> ShiftView {
        self.view()
    }
}

impl Clone for Shift {
    fn clone(&self) -> (r: Self)
        ensures
            r@ == self@,
    {
        Shift {
            id: self.id.clone(),
            business_id: self.business_id.clone(),
            role: self.role.clone(),
            date: self.date.clone(),
            start_time: self.start_time.clone(),
            end_time: self.end_time.clone(),
            pay_rate: self.pay_rate,
            location: self.location.clone(),
            description: clone_opt_string(&self.description),
            requirements: clone_string_vec(&self.requirements),
            status: self.status,
            assigned_worker: clone_opt_string(&self.assigned_worker),
            applicants: clone_string_vec(&self.applicants),
            is_urgent: self.is_urgent,
            created_at: self.created_at,
            updated_at: self.updated_at,
        }
    }
}

/// An append-only record of completed work: an immutable snapshot of the
/// shift's facts at completion time. `hours_worked` is in whole minutes and
/// `pay_earned` in cents. The verification digest is stored verbatim as
/// submitted and never recomputed.
#[derive(Debug)]
pub struct WorkHistory {
    pub id: String,
    pub worker_id: String,
    pub business_id: String,
    pub shift_id: String,
    pub role: String,
    pub date_worked: String,
    pub hours_worked: u64,
    pub pay_earned: u64,
    pub business_name: String,
    pub location: String,
    pub completed_at: i64,
    pub verification_hash: String,
}

#[verifier::ext_equal]
pub ghost struct WorkHistoryView {
    pub id: Seq<char>,
    pub worker_id: Seq<char>,
    pub business_id: Seq<char>,
    pub shift_id: Seq<char>,
    pub role: Seq<char>,
    pub date_worked: Seq<char>,
    pub hours_worked: u64,
    pub pay_earned: u64,
    pub business_name: Seq<char>,
    pub location: Seq<char>,
    pub completed_at: i64,
    pub verification_hash: Seq<char>,
}

impl View for WorkHistory {
    type V = WorkHistoryView;

    open spec fn view(&self) -> WorkHistoryView {
        WorkHistoryView {
            id: self.id@,
            worker_id: self.worker_id@,
            business_id: self.business_id@,
            shift_id: self.shift_id@,
            role: self.role@,
            date_worked: self.date_worked@,
            hours_worked: self.hours_worked,
            pay_earned: self.pay_earned,
            business_name: self.business_name@,
            location: self.location@,
            completed_at: self.completed_at,
            verification_hash: self.verification_hash@,
        }
    }
}

impl DeepView for WorkHistory {
    type V = WorkHistoryView;

    open spec fn deep_view(&self) -> WorkHistoryView {
        self.view()
    }
}

impl Clone for WorkHistory {
    fn clone(&self) -> (r: Self)
        ensures
            r@ == self@,
    {
        WorkHistory {
            id: self.id.clone(),
            worker_id: self.worker_id.clone(),
            business_id: self.business_id.clone(),
            shift_id: self.shift_id.clone(),
            role: self.role.clone(),
            date_worked: self.date_worked.clone(),
            hours_worked: self.hours_worked,
            pay_earned: self.pay_earned,
            business_name: self.business_name.clone(),
            location: self.location.clone(),
            completed_at: self.completed_at,
            verification_hash: self.verification_hash.clone(),
        }
    }
}

/// An append-only rating a business gave a worker for a shift, with an
/// integer score and a snapshot of the shift facts. The verification digest
/// is stored verbatim as submitted and never recomputed.
#[derive(Debug)]
pub struct Rating {
    pub id: String,
    pub worker_id: String,
    pub business_id: String,
    pub shift_id: String,
    pub rating: u8,
    pub comment: Option<String>,
    pub business_name: String,
    pub role: String,
    pub date_worked: String,
    pub created_at: i64,
    pub verification_hash: String,
}

#[verifier::ext_equal]
pub ghost struct RatingView {
    pub id: Seq<char>,
    pub worker_id: Seq<char>,
    pub business_id: Seq<char>,
    pub shift_id: Seq<char>,
    pub rating: u8,
    pub comment: Option<Seq<char>>,
    pub business_name: Seq<char>,
    pub role: Seq<char>,
    pub date_worked: Seq<char>,
    pub created_at: i64,
    pub verification_hash: Seq<char>,
}

impl View for Rating {
    type V = RatingView;

    open spec fn view(&self) -> RatingView {
        RatingView {
            id: self.id@,
            worker_id: self.worker_id@,
            business_id: self.business_id@,
            shift_id: self.shift_id@,
            rating: self.rating,
            comment: self.comment.deep_view(),
            business_name: self.business_name@,
            role: self.role@,
            date_worked: self.date_worked@,
            created_at: self.created_at,
            verification_hash: self.verification_hash@,
        }
    }
}

impl DeepView for Rating {
    type V = RatingView;

    open spec fn deep_view(&self) -> RatingView {
        self.view()
    }
}

impl Clone for Rating {
    fn clone(&self) -> (r: Self)
        ensures
            r@ == self@,
    {
        Rating {
            id: self.id.clone(),
            worker_id: self.worker_id.clone(),
            business_id: self.business_id.clone(),
            shift_id: self.shift_id.clone(),
            rating: self.rating,
            comment: clone_opt_string(&self.comment),
            business_name: self.business_name.clone(),
            role: self.role.clone(),
            date_worked: self.date_worked.clone(),
            created_at: self.created_at,
            verification_hash: self.verification_hash.clone(),
        }
    }
}

/// The credential document: the worker-scoped, append-only aggregate of
/// work history and ratings exposed as a portable reputation artifact.
/// `work_history` and `ratings` list record ids in the order the records
/// were created; `total_shifts` counts the history entries, and
/// `average_rating` caches the mean of the worker's persisted ratings.
#[derive(Debug)]
pub struct DIDDocument {
    pub worker_id: String,
    pub work_history: Vec<String>,
    pub ratings: Vec<String>,
    pub total_shifts: u64,
    pub average_rating: Option<RatingAverage>,
    pub skills_verified: Vec<String>,
    pub created_at: i64,
    pub updated_at: i64,
    pub signature: u64,
}

#[verifier::ext_equal]
pub ghost struct DIDDocumentView {
    pub worker_id: Seq<char>,
    pub work_history: Seq<Seq<char>>,
    pub ratings: Seq<Seq<char>>,
    pub total_shifts: u64,
    pub average_rating: Option<RatingAverage>,
    pub skills_verified: Seq<Seq<char>>,
    pub created_at: i64,
    pub updated_at: i64,
    pub signature: u64,
}

impl View for DIDDocument {
    type V = DIDDocumentView;

    open spec fn view(&self) -> DIDDocumentView {
        DIDDocumentView {
            worker_id: self.worker_id@,
            work_history: self.work_history.deep_view(),
            ratings: self.ratings.deep_view(),
            total_shifts: self.total_shifts,
            average_rating: self.average_rating,
            skills_verified: self.skills_verified.deep_view(),
            created_at: self.created_at,
            updated_at: self.updated_at,
            signature: self.signature,
        }
    }
}

impl DeepView for DIDDocument {
    type V = DIDDocumentView;

    open spec fn deep_view(&self) -> DIDDocumentView {
        self.view()
    }
}

impl Clone for DIDDocument {
    fn clone(&self) -> (r: Self)
        ensures
            r@ == self@,
    {
        DIDDocument {
            worker_id: self.worker_id.clone(),
            work_history: clone_string_vec(&self.work_history),
            ratings: clone_string_vec(&self.ratings),
            total_shifts: self.total_shifts,
            average_rating: self.average_rating,
            skills_verified: clone_string_vec(&self.skills_verified),
            created_at: self.created_at,
            updated_at: self.updated_at,
            signature: self.signature,
        }
    }
}

/// A worker's expression of interest in a shift, keyed by the pair of shift
/// id and worker id; at most one exists per pair.
#[derive(Debug)]
pub struct ShiftApplication {
    pub shift_id: String,
    pub worker_id: String,
    pub applied_at: i64,
    pub message: Option<String>,
    pub status: ApplicationStatus,
}

#[verifier::ext_equal]
pub ghost struct ShiftApplicationView {
    pub shift_id: Seq<char>,
    pub worker_id: Seq<char>,
    pub applied_at: i64,
    pub message: Option<Seq<char>>,
    pub status: ApplicationStatus,
}

impl View for ShiftApplication {
    type V = ShiftApplicationView;

    open spec fn view(&self) -> ShiftApplicationView {
        ShiftApplicationView {
            shift_id: self.shift_id@,
            worker_id: self.worker_id@,
            applied_at: self.applied_at,
            message: self.message.deep_view(),
            status: self.status,
        }
    }
}

impl DeepView for ShiftApplication {
    type V = ShiftApplicationView;

    open spec fn deep_view(&self) -> ShiftApplicationView {
        self.view()
    }
}

impl Clone for ShiftApplication {
    fn clone(&self) -> (r: Self)
        ensures
            r@ == self@,
    {
        ShiftApplication {
            shift_id: self.shift_id.clone(),
            worker_id: self.worker_id.clone(),
            applied_at: self.applied_at,
            message: clone_opt_string(&self.message),
            status: self.status,
        }
    }
}

/// A user-facing event record; write-once except for the read flag.
#[derive(Debug)]
pub struct Notification {
    pub id: String,
    pub user_id: String,
    pub notification_type: NotificationType,
    pub title: String,
    pub message: String,
    pub related_shift_id: Option<String>,
    pub is_read: bool,
    pub created_at: i64,
}

#[verifier::ext_equal]
pub ghost struct NotificationView {
    pub id: Seq<char>,
    pub user_id: Seq<char>,
    pub notification_type: NotificationType,
    pub title: Seq<char>,
    pub message: Seq<char>,
    pub related_shift_id: Option<Seq<char>>,
    pub is_read: bool,
    pub created_at: i64,
}

impl View for Notification {
    type V = NotificationView;

    open spec fn view(&self) -> NotificationView {
        NotificationView {
            id: self.id@,
            user_id: self.user_id@,
            notification_type: self.notification_type,
            title: self.title@,
            message: self.message@,
            related_shift_id: self.related_shift_id.deep_view(),
            is_read: self.is_read,
            created_at: self.created_at,
        }
    }
}

impl DeepView for Notification {
    type V = NotificationView;

    open spec fn deep_view(&self) -> NotificationView {
        self.view()
    }
}

impl Clone for Notification {
    fn clone(&self) -> (r: Self)
        ensures
            r@ == self@,
    {
        Notification {
            id: self.id.clone(),
            user_id: self.user_id.clone(),
            notification_type: self.notification_type,
            title: self.title.clone(),
            message: self.message.clone(),
            related_shift_id: clone_opt_string(&self.related_shift_id),
            is_read: self.is_read,
            created_at: self.created_at,
        }
    }
}

/// One entry of the reverse index from an owning caller's principal to the
/// identity id generated for it.
#[derive(Debug)]
pub struct PrincipalUserId {
    pub principal: String,
    pub user_id: String,
}

#[verifier::ext_equal]
pub ghost struct PrincipalUserIdView {
    pub principal: Seq<char>,
    pub user_id: Seq<char>,
}

impl View for PrincipalUserId {
    type V = PrincipalUserIdView;

    open spec fn view(&self) -> PrincipalUserIdView {
        PrincipalUserIdView { principal: self.principal@, user_id: self.user_id@ }
    }
}

impl DeepView for PrincipalUserId {
    type V = PrincipalUserIdView;

    open spec fn deep_view(&self) -> PrincipalUserIdView {
        self.view()
    }
}

impl Clone for PrincipalUserId {
    fn clone(&self) -> (r: Self)
        ensures
            r@ == self@,
    {
        PrincipalUserId { principal: self.principal.clone(), user_id: self.user_id.clone() }
    }
}

/// Clones an optional string; the view of the result equals the view of the
/// input.
pub fn clone_opt_string(s: &Option<String>) -> (r: Option<String>)
    ensures
        r.deep_view() == s.deep_view(),
{
    match s {
        Some(x) => Some(x.clone()),
        None => None,
    }
}

/// Clones a vector of strings; the view of the result equals the view of
/// the input.
pub fn clone_string_vec(v: &Vec<String>) -> (r: Vec<String>)
    ensures
        r.deep_view() == v.deep_view(),
{
    let r = v.clone();
    proof {
        assert(r.deep_view() =~= v.deep_view());
    }
    r
}

} // verus!
