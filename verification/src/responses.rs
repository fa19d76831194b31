use vstd::prelude::*;
use vstd::string::StringExecFns;
use crate::entities::{User, UserView};
use crate::ids::{id_chars, id_string};

verus! {

/// Relies on `chrono::Utc::now` and `DateTime::to_rfc3339`: the moment of the
/// call decides the result, so nothing is promised of it.
#[verifier::external_body]
fn now_rfc3339() -> String {
    chrono::Utc::now().to_rfc3339()
}

/// The boundary-facing projection of a user record.
#[derive(Debug, Clone, PartialEq, Eq)]
pub struct UserResponse {
    pub id: u128,
    pub name: String,
    pub email: String,
    pub age: u32,
}

impl View for UserResponse {
    type V = UserView;

    open spec fn view(&self) -> UserView {
        UserView { id: self.id, name: self.name@, email: self.email@, age: self.age }
    }
}

impl DeepView for UserResponse {
    type V = UserView;

    open spec fn deep_view(&self) -> UserView {
        self.view()
    }
}

impl UserResponse {
    /// Projects a record field for field.
    pub fn from(user: User) -> (r: Self)
        ensures
            r@ == user@,
    {
        UserResponse { id: user.id, name: user.name, email: user.email, age: user.age }
    }
}

/// The reference under which a user's profile is served.
pub open spec fn profile_url_chars(id: u128) -> Seq<char> {
    "/api/v1/users/"@ + id_chars(id) + "/profile"@
}

/// The presentation view of a user: the record plus derived fields. The
/// creation stamp is a fixed placeholder, since records do not carry their
/// creation time.
#[derive(Debug, Clone, PartialEq, Eq)]
pub struct UserProfileResponse {
    pub id: u128,
    pub name: String,
    pub email: String,
    pub age: u32,
    pub profile_url: String,
    pub created_at: String,
    pub is_adult: bool,
}

impl UserProfileResponse {
    /// Projects a record and derives the presentation fields.
    pub fn from(user: User) -> (r: Self)
        ensures
            r.id == user.id,
            r.name@ == user.name@,
            r.email@ == user.email@,
            r.age == user.age,
            r.profile_url@ == profile_url_chars(user.id),
            r.created_at@ == "2024-01-01T00:00:00Z"@,
            r.is_adult == (user.age >= 18),
    {
        let is_adult = user.is_adult();
        let mut url = String::new();
        url.append("/api/v1/users/");
        let hex = id_string(user.id);
        url.append(hex.as_str());
        url.append("/profile");
        proof {
            assert(url@ =~= profile_url_chars(user.id));
        }
        UserProfileResponse {
            id: user.id,
            name: user.name,
            email: user.email,
            age: user.age,
            profile_url: url,
            created_at: "2024-01-01T00:00:00Z".to_owned(),
            is_adult,
        }
    }
}

/// One page of the user set, with the pre-pagination total and the effective
/// page bounds.
#[derive(Debug, Clone, PartialEq, Eq)]
pub struct UsersListResponse {
    pub users: Vec<UserResponse>,
    pub total: usize,
    pub limit: usize,
    pub offset: usize,
}

/// The liveness report of the service.
#[derive(Debug)]
pub struct HealthResponse {
    pub status: String,
    pub timestamp: String,
    pub service: String,
    pub version: String,
}

impl HealthResponse {
    /// A healthy report, stamped with the moment of the call.
    pub fn healthy() -> (r: Self)
        ensures
            r.status@ == "healthy"@,
            r.service@ == "user_service"@,
            r.version@ == "0.1.0"@,
    {
        HealthResponse {
            status: "healthy".to_owned(),
            timestamp: now_rfc3339(),
            service: "user_service".to_owned(),
            version: "0.1.0".to_owned(),
        }
    }
}

/// The uniform success envelope: a payload and the moment it was produced.
#[derive(Debug)]
pub struct ApiResponse<T> {
    pub data: T,
    pub timestamp: String,
}

impl<T> ApiResponse<T> {
    /// Wraps a payload, stamping it with the moment of the call.
    pub fn new(data: T) -> (r: Self)
        ensures
            r.data == data,
    {
        ApiResponse { data, timestamp: now_rfc3339() }
    }
}

} // verus!
