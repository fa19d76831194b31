use vstd::prelude::*;
use crate::entities::{User, UserView};
use crate::errors::AppError;
use crate::repository::{
    email_taken, email_taken_by_other, id_taken, idx_of_id, sort_stable, sorted_by_name,
    user_with_id, wf_users, UserRepository,
};
use crate::requests::{
    create_error, effective_limit, effective_offset, valid_create, CreateUserRequest,
    ListUsersQuery, UpdateUserRequest,
};
use crate::responses::{
    profile_url_chars, UserProfileResponse, UserResponse, UsersListResponse,
};
use crate::text::{lower_str, normalized_email, trim_str, trimmed};

verus! {

/// The page of an ascending snapshot selected by an offset and a limit:
/// skip-then-take, clamped to the snapshot's length.
pub open spec fn page_of(s: Seq<UserView>, off: int, lim: int) -> Seq<UserView>
    recommends
        0 <= off,
        0 <= lim,
{
    let start = if off <= s.len() {
        off
    } else {
        s.len() as int
    };
    let end = if off + lim <= s.len() {
        off + lim
    } else {
        s.len() as int
    };
    if start <= end {
        s.subrange(start, end)
    } else {
        Seq::empty()
    }
}

/// Law: a page never reaches past its snapshot. It holds `lim` entries when
/// that many lie past `off`, the remainder when fewer do, and none when the
/// offset is at or past the end — an offset past the end is empty, not an
/// error, and leaves the snapshot (hence the reported total) untouched.
pub proof fn lemma_page_len(s: Seq<UserView>, off: int, lim: int)
    requires
        0 <= off,
        0 <= lim,
    ensures
        page_of(s, off, lim).len() == if off >= s.len() {
            0int
        } else if off + lim <= s.len() {
            lim
        } else {
            s.len() - off
        },
{
}

/// Orchestrates validation, normalization and pagination around the
/// repository it owns. Callers that share one service across request handlers
/// guard it with a lock; each operation then runs start to finish under that
/// lock, which is exactly the sequential semantics stated here.
#[derive(Debug)]
pub struct UserService {
    repository: UserRepository,
}

impl View for UserService {
    type V = Seq<UserView>;

    closed spec fn view(&self) -> Seq<UserView> {
        self.repository@
    }
}

impl UserService {
    /// Identifiers and canonical emails are unique in the owned set.
    pub open spec fn wf(&self) -> bool {
        wf_users(self@)
    }

    /// Takes ownership of the repository handle.
    pub fn new(repository: UserRepository) -> (r: Self)
        ensures
            r@ == repository@,
    {
        UserService { repository }
    }

    /// Validates, normalizes (name trimmed; email trimmed and lowercased),
    /// builds a record around a fresh identifier and stores it. Success is
    /// owed whenever the request is acceptable, the canonical email is free,
    /// and the identifier draw does not collide with a stored one.
    pub fn create_user(&mut self, request: CreateUserRequest) -> (r: Result<
        UserResponse,
        AppError,
    >)
        requires
            old(self).wf(),
        ensures
            final(self).wf(),
            r is Err ==> final(self)@ == old(self)@,
            !valid_create(request.name@, request.email@, request.age) ==> (r matches Err(e)
                && e matches AppError::InvalidInput(m) && m@ == create_error(
                request.name@,
                request.email@,
                request.age,
            )),
            valid_create(request.name@, request.email@, request.age) && email_taken(
                old(self)@,
                normalized_email(request.email@),
            ) ==> (r matches Err(e) && e matches AppError::UserAlreadyExists(em) && em@
                == normalized_email(request.email@)),
            valid_create(request.name@, request.email@, request.age) && !email_taken(
                old(self)@,
                normalized_email(request.email@),
            ) ==> ((r matches Ok(resp) && (final(self)@ == old(self)@.push(
                UserView {
                    id: resp.id,
                    name: trimmed(request.name@),
                    email: normalized_email(request.email@),
                    age: request.age,
                },
            ) && resp@ == (UserView {
                id: resp.id,
                name: trimmed(request.name@),
                email: normalized_email(request.email@),
                age: request.age,
            }) && !id_taken(old(self)@, resp.id))) || (r matches Err(e)
                && e is Internal)),
    {
        match request.validate() {
            Err(m) => {
                return Err(AppError::InvalidInput(m));
            },
            Ok(()) => {},
        }
        let name = trim_str(request.name.as_str()).to_owned();
        let email = lower_str(trim_str(request.email.as_str()));
        let user = User::new(name, email, request.age);
        match self.repository.create(user) {
            Ok(u) => Ok(UserResponse::from(u)),
            Err(e) => Err(e),
        }
    }

    /// Returns the stored record holding `id`, or fails when none does.
    pub fn get_user(&self, id: u128) -> (r: Result<UserResponse, AppError>)
        requires
            self.wf(),
        ensures
            id_taken(self@, id) ==> (r matches Ok(resp) && resp@ == user_with_id(self@, id)),
            !id_taken(self@, id) ==> r == Err::<UserResponse, AppError>(AppError::UserNotFound(
                id,
            )),
    {
        match self.repository.find_by_id(id) {
            Ok(u) => Ok(UserResponse::from(u)),
            Err(e) => Err(e),
        }
    }

    /// Returns the presentation view of the record holding `id`: the stored
    /// fields plus the derived adult flag and profile reference.
    pub fn get_user_profile(&self, id: u128) -> (r: Result<UserProfileResponse, AppError>)
        requires
            self.wf(),
        ensures
            id_taken(self@, id) ==> (r matches Ok(resp) && (resp.id == id && resp.name@
                == user_with_id(self@, id).name && resp.email@ == user_with_id(self@, id).email
                && resp.age == user_with_id(self@, id).age && resp.profile_url@
                == profile_url_chars(id) && resp.created_at@ == "2024-01-01T00:00:00Z"@
                && resp.is_adult == (user_with_id(self@, id).age >= 18))),
            !id_taken(self@, id) ==> r == Err::<UserProfileResponse, AppError>(
                AppError::UserNotFound(id),
            ),
    {
        match self.repository.find_by_id(id) {
            Ok(u) => {
                proof {
                    if id_taken(self@, id) {
                        assert(user_with_id(self@, id).id == id);
                    }
                }
                Ok(UserProfileResponse::from(u))
            },
            Err(e) => Err(e),
        }
    }

    /// Returns one page of the user set, ascending by name: the total counts
    /// the whole set before pagination, and an offset at or past the end
    /// yields an empty page rather than an error.
    pub fn list_users(&self, query: ListUsersQuery) -> (r: Result<UsersListResponse, AppError>)
        ensures
            !query.valid() ==> (r matches Err(e) && e matches AppError::InvalidInput(m) && m@
                == "Limit must be between 1 and 100"@),
            query.valid() ==> (r matches Ok(resp) && (resp.total == self@.len() && resp.limit
                == effective_limit(query.limit) && resp.offset == effective_offset(query.offset)
                && sorted_by_name(sort_stable(self@)) && sort_stable(self@).to_multiset()
                == self@.to_multiset() && resp.users.deep_view() == page_of(
                sort_stable(self@),
                effective_offset(query.offset) as int,
                effective_limit(query.limit) as int,
            ) && resp.users@.len() == (if effective_offset(query.offset) >= self@.len() {
                0int
            } else if effective_offset(query.offset) + effective_limit(query.limit)
                <= self@.len() {
                effective_limit(query.limit) as int
            } else {
                self@.len() - effective_offset(query.offset)
            }))),
    {
        match query.validate() {
            Err(m) => {
                return Err(AppError::InvalidInput(m));
            },
            Ok(()) => {},
        }
        let all_users = match self.repository.find_all() {
            Ok(v) => v,
            Err(e) => {
                return Err(e);
            },
        };
        let ghost av = all_users.deep_view();
        let total = all_users.len();
        let offset = query.get_offset();
        let limit = query.get_limit();
        let end = if offset >= total {
            total
        } else if limit < total - offset {
            offset + limit
        } else {
            total
        };
        let start = if offset >= total {
            total
        } else {
            offset
        };
        let mut users: Vec<UserResponse> = Vec::new();
        let mut i: usize = start;
        proof {
            assert(users.deep_view() =~= av.subrange(start as int, start as int));
        }
        while i < end
            invariant
                start <= i <= end <= total,
                total == av.len(),
                av == all_users.deep_view(),
                users.deep_view() == av.subrange(start as int, i as int),
            decreases end - i,
        {
            let u = all_users[i].clone();
            users.push(UserResponse::from(u));
            proof {
                assert(av.subrange(start as int, i as int + 1) =~= av.subrange(
                    start as int,
                    i as int,
                ).push(av[i as int]));
                assert(users.deep_view() =~= av.subrange(start as int, i as int).push(
                    av[i as int],
                ));
            }
            i += 1;
        }
        proof {
            av.to_multiset_ensures();
            self@.to_multiset_ensures();
            assert(av.len() == self@.len());
            assert(users.deep_view() == page_of(av, offset as int, limit as int)) by {
                assert(users.deep_view() =~= page_of(av, offset as int, limit as int));
            }
            assert(av == sort_stable(self@));
        }
        Ok(UsersListResponse { users, total, limit, offset })
    }

    /// Validates, rejects an empty update, and applies exactly the present
    /// fields to the stored record; the identifier never changes. Fails when
    /// the target is absent or the new canonical email is held by another
    /// user.
    pub fn update_user(&mut self, id: u128, request: UpdateUserRequest) -> (r: Result<
        UserResponse,
        AppError,
    >)
        requires
            old(self).wf(),
        ensures
            final(self).wf(),
            r is Err ==> final(self)@ == old(self)@,
            !request.valid() ==> (r matches Err(e) && e matches AppError::InvalidInput(m) && m@
                == request.error_msg()),
            request.valid() && !request.has_any() ==> (r matches Err(e)
                && e matches AppError::InvalidInput(m) && m@ == "No updates provided"@),
            request.valid() && request.has_any() && !id_taken(old(self)@, id) ==> r == Err::<
                UserResponse,
                AppError,
            >(AppError::UserNotFound(id)),
            request.valid() && request.has_any() && id_taken(old(self)@, id) ==> ({
                let cur = user_with_id(old(self)@, id);
                let nv = UserView {
                    id,
                    name: match request.name {
                        Some(n) => trimmed(n@),
                        None => cur.name,
                    },
                    email: match request.email {
                        Some(e) => normalized_email(e@),
                        None => cur.email,
                    },
                    age: match request.age {
                        Some(a) => a,
                        None => cur.age,
                    },
                };
                &&& (email_taken_by_other(old(self)@, id, nv.email) ==> (r matches Err(e)
                    && e matches AppError::UserAlreadyExists(em) && em@ == nv.email))
                &&& (!email_taken_by_other(old(self)@, id, nv.email) ==> (r matches Ok(resp) && (
                resp@ == nv && final(self)@ == old(self)@.update(idx_of_id(old(self)@, id), nv))))
            }),
    {
        match request.validate() {
            Err(m) => {
                return Err(AppError::InvalidInput(m));
            },
            Ok(()) => {},
        }
        if !request.has_updates() {
            return Err(AppError::InvalidInput("No updates provided".to_owned()));
        }
        let mut user = match self.repository.find_by_id(id) {
            Ok(u) => u,
            Err(e) => {
                return Err(e);
            },
        };
        proof {
            if id_taken(self@, id) {
                assert(user_with_id(self@, id).id == id);
            }
        }
        match request.name {
            Some(n) => user.update_name(trim_str(n.as_str()).to_owned()),
            None => {},
        }
        match request.email {
            Some(e) => user.update_email(lower_str(trim_str(e.as_str()))),
            None => {},
        }
        match request.age {
            Some(a) => user.update_age(a),
            None => {},
        }
        match self.repository.update(id, user) {
            Ok(u2) => Ok(UserResponse::from(u2)),
            Err(e) => Err(e),
        }
    }

    /// Fetches the record first, so that an absent target surfaces as not
    /// found, then removes it; the fetch is for reporting, the removal is
    /// what mutates.
    pub fn delete_user(&mut self, id: u128) -> (r: Result<(), AppError>)
        requires
            old(self).wf(),
        ensures
            final(self).wf(),
            !id_taken(old(self)@, id) ==> r == Err::<(), AppError>(AppError::UserNotFound(id))
                && final(self)@ == old(self)@,
            id_taken(old(self)@, id) ==> r is Ok && final(self)@ == old(self)@.remove(
                idx_of_id(old(self)@, id),
            ),
    {
        match self.repository.find_by_id(id) {
            Ok(_found) => {},
            Err(e) => {
                return Err(e);
            },
        }
        self.repository.delete(id)
    }
}

} // verus!
