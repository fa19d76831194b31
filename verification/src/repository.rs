use vstd::prelude::*;
use vstd::seq_lib::{to_multiset_build, to_multiset_insert};
use vstd::string::StrSliceExecFns;
use crate::entities::{User, UserView};
use crate::errors::AppError;

verus! {

// ---------------------------------------------------------------------------
// The mathematical model of the user set
// ---------------------------------------------------------------------------
/// Some stored user already holds this canonical email.
pub open spec fn email_taken(s: Seq<UserView>, email: Seq<char>) -> bool {
    exists|i: int| 0 <= i < s.len() && s[i].email == email
}

/// Some stored user already holds this identifier.
pub open spec fn id_taken(s: Seq<UserView>, id: u128) -> bool {
    exists|i: int| 0 <= i < s.len() && s[i].id == id
}

/// Some stored user other than the one identified by `id` holds this email.
pub open spec fn email_taken_by_other(s: Seq<UserView>, id: u128, email: Seq<char>) -> bool {
    exists|i: int| 0 <= i < s.len() && s[i].id != id && s[i].email == email
}

/// The repository's invariant: identifiers and canonical emails are unique
/// across the whole user set.
pub open spec fn wf_users(s: Seq<UserView>) -> bool {
    forall|i: int, j: int|
        0 <= i < j < s.len() ==> s[i].id != s[j].id && s[i].email != s[j].email
}

/// The position of the user holding `id`; meaningful only when `id` is taken.
pub open spec fn idx_of_id(s: Seq<UserView>, id: u128) -> int {
    choose|i: int| 0 <= i < s.len() && s[i].id == id
}

/// The stored record holding `id`; meaningful only when `id` is taken.
pub open spec fn user_with_id(s: Seq<UserView>, id: u128) -> UserView {
    s[idx_of_id(s, id)]
}

/// A creation succeeds exactly when neither the email nor the identifier is
/// already present.
pub open spec fn create_ok(s: Seq<UserView>, u: UserView) -> bool {
    !email_taken(s, u.email) && !id_taken(s, u.id)
}

/// The user set after a creation attempt: grown by one on success, unchanged
/// on failure.
pub open spec fn create_post(s: Seq<UserView>, u: UserView) -> Seq<UserView> {
    if create_ok(s, u) {
        s.push(u)
    } else {
        s
    }
}

/// Under the uniqueness invariant, any position holding `id` is the position.
pub proof fn lemma_idx_of_id(s: Seq<UserView>, id: u128, i: int)
    requires
        wf_users(s),
        0 <= i < s.len(),
        s[i].id == id,
    ensures
        id_taken(s, id),
        idx_of_id(s, id) == i,
        user_with_id(s, id) == s[i],
{
    assert(id_taken(s, id));
    let j = idx_of_id(s, id);
    assert(0 <= j < s.len() && s[j].id == id);
    if i < j {
        assert(s[i].id != s[j].id);
    }
    if j < i {
        assert(s[j].id != s[i].id);
    }
}

/// Creation keeps the uniqueness invariant.
pub proof fn lemma_create_preserves_wf(s: Seq<UserView>, u: UserView)
    requires
        wf_users(s),
    ensures
        wf_users(create_post(s, u)),
{
    if create_ok(s, u) {
        let s1 = s.push(u);
        assert forall|i: int, j: int| 0 <= i < j < s1.len() implies s1[i].id != s1[j].id
            && s1[i].email != s1[j].email by {
            if j == s.len() {
                assert(s1[j] == u);
                assert(s1[i] == s[i]);
            }
        }
    }
}

// ---------------------------------------------------------------------------
// Ordering by name
// ---------------------------------------------------------------------------
/// Lexicographic order on character sequences, by code point.
pub open spec fn lex_le(a: Seq<char>, b: Seq<char>) -> bool
    decreases a.len(),
{
    if a.len() == 0 {
        true
    } else if b.len() == 0 {
        false
    } else if a[0] != b[0] {
        a[0] < b[0]
    } else {
        lex_le(a.drop_first(), b.drop_first())
    }
}

/// The order is total.
pub proof fn lemma_lex_le_total(a: Seq<char>, b: Seq<char>)
    ensures
        lex_le(a, b) || lex_le(b, a),
    decreases a.len(),
{
    if a.len() != 0 && b.len() != 0 && a[0] == b[0] {
        lemma_lex_le_total(a.drop_first(), b.drop_first());
    }
}

/// The order is transitive.
pub proof fn lemma_lex_le_trans(a: Seq<char>, b: Seq<char>, c: Seq<char>)
    requires
        lex_le(a, b),
        lex_le(b, c),
    ensures
        lex_le(a, c),
    decreases a.len(),
{
    if a.len() != 0 && b.len() != 0 && c.len() != 0 && a[0] == b[0] && b[0] == c[0] {
        lemma_lex_le_trans(a.drop_first(), b.drop_first(), c.drop_first());
    }
}

/// Ascending by name, lexicographically.
pub open spec fn sorted_by_name(s: Seq<UserView>) -> bool {
    forall|i: int, j: int| 0 <= i <= j < s.len() ==> lex_le(#[trigger] s[i].name, #[trigger] s[j].name)
}

/// Where a stable insertion places a record in an ascending sequence: right
/// after every entry whose name stays at or below the new name.
pub open spec fn stable_pos(t: Seq<UserView>, u: UserView) -> int
    decreases t.len(),
{
    if t.len() == 0 {
        0
    } else if !lex_le(t[0].name, u.name) {
        0
    } else {
        1 + stable_pos(t.drop_first(), u)
    }
}

/// An ascending sequence with a record inserted at its stable position.
pub open spec fn stable_insert(t: Seq<UserView>, u: UserView) -> Seq<UserView> {
    t.insert(stable_pos(t, u), u)
}

/// The stable sort of a snapshot: each record in storage order inserted at
/// its stable position, so equal names keep their stored relative order.
pub open spec fn sort_stable(s: Seq<UserView>) -> Seq<UserView>
    decreases s.len(),
{
    if s.len() == 0 {
        Seq::empty()
    } else {
        stable_insert(sort_stable(s.take(s.len() - 1)), s.last())
    }
}

/// The stable position is the first one whose name does not stay below the
/// new name.
proof fn lemma_stable_pos(t: Seq<UserView>, u: UserView, p: int)
    requires
        0 <= p <= t.len(),
        forall|j: int| 0 <= j < p ==> lex_le(#[trigger] t[j].name, u.name),
        p < t.len() ==> !lex_le(t[p as int].name, u.name),
    ensures
        stable_pos(t, u) == p,
    decreases t.len(),
{
    if t.len() == 0 {
    } else if p == 0 {
    } else {
        assert(lex_le(t[0].name, u.name));
        let t2 = t.drop_first();
        assert(forall|j: int| 0 <= j < p - 1 ==> #[trigger] t2[j] == t[j + 1]);
        lemma_stable_pos(t2, u, p - 1);
    }
}

/// Decides `lex_le` on two strings, comparing character by character.
fn name_le(a: &str, b: &str) -> (r: bool)
    ensures
        r == lex_le(a@, b@),
{
    let an = a.unicode_len();
    let bn = b.unicode_len();
    proof {
        assert(a@.skip(0) =~= a@);
        assert(b@.skip(0) =~= b@);
    }
    let mut i: usize = 0;
    while i < an && i < bn
        invariant
            an == a@.len(),
            bn == b@.len(),
            0 <= i <= an,
            i <= bn,
            lex_le(a@, b@) == lex_le(a@.skip(i as int), b@.skip(i as int)),
        decreases an - i,
    {
        let ca = a.get_char(i);
        let cb = b.get_char(i);
        proof {
            assert(a@.skip(i as int)[0] == a@[i as int]);
            assert(b@.skip(i as int)[0] == b@[i as int]);
        }
        if ca != cb {
            return ca < cb;
        }
        proof {
            assert(a@.skip(i as int).drop_first() =~= a@.skip(i as int + 1));
            assert(b@.skip(i as int).drop_first() =~= b@.skip(i as int + 1));
        }
        i += 1;
    }
    proof {
        if an <= bn {
            assert(a@.skip(i as int).len() == 0);
        } else {
            assert(b@.skip(i as int).len() == 0);
            assert(a@.skip(i as int).len() > 0);
        }
    }
    an <= bn
}

/// The first position whose name does not stay below the new record's name;
/// inserting there keeps the output ascending and stable.
fn find_insert_pos(out: &Vec<User>, u: &User) -> (p: usize)
    ensures
        p <= out@.len(),
        forall|j: int| 0 <= j < p ==> lex_le(#[trigger] out.deep_view()[j].name, u@.name),
        p < out@.len() ==> !lex_le(out.deep_view()[p as int].name, u@.name),
{
    let n = out.len();
    let mut p: usize = 0;
    while p < n
        invariant
            n == out@.len(),
            0 <= p <= n,
            forall|j: int| 0 <= j < p ==> lex_le(#[trigger] out.deep_view()[j].name, u@.name),
        decreases n - p,
    {
        if !name_le(out[p].name.as_str(), u.name.as_str()) {
            return p;
        }
        p += 1;
    }
    p
}

/// Inserts a record into an ascending vector, keeping it ascending.
fn insert_sorted(out: &mut Vec<User>, u: User)
    requires
        sorted_by_name(old(out).deep_view()),
    ensures
        sorted_by_name(final(out).deep_view()),
        final(out).deep_view().to_multiset() == old(out).deep_view().to_multiset().insert(u@),
        final(out)@.len() == old(out)@.len() + 1,
        final(out).deep_view() == stable_insert(old(out).deep_view(), u@),
{
    let ghost dv0 = out.deep_view();
    let ghost uv = u@;
    let p = find_insert_pos(out, &u);
    out.insert(p, u);
    proof {
        let dv1 = out.deep_view();
        dv0.insert_ensures(p as int, uv);
        assert(dv1 =~= dv0.insert(p as int, uv));
        lemma_stable_pos(dv0, uv, p as int);
        to_multiset_insert(dv0, p as int, uv);
        assert forall|i: int, j: int| 0 <= i <= j < dv1.len() implies lex_le(
            dv1[i].name,
            dv1[j].name,
        ) by {
            let pi = p as int;
            if j < pi {
                assert(dv1[i] == dv0[i] && dv1[j] == dv0[j]);
            } else if i < pi && j == pi {
                assert(dv1[i] == dv0[i] && dv1[j] == uv);
            } else if i == pi && j == pi {
                lemma_lex_le_total(uv.name, uv.name);
            } else if i < pi && j > pi {
                assert(dv1[i] == dv0[i] && dv1[j] == dv0[j - 1]);
            } else if i == pi && j > pi {
                assert(dv1[i] == uv && dv1[j] == dv0[j - 1]);
                lemma_lex_le_total(dv0[pi].name, uv.name);
                lemma_lex_le_trans(uv.name, dv0[pi].name, dv0[j - 1].name);
            } else {
                assert(dv1[i] == dv0[i - 1] && dv1[j] == dv0[j - 1]);
            }
        }
    }
}

// ---------------------------------------------------------------------------
// The repository
// ---------------------------------------------------------------------------
/// The exclusive owner of the user set. Operations are serialized by the
/// exclusive borrow they take; a caller that shares the repository across
/// request handlers guards it with a lock, which preserves exactly this
/// sequential semantics.
#[derive(Debug)]
pub struct UserRepository {
    users: Vec<User>,
}

impl View for UserRepository {
    type V = Seq<UserView>;

    closed spec fn view(&self) -> Seq<UserView> {
        self.users.deep_view()
    }
}

impl UserRepository {
    /// Identifiers and canonical emails are unique.
    pub open spec fn wf(&self) -> bool {
        wf_users(self@)
    }

    /// A fresh repository holds no users.
    pub fn new() -> (r: Self)
        ensures
            r@ == Seq::<UserView>::empty(),
            r.wf(),
    {
        let r = UserRepository { users: Vec::new() };
        proof {
            assert(r@ =~= Seq::<UserView>::empty());
        }
        r
    }

    fn email_exists(&self, email: &String) -> (r: bool)
        ensures
            r == email_taken(self@, email@),
    {
        let n = self.users.len();
        let mut i: usize = 0;
        while i < n
            invariant
                n == self@.len(),
                0 <= i <= n,
                forall|j: int| 0 <= j < i ==> #[trigger] self@[j].email != email@,
            decreases n - i,
        {
            if self.users[i].email == *email {
                assert(self@[i as int].email == email@);
                return true;
            }
            i += 1;
        }
        false
    }

    fn email_exists_other(&self, id: u128, email: &String) -> (r: bool)
        ensures
            r == email_taken_by_other(self@, id, email@),
    {
        let n = self.users.len();
        let mut i: usize = 0;
        while i < n
            invariant
                n == self@.len(),
                0 <= i <= n,
                forall|j: int|
                    0 <= j < i ==> !(#[trigger] self@[j].id != id && self@[j].email == email@),
            decreases n - i,
        {
            if self.users[i].id != id && self.users[i].email == *email {
                assert(self@[i as int].id != id && self@[i as int].email == email@);
                return true;
            }
            i += 1;
        }
        false
    }

    fn position_of_id(&self, id: u128) -> (r: Option<usize>)
        ensures
            match r {
                Some(i) => i < self@.len() && self@[i as int].id == id,
                None => !id_taken(self@, id),
            },
    {
        let n = self.users.len();
        let mut i: usize = 0;
        while i < n
            invariant
                n == self@.len(),
                0 <= i <= n,
                forall|j: int| 0 <= j < i ==> #[trigger] self@[j].id != id,
            decreases n - i,
        {
            if self.users[i].id == id {
                return Some(i);
            }
            i += 1;
        }
        None
    }

    /// Inserts a record. Fails when the email is already held by any stored
    /// user, or — defensively, to keep identifiers unique — when the drawn
    /// identifier is already present.
    pub fn create(&mut self, user: User) -> (r: Result<User, AppError>)
        requires
            old(self).wf(),
        ensures
            final(self).wf(),
            final(self)@ == create_post(old(self)@, user@),
            r is Ok <==> create_ok(old(self)@, user@),
            r matches Ok(u) ==> u@ == user@,
            email_taken(old(self)@, user@.email) ==> r == Err::<User, AppError>(
                AppError::UserAlreadyExists(user.email),
            ),
            !email_taken(old(self)@, user@.email) && id_taken(old(self)@, user@.id) ==> (
            r matches Err(e) && e matches AppError::Internal(m) && m@ == "identifier collision"@),
    {
        if self.email_exists(&user.email) {
            return Err(AppError::UserAlreadyExists(user.email));
        }
        if self.position_of_id(user.id).is_some() {
            proof {
                assert(id_taken(self@, user@.id));
            }
            return Err(AppError::Internal("identifier collision".to_owned()));
        }
        proof {
            lemma_create_preserves_wf(self@, user@);
        }
        let stored = user.clone();
        self.users.push(stored);
        proof {
            assert(self@ =~= old(self)@.push(user@));
        }
        Ok(user)
    }

    /// Returns the record holding `id`, or fails when none does.
    pub fn find_by_id(&self, id: u128) -> (r: Result<User, AppError>)
        requires
            self.wf(),
        ensures
            id_taken(self@, id) ==> (r matches Ok(u) && u@ == user_with_id(self@, id)),
            !id_taken(self@, id) ==> r == Err::<User, AppError>(AppError::UserNotFound(id)),
    {
        match self.position_of_id(id) {
            Some(i) => {
                proof {
                    lemma_idx_of_id(self@, id, i as int);
                }
                Ok(self.users[i].clone())
            },
            None => Err(AppError::UserNotFound(id)),
        }
    }

    /// Returns the whole user set, ascending by name: exactly the stable
    /// sort of the snapshot, so equal names keep their stored relative
    /// order.
    pub fn find_all(&self) -> (r: Result<Vec<User>, AppError>)
        ensures
            r is Ok,
            r matches Ok(v) ==> sorted_by_name(v.deep_view()) && v.deep_view().to_multiset()
                == self@.to_multiset() && v.deep_view() == sort_stable(self@),
    {
        let mut out: Vec<User> = Vec::new();
        let n = self.users.len();
        let mut i: usize = 0;
        proof {
            assert(out.deep_view() =~= Seq::<UserView>::empty());
            assert(self@.take(0) =~= Seq::<UserView>::empty());
        }
        while i < n
            invariant
                n == self@.len(),
                0 <= i <= n,
                sorted_by_name(out.deep_view()),
                out.deep_view().to_multiset() == self@.take(i as int).to_multiset(),
                out.deep_view() == sort_stable(self@.take(i as int)),
            decreases n - i,
        {
            let u = self.users[i].clone();
            proof {
                assert(u@ == self@[i as int]);
                assert(self@.take(i as int + 1) =~= self@.take(i as int).push(self@[i as int]));
                to_multiset_build(self@.take(i as int), self@[i as int]);
                let t1 = self@.take(i as int + 1);
                assert(t1.len() == i + 1);
                assert(t1.take(i as int) =~= self@.take(i as int));
                assert(t1.last() == self@[i as int]);
                assert(sort_stable(t1) == stable_insert(
                    sort_stable(self@.take(i as int)),
                    self@[i as int],
                ));
            }
            insert_sorted(&mut out, u);
            i += 1;
        }
        proof {
            assert(self@.take(n as int) =~= self@);
        }
        Ok(out)
    }

    /// Replaces the record holding `id`, preserving that identifier whatever
    /// the incoming record carries. Fails when `id` is absent or when the new
    /// email is held by a different user.
    pub fn update(&mut self, id: u128, user: User) -> (r: Result<User, AppError>)
        requires
            old(self).wf(),
        ensures
            final(self).wf(),
            !id_taken(old(self)@, id) ==> r == Err::<User, AppError>(AppError::UserNotFound(id))
                && final(self)@ == old(self)@,
            id_taken(old(self)@, id) && email_taken_by_other(old(self)@, id, user@.email) ==> r
                == Err::<User, AppError>(AppError::UserAlreadyExists(user.email)) && final(self)@
                == old(self)@,
            id_taken(old(self)@, id) && !email_taken_by_other(old(self)@, id, user@.email) ==> (
            r matches Ok(u2) && (u2@ == (UserView { id, ..user@ }) && final(self)@ == old(
                self,
            )@.update(idx_of_id(old(self)@, id), UserView { id, ..user@ }))),
    {
        match self.position_of_id(id) {
            None => Err(AppError::UserNotFound(id)),
            Some(i) => {
                if self.email_exists_other(id, &user.email) {
                    return Err(AppError::UserAlreadyExists(user.email));
                }
                proof {
                    lemma_idx_of_id(self@, id, i as int);
                }
                let new_user = User { id, name: user.name, email: user.email, age: user.age };
                let ret = new_user.clone();
                let ghost s0 = self@;
                self.users[i] = new_user;
                proof {
                    let s1 = self@;
                    assert(s1 =~= s0.update(i as int, UserView { id, ..user@ }));
                    assert forall|k: int, l: int| 0 <= k < l < s1.len() implies s1[k].id
                        != s1[l].id && s1[k].email != s1[l].email by {
                        if k == i as int {
                            assert(s1[l] == s0[l]);
                            assert(s0[l].id != id);
                        } else if l == i as int {
                            assert(s1[k] == s0[k]);
                            assert(s0[k].id != id);
                        } else {
                            assert(s1[k] == s0[k] && s1[l] == s0[l]);
                        }
                    }
                }
                Ok(ret)
            },
        }
    }

    /// Removes the record holding `id`, or fails when none does.
    pub fn delete(&mut self, id: u128) -> (r: Result<(), AppError>)
        requires
            old(self).wf(),
        ensures
            final(self).wf(),
            !id_taken(old(self)@, id) ==> r == Err::<(), AppError>(AppError::UserNotFound(id))
                && final(self)@ == old(self)@,
            id_taken(old(self)@, id) ==> r is Ok && final(self)@ == old(self)@.remove(
                idx_of_id(old(self)@, id),
            ),
    {
        match self.position_of_id(id) {
            None => Err(AppError::UserNotFound(id)),
            Some(i) => {
                proof {
                    lemma_idx_of_id(self@, id, i as int);
                }
                let ghost s0 = self@;
                self.users.remove(i);
                proof {
                    let s1 = self@;
                    s0.remove_ensures(i as int);
                    assert(s1 =~= s0.remove(i as int));
                    assert forall|k: int, l: int| 0 <= k < l < s1.len() implies s1[k].id
                        != s1[l].id && s1[k].email != s1[l].email by {
                        let k0 = if k < i as int {
                            k
                        } else {
                            k + 1
                        };
                        let l0 = if l < i as int {
                            l
                        } else {
                            l + 1
                        };
                        assert(s1[k] == s0[k0] && s1[l] == s0[l0]);
                    }
                }
                Ok(())
            },
        }
    }

    /// The current cardinality of the user set.
    pub fn count(&self) -> (r: usize)
        ensures
            r == self@.len(),
    {
        self.users.len()
    }
}

impl Default for UserRepository {
    /// The default repository is a fresh, empty one.
    fn default() -> (r: Self)
        ensures
            r@ == Seq::<UserView>::empty(),
            r.wf(),
    {
        UserRepository::new()
    }
}

// ---------------------------------------------------------------------------
// Laws of the user set
// ---------------------------------------------------------------------------
/// Law: a successful creation grows the user set by exactly one, and the new
/// identifier differs from every identifier already stored.
pub proof fn lemma_create_adds_one(s: Seq<UserView>, u: UserView)
    requires
        create_ok(s, u),
    ensures
        create_post(s, u).len() == s.len() + 1,
        forall|i: int| 0 <= i < s.len() ==> (#[trigger] s[i].id) != u.id,
{
}

/// Law: once a creation with some email has succeeded, a second creation
/// carrying the same canonical email fails and leaves the user set unchanged.
pub proof fn lemma_duplicate_email_rejected(s: Seq<UserView>, u1: UserView, u2: UserView)
    requires
        create_ok(s, u1),
        u2.email == u1.email,
    ensures
        !create_ok(create_post(s, u1), u2),
        create_post(create_post(s, u1), u2) == create_post(s, u1),
{
    let s1 = create_post(s, u1);
    assert(s1[s.len() as int].email == u2.email);
    assert(email_taken(s1, u2.email));
}

/// Law: looking a user up right after a successful creation yields exactly
/// the record that was stored.
pub proof fn lemma_find_created(s: Seq<UserView>, u: UserView)
    requires
        wf_users(s),
        create_ok(s, u),
    ensures
        id_taken(create_post(s, u), u.id),
        user_with_id(create_post(s, u), u.id) == u,
{
    lemma_create_preserves_wf(s, u);
    lemma_idx_of_id(create_post(s, u), u.id, s.len() as int);
}

/// The user set after a serialized run of creation attempts.
pub open spec fn create_all(s: Seq<UserView>, reqs: Seq<UserView>) -> Seq<UserView>
    decreases reqs.len(),
{
    if reqs.len() == 0 {
        s
    } else {
        create_all(create_post(s, reqs[0]), reqs.drop_first())
    }
}

/// How many of a serialized run of creation attempts succeed.
pub open spec fn create_successes(s: Seq<UserView>, reqs: Seq<UserView>) -> int
    decreases reqs.len(),
{
    if reqs.len() == 0 {
        0
    } else {
        (if create_ok(s, reqs[0]) {
            1int
        } else {
            0int
        }) + create_successes(create_post(s, reqs[0]), reqs.drop_first())
    }
}

/// While the email is taken, every attempt carrying it fails and changes
/// nothing.
pub proof fn lemma_taken_email_all_fail(s: Seq<UserView>, reqs: Seq<UserView>, e: Seq<char>)
    requires
        email_taken(s, e),
        forall|i: int| 0 <= i < reqs.len() ==> (#[trigger] reqs[i].email) == e,
    ensures
        create_successes(s, reqs) == 0,
        create_all(s, reqs) == s,
    decreases reqs.len(),
{
    if reqs.len() > 0 {
        assert(reqs[0].email == e);
        assert(!create_ok(s, reqs[0]));
        assert(create_post(s, reqs[0]) == s);
        assert(forall|i: int|
            0 <= i < reqs.drop_first().len() ==> (#[trigger] reqs.drop_first()[i].email) == e);
        lemma_taken_email_all_fail(s, reqs.drop_first(), e);
    }
}

/// Law: when several creation attempts all carrying one email run serialized
/// against a set that does not yet hold it, exactly the first succeeds.
pub proof fn lemma_one_winner(s: Seq<UserView>, reqs: Seq<UserView>, e: Seq<char>)
    requires
        reqs.len() > 0,
        forall|i: int| 0 <= i < reqs.len() ==> (#[trigger] reqs[i].email) == e,
        !email_taken(s, e),
        !id_taken(s, reqs[0].id),
    ensures
        create_successes(s, reqs) == 1,
{
    assert(reqs[0].email == e);
    assert(create_ok(s, reqs[0]));
    let s1 = create_post(s, reqs[0]);
    assert(s1[s.len() as int].email == e);
    assert(email_taken(s1, e));
    assert(forall|i: int|
        0 <= i < reqs.drop_first().len() ==> (#[trigger] reqs.drop_first()[i].email) == e);
    lemma_taken_email_all_fail(s1, reqs.drop_first(), e);
}

} // verus!
