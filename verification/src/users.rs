//! The credential store: registered identities, their creation,
//! authentication and removal.

use vstd::prelude::*;

use pbkdf2::password_hash::{PasswordHash, PasswordHasher, PasswordVerifier, SaltString};
use pbkdf2::Pbkdf2;
use rand_core::OsRng;

verus! {

/// Mathematical image of one stored identity: its opaque id, its unique
/// username, and the salted hash its password was stored as.
pub ghost struct UserView {
    pub user_uuid: Seq<char>,
    pub username: Seq<char>,
    pub password: Seq<char>,
}

/// Whether the password hasher accepts `password` against the stored hash
/// string `password_hash`. The outcome is a fixed function of the two
/// arguments; nothing further is assumed of it.
pub uninterp spec fn verifies(password: Seq<char>, password_hash: Seq<char>) -> bool;

pub open spec fn has_username(users: Seq<UserView>, username: Seq<char>) -> bool {
    exists|i: int| 0 <= i < users.len() && (#[trigger] users[i]).username == username
}

pub open spec fn username_index(users: Seq<UserView>, username: Seq<char>) -> int {
    choose|i: int| 0 <= i < users.len() && (#[trigger] users[i]).username == username
}

/// The identity registered under `username` (meaningful when
/// `has_username` holds).
pub open spec fn user_for_username(users: Seq<UserView>, username: Seq<char>) -> UserView {
    users[username_index(users, username)]
}

pub open spec fn has_uuid(users: Seq<UserView>, user_uuid: Seq<char>) -> bool {
    exists|i: int| 0 <= i < users.len() && (#[trigger] users[i]).user_uuid == user_uuid
}

pub open spec fn uuid_index(users: Seq<UserView>, user_uuid: Seq<char>) -> int {
    choose|i: int| 0 <= i < users.len() && (#[trigger] users[i]).user_uuid == user_uuid
}

/// Whether `user_uuid` once belonged to an identity that was deleted.
/// Retired ids are never assigned again.
pub open spec fn id_retired(retired: Seq<Seq<char>>, user_uuid: Seq<char>) -> bool {
    exists|i: int| 0 <= i < retired.len() && (#[trigger] retired[i]) == user_uuid
}

/// Store invariant: at most one identity per username, the id is a unique
/// secondary key, and no id is the empty sentinel string.
pub open spec fn users_wf(users: Seq<UserView>) -> bool {
    &&& forall|i: int, j: int|
        0 <= i < j < users.len() ==> (#[trigger] users[i]).username != (
        #[trigger] users[j]).username
    &&& forall|i: int, j: int|
        0 <= i < j < users.len() ==> (#[trigger] users[i]).user_uuid != (
        #[trigger] users[j]).user_uuid
    &&& forall|i: int| 0 <= i < users.len() ==> (#[trigger] users[i]).user_uuid.len() > 0
}

/// A successful registration: the username was free, and exactly one
/// identity was appended, carrying that username, a hash that the supplied
/// password verifies against, and a non-empty id fresh with respect both to
/// the identities in the store and to every retired id.
pub open spec fn create_user_ok(
    pre: Seq<UserView>,
    retired: Seq<Seq<char>>,
    post: Seq<UserView>,
    username: Seq<char>,
    password: Seq<char>,
) -> bool {
    &&& !has_username(pre, username)
    &&& post.len() == pre.len() + 1
    &&& post.subrange(0, pre.len() as int) == pre
    &&& post.last().username == username
    &&& verifies(password, post.last().password)
    &&& !has_uuid(pre, post.last().user_uuid)
    &&& !id_retired(retired, post.last().user_uuid)
    &&& post.last().user_uuid.len() > 0
}

/// What one registration attempt does to the store: on success as
/// `create_user_ok`, otherwise nothing.
pub open spec fn create_user_transition(
    pre: Seq<UserView>,
    retired: Seq<Seq<char>>,
    post: Seq<UserView>,
    username: Seq<char>,
    password: Seq<char>,
    ok: bool,
) -> bool {
    if ok {
        create_user_ok(pre, retired, post, username, password)
    } else {
        post == pre
    }
}

/// Whether `(username, password)` authenticates against the store: the
/// username is registered and the password verifies against its hash.
pub open spec fn auth_ok(users: Seq<UserView>, username: Seq<char>, password: Seq<char>) -> bool {
    has_username(users, username) && verifies(
        password,
        user_for_username(users, username).password,
    )
}

/// What one removal does to the store: the identity with that id leaves if
/// present, otherwise nothing.
pub open spec fn delete_user_transition(
    pre: Seq<UserView>,
    post: Seq<UserView>,
    user_uuid: Seq<char>,
) -> bool {
    if has_uuid(pre, user_uuid) {
        post == pre.remove(uuid_index(pre, user_uuid))
    } else {
        post == pre
    }
}

/// Capability set of a credential store.
pub trait Users: Sized {
    /// The identities the store holds, in insertion order.
    spec fn users(&self) -> Seq<UserView>;

    /// The ids of identities that were deleted, in deletion order; once an
    /// id stands here it is never assigned again.
    spec fn retired(&self) -> Seq<Seq<char>>;

    fn create_user(&mut self, username: String, password: String) -> (r: Result<(), String>)
        requires
            users_wf(old(self).users()),
        ensures
            users_wf(final(self).users()),
            final(self).retired() == old(self).retired(),
            create_user_transition(
                old(self).users(),
                old(self).retired(),
                final(self).users(),
                username@,
                password@,
                r is Ok,
            ),
            has_username(old(self).users(), username@) <==> (r matches Err(m) && m@
                == "Error, username not unique"@),
            !has_username(old(self).users(), username@) ==> (r is Ok || (r matches Err(m) && m@
                == "Error, user id not unique"@)),
            old(self).users().len() == 0 && old(self).retired().len() == 0 ==> r is Ok,
    ;

    fn get_user_uuid(&self, username: String, password: String) -> (r: Option<String>)
        requires
            users_wf(self.users()),
        ensures
            r is Some <==> auth_ok(self.users(), username@, password@),
            r matches Some(uuid) ==> uuid@ == user_for_username(self.users(), username@).user_uuid,
    ;

    fn delete_user(&mut self, user_uuid: String)
        requires
            users_wf(old(self).users()),
        ensures
            users_wf(final(self).users()),
            delete_user_transition(old(self).users(), final(self).users(), user_uuid@),
            final(self).retired() == (if has_uuid(old(self).users(), user_uuid@) {
                old(self).retired().push(user_uuid@)
            } else {
                old(self).retired()
            }),
    ;
}

/// A registered identity.
#[derive(Clone, Debug)]
pub struct User {
    user_uuid: String,
    username: String,
    password: String,
}

impl View for User {
    type V = UserView;

    closed spec fn view(&self) -> UserView {
        UserView {
            user_uuid: self.user_uuid@,
            username: self.username@,
            password: self.password@,
        }
    }
}

/// In-memory credential store.
#[derive(Debug)]
pub struct UsersImpl {
    users: Vec<User>,
    retired_ids: Vec<String>,
}

impl Users for UsersImpl {
    closed spec fn users(&self) -> Seq<UserView> {
        Seq::new(self.users@.len(), |i: int| self.users@[i]@)
    }

    closed spec fn retired(&self) -> Seq<Seq<char>> {
        Seq::new(self.retired_ids@.len(), |i: int| self.retired_ids@[i]@)
    }

    fn create_user(&mut self, username: String, password: String) -> (r: Result<(), String>) {
        if let Some(i) = self.find_by_username(&username) {
            proof {
                assert(self.users()[i as int].username == username@);
                assert(has_username(self.users(), username@));
            }
            return Err("Error, username not unique".to_string());
        }
        let hashed_password = match hash_password(password.as_str()) {
            Ok(h) => h,
            Err(e) => {
                // Unreachable: the hasher returns Ok for every input. The arm
                // stays so that a weaker hasher contract would surface here.
                proof {
                    assert(false);
                }
                return Err(e);
            },
        };
        let user_uuid = crate::ids::fresh_uuid();
        let r = self.insert_user(username, hashed_password, user_uuid);
        proof {
            reveal_strlit("Error, username not unique");
            reveal_strlit("Error, user id not unique");
            assert("Error, username not unique"@.len() == 26);
            assert("Error, user id not unique"@.len() == 25);
            assert("Error, username not unique"@ != "Error, user id not unique"@);
            if r is Ok {
                assert(final(self).users().subrange(0, old(self).users().len() as int) =~= old(
                    self,
                ).users());
            }
        }
        r
    }

    fn get_user_uuid(&self, username: String, password: String) -> (r: Option<String>) {
        let i = match self.find_by_username(&username) {
            Some(i) => i,
            None => {
                return None;
            },
        };
        proof {
            lemma_username_index_is(self.users(), i as int);
        }
        if verify_password(password.as_str(), self.users[i].password.as_str()) {
            Some(self.users[i].user_uuid.clone())
        } else {
            None
        }
    }

    fn delete_user(&mut self, user_uuid: String) {
        let i = match self.find_by_uuid(&user_uuid) {
            Some(i) => i,
            None => {
                return;
            },
        };
        proof {
            lemma_uuid_index_is(self.users(), i as int);
            self.users().remove_ensures(i as int);
        }
        self.users.remove(i);
        self.retired_ids.push(user_uuid);
        proof {
            assert(final(self).users() =~= old(self).users().remove(i as int));
            assert(final(self).retired() =~= old(self).retired().push(user_uuid@));
            lemma_remove_preserves_wf(old(self).users(), i as int);
        }
    }
}

impl UsersImpl {
    /// Inserts an identity whose password hash and id were already computed.
    /// Exactly one of three things happens: the username is taken and an
    /// error names it, the id is taken — by a live identity or a retired one
    /// — and an error names it, or the identity is appended.
    pub fn insert_user(&mut self, username: String, hashed_password: String, user_uuid: String) -> (r:
        Result<(), String>)
        requires
            users_wf(old(self).users()),
            user_uuid@.len() > 0,
        ensures
            users_wf(final(self).users()),
            final(self).retired() == old(self).retired(),
            has_username(old(self).users(), username@) ==> (r matches Err(m) && m@
                == "Error, username not unique"@ && final(self).users() == old(self).users()),
            !has_username(old(self).users(), username@) && (has_uuid(old(self).users(), user_uuid@)
                || id_retired(old(self).retired(), user_uuid@)) ==> (r matches Err(m) && m@
                == "Error, user id not unique"@ && final(self).users() == old(self).users()),
            !has_username(old(self).users(), username@) && !has_uuid(old(self).users(), user_uuid@)
                && !id_retired(old(self).retired(), user_uuid@) ==> r is Ok && final(self).users()
                == old(self).users().push(
                UserView { user_uuid: user_uuid@, username: username@, password: hashed_password@ },
            ),
    {
        if self.find_by_username(&username).is_some() {
            return Err("Error, username not unique".to_string());
        }
        if self.find_by_uuid(&user_uuid).is_some() {
            return Err("Error, user id not unique".to_string());
        }
        if self.id_is_retired(&user_uuid) {
            return Err("Error, user id not unique".to_string());
        }
        let user = User { user_uuid, username, password: hashed_password };
        let ghost pre = self.users();
        let ghost uv = user@;
        self.users.push(user);
        proof {
            assert(final(self).users() =~= pre.push(uv));
            lemma_push_preserves_wf(pre, uv);
        }
        Ok(())
    }

    /// How many identities the store holds.
    pub fn user_count(&self) -> (r: usize)
        ensures
            r == self.users().len(),
    {
        self.users.len()
    }

    fn find_by_username(&self, username: &String) -> (r: Option<usize>)
        ensures
            match r {
                Some(i) => i < self.users().len() && self.users()[i as int].username == username@,
                None => !has_username(self.users(), username@),
            },
    {
        let mut i: usize = 0;
        while i < self.users.len()
            invariant
                i <= self.users.len(),
                forall|j: int| 0 <= j < i ==> (#[trigger] self.users()[j]).username != username@,
            decreases self.users.len() - i,
        {
            if self.users[i].username == *username {
                return Some(i);
            }
            i += 1;
        }
        None
    }

    fn id_is_retired(&self, user_uuid: &String) -> (r: bool)
        ensures
            r == id_retired(self.retired(), user_uuid@),
    {
        let mut i: usize = 0;
        while i < self.retired_ids.len()
            invariant
                i <= self.retired_ids.len(),
                forall|j: int| 0 <= j < i ==> #[trigger] self.retired()[j] != user_uuid@,
            decreases self.retired_ids.len() - i,
        {
            if self.retired_ids[i] == *user_uuid {
                proof {
                    assert(self.retired()[i as int] == user_uuid@);
                }
                return true;
            }
            i += 1;
        }
        false
    }

    fn find_by_uuid(&self, user_uuid: &String) -> (r: Option<usize>)
        ensures
            match r {
                Some(i) => i < self.users().len() && self.users()[i as int].user_uuid
                    == user_uuid@,
                None => !has_uuid(self.users(), user_uuid@),
            },
    {
        let mut i: usize = 0;
        while i < self.users.len()
            invariant
                i <= self.users.len(),
                forall|j: int| 0 <= j < i ==> (#[trigger] self.users()[j]).user_uuid != user_uuid@,
            decreases self.users.len() - i,
        {
            if self.users[i].user_uuid == *user_uuid {
                return Some(i);
            }
            i += 1;
        }
        None
    }
}

impl Default for UsersImpl {
    /// An empty store with no retired ids.
    fn default() -> (r: Self)
        ensures
            r.users() == Seq::<UserView>::empty(),
            r.retired() == Seq::<Seq<char>>::empty(),
            users_wf(r.users()),
    {
        let r = UsersImpl { users: Vec::new(), retired_ids: Vec::new() };
        proof {
            assert(r.users() =~= Seq::<UserView>::empty());
            assert(r.retired() =~= Seq::<Seq<char>>::empty());
        }
        r
    }
}

/// In a well-formed store, an index holding a username is the only one, so
/// it is the index the store's lookup denotes.
pub proof fn lemma_username_index_is(users: Seq<UserView>, i: int)
    requires
        users_wf(users),
        0 <= i < users.len(),
    ensures
        has_username(users, users[i].username),
        username_index(users, users[i].username) == i,
        user_for_username(users, users[i].username) == users[i],
{
    assert(has_username(users, users[i].username));
    let k = username_index(users, users[i].username);
    if k != i {
        let lo = if k < i {
            k
        } else {
            i
        };
        let hi = if k < i {
            i
        } else {
            k
        };
        assert(users[lo].username != users[hi].username);
    }
}

/// The id counterpart of `lemma_username_index_is`.
pub proof fn lemma_uuid_index_is(users: Seq<UserView>, i: int)
    requires
        users_wf(users),
        0 <= i < users.len(),
    ensures
        has_uuid(users, users[i].user_uuid),
        uuid_index(users, users[i].user_uuid) == i,
{
    assert(has_uuid(users, users[i].user_uuid));
    let k = uuid_index(users, users[i].user_uuid);
    if k != i {
        let lo = if k < i {
            k
        } else {
            i
        };
        let hi = if k < i {
            i
        } else {
            k
        };
        assert(users[lo].user_uuid != users[hi].user_uuid);
    }
}

proof fn lemma_push_preserves_wf(users: Seq<UserView>, u: UserView)
    requires
        users_wf(users),
        !has_username(users, u.username),
        !has_uuid(users, u.user_uuid),
        u.user_uuid.len() > 0,
    ensures
        users_wf(users.push(u)),
{
    let post = users.push(u);
    let n = users.len() as int;
    assert forall|i: int, j: int| 0 <= i < j < post.len() implies (#[trigger] post[i]).username != (
    #[trigger] post[j]).username && post[i].user_uuid != post[j].user_uuid by {
        if j == n {
            assert(post[i] == users[i]);
            assert(post[j] == u);
            if users[i].username == u.username {
                assert(has_username(users, u.username));
            }
            if users[i].user_uuid == u.user_uuid {
                assert(has_uuid(users, u.user_uuid));
            }
        } else {
            assert(post[i] == users[i]);
            assert(post[j] == users[j]);
        }
    }
    assert forall|i: int| 0 <= i < post.len() implies (#[trigger] post[i]).user_uuid.len() > 0 by {
        if i < n {
            assert(post[i] == users[i]);
        } else {
            assert(post[i] == u);
        }
    }
}

proof fn lemma_remove_preserves_wf(users: Seq<UserView>, k: int)
    requires
        users_wf(users),
        0 <= k < users.len(),
    ensures
        users_wf(users.remove(k)),
{
    users.remove_ensures(k);
    let post = users.remove(k);
    assert forall|i: int, j: int| 0 <= i < j < post.len() implies (#[trigger] post[i]).username != (
    #[trigger] post[j]).username && post[i].user_uuid != post[j].user_uuid by {
        let io = if i < k {
            i
        } else {
            i + 1
        };
        let jo = if j < k {
            j
        } else {
            j + 1
        };
        assert(post[i] == users[io]);
        assert(post[j] == users[jo]);
        assert(users[io].username != users[jo].username);
        assert(users[io].user_uuid != users[jo].user_uuid);
    }
    assert forall|i: int| 0 <= i < post.len() implies (#[trigger] post[i]).user_uuid.len() > 0 by {
        let io = if i < k {
            i
        } else {
            i + 1
        };
        assert(post[i] == users[io]);
    }
}

/// Once a registration of `username` has succeeded, every later registration
/// attempt for the same username fails and leaves the store as it was,
/// whatever password it offers.
pub proof fn lemma_duplicate_sign_up_fails(
    s0: Seq<UserView>,
    s1: Seq<UserView>,
    s2: Seq<UserView>,
    retired1: Seq<Seq<char>>,
    retired2: Seq<Seq<char>>,
    username: Seq<char>,
    p1: Seq<char>,
    p2: Seq<char>,
    ok2: bool,
)
    requires
        create_user_transition(s0, retired1, s1, username, p1, true),
        create_user_transition(s1, retired2, s2, username, p2, ok2),
    ensures
        !ok2,
        s2 == s1,
{
    let n = s0.len() as int;
    assert(s1[n].username == username);
    assert(has_username(s1, username));
}

/// A registration that succeeded leaves an identity that authenticates with
/// the password it was registered with, and the store's lookup answers that
/// registration's fresh identity.
pub proof fn lemma_registered_user_authenticates(
    s0: Seq<UserView>,
    s1: Seq<UserView>,
    retired: Seq<Seq<char>>,
    username: Seq<char>,
    password: Seq<char>,
)
    requires
        create_user_transition(s0, retired, s1, username, password, true),
    ensures
        auth_ok(s1, username, password),
        user_for_username(s1, username) == s1.last(),
{
    let n = s0.len() as int;
    assert(s1[n].username == username);
    assert(has_username(s1, username));
    let k = username_index(s1, username);
    if k < n {
        assert(s1.subrange(0, n)[k] == s1[k]);
        assert(has_username(s0, username));
    }
}

/// A username that was never registered fails authentication with every
/// password, so the orchestrator answers it with the same failure shape as
/// a wrong password.
pub proof fn lemma_unknown_username_fails(
    users: Seq<UserView>,
    username: Seq<char>,
    password: Seq<char>,
)
    requires
        !has_username(users, username),
    ensures
        !auth_ok(users, username, password),
{
}

/// A username once present stays present along any chain of registration
/// attempts for that username.
proof fn lemma_registration_persists(
    states: Seq<Seq<UserView>>,
    retired: Seq<Seq<char>>,
    username: Seq<char>,
    ps: Seq<Seq<char>>,
    oks: Seq<bool>,
    i: int,
    j: int,
)
    requires
        states.len() == oks.len() + 1,
        ps.len() == oks.len(),
        forall|k: int|
            0 <= k < oks.len() ==> create_user_transition(
                #[trigger] states[k],
                retired,
                states[k + 1],
                username,
                ps[k],
                oks[k],
            ),
        0 <= i <= j < states.len(),
        has_username(states[i], username),
    ensures
        has_username(states[j], username),
    decreases j - i,
{
    if i < j {
        assert(create_user_transition(states[i], retired, states[i + 1], username, ps[i], oks[i]));
        if oks[i] {
            assert(false);
        }
        lemma_registration_persists(states, retired, username, ps, oks, i + 1, j);
    }
}

/// Registrations for one username, however many and in whatever serial
/// order the store's lock admits them, never succeed twice: whichever
/// attempt succeeds first registers the username, and every later attempt
/// observes the duplicate.
pub proof fn lemma_serialized_sign_up_single_success(
    states: Seq<Seq<UserView>>,
    retired: Seq<Seq<char>>,
    username: Seq<char>,
    ps: Seq<Seq<char>>,
    oks: Seq<bool>,
)
    requires
        states.len() == oks.len() + 1,
        ps.len() == oks.len(),
        forall|k: int|
            0 <= k < oks.len() ==> create_user_transition(
                #[trigger] states[k],
                retired,
                states[k + 1],
                username,
                ps[k],
                oks[k],
            ),
    ensures
        forall|i: int, j: int| 0 <= i < j < oks.len() ==> !(oks[i] && oks[j]),
{
    assert forall|i: int, j: int| 0 <= i < j < oks.len() && oks[i] implies !oks[j] by {
        assert(create_user_transition(states[i], retired, states[i + 1], username, ps[i], oks[i]));
        let n = states[i].len() as int;
        assert(states[i + 1][n].username == username);
        assert(has_username(states[i + 1], username));
        lemma_registration_persists(states, retired, username, ps, oks, i + 1, j);
        assert(create_user_transition(states[j], retired, states[j + 1], username, ps[j], oks[j]));
    }
}

/// Relies on `password_hash::SaltString::generate` (a fresh random salt from
/// the operating system's randomness), `pbkdf2::Pbkdf2`'s
/// `PasswordHasher::hash_password`, and the PHC-string form of the returned
/// `PasswordHash`. With a freshly generated salt and the default parameters
/// this call has no failing path in the version built here — the default
/// algorithm ident parses, the generated salt decodes, the output length is
/// in range and the parameter string fits — so the result is `Ok`, and the
/// hash in it verifies, after being parsed back from its string form,
/// against the password it was derived from. The salt is random, so nothing
/// else is promised of the string; the error arm stands for other hashers'
/// sake and is unreachable here.
#[verifier::external_body]
fn hash_password(password: &str) -> (r: Result<String, String>)
    ensures
        r is Ok,
        r matches Ok(h) ==> verifies(password@, h@),
{
    let salt = SaltString::generate(&mut OsRng);
    match Pbkdf2.hash_password(password.as_bytes(), &salt) {
        Ok(h) => Ok(h.to_string()),
        Err(e) => Err(format!("Failed to hash password.\n{e:?}")),
    }
}

/// Relies on `password_hash::PasswordHash::new` (parsing the stored PHC
/// string; a string that does not parse verifies nothing) and
/// `pbkdf2::Pbkdf2`'s `PasswordVerifier::verify_password` (constant-time
/// comparison of the derived keys). The outcome is a fixed function of the
/// password and the stored string, named `verifies`.
#[verifier::external_body]
fn verify_password(password: &str, password_hash: &str) -> (r: bool)
    ensures
        r == verifies(password@, password_hash@),
{
    match PasswordHash::new(password_hash) {
        Ok(parsed) => Pbkdf2.verify_password(password.as_bytes(), &parsed).is_ok(),
        Err(_) => false,
    }
}

} // verus!
