//! The session store: live login sessions, their issuance and revocation.

use vstd::prelude::*;

verus! {

/// Mathematical image of one live session: the opaque token it is looked up
/// by, and the id of the identity that signed in.
pub ghost struct SessionView {
    pub token: Seq<char>,
    pub user_uuid: Seq<char>,
}

pub open spec fn has_token(sessions: Seq<SessionView>, token: Seq<char>) -> bool {
    exists|i: int| 0 <= i < sessions.len() && (#[trigger] sessions[i]).token == token
}

pub open spec fn token_index(sessions: Seq<SessionView>, token: Seq<char>) -> int {
    choose|i: int| 0 <= i < sessions.len() && (#[trigger] sessions[i]).token == token
}

/// The session the token denotes (meaningful when `has_token` holds).
pub open spec fn session_for_token(sessions: Seq<SessionView>, token: Seq<char>) -> SessionView {
    sessions[token_index(sessions, token)]
}

/// Store invariant: at most one session per token.
pub open spec fn sessions_wf(sessions: Seq<SessionView>) -> bool {
    forall|i: int, j: int|
        0 <= i < j < sessions.len() ==> (#[trigger] sessions[i]).token != (
        #[trigger] sessions[j]).token
}

/// The store with the session under `token` taken out; the store unchanged
/// when no session holds the token.
pub open spec fn without_token(sessions: Seq<SessionView>, token: Seq<char>) -> Seq<SessionView> {
    if has_token(sessions, token) {
        sessions.remove(token_index(sessions, token))
    } else {
        sessions
    }
}

/// What issuing a session does to the store: a session binding `token` to
/// `user_uuid` is recorded, displacing any prior session under that token.
pub open spec fn create_session_transition(
    pre: Seq<SessionView>,
    post: Seq<SessionView>,
    user_uuid: Seq<char>,
    token: Seq<char>,
) -> bool {
    post == without_token(pre, token).push(SessionView { token, user_uuid })
}

/// What revoking a token does to the store: the session under it leaves if
/// present, otherwise nothing.
pub open spec fn delete_session_transition(
    pre: Seq<SessionView>,
    post: Seq<SessionView>,
    token: Seq<char>,
) -> bool {
    post == without_token(pre, token)
}

/// Capability set of a session store.
pub trait Sessions: Sized {
    /// The live sessions the store holds, in insertion order.
    spec fn sessions(&self) -> Seq<SessionView>;

    fn create_session(&mut self, user_uuid: &str) -> (r: String)
        requires
            sessions_wf(old(self).sessions()),
        ensures
            sessions_wf(final(self).sessions()),
            r@.len() > 0,
            create_session_transition(old(self).sessions(), final(self).sessions(), user_uuid@, r@),
    ;

    fn delete_session(&mut self, token: &str)
        requires
            sessions_wf(old(self).sessions()),
        ensures
            sessions_wf(final(self).sessions()),
            delete_session_transition(old(self).sessions(), final(self).sessions(), token@),
    ;
}

/// A live session.
#[derive(Debug)]
pub struct Session {
    token: String,
    user_uuid: String,
}

impl View for Session {
    type V = SessionView;

    closed spec fn view(&self) -> SessionView {
        SessionView { token: self.token@, user_uuid: self.user_uuid@ }
    }
}

/// In-memory session store.
#[derive(Debug)]
pub struct SessionsImpl {
    sessions: Vec<Session>,
}

impl Sessions for SessionsImpl {
    closed spec fn sessions(&self) -> Seq<SessionView> {
        Seq::new(self.sessions@.len(), |i: int| self.sessions@[i]@)
    }

    fn create_session(&mut self, user_uuid: &str) -> (r: String) {
        let token = crate::ids::fresh_uuid();
        self.remove_token(&token);
        let ghost mid = self.sessions();
        let session = Session { token: token.clone(), user_uuid: user_uuid.to_owned() };
        let ghost sv = session@;
        self.sessions.push(session);
        proof {
            assert(final(self).sessions() =~= mid.push(sv));
            lemma_without_token(old(self).sessions(), token@);
            lemma_push_fresh_token_preserves_wf(mid, sv);
        }
        token
    }

    fn delete_session(&mut self, token: &str) {
        self.remove_token(&token.to_owned());
    }
}

impl SessionsImpl {
    /// How many sessions the store holds.
    pub fn session_count(&self) -> (r: usize)
        ensures
            r == self.sessions().len(),
    {
        self.sessions.len()
    }

    fn remove_token(&mut self, token: &String)
        requires
            sessions_wf(old(self).sessions()),
        ensures
            sessions_wf(final(self).sessions()),
            final(self).sessions() == without_token(old(self).sessions(), token@),
    {
        let i = match self.find_by_token(token) {
            Some(i) => i,
            None => {
                return;
            },
        };
        proof {
            lemma_token_index_is(self.sessions(), i as int);
        }
        self.sessions.remove(i);
        proof {
            assert(final(self).sessions() =~= old(self).sessions().remove(i as int));
            lemma_without_token(old(self).sessions(), token@);
        }
    }

    fn find_by_token(&self, token: &String) -> (r: Option<usize>)
        ensures
            match r {
                Some(i) => i < self.sessions().len() && self.sessions()[i as int].token == token@,
                None => !has_token(self.sessions(), token@),
            },
    {
        let mut i: usize = 0;
        while i < self.sessions.len()
            invariant
                i <= self.sessions.len(),
                forall|j: int| 0 <= j < i ==> (#[trigger] self.sessions()[j]).token != token@,
            decreases self.sessions.len() - i,
        {
            if self.sessions[i].token == *token {
                return Some(i);
            }
            i += 1;
        }
        None
    }
}

impl Default for SessionsImpl {
    /// An empty store.
    fn default() -> (r: Self)
        ensures
            r.sessions() == Seq::<SessionView>::empty(),
            sessions_wf(r.sessions()),
    {
        let r = SessionsImpl { sessions: Vec::new() };
        proof {
            assert(r.sessions() =~= Seq::<SessionView>::empty());
        }
        r
    }
}

/// In a well-formed store, an index holding a token is the only one, so it
/// is the index the store's lookup denotes.
pub proof fn lemma_token_index_is(sessions: Seq<SessionView>, i: int)
    requires
        sessions_wf(sessions),
        0 <= i < sessions.len(),
    ensures
        has_token(sessions, sessions[i].token),
        token_index(sessions, sessions[i].token) == i,
        session_for_token(sessions, sessions[i].token) == sessions[i],
{
    assert(has_token(sessions, sessions[i].token));
    let k = token_index(sessions, sessions[i].token);
    if k != i {
        let lo = if k < i {
            k
        } else {
            i
        };
        let hi = if k < i {
            i
        } else {
            k
        };
        assert(sessions[lo].token != sessions[hi].token);
    }
}

/// Taking a token out preserves the invariant and leaves no session under
/// that token.
pub proof fn lemma_without_token(sessions: Seq<SessionView>, token: Seq<char>)
    requires
        sessions_wf(sessions),
    ensures
        sessions_wf(without_token(sessions, token)),
        !has_token(without_token(sessions, token), token),
{
    if has_token(sessions, token) {
        let k = token_index(sessions, token);
        sessions.remove_ensures(k);
        let post = sessions.remove(k);
        assert forall|i: int, j: int| 0 <= i < j < post.len() implies (
        #[trigger] post[i]).token != (#[trigger] post[j]).token by {
            let io = if i < k {
                i
            } else {
                i + 1
            };
            let jo = if j < k {
                j
            } else {
                j + 1
            };
            assert(post[i] == sessions[io]);
            assert(post[j] == sessions[jo]);
            assert(sessions[io].token != sessions[jo].token);
        }
        assert forall|i: int| 0 <= i < post.len() implies (#[trigger] post[i]).token != token by {
            let io = if i < k {
                i
            } else {
                i + 1
            };
            assert(post[i] == sessions[io]);
            if sessions[io].token == token {
                let lo = if io < k {
                    io
                } else {
                    k
                };
                let hi = if io < k {
                    k
                } else {
                    io
                };
                assert(sessions[lo].token != sessions[hi].token);
            }
        }
    }
}

proof fn lemma_push_fresh_token_preserves_wf(sessions: Seq<SessionView>, s: SessionView)
    requires
        sessions_wf(sessions),
        !has_token(sessions, s.token),
    ensures
        sessions_wf(sessions.push(s)),
{
    let post = sessions.push(s);
    let n = sessions.len() as int;
    assert forall|i: int, j: int| 0 <= i < j < post.len() implies (#[trigger] post[i]).token != (
    #[trigger] post[j]).token by {
        if j == n {
            assert(post[i] == sessions[i]);
            assert(post[j] == s);
            if sessions[i].token == s.token {
                assert(has_token(sessions, s.token));
            }
        } else {
            assert(post[i] == sessions[i]);
            assert(post[j] == sessions[j]);
        }
    }
}

/// Revocation is idempotent: after the first revocation of a token no
/// session holds it, and a second revocation of the same token leaves the
/// store exactly as the first left it.
pub proof fn lemma_sign_out_idempotent(
    s0: Seq<SessionView>,
    s1: Seq<SessionView>,
    s2: Seq<SessionView>,
    token: Seq<char>,
)
    requires
        sessions_wf(s0),
        delete_session_transition(s0, s1, token),
        delete_session_transition(s1, s2, token),
    ensures
        !has_token(s1, token),
        s2 == s1,
{
    lemma_without_token(s0, token);
}

} // verus!
