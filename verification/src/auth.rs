//! The orchestrator: sign-up, sign-in and sign-out, sequencing the
//! credential store and the session store and translating their outcomes
//! into status codes.

use vstd::prelude::*;

use crate::sessions::{
    create_session_transition, delete_session_transition, sessions_wf, SessionView, Sessions,
};
use crate::users::{
    auth_ok, create_user_transition, has_username, user_for_username, username_index, users_wf,
    UserView, Users,
};
use crate::StatusCode;

verus! {

#[derive(Clone, Debug)]
pub struct SignUpRequest {
    pub username: String,
    pub password: String,
}

#[derive(Clone, Debug)]
pub struct SignUpResponse {
    pub status_code: StatusCode,
}

#[derive(Clone, Debug)]
pub struct SignInRequest {
    pub username: String,
    pub password: String,
}

#[derive(Clone, Debug)]
pub struct SignInResponse {
    pub status_code: StatusCode,
    pub session_token: String,
    pub user_uuid: String,
}

#[derive(Clone, Debug)]
pub struct SignOutRequest {
    pub session_token: String,
}

#[derive(Clone, Debug)]
pub struct SignOutResponse {
    pub status_code: StatusCode,
}

/// The one shape every failed sign-in has: a failure status and the empty
/// string standing for "no value" in both payload fields, whether the
/// username was unknown or the password wrong.
pub open spec fn sign_in_failed(r: SignInResponse) -> bool {
    &&& r.status_code == StatusCode::Failure
    &&& r.session_token@ == Seq::<char>::empty()
    &&& r.user_uuid@ == Seq::<char>::empty()
}

/// The orchestrator, holding the two stores it sequences.
pub struct AuthService<U: Users, S: Sessions> {
    users_service: U,
    sessions_service: S,
}

impl<U: Users, S: Sessions> AuthService<U, S> {
    /// The identities of the credential store behind this service.
    pub closed spec fn users(&self) -> Seq<UserView> {
        self.users_service.users()
    }

    /// The live sessions of the session store behind this service.
    pub closed spec fn sessions(&self) -> Seq<SessionView> {
        self.sessions_service.sessions()
    }

    /// The retired identity ids of the credential store behind this
    /// service; they are never assigned again.
    pub closed spec fn retired(&self) -> Seq<Seq<char>> {
        self.users_service.retired()
    }

    pub open spec fn wf(&self) -> bool {
        users_wf(self.users()) && sessions_wf(self.sessions())
    }

    pub fn new(users_service: U, sessions_service: S) -> (r: Self)
        ensures
            r.users() == users_service.users(),
            r.retired() == users_service.retired(),
            r.sessions() == sessions_service.sessions(),
    {
        Self { users_service, sessions_service }
    }

    /// Registration: delegates to the credential store and reports its
    /// outcome as a status code.
    pub fn sign_up(&mut self, request: SignUpRequest) -> (r: SignUpResponse)
        requires
            old(self).wf(),
        ensures
            final(self).wf(),
            final(self).sessions() == old(self).sessions(),
            final(self).retired() == old(self).retired(),
            create_user_transition(
                old(self).users(),
                old(self).retired(),
                final(self).users(),
                request.username@,
                request.password@,
                r.status_code == StatusCode::Success,
            ),
            has_username(old(self).users(), request.username@) ==> r.status_code
                == StatusCode::Failure,
            old(self).users().len() == 0 && old(self).retired().len() == 0 ==> r.status_code
                == StatusCode::Success,
    {
        let result = self.users_service.create_user(request.username, request.password);
        match result {
            Ok(_) => SignUpResponse { status_code: StatusCode::Success },
            Err(_) => SignUpResponse { status_code: StatusCode::Failure },
        }
    }

    /// Sign-in: authenticates against the credential store; on success a
    /// session is issued for the identity's id, on failure the response
    /// carries the empty sentinel strings.
    pub fn sign_in(&mut self, request: SignInRequest) -> (r: SignInResponse)
        requires
            old(self).wf(),
        ensures
            final(self).wf(),
            final(self).users() == old(self).users(),
            final(self).retired() == old(self).retired(),
            !auth_ok(old(self).users(), request.username@, request.password@) ==> sign_in_failed(r)
                && final(self).sessions() == old(self).sessions(),
            auth_ok(old(self).users(), request.username@, request.password@) ==> ({
                &&& r.status_code == StatusCode::Success
                &&& r.user_uuid@ == user_for_username(
                    old(self).users(),
                    request.username@,
                ).user_uuid
                &&& r.user_uuid@.len() > 0
                &&& r.session_token@.len() > 0
                &&& create_session_transition(
                    old(self).sessions(),
                    final(self).sessions(),
                    r.user_uuid@,
                    r.session_token@,
                )
            }),
    {
        let user_uuid = match self.users_service.get_user_uuid(
            request.username,
            request.password,
        ) {
            None => {
                return SignInResponse {
                    status_code: StatusCode::Failure,
                    session_token: String::new(),
                    user_uuid: String::new(),
                };
            },
            Some(uuid) => uuid,
        };
        proof {
            let users = old(self).users();
            let k = username_index(users, request.username@);
            assert(users[k].user_uuid.len() > 0);
        }
        let session_token = self.sessions_service.create_session(user_uuid.as_str());
        SignInResponse { status_code: StatusCode::Success, session_token, user_uuid }
    }

    /// Sign-out: revokes the token and always reports success, a revocation
    /// of an absent token being a no-op by design.
    pub fn sign_out(&mut self, request: SignOutRequest) -> (r: SignOutResponse)
        requires
            old(self).wf(),
        ensures
            final(self).wf(),
            final(self).users() == old(self).users(),
            final(self).retired() == old(self).retired(),
            r.status_code == StatusCode::Success,
            delete_session_transition(
                old(self).sessions(),
                final(self).sessions(),
                request.session_token@,
            ),
    {
        self.sessions_service.delete_session(request.session_token.as_str());
        SignOutResponse { status_code: StatusCode::Success }
    }
}

} // verus!
