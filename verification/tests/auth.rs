use auth_service::auth::{AuthService, SignInRequest, SignOutRequest, SignUpRequest};
use auth_service::sessions::SessionsImpl;
use auth_service::users::{Users, UsersImpl};
use auth_service::StatusCode;

#[test]
fn sign_in_should_fail_if_user_not_found() {
    let users_service = UsersImpl::default();
    let sessions_service = SessionsImpl::default();

    let mut auth_service = AuthService::new(users_service, sessions_service);

    let request = SignInRequest {
        username: "123456".to_owned(),
        password: "654321".to_owned(),
    };

    let result = auth_service.sign_in(request);

    assert_eq!(result.status_code, StatusCode::Failure);
    assert_eq!(result.user_uuid.is_empty(), true);
    assert_eq!(result.session_token.is_empty(), true);
}

#[test]
fn sign_in_should_fail_if_incorrect_password() {
    let mut users_service = UsersImpl::default();

    let _ = users_service.create_user("123456".to_owned(), "654321".to_owned());

    let sessions_service = SessionsImpl::default();

    let mut auth_service = AuthService::new(users_service, sessions_service);

    let request = SignInRequest {
        username: "123456".to_owned(),
        password: "wrong password".to_owned(),
    };

    let result = auth_service.sign_in(request);

    assert_eq!(result.status_code, StatusCode::Failure);
    assert_eq!(result.user_uuid.is_empty(), true);
    assert_eq!(result.session_token.is_empty(), true);
}

#[test]
fn sign_in_should_succeed() {
    let mut users_service = UsersImpl::default();

    let _ = users_service.create_user("123456".to_owned(), "654321".to_owned());

    let sessions_service = SessionsImpl::default();

    let mut auth_service = AuthService::new(users_service, sessions_service);

    let request = SignInRequest {
        username: "123456".to_owned(),
        password: "654321".to_owned(),
    };

    let result = auth_service.sign_in(request);

    assert_eq!(result.status_code, StatusCode::Success);
    assert_eq!(result.user_uuid.is_empty(), false);
    assert_eq!(result.session_token.is_empty(), false);
}

#[test]
fn sign_up_should_fail_if_username_exists() {
    let mut users_service = UsersImpl::default();

    let _ = users_service.create_user("123456".to_owned(), "654321".to_owned());

    let sessions_service = SessionsImpl::default();

    let mut auth_service = AuthService::new(users_service, sessions_service);

    let request = SignUpRequest {
        username: "123456".to_owned(),
        password: "654321".to_owned(),
    };

    let result = auth_service.sign_up(request);

    assert_eq!(result.status_code, StatusCode::Failure);
}

#[test]
fn sign_up_should_succeed() {
    let users_service = UsersImpl::default();
    let sessions_service = SessionsImpl::default();

    let mut auth_service = AuthService::new(users_service, sessions_service);

    let request = SignUpRequest {
        username: "123456".to_owned(),
        password: "654321".to_owned(),
    };

    let result = auth_service.sign_up(request);

    assert_eq!(result.status_code, StatusCode::Success);
}

#[test]
fn sign_out_should_succeed() {
    let users_service = UsersImpl::default();
    let sessions_service = SessionsImpl::default();

    let mut auth_service = AuthService::new(users_service, sessions_service);

    let request = SignOutRequest {
        session_token: "".to_owned(),
    };

    let result = auth_service.sign_out(request);

    assert_eq!(result.status_code, StatusCode::Success);
}

#[test]
fn scenario_full_session_lifecycle() {
    let mut auth_service = AuthService::new(UsersImpl::default(), SessionsImpl::default());

    let signed_up = auth_service.sign_up(SignUpRequest {
        username: "alice".to_owned(),
        password: "secret".to_owned(),
    });
    assert_eq!(signed_up.status_code, StatusCode::Success);

    let signed_in = auth_service.sign_in(SignInRequest {
        username: "alice".to_owned(),
        password: "secret".to_owned(),
    });
    assert_eq!(signed_in.status_code, StatusCode::Success);
    assert!(!signed_in.session_token.is_empty());
    assert!(!signed_in.user_uuid.is_empty());

    let rejected = auth_service.sign_in(SignInRequest {
        username: "alice".to_owned(),
        password: "wrong".to_owned(),
    });
    assert_eq!(rejected.status_code, StatusCode::Failure);
    assert!(rejected.session_token.is_empty());
    assert!(rejected.user_uuid.is_empty());

    let signed_out = auth_service.sign_out(SignOutRequest {
        session_token: signed_in.session_token,
    });
    assert_eq!(signed_out.status_code, StatusCode::Success);
}

#[test]
fn repeated_sign_up_of_one_username_succeeds_once() {
    let mut auth_service = AuthService::new(UsersImpl::default(), SessionsImpl::default());

    let mut successes = 0;
    let mut failures = 0;
    let passwords = ["first", "second", "third"];
    for password in passwords {
        let result = auth_service.sign_up(SignUpRequest {
            username: "alice".to_owned(),
            password: password.to_owned(),
        });
        if result.status_code == StatusCode::Success {
            successes += 1;
        } else {
            failures += 1;
        }
    }

    assert_eq!(successes, 1);
    assert_eq!(failures, 2);
}

#[test]
fn sign_out_of_unknown_token_succeeds() {
    let mut auth_service = AuthService::new(UsersImpl::default(), SessionsImpl::default());

    let result = auth_service.sign_out(SignOutRequest {
        session_token: "never issued".to_owned(),
    });

    assert_eq!(result.status_code, StatusCode::Success);
}

#[test]
fn sign_out_twice_succeeds_both_times() {
    let mut auth_service = AuthService::new(UsersImpl::default(), SessionsImpl::default());

    let signed_up = auth_service.sign_up(SignUpRequest {
        username: "alice".to_owned(),
        password: "secret".to_owned(),
    });
    assert_eq!(signed_up.status_code, StatusCode::Success);

    let signed_in = auth_service.sign_in(SignInRequest {
        username: "alice".to_owned(),
        password: "secret".to_owned(),
    });
    assert_eq!(signed_in.status_code, StatusCode::Success);

    let first = auth_service.sign_out(SignOutRequest {
        session_token: signed_in.session_token.clone(),
    });
    assert_eq!(first.status_code, StatusCode::Success);

    let second = auth_service.sign_out(SignOutRequest {
        session_token: signed_in.session_token,
    });
    assert_eq!(second.status_code, StatusCode::Success);
}

#[test]
fn failure_shapes_are_indistinguishable() {
    let mut users_service = UsersImpl::default();
    let _ = users_service.create_user("alice".to_owned(), "secret".to_owned());

    let mut auth_service = AuthService::new(users_service, SessionsImpl::default());

    let unknown_user = auth_service.sign_in(SignInRequest {
        username: "mallory".to_owned(),
        password: "secret".to_owned(),
    });
    let wrong_password = auth_service.sign_in(SignInRequest {
        username: "alice".to_owned(),
        password: "guess".to_owned(),
    });

    assert_eq!(unknown_user.status_code, wrong_password.status_code);
    assert_eq!(unknown_user.session_token, wrong_password.session_token);
    assert_eq!(unknown_user.user_uuid, wrong_password.user_uuid);
    assert_eq!(unknown_user.status_code, StatusCode::Failure);
    assert_eq!(unknown_user.session_token, "".to_owned());
    assert_eq!(unknown_user.user_uuid, "".to_owned());
}
