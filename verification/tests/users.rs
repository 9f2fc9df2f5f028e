use auth_service::users::{Users, UsersImpl};

#[test]
fn should_create_user() {
    let mut user_service = UsersImpl::default();
    user_service
        .create_user("username".to_owned(), "password".to_owned())
        .expect("should create user");

    assert_eq!(user_service.user_count(), 1);
}

#[test]
fn should_fail_creating_user_with_existing_username() {
    let mut user_service = UsersImpl::default();
    user_service
        .create_user("username".to_owned(), "password".to_owned())
        .expect("should create user");

    let result = user_service.create_user("username".to_owned(), "password".to_owned());

    assert!(result.is_err());
}

#[test]
fn should_retrieve_user_uuid() {
    let mut user_service = UsersImpl::default();
    user_service
        .create_user("username".to_owned(), "password".to_owned())
        .expect("should create user");

    assert!(user_service
        .get_user_uuid("username".to_owned(), "password".to_owned())
        .is_some());
}

#[test]
fn should_fail_to_retrieve_user_uuid_with_incorrect_password() {
    let mut user_service = UsersImpl::default();
    user_service
        .create_user("username".to_owned(), "password".to_owned())
        .expect("should create user");

    assert!(user_service
        .get_user_uuid("username".to_owned(), "incorrect password".to_owned())
        .is_none());
}

#[test]
fn should_delete_user() {
    let mut user_service = UsersImpl::default();
    user_service
        .create_user("username".to_owned(), "password".to_owned())
        .expect("should create user");

    let user_uuid = user_service
        .get_user_uuid("username".to_owned(), "password".to_owned())
        .unwrap();

    user_service.delete_user(user_uuid);

    assert_eq!(user_service.user_count(), 0);
}

#[test]
fn duplicate_username_error_names_it() {
    let mut user_service = UsersImpl::default();
    user_service
        .create_user("alice".to_owned(), "secret".to_owned())
        .expect("should create user");

    let result = user_service.create_user("alice".to_owned(), "another".to_owned());

    assert_eq!(result, Err("Error, username not unique".to_owned()));
}

#[test]
fn insert_user_rejects_taken_id() {
    let mut user_service = UsersImpl::default();
    user_service
        .insert_user("alice".to_owned(), "hash-a".to_owned(), "id-1".to_owned())
        .expect("should insert user");

    let result = user_service.insert_user("bob".to_owned(), "hash-b".to_owned(), "id-1".to_owned());

    assert_eq!(result, Err("Error, user id not unique".to_owned()));
    assert_eq!(user_service.user_count(), 1);
}

#[test]
fn stored_hash_is_not_the_password() {
    let mut user_service = UsersImpl::default();
    user_service
        .insert_user("alice".to_owned(), "secret".to_owned(), "id-1".to_owned())
        .expect("should insert user");

    // The identity was stored with the raw text in place of a salted hash,
    // so the verifier must not accept the password against it.
    assert!(user_service
        .get_user_uuid("alice".to_owned(), "secret".to_owned())
        .is_none());
}

#[test]
fn retired_id_is_never_assigned_again() {
    let mut user_service = UsersImpl::default();
    user_service
        .insert_user("alice".to_owned(), "hash-a".to_owned(), "id-1".to_owned())
        .expect("should insert user");

    user_service.delete_user("id-1".to_owned());
    assert_eq!(user_service.user_count(), 0);

    let result = user_service.insert_user("bob".to_owned(), "hash-b".to_owned(), "id-1".to_owned());

    assert_eq!(result, Err("Error, user id not unique".to_owned()));
    assert_eq!(user_service.user_count(), 0);
}

#[test]
fn delete_of_absent_id_is_a_no_op() {
    let mut user_service = UsersImpl::default();
    user_service
        .create_user("alice".to_owned(), "secret".to_owned())
        .expect("should create user");

    user_service.delete_user("no such id".to_owned());

    assert_eq!(user_service.user_count(), 1);
}
