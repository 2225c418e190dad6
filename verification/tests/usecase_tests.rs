use request_gate::auth_usecase::AuthUseCase;
use request_gate::dtos::{CreateUserRequest, RegisterRequest, UpdateUserRequest, User};
use request_gate::errors::AppError;
use request_gate::identity::{resolve_identity, AuthenticatedIdentity};
use request_gate::user_usecase::UserUseCase;

fn sample_user(id: u128, name: &str) -> User {
    User {
        id,
        username: name.to_string(),
        email: format!("{}@example.com", name),
        password_hash: "hash".to_string(),
        role: "user".to_string(),
        created_at: 1000,
        updated_at: 2000,
    }
}

fn register_request(username: &str, email: &str, password: &str) -> RegisterRequest {
    RegisterRequest {
        username: username.to_string(),
        email: email.to_string(),
        password: password.to_string(),
        role: "user".to_string(),
    }
}

#[test]
fn registration_validates_then_rejects_taken_emails() {
    let auth = AuthUseCase::new(604800);
    let good = register_request("validuser", "valid@example.com", "password123");
    assert!(auth.screen_registration(&good, false).is_ok());

    match auth.screen_registration(&good, true) {
        Err(AppError::BadRequest(m)) => assert_eq!(m, "Email already registered"),
        other => panic!("expected a bad request, got {:?}", other),
    }

    let bad_name = register_request("ab", "valid@example.com", "password123");
    assert!(matches!(
        auth.screen_registration(&bad_name, false),
        Err(AppError::ValidationError(..))
    ));

    let bad_email = register_request("validuser", "invalid-email", "password123");
    match auth.screen_registration(&bad_email, false) {
        Err(AppError::ValidationError(m)) => assert_eq!(m, "Validation Error"),
        other => panic!("expected a validation error, got {:?}", other),
    }

    let bad_password = register_request("validuser", "valid@example.com", "12345");
    match auth.screen_registration(&bad_password, false) {
        Err(AppError::ValidationError(m)) => {
            assert_eq!(m, "Validation Error (Password too weak)")
        }
        other => panic!("expected a validation error, got {:?}", other),
    }
}

#[test]
fn login_fails_indistinctly_on_unknown_email_or_wrong_password() {
    let auth = AuthUseCase::new(604800);
    assert!(auth.screen_login(true, true).is_ok());
    for (found, matches) in [(false, false), (false, true), (true, false)] {
        match auth.screen_login(found, matches) {
            Err(AppError::Unauthorized(m)) => assert_eq!(m, "Invalid email or password"),
            other => panic!("expected unauthorized, got {:?}", other),
        }
    }
}

#[test]
fn refresh_token_expiry_is_what_the_use_case_was_built_with() {
    assert_eq!(AuthUseCase::new(604800).get_refresh_token_expiry(), 604800);
    assert_eq!(AuthUseCase::new(3600).get_refresh_token_expiry(), 3600);
}

#[test]
fn user_responses_carry_every_field_but_the_password_hash() {
    let u = sample_user(7, "someone");
    let r = AuthUseCase::user_to_response(u);
    assert_eq!(r.id, 7);
    assert_eq!(r.username, "someone");
    assert_eq!(r.email, "someone@example.com");
    assert_eq!(r.role, "user");
    assert_eq!(r.created_at, 1000);
    assert_eq!(r.updated_at, 2000);
}

#[test]
fn create_user_runs_the_same_validations() {
    let uc = UserUseCase::new();
    let good = CreateUserRequest {
        username: "validuser".to_string(),
        email: "valid@example.com".to_string(),
        password: "password123".to_string(),
        role: "user".to_string(),
    };
    assert!(uc.screen_create_user(&good).is_ok());
    let bad = CreateUserRequest { username: "ab".to_string(), ..good };
    assert!(matches!(uc.screen_create_user(&bad), Err(AppError::ValidationError(..))));
}

#[test]
fn update_validates_only_the_fields_that_are_present() {
    let uc = UserUseCase::new();
    let empty = UpdateUserRequest { username: None, email: None, password: None };
    assert!(uc.screen_update_user(&empty).is_ok());

    let good = UpdateUserRequest {
        username: Some("updated_username".to_string()),
        email: None,
        password: None,
    };
    assert!(uc.screen_update_user(&good).is_ok());

    let bad_email = UpdateUserRequest {
        username: None,
        email: Some("invalid-email".to_string()),
        password: None,
    };
    assert!(matches!(uc.screen_update_user(&bad_email), Err(AppError::ValidationError(..))));

    let bad_password = UpdateUserRequest {
        username: None,
        email: None,
        password: Some("123".to_string()),
    };
    assert!(matches!(
        uc.screen_update_user(&bad_password),
        Err(AppError::ValidationError(..))
    ));
}

#[test]
fn get_user_reports_the_missing_identifier() {
    let uc = UserUseCase::new();
    let found = uc.get_user_outcome(Some(sample_user(9, "present")), "9");
    assert_eq!(found.unwrap().username, "present");

    match uc.get_user_outcome(None, "123e4567-e89b-12d3-a456-426614174000") {
        Err(AppError::NotFound(m)) => {
            assert_eq!(m, "User with id 123e4567-e89b-12d3-a456-426614174000 not found")
        }
        other => panic!("expected not found, got {:?}", other),
    }
}

#[test]
fn listing_users_maps_each_to_its_response_in_order() {
    let uc = UserUseCase::new();
    let users = vec![sample_user(1, "first"), sample_user(2, "second"), sample_user(3, "third")];
    let responses = uc.users_to_responses(users);
    assert_eq!(responses.len(), 3);
    assert_eq!(responses[0].username, "first");
    assert_eq!(responses[1].username, "second");
    assert_eq!(responses[2].username, "third");
}

#[test]
fn identity_resolution_fails_closed() {
    let ok = resolve_identity(Some(11), Some(22)).unwrap();
    assert_eq!(ok, AuthenticatedIdentity { user_id: 11, tenant_id: 22 });
    match resolve_identity(None, Some(22)) {
        Err(AppError::Unauthorized(m)) => assert_eq!(m, "Unauthorized"),
        other => panic!("expected unauthorized, got {:?}", other),
    }
    match resolve_identity(Some(11), None) {
        Err(AppError::Unauthorized(m)) => {
            assert_eq!(m, "Tenant ID not found in request context")
        }
        other => panic!("expected unauthorized, got {:?}", other),
    }
}
