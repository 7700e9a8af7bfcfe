use std::collections::HashMap;
use std::sync::Mutex;

use auth_rocket::limitation::user::{check_access_token, decide, has_role, Denial};
use auth_rocket::{user_from_request, AdminUser, AuthEntity, AuthError, AuthorizedUser, Entity, PrivateKey, PrivateUser, Role, User, UserStatus};

fn user(role: Role) -> User {
    User { id: 2, name: "alice".to_string(), email: "alice@example.com".to_string(), status: UserStatus::Active, role, attributes: HashMap::new() }
}

/// A store that knows one token, and notes what it is asked.
struct OneToken {
    token: String,
    answer: Result<User, AuthError>,
    asked: Mutex<Vec<String>>,
}

impl OneToken {
    fn wrapped(token: &str, answer: Result<User, AuthError>) -> AuthEntity<OneToken> {
        AuthEntity::new(Box::new(OneToken { token: token.to_string(), answer, asked: Mutex::new(Vec::new()) }))
    }
}

impl Entity for OneToken {
    fn add_user(&self, _: &str, _: &str, _: &str, _: HashMap<String, String>) -> Result<User, AuthError> {
        Err(AuthError::AccessDenied)
    }
    fn get_user_by_id(&self, _: i32) -> Result<User, AuthError> {
        Err(AuthError::AccessDenied)
    }
    fn get_user_by_name(&self, _: &str) -> Result<PrivateUser, AuthError> {
        Err(AuthError::AccessDenied)
    }
    fn get_user_by_name_and_pwd(&self, _: &str, _: &str) -> Result<User, AuthError> {
        Err(AuthError::AccessDenied)
    }
    fn delete_user(&self, _: i32) -> Option<AuthError> {
        Some(AuthError::AccessDenied)
    }
    fn list_users(&self, _: isize, _: isize) -> Result<Vec<User>, AuthError> {
        Err(AuthError::AccessDenied)
    }
    fn enable_user(&self, _: &str) -> Result<User, AuthError> {
        Err(AuthError::AccessDenied)
    }
    fn disable_user(&self, _: &str) -> Result<User, AuthError> {
        Err(AuthError::AccessDenied)
    }
    fn get_token(&self, _: &str) -> Result<String, AuthError> {
        Err(AuthError::AccessDenied)
    }
    fn add_token(&self, _: &str, _: &str) -> Option<AuthError> {
        Some(AuthError::AccessDenied)
    }
    fn get_user_by_token(&self, token: &str) -> Result<User, AuthError> {
        self.asked.lock().unwrap().push(token.to_string());
        if token == self.token {
            self.answer.clone()
        } else {
            Err(AuthError::NotFound)
        }
    }
    fn delete_token(&self, _: &str) -> Option<AuthError> {
        Some(AuthError::AccessDenied)
    }
    fn add_user_role(&self, _: &str, _: Role) -> Result<User, AuthError> {
        Err(AuthError::AccessDenied)
    }
}

const KEY: &str = "The quick brown fox jumps 2fd4e1";
const SECRET: &str = "over the lazy dog";

fn secret() -> PrivateKey {
    PrivateKey::new(SECRET.to_string())
}

#[test]
fn a_request_needs_exactly_one_valid_token() {
    let key = secret();
    assert_eq!(check_access_token(&vec![KEY.to_string()], Some(&key)), Ok(&KEY.to_string()));
    assert_eq!(check_access_token(&Vec::new(), Some(&key)), Err(Denial::Unauthorized));
    assert_eq!(check_access_token(&vec![KEY.to_string(), KEY.to_string()], Some(&key)), Err(Denial::Unauthorized));
    assert_eq!(check_access_token(&vec!["The quick brown fox jumps 2fd4e2".to_string()], Some(&key)), Err(Denial::Unauthorized));
    assert_eq!(check_access_token(&vec![KEY.to_string()], None), Err(Denial::InternalServerError));
    // The number of tokens is looked at before the secret.
    assert_eq!(check_access_token(&Vec::new(), None), Err(Denial::Unauthorized));
    let other = PrivateKey::new("over the lazy cat".to_string());
    assert_eq!(check_access_token(&vec![KEY.to_string()], Some(&other)), Err(Denial::Unauthorized));
}

#[test]
fn a_user_passes_with_a_permitted_role() {
    let batman = Role::Custom("Batman".to_string());
    assert_eq!(decide(Ok(user(Role::Users)), &Vec::new()), Ok(user(Role::Users)));
    assert_eq!(decide(Ok(user(batman.clone())), &Vec::new()), Ok(user(batman.clone())));
    assert_eq!(decide(Ok(user(Role::Admins)), &vec![Role::Admins]), Ok(user(Role::Admins)));
    assert_eq!(decide(Ok(user(Role::Users)), &vec![Role::Admins]), Err(Denial::Unauthorized));
    assert_eq!(decide(Ok(user(batman.clone())), &vec![Role::Admins, batman.clone()]), Ok(user(batman.clone())));
    assert_eq!(decide(Ok(user(Role::Custom("admins".to_string()))), &vec![Role::Admins]), Err(Denial::Unauthorized));
    for error in [AuthError::NotFound, AuthError::NotActive, AuthError::IOError] {
        assert_eq!(decide(Err(error), &Vec::new()), Err(Denial::Unauthorized));
    }
    assert!(has_role(&vec![Role::Users, batman.clone()], &batman));
    assert!(!has_role(&vec![Role::Users, batman], &Role::Custom("Robin".to_string())));
    assert!(!has_role(&Vec::new(), &Role::Users));
}

#[test]
fn the_user_of_a_request_is_the_user_of_its_token() {
    let key = secret();
    let entity = OneToken::wrapped(KEY, Ok(user(Role::Users)));
    let tokens = vec![KEY.to_string()];
    assert_eq!(user_from_request(&tokens, Some(&key), Some(&entity), Vec::new()), Ok(user(Role::Users)));
    assert_eq!(user_from_request(&tokens, Some(&key), Some(&entity), vec![Role::Users]), Ok(user(Role::Users)));
    assert_eq!(user_from_request(&tokens, Some(&key), Some(&entity), vec![Role::Admins]), Err(Denial::Unauthorized));
    assert_eq!(user_from_request(&tokens, Some(&key), None::<&AuthEntity<OneToken>>, Vec::new()), Err(Denial::Unauthorized));
    assert_eq!(user_from_request(&tokens, None, Some(&entity), Vec::new()), Err(Denial::InternalServerError));
    assert_eq!(user_from_request(&Vec::new(), Some(&key), Some(&entity), Vec::new()), Err(Denial::Unauthorized));
}

#[test]
fn the_store_is_asked_for_valid_tokens_only() {
    let key = secret();
    let store = OneToken { token: KEY.to_string(), answer: Ok(user(Role::Users)), asked: Mutex::new(Vec::new()) };
    let entity = AuthEntity::new(Box::new(store));
    let forged = vec!["The quick brown fox jumps 000000".to_string()];
    assert_eq!(user_from_request(&forged, Some(&key), Some(&entity), Vec::new()), Err(Denial::Unauthorized));
    let unknown = OneToken::wrapped("another", Ok(user(Role::Users)));
    assert_eq!(user_from_request(&vec![KEY.to_string()], Some(&key), Some(&unknown), Vec::new()), Err(Denial::Unauthorized));
    let inactive = OneToken::wrapped(KEY, Err(AuthError::NotActive));
    assert_eq!(user_from_request(&vec![KEY.to_string()], Some(&key), Some(&inactive), Vec::new()), Err(Denial::Unauthorized));
}

#[test]
fn guards_hold_the_user_found() {
    let key = secret();
    let tokens = vec![KEY.to_string()];
    let plain = OneToken::wrapped(KEY, Ok(user(Role::Users)));
    let admin = OneToken::wrapped(KEY, Ok(user(Role::Admins)));
    let authorized = AuthorizedUser::from_request(&tokens, Some(&key), Some(&plain)).ok().unwrap();
    assert_eq!(authorized.get_user(), &user(Role::Users));
    assert!(AdminUser::from_request(&tokens, Some(&key), Some(&plain)).is_err());
    let found = AdminUser::from_request(&tokens, Some(&key), Some(&admin)).ok().unwrap();
    assert_eq!(found.get_user(), &user(Role::Admins));
    assert!(AuthorizedUser::from_request(&tokens, Some(&key), Some(&admin)).is_ok());
    assert!(matches!(AuthorizedUser::from_request(&tokens, None, Some(&plain)), Err(Denial::InternalServerError)));
    assert!(matches!(AdminUser::from_request(&Vec::new(), Some(&key), Some(&admin)), Err(Denial::Unauthorized)));
}
