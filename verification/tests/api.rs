use std::collections::HashMap;
use std::sync::{Arc, Mutex};

use auth_rocket::api::condition::LimitOffset;
use auth_rocket::api::form::{SignIn, SignUp};
use auth_rocket::api::{get_user, get_user_list, get_user_list_with_limit, sign_in, sign_up, Response, Status};
use auth_rocket::net::key::validate_api_key;
use auth_rocket::net::uri::RequestedUriString;
use auth_rocket::{AdminUser, AuthEntity, AuthError, AuthorizedUser, Entity, PrivateKey, PrivateUser, Role, User, UserStatus};

/// A store in memory: users by name with their passwords in the clear, and tokens.
#[derive(Default)]
struct Users {
    users: Mutex<Vec<(User, String)>>,
    tokens: Mutex<Vec<(String, String)>>,
    ranges: Arc<Mutex<Vec<(isize, isize)>>>,
    broken: bool,
}

impl Users {
    fn change(&self, name: &str, change: impl Fn(&mut User)) -> Result<User, AuthError> {
        let mut users = self.users.lock().unwrap();
        match users.iter_mut().find(|(user, _)| user.name == name) {
            Some((user, _)) => {
                change(user);
                Ok(user.clone())
            }
            None => Err(AuthError::NotFound),
        }
    }
}

impl Entity for Users {
    fn add_user(&self, name: &str, email: &str, password: &str, attributes: HashMap<String, String>) -> Result<User, AuthError> {
        let mut users = self.users.lock().unwrap();
        if users.iter().any(|(user, _)| user.name == name) {
            return Err(AuthError::DuplicateUsername);
        }
        let user = User { id: users.len() as i32 + 1, name: name.to_string(), email: email.to_string(), status: UserStatus::Created, role: Role::Users, attributes };
        users.push((user.clone(), password.to_string()));
        Ok(user)
    }
    fn get_user_by_id(&self, user_id: i32) -> Result<User, AuthError> {
        self.users.lock().unwrap().iter().find(|(user, _)| user.id == user_id).map(|(user, _)| user.clone()).ok_or(AuthError::NotFound)
    }
    fn get_user_by_name(&self, _: &str) -> Result<PrivateUser, AuthError> {
        Err(AuthError::NotFound)
    }
    fn get_user_by_name_and_pwd(&self, username: &str, password: &str) -> Result<User, AuthError> {
        let users = self.users.lock().unwrap();
        users.iter().find(|(user, pwd)| user.name == username && pwd == password).map(|(user, _)| user.clone()).ok_or(AuthError::NotFound)
    }
    fn delete_user(&self, _: i32) -> Option<AuthError> {
        None
    }
    fn list_users(&self, from: isize, count: isize) -> Result<Vec<User>, AuthError> {
        self.ranges.lock().unwrap().push((from, count));
        if self.broken {
            return Err(AuthError::IOError);
        }
        Ok(self.users.lock().unwrap().iter().map(|(user, _)| user.clone()).collect())
    }
    fn enable_user(&self, username: &str) -> Result<User, AuthError> {
        if self.broken {
            return Err(AuthError::IOError);
        }
        self.change(username, |user| user.status = UserStatus::Active)
    }
    fn disable_user(&self, username: &str) -> Result<User, AuthError> {
        self.change(username, |user| user.status = UserStatus::Disabled)
    }
    fn get_token(&self, username: &str) -> Result<String, AuthError> {
        self.tokens.lock().unwrap().iter().rev().find(|(name, _)| name == username).map(|(_, token)| token.clone()).ok_or(AuthError::NotFound)
    }
    fn add_token(&self, username: &str, token: &str) -> Option<AuthError> {
        if self.broken {
            return Some(AuthError::IOError);
        }
        self.tokens.lock().unwrap().push((username.to_string(), token.to_string()));
        None
    }
    fn get_user_by_token(&self, _: &str) -> Result<User, AuthError> {
        Err(AuthError::NotFound)
    }
    fn delete_token(&self, _: &str) -> Option<AuthError> {
        None
    }
    fn add_user_role(&self, username: &str, role: Role) -> Result<User, AuthError> {
        self.change(username, |user| user.role = role.clone())
    }
}

fn entity(broken: bool) -> AuthEntity<Users> {
    AuthEntity::new(Box::new(Users { broken, ..Users::default() }))
}

fn form(username: &str, password: &str, re_password: &str) -> SignUp {
    let mut attributes = HashMap::new();
    attributes.insert("phone".to_string(), "+79025555555".to_string());
    SignUp { username: username.to_string(), email: "test@ya.ru".to_string(), password: password.to_string(), re_password: re_password.to_string(), attributes }
}

fn uri(text: &str) -> RequestedUriString {
    RequestedUriString::new(text.to_string())
}

fn items(pairs: &[(&str, &str)]) -> Vec<(String, String)> {
    pairs.iter().map(|(name, value)| (name.to_string(), value.to_string())).collect()
}

#[test]
fn a_range_keeps_its_limit_and_offset() {
    let range = LimitOffset::new(3, -7);
    assert_eq!(range.get_limit(), 3);
    assert_eq!(range.get_offset(), -7);
}

#[test]
fn a_range_is_read_from_the_query() {
    let read = |pairs: &[(&str, &str)]| {
        let range = LimitOffset::from_form(&items(pairs));
        (range.get_limit(), range.get_offset())
    };
    assert_eq!(read(&[]), (0, 10));
    assert_eq!(read(&[("limit", "1")]), (1, 10));
    assert_eq!(read(&[("offset", "5")]), (0, 5));
    assert_eq!(read(&[("limit", "2"), ("offset", "3")]), (2, 3));
    // The largest limit counts, and the last offset.
    assert_eq!(read(&[("limit", "5"), ("limit", "3"), ("limit", "4")]), (5, 10));
    assert_eq!(read(&[("offset", "5"), ("offset", "3"), ("offset", "4")]), (0, 4));
    // A limit below the default counts for nothing; an offset below it counts.
    assert_eq!(read(&[("limit", "-5"), ("offset", "-5")]), (0, -5));
    // Values that are no numbers, and other names, count for nothing.
    assert_eq!(read(&[("limit", "x"), ("offset", ""), ("Limit", "9"), ("offsets", "9"), ("other", "1")]), (0, 10));
    assert_eq!(read(&[("limit", "+7"), ("offset", "007")]), (7, 7));
    assert_eq!(read(&[("limit", "9223372036854775807"), ("offset", "-9223372036854775808")]), (isize::MAX, isize::MIN));
    assert_eq!(read(&[("limit", "9223372036854775808"), ("offset", "-9223372036854775809")]), (0, 10));
}

#[test]
fn the_path_of_a_request_ends_in_a_slash() {
    for (given, path) in [
        ("/api/users/sign_up", "/api/users/sign_up/"),
        ("/api/users/sign_up/", "/api/users/sign_up/"),
        ("/api/users/list?limit=1", "/api/users/list/"),
        ("/api/users/list/?limit=1&offset=2", "/api/users/list/"),
        ("/a?b?c", "/a/"),
        ("/a//", "/a//"),
        ("?x=1", "/"),
        ("", "/"),
        ("/", "/"),
        ("/пользователи/é?ключ", "/пользователи/é/"),
    ] {
        assert_eq!(uri(given).to_string(), path, "{:?}", given);
    }
}

#[test]
fn sign_up_registers_and_enables() {
    let entity = entity(false);
    entity.add_user("admin", "test@example.com", "qwertyu", HashMap::new()).unwrap();
    let response = sign_up(&entity, &form("test_user", "test_password", "test_password"), &uri("/api/users/sign_up/"));
    match response {
        Response::Created { location, user } => {
            assert_eq!(location, "/api/users/user/2");
            assert_eq!(user.id, 2);
            assert_eq!(user.name, "test_user");
            assert_eq!(user.email, "test@ya.ru");
            assert_eq!(user.status, UserStatus::Active);
            assert_eq!(user.role, Role::Users);
            assert_eq!(user.attributes["phone"], "+79025555555");
        }
        other => panic!("answered {:?}", other),
    }
    assert_eq!(entity.get_user_by_name_and_pwd("test_user", "test_password").unwrap().status, UserStatus::Active);
}

#[test]
fn sign_up_refuses_passwords_that_differ() {
    let entity = entity(false);
    let response = sign_up(&entity, &form("test_user", "test_password", "test_passwore"), &uri("/api/users/sign_up/"));
    assert_eq!(response, Response::Error { status: Status::BadRequest, error: String::new() });
    assert_eq!(entity.list_users(0, 10).unwrap(), Vec::new());
}

#[test]
fn sign_up_reports_a_name_that_is_taken() {
    let entity = entity(false);
    sign_up(&entity, &form("test_user", "a", "a"), &uri("/api/users/sign_up"));
    let again = sign_up(&entity, &form("test_user", "b", "b"), &uri("/api/users/sign_up"));
    assert_eq!(again, Response::Error { status: Status::Conflict, error: "User with that name already exists".to_string() });
}

#[test]
fn sign_up_hands_back_the_user_as_registered_where_it_cannot_be_enabled() {
    let entity = entity(true);
    match sign_up(&entity, &form("test_user", "a", "a"), &uri("/sign_up/sign_up?next=1")) {
        Response::Created { location, user } => {
            assert_eq!(location, "/user/user/1");
            assert_eq!(user.status, UserStatus::Created);
        }
        other => panic!("answered {:?}", other),
    }
}

#[test]
fn sign_in_issues_a_token_and_binds_it() {
    let entity = entity(false);
    let key = PrivateKey::new("there the test".to_string());
    sign_up(&entity, &form("test_user", "test_password", "test_password"), &uri("/api/users/sign_up/"));
    let token = match sign_in(&key, &entity, &SignIn { username: "test_user".to_string(), password: "test_password".to_string() }) {
        Response::Token { token } => token,
        other => panic!("answered {:?}", other),
    };
    assert!(validate_api_key(&token, "there the test"));
    assert_eq!(entity.get_token("test_user"), Ok(token));
}

#[test]
fn sign_in_refuses_wrong_credentials() {
    let entity = entity(false);
    let key = PrivateKey::new("there the test".to_string());
    sign_up(&entity, &form("test_user", "test_password", "test_password"), &uri("/api/users/sign_up/"));
    let refused = Response::Error { status: Status::Unauthorized, error: "Cannot find user with that parameters".to_string() };
    assert_eq!(sign_in(&key, &entity, &SignIn { username: "test_user".to_string(), password: "other".to_string() }), refused);
    assert_eq!(sign_in(&key, &entity, &SignIn { username: "nobody".to_string(), password: "test_password".to_string() }), refused);
    assert_eq!(entity.get_token("test_user"), Err(AuthError::NotFound));
}

#[test]
fn sign_in_reports_a_store_that_cannot_bind() {
    let entity = entity(true);
    let key = PrivateKey::new("there the test".to_string());
    entity.add_user("test_user", "test@ya.ru", "test_password", HashMap::new()).unwrap();
    let response = sign_in(&key, &entity, &SignIn { username: "test_user".to_string(), password: "test_password".to_string() });
    assert_eq!(response, Response::Error { status: Status::Unauthorized, error: "Some problem with DB".to_string() });
}

/// The guard of a request made by the user called `name`, with a store that knows its token.
fn guard(entity: &AuthEntity<Users>, name: &str, admin: bool) -> (AuthorizedUser, Option<AdminUser>) {
    struct Knows(User);
    impl Entity for Knows {
        fn add_user(&self, _: &str, _: &str, _: &str, _: HashMap<String, String>) -> Result<User, AuthError> {
            Err(AuthError::AccessDenied)
        }
        fn get_user_by_id(&self, _: i32) -> Result<User, AuthError> {
            Err(AuthError::AccessDenied)
        }
        fn get_user_by_name(&self, _: &str) -> Result<PrivateUser, AuthError> {
            Err(AuthError::AccessDenied)
        }
        fn get_user_by_name_and_pwd(&self, _: &str, _: &str) -> Result<User, AuthError> {
            Err(AuthError::AccessDenied)
        }
        fn delete_user(&self, _: i32) -> Option<AuthError> {
            None
        }
        fn list_users(&self, _: isize, _: isize) -> Result<Vec<User>, AuthError> {
            Err(AuthError::AccessDenied)
        }
        fn enable_user(&self, _: &str) -> Result<User, AuthError> {
            Err(AuthError::AccessDenied)
        }
        fn disable_user(&self, _: &str) -> Result<User, AuthError> {
            Err(AuthError::AccessDenied)
        }
        fn get_token(&self, _: &str) -> Result<String, AuthError> {
            Err(AuthError::AccessDenied)
        }
        fn add_token(&self, _: &str, _: &str) -> Option<AuthError> {
            None
        }
        fn get_user_by_token(&self, _: &str) -> Result<User, AuthError> {
            Ok(self.0.clone())
        }
        fn delete_token(&self, _: &str) -> Option<AuthError> {
            None
        }
        fn add_user_role(&self, _: &str, _: Role) -> Result<User, AuthError> {
            Err(AuthError::AccessDenied)
        }
    }
    let user = if admin { entity.add_user_role(name, Role::Admins).unwrap() } else { entity.enable_user(name).unwrap() };
    let knows = AuthEntity::new(Box::new(Knows(user)));
    let key = PrivateKey::new("over the lazy dog".to_string());
    let tokens = vec!["The quick brown fox jumps 2fd4e1".to_string()];
    let authorized = AuthorizedUser::from_request(&tokens, Some(&key), Some(&knows)).ok().unwrap();
    (authorized, AdminUser::from_request(&tokens, Some(&key), Some(&knows)).ok())
}

fn three_users() -> AuthEntity<Users> {
    let entity = entity(false);
    for name in ["admin", "test_user", "other"] {
        entity.add_user(name, "test@example.com", "qwertyu", HashMap::new()).unwrap();
    }
    entity
}

#[test]
fn a_user_gets_its_own_record() {
    let entity = three_users();
    let (user, admin) = guard(&entity, "test_user", false);
    assert!(admin.is_none());
    match get_user(&user, 2, &entity, &uri("/api/users/user/2/")) {
        Response::User { status, user } => {
            assert_eq!(status, Status::Success);
            assert_eq!(user.name, "test_user");
        }
        other => panic!("answered {:?}", other),
    }
}

#[test]
fn a_user_is_sent_to_its_own_record() {
    let entity = three_users();
    let (user, _) = guard(&entity, "test_user", false);
    assert_eq!(get_user(&user, 4, &entity, &uri("/api/users/user/4")), Response::Redirect { location: "/api/users/user/2/".to_string() });
    assert_eq!(get_user(&user, 1, &entity, &uri("/api/v1/users/user/1?x=1")), Response::Redirect { location: "/api/v2/users/user/2/".to_string() });
    assert_eq!(get_user(&user, 3, &entity, &uri("/api/users/user/33")), Response::Redirect { location: "/api/users/user/22/".to_string() });
}

#[test]
fn an_admin_gets_any_record() {
    let entity = three_users();
    let (user, admin) = guard(&entity, "admin", true);
    assert!(admin.is_some());
    match get_user(&user, 3, &entity, &uri("/api/users/user/3")) {
        Response::User { status, user } => {
            assert_eq!(status, Status::Success);
            assert_eq!(user.name, "other");
        }
        other => panic!("answered {:?}", other),
    }
    assert_eq!(
        get_user(&user, 9, &entity, &uri("/api/users/user/9")),
        Response::Error { status: Status::NotFound, error: "Cannot find user with that parameters".to_string() }
    );
}

#[test]
fn an_admin_lists_users() {
    let entity = three_users();
    let (_, admin) = guard(&entity, "admin", true);
    let admin = admin.unwrap();
    match get_user_list(&entity, &admin) {
        Response::Users { users } => assert_eq!(users.len(), 3),
        other => panic!("answered {:?}", other),
    }
    match get_user_list_with_limit(&entity, &LimitOffset::from_form(&items(&[("limit", "1")])), &admin) {
        Response::Users { users } => assert_eq!(users.len(), 3),
        other => panic!("answered {:?}", other),
    }
    assert_eq!(get_user_list_with_limit(&entity, &LimitOffset::new(-2, -1), &admin), get_user_list(&entity, &admin));
    // The default range is 0 to 10, and a range from a query goes to the store as it is.
    let ranges = Arc::new(Mutex::new(Vec::new()));
    let asked = AuthEntity::new(Box::new(Users { ranges: ranges.clone(), ..Users::default() }));
    get_user_list(&asked, &admin);
    get_user_list_with_limit(&asked, &LimitOffset::from_form(&items(&[("limit", "1")])), &admin);
    get_user_list_with_limit(&asked, &LimitOffset::new(4, 2), &admin);
    assert_eq!(*ranges.lock().unwrap(), vec![(0, 10), (1, 10), (4, 2)]);
}

#[test]
fn a_listing_that_fails_is_reported() {
    let broken = entity(true);
    let working = three_users();
    let (_, admin) = guard(&working, "admin", true);
    assert_eq!(get_user_list(&broken, &admin.unwrap()), Response::Error { status: Status::InternalServerError, error: "Some problem with DB".to_string() });
}

#[test]
fn passwords_match_when_they_are_equal() {
    assert!(form("a", "pw", "pw").passwords_match());
    assert!(form("a", "", "").passwords_match());
    assert!(!form("a", "pw", "Pw").passwords_match());
    assert!(!form("a", "pw", "pw ").passwords_match());
}
