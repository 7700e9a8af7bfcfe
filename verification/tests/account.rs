use std::collections::HashMap;

use auth_rocket::{AuthError, PrivateUser, Role, User, UserStatus};

#[test]
fn statuses_have_their_codes_and_names() {
    assert_eq!(UserStatus::from_code(0), UserStatus::Created);
    assert_eq!(UserStatus::from_code(1), UserStatus::Active);
    assert_eq!(UserStatus::from_code(2), UserStatus::Disabled);
    for code in 3..=255u8 {
        assert_eq!(UserStatus::from_code(code), UserStatus::Unknown);
    }
    assert_eq!(UserStatus::Created.to_string(), "created");
    assert_eq!(UserStatus::Active.to_string(), "active");
    assert_eq!(UserStatus::Disabled.to_string(), "disabled");
    assert_eq!(UserStatus::Unknown.to_string(), "unknown");
}

#[test]
fn roles_have_their_texts() {
    assert_eq!(Role::from_str("users"), Ok(Role::Users));
    assert_eq!(Role::from_str("admins"), Ok(Role::Admins));
    assert_eq!(Role::from_str("Batman"), Ok(Role::Custom("Batman".to_string())));
    assert_eq!(Role::from_str(""), Ok(Role::Custom(String::new())));
    assert_eq!(Role::from_str("users "), Ok(Role::Custom("users ".to_string())));
    assert_eq!(Role::Users.to_string(), "users");
    assert_eq!(Role::Admins.to_string(), "admins");
    assert_eq!(Role::Custom("Batman".to_string()).to_string(), "Batman");
    for role in [Role::Users, Role::Admins, Role::Custom("Robin".to_string())] {
        assert_eq!(Role::from_str(&role.to_string()), Ok(role.clone()));
        assert_eq!(role.duplicate(), role);
    }
}

#[test]
fn roles_are_the_same_when_they_are_equal() {
    let roles = [
        Role::Users,
        Role::Admins,
        Role::Custom("users".to_string()),
        Role::Custom("admins".to_string()),
        Role::Custom("Batman".to_string()),
        Role::Custom(String::new()),
    ];
    for a in &roles {
        for b in &roles {
            assert_eq!(a.same(b), a == b, "{:?} and {:?}", a, b);
        }
    }
}

#[test]
fn errors_have_their_descriptions() {
    let all = [
        (AuthError::DuplicateUsername, "User with that name already exists"),
        (AuthError::NotFound, "Cannot find user with that parameters"),
        (AuthError::IOError, "Some problem with DB"),
        (AuthError::AccessDenied, "You don't have permissions to that resource"),
        (AuthError::NotActive, "Sorry, but this user is not activated"),
        (AuthError::DisabledUser, "Sorry, but this user is disabled"),
    ];
    for (error, description) in all {
        assert_eq!(error.description(), description);
        assert_eq!(error.to_string(), description);
    }
}

#[test]
fn the_public_user_has_every_field_but_the_password() {
    let mut attributes = HashMap::new();
    attributes.insert("phone".to_string(), "+79020055555".to_string());
    let private = PrivateUser::new(
        3,
        "alice".to_string(),
        "alice@example.com".to_string(),
        "6e6fdf956d04289354dcf1619e28fe77".to_string(),
        UserStatus::Active,
        Role::Custom("Batman".to_string()),
        attributes.clone(),
    );
    assert!(private.has_password("6e6fdf956d04289354dcf1619e28fe77"));
    assert!(!private.has_password(""));
    let user = User::from(private.clone());
    assert_eq!(
        user,
        User {
            id: 3,
            name: "alice".to_string(),
            email: "alice@example.com".to_string(),
            status: UserStatus::Active,
            role: Role::Custom("Batman".to_string()),
            attributes,
        }
    );
    assert_eq!(auth_rocket::account::public_user(private), user);
    assert_eq!(user.duplicate(), user);
    assert!(!format!("{:?}", user).contains("6e6fdf"));
}
