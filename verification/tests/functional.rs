use std::collections::HashMap;
use std::sync::Mutex;

use auth_rocket::redisdb::command::{Command, Event, Outcome};
use auth_rocket::redisdb::driver::drive;
use auth_rocket::redisdb::exchange::Exchange;
use auth_rocket::redisdb::RedisEntity;
use auth_rocket::api::condition::LimitOffset;
use auth_rocket::api::form::{SignIn, SignUp};
use auth_rocket::api::{get_user, get_user_list, get_user_list_with_limit, sign_in, sign_up, Response, Status};
use auth_rocket::limitation::user::Denial;
use auth_rocket::net::uri::RequestedUriString;
use auth_rocket::{AdminUser, AuthEntity, AuthError, AuthorizedUser, Entity, PrivateKey, PrivateUser, Role, User, UserStatus};

/// A key-value backend in memory, with the commands that the store uses.
#[derive(Default)]
struct Memory {
    texts: HashMap<String, String>,
    maps: HashMap<String, Vec<(String, String)>>,
    sets: HashMap<String, Vec<(i64, i32)>>,
    lifetimes: HashMap<String, usize>,
    log: Vec<Command>,
}

impl Memory {
    fn put_field(&mut self, key: &str, field: &str, value: &str) {
        let map = self.maps.entry(key.to_string()).or_default();
        match map.iter_mut().find(|(name, _)| name == field) {
            Some(slot) => slot.1 = value.to_string(),
            None => map.push((field.to_string(), value.to_string())),
        }
    }

    fn run(&mut self, command: Command) -> Event {
        self.log.push(command.clone());
        match command {
            Command::ReadFields { key } => Event::Fields(self.maps.get(&key).cloned().unwrap_or_default()),
            Command::ReadText { key } => match self.texts.get(&key) {
                Some(text) => Event::Text(text.clone()),
                None => Event::Failed,
            },
            Command::WriteText { key, value } => {
                self.texts.insert(key, value);
                Event::Done
            }
            Command::Increment { key, field, delta } => {
                let now = self
                    .maps
                    .get(&key)
                    .and_then(|map| map.iter().find(|(name, _)| *name == field))
                    .map(|(_, value)| value.parse::<i32>().unwrap())
                    .unwrap_or(0);
                self.put_field(&key, &field, &(now + delta).to_string());
                Event::Number(now + delta)
            }
            Command::Enlist { key, member, score } => {
                let set = self.sets.entry(key).or_default();
                set.retain(|(_, m)| *m != member);
                set.push((score, member));
                set.sort_by(|a, b| (a.0, a.1.to_string()).cmp(&(b.0, b.1.to_string())));
                Event::Done
            }
            Command::WriteFields { key, items } => {
                for (field, value) in &items {
                    self.put_field(&key, field, value);
                }
                Event::Done
            }
            Command::WriteField { key, field, value } => {
                self.put_field(&key, &field, &value);
                Event::Done
            }
            Command::Delete { key } => {
                self.texts.remove(&key);
                self.maps.remove(&key);
                self.sets.remove(&key);
                self.lifetimes.remove(&key);
                Event::Done
            }
            Command::Delist { key, member } => {
                if let Some(set) = self.sets.get_mut(&key) {
                    set.retain(|(_, m)| *m != member);
                }
                Event::Done
            }
            Command::Range { key, start, stop } => {
                let members: Vec<i32> = self.sets.get(&key).map(|set| set.iter().map(|(_, m)| *m).collect()).unwrap_or_default();
                let len = members.len() as isize;
                let from = if start < 0 { (len + start).max(0) } else { start };
                let to = if stop < 0 { len + stop } else { stop.min(len - 1) };
                if from > to || from >= len {
                    Event::Members(Vec::new())
                } else {
                    Event::Members(members[from as usize..=to as usize].to_vec())
                }
            }
            Command::Expire { key, seconds } => {
                if self.texts.contains_key(&key) {
                    self.lifetimes.insert(key, seconds);
                }
                Event::Done
            }
        }
    }
}

/// The store on the backend in memory.
struct MemoryEntity {
    logic: RedisEntity,
    memory: Mutex<Memory>,
    reachable: bool,
}

impl MemoryEntity {
    fn new(prefix: &str) -> MemoryEntity {
        MemoryEntity { logic: RedisEntity::new(prefix.to_string()), memory: Mutex::new(Memory::default()), reachable: true }
    }

    fn unreachable(prefix: &str) -> MemoryEntity {
        MemoryEntity { reachable: false, ..MemoryEntity::new(prefix) }
    }

    fn drive(&self, exchange: Exchange) -> Outcome {
        let first = if self.reachable { Event::Connected } else { Event::Unavailable };
        drive(exchange, first, |command| self.memory.lock().unwrap().run(command))
    }

    fn commands(&self) -> Vec<Command> {
        self.memory.lock().unwrap().log.clone()
    }
}

impl Entity for MemoryEntity {
    fn add_user(&self, name: &str, email: &str, password: &str, attributes: HashMap<String, String>) -> Result<User, AuthError> {
        self.drive(self.logic.add_user(name, email, password, attributes)).into_user()
    }
    fn get_user_by_id(&self, user_id: i32) -> Result<User, AuthError> {
        self.drive(self.logic.get_user_by_id(user_id)).into_user()
    }
    fn get_user_by_name(&self, username: &str) -> Result<PrivateUser, AuthError> {
        self.drive(self.logic.get_user_by_name(username)).into_private_user()
    }
    fn get_user_by_name_and_pwd(&self, username: &str, password: &str) -> Result<User, AuthError> {
        self.drive(self.logic.get_user_by_name_and_pwd(username, password)).into_user()
    }
    fn delete_user(&self, user_id: i32) -> Option<AuthError> {
        self.drive(self.logic.delete_user(user_id)).into_error()
    }
    fn list_users(&self, from: isize, count: isize) -> Result<Vec<User>, AuthError> {
        self.drive(self.logic.list_users(from, count)).into_users()
    }
    fn enable_user(&self, username: &str) -> Result<User, AuthError> {
        self.drive(self.logic.enable_user(username)).into_user()
    }
    fn disable_user(&self, username: &str) -> Result<User, AuthError> {
        self.drive(self.logic.disable_user(username)).into_user()
    }
    fn get_token(&self, username: &str) -> Result<String, AuthError> {
        self.drive(self.logic.get_token(username)).into_token()
    }
    fn add_token(&self, username: &str, token: &str) -> Option<AuthError> {
        self.drive(self.logic.add_token(username, token)).into_error()
    }
    fn get_user_by_token(&self, token: &str) -> Result<User, AuthError> {
        self.drive(self.logic.get_user_by_token(token)).into_user()
    }
    fn delete_token(&self, token: &str) -> Option<AuthError> {
        self.drive(self.logic.delete_token(token)).into_error()
    }
    fn add_user_role(&self, username: &str, role: Role) -> Result<User, AuthError> {
        self.drive(self.logic.add_user_role(username, role)).into_user()
    }
}

#[test]
fn test_redis_db() {
    let entity = MemoryEntity::new("functional_tests");
    functional_tests(&entity);
}

#[test]
fn functional_tests_behind_the_wrapper() {
    let entity: AuthEntity = AuthEntity::new(Box::new(MemoryEntity::new("functional_tests")));
    functional_tests(&entity);
}

fn functional_tests(entity: &dyn Entity) {
    remove_old_values(entity);

    let mut attrinbutes: HashMap<String, String> = HashMap::new();
    attrinbutes.insert("phone".to_string(), "+79020055555".to_string());

    let user = entity.add_user("Test user", "test@example.com", "qwertyu", attrinbutes.clone()).unwrap();
    assert_eq!(user.status, UserStatus::Created);
    let user = entity.enable_user(user.name.as_str()).unwrap();

    let user_n = entity.get_user_by_name_and_pwd("Test user", "qwertyu").unwrap();
    assert_eq!(user, user_n);
    assert_eq!(user.status, UserStatus::Active);
    assert_eq!(entity.add_token(user.name.as_str(), "just_my_token"), None);
    assert_eq!(entity.get_token(user.name.as_str()).unwrap(), "just_my_token".to_string());
    assert_eq!(entity.get_user_by_token("just_my_token").unwrap(), user);
    assert_eq!(entity.delete_token("just_my_token"), None);
    assert_eq!(entity.get_user_by_token("just_my_token"), Err(AuthError::NotFound));
    assert_eq!(user.attributes, attrinbutes);

    let list = entity.list_users(0, 1_000_000).unwrap();
    assert_eq!(list.len(), 1);
    assert_eq!(user, list[0]);

    entity.disable_user(user.name.as_str()).unwrap();
    let user = entity.get_user_by_name(user.name.as_str()).unwrap();
    assert_eq!(user.status, UserStatus::Disabled);

    entity.add_user_role(user.name.as_str(), Role::Admins).unwrap();
    let user = entity.get_user_by_id(user.id).unwrap();
    assert_eq!(user.role, Role::Admins);

    entity.add_user_role(user.name.as_str(), Role::Custom("Batman".to_string())).unwrap();
    let user = entity.get_user_by_id(user.id).unwrap();
    assert_eq!(user.role, Role::Custom("Batman".to_string()));

    assert_eq!(entity.delete_user(user.id), None);
    let list = entity.list_users(0, 1_000_000).unwrap();
    assert_eq!(list.len(), 0);

    remove_old_values(entity);
}

fn remove_old_values(entity: &dyn Entity) {
    entity
        .list_users(0, 1_000_000)
        .map(|list| {
            for user in list {
                println!("Delete user: {:?}", user);
                if entity.delete_user(user.id) != None {
                    println!("User not exist: {:?}", user);
                }
            }

            ()
        })
        .unwrap_or(())
}

fn attributes(pairs: &[(&str, &str)]) -> HashMap<String, String> {
    pairs.iter().map(|(key, value)| (key.to_string(), value.to_string())).collect()
}

#[test]
fn a_name_is_registered_once() {
    let entity = MemoryEntity::new("t:");
    let first = entity.add_user("alice", "alice@example.com", "pw1", attributes(&[("phone", "1")])).unwrap();
    let second = entity.add_user("alice", "other@example.com", "pw2", HashMap::new());
    assert_eq!(second, Err(AuthError::DuplicateUsername));
    let stored = entity.get_user_by_name("alice").unwrap();
    assert_eq!(User::from(stored), first);
    assert_eq!(first.email, "alice@example.com");
    assert_eq!(entity.get_user_by_name_and_pwd("alice", "pw1").unwrap(), first);
    assert_eq!(entity.get_user_by_name_and_pwd("alice", "pw2"), Err(AuthError::NotFound));
    assert_eq!(entity.list_users(0, -1).unwrap().len(), 1);
}

#[test]
fn an_unknown_name_and_a_wrong_password_look_alike() {
    let entity = MemoryEntity::new("t:");
    entity.add_user("alice", "alice@example.com", "pw1", HashMap::new()).unwrap();
    let before = entity.commands().len();
    let unknown = entity.get_user_by_name_and_pwd("bob", "pw1");
    let asked_for_unknown = entity.commands().len() - before;
    let wrong = entity.get_user_by_name_and_pwd("alice", "pw2");
    let asked_for_wrong = entity.commands().len() - before - asked_for_unknown;
    assert_eq!(unknown, Err(AuthError::NotFound));
    assert_eq!(wrong, Err(AuthError::NotFound));
    assert_eq!(unknown, wrong);
    assert_eq!(asked_for_unknown, 1);
    assert_eq!(asked_for_wrong, 1);
}

#[test]
fn a_token_resolves_to_an_active_user_only() {
    let entity = MemoryEntity::new("t:");
    let user = entity.add_user("alice", "alice@example.com", "pw1", HashMap::new()).unwrap();
    assert_eq!(entity.add_token("alice", "tok"), None);
    assert_eq!(entity.get_user_by_token("tok"), Err(AuthError::NotActive));
    let active = entity.enable_user("alice").unwrap();
    assert_eq!(active.status, UserStatus::Active);
    assert_eq!(active.id, user.id);
    assert_eq!(entity.get_user_by_token("tok"), Ok(active));
    assert_eq!(entity.add_token("nobody", "ghost"), None);
    assert_eq!(entity.get_user_by_token("ghost"), Err(AuthError::NotFound));
    assert_eq!(entity.get_user_by_token("unknown"), Err(AuthError::NotFound));
}

#[test]
fn a_deleted_token_is_unknown() {
    let entity = MemoryEntity::new("t:");
    entity.add_user("alice", "alice@example.com", "pw1", HashMap::new()).unwrap();
    entity.enable_user("alice").unwrap();
    assert_eq!(entity.add_token("alice", "tok"), None);
    assert_eq!(entity.delete_token("tok"), None);
    assert_eq!(entity.get_user_by_token("tok"), Err(AuthError::NotFound));
    assert_eq!(entity.get_token("alice"), Err(AuthError::NotFound));
    assert_eq!(entity.delete_token("tok"), Some(AuthError::NotFound));
}

#[test]
fn the_token_of_a_user_who_is_not_active_is_kept() {
    let entity = MemoryEntity::new("t:");
    entity.add_user("alice", "alice@example.com", "pw1", HashMap::new()).unwrap();
    assert_eq!(entity.add_token("alice", "tok"), None);
    assert_eq!(entity.delete_token("tok"), Some(AuthError::NotActive));
    assert_eq!(entity.get_user_by_token("tok"), Err(AuthError::NotActive));
    assert_eq!(entity.get_token("alice"), Ok("tok".to_string()));
}

#[test]
fn a_new_token_leaves_the_old_one_valid() {
    let entity = MemoryEntity::new("t:");
    entity.add_user("alice", "alice@example.com", "pw1", HashMap::new()).unwrap();
    let alice = entity.enable_user("alice").unwrap();
    assert_eq!(entity.add_token("alice", "first"), None);
    assert_eq!(entity.add_token("alice", "second"), None);
    assert_eq!(entity.get_token("alice"), Ok("second".to_string()));
    assert_eq!(entity.get_user_by_token("second"), Ok(alice.clone()));
    // Resolving the old token renews its binding, so that it is the user's token again.
    assert_eq!(entity.get_user_by_token("first"), Ok(alice));
    assert_eq!(entity.get_token("alice"), Ok("first".to_string()));
}

#[test]
fn users_are_listed_in_the_order_of_their_creation() {
    let entity = MemoryEntity::new("t:");
    let names = ["carol", "alice", "bob", "dave"];
    for name in names {
        entity.add_user(name, "x@example.com", "pw", HashMap::new()).unwrap();
    }
    // Spread the creation times, latest first, to see that the listing goes by them.
    {
        let mut memory = entity.memory.lock().unwrap();
        let set = memory.sets.get_mut("t:authorize:users:list").unwrap();
        for entry in set.iter_mut() {
            entry.0 = 1_000 - entry.1 as i64;
        }
        set.sort();
    }
    let listed: Vec<String> = entity.list_users(0, -1).unwrap().into_iter().map(|u| u.name).collect();
    assert_eq!(listed, vec!["dave", "bob", "alice", "carol"]);
    let ids: Vec<i32> = entity.list_users(0, -1).unwrap().into_iter().map(|u| u.id).collect();
    assert_eq!(ids, vec![4, 3, 2, 1]);
    let first_two: Vec<String> = entity.list_users(0, 1).unwrap().into_iter().map(|u| u.name).collect();
    assert_eq!(first_two, vec!["dave", "bob"]);
    let last: Vec<String> = entity.list_users(-1, -1).unwrap().into_iter().map(|u| u.name).collect();
    assert_eq!(last, vec!["carol"]);
    assert_eq!(entity.list_users(2, 1).unwrap(), Vec::new());
    assert_eq!(entity.list_users(7, 9).unwrap(), Vec::new());
}

#[test]
fn users_registered_within_one_second_rank_by_the_text_of_their_ids() {
    let entity = MemoryEntity::new("t:");
    for i in 1..=11 {
        entity.add_user(&format!("user{}", i), "x@example.com", "pw", HashMap::new()).unwrap();
    }
    {
        let mut memory = entity.memory.lock().unwrap();
        let set = memory.sets.get_mut("t:authorize:users:list").unwrap();
        for entry in set.iter_mut() {
            entry.0 = 1_000;
        }
        set.sort_by(|a, b| (a.0, a.1.to_string()).cmp(&(b.0, b.1.to_string())));
    }
    let ids: Vec<i32> = entity.list_users(0, -1).unwrap().into_iter().map(|u| u.id).collect();
    assert_eq!(ids, vec![1, 10, 11, 2, 3, 4, 5, 6, 7, 8, 9]);
}

#[test]
fn users_registered_at_different_times_are_listed_as_registered() {
    let entity = MemoryEntity::new("t:");
    let mut added = Vec::new();
    for i in 1..=12 {
        added.push(entity.add_user(&format!("user{}", i), "x@example.com", "pw", HashMap::new()).unwrap());
        let mut memory = entity.memory.lock().unwrap();
        let set = memory.sets.get_mut("t:authorize:users:list").unwrap();
        set.last_mut().unwrap().0 = 1_000 + i as i64;
    }
    let listed = entity.list_users(0, 1_000_000).unwrap();
    assert_eq!(listed, added);
    assert_eq!(listed.iter().map(|u| u.id).collect::<Vec<i32>>(), (1..=12).collect::<Vec<i32>>());
    assert_eq!(entity.delete_user(5), None);
    added.remove(4);
    assert_eq!(entity.list_users(0, 1_000_000).unwrap(), added);
    assert_eq!(entity.list_users(0, -1).unwrap(), added);
}

#[test]
fn a_deleted_user_is_not_listed() {
    let entity = MemoryEntity::new("t:");
    let alice = entity.add_user("alice", "a@example.com", "pw", HashMap::new()).unwrap();
    let bob = entity.add_user("bob", "b@example.com", "pw", HashMap::new()).unwrap();
    let carol = entity.add_user("carol", "c@example.com", "pw", HashMap::new()).unwrap();
    assert_eq!((alice.id, bob.id, carol.id), (1, 2, 3));
    assert_eq!(entity.delete_user(bob.id), None);
    let listed = entity.list_users(0, 1_000_000).unwrap();
    assert_eq!(listed, vec![alice, carol]);
    assert_eq!(entity.get_user_by_id(2), Err(AuthError::NotFound));
    assert_eq!(entity.get_user_by_name("bob"), Err(AuthError::NotFound));
    // Ids are not given out again.
    let dave = entity.add_user("dave", "d@example.com", "pw", HashMap::new()).unwrap();
    assert_eq!(dave.id, 4);
    // Deleting what is not there is no error.
    assert_eq!(entity.delete_user(2), None);
    assert_eq!(entity.delete_user(99), None);
}

#[test]
fn a_listed_id_without_a_record_is_skipped() {
    let entity = MemoryEntity::new("t:");
    let alice = entity.add_user("alice", "a@example.com", "pw", HashMap::new()).unwrap();
    entity.add_user("bob", "b@example.com", "pw", HashMap::new()).unwrap();
    let carol = entity.add_user("carol", "c@example.com", "pw", HashMap::new()).unwrap();
    entity.add_user("dave", "d@example.com", "pw", HashMap::new()).unwrap();
    {
        let mut memory = entity.memory.lock().unwrap();
        memory.maps.remove("t:authorize:users:name:bob");
        memory.texts.remove("t:authorize:users:id:4");
    }
    assert_eq!(entity.list_users(0, -1).unwrap(), vec![alice, carol]);
}

#[test]
fn a_registration_reads_back_as_it_was_given() {
    let entity = MemoryEntity::new("t:");
    let given = attributes(&[("phone", "+79020055555"), ("city", "Томск"), ("quote", "say \"hi\"\n")]);
    let user = entity.add_user("alice", "alice@example.com", "pw1", given.clone()).unwrap();
    let stored = entity.get_user_by_name("alice").unwrap();
    assert_eq!(stored.id, 1);
    assert_eq!(stored.name, "alice");
    assert_eq!(stored.email, "alice@example.com");
    assert_eq!(stored.role, Role::Users);
    assert_eq!(stored.status, UserStatus::Created);
    assert_eq!(stored.attributes, given);
    // The password is stored as its MD5 digest, and the public record has none.
    assert!(stored.has_password("6e6fdf956d04289354dcf1619e28fe77"));
    assert!(!stored.has_password("pw1"));
    assert_eq!(User::from(stored), user);
    assert_eq!(entity.get_user_by_id(1).unwrap(), user);
}

#[test]
fn end_to_end() {
    let entity = MemoryEntity::new("t:");
    let secret = auth_rocket::PrivateKey::new("there the test".to_string());
    entity.add_user("alice", "alice@example.com", "pw1", HashMap::new()).unwrap();
    entity.enable_user("alice").unwrap();
    // Sign in.
    let alice = entity.get_user_by_name_and_pwd("alice", "pw1").unwrap();
    let token = auth_rocket::generate_api_key(secret.as_str()).unwrap();
    assert_eq!(entity.add_token("alice", &token), None);
    let found = entity.get_user_by_token(&token).unwrap();
    assert_eq!(found, alice);
    assert_eq!(found.status, UserStatus::Active);
    let disabled = entity.disable_user("alice").unwrap();
    assert_eq!(disabled.status, UserStatus::Disabled);
    let fresh = auth_rocket::generate_api_key(secret.as_str()).unwrap();
    assert_eq!(entity.add_token("alice", &fresh), None);
    assert_eq!(entity.get_user_by_token(&fresh), Err(AuthError::NotActive));
    assert_eq!(entity.get_user_by_token(&token), Err(AuthError::NotActive));
}

#[test]
fn an_unreachable_backend_is_an_io_error() {
    let entity = MemoryEntity::unreachable("t:");
    assert_eq!(entity.add_user("alice", "a@example.com", "pw", HashMap::new()), Err(AuthError::IOError));
    assert_eq!(entity.get_user_by_id(1), Err(AuthError::IOError));
    assert_eq!(entity.get_user_by_name("alice"), Err(AuthError::IOError));
    assert_eq!(entity.get_user_by_name_and_pwd("alice", "pw"), Err(AuthError::IOError));
    assert_eq!(entity.delete_user(1), Some(AuthError::IOError));
    assert_eq!(entity.list_users(0, 10), Err(AuthError::IOError));
    assert_eq!(entity.enable_user("alice"), Err(AuthError::IOError));
    assert_eq!(entity.disable_user("alice"), Err(AuthError::IOError));
    assert_eq!(entity.get_token("alice"), Err(AuthError::IOError));
    assert_eq!(entity.add_token("alice", "tok"), Some(AuthError::IOError));
    assert_eq!(entity.get_user_by_token("tok"), Err(AuthError::IOError));
    assert_eq!(entity.delete_token("tok"), Some(AuthError::IOError));
    assert_eq!(entity.add_user_role("alice", Role::Admins), Err(AuthError::IOError));
    assert_eq!(entity.commands(), Vec::new());
}

#[test]
fn changes_to_a_user_who_is_not_there_are_not_found() {
    let entity = MemoryEntity::new("t:");
    assert_eq!(entity.enable_user("nobody"), Err(AuthError::NotFound));
    assert_eq!(entity.disable_user("nobody"), Err(AuthError::NotFound));
    assert_eq!(entity.add_user_role("nobody", Role::Admins), Err(AuthError::NotFound));
    assert_eq!(entity.get_user_by_id(7), Err(AuthError::NotFound));
    assert_eq!(entity.get_user_by_name("nobody"), Err(AuthError::NotFound));
    assert_eq!(entity.get_token("nobody"), Err(AuthError::NotFound));
    assert_eq!(entity.list_users(0, 10), Ok(Vec::new()));
}

#[test]
fn a_status_that_is_not_recognised_is_unknown() {
    let entity = MemoryEntity::new("t:");
    let alice = entity.add_user("alice", "a@example.com", "pw", HashMap::new()).unwrap();
    for corrupt in ["x", "300", "3", "-1", "", "active"] {
        entity.memory.lock().unwrap().put_field("t:authorize:users:name:alice", "status", corrupt);
        assert_eq!(entity.get_user_by_name("alice").unwrap().status, UserStatus::Unknown, "status {:?}", corrupt);
        assert_eq!(entity.get_user_by_id(alice.id).unwrap().status, UserStatus::Unknown);
        assert_eq!(entity.add_token("alice", "tok"), None);
        assert_eq!(entity.get_user_by_token("tok"), Err(AuthError::NotActive));
    }
    assert_eq!(entity.enable_user("alice").unwrap().status, UserStatus::Active);
}

#[test]
fn a_role_replaces_the_one_before() {
    let entity = MemoryEntity::new("t:");
    entity.add_user("alice", "a@example.com", "pw", HashMap::new()).unwrap();
    assert_eq!(entity.add_user_role("alice", Role::Admins).unwrap().role, Role::Admins);
    assert_eq!(entity.add_user_role("alice", Role::Custom("Batman".to_string())).unwrap().role, Role::Custom("Batman".to_string()));
    assert_eq!(entity.add_user_role("alice", Role::Users).unwrap().role, Role::Users);
    // A custom role with the name of a fixed one is stored as its name, and read as the fixed one.
    assert_eq!(entity.add_user_role("alice", Role::Custom("admins".to_string())).unwrap().role, Role::Admins);
}

#[test]
fn stores_with_different_prefixes_do_not_meet() {
    let memory = Mutex::new(Memory::default());
    let one = RedisEntity::new("one:".to_string());
    let two = RedisEntity::new("two:".to_string());
    let run = |exchange: Exchange| drive(exchange, Event::Connected, |command| memory.lock().unwrap().run(command));
    assert!(run(one.add_user("alice", "a@example.com", "pw", HashMap::new())).into_user().is_ok());
    assert_eq!(run(two.get_user_by_name("alice")).into_private_user(), Err(AuthError::NotFound));
    assert!(run(two.add_user("alice", "b@example.com", "pw", HashMap::new())).into_user().is_ok());
    assert_eq!(run(one.get_user_by_name("alice")).into_private_user().unwrap().email, "a@example.com");
    assert_eq!(run(two.get_user_by_name("alice")).into_private_user().unwrap().email, "b@example.com");
}

/// The requests of a client, as the routes see them.
struct Client {
    key: PrivateKey,
    entity: AuthEntity,
}

impl Client {
    fn uri(text: &str) -> RequestedUriString {
        RequestedUriString::new(text.to_string())
    }

    fn tokens(token: Option<&str>) -> Vec<String> {
        token.map(|t| t.to_string()).into_iter().collect()
    }

    fn sign_in(&self, user: &str, pwd: &str) -> String {
        match sign_in(&self.key, &self.entity, &SignIn { username: user.to_string(), password: pwd.to_string() }) {
            Response::Token { token } => token,
            other => panic!("answered {:?}", other),
        }
    }

    fn user(&self, token: Option<&str>) -> Result<AuthorizedUser, Denial> {
        AuthorizedUser::from_request(&Client::tokens(token), Some(&self.key), Some(&self.entity))
    }

    fn admin(&self, token: Option<&str>) -> Result<AdminUser, Denial> {
        AdminUser::from_request(&Client::tokens(token), Some(&self.key), Some(&self.entity))
    }
}

#[test]
fn test_redis_api() {
    let redis = MemoryEntity::new("functional_tests");

    redis.add_user("admin", "test@example.com", "qwertyu", HashMap::new()).unwrap();
    redis.enable_user("admin").unwrap();
    redis.add_user_role("admin", Role::Admins).unwrap();

    let client = Client { key: PrivateKey::new("there the test".to_string()), entity: AuthEntity::new(Box::new(redis)) };

    // sign_up
    let mut phone = HashMap::new();
    phone.insert("phone".to_string(), "+79025555555".to_string());
    let form = SignUp {
        username: "test_user".to_string(),
        email: "test@ya.ru".to_string(),
        password: "test_password".to_string(),
        re_password: "test_password".to_string(),
        attributes: phone.clone(),
    };
    let test_user = User { id: 2, name: "test_user".to_string(), email: "test@ya.ru".to_string(), status: UserStatus::Active, role: Role::Users, attributes: phone };
    let admin = User { id: 1, name: "admin".to_string(), email: "test@example.com".to_string(), status: UserStatus::Active, role: Role::Admins, attributes: HashMap::new() };
    assert_eq!(
        sign_up(&client.entity, &form, &Client::uri("/api/users/sign_up/")),
        Response::Created { location: "/api/users/user/2".to_string(), user: test_user.clone() }
    );

    let token: String = client.sign_in("test_user", "test_password");

    // user_get
    let guard = client.user(Some(&token)).ok().unwrap();
    assert_eq!(
        get_user(&guard, 2, &client.entity, &Client::uri("/api/users/user/2/")),
        Response::User { status: Status::Success, user: test_user.clone() }
    );
    // user_get_redirect
    assert_eq!(
        get_user(&guard, 4, &client.entity, &Client::uri("/api/users/user/4")),
        Response::Redirect { location: "/api/users/user/2/".to_string() }
    );
    // user_get_un_authorize
    assert!(matches!(client.user(None), Err(Denial::Unauthorized)));

    let admin_token: String = client.sign_in("admin", "qwertyu");
    let admin_guard = client.user(Some(&admin_token)).ok().unwrap();
    assert_eq!(
        get_user(&admin_guard, 2, &client.entity, &Client::uri("/api/users/user/2/")),
        Response::User { status: Status::Success, user: test_user.clone() }
    );

    // get_list_users
    let listing = client.admin(Some(&admin_token)).ok().unwrap();
    assert_eq!(get_user_list(&client.entity, &listing), Response::Users { users: vec![admin, test_user.clone()] });
    // get_list_users_un_authorize
    assert!(matches!(client.admin(Some(&token)), Err(Denial::Unauthorized)));
    // get_list_users_with_limits
    let limit = LimitOffset::from_form(&vec![("limit".to_string(), "1".to_string())]);
    assert_eq!(get_user_list_with_limit(&client.entity, &limit, &listing), Response::Users { users: vec![test_user] });
}
