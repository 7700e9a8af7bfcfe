//! What holds of the store's operations on users and tokens, on the model
//! of the backend.

use vstd::prelude::*;
use vstd::string::*;

use crate::account::{PrivateUserView, RoleView, UserStatus};
use crate::error::AuthError;
use crate::redisdb::command::OutcomeView;
use crate::redisdb::command::EventView;
use crate::redisdb::exchange::{advance, fail, password_digest, ExchangeView, Stage};
use crate::redisdb::model::{perform, placed, run, Backend};
use crate::redisdb::record::{attributes_json, attributes_of_text, decoded_user, field_of, FieldsView};
use crate::redisdb::schema::{key_text, lemma_families_differ, StorageNames};
use crate::redisdb::stored::{
    bound, lemma_binding_keeps_records, lemma_id_reads_back, lemma_new_records_decode,
    lemma_placed_holds, lemma_role_written, lemma_status_codes, lemma_status_written, next_id,
    reads_back, stored_name, stored_user, token_owner, unbound, with_field,
};
use crate::text::{decimal_text, parsed_integer};
use vstd::utf8::encode_utf8;

verus! {

/// A backend that cannot be reached is an `IOError`, whatever the
/// operation, and nothing is asked of it.
pub proof fn law_unreachable_backend_is_an_io_error(x: ExchangeView, now: i64)
    requires
        x.stage == Stage::Connecting,
    ensures
        advance(x, EventView::Unavailable, now) == fail(AuthError::IOError),
{
}

/// A stored status that is not recognised is `Unknown`: a user read from a
/// record whose status is there has the status `Created`, `Active` or
/// `Disabled` only where the text of the status is a number and the number
/// is 0, 1 or 2. Any other text, a number or not, gives `Unknown`.
pub proof fn law_unrecognised_status_is_unknown(fields: FieldsView)
    requires
        field_of(fields, "status"@) is Some,
    ensures
        ({
            let text = field_of(fields, "status"@)->0;
            let code = parsed_integer(encode_utf8(text), false, 0, 255);
            &&& decoded_user(fields) matches Some(user)
            &&& user.status == UserStatus::Unknown <==> !(code matches Some(n) && 0 <= n <= 2)
            &&& user.status == UserStatus::of_code(
                match code {
                    Some(n) => n,
                    None => 3,
                },
            )
        }),
{
}

/// `get_user_by_name` hands back the stored user with its password hash, or
/// `NotFound` where none is stored, and changes nothing.
pub proof fn law_get_user_by_name(
    prefix: Seq<char>,
    username: Seq<char>,
    backend: Backend,
    now: i64,
)
    ensures
        perform(ExchangeView::get_user_by_name(prefix, username), backend, now) == (
            match stored_user(backend, prefix, username) {
                Some(user) => OutcomeView::Private(user),
                None => OutcomeView::Failed(AuthError::NotFound),
            },
            backend,
        ),
{
    reveal_with_fuel(run, 3);
}

/// `get_user_by_name_and_pwd` hands back the stored user where the digest of
/// the password is the stored one. An unknown name and a wrong password both
/// give `NotFound`, and nothing else tells them apart: in both cases the
/// backend is left as it was.
pub proof fn law_credentials(
    prefix: Seq<char>,
    username: Seq<char>,
    password: Seq<char>,
    backend: Backend,
    now: i64,
)
    ensures
        perform(
            ExchangeView::get_user_by_name_and_pwd(prefix, username, password),
            backend,
            now,
        ) == (
            match stored_user(backend, prefix, username) {
                Some(user) => if user.password == password_digest(password) {
                    OutcomeView::User(user.public())
                } else {
                    OutcomeView::Failed(AuthError::NotFound)
                },
                None => OutcomeView::Failed(AuthError::NotFound),
            },
            backend,
        ),
{
    reveal_with_fuel(run, 3);
}

/// `get_user_by_id` hands back the user whose name is stored under the id,
/// or `NotFound` where there is no such name or no such user, and changes
/// nothing.
pub proof fn law_get_user_by_id(prefix: Seq<char>, user_id: i32, backend: Backend, now: i64)
    ensures
        perform(ExchangeView::get_user_by_id(prefix, user_id), backend, now) == (
            match stored_name(backend, prefix, user_id) {
                Some(name) => match stored_user(backend, prefix, name) {
                    Some(user) => OutcomeView::User(user.public()),
                    None => OutcomeView::Failed(AuthError::NotFound),
                },
                None => OutcomeView::Failed(AuthError::NotFound),
            },
            backend,
        ),
{
    reveal_with_fuel(run, 4);
}

/// When `add_user` succeeds, and when it is refused: a name under which a
/// user is stored is refused with `DuplicateUsername`, and nothing changes.
/// A free name is registered where the allocator gives an id, the ordered
/// set and the record can be written, and the attributes can be written as
/// JSON; where one of these fails, `add_user` fails with `IOError`.
pub proof fn law_add_user_succeeds(
    prefix: Seq<char>,
    name: Seq<char>,
    email: Seq<char>,
    password: Seq<char>,
    attributes: Map<String, String>,
    backend: Backend,
    now: i64,
)
    ensures
        ({
            let (outcome, after) = perform(
                ExchangeView::add_user(prefix, name, email, password, attributes),
                backend,
                now,
            );
            let writable = next_id(backend, prefix) is Some && backend.ranking_at(
                key_text(prefix, StorageNames::List, Seq::empty()),
            ) is Some && backend.fields_at(key_text(prefix, StorageNames::Name, name)) is Some
                && attributes_json(attributes) is Some;
            if stored_user(backend, prefix, name) is Some {
                outcome == OutcomeView::Failed(AuthError::DuplicateUsername) && after == backend
            } else if writable {
                outcome is User
            } else {
                outcome == OutcomeView::Failed(AuthError::IOError)
            }
        }),
{
    reveal_with_fuel(run, 8);
    let list_key = key_text(prefix, StorageNames::List, Seq::empty());
    let counter_key = key_text(prefix, StorageNames::Increment, Seq::empty());
    let record_key = key_text(prefix, StorageNames::Name, name);
    lemma_families_differ(
        prefix,
        StorageNames::Increment,
        Seq::empty(),
        StorageNames::List,
        Seq::empty(),
    );
    lemma_families_differ(prefix, StorageNames::Increment, Seq::empty(), StorageNames::Name, name);
    lemma_families_differ(prefix, StorageNames::List, Seq::empty(), StorageNames::Name, name);
    if next_id(backend, prefix) is Some {
        let id = next_id(backend, prefix)->0;
        lemma_families_differ(
            prefix,
            StorageNames::Id,
            decimal_text(id as int),
            StorageNames::List,
            Seq::empty(),
        );
        lemma_families_differ(
            prefix,
            StorageNames::Id,
            decimal_text(id as int),
            StorageNames::Name,
            name,
        );
        lemma_new_records_decode(name, email, password_digest(password));
    }
}

/// What `add_user` stores: where it hands back a user, the backend holds
/// under the name a record with the name, the e-mail address and the digest
/// of the password as given, the status `Created` and the role `Users`, and
/// the user handed back is the public part of that record.
pub proof fn law_add_user_stores(
    prefix: Seq<char>,
    name: Seq<char>,
    email: Seq<char>,
    password: Seq<char>,
    attributes: Map<String, String>,
    backend: Backend,
    now: i64,
)
    requires
        perform(
            ExchangeView::add_user(prefix, name, email, password, attributes),
            backend,
            now,
        ).0 is User,
    ensures
        ({
            let (outcome, after) = perform(
                ExchangeView::add_user(prefix, name, email, password, attributes),
                backend,
                now,
            );
            &&& stored_user(backend, prefix, name) is None
            &&& stored_user(after, prefix, name) matches Some(user)
            &&& outcome == OutcomeView::User(user.public())
            &&& user.name == name
            &&& user.email == email
            &&& user.password == password_digest(password)
            &&& user.status == UserStatus::Created
            &&& user.role == RoleView::Users
            &&& attributes_json(attributes) matches Some(json)
            &&& user.attributes == attributes_of_text(json)
        }),
{
    reveal_with_fuel(run, 8);
    let x = ExchangeView::add_user(prefix, name, email, password, attributes);
    let record_key = key_text(prefix, StorageNames::Name, name);
    lemma_new_records_decode(name, email, password_digest(password));
}

/// Where `add_user` hands back a user, the user has the id that the
/// allocator gave, the name is stored under that id, and the ordered set
/// holds the id with the time of the registration as its score.
pub proof fn law_add_user_enlists(
    prefix: Seq<char>,
    name: Seq<char>,
    email: Seq<char>,
    password: Seq<char>,
    attributes: Map<String, String>,
    backend: Backend,
    now: i64,
)
    requires
        perform(
            ExchangeView::add_user(prefix, name, email, password, attributes),
            backend,
            now,
        ).0 is User,
    ensures
        ({
            let (outcome, after) = perform(
                ExchangeView::add_user(prefix, name, email, password, attributes),
                backend,
                now,
            );
            &&& next_id(backend, prefix) matches Some(id)
            &&& outcome matches OutcomeView::User(user)
            &&& user.id == id
            &&& stored_name(after, prefix, id) == Some(name)
            &&& after.ranking_at(key_text(prefix, StorageNames::List, Seq::empty()))
                matches Some(ranking)
            &&& ranking.contains((now, id))
        }),
{
    law_add_user_stores(prefix, name, email, password, attributes, backend, now);
    reveal_with_fuel(run, 8);
    let id = next_id(backend, prefix)->0;
    lemma_id_reads_back(id);
    let list_key = key_text(prefix, StorageNames::List, Seq::empty());
    lemma_families_differ(
        prefix,
        StorageNames::Id,
        decimal_text(id as int),
        StorageNames::List,
        Seq::empty(),
    );
    lemma_families_differ(prefix, StorageNames::Id, decimal_text(id as int), StorageNames::Name, name);
    lemma_families_differ(prefix, StorageNames::List, Seq::empty(), StorageNames::Name, name);
    lemma_new_records_decode(name, email, password_digest(password));
    assert forall|ranking: Seq<(i64, i32)>| #[trigger]
        placed(ranking, (now, id)).contains((now, id)) by {
        lemma_placed_holds(ranking, (now, id));
    }
}

/// Registering a name twice: where the first `add_user` handed back a user,
/// a second one with the same name fails with `DuplicateUsername`, whatever
/// else it is given, and leaves the backend as the first one left it: the
/// first user's record is unchanged.
pub proof fn law_second_registration_is_refused(
    prefix: Seq<char>,
    name: Seq<char>,
    email: Seq<char>,
    password: Seq<char>,
    attributes: Map<String, String>,
    other_email: Seq<char>,
    other_password: Seq<char>,
    other_attributes: Map<String, String>,
    backend: Backend,
    now: i64,
    later: i64,
)
    requires
        perform(
            ExchangeView::add_user(prefix, name, email, password, attributes),
            backend,
            now,
        ).0 is User,
    ensures
        ({
            let after = perform(
                ExchangeView::add_user(prefix, name, email, password, attributes),
                backend,
                now,
            ).1;
            perform(
                ExchangeView::add_user(prefix, name, other_email, other_password, other_attributes),
                after,
                later,
            ) == (OutcomeView::Failed(AuthError::DuplicateUsername), after)
        }),
{
    law_add_user_stores(prefix, name, email, password, attributes, backend, now);
    reveal_with_fuel(run, 3);
}

/// The round trip of a registration: where `add_user` handed back a user,
/// `get_user_by_name` then hands back a record with the name and the e-mail
/// address as they were given, the role `Users` and the status `Created`;
/// and with the attributes as they were given, where the JSON codec reads
/// them back as it wrote them. The password is there as its digest only, and
/// the user that `add_user` handed back is that record without it.
pub proof fn law_registration_round_trip(
    prefix: Seq<char>,
    name: Seq<char>,
    email: Seq<char>,
    password: Seq<char>,
    attributes: Map<String, String>,
    backend: Backend,
    now: i64,
    later: i64,
)
    requires
        perform(
            ExchangeView::add_user(prefix, name, email, password, attributes),
            backend,
            now,
        ).0 is User,
    ensures
        ({
            let (added, after) = perform(
                ExchangeView::add_user(prefix, name, email, password, attributes),
                backend,
                now,
            );
            &&& perform(ExchangeView::get_user_by_name(prefix, name), after, later).0
                matches OutcomeView::Private(user)
            &&& added == OutcomeView::User(user.public())
            &&& user.name == name
            &&& user.email == email
            &&& user.role == RoleView::Users
            &&& user.status == UserStatus::Created
            &&& user.password == password_digest(password)
            &&& reads_back(attributes) ==> user.attributes == attributes
        }),
{
    law_add_user_stores(prefix, name, email, password, attributes, backend, now);
    let after = perform(
        ExchangeView::add_user(prefix, name, email, password, attributes),
        backend,
        now,
    ).1;
    law_get_user_by_name(prefix, name, after, later);
}

/// `enable_user` makes the stored user `Active` and hands it back as it then
/// stands; every other field is as it was. Where no user is stored under the
/// name it fails with `NotFound` and changes nothing.
pub proof fn law_enable_user(prefix: Seq<char>, username: Seq<char>, backend: Backend, now: i64)
    ensures
        perform(ExchangeView::enable_user(prefix, username), backend, now) == (
            match stored_user(backend, prefix, username) {
                Some(user) => (
                    OutcomeView::User(
                        (PrivateUserView { status: UserStatus::Active, ..user }).public(),
                    ),
                    with_field(backend, prefix, username, "status"@, "1"@),
                ),
                None => (OutcomeView::Failed(AuthError::NotFound), backend),
            }
        ),
        stored_user(backend, prefix, username) matches Some(user) ==> stored_user(
            with_field(backend, prefix, username, "status"@, "1"@),
            prefix,
            username,
        ) == Some(PrivateUserView { status: UserStatus::Active, ..user }),
{
    reveal_with_fuel(run, 5);
    lemma_status_codes();
    let key = key_text(prefix, StorageNames::Name, username);
    if stored_user(backend, prefix, username) is Some {
        lemma_status_written(backend.fields_at(key)->0, "1"@);
    }
}

/// `disable_user` makes the stored user `Disabled`. It then hands back the
/// user stored under the name that the record holds, which is the same user
/// wherever records are stored under their own names. Where no user is
/// stored under the name given it fails with `NotFound` and changes nothing.
pub proof fn law_disable_user(prefix: Seq<char>, username: Seq<char>, backend: Backend, now: i64)
    ensures
        perform(ExchangeView::disable_user(prefix, username), backend, now) == (
            match stored_user(backend, prefix, username) {
                Some(user) => {
                    let after = with_field(backend, prefix, username, "status"@, "2"@);
                    (
                        match stored_user(after, prefix, user.name) {
                            Some(found) => OutcomeView::User(found.public()),
                            None => OutcomeView::Failed(AuthError::NotFound),
                        },
                        after,
                    )
                },
                None => (OutcomeView::Failed(AuthError::NotFound), backend),
            }
        ),
        stored_user(backend, prefix, username) matches Some(user) ==> stored_user(
            with_field(backend, prefix, username, "status"@, "2"@),
            prefix,
            username,
        ) == Some(PrivateUserView { status: UserStatus::Disabled, ..user }),
{
    reveal_with_fuel(run, 5);
    lemma_status_codes();
    let key = key_text(prefix, StorageNames::Name, username);
    if stored_user(backend, prefix, username) is Some {
        lemma_status_written(backend.fields_at(key)->0, "2"@);
    }
}

/// `add_user_role` gives the stored user the role, in place of the one it
/// had. It then hands back the user stored under the name that the record
/// holds. Where no user is stored under the name given it fails with
/// `NotFound` and changes nothing.
pub proof fn law_add_user_role(
    prefix: Seq<char>,
    username: Seq<char>,
    role: RoleView,
    backend: Backend,
    now: i64,
)
    ensures
        perform(ExchangeView::add_user_role(prefix, username, role), backend, now) == (
            match stored_user(backend, prefix, username) {
                Some(user) => {
                    let after = with_field(backend, prefix, username, "role"@, role.text());
                    (
                        match stored_user(after, prefix, user.name) {
                            Some(found) => OutcomeView::User(found.public()),
                            None => OutcomeView::Failed(AuthError::NotFound),
                        },
                        after,
                    )
                },
                None => (OutcomeView::Failed(AuthError::NotFound), backend),
            }
        ),
        stored_user(backend, prefix, username) matches Some(user) ==> stored_user(
            with_field(backend, prefix, username, "role"@, role.text()),
            prefix,
            username,
        ) == Some(PrivateUserView { role: RoleView::of_text(role.text()), ..user }),
{
    reveal_with_fuel(run, 5);
    let key = key_text(prefix, StorageNames::Name, username);
    if stored_user(backend, prefix, username) is Some {
        lemma_role_written(backend.fields_at(key)->0, role.text());
    }
}

/// `get_token` hands back the token stored for the user, or `NotFound`, and
/// changes nothing.
pub proof fn law_get_token(prefix: Seq<char>, username: Seq<char>, backend: Backend, now: i64)
    ensures
        perform(ExchangeView::get_token(prefix, username), backend, now) == (
            match backend.text_at(key_text(prefix, StorageNames::UserToken, username)) {
                Some(token) => OutcomeView::Token(token),
                None => OutcomeView::Failed(AuthError::NotFound),
            },
            backend,
        ),
{
    reveal_with_fuel(run, 3);
}

/// `add_token` binds the token to the user, whether or not a user of that
/// name exists, and reports no error.
pub proof fn law_add_token(
    prefix: Seq<char>,
    username: Seq<char>,
    token: Seq<char>,
    backend: Backend,
    now: i64,
)
    ensures
        perform(ExchangeView::add_token(prefix, username, token), backend, now) == (
            OutcomeView::Done,
            bound(backend, prefix, username, token),
        ),
        token_owner(bound(backend, prefix, username, token), prefix, token) == Some(username),
{
    reveal_with_fuel(run, 6);
    let (outcome, after) = perform(ExchangeView::add_token(prefix, username, token), backend, now);
    let expected = bound(backend, prefix, username, token);
    assert(after.values =~= expected.values);
    assert(after.lifetimes =~= expected.lifetimes);
}

/// Binding a token twice is the same as binding it once.
pub proof fn law_add_token_is_idempotent(
    prefix: Seq<char>,
    username: Seq<char>,
    token: Seq<char>,
    backend: Backend,
    now: i64,
    later: i64,
)
    ensures
        ({
            let once = perform(ExchangeView::add_token(prefix, username, token), backend, now);
            perform(ExchangeView::add_token(prefix, username, token), once.1, later) == once
        }),
{
    law_add_token(prefix, username, token, backend, now);
    let once = bound(backend, prefix, username, token);
    law_add_token(prefix, username, token, once, later);
    let twice = bound(once, prefix, username, token);
    assert(twice.values =~= once.values);
    assert(twice.lifetimes =~= once.lifetimes);
}

/// `get_user_by_token` resolves the token to a name and the name to a user.
/// Where either is missing it fails with `NotFound`; where the user is not
/// `Active`, with `NotActive`; in both cases nothing changes. An `Active`
/// user is handed back, and the binding is made afresh, with a full hour to
/// live.
pub proof fn law_get_user_by_token(prefix: Seq<char>, token: Seq<char>, backend: Backend, now: i64)
    ensures
        perform(ExchangeView::get_user_by_token(prefix, token), backend, now) == (
            match token_owner(backend, prefix, token) {
                Some(name) => match stored_user(backend, prefix, name) {
                    Some(user) => if user.status == UserStatus::Active {
                        (OutcomeView::User(user.public()), bound(backend, prefix, name, token))
                    } else {
                        (OutcomeView::Failed(AuthError::NotActive), backend)
                    },
                    None => (OutcomeView::Failed(AuthError::NotFound), backend),
                },
                None => (OutcomeView::Failed(AuthError::NotFound), backend),
            }
        ),
{
    reveal_with_fuel(run, 8);
    match token_owner(backend, prefix, token) {
        Some(name) => match stored_user(backend, prefix, name) {
            Some(user) => {
                if user.status == UserStatus::Active {
                    let (outcome, after) = perform(
                        ExchangeView::get_user_by_token(prefix, token),
                        backend,
                        now,
                    );
                    let expected = bound(backend, prefix, name, token);
                    assert(after.values =~= expected.values);
                    assert(after.lifetimes =~= expected.lifetimes);
                }
            },
            None => {},
        },
        None => {},
    }
}

/// `delete_token` resolves the token as `get_user_by_token` does, and fails
/// as it does. Where it resolves, the binding is removed in both directions:
/// the token of the user found, and the user of the token.
pub proof fn law_delete_token(prefix: Seq<char>, token: Seq<char>, backend: Backend, now: i64)
    ensures
        perform(ExchangeView::delete_token(prefix, token), backend, now) == (
            match token_owner(backend, prefix, token) {
                Some(name) => match stored_user(backend, prefix, name) {
                    Some(user) => if user.status == UserStatus::Active {
                        (
                            OutcomeView::Done,
                            unbound(
                                bound(backend, prefix, name, token),
                                prefix,
                                user.name,
                                token,
                            ),
                        )
                    } else {
                        (OutcomeView::Failed(AuthError::NotActive), backend)
                    },
                    None => (OutcomeView::Failed(AuthError::NotFound), backend),
                },
                None => (OutcomeView::Failed(AuthError::NotFound), backend),
            }
        ),
{
    reveal_with_fuel(run, 10);
    match token_owner(backend, prefix, token) {
        Some(name) => match stored_user(backend, prefix, name) {
            Some(user) => {
                if user.status == UserStatus::Active {
                    let (outcome, after) = perform(
                        ExchangeView::delete_token(prefix, token),
                        backend,
                        now,
                    );
                    let expected = unbound(
                        bound(backend, prefix, name, token),
                        prefix,
                        user.name,
                        token,
                    );
                    assert(after.values =~= expected.values);
                    assert(after.lifetimes =~= expected.lifetimes);
                }
            },
            None => {},
        },
        None => {},
    }
}

/// After `add_token(name, token)`, `get_user_by_token(token)` hands back the
/// user called `name` if and only if that user is `Active`. Otherwise it
/// fails: with `NotActive` where the user has another status, with
/// `NotFound` where there is no such user.
pub proof fn law_bound_token_resolves(
    prefix: Seq<char>,
    username: Seq<char>,
    token: Seq<char>,
    backend: Backend,
    now: i64,
    later: i64,
)
    ensures
        ({
            let after = perform(ExchangeView::add_token(prefix, username, token), backend, now).1;
            perform(ExchangeView::get_user_by_token(prefix, token), after, later).0 == (
                match stored_user(backend, prefix, username) {
                    Some(user) => if user.status == UserStatus::Active {
                        OutcomeView::User(user.public())
                    } else {
                        OutcomeView::Failed(AuthError::NotActive)
                    },
                    None => OutcomeView::Failed(AuthError::NotFound),
                }
            )
        }),
{
    law_add_token(prefix, username, token, backend, now);
    let after = bound(backend, prefix, username, token);
    law_get_user_by_token(prefix, token, after, later);
    lemma_binding_keeps_records(backend, prefix, username, token, username);
}

/// After `delete_token(token)`, `get_user_by_token(token)` fails with
/// `NotFound`, unless the token was kept because its user is not `Active`.
pub proof fn law_deleted_token_is_unknown(
    prefix: Seq<char>,
    token: Seq<char>,
    backend: Backend,
    now: i64,
    later: i64,
)
    requires
        perform(ExchangeView::delete_token(prefix, token), backend, now).0 != OutcomeView::Failed(
            AuthError::NotActive,
        ),
    ensures
        ({
            let after = perform(ExchangeView::delete_token(prefix, token), backend, now).1;
            perform(ExchangeView::get_user_by_token(prefix, token), after, later).0
                == OutcomeView::Failed(AuthError::NotFound)
        }),
{
    law_delete_token(prefix, token, backend, now);
    let after = perform(ExchangeView::delete_token(prefix, token), backend, now).1;
    law_get_user_by_token(prefix, token, after, later);
    law_get_user_by_token(prefix, token, backend, later);
}

/// A user who is disabled is turned away even with a fresh token: after
/// `disable_user` and `add_token`, `get_user_by_token` fails with
/// `NotActive`; after `enable_user` and `add_token` it hands back the user,
/// who is `Active`.
pub proof fn law_status_decides_on_tokens(
    prefix: Seq<char>,
    username: Seq<char>,
    token: Seq<char>,
    backend: Backend,
    now: i64,
)
    requires
        stored_user(backend, prefix, username) is Some,
    ensures
        ({
            let disabled = perform(ExchangeView::disable_user(prefix, username), backend, now).1;
            let bound = perform(ExchangeView::add_token(prefix, username, token), disabled, now).1;
            perform(ExchangeView::get_user_by_token(prefix, token), bound, now).0
                == OutcomeView::Failed(AuthError::NotActive)
        }),
        ({
            let enabled = perform(ExchangeView::enable_user(prefix, username), backend, now).1;
            let bound = perform(ExchangeView::add_token(prefix, username, token), enabled, now).1;
            perform(ExchangeView::get_user_by_token(prefix, token), bound, now).0
                matches OutcomeView::User(user) && user.status == UserStatus::Active
        }),
{
    law_disable_user(prefix, username, backend, now);
    law_enable_user(prefix, username, backend, now);
    let disabled = perform(ExchangeView::disable_user(prefix, username), backend, now).1;
    let enabled = perform(ExchangeView::enable_user(prefix, username), backend, now).1;
    law_bound_token_resolves(prefix, username, token, disabled, now, now);
    law_bound_token_resolves(prefix, username, token, enabled, now, now);
}

} // verus!
