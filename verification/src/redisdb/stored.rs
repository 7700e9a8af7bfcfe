//! What a backend of the model holds for the store: users by name, names by
//! id, tokens and their owners; and how records read after they are written.

use vstd::prelude::*;
use vstd::string::*;
use vstd::utf8::{encode_utf8, is_ascii_chars_encode_utf8};

use crate::account::{PrivateUserView, RoleView, UserStatus};
use crate::redisdb::command::{CommandView, EventView, TOKEN_TTL};
use crate::redisdb::model::{execute, placed, put, put_all, ranks_before, Backend, Value};
use crate::redisdb::record::{
    attributes_json, attributes_of_text, decoded_user, field_of, id_of_text, new_record,
    parsed_attributes, status_of_text, FieldsView,
};
use crate::redisdb::schema::{id_key_text, key_text, lemma_families_differ, StorageNames};
use crate::text::{decimal_text, digits_value, lemma_decimal_reads_back};

verus! {

/// The user stored under `name`, if the backend holds a record of that name.
pub open spec fn stored_user(backend: Backend, prefix: Seq<char>, name: Seq<char>) -> Option<
    PrivateUserView,
> {
    match backend.fields_at(key_text(prefix, StorageNames::Name, name)) {
        Some(fields) => decoded_user(fields),
        None => None,
    }
}

/// The name stored under an id, if the backend holds one.
pub open spec fn stored_name(backend: Backend, prefix: Seq<char>, id: i32) -> Option<Seq<char>> {
    backend.text_at(id_key_text(prefix, id as int))
}

/// The name that a token is bound to, if the backend holds the binding.
pub open spec fn token_owner(backend: Backend, prefix: Seq<char>, token: Seq<char>) -> Option<
    Seq<char>,
> {
    backend.text_at(key_text(prefix, StorageNames::TokenToken, token))
}

/// The backend with `token` bound to the user called `name`: each is stored
/// under the other, and both keys live for an hour.
pub open spec fn bound(
    backend: Backend,
    prefix: Seq<char>,
    name: Seq<char>,
    token: Seq<char>,
) -> Backend {
    let by_name = key_text(prefix, StorageNames::UserToken, name);
    let by_token = key_text(prefix, StorageNames::TokenToken, token);
    Backend {
        values: backend.values.insert(by_name, Value::Text(token)).insert(
            by_token,
            Value::Text(name),
        ),
        lifetimes: backend.lifetimes.insert(by_name, TOKEN_TTL).insert(by_token, TOKEN_TTL),
    }
}

/// The backend without the binding of `token` to the user called `name`.
pub open spec fn unbound(
    backend: Backend,
    prefix: Seq<char>,
    name: Seq<char>,
    token: Seq<char>,
) -> Backend {
    let by_name = key_text(prefix, StorageNames::UserToken, name);
    let by_token = key_text(prefix, StorageNames::TokenToken, token);
    Backend {
        values: backend.values.remove(by_name).remove(by_token),
        lifetimes: backend.lifetimes.remove(by_name).remove(by_token),
    }
}

/// The record under `name` with one field set.
pub open spec fn with_field(
    backend: Backend,
    prefix: Seq<char>,
    name: Seq<char>,
    field: Seq<char>,
    value: Seq<char>,
) -> Backend {
    let key = key_text(prefix, StorageNames::Name, name);
    match backend.fields_at(key) {
        Some(fields) => backend.with(key, Value::Fields(put(fields, field, value))),
        None => backend,
    }
}

/// The id that the next registration is given: one more than the counter
/// of the allocator, where the allocator can be read and the id fits.
pub open spec fn next_id(backend: Backend, prefix: Seq<char>) -> Option<i32> {
    match execute(
        backend,
        CommandView::Increment {
            key: key_text(prefix, StorageNames::Increment, Seq::empty()),
            field: "users"@,
            delta: 1,
        },
    ).1 {
        EventView::Number(id) => Some(id),
        _ => None,
    }
}

/// Whether the JSON codec reads the attributes back as it writes them. The
/// codec is trusted to do so for every map that it takes.
pub open spec fn reads_back(attributes: Map<String, String>) -> bool {
    attributes_json(attributes) matches Some(json) ==> parsed_attributes(json) == Some(attributes)
}

/// The names of the seven fields of a record differ: by their lengths, and
/// `name` and `role`, which are as long as each other, by their first
/// letters.
pub proof fn lemma_field_names()
    ensures
        "id"@.len() == 2,
        "name"@.len() == 4,
        "email"@.len() == 5,
        "status"@.len() == 6,
        "password"@.len() == 8,
        "role"@.len() == 4,
        "attributes"@.len() == 10,
        "name"@[0] == 'n',
        "role"@[0] == 'r',
{
    reveal_strlit("id");
    reveal_strlit("name");
    reveal_strlit("email");
    reveal_strlit("status");
    reveal_strlit("password");
    reveal_strlit("role");
    reveal_strlit("attributes");
}

/// After `put`, the field set has the value given, and every other field
/// the value it had.
pub proof fn lemma_put_field(
    fields: FieldsView,
    name: Seq<char>,
    value: Seq<char>,
    other: Seq<char>,
)
    ensures
        field_of(put(fields, name, value), other) == (if other == name {
            Some(value)
        } else {
            field_of(fields, other)
        }),
        put(fields, name, value).len() > 0,
    decreases fields.len(),
{
    let after = put(fields, name, value);
    if fields.len() == 0 {
        assert(after[0] == (name, value));
        assert(after.drop_first() =~= fields);
    } else if fields[0].0 == name {
        assert(after[0] == (name, value));
        assert(after.drop_first() =~= fields.drop_first());
    } else {
        lemma_put_field(fields.drop_first(), name, value, other);
        assert(after[0] == fields[0]);
        assert(after.drop_first() =~= put(fields.drop_first(), name, value));
    }
}

/// After `put`, the field set has the value given, and every other field
/// the value it had.
pub proof fn lemma_put(fields: FieldsView, name: Seq<char>, value: Seq<char>)
    ensures
        forall|other: Seq<char>| #[trigger]
            field_of(put(fields, name, value), other) == (if other == name {
                Some(value)
            } else {
                field_of(fields, other)
            }),
        put(fields, name, value).len() > 0,
{
    assert forall|other: Seq<char>| #[trigger]
        field_of(put(fields, name, value), other) == (if other == name {
            Some(value)
        } else {
            field_of(fields, other)
        }) by {
        lemma_put_field(fields, name, value, other);
    }
    lemma_put_field(fields, name, value, name);
}

/// The text `0` stands for the status `Created`.
pub proof fn lemma_status_zero()
    ensures
        status_of_text("0"@) == UserStatus::Created,
{
    reveal_strlit("0");
    is_ascii_chars_encode_utf8("0"@);
    let bytes = encode_utf8("0"@);
    assert(bytes.len() == 1 && bytes[0] == 48);
    assert(digits_value(bytes.drop_last()) == 0);
}

/// The texts `1` and `2` stand for the statuses `Active` and `Disabled`.
pub proof fn lemma_status_codes()
    ensures
        status_of_text("1"@) == UserStatus::Active,
        status_of_text("2"@) == UserStatus::Disabled,
{
    reveal_strlit("1");
    reveal_strlit("2");
    is_ascii_chars_encode_utf8("1"@);
    is_ascii_chars_encode_utf8("2"@);
    let one = encode_utf8("1"@);
    let two = encode_utf8("2"@);
    assert(one.len() == 1 && one[0] == 49);
    assert(two.len() == 1 && two[0] == 50);
    assert(digits_value(one.drop_last()) == 0);
    assert(digits_value(two.drop_last()) == 0);
}

/// Setting the status of a record changes its status, and nothing else.
pub proof fn lemma_status_written(fields: FieldsView, value: Seq<char>)
    requires
        decoded_user(fields) is Some,
    ensures
        decoded_user(put(fields, "status"@, value)) == Some(
            PrivateUserView { status: status_of_text(value), ..decoded_user(fields)->0 },
        ),
{
    lemma_field_names();
    lemma_put(fields, "status"@, value);
}

/// Setting the role of a record changes its role, and nothing else.
pub proof fn lemma_role_written(fields: FieldsView, value: Seq<char>)
    requires
        decoded_user(fields) is Some,
    ensures
        decoded_user(put(fields, "role"@, value)) == Some(
            PrivateUserView { role: RoleView::of_text(value), ..decoded_user(fields)->0 },
        ),
{
    lemma_field_names();
    lemma_put(fields, "role"@, value);
}

/// A record written for a new user reads back as that user: the name, the
/// e-mail address and the digest as given, the status `Created`, the role
/// `Users`, and the id and the attributes as their texts read.
pub proof fn lemma_new_record_decodes(
    fields: FieldsView,
    id: int,
    name: Seq<char>,
    email: Seq<char>,
    digest: Seq<char>,
    json: Seq<char>,
)
    ensures
        decoded_user(put_all(fields, new_record(id, name, email, digest, json))) == Some(
            PrivateUserView {
                id: id_of_text(decimal_text(id)),
                name,
                email,
                password: digest,
                status: UserStatus::Created,
                role: RoleView::Users,
                attributes: attributes_of_text(json),
            },
        ),
{
    lemma_field_names();
    let items = new_record(id, name, email, digest, json);
    let f1 = put(fields, "id"@, decimal_text(id));
    let f2 = put(f1, "name"@, name);
    let f3 = put(f2, "email"@, email);
    let f4 = put(f3, "status"@, "0"@);
    let f5 = put(f4, "password"@, digest);
    let f6 = put(f5, "role"@, RoleView::Users.text());
    let f7 = put(f6, "attributes"@, json);
    assert(put_all(fields, items) == f7) by {
        reveal_with_fuel(put_all, 8);
        assert(items.drop_first() =~= items.skip(1));
        assert(items.skip(1).drop_first() =~= items.skip(2));
        assert(items.skip(2).drop_first() =~= items.skip(3));
        assert(items.skip(3).drop_first() =~= items.skip(4));
        assert(items.skip(4).drop_first() =~= items.skip(5));
        assert(items.skip(5).drop_first() =~= items.skip(6));
        assert(items.skip(6).drop_first() =~= items.skip(7));
    }
    lemma_put(fields, "id"@, decimal_text(id));
    lemma_put(f1, "name"@, name);
    lemma_put(f2, "email"@, email);
    lemma_put(f3, "status"@, "0"@);
    lemma_put(f4, "password"@, digest);
    lemma_put(f5, "role"@, RoleView::Users.text());
    lemma_put(f6, "attributes"@, json);
    lemma_status_zero();
    assert(field_of(f7, "id"@) == Some(decimal_text(id)));
    assert(field_of(f7, "name"@) == Some(name));
    assert(field_of(f7, "email"@) == Some(email));
    assert(field_of(f7, "status"@) == Some("0"@));
    assert(field_of(f7, "password"@) == Some(digest));
    assert(field_of(f7, "role"@) == Some(RoleView::Users.text()));
    assert(field_of(f7, "attributes"@) == Some(json));
}

/// Whatever record a new user's record is written over, and whatever id and
/// attributes it is written with, it reads back as that user.
pub proof fn lemma_new_records_decode(name: Seq<char>, email: Seq<char>, digest: Seq<char>)
    ensures
        forall|fields: FieldsView, id: int, json: Seq<char>|
            (#[trigger] decoded_user(put_all(fields, new_record(id, name, email, digest, json))))
                == Some(
                PrivateUserView {
                    id: id_of_text(decimal_text(id)),
                    name,
                    email,
                    password: digest,
                    status: UserStatus::Created,
                    role: RoleView::Users,
                    attributes: attributes_of_text(json),
                },
            ),
{
    assert forall|fields: FieldsView, id: int, json: Seq<char>|
        (#[trigger] decoded_user(put_all(fields, new_record(id, name, email, digest, json))))
            == Some(
            PrivateUserView {
                id: id_of_text(decimal_text(id)),
                name,
                email,
                password: digest,
                status: UserStatus::Created,
                role: RoleView::Users,
                attributes: attributes_of_text(json),
            },
        ) by {
        lemma_new_record_decodes(fields, id, name, email, digest, json);
    }
}

/// A record written for a new user, read as it is, is that user.
pub proof fn lemma_new_record_reads_back(
    id: i32,
    name: Seq<char>,
    email: Seq<char>,
    digest: Seq<char>,
    json: Seq<char>,
)
    ensures
        decoded_user(new_record(id as int, name, email, digest, json)) == Some(
            PrivateUserView {
                id: id as int,
                name,
                email,
                password: digest,
                status: UserStatus::Created,
                role: RoleView::Users,
                attributes: attributes_of_text(json),
            },
        ),
{
    let items = new_record(id as int, name, email, digest, json);
    let none = Seq::<(Seq<char>, Seq<char>)>::empty();
    lemma_new_record_decodes(none, id as int, name, email, digest, json);
    lemma_id_reads_back(id);
    assert(put_all(none, items) =~= items) by {
        lemma_field_names();
        reveal_with_fuel(put_all, 8);
        reveal_with_fuel(put, 8);
        assert(items.drop_first() =~= items.skip(1));
        assert(items.skip(1).drop_first() =~= items.skip(2));
        assert(items.skip(2).drop_first() =~= items.skip(3));
        assert(items.skip(3).drop_first() =~= items.skip(4));
        assert(items.skip(4).drop_first() =~= items.skip(5));
        assert(items.skip(5).drop_first() =~= items.skip(6));
        assert(items.skip(6).drop_first() =~= items.skip(7));
    }
}

/// An id written in decimal reads back as the id.
pub proof fn lemma_id_reads_back(id: i32)
    ensures
        id_of_text(decimal_text(id as int)) == id,
{
    lemma_decimal_reads_back(id as int, i32::MIN as int, i32::MAX as int);
}

/// An ordered set holds the entry placed in it.
pub proof fn lemma_placed_holds(ranking: Seq<(i64, i32)>, entry: (i64, i32))
    ensures
        placed(ranking, entry).contains(entry),
    decreases ranking.len(),
{
    let after = placed(ranking, entry);
    if ranking.len() == 0 {
        assert(after[0] == entry);
    } else if ranks_before(entry, ranking[0]) {
        assert(after[0] == entry);
    } else {
        lemma_placed_holds(ranking.drop_first(), entry);
        let tail = placed(ranking.drop_first(), entry);
        let k = choose|k: int| 0 <= k < tail.len() && tail[k] == entry;
        assert(after[k + 1] == entry);
    }
}

/// A token binding touches no user record.
pub proof fn lemma_binding_keeps_records(
    backend: Backend,
    prefix: Seq<char>,
    name: Seq<char>,
    token: Seq<char>,
    other: Seq<char>,
)
    ensures
        stored_user(bound(backend, prefix, name, token), prefix, other) == stored_user(
            backend,
            prefix,
            other,
        ),
        stored_user(unbound(backend, prefix, name, token), prefix, other) == stored_user(
            backend,
            prefix,
            other,
        ),
{
    lemma_families_differ(prefix, StorageNames::Name, other, StorageNames::UserToken, name);
    lemma_families_differ(prefix, StorageNames::Name, other, StorageNames::TokenToken, token);
}

} // verus!
