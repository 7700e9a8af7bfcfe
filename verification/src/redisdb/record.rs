//! The stored form of a user: a field map with the fields `id`, `name`,
//! `email`, `password`, `status`, `role` and `attributes`.

use std::collections::HashMap;
use vstd::prelude::*;
use vstd::string::*;
use vstd::utf8::encode_utf8;

use crate::account::{PrivateUser, PrivateUserView, Role, RoleView, UserStatus};
use crate::text::{decimal, decimal_text, parse_integer, parsed_integer, same_text};

verus! {

/// A field map as a sequence of field and value.
pub type FieldsView = Seq<(Seq<char>, Seq<char>)>;

#[verifier::external_type_specification]
#[verifier::external_body]
pub struct ExJsonError(serde_json::Error);

/// The JSON object that `serde_json` writes for a map of attributes, or
/// `None` where it writes none.
pub uninterp spec fn attributes_json(attributes: Map<String, String>) -> Option<Seq<char>>;

/// The map of attributes that `serde_json` reads from a JSON text, or `None`
/// where the text is no JSON object of strings.
pub uninterp spec fn parsed_attributes(json: Seq<char>) -> Option<Map<String, String>>;

/// `serde_json::to_value` on the map, then the value's compact rendering
/// (`to_string`).
///
/// Trusted: whether a text comes back, and which, depends on the map alone;
/// and `serde_json::from_str` reads that text back as the map that was
/// written.
#[verifier::external_body]
pub(crate) fn attributes_to_json(attributes: &HashMap<String, String>) -> (json: Result<
    String,
    serde_json::Error,
>)
    ensures
        match json {
            Ok(text) => attributes_json(attributes@) == Some(text@) && parsed_attributes(text@)
                == Some(attributes@),
            Err(_) => attributes_json(attributes@) is None,
        },
{
    let value = serde_json::to_value(attributes)?;
    Ok(value.to_string())
}

/// `serde_json::from_str` at the type `HashMap<String, String>`.
///
/// Trusted: whether a map comes back, and which, depends on the text alone.
#[verifier::external_body]
pub(crate) fn attributes_from_json(json: &str) -> (attributes: Result<
    HashMap<String, String>,
    serde_json::Error,
>)
    ensures
        match attributes {
            Ok(map) => parsed_attributes(json@) == Some(map@),
            Err(_) => parsed_attributes(json@) is None,
        },
{
    serde_json::from_str::<HashMap<String, String>>(json)
}

/// The value of the first field called `name`.
pub open spec fn field_of(fields: FieldsView, name: Seq<char>) -> Option<Seq<char>>
    decreases fields.len(),
{
    if fields.len() == 0 {
        None
    } else if fields[0].0 == name {
        Some(fields[0].1)
    } else {
        field_of(fields.drop_first(), name)
    }
}

/// The value of the field called `name`, or `fallback` where there is none.
pub open spec fn field_or(fields: FieldsView, name: Seq<char>, fallback: Seq<char>) -> Seq<char> {
    match field_of(fields, name) {
        Some(value) => value,
        None => fallback,
    }
}

/// The id that a stored text stands for; 0 where it is no 32-bit number.
pub open spec fn id_of_text(text: Seq<char>) -> int {
    match parsed_integer(encode_utf8(text), true, i32::MIN as int, i32::MAX as int) {
        Some(id) => id,
        None => 0,
    }
}

/// The status that a stored text stands for: the status of its code, and
/// `Unknown` where it is no number from 0 to 255.
pub open spec fn status_of_text(text: Seq<char>) -> UserStatus {
    match parsed_integer(encode_utf8(text), false, 0, 255) {
        Some(code) => UserStatus::of_code(code),
        None => UserStatus::Unknown,
    }
}

/// The attributes that a stored text stands for; none where it is no JSON
/// object of strings.
pub open spec fn attributes_of_text(text: Seq<char>) -> Map<String, String> {
    match parsed_attributes(text) {
        Some(attributes) => attributes,
        None => Map::empty(),
    }
}

/// The user that a field map stands for. An empty map is no user. In any
/// other map a missing field takes its default: the id 0, the status
/// `Created`, the role `unknown`, no attributes, and the text `default` for
/// the rest. A value that is there and cannot be read gives the id 0, the
/// status `Unknown`, or no attributes.
pub open spec fn decoded_user(fields: FieldsView) -> Option<PrivateUserView> {
    if fields.len() == 0 {
        None
    } else {
        Some(
            PrivateUserView {
                id: id_of_text(field_or(fields, "id"@, "0"@)),
                name: field_or(fields, "name"@, "default"@),
                email: field_or(fields, "email"@, "default"@),
                password: field_or(fields, "password"@, "default"@),
                status: status_of_text(field_or(fields, "status"@, "0"@)),
                role: RoleView::of_text(field_or(fields, "role"@, "unknown"@)),
                attributes: attributes_of_text(field_or(fields, "attributes"@, "{}"@)),
            },
        )
    }
}

/// The field map written for a new user: status `Created` (code 0), role
/// `Users`, the password as a digest and the attributes as JSON.
pub open spec fn new_record(
    id: int,
    name: Seq<char>,
    email: Seq<char>,
    digest: Seq<char>,
    json: Seq<char>,
) -> FieldsView {
    seq![
        ("id"@, decimal_text(id)),
        ("name"@, name),
        ("email"@, email),
        ("status"@, "0"@),
        ("password"@, digest),
        ("role"@, RoleView::Users.text()),
        ("attributes"@, json),
    ]
}

/// Looks a field up by name; `fallback` where the map has none of that name.
pub fn field_value(fields: &Vec<(String, String)>, name: &str, fallback: &str) -> (value: String)
    ensures
        value@ == field_or(fields.deep_view(), name@, fallback@),
{
    let mut i: usize = 0;
    assert(fields.deep_view().skip(0) =~= fields.deep_view());
    while i < fields.len()
        invariant
            i <= fields.len(),
            field_of(fields.deep_view(), name@) == field_of(
                fields.deep_view().skip(i as int),
                name@,
            ),
        decreases fields.len() - i,
    {
        let ghost rest = fields.deep_view().skip(i as int);
        assert(rest[0] == fields.deep_view()[i as int]);
        assert(rest.drop_first() =~= fields.deep_view().skip(i + 1));
        if same_text(fields[i].0.as_str(), name) {
            return fields[i].1.clone();
        }
        i += 1;
    }
    String::from_str(fallback)
}

/// Reads the user that a field map stands for.
pub fn decode_user(fields: &Vec<(String, String)>) -> (user: Option<PrivateUser>)
    ensures
        match user {
            Some(u) => decoded_user(fields.deep_view()) == Some(u@),
            None => decoded_user(fields.deep_view()) is None,
        },
{
    if fields.len() == 0 {
        return None;
    }
    let id_text = field_value(fields, "id", "0");
    let id: i32 = match parse_integer(id_text.as_str(), true, i32::MIN as i64, i32::MAX as i64) {
        Some(n) => n as i32,
        None => 0,
    };
    let status_text = field_value(fields, "status", "0");
    let status = match parse_integer(status_text.as_str(), false, 0, 255) {
        Some(code) => UserStatus::from_code(code as u8),
        None => UserStatus::Unknown,
    };
    let role_text = field_value(fields, "role", "unknown");
    let role = match Role::from_str(role_text.as_str()) {
        Ok(role) => role,
        Err(_) => Role::Custom(role_text),
    };
    let attributes_text = field_value(fields, "attributes", "{}");
    let attributes = match attributes_from_json(attributes_text.as_str()) {
        Ok(map) => map,
        Err(_) => HashMap::new(),
    };
    Some(
        PrivateUser::new(
            id,
            field_value(fields, "name", "default"),
            field_value(fields, "email", "default"),
            field_value(fields, "password", "default"),
            status,
            role,
            attributes,
        ),
    )
}

/// Builds the field map written for a new user.
pub fn encode_new_user(id: i32, name: &str, email: &str, digest: String, json: String) -> (fields:
    Vec<(String, String)>)
    ensures
        fields.deep_view() == new_record(id as int, name@, email@, digest@, json@),
{
    let mut fields: Vec<(String, String)> = Vec::new();
    fields.push((String::from_str("id"), decimal(id as i64)));
    fields.push((String::from_str("name"), String::from_str(name)));
    fields.push((String::from_str("email"), String::from_str(email)));
    fields.push((String::from_str("status"), String::from_str("0")));
    fields.push((String::from_str("password"), digest));
    fields.push((String::from_str("role"), Role::Users.to_string()));
    fields.push((String::from_str("attributes"), json));
    assert(fields.deep_view() =~= new_record(id as int, name@, email@, digest@, json@));
    fields
}

} // verus!
