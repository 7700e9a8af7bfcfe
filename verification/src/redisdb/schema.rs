//! The key schema: where each piece of a user's state lives in the
//! key-value backend.
//!
//! Every key starts with the prefix that the store was made with, so that
//! several tenants can share one backend. After the prefix comes the fixed
//! segment `authorize:` and then the logical key:
//!
//! | logical key | value |
//! |---|---|
//! | `users:name:<name>` | field map, the user record |
//! | `users:id:<id>` | text, the name of the user with that id |
//! | `increment` | field map whose field `users` counts the ids given out |
//! | `users:list` | ordered set of ids, scored by creation time |
//! | `users:tokens:user:<name>` | text, the user's token |
//! | `users:tokens:token:<token>` | text, the name of the token's user |

use vstd::prelude::*;
use vstd::string::*;

use crate::text::{decimal, decimal_text, lemma_decimal_reads_back};

verus! {

/// The families of keys.
#[derive(Debug, Clone, Copy, PartialEq, Eq, Structural)]
pub enum StorageNames {
    /// The record of a user, by name.
    Name,
    /// The name of a user, by id.
    Id,
    /// The id allocator.
    Increment,
    /// The ordered set of ids.
    List,
    /// The token of a user, by name.
    UserToken,
    /// The user of a token, by token.
    TokenToken,
}

impl StorageNames {
    /// What follows the prefix in every key of the family.
    pub open spec fn text(self) -> Seq<char> {
        match self {
            StorageNames::Name => "authorize:users:name:"@,
            StorageNames::Id => "authorize:users:id:"@,
            StorageNames::Increment => "authorize:increment"@,
            StorageNames::List => "authorize:users:list"@,
            StorageNames::UserToken => "authorize:users:tokens:user:"@,
            StorageNames::TokenToken => "authorize:users:tokens:token:"@,
        }
    }

    /// What follows the prefix in every key of the family.
    pub fn as_str(&self) -> (text: &'static str)
        ensures
            text@ == self.text(),
    {
        match self {
            StorageNames::Name => "authorize:users:name:",
            StorageNames::Id => "authorize:users:id:",
            StorageNames::Increment => "authorize:increment",
            StorageNames::List => "authorize:users:list",
            StorageNames::UserToken => "authorize:users:tokens:user:",
            StorageNames::TokenToken => "authorize:users:tokens:token:",
        }
    }

    /// The family's text as an owned string.
    pub fn to_string(&self) -> (text: String)
        ensures
            text@ == self.text(),
    {
        String::from_str(self.as_str())
    }
}

/// The key of a family for one name, id or token: prefix, family, then `rest`.
pub open spec fn key_text(prefix: Seq<char>, family: StorageNames, rest: Seq<char>) -> Seq<char> {
    prefix + family.text() + rest
}

/// Keys of different families differ, whatever the prefix and whatever
/// follows the family.
pub proof fn lemma_families_differ(
    prefix: Seq<char>,
    family: StorageNames,
    rest: Seq<char>,
    other_family: StorageNames,
    other_rest: Seq<char>,
)
    requires
        family != other_family,
    ensures
        key_text(prefix, family, rest) != key_text(prefix, other_family, other_rest),
{
    reveal_strlit("authorize:users:name:");
    reveal_strlit("authorize:users:id:");
    reveal_strlit("authorize:increment");
    reveal_strlit("authorize:users:list");
    reveal_strlit("authorize:users:tokens:user:");
    reveal_strlit("authorize:users:tokens:token:");
    let a = key_text(prefix, family, rest);
    let b = key_text(prefix, other_family, other_rest);
    let at = prefix.len() as int;
    // The families part at the 11th, the 17th or the 24th character.
    assert(a[at + 10] == family.text()[10]);
    assert(b[at + 10] == other_family.text()[10]);
    assert(a[at + 16] == family.text()[16]);
    assert(b[at + 16] == other_family.text()[16]);
    if (family == StorageNames::UserToken || family == StorageNames::TokenToken) && (other_family
        == StorageNames::UserToken || other_family == StorageNames::TokenToken) {
        assert(a[at + 23] == family.text()[23]);
        assert(b[at + 23] == other_family.text()[23]);
    }
}

/// No key of one family is a key of another.
pub proof fn lemma_families_are_apart(prefix: Seq<char>)
    ensures
        forall|family: StorageNames, rest: Seq<char>, other: StorageNames, other_rest: Seq<char>|
            family != other ==> #[trigger] key_text(prefix, family, rest) != #[trigger] key_text(
                prefix,
                other,
                other_rest,
            ),
{
    assert forall|
        family: StorageNames,
        rest: Seq<char>,
        other: StorageNames,
        other_rest: Seq<char>,
    | family != other implies #[trigger] key_text(prefix, family, rest) != #[trigger] key_text(
        prefix,
        other,
        other_rest,
    ) by {
        lemma_families_differ(prefix, family, rest, other, other_rest);
    }
}

/// Two keys of one family are the same key only for the same name, id or
/// token.
pub proof fn lemma_keys_of_one_family(
    prefix: Seq<char>,
    family: StorageNames,
    rest: Seq<char>,
    other_rest: Seq<char>,
)
    requires
        key_text(prefix, family, rest) == key_text(prefix, family, other_rest),
    ensures
        rest == other_rest,
{
    let a = key_text(prefix, family, rest);
    let b = key_text(prefix, family, other_rest);
    let at = prefix.len() + family.text().len();
    assert(a.len() == at + rest.len());
    assert(b.len() == at + other_rest.len());
    assert forall|i: int| 0 <= i < rest.len() implies rest[i] == other_rest[i] by {
        assert(a[at + i] == rest[i]);
        assert(b[at + i] == other_rest[i]);
    }
    assert(rest =~= other_rest);
}

/// Two ids have the same key only if they are the same id.
pub proof fn lemma_id_keys_differ(prefix: Seq<char>, id: i32, other: i32)
    requires
        id != other,
    ensures
        id_key_text(prefix, id as int) != id_key_text(prefix, other as int),
{
    if id_key_text(prefix, id as int) == id_key_text(prefix, other as int) {
        lemma_keys_of_one_family(
            prefix,
            StorageNames::Id,
            decimal_text(id as int),
            decimal_text(other as int),
        );
        lemma_decimal_reads_back(id as int, i32::MIN as int, i32::MAX as int);
        lemma_decimal_reads_back(other as int, i32::MIN as int, i32::MAX as int);
    }
}

/// The key under which the name of user `id` is stored.
pub open spec fn id_key_text(prefix: Seq<char>, id: int) -> Seq<char> {
    key_text(prefix, StorageNames::Id, decimal_text(id))
}

/// Builds the key of a family for one name or token.
pub fn key(prefix: &str, family: StorageNames, rest: &str) -> (key: String)
    ensures
        key@ == key_text(prefix@, family, rest@),
{
    let mut key = String::from_str(prefix);
    key.append(family.as_str());
    key.append(rest);
    key
}

/// Builds the key of a family that has a single key (the allocator, the list).
pub fn single_key(prefix: &str, family: StorageNames) -> (key: String)
    ensures
        key@ == key_text(prefix@, family, Seq::empty()),
{
    let mut key = String::from_str(prefix);
    key.append(family.as_str());
    assert(key@ =~= key_text(prefix@, family, Seq::empty()));
    key
}

/// Builds the key under which the name of user `id` is stored.
pub fn id_key(prefix: &str, id: i32) -> (key: String)
    ensures
        key@ == id_key_text(prefix@, id as int),
{
    let digits = decimal(id as i64);
    key(prefix, StorageNames::Id, digits.as_str())
}

} // verus!
