//! The invariant of the store on the model of the backend, and what
//! follows from it for listings: every user is listed once, under its own
//! id; a new user is listed last; and a deletion takes one user out and
//! leaves the others as they were.

use vstd::prelude::*;

use crate::account::UserView;
use crate::entity::Call;
use crate::error::AuthError;
use crate::redisdb::command::{CommandView, OutcomeView};
use crate::redisdb::exchange::{password_digest, ExchangeView};
use crate::redisdb::ids::{allocation, ids_given, lemma_command_keeps_count};
use crate::redisdb::laws::{
    law_add_token, law_add_user_role, law_add_user_stores, law_add_user_succeeds, law_credentials,
    law_delete_token, law_disable_user, law_enable_user, law_get_token, law_get_user_by_id,
    law_get_user_by_name, law_get_user_by_token,
};
use crate::redisdb::listing::{
    deleted, erased, found, law_delete_user, law_list_users, lemma_without, list_key, resolved,
};
use crate::redisdb::model::{
    execute, members, perform, placed, ranked, ranks_before, run, without, Backend,
};
use crate::redisdb::record::{attributes_json, new_record};
use crate::redisdb::schema::{
    id_key_text, key_text, lemma_families_are_apart, lemma_id_keys_differ,
    lemma_keys_of_one_family, StorageNames,
};
use crate::redisdb::stored::{
    bound, lemma_id_reads_back, lemma_new_records_decode, next_id, stored_name, stored_user,
    token_owner, unbound, with_field,
};

verus! {

/// Whether no member occurs twice.
pub open spec fn distinct_members(ranking: Seq<(i64, i32)>) -> bool {
    forall|i: int, j: int| 0 <= i < j < ranking.len() ==> ranking[i].1 != ranking[j].1
}

/// The ordered set of ids; empty where the key holds something else.
pub open spec fn ranking(backend: Backend, prefix: Seq<char>) -> Seq<(i64, i32)> {
    match backend.ranking_at(list_key(prefix)) {
        Some(ranking) => ranking,
        None => Seq::empty(),
    }
}

/// Whether the name stored under `id`, if there is one, is the name of a
/// user with that id, and the allocator has counted as far as `id`.
pub open spec fn indexed(backend: Backend, prefix: Seq<char>, id: i32) -> bool {
    match stored_name(backend, prefix, id) {
        Some(name) => match stored_user(backend, prefix, name) {
            Some(user) => user.id == id && ids_given(backend, prefix) is Some && id <= ids_given(
                backend,
                prefix,
            )->0,
            None => false,
        },
        None => true,
    }
}

/// The invariant of the store: the allocator is a counter; the ordered set
/// holds no id twice, and only ids under which a name is stored; and every
/// name stored under an id is the name of a user with that id, which the
/// allocator has given out. It holds of the empty backend.
pub open spec fn consistent(backend: Backend, prefix: Seq<char>) -> bool {
    &&& backend.ranking_at(list_key(prefix)) is Some
    &&& ids_given(backend, prefix) is Some
    &&& distinct_members(ranking(backend, prefix))
    &&& forall|i: int|
        0 <= i < ranking(backend, prefix).len() ==> stored_name(
            backend,
            prefix,
            #[trigger] ranking(backend, prefix)[i].1,
        ) is Some
    &&& forall|id: i32| #[trigger] indexed(backend, prefix, id)
}

/// The users that the ordered set lists, in the order of their ranks.
pub open spec fn everyone(backend: Backend, prefix: Seq<char>) -> Seq<UserView> {
    resolved(backend, prefix, members(ranking(backend, prefix)))
}

/// The ids of a sequence of users.
pub open spec fn ids_of(users: Seq<UserView>) -> Seq<int> {
    users.map_values(|user: UserView| user.id)
}

/// The empty backend is consistent.
pub proof fn law_empty_backend_is_consistent(prefix: Seq<char>)
    ensures
        consistent(Backend::empty(), prefix),
{
    let backend = Backend::empty();
    assert forall|id: i32| #[trigger] indexed(backend, prefix, id) by {}
}

/// A listing of every rank hands back everyone: `list_users(0, count)`,
/// where `count` is -1 or reaches the last rank.
pub proof fn law_list_everyone(prefix: Seq<char>, count: isize, backend: Backend, now: i64)
    requires
        backend.ranking_at(list_key(prefix)) is Some,
        count == -1 || count >= ranking(backend, prefix).len() - 1,
    ensures
        perform(ExchangeView::list_users(prefix, 0, count), backend, now) == (
            OutcomeView::Users(everyone(backend, prefix)),
            backend,
        ),
{
    law_list_users(prefix, 0, count, backend, now);
    let all = ranking(backend, prefix);
    assert(ranked(all, 0, count as int) =~= all);
}

/// What users resolve to in two backends that agree on them.
proof fn lemma_resolved_alike(before: Backend, after: Backend, prefix: Seq<char>, ids: Seq<i32>)
    requires
        forall|i: int| 0 <= i < ids.len() ==> found(after, prefix, #[trigger] ids[i]) == found(
            before,
            prefix,
            ids[i],
        ),
    ensures
        resolved(after, prefix, ids) == resolved(before, prefix, ids),
    decreases ids.len(),
{
    if ids.len() > 0 {
        let rest = ids.drop_first();
        assert forall|i: int| 0 <= i < rest.len() implies found(after, prefix, #[trigger] rest[i])
            == found(before, prefix, rest[i]) by {
            assert(rest[i] == ids[i + 1]);
        }
        lemma_resolved_alike(before, after, prefix, rest);
        assert(ids[0] == ids[0]);
    }
}

/// In a consistent store every id listed resolves to one user, and the user
/// has that id: the listing of everyone has the ids of the ordered set, in
/// the order of their ranks, and so no user twice.
pub proof fn law_everyone_is_listed_once(backend: Backend, prefix: Seq<char>)
    requires
        consistent(backend, prefix),
    ensures
        ids_of(everyone(backend, prefix)) == members(ranking(backend, prefix)).map_values(
            |id: i32| id as int,
        ),
        everyone(backend, prefix).len() == ranking(backend, prefix).len(),
        distinct_members(ranking(backend, prefix)),
{
    let all = ranking(backend, prefix);
    lemma_resolved_ids(backend, prefix, members(all));
}

/// Ids under each of which a user of that id is stored resolve to those
/// users.
proof fn lemma_resolved_ids(backend: Backend, prefix: Seq<char>, ids: Seq<i32>)
    requires
        forall|id: i32| #[trigger] indexed(backend, prefix, id),
        forall|i: int| 0 <= i < ids.len() ==> stored_name(backend, prefix, #[trigger] ids[i])
            is Some,
    ensures
        ids_of(resolved(backend, prefix, ids)) == ids.map_values(|id: i32| id as int),
        resolved(backend, prefix, ids).len() == ids.len(),
    decreases ids.len(),
{
    if ids.len() > 0 {
        let rest = ids.drop_first();
        assert forall|i: int| 0 <= i < rest.len() implies stored_name(
            backend,
            prefix,
            #[trigger] rest[i],
        ) is Some by {
            assert(rest[i] == ids[i + 1]);
        }
        lemma_resolved_ids(backend, prefix, rest);
        assert(stored_name(backend, prefix, ids[0]) is Some);
        assert(indexed(backend, prefix, ids[0]));
        let first = found(backend, prefix, ids[0]);
        assert(first.len() == 1 && first[0].id == ids[0]);
        let users = resolved(backend, prefix, ids);
        assert(users == first + resolved(backend, prefix, rest));
        assert(ids_of(users) =~= ids.map_values(|id: i32| id as int)) by {
            assert forall|i: int| 0 <= i < users.len() implies ids_of(users)[i] == ids[i] by {
                if i > 0 {
                    assert(users[i] == resolved(backend, prefix, rest)[i - 1]);
                    assert(ids_of(resolved(backend, prefix, rest))[i - 1] == rest[i - 1]);
                }
            }
        }
    } else {
        assert(ids_of(resolved(backend, prefix, ids)) =~= ids.map_values(|id: i32| id as int));
    }
}

/// The users without those of the id `id`, in their order.
pub open spec fn except(users: Seq<UserView>, id: int) -> Seq<UserView>
    decreases users.len(),
{
    if users.len() == 0 {
        users
    } else if users[0].id == id {
        except(users.drop_first(), id)
    } else {
        seq![users[0]] + except(users.drop_first(), id)
    }
}

/// An ordered set without a member holds no member twice if it held none
/// twice before.
proof fn lemma_without_distinct(all: Seq<(i64, i32)>, member: i32)
    requires
        distinct_members(all),
    ensures
        distinct_members(without(all, member)),
    decreases all.len(),
{
    if all.len() > 0 {
        let rest = all.drop_first();
        assert(distinct_members(rest)) by {
            assert forall|i: int, j: int| 0 <= i < j < rest.len() implies rest[i].1
                != rest[j].1 by {
                assert(rest[i] == all[i + 1] && rest[j] == all[j + 1]);
            }
        }
        lemma_without_distinct(rest, member);
        lemma_without(rest, member);
        let tail = without(rest, member);
        if all[0].1 != member {
            let after = without(all, member);
            assert forall|i: int, j: int| 0 <= i < j < after.len() implies after[i].1
                != after[j].1 by {
                assert(after[j] == tail[j - 1]);
                if i > 0 {
                    assert(after[i] == tail[i - 1]);
                } else {
                    assert(tail.contains(tail[j - 1]));
                    let m = choose|m: int| 0 <= m < rest.len() && rest[m] == tail[j - 1];
                    assert(all[m + 1] == rest[m]);
                }
            }
        }
    }
}

/// Resolving the ids of an ordered set without a member gives the users of
/// the whole set without the user of that member.
proof fn lemma_resolved_without(
    backend: Backend,
    prefix: Seq<char>,
    all: Seq<(i64, i32)>,
    member: i32,
)
    requires
        forall|id: i32| #[trigger] indexed(backend, prefix, id),
        forall|i: int| 0 <= i < all.len() ==> stored_name(backend, prefix, #[trigger] all[i].1)
            is Some,
    ensures
        resolved(backend, prefix, members(without(all, member))) == except(
            resolved(backend, prefix, members(all)),
            member as int,
        ),
    decreases all.len(),
{
    if all.len() > 0 {
        let rest = all.drop_first();
        assert forall|i: int| 0 <= i < rest.len() implies stored_name(
            backend,
            prefix,
            #[trigger] rest[i].1,
        ) is Some by {
            assert(rest[i] == all[i + 1]);
        }
        lemma_resolved_without(backend, prefix, rest, member);
        assert(stored_name(backend, prefix, all[0].1) is Some);
        assert(indexed(backend, prefix, all[0].1));
        let first = found(backend, prefix, all[0].1);
        assert(first.len() == 1 && first[0].id == all[0].1);
        assert(members(all).drop_first() =~= members(rest));
        let users = resolved(backend, prefix, members(all));
        let others = resolved(backend, prefix, members(rest));
        assert(users == first + others);
        assert(users.drop_first() =~= others);
        assert(users[0] == first[0]);
        if all[0].1 != member {
            let kept = without(rest, member);
            assert(members(without(all, member)) =~= seq![all[0].1] + members(kept));
            assert(members(without(all, member)).drop_first() =~= members(kept));
            assert(first =~= seq![first[0]]);
        }
    } else {
        assert(members(without(all, member)) =~= members(all));
    }
}

/// Deleting a user takes that user out of the listing and leaves the others
/// as they were, in their order; and the store stays consistent. After
/// `delete_user(id)` the ordered set is what it was without `id`, and
/// everyone listed is everyone listed before except the user of `id`.
pub proof fn law_deletion_keeps_the_others(
    prefix: Seq<char>,
    user_id: i32,
    backend: Backend,
    now: i64,
)
    requires
        consistent(backend, prefix),
    ensures
        ({
            let (outcome, after) = perform(
                ExchangeView::delete_user(prefix, user_id),
                backend,
                now,
            );
            &&& outcome == OutcomeView::Done
            &&& consistent(after, prefix)
            &&& ranking(after, prefix) == without(ranking(backend, prefix), user_id)
            &&& everyone(after, prefix) == except(everyone(backend, prefix), user_id as int)
        }),
{
    law_delete_user(prefix, user_id, backend, now);
    let after = deleted(backend, prefix, user_id);
    let all = ranking(backend, prefix);
    let kept = without(all, user_id);
    let list = list_key(prefix);
    let index = id_key_text(prefix, user_id as int);
    let gone = stored_name(backend, prefix, user_id);
    let unnamed = match gone {
        Some(name) => erased(backend, key_text(prefix, StorageNames::Name, name)),
        None => backend,
    };
    let unindexed = erased(unnamed, index);
    lemma_families_are_apart(prefix);
    assert(unindexed.ranking_at(list) == Some(all));
    lemma_without(all, user_id);
    lemma_without_distinct(all, user_id);
    assert(after.ranking_at(list) == Some(kept)) by {
        if kept.len() == 0 {
            assert(kept =~= Seq::<(i64, i32)>::empty());
        }
    }
    assert(ids_given(after, prefix) == ids_given(backend, prefix));
    // Names under other ids, and the users of those names, are as they were.
    assert forall|id: i32| id != user_id implies #[trigger] stored_name(after, prefix, id)
        == stored_name(backend, prefix, id) by {
        lemma_id_keys_differ(prefix, id, user_id);
    }
    assert(stored_name(after, prefix, user_id) is None);
    assert forall|id: i32| id != user_id implies #[trigger] found(after, prefix, id) == found(
        backend,
        prefix,
        id,
    ) && indexed(after, prefix, id) by {
        assert(indexed(backend, prefix, id));
        assert(indexed(backend, prefix, user_id));
        match stored_name(backend, prefix, id) {
            Some(name) => {
                match gone {
                    Some(other) => {
                        if key_text(prefix, StorageNames::Name, name) == key_text(
                            prefix,
                            StorageNames::Name,
                            other,
                        ) {
                            lemma_keys_of_one_family(prefix, StorageNames::Name, name, other);
                        }
                    },
                    None => {},
                }
                assert(stored_user(after, prefix, name) == stored_user(backend, prefix, name));
            },
            None => {},
        }
    }
    assert forall|id: i32| #[trigger] indexed(after, prefix, id) by {
        if id != user_id {
            assert(found(after, prefix, id) == found(backend, prefix, id));
        }
    }
    assert forall|i: int| 0 <= i < kept.len() implies stored_name(
        after,
        prefix,
        #[trigger] kept[i].1,
    ) is Some by {
        assert(kept.contains(kept[i]));
        let m = choose|m: int| 0 <= m < all.len() && all[m] == kept[i];
        assert(stored_name(backend, prefix, all[m].1) is Some);
        assert(stored_name(after, prefix, kept[i].1) == stored_name(backend, prefix, kept[i].1));
    }
    assert forall|i: int| 0 <= i < members(kept).len() implies found(
        after,
        prefix,
        #[trigger] members(kept)[i],
    ) == found(backend, prefix, members(kept)[i]) by {
        assert(kept.contains(kept[i]));
        assert(found(after, prefix, kept[i].1) == found(backend, prefix, kept[i].1));
    }
    lemma_resolved_alike(backend, after, prefix, members(kept));
    lemma_resolved_without(backend, prefix, all, user_id);
}

/// The backend after a registration that was carried through: the
/// allocator has counted, the name is stored under the new id, the id is in
/// the ordered set with the time as its score, and the record is written.
pub open spec fn registered(
    backend: Backend,
    prefix: Seq<char>,
    name: Seq<char>,
    email: Seq<char>,
    password: Seq<char>,
    attributes: Map<String, String>,
    now: i64,
) -> Backend {
    let id = next_id(backend, prefix)->0;
    let counted = execute(backend, allocation(prefix)).0;
    let named = execute(
        counted,
        CommandView::WriteText { key: id_key_text(prefix, id as int), value: name },
    ).0;
    let enlisted = execute(
        named,
        CommandView::Enlist { key: list_key(prefix), member: id, score: now },
    ).0;
    execute(
        enlisted,
        CommandView::WriteFields {
            key: key_text(prefix, StorageNames::Name, name),
            items: new_record(
                id as int,
                name,
                email,
                password_digest(password),
                attributes_json(attributes)->0,
            ),
        },
    ).0
}

/// Where `add_user` hands back a user, it leaves the backend as a
/// registration that was carried through leaves it.
pub proof fn law_add_user_registers(
    prefix: Seq<char>,
    name: Seq<char>,
    email: Seq<char>,
    password: Seq<char>,
    attributes: Map<String, String>,
    backend: Backend,
    now: i64,
)
    requires
        perform(
            ExchangeView::add_user(prefix, name, email, password, attributes),
            backend,
            now,
        ).0 is User,
    ensures
        perform(ExchangeView::add_user(prefix, name, email, password, attributes), backend, now).1
            == registered(backend, prefix, name, email, password, attributes, now),
        next_id(backend, prefix) is Some,
        attributes_json(attributes) is Some,
{
    reveal_with_fuel(run, 8);
}

/// What the entries of an ordered set are once an entry is placed in it.
proof fn lemma_placed_members(all: Seq<(i64, i32)>, entry: (i64, i32))
    ensures
        forall|e: (i64, i32)| #[trigger]
            placed(all, entry).contains(e) ==> e == entry || all.contains(e),
        forall|i: int| 0 <= i < all.len() ==> placed(all, entry).contains(#[trigger] all[i]),
        placed(all, entry).contains(entry),
        placed(all, entry).len() == all.len() + 1,
    decreases all.len(),
{
    let after = placed(all, entry);
    if all.len() == 0 {
        assert(after[0] == entry);
    } else if ranks_before(entry, all[0]) {
        assert(after[0] == entry);
        assert forall|i: int| 0 <= i < all.len() implies after.contains(#[trigger] all[i]) by {
            assert(after[i + 1] == all[i]);
        }
        assert forall|e: (i64, i32)| #[trigger] after.contains(e) implies e == entry
            || all.contains(e) by {
            let k = choose|k: int| 0 <= k < after.len() && after[k] == e;
            if k > 0 {
                assert(all[k - 1] == e);
            }
        }
    } else {
        let rest = all.drop_first();
        let tail = placed(rest, entry);
        lemma_placed_members(rest, entry);
        assert(after[0] == all[0]);
        let k = choose|k: int| 0 <= k < tail.len() && tail[k] == entry;
        assert(after[k + 1] == entry);
        assert forall|i: int| 0 <= i < all.len() implies after.contains(#[trigger] all[i]) by {
            if i > 0 {
                assert(rest[i - 1] == all[i]);
                assert(tail.contains(rest[i - 1]));
                let m = choose|m: int| 0 <= m < tail.len() && tail[m] == all[i];
                assert(after[m + 1] == all[i]);
            }
        }
        assert forall|e: (i64, i32)| #[trigger] after.contains(e) implies e == entry
            || all.contains(e) by {
            let k = choose|k: int| 0 <= k < after.len() && after[k] == e;
            if k > 0 {
                assert(tail[k - 1] == e);
                assert(tail.contains(e));
                if e != entry {
                    let m = choose|m: int| 0 <= m < rest.len() && rest[m] == e;
                    assert(all[m + 1] == e);
                }
            } else {
                assert(all[0] == e);
            }
        }
    }
}

/// An ordered set with a new member placed in it holds no member twice if
/// it held none twice before.
proof fn lemma_placed_distinct(all: Seq<(i64, i32)>, entry: (i64, i32))
    requires
        distinct_members(all),
        forall|i: int| 0 <= i < all.len() ==> (#[trigger] all[i]).1 != entry.1,
    ensures
        distinct_members(placed(all, entry)),
    decreases all.len(),
{
    let after = placed(all, entry);
    if all.len() == 0 {
    } else if ranks_before(entry, all[0]) {
        assert forall|i: int, j: int| 0 <= i < j < after.len() implies after[i].1
            != after[j].1 by {
            assert(after[j] == all[j - 1]);
            if i > 0 {
                assert(after[i] == all[i - 1]);
            }
        }
    } else {
        let rest = all.drop_first();
        let tail = placed(rest, entry);
        assert(distinct_members(rest)) by {
            assert forall|i: int, j: int| 0 <= i < j < rest.len() implies rest[i].1
                != rest[j].1 by {
                assert(rest[i] == all[i + 1] && rest[j] == all[j + 1]);
            }
        }
        assert forall|i: int| 0 <= i < rest.len() implies (#[trigger] rest[i]).1 != entry.1 by {
            assert(rest[i] == all[i + 1]);
        }
        lemma_placed_distinct(rest, entry);
        lemma_placed_members(rest, entry);
        assert forall|i: int, j: int| 0 <= i < j < after.len() implies after[i].1
            != after[j].1 by {
            assert(after[j] == tail[j - 1]);
            if i > 0 {
                assert(after[i] == tail[i - 1]);
            } else {
                assert(tail.contains(tail[j - 1]));
                if tail[j - 1] != entry {
                    let m = choose|m: int| 0 <= m < rest.len() && rest[m] == tail[j - 1];
                    assert(all[m + 1] == rest[m]);
                }
            }
        }
    }
}

/// An ordered set without a member that it does not hold is the set itself.
proof fn lemma_without_absent(all: Seq<(i64, i32)>, member: i32)
    requires
        forall|i: int| 0 <= i < all.len() ==> (#[trigger] all[i]).1 != member,
    ensures
        without(all, member) == all,
    decreases all.len(),
{
    if all.len() > 0 {
        let rest = all.drop_first();
        assert forall|i: int| 0 <= i < rest.len() implies (#[trigger] rest[i]).1 != member by {
            assert(rest[i] == all[i + 1]);
        }
        lemma_without_absent(rest, member);
        assert(all[0].1 != member);
        assert(seq![all[0]] + rest =~= all);
    }
}

/// An entry that ranks before none of an ordered set is placed at its end.
proof fn lemma_placed_last(all: Seq<(i64, i32)>, entry: (i64, i32))
    requires
        forall|i: int| 0 <= i < all.len() ==> !ranks_before(entry, #[trigger] all[i]),
    ensures
        placed(all, entry) == all.push(entry),
    decreases all.len(),
{
    if all.len() > 0 {
        let rest = all.drop_first();
        assert forall|i: int| 0 <= i < rest.len() implies !ranks_before(
            entry,
            #[trigger] rest[i],
        ) by {
            assert(rest[i] == all[i + 1]);
        }
        lemma_placed_last(rest, entry);
        assert(!ranks_before(entry, all[0]));
        assert(seq![all[0]] + rest.push(entry) =~= all.push(entry));
    } else {
        assert(seq![entry] =~= all.push(entry));
    }
}

/// Resolving one id more gives the users before, then the user of that id.
proof fn lemma_resolved_push(backend: Backend, prefix: Seq<char>, ids: Seq<i32>, id: i32)
    ensures
        resolved(backend, prefix, ids.push(id)) == resolved(backend, prefix, ids) + found(
            backend,
            prefix,
            id,
        ),
    decreases ids.len(),
{
    let more = ids.push(id);
    if ids.len() > 0 {
        lemma_resolved_push(backend, prefix, ids.drop_first(), id);
        assert(more.drop_first() =~= ids.drop_first().push(id));
        assert(more[0] == ids[0]);
        assert(resolved(backend, prefix, more) =~= resolved(backend, prefix, ids) + found(
            backend,
            prefix,
            id,
        ));
    } else {
        let none = Seq::<i32>::empty();
        assert(more.drop_first() =~= none);
        assert(ids =~= none);
        assert(more[0] == id);
        assert(resolved(backend, prefix, none) =~= Seq::<UserView>::empty());
        assert(resolved(backend, prefix, more) =~= resolved(backend, prefix, ids) + found(
            backend,
            prefix,
            id,
        ));
    }
}

/// A registration keeps the store consistent, gives the new user an id
/// that no user has, and places it in the ordered set by its time. Every
/// other id resolves as it did before.
pub proof fn law_registration_keeps_consistency(
    prefix: Seq<char>,
    name: Seq<char>,
    email: Seq<char>,
    password: Seq<char>,
    attributes: Map<String, String>,
    backend: Backend,
    now: i64,
)
    requires
        consistent(backend, prefix),
        perform(
            ExchangeView::add_user(prefix, name, email, password, attributes),
            backend,
            now,
        ).0 is User,
    ensures
        ({
            let (added, after) = perform(
                ExchangeView::add_user(prefix, name, email, password, attributes),
                backend,
                now,
            );
            let id = next_id(backend, prefix)->0;
            &&& consistent(after, prefix)
            &&& added->User_0.id == id
            &&& id == ids_given(backend, prefix)->0 + 1
            &&& ids_given(after, prefix) == Some(id as int)
            &&& !members(ranking(backend, prefix)).contains(id)
            &&& stored_name(backend, prefix, id) is None
            &&& ranking(after, prefix) == placed(ranking(backend, prefix), (now, id))
            &&& found(after, prefix, id) == seq![added->User_0]
            &&& forall|other: i32|
                other != id ==> #[trigger] found(after, prefix, other) == found(
                    backend,
                    prefix,
                    other,
                )
        }),
{
    let start = ExchangeView::add_user(prefix, name, email, password, attributes);
    let (added, after) = perform(start, backend, now);
    law_add_user_registers(prefix, name, email, password, attributes, backend, now);
    law_add_user_stores(prefix, name, email, password, attributes, backend, now);
    let id = next_id(backend, prefix)->0;
    let all = ranking(backend, prefix);
    let list = list_key(prefix);
    let index = id_key_text(prefix, id as int);
    let record = key_text(prefix, StorageNames::Name, name);
    let items = new_record(
        id as int,
        name,
        email,
        password_digest(password),
        attributes_json(attributes)->0,
    );
    lemma_families_are_apart(prefix);
    lemma_command_keeps_count(backend, allocation(prefix), prefix);
    lemma_new_records_decode(name, email, password_digest(password));
    lemma_id_reads_back(id);
    let count = ids_given(backend, prefix)->0;
    assert(id == count + 1);
    // The new id is beyond every id that has a name, so that it is listed nowhere.
    assert forall|i: int| 0 <= i < all.len() implies (#[trigger] all[i]).1 != id by {
        assert(stored_name(backend, prefix, all[i].1) is Some);
        assert(indexed(backend, prefix, all[i].1));
    }
    assert(indexed(backend, prefix, id));
    lemma_without_absent(all, id);
    lemma_placed_distinct(all, (now, id));
    lemma_placed_members(all, (now, id));
    let counted = execute(backend, allocation(prefix)).0;
    let named = execute(counted, CommandView::WriteText { key: index, value: name }).0;
    let enlisted = execute(
        named,
        CommandView::Enlist { key: list, member: id, score: now },
    ).0;
    assert(named.ranking_at(list) == Some(all));
    assert(after.ranking_at(list) == Some(placed(all, (now, id))));
    assert(ids_given(after, prefix) == Some(id as int));
    assert(stored_name(after, prefix, id) == Some(name));
    assert forall|other: i32| other != id implies #[trigger] stored_name(after, prefix, other)
        == stored_name(backend, prefix, other) by {
        lemma_id_keys_differ(prefix, other, id);
    }
    assert forall|other: Seq<char>| other != name implies #[trigger] stored_user(
        after,
        prefix,
        other,
    ) == stored_user(backend, prefix, other) by {
        if key_text(prefix, StorageNames::Name, other) == record {
            lemma_keys_of_one_family(prefix, StorageNames::Name, other, name);
        }
    }
    assert forall|other: i32| other != id implies #[trigger] found(after, prefix, other)
        == found(backend, prefix, other) && indexed(after, prefix, other) by {
        assert(indexed(backend, prefix, other));
        assert(stored_name(after, prefix, other) == stored_name(backend, prefix, other));
        match stored_name(backend, prefix, other) {
            Some(owner) => {
                assert(owner != name);
                assert(stored_user(after, prefix, owner) == stored_user(backend, prefix, owner));
            },
            None => {},
        }
    }
    assert forall|other: i32| #[trigger] indexed(after, prefix, other) by {
        if other != id {
            assert(found(after, prefix, other) == found(backend, prefix, other));
        }
    }
    let placed_all = placed(all, (now, id));
    assert forall|i: int| 0 <= i < placed_all.len() implies stored_name(
        after,
        prefix,
        #[trigger] placed_all[i].1,
    ) is Some by {
        assert(placed_all.contains(placed_all[i]));
        if placed_all[i] != (now, id) {
            let m = choose|m: int| 0 <= m < all.len() && all[m] == placed_all[i];
            assert(stored_name(backend, prefix, all[m].1) is Some);
            assert(stored_name(after, prefix, all[m].1) == stored_name(
                backend,
                prefix,
                all[m].1,
            ));
        }
    }
    if members(all).contains(id) {
        let k = choose|k: int| 0 <= k < members(all).len() && members(all)[k] == id;
        assert(all[k].1 == id);
    }
}

/// A new user is listed last: where the entry of a registration ranks
/// before none of the ordered set, because its time is later than theirs, or
/// the same with an id whose text comes no earlier, everyone listed after
/// the registration is everyone listed before, and then the new user.
pub proof fn law_new_user_is_listed_last(
    prefix: Seq<char>,
    name: Seq<char>,
    email: Seq<char>,
    password: Seq<char>,
    attributes: Map<String, String>,
    backend: Backend,
    now: i64,
)
    requires
        consistent(backend, prefix),
        perform(
            ExchangeView::add_user(prefix, name, email, password, attributes),
            backend,
            now,
        ).0 is User,
        forall|i: int|
            0 <= i < ranking(backend, prefix).len() ==> !ranks_before(
                (now, next_id(backend, prefix)->0),
                #[trigger] ranking(backend, prefix)[i],
            ),
    ensures
        ({
            let (added, after) = perform(
                ExchangeView::add_user(prefix, name, email, password, attributes),
                backend,
                now,
            );
            &&& consistent(after, prefix)
            &&& ranking(after, prefix) == ranking(backend, prefix).push(
                (now, next_id(backend, prefix)->0),
            )
            &&& everyone(after, prefix) == everyone(backend, prefix).push(added->User_0)
        }),
{
    law_registration_keeps_consistency(prefix, name, email, password, attributes, backend, now);
    let start = ExchangeView::add_user(prefix, name, email, password, attributes);
    let (added, after) = perform(start, backend, now);
    let id = next_id(backend, prefix)->0;
    let all = ranking(backend, prefix);
    lemma_placed_last(all, (now, id));
    assert(members(all.push((now, id))) =~= members(all).push(id));
    lemma_resolved_push(after, prefix, members(all), id);
    assert forall|i: int| 0 <= i < members(all).len() implies found(
        after,
        prefix,
        #[trigger] members(all)[i],
    ) == found(backend, prefix, members(all)[i]) by {
        if members(all)[i] == id {
            assert(members(all).contains(id));
        }
    }
    lemma_resolved_alike(backend, after, prefix, members(all));
    assert(everyone(backend, prefix) + seq![added->User_0] =~= everyone(backend, prefix).push(
        added->User_0,
    ));
}

/// The exchange that the store opens for a call of the storage contract.
pub open spec fn start_of(prefix: Seq<char>, call: Call) -> ExchangeView {
    match call {
        Call::AddUser { name, email, password, attributes } => ExchangeView::add_user(
            prefix,
            name,
            email,
            password,
            attributes,
        ),
        Call::GetUserById { user_id } => ExchangeView::get_user_by_id(prefix, user_id),
        Call::GetUserByName { username } => ExchangeView::get_user_by_name(prefix, username),
        Call::GetUserByNameAndPwd { username, password } => ExchangeView::get_user_by_name_and_pwd(
            prefix,
            username,
            password,
        ),
        Call::DeleteUser { user_id } => ExchangeView::delete_user(prefix, user_id),
        Call::ListUsers { from, count } => ExchangeView::list_users(prefix, from, count),
        Call::EnableUser { username } => ExchangeView::enable_user(prefix, username),
        Call::DisableUser { username } => ExchangeView::disable_user(prefix, username),
        Call::GetToken { username } => ExchangeView::get_token(prefix, username),
        Call::AddToken { username, token } => ExchangeView::add_token(prefix, username, token),
        Call::GetUserByToken { token } => ExchangeView::get_user_by_token(prefix, token),
        Call::DeleteToken { token } => ExchangeView::delete_token(prefix, token),
        Call::AddUserRole { username, role } => ExchangeView::add_user_role(
            prefix,
            username,
            role,
        ),
    }
}

/// A backend that has the ordered set, the allocator and the names under
/// the ids of a consistent one, and a user of the same id under every name
/// under which that one has a user, is consistent.
proof fn lemma_consistency_carries(before: Backend, after: Backend, prefix: Seq<char>)
    requires
        consistent(before, prefix),
        after.ranking_at(list_key(prefix)) == before.ranking_at(list_key(prefix)),
        ids_given(after, prefix) == ids_given(before, prefix),
        forall|id: i32| #[trigger]
            stored_name(after, prefix, id) == stored_name(before, prefix, id),
        forall|name: Seq<char>|
            (#[trigger] stored_user(before, prefix, name)) is Some ==> stored_user(
                after,
                prefix,
                name,
            ) is Some && stored_user(after, prefix, name)->0.id == stored_user(
                before,
                prefix,
                name,
            )->0.id,
    ensures
        consistent(after, prefix),
{
    assert forall|id: i32| #[trigger] indexed(after, prefix, id) by {
        assert(indexed(before, prefix, id));
        assert(stored_name(after, prefix, id) == stored_name(before, prefix, id));
        match stored_name(before, prefix, id) {
            Some(name) => {
                assert(stored_user(before, prefix, name) is Some);
            },
            None => {},
        }
    }
    let all = ranking(after, prefix);
    assert forall|i: int| 0 <= i < all.len() implies stored_name(
        after,
        prefix,
        #[trigger] all[i].1,
    ) is Some by {
        assert(stored_name(before, prefix, ranking(before, prefix)[i].1) is Some);
        assert(stored_name(after, prefix, all[i].1) == stored_name(before, prefix, all[i].1));
    }
}

/// A token bound or unbound leaves a consistent store consistent.
proof fn lemma_bindings_keep_consistency(
    backend: Backend,
    prefix: Seq<char>,
    name: Seq<char>,
    token: Seq<char>,
)
    requires
        consistent(backend, prefix),
    ensures
        consistent(bound(backend, prefix, name, token), prefix),
        consistent(unbound(backend, prefix, name, token), prefix),
{
    lemma_families_are_apart(prefix);
    lemma_consistency_carries(backend, bound(backend, prefix, name, token), prefix);
    lemma_consistency_carries(backend, unbound(backend, prefix, name, token), prefix);
}

/// A field of a record set, other than its id, leaves a consistent store
/// consistent.
proof fn lemma_field_keeps_consistency(
    backend: Backend,
    prefix: Seq<char>,
    name: Seq<char>,
    field: Seq<char>,
    value: Seq<char>,
)
    requires
        consistent(backend, prefix),
        stored_user(backend, prefix, name) is Some ==> stored_user(
            with_field(backend, prefix, name, field, value),
            prefix,
            name,
        ) is Some && stored_user(with_field(backend, prefix, name, field, value), prefix, name)->0.id
            == stored_user(backend, prefix, name)->0.id,
    ensures
        consistent(with_field(backend, prefix, name, field, value), prefix),
{
    let after = with_field(backend, prefix, name, field, value);
    lemma_families_are_apart(prefix);
    assert forall|other: Seq<char>|
        (#[trigger] stored_user(backend, prefix, other)) is Some implies stored_user(
        after,
        prefix,
        other,
    ) is Some && stored_user(after, prefix, other)->0.id == stored_user(
        backend,
        prefix,
        other,
    )->0.id by {
        if other != name {
            if key_text(prefix, StorageNames::Name, other) == key_text(
                prefix,
                StorageNames::Name,
                name,
            ) {
                lemma_keys_of_one_family(prefix, StorageNames::Name, other, name);
            }
            assert(stored_user(after, prefix, other) == stored_user(backend, prefix, other));
        }
    }
    lemma_consistency_carries(backend, after, prefix);
}

/// Every operation keeps a consistent store consistent, but a registration
/// that fails with `IOError`: one that breaks off after it has written the
/// name under the new id leaves that name without a user.
pub proof fn law_operations_keep_consistency(
    prefix: Seq<char>,
    call: Call,
    backend: Backend,
    now: i64,
)
    requires
        consistent(backend, prefix),
        call is AddUser ==> perform(start_of(prefix, call), backend, now).0 != OutcomeView::Failed(
            AuthError::IOError,
        ),
    ensures
        consistent(perform(start_of(prefix, call), backend, now).1, prefix),
{
    match call {
        Call::AddUser { name, email, password, attributes } => {
            law_add_user_succeeds(prefix, name, email, password, attributes, backend, now);
            if perform(start_of(prefix, call), backend, now).0 is User {
                law_registration_keeps_consistency(
                    prefix,
                    name,
                    email,
                    password,
                    attributes,
                    backend,
                    now,
                );
            }
        },
        Call::GetUserById { user_id } => {
            law_get_user_by_id(prefix, user_id, backend, now);
        },
        Call::GetUserByName { username } => {
            law_get_user_by_name(prefix, username, backend, now);
        },
        Call::GetUserByNameAndPwd { username, password } => {
            law_credentials(prefix, username, password, backend, now);
        },
        Call::DeleteUser { user_id } => {
            law_deletion_keeps_the_others(prefix, user_id, backend, now);
        },
        Call::ListUsers { from, count } => {
            law_list_users(prefix, from, count, backend, now);
        },
        Call::EnableUser { username } => {
            law_enable_user(prefix, username, backend, now);
            lemma_field_keeps_consistency(backend, prefix, username, "status"@, "1"@);
        },
        Call::DisableUser { username } => {
            law_disable_user(prefix, username, backend, now);
            lemma_field_keeps_consistency(backend, prefix, username, "status"@, "2"@);
        },
        Call::GetToken { username } => {
            law_get_token(prefix, username, backend, now);
        },
        Call::AddToken { username, token } => {
            law_add_token(prefix, username, token, backend, now);
            lemma_bindings_keep_consistency(backend, prefix, username, token);
        },
        Call::GetUserByToken { token } => {
            law_get_user_by_token(prefix, token, backend, now);
            let after = perform(start_of(prefix, call), backend, now).1;
            if after != backend {
                let name = token_owner(backend, prefix, token)->0;
                lemma_bindings_keep_consistency(backend, prefix, name, token);
            }
        },
        Call::DeleteToken { token } => {
            law_delete_token(prefix, token, backend, now);
            let after = perform(start_of(prefix, call), backend, now).1;
            if after != backend {
                let name = token_owner(backend, prefix, token)->0;
                let user = stored_user(backend, prefix, name)->0;
                lemma_bindings_keep_consistency(backend, prefix, name, token);
                lemma_bindings_keep_consistency(
                    bound(backend, prefix, name, token),
                    prefix,
                    user.name,
                    token,
                );
            }
        },
        Call::AddUserRole { username, role } => {
            law_add_user_role(prefix, username, role, backend, now);
            lemma_field_keeps_consistency(backend, prefix, username, "role"@, role.text());
        },
    }
}

/// What a registration is given, and when it is made.
pub struct Registration {
    pub name: Seq<char>,
    pub email: Seq<char>,
    pub password: Seq<char>,
    pub attributes: Map<String, String>,
    pub now: i64,
}

impl Registration {
    /// The exchange of the registration.
    pub open spec fn start(self, prefix: Seq<char>) -> ExchangeView {
        ExchangeView::add_user(prefix, self.name, self.email, self.password, self.attributes)
    }
}

/// The backend after the registrations were made on it, in their order.
pub open spec fn after_all(backend: Backend, prefix: Seq<char>, made: Seq<Registration>) -> Backend
    decreases made.len(),
{
    if made.len() == 0 {
        backend
    } else {
        perform(
            made.last().start(prefix),
            after_all(backend, prefix, made.drop_last()),
            made.last().now,
        ).1
    }
}

/// Whether each of the registrations handed back a user, and was made at a
/// time at which its entry ranks before none of the ordered set: later than
/// all of them, or at the time of the latest with an id whose text comes no
/// earlier.
pub open spec fn all_in_order(backend: Backend, prefix: Seq<char>, made: Seq<Registration>) -> bool
    decreases made.len(),
{
    made.len() > 0 ==> {
        let before = after_all(backend, prefix, made.drop_last());
        let last = made.last();
        &&& all_in_order(backend, prefix, made.drop_last())
        &&& perform(last.start(prefix), before, last.now).0 is User
        &&& forall|i: int|
            0 <= i < ranking(before, prefix).len() ==> !ranks_before(
                (last.now, next_id(before, prefix)->0),
                #[trigger] ranking(before, prefix)[i],
            )
    }
}

/// The users that the registrations handed back, in their order.
pub open spec fn all_added(backend: Backend, prefix: Seq<char>, made: Seq<Registration>) -> Seq<
    UserView,
>
    decreases made.len(),
{
    if made.len() == 0 {
        Seq::empty()
    } else {
        all_added(backend, prefix, made.drop_last()).push(
            perform(
                made.last().start(prefix),
                after_all(backend, prefix, made.drop_last()),
                made.last().now,
            ).0->User_0,
        )
    }
}

/// Users are listed in the order of their registration, each once: after
/// registrations made in order on a consistent store, everyone listed is
/// everyone listed before and then the users registered, in the order in
/// which they were registered; and their ids are the ids that follow the
/// last one given before, one by one.
pub proof fn law_users_are_listed_as_registered(
    backend: Backend,
    prefix: Seq<char>,
    made: Seq<Registration>,
)
    requires
        consistent(backend, prefix),
        all_in_order(backend, prefix, made),
    ensures
        ({
            let after = after_all(backend, prefix, made);
            let added = all_added(backend, prefix, made);
            &&& consistent(after, prefix)
            &&& everyone(after, prefix) == everyone(backend, prefix) + added
            &&& added.len() == made.len()
            &&& ids_given(after, prefix) == Some(ids_given(backend, prefix)->0 + made.len())
            &&& forall|i: int|
                0 <= i < added.len() ==> (#[trigger] added[i]).id == ids_given(backend, prefix)->0
                    + i + 1
        }),
    decreases made.len(),
{
    if made.len() == 0 {
        assert(everyone(backend, prefix) + Seq::<UserView>::empty() =~= everyone(
            backend,
            prefix,
        ));
    } else {
        let earlier = made.drop_last();
        let last = made.last();
        law_users_are_listed_as_registered(backend, prefix, earlier);
        let before = after_all(backend, prefix, earlier);
        law_registration_keeps_consistency(
            prefix,
            last.name,
            last.email,
            last.password,
            last.attributes,
            before,
            last.now,
        );
        law_new_user_is_listed_last(
            prefix,
            last.name,
            last.email,
            last.password,
            last.attributes,
            before,
            last.now,
        );
        let user = perform(last.start(prefix), before, last.now).0->User_0;
        let first = all_added(backend, prefix, earlier);
        assert((everyone(backend, prefix) + first).push(user) =~= everyone(backend, prefix)
            + first.push(user));
    }
}

/// Users registered on an empty backend, in order, are the users that a
/// listing of every rank hands back, in the order of their registration,
/// with the ids 1, 2, 3 and so on.
pub proof fn law_listing_of_registered_users(
    prefix: Seq<char>,
    made: Seq<Registration>,
    count: isize,
    now: i64,
)
    requires
        all_in_order(Backend::empty(), prefix, made),
        count == -1 || count >= made.len() - 1,
    ensures
        ({
            let after = after_all(Backend::empty(), prefix, made);
            let added = all_added(Backend::empty(), prefix, made);
            &&& perform(ExchangeView::list_users(prefix, 0, count), after, now).0
                == OutcomeView::Users(added)
            &&& added.len() == made.len()
            &&& forall|i: int| 0 <= i < added.len() ==> (#[trigger] added[i]).id == i + 1
        }),
{
    let empty = Backend::empty();
    law_empty_backend_is_consistent(prefix);
    law_users_are_listed_as_registered(empty, prefix, made);
    let after = after_all(empty, prefix, made);
    let added = all_added(empty, prefix, made);
    assert(everyone(empty, prefix) =~= Seq::<UserView>::empty());
    assert(everyone(empty, prefix) + added =~= added);
    law_everyone_is_listed_once(after, prefix);
    law_list_everyone(prefix, count, after, now);
}

} // verus!
