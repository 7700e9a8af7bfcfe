//! What holds of listings on the model of the backend: the order of the
//! users listed, and what deleting a user does to later listings.

use vstd::prelude::*;

use crate::account::UserView;
use crate::error::AuthError;
use crate::redisdb::command::{CommandView, EventView, OutcomeView};
use crate::redisdb::exchange::{advance, ExchangeView, Kind, Stage, StepView};
use crate::redisdb::stored::{stored_name, stored_user};
use crate::redisdb::model::{
    ascending, budget, execute, follow, members, perform, phase, placed, ranked, ranks_before,
    run, unasked, without, Backend, Value,
};
use crate::redisdb::schema::{id_key_text, key_text, lemma_families_differ, StorageNames};
use crate::text::decimal_text;

verus! {

/// The key of the ordered set of ids.
pub open spec fn list_key(prefix: Seq<char>) -> Seq<char> {
    key_text(prefix, StorageNames::List, Seq::empty())
}

/// The user that an id of the ordered set resolves to: the user stored under
/// the name that is stored under the id. An id without a name, and a name
/// without a record, resolve to nothing.
pub open spec fn found(backend: Backend, prefix: Seq<char>, id: i32) -> Seq<UserView> {
    match stored_name(backend, prefix, id) {
        Some(name) => match stored_user(backend, prefix, name) {
            Some(user) => seq![user.public()],
            None => Seq::empty(),
        },
        None => Seq::empty(),
    }
}

/// The users that a sequence of ids resolves to, in the order of the ids.
pub open spec fn resolved(backend: Backend, prefix: Seq<char>, ids: Seq<i32>) -> Seq<UserView>
    decreases ids.len(),
{
    if ids.len() == 0 {
        Seq::empty()
    } else {
        found(backend, prefix, ids[0]) + resolved(backend, prefix, ids.drop_first())
    }
}

/// The entries of the ordered set of ids whose ranks lie from `from` to
/// `count`; none where the key holds no ordered set.
pub open spec fn listed(backend: Backend, prefix: Seq<char>, from: isize, count: isize) -> Seq<
    (i64, i32),
> {
    match backend.ranking_at(list_key(prefix)) {
        Some(ranking) => ranked(ranking, from as int, count as int),
        None => Seq::empty(),
    }
}

/// A listing that has its ids resolves those that it has not asked for yet,
/// in their order, adds the users found to those that it has, and changes
/// nothing.
proof fn lemma_listing(x: ExchangeView, backend: Backend, now: i64)
    requires
        x.kind == Kind::ListUsers,
    ensures
        follow(x.list_next(), backend, now) == (
            OutcomeView::Users(
                x.users + resolved(
                    backend,
                    x.prefix,
                    x.ids.skip(x.ids.len() - unasked(x)),
                ),
            ),
            backend,
        ),
    decreases unasked(x),
{
    if x.cursor < x.ids.len() {
        let rest = x.ids.skip(x.cursor as int);
        let id = x.ids[x.cursor as int];
        assert(rest[0] == id);
        assert(rest.drop_first() =~= x.ids.skip(x.cursor as int + 1));
        let asked = ExchangeView { cursor: x.cursor + 1, stage: Stage::Name, ..x };
        reveal_with_fuel(run, 3);
        match stored_name(backend, x.prefix, id) {
            Some(name) => {
                let reading = ExchangeView { name, stage: Stage::Record, ..asked };
                match stored_user(backend, x.prefix, name) {
                    Some(user) => {
                        let grown = ExchangeView {
                            users: reading.users.push(user.public()),
                            ..reading
                        };
                        lemma_listing(grown, backend, now);
                        assert(grown.users + resolved(
                            backend,
                            x.prefix,
                            x.ids.skip(x.cursor as int + 1),
                        ) =~= x.users + resolved(backend, x.prefix, rest));
                    },
                    None => {
                        lemma_listing(reading, backend, now);
                        assert(x.users + resolved(backend, x.prefix, x.ids.skip(x.cursor as int + 1))
                            =~= x.users + resolved(backend, x.prefix, rest));
                    },
                }
            },
            None => {
                lemma_listing(asked, backend, now);
                assert(x.users + resolved(backend, x.prefix, x.ids.skip(x.cursor as int + 1)) =~= x.users
                    + resolved(backend, x.prefix, rest));
            },
        }
    } else {
        assert(x.ids.skip(x.ids.len() as int) =~= Seq::<i32>::empty());
        assert(x.users + Seq::<UserView>::empty() =~= x.users);
    }
}

/// `list_users` takes the ids of the ordered set whose ranks lie from `from`
/// to `count`, in the order of their ranks, and hands back the users that
/// they resolve to, in that order. It fails with `NotFound` where the backend
/// holds no ordered set under the key, and changes nothing in any case.
pub proof fn law_list_users(
    prefix: Seq<char>,
    from: isize,
    count: isize,
    backend: Backend,
    now: i64,
)
    ensures
        perform(ExchangeView::list_users(prefix, from, count), backend, now) == (
            match backend.ranking_at(list_key(prefix)) {
                Some(_) => OutcomeView::Users(
                    resolved(backend, prefix, members(listed(backend, prefix, from, count))),
                ),
                None => OutcomeView::Failed(AuthError::NotFound),
            },
            backend,
        ),
{
    reveal_with_fuel(run, 3);
    let x = ExchangeView::list_users(prefix, from, count);
    match backend.ranking_at(list_key(prefix)) {
        Some(ranking) => {
            let ids = members(ranked(ranking, from as int, count as int));
            let ranging = ExchangeView { stage: Stage::Ranging, ..x };
            let listing = ExchangeView { ids, cursor: 0, ..ranging };
            lemma_listing(listing, backend, now);
            assert(ids.skip(0) =~= ids);
            assert(listing.users + resolved(backend, prefix, ids) =~= resolved(
                backend,
                prefix,
                ids,
            ));
        },
        None => {},
    }
}

/// Whether the scores of every ordered set of the backend ascend with the
/// ranks. This holds of the empty backend, and every command keeps it.
pub open spec fn ordered(backend: Backend) -> bool {
    forall|key: Seq<char>| #[trigger]
        backend.values.contains_key(key) ==> (backend.values[key] matches Value::Ranking(ranking)
            ==> ascending(ranking))
}

/// An entry placed in an ordered set whose scores ascend leaves them
/// ascending, and the set holds the entry and what it held before.
pub proof fn lemma_placed(ranking: Seq<(i64, i32)>, entry: (i64, i32))
    requires
        ascending(ranking),
    ensures
        ascending(placed(ranking, entry)),
        forall|e: (i64, i32)| #[trigger]
            placed(ranking, entry).contains(e) ==> e == entry || ranking.contains(e),
    decreases ranking.len(),
{
    let after = placed(ranking, entry);
    if ranking.len() == 0 {
    } else if ranks_before(entry, ranking[0]) {
        assert forall|e: (i64, i32)| #[trigger] after.contains(e) implies e == entry
            || ranking.contains(e) by {
            let k = choose|k: int| 0 <= k < after.len() && after[k] == e;
            if k > 0 {
                assert(ranking[k - 1] == e);
            }
        }
        assert forall|i: int, j: int| 0 <= i < j < after.len() implies after[i].0 <= after[j].0 by {
            assert(after[j] == ranking[j - 1]);
            if i > 0 {
                assert(after[i] == ranking[i - 1]);
            } else {
                assert(ranking[0].0 <= ranking[j - 1].0);
            }
        }
    } else {
        let rest = ranking.drop_first();
        assert(ascending(rest)) by {
            assert forall|i: int, j: int| 0 <= i < j < rest.len() implies rest[i].0 <= rest[j].0 by {
                assert(rest[i] == ranking[i + 1] && rest[j] == ranking[j + 1]);
            }
        }
        lemma_placed(rest, entry);
        let tail = placed(rest, entry);
        assert forall|e: (i64, i32)| #[trigger] after.contains(e) implies e == entry
            || ranking.contains(e) by {
            let k = choose|k: int| 0 <= k < after.len() && after[k] == e;
            if k > 0 {
                assert(tail[k - 1] == e);
                assert(tail.contains(e));
                if e != entry {
                    let m = choose|m: int| 0 <= m < rest.len() && rest[m] == e;
                    assert(ranking[m + 1] == e);
                }
            } else {
                assert(ranking[0] == e);
            }
        }
        assert forall|i: int, j: int| 0 <= i < j < after.len() implies after[i].0 <= after[j].0 by {
            assert(after[j] == tail[j - 1]);
            if i > 0 {
                assert(after[i] == tail[i - 1]);
            } else {
                assert(tail.contains(tail[j - 1]));
                if tail[j - 1] != entry {
                    let m = choose|m: int| 0 <= m < rest.len() && rest[m] == tail[j - 1];
                    assert(ranking[m + 1] == tail[j - 1]);
                    assert(ranking[0].0 <= ranking[m + 1].0);
                }
            }
        }
    }
}

/// An ordered set without a member holds what it held before but the
/// entries of that member, in the order in which it held them.
pub proof fn lemma_without(ranking: Seq<(i64, i32)>, member: i32)
    ensures
        forall|e: (i64, i32)| #[trigger]
            without(ranking, member).contains(e) ==> ranking.contains(e) && e.1 != member,
        ascending(ranking) ==> ascending(without(ranking, member)),
    decreases ranking.len(),
{
    let after = without(ranking, member);
    if ranking.len() == 0 {
    } else {
        let rest = ranking.drop_first();
        lemma_without(rest, member);
        let tail = without(rest, member);
        assert forall|e: (i64, i32)| #[trigger] tail.contains(e) implies ranking.contains(e) by {
            let m = choose|m: int| 0 <= m < rest.len() && rest[m] == e;
            assert(ranking[m + 1] == e);
        }
        if ascending(ranking) {
            assert(ascending(rest)) by {
                assert forall|i: int, j: int| 0 <= i < j < rest.len() implies rest[i].0
                    <= rest[j].0 by {
                    assert(rest[i] == ranking[i + 1] && rest[j] == ranking[j + 1]);
                }
            }
        }
        if ranking[0].1 == member {
        } else {
            assert forall|e: (i64, i32)| #[trigger] after.contains(e) implies ranking.contains(e)
                && e.1 != member by {
                let k = choose|k: int| 0 <= k < after.len() && after[k] == e;
                if k > 0 {
                    assert(tail[k - 1] == e);
                    assert(tail.contains(e));
                } else {
                    assert(ranking[0] == e);
                }
            }
            if ascending(ranking) {
                assert forall|i: int, j: int| 0 <= i < j < after.len() implies after[i].0
                    <= after[j].0 by {
                    assert(after[j] == tail[j - 1]);
                    if i > 0 {
                        assert(after[i] == tail[i - 1]);
                    } else {
                        assert(tail.contains(tail[j - 1]));
                        let m = choose|m: int| 0 <= m < rest.len() && rest[m] == tail[j - 1];
                        assert(ranking[m + 1] == tail[j - 1]);
                        assert(ranking[0].0 <= ranking[m + 1].0);
                    }
                }
            }
        }
    }
}

/// Every command keeps the ordered sets of the backend in order.
pub proof fn lemma_execute_keeps_order(backend: Backend, command: CommandView)
    requires
        ordered(backend),
    ensures
        ordered(execute(backend, command).0),
{
    let after = execute(backend, command).0;
    match command {
        CommandView::Enlist { key, member, score } => {
            match backend.ranking_at(key) {
                Some(ranking) => {
                    if backend.values.contains_key(key) {
                        assert(ascending(ranking));
                    }
                    lemma_without(ranking, member);
                    lemma_placed(without(ranking, member), (score, member));
                },
                None => {},
            }
        },
        CommandView::Delist { key, member } => {
            match backend.ranking_at(key) {
                Some(ranking) => {
                    if backend.values.contains_key(key) {
                        assert(ascending(ranking));
                    }
                    lemma_without(ranking, member);
                },
                None => {},
            }
        },
        _ => {},
    }
    assert forall|key: Seq<char>| #[trigger] after.values.contains_key(key) implies (
    after.values[key] matches Value::Ranking(ranking) ==> ascending(ranking)) by {
        if backend.values.contains_key(key) && after.values[key] == backend.values[key] {
        }
    }
}

/// Every exchange keeps the ordered sets of the backend in order.
pub proof fn lemma_run_keeps_order(x: ExchangeView, event: EventView, backend: Backend, now: i64)
    requires
        ordered(backend),
    ensures
        ordered(run(x, event, backend, now).1),
    decreases phase(x.stage), budget(x),
{
    match advance(x, event, now) {
        StepView::Finish(_) => {},
        StepView::Continue(next, command) => {
            lemma_execute_keeps_order(backend, command);
            let (after, reply) = execute(backend, command);
            lemma_run_keeps_order(next, reply, after, now);
        },
    }
}

/// The ordered sets of a backend stay in order whatever operation is
/// performed on it; and those of the empty backend are in order.
pub proof fn law_operations_keep_order(x: ExchangeView, backend: Backend, now: i64)
    requires
        ordered(backend),
    ensures
        ordered(perform(x, backend, now).1),
        ordered(Backend::empty()),
{
    lemma_run_keeps_order(x, EventView::Connected, backend, now);
}

/// `list_users` hands back users in ascending order of creation: the users
/// that it hands back are those that the entries listed resolve to, in the
/// order of the entries, and the scores of the entries, which are the times
/// at which `add_user` entered them, ascend.
pub proof fn law_listing_is_in_creation_order(
    prefix: Seq<char>,
    from: isize,
    count: isize,
    backend: Backend,
    now: i64,
)
    requires
        ordered(backend),
        backend.ranking_at(list_key(prefix)) is Some,
    ensures
        perform(ExchangeView::list_users(prefix, from, count), backend, now).0
            == OutcomeView::Users(
            resolved(backend, prefix, members(listed(backend, prefix, from, count))),
        ),
        ascending(listed(backend, prefix, from, count)),
{
    law_list_users(prefix, from, count, backend, now);
    let ranking = backend.ranking_at(list_key(prefix))->0;
    if backend.values.contains_key(list_key(prefix)) {
        assert(ascending(ranking));
    }
    lemma_ranked_ascending(ranking, from as int, count as int);
}

/// The entries of a range of ranks are entries of the ordered set.
pub proof fn lemma_ranked_within(ranking: Seq<(i64, i32)>, start: int, stop: int)
    ensures
        forall|e: (i64, i32)| #[trigger]
            ranked(ranking, start, stop).contains(e) ==> ranking.contains(e),
{
    let entries = ranked(ranking, start, stop);
    if entries.len() > 0 {
        let len = ranking.len() as int;
        let first = if start >= 0 {
            start
        } else if len + start >= 0 {
            len + start
        } else {
            0
        };
        assert forall|e: (i64, i32)| #[trigger] entries.contains(e) implies ranking.contains(
            e,
        ) by {
            let k = choose|k: int| 0 <= k < entries.len() && entries[k] == e;
            assert(ranking[first + k] == e);
        }
    }
}

/// The entries of a range of ranks ascend as the ordered set does.
pub proof fn lemma_ranked_ascending(ranking: Seq<(i64, i32)>, start: int, stop: int)
    requires
        ascending(ranking),
    ensures
        ascending(ranked(ranking, start, stop)),
{
    let entries = ranked(ranking, start, stop);
    if entries.len() > 0 {
        let len = ranking.len() as int;
        let first = if start >= 0 {
            start
        } else if len + start >= 0 {
            len + start
        } else {
            0
        };
        assert forall|i: int, j: int| 0 <= i < j < entries.len() implies entries[i].0
            <= entries[j].0 by {
            assert(entries[i] == ranking[first + i]);
            assert(entries[j] == ranking[first + j]);
        }
    }
}

/// The backend without what `key` holds.
pub open spec fn erased(backend: Backend, key: Seq<char>) -> Backend {
    Backend { values: backend.values.remove(key), lifetimes: backend.lifetimes.remove(key) }
}

/// The backend without the user of the id: without the record under the
/// name that is stored under the id, without that name, and without the id
/// in the ordered set.
pub open spec fn deleted(backend: Backend, prefix: Seq<char>, id: i32) -> Backend {
    let unnamed = match stored_name(backend, prefix, id) {
        Some(name) => erased(backend, key_text(prefix, StorageNames::Name, name)),
        None => backend,
    };
    execute(
        erased(unnamed, id_key_text(prefix, id as int)),
        CommandView::Delist { key: list_key(prefix), member: id },
    ).0
}

/// `delete_user` removes the record, the name under the id and the id in
/// the ordered set, and reports no error, whether or not there was anything
/// to remove.
pub proof fn law_delete_user(prefix: Seq<char>, user_id: i32, backend: Backend, now: i64)
    ensures
        perform(ExchangeView::delete_user(prefix, user_id), backend, now) == (
            OutcomeView::Done,
            deleted(backend, prefix, user_id),
        ),
{
    reveal_with_fuel(run, 6);
}

/// Deleting a user removes it from subsequent listings: after
/// `delete_user`, no range of the ordered set holds the id, so that
/// `list_users` resolves no user from it; and nothing is stored under the id.
pub proof fn law_deleted_user_is_not_listed(
    prefix: Seq<char>,
    user_id: i32,
    backend: Backend,
    now: i64,
    from: isize,
    count: isize,
)
    ensures
        ({
            let after = perform(ExchangeView::delete_user(prefix, user_id), backend, now).1;
            &&& !members(listed(after, prefix, from, count)).contains(user_id)
            &&& stored_name(after, prefix, user_id) is None
        }),
{
    law_delete_user(prefix, user_id, backend, now);
    let after = deleted(backend, prefix, user_id);
    let unnamed = match stored_name(backend, prefix, user_id) {
        Some(name) => erased(backend, key_text(prefix, StorageNames::Name, name)),
        None => backend,
    };
    let unindexed = erased(unnamed, id_key_text(prefix, user_id as int));
    lemma_families_differ(
        prefix,
        StorageNames::List,
        Seq::empty(),
        StorageNames::Id,
        decimal_text(user_id as int),
    );
    match unindexed.ranking_at(list_key(prefix)) {
        Some(ranking) => {
            lemma_without(ranking, user_id);
            let kept = without(ranking, user_id);
            assert(after.ranking_at(list_key(prefix)) == Some(kept)) by {
                if kept.len() == 0 {
                    assert(kept =~= Seq::<(i64, i32)>::empty());
                }
            }
            let entries = ranked(kept, from as int, count as int);
            lemma_ranked_within(kept, from as int, count as int);
            if members(entries).contains(user_id) {
                let k = choose|k: int| 0 <= k < members(entries).len() && members(entries)[k]
                    == user_id;
                assert(entries.contains(entries[k]));
            }
        },
        None => {},
    }
}

} // verus!
