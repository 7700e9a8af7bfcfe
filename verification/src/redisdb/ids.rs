//! What holds of the ids that the store gives out, on the model of the
//! backend: the allocator only counts up, so that no id is given out twice.

use vstd::prelude::*;
use vstd::string::*;

use crate::redisdb::command::{CommandView, EventView, OutcomeView};
use crate::redisdb::exchange::{advance, ExchangeView, StepView};
use crate::redisdb::laws::law_add_user_enlists;
use crate::redisdb::model::{budget, counter_of, execute, perform, phase, run, Backend};
use crate::redisdb::record::field_of;
use crate::redisdb::schema::{key_text, lemma_families_differ, StorageNames};
use crate::redisdb::stored::{lemma_put, next_id};
use crate::text::{decimal_text, lemma_decimal_reads_back};

verus! {

/// The key of the id allocator.
pub open spec fn counter_key(prefix: Seq<char>) -> Seq<char> {
    key_text(prefix, StorageNames::Increment, Seq::empty())
}

/// How many ids the allocator has given out: `None` where the key holds
/// something that is no counter.
pub open spec fn ids_given(backend: Backend, prefix: Seq<char>) -> Option<int> {
    match backend.fields_at(counter_key(prefix)) {
        Some(fields) => match field_of(fields, "users"@) {
            Some(text) => counter_of(text),
            None => Some(0int),
        },
        None => None,
    }
}

/// The key that a command is about.
pub open spec fn key_of(command: CommandView) -> Seq<char> {
    match command {
        CommandView::ReadFields { key } => key,
        CommandView::ReadText { key } => key,
        CommandView::WriteText { key, .. } => key,
        CommandView::Increment { key, .. } => key,
        CommandView::Enlist { key, .. } => key,
        CommandView::WriteFields { key, .. } => key,
        CommandView::WriteField { key, .. } => key,
        CommandView::Delete { key } => key,
        CommandView::Delist { key, .. } => key,
        CommandView::Range { key, .. } => key,
        CommandView::Expire { key, .. } => key,
    }
}

/// The one command that the store has for the allocator.
pub open spec fn allocation(prefix: Seq<char>) -> CommandView {
    CommandView::Increment { key: counter_key(prefix), field: "users"@, delta: 1 }
}

/// No key of another family is the key of the allocator.
pub proof fn lemma_counter_key_is_apart(prefix: Seq<char>)
    ensures
        forall|family: StorageNames, rest: Seq<char>|
            family != StorageNames::Increment ==> #[trigger] key_text(prefix, family, rest)
                != counter_key(prefix),
{
    assert forall|family: StorageNames, rest: Seq<char>|
        family != StorageNames::Increment implies #[trigger] key_text(prefix, family, rest)
        != counter_key(prefix) by {
        lemma_families_differ(prefix, family, rest, StorageNames::Increment, Seq::empty());
    }
}

/// Whatever an exchange asks for, it asks nothing of the allocator but an id.
pub proof fn lemma_exchange_spares_the_allocator(x: ExchangeView, event: EventView, now: i64)
    ensures
        advance(x, event, now) matches StepView::Continue(next, command) ==> next.prefix
            == x.prefix && (command == allocation(x.prefix) || key_of(command) != counter_key(
            x.prefix,
        )),
{
    lemma_counter_key_is_apart(x.prefix);
}

/// A command counts the allocator up by one, or leaves it as it is.
pub proof fn lemma_command_keeps_count(backend: Backend, command: CommandView, prefix: Seq<char>)
    requires
        ids_given(backend, prefix) is Some,
        command == allocation(prefix) || key_of(command) != counter_key(prefix),
    ensures
        ({
            let (after, reply) = execute(backend, command);
            let before = ids_given(backend, prefix)->0;
            &&& ids_given(after, prefix) matches Some(count)
            &&& command != allocation(prefix) ==> count == before
            &&& command == allocation(prefix) ==> if reply is Number {
                count == before + 1 && reply == EventView::Number(count as i32)
            } else {
                count == before
            }
        }),
{
    if command == allocation(prefix) {
        let fields = backend.fields_at(counter_key(prefix))->0;
        let before = ids_given(backend, prefix)->0;
        if i32::MIN <= before + 1 <= i32::MAX {
            lemma_put(fields, "users"@, decimal_text(before + 1));
            lemma_decimal_reads_back(before + 1, i64::MIN as int, i64::MAX as int);
        }
    }
}

/// An exchange leaves the allocator at least where it was.
pub proof fn lemma_run_keeps_count(
    x: ExchangeView,
    event: EventView,
    backend: Backend,
    now: i64,
    least: int,
)
    requires
        ids_given(backend, x.prefix) matches Some(count) && count >= least,
    ensures
        ids_given(run(x, event, backend, now).1, x.prefix) matches Some(count) && count >= least,
    decreases phase(x.stage), budget(x),
{
    match advance(x, event, now) {
        StepView::Finish(_) => {},
        StepView::Continue(next, command) => {
            lemma_exchange_spares_the_allocator(x, event, now);
            lemma_command_keeps_count(backend, command, x.prefix);
            let (after, reply) = execute(backend, command);
            lemma_run_keeps_count(next, reply, after, now, least);
        },
    }
}

/// The allocator only counts up: whatever operation of the store is
/// performed on a backend, as many ids have been given out afterwards as
/// before, or more.
pub proof fn law_allocator_counts_up(x: ExchangeView, backend: Backend, now: i64)
    requires
        ids_given(backend, x.prefix) is Some,
    ensures
        ids_given(perform(x, backend, now).1, x.prefix) matches Some(count) && count >= ids_given(
            backend,
            x.prefix,
        )->0,
{
    lemma_run_keeps_count(x, EventView::Connected, backend, now, ids_given(backend, x.prefix)->0);
}

/// No id is given out twice: once `add_user` has handed back a user, every
/// id that the allocator gives later, after whatever operation, is larger
/// than the id of that user.
pub proof fn law_ids_are_not_reused(
    prefix: Seq<char>,
    name: Seq<char>,
    email: Seq<char>,
    password: Seq<char>,
    attributes: Map<String, String>,
    backend: Backend,
    now: i64,
    x: ExchangeView,
    later: i64,
)
    requires
        perform(
            ExchangeView::add_user(prefix, name, email, password, attributes),
            backend,
            now,
        ).0 matches OutcomeView::User(_),
        x.prefix == prefix,
    ensures
        ({
            let (added, after) = perform(
                ExchangeView::add_user(prefix, name, email, password, attributes),
                backend,
                now,
            );
            let last = perform(x, after, later).1;
            &&& next_id(after, prefix) matches Some(id) ==> id > added->User_0.id
            &&& next_id(last, prefix) matches Some(id) ==> id > added->User_0.id
        }),
{
    let start = ExchangeView::add_user(prefix, name, email, password, attributes);
    let (added, after) = perform(start, backend, now);
    law_add_user_enlists(prefix, name, email, password, attributes, backend, now);
    let id = next_id(backend, prefix)->0;
    // The registration asked the allocator for its id, and nothing else of it.
    assert(ids_given(backend, prefix) is Some);
    lemma_command_keeps_count(backend, allocation(prefix), prefix);
    let counted = execute(backend, allocation(prefix)).0;
    assert(ids_given(counted, prefix) == Some(id as int));
    lemma_registration_keeps_count(prefix, name, email, password, attributes, backend, now);
    lemma_run_keeps_count(x, EventView::Connected, after, later, id as int);
    let last = perform(x, after, later).1;
    lemma_command_keeps_count(after, allocation(prefix), prefix);
    lemma_command_keeps_count(last, allocation(prefix), prefix);
}

/// A registration that gets the id `id` leaves the allocator at `id` or
/// beyond.
proof fn lemma_registration_keeps_count(
    prefix: Seq<char>,
    name: Seq<char>,
    email: Seq<char>,
    password: Seq<char>,
    attributes: Map<String, String>,
    backend: Backend,
    now: i64,
)
    requires
        next_id(backend, prefix) is Some,
    ensures
        ({
            let after = perform(
                ExchangeView::add_user(prefix, name, email, password, attributes),
                backend,
                now,
            ).1;
            let id = next_id(backend, prefix)->0;
            perform(
                ExchangeView::add_user(prefix, name, email, password, attributes),
                backend,
                now,
            ).0 is User ==> (ids_given(after, prefix) matches Some(count) && count >= id)
        }),
{
    let start = ExchangeView::add_user(prefix, name, email, password, attributes);
    if perform(start, backend, now).0 is User {
        reveal_with_fuel(run, 3);
        lemma_counter_key_is_apart(prefix);
        // The first two steps read the record and ask for the id.
        let reading = advance(start, EventView::Connected, now);
        let (first, read) = (reading->Continue_0, reading->Continue_1);
        let (unchanged, fields) = execute(backend, read);
        let asking = advance(first, fields, now);
        let (second, ask) = (asking->Continue_0, asking->Continue_1);
        assert(ask == allocation(prefix));
        lemma_command_keeps_count(backend, ask, prefix);
        let (counted, reply) = execute(unchanged, ask);
        lemma_run_keeps_count(second, reply, counted, now, next_id(backend, prefix)->0 as int);
    }
}

} // verus!
