//! A model of the key-value backend, and what the store's operations come to
//! when their exchanges are carried out on it.
//!
//! The model answers every command at once and lets no time pass: it says
//! what holds of a backend that is reachable, and for as long as no token
//! binding has expired.

use vstd::prelude::*;
use vstd::utf8::encode_utf8;

use crate::redisdb::command::{CommandView, EventView, OutcomeView};
use crate::redisdb::exchange::{advance, ExchangeView, Stage, StepView};
use crate::redisdb::record::{field_of, FieldsView};
use crate::text::{decimal_text, parsed_integer};

verus! {

/// What a key holds.
pub enum Value {
    /// A text.
    Text(Seq<char>),
    /// A field map, in the order in which its fields were first written.
    Fields(FieldsView),
    /// An ordered set of members with their scores, in the order of their ranks.
    Ranking(Seq<(i64, i32)>),
}

/// The state of a backend.
pub struct Backend {
    /// What each key holds.
    pub values: Map<Seq<char>, Value>,
    /// The lifetime, in seconds, that each expiring key was last given.
    pub lifetimes: Map<Seq<char>, usize>,
}

/// The field map with `name` set to `value`: in place where the map has a
/// field of the name, at the end where it has none.
pub open spec fn put(fields: FieldsView, name: Seq<char>, value: Seq<char>) -> FieldsView
    decreases fields.len(),
{
    if fields.len() == 0 {
        seq![(name, value)]
    } else if fields[0].0 == name {
        seq![(name, value)] + fields.drop_first()
    } else {
        seq![fields[0]] + put(fields.drop_first(), name, value)
    }
}

/// The field map with each item of `items` set in turn.
pub open spec fn put_all(fields: FieldsView, items: FieldsView) -> FieldsView
    decreases items.len(),
{
    if items.len() == 0 {
        fields
    } else {
        put_all(put(fields, items[0].0, items[0].1), items.drop_first())
    }
}

/// Whether the entry `a` of an ordered set ranks before the entry `b`: by
/// score, and for members of one score by their decimal texts.
pub open spec fn ranks_before(a: (i64, i32), b: (i64, i32)) -> bool {
    a.0 < b.0 || (a.0 == b.0 && text_before(decimal_text(a.1 as int), decimal_text(b.1 as int)))
}

/// Whether the text `a` comes before the text `b`, character by character.
pub open spec fn text_before(a: Seq<char>, b: Seq<char>) -> bool
    decreases a.len(),
{
    if b.len() == 0 {
        false
    } else if a.len() == 0 {
        true
    } else if a[0] != b[0] {
        (a[0] as u32) < (b[0] as u32)
    } else {
        text_before(a.drop_first(), b.drop_first())
    }
}

/// The ordered set with `entry` at its rank.
pub open spec fn placed(ranking: Seq<(i64, i32)>, entry: (i64, i32)) -> Seq<(i64, i32)>
    decreases ranking.len(),
{
    if ranking.len() == 0 {
        seq![entry]
    } else if ranks_before(entry, ranking[0]) {
        seq![entry] + ranking
    } else {
        seq![ranking[0]] + placed(ranking.drop_first(), entry)
    }
}

/// The ordered set without `member`.
pub open spec fn without(ranking: Seq<(i64, i32)>, member: i32) -> Seq<(i64, i32)>
    decreases ranking.len(),
{
    if ranking.len() == 0 {
        ranking
    } else if ranking[0].1 == member {
        without(ranking.drop_first(), member)
    } else {
        seq![ranking[0]] + without(ranking.drop_first(), member)
    }
}

/// The members of a sequence of entries.
pub open spec fn members(entries: Seq<(i64, i32)>) -> Seq<i32> {
    entries.map_values(|entry: (i64, i32)| entry.1)
}

/// The entries of an ordered set whose ranks lie from `start` to `stop`. A
/// negative rank counts from the end, and ranks beyond the set are cut off.
pub open spec fn ranked(ranking: Seq<(i64, i32)>, start: int, stop: int) -> Seq<(i64, i32)> {
    let len = ranking.len() as int;
    let from = if start >= 0 {
        start
    } else if len + start >= 0 {
        len + start
    } else {
        0
    };
    let to = if stop < 0 {
        len + stop
    } else if stop < len {
        stop
    } else {
        len - 1
    };
    if from > to || from >= len {
        Seq::empty()
    } else {
        ranking.subrange(from, to + 1)
    }
}

impl Backend {
    /// A backend that holds nothing.
    pub open spec fn empty() -> Backend {
        Backend { values: Map::empty(), lifetimes: Map::empty() }
    }

    /// The backend with `value` at `key`, its lifetime as it was.
    pub open spec fn with(self, key: Seq<char>, value: Value) -> Backend {
        Backend { values: self.values.insert(key, value), ..self }
    }

    /// The field map at `key`: `None` where the key holds something else.
    pub open spec fn fields_at(self, key: Seq<char>) -> Option<FieldsView> {
        if !self.values.contains_key(key) {
            Some(Seq::empty())
        } else {
            match self.values[key] {
                Value::Fields(fields) => Some(fields),
                _ => None,
            }
        }
    }

    /// The ordered set at `key`: `None` where the key holds something else.
    pub open spec fn ranking_at(self, key: Seq<char>) -> Option<Seq<(i64, i32)>> {
        if !self.values.contains_key(key) {
            Some(Seq::empty())
        } else {
            match self.values[key] {
                Value::Ranking(ranking) => Some(ranking),
                _ => None,
            }
        }
    }

    /// The text at `key`, if the key holds one.
    pub open spec fn text_at(self, key: Seq<char>) -> Option<Seq<char>> {
        if !self.values.contains_key(key) {
            None
        } else {
            match self.values[key] {
                Value::Text(text) => Some(text),
                _ => None,
            }
        }
    }
}

/// The counter that a stored text stands for, if it is a number.
pub open spec fn counter_of(text: Seq<char>) -> Option<int> {
    parsed_integer(encode_utf8(text), true, i64::MIN as int, i64::MAX as int)
}

/// What a command does to the backend, and what comes back.
pub open spec fn execute(backend: Backend, command: CommandView) -> (Backend, EventView) {
    match command {
        CommandView::ReadFields { key } => match backend.fields_at(key) {
            Some(fields) => (backend, EventView::Fields(fields)),
            None => (backend, EventView::Failed),
        },
        CommandView::ReadText { key } => match backend.text_at(key) {
            Some(text) => (backend, EventView::Text(text)),
            None => (backend, EventView::Failed),
        },
        CommandView::WriteText { key, value } => (
            Backend {
                values: backend.values.insert(key, Value::Text(value)),
                lifetimes: backend.lifetimes.remove(key),
            },
            EventView::Done,
        ),
        CommandView::Increment { key, field, delta } => match backend.fields_at(key) {
            Some(fields) => {
                let before = match field_of(fields, field) {
                    Some(text) => counter_of(text),
                    None => Some(0int),
                };
                match before {
                    Some(count) => if i32::MIN <= count + delta <= i32::MAX {
                        (
                            backend.with(
                                key,
                                Value::Fields(put(fields, field, decimal_text(count + delta))),
                            ),
                            EventView::Number((count + delta) as i32),
                        )
                    } else {
                        (backend, EventView::Failed)
                    },
                    None => (backend, EventView::Failed),
                }
            },
            None => (backend, EventView::Failed),
        },
        CommandView::Enlist { key, member, score } => match backend.ranking_at(key) {
            Some(ranking) => (
                backend.with(key, Value::Ranking(placed(without(ranking, member), (score, member)))),
                EventView::Done,
            ),
            None => (backend, EventView::Failed),
        },
        CommandView::WriteFields { key, items } => match backend.fields_at(key) {
            Some(fields) => if items.len() > 0 {
                (backend.with(key, Value::Fields(put_all(fields, items))), EventView::Done)
            } else {
                (backend, EventView::Failed)
            },
            None => (backend, EventView::Failed),
        },
        CommandView::WriteField { key, field, value } => match backend.fields_at(key) {
            Some(fields) => (
                backend.with(key, Value::Fields(put(fields, field, value))),
                EventView::Done,
            ),
            None => (backend, EventView::Failed),
        },
        CommandView::Delete { key } => (
            Backend {
                values: backend.values.remove(key),
                lifetimes: backend.lifetimes.remove(key),
            },
            EventView::Done,
        ),
        CommandView::Delist { key, member } => match backend.ranking_at(key) {
            Some(ranking) => if without(ranking, member).len() > 0 {
                (backend.with(key, Value::Ranking(without(ranking, member))), EventView::Done)
            } else {
                (
                    Backend {
                        values: backend.values.remove(key),
                        lifetimes: backend.lifetimes.remove(key),
                    },
                    EventView::Done,
                )
            },
            None => (backend, EventView::Failed),
        },
        CommandView::Range { key, start, stop } => match backend.ranking_at(key) {
            Some(ranking) => (
                backend,
                EventView::Members(members(ranked(ranking, start as int, stop as int))),
            ),
            None => (backend, EventView::Failed),
        },
        CommandView::Expire { key, seconds } => if backend.values.contains_key(key) {
            (Backend { lifetimes: backend.lifetimes.insert(key, seconds), ..backend }, EventView::Done)
        } else {
            (backend, EventView::Done)
        },
    }
}

/// Whether the scores of the entries ascend.
pub open spec fn ascending(entries: Seq<(i64, i32)>) -> bool {
    forall|i: int, j: int| 0 <= i < j < entries.len() ==> entries[i].0 <= entries[j].0
}

/// How many ids of a listing have not been asked for yet.
pub open spec fn unasked(x: ExchangeView) -> nat {
    if x.cursor < x.ids.len() {
        (x.ids.len() - x.cursor) as nat
    } else {
        0
    }
}

/// A bound on the number of commands that an exchange will still ask for,
/// once it has a connection and, for a listing, its ids.
pub open spec fn budget(x: ExchangeView) -> nat {
    match x.stage {
        Stage::Connecting | Stage::Ranging => 0,
        Stage::Name => 2 * unasked(x) + 8,
        Stage::Record => 2 * unasked(x) + 7,
        Stage::BindUser => 6,
        Stage::BindToken | Stage::Allocating => 5,
        Stage::ExpireUser | Stage::Indexing => 4,
        Stage::ExpireToken | Stage::Enlisting | Stage::RemoveRecord => 3,
        Stage::UnbindUser | Stage::Storing | Stage::Updating | Stage::RemoveIndex => 2,
        Stage::UnbindToken | Stage::Reread | Stage::RemoveMember | Stage::TokenText => 1,
    }
}

/// How far an exchange is from knowing what it will ask for.
pub open spec fn phase(stage: Stage) -> nat {
    match stage {
        Stage::Connecting => 2,
        Stage::Ranging => 1,
        _ => 0,
    }
}

/// Every step brings an exchange closer to its end.
pub proof fn lemma_advance_decreases(x: ExchangeView, event: EventView, now: i64)
    ensures
        advance(x, event, now) matches StepView::Continue(next, _) ==> phase(next.stage) < phase(
            x.stage,
        ) || (phase(next.stage) == phase(x.stage) && budget(next) < budget(x)),
{
}

/// What an exchange comes to on a backend: the exchange takes `event`, each
/// command that it asks for is executed, and what comes back is handed to it,
/// until it ends. The result is the outcome and the backend as it then stands.
pub open spec fn run(x: ExchangeView, event: EventView, backend: Backend, now: i64) -> (
    OutcomeView,
    Backend,
)
    decreases phase(x.stage), budget(x),
{
    match advance(x, event, now) {
        StepView::Finish(outcome) => (outcome, backend),
        StepView::Continue(next, command) => {
            let (after, reply) = execute(backend, command);
            run(next, reply, after, now)
        },
    }
}

/// What a step comes to on a backend: the outcome, where the step ends the
/// exchange, and else what the exchange comes to once the step's command
/// has been executed.
pub open spec fn follow(step: StepView, backend: Backend, now: i64) -> (OutcomeView, Backend) {
    match step {
        StepView::Finish(outcome) => (outcome, backend),
        StepView::Continue(next, command) => {
            let (after, reply) = execute(backend, command);
            run(next, reply, after, now)
        },
    }
}

/// What an operation comes to on a backend that is reachable.
pub open spec fn perform(x: ExchangeView, backend: Backend, now: i64) -> (OutcomeView, Backend) {
    run(x, EventView::Connected, backend, now)
}

} // verus!
