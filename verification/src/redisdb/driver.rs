//! Carrying an exchange out, given the means to run a command.

use vstd::prelude::*;

use crate::redisdb::command::{Command, CommandView, Event, EventView, Outcome, OutcomeView};
use crate::redisdb::exchange::{advance, Exchange, ExchangeView, Step, StepView};
use crate::redisdb::model::{budget, lemma_advance_decreases, phase};

verus! {

/// Whether an exchange that first takes `event`, asks for the commands
/// `asked` in turn and takes `replies` for them, at the times `times`, ends
/// with `outcome` once it has taken the last reply.
pub open spec fn ends_with(
    x: ExchangeView,
    event: EventView,
    asked: Seq<CommandView>,
    replies: Seq<EventView>,
    times: Seq<i64>,
    outcome: OutcomeView,
) -> bool
    decreases asked.len(),
{
    times.len() == asked.len() + 1 && replies.len() == asked.len() && match advance(
        x,
        event,
        times[0],
    ) {
        StepView::Finish(end) => asked.len() == 0 && end == outcome,
        StepView::Continue(next, command) => asked.len() > 0 && asked[0] == command && ends_with(
            next,
            replies[0],
            asked.drop_first(),
            replies.drop_first(),
            times.drop_first(),
            outcome,
        ),
    }
}

/// An exchange ends within its budget: once it has its connection and, for
/// a listing, its ids, it asks for no more commands than `budget` says.
pub proof fn law_exchanges_end_within_budget(
    x: ExchangeView,
    event: EventView,
    asked: Seq<CommandView>,
    replies: Seq<EventView>,
    times: Seq<i64>,
    outcome: OutcomeView,
)
    requires
        ends_with(x, event, asked, replies, times, outcome),
        phase(x.stage) == 0,
    ensures
        asked.len() <= budget(x),
    decreases asked.len(),
{
    lemma_advance_decreases(x, event, times[0]);
    match advance(x, event, times[0]) {
        StepView::Finish(_) => {},
        StepView::Continue(next, _) => {
            law_exchanges_end_within_budget(
                next,
                replies[0],
                asked.drop_first(),
                replies.drop_first(),
                times.drop_first(),
                outcome,
            );
        },
    }
}

/// The views of a sequence of commands.
pub open spec fn commands_view(commands: Seq<Command>) -> Seq<CommandView> {
    commands.map_values(|command: Command| command@)
}

/// The views of a sequence of events.
pub open spec fn events_view(events: Seq<Event>) -> Seq<EventView> {
    events.map_values(|event: Event| event@)
}

/// Carries an exchange out. `first` says whether a connection was acquired
/// (`Connected` or `Unavailable`); `run` runs one command on it and hands
/// back what came of it.
///
/// The exchange ends after a bounded number of commands. Every command that
/// was run is one that the exchange asked for, in the order in which it
/// asked; the exchange took for each what `run` handed back; and the outcome
/// is the one that the exchange ended with.
pub fn drive<F: Fn(Command) -> Event>(exchange: Exchange, first: Event, run: F) -> (outcome: Outcome)
    requires
        forall|command: Command| call_requires(run, (command,)),
    ensures
        exists|commands: Seq<Command>, replies: Seq<Event>, times: Seq<i64>|
            {
                &&& commands.len() == replies.len()
                &&& forall|i: int|
                    0 <= i < commands.len() ==> call_ensures(
                        run,
                        (#[trigger] commands[i],),
                        replies[i],
                    )
                &&& #[trigger] ends_with(
                    exchange@,
                    first@,
                    commands_view(commands),
                    events_view(replies),
                    times,
                    outcome@,
                )
            },
{
    let ghost mut commands: Seq<Command> = Seq::empty();
    let ghost mut replies: Seq<Event> = Seq::empty();
    let ghost mut times: Seq<i64> = Seq::empty();
    let mut current = exchange;
    let mut event = first;
    loop
        invariant
            forall|command: Command| call_requires(run, (command,)),
            commands.len() == replies.len(),
            commands.len() == times.len(),
            forall|i: int|
                0 <= i < commands.len() ==> call_ensures(
                    run,
                    (#[trigger] commands[i],),
                    replies[i],
                ),
            forall|
                asked: Seq<CommandView>,
                taken: Seq<EventView>,
                when: Seq<i64>,
                end: OutcomeView,
            | #[trigger]
                ends_with(current@, event@, asked, taken, when, end) ==> ends_with(
                    exchange@,
                    first@,
                    commands_view(commands) + asked,
                    events_view(replies) + taken,
                    times + when,
                    end,
                ),
        decreases phase(current@.stage), budget(current@),
    {
        let ghost before = current@;
        let ghost taken_now = event@;
        let step = current.step(event);
        let ghost now = choose|now: i64| step@ == advance(before, taken_now, now);
        proof {
            lemma_advance_decreases(before, taken_now, now);
        }
        match step {
            Step::Finish(outcome) => {
                proof {
                    let none = Seq::<CommandView>::empty();
                    let no_replies = Seq::<EventView>::empty();
                    assert(ends_with(before, taken_now, none, no_replies, seq![now], outcome@));
                    assert(commands_view(commands) + none =~= commands_view(commands));
                    assert(events_view(replies) + no_replies =~= events_view(replies));
                }
                return outcome;
            },
            Step::Continue(next, command) => {
                let ghost asked_now = command;
                let reply = run(command);
                proof {
                    let ghost old_commands = commands;
                    let ghost old_replies = replies;
                    let ghost old_times = times;
                    commands = commands.push(asked_now);
                    replies = replies.push(reply);
                    times = times.push(now);
                    assert forall|
                        asked: Seq<CommandView>,
                        taken: Seq<EventView>,
                        when: Seq<i64>,
                        end: OutcomeView,
                    | #[trigger]
                        ends_with(next@, reply@, asked, taken, when, end) implies ends_with(
                        exchange@,
                        first@,
                        commands_view(commands) + asked,
                        events_view(replies) + taken,
                        times + when,
                        end,
                    ) by {
                        let more_asked = seq![asked_now@] + asked;
                        let more_taken = seq![reply@] + taken;
                        let more_when = seq![now] + when;
                        assert(more_asked.drop_first() =~= asked);
                        assert(more_taken.drop_first() =~= taken);
                        assert(more_when.drop_first() =~= when);
                        assert(ends_with(before, taken_now, more_asked, more_taken, more_when, end));
                        assert(commands_view(old_commands) + more_asked =~= commands_view(commands)
                            + asked);
                        assert(events_view(old_replies) + more_taken =~= events_view(replies)
                            + taken);
                        assert(old_times + more_when =~= times + when);
                    }
                }
                current = next;
                event = reply;
            },
        }
    }
}

} // verus!
