//! Reset and power-on of the peripheral.

use vstd::prelude::*;

use crate::config::{Config, InitializationError};
use crate::io::{CanClkSrc, Command, Next, Operation, Query, Reply, Start, SubsysStat, Transition};
use crate::io::{
    actions, admissible, lemma_in_two_parts, lemma_one_reply, lemma_polling, outcome, polls, Action,
};

verus! {

/// How often the reset, or memory initialization, may be found going on before the
/// wait is given up with the next one.
pub const STATUS_POLLS: u32 = 1001;

/// Clock cycles between two reads of the subsystem status.
pub const STATUS_DELAY: u32 = 1000;

/// Clock cycles from power enable to the first access: 50 microseconds.
pub const POWER_UP_DELAY: u32 = 4000;

/// The peripheral is being reset and powered on.
#[derive(Clone, Copy, PartialEq, Eq, Debug)]
pub enum PowerOn {
    /// Until the reset bit is clear. It was found set `iter` times.
    Reset { iter: u32 },
    /// Until message RAM is initialized. It was found not to be `iter` times.
    MemInit { iter: u32 },
    /// The release register tells whether the peripheral came up.
    Version,
}

/// What is performed before the first read.
pub open spec fn power_on_commands(config: Config) -> Seq<Command> {
    seq![
        Command::WriteRstctl { resetstkyclr: true, resetassert: true },
        Command::Delay { cycles: 16 },
        Command::WritePwren { enable: false },
        Command::Delay { cycles: 32 },
        Command::WritePwren { enable: true },
        Command::Delay { cycles: POWER_UP_DELAY },
        Command::WriteSubsysClken { clk_reqen: true },
        Command::WriteSubsysClkdiv { ratio: config.clock_div },
        Command::ModifyGenclkcfg { canclksrc: CanClkSrc::Hfclk },
    ]
}

impl PowerOn {
    /// Starts the reset.
    pub fn start(config: &Config) -> (start: Start<PowerOn>)
        ensures
            start.commands@ == power_on_commands(*config),
            start.op == (PowerOn::Reset { iter: 0 }),
    {
        let commands = vec![
            Command::WriteRstctl { resetstkyclr: true, resetassert: true },
            Command::Delay { cycles: 16 },
            Command::WritePwren { enable: false },
            Command::Delay { cycles: 32 },
            Command::WritePwren { enable: true },
            Command::Delay { cycles: POWER_UP_DELAY },
            Command::WriteSubsysClken { clk_reqen: true },
            Command::WriteSubsysClkdiv { ratio: config.clock_div },
            Command::ModifyGenclkcfg { canclksrc: CanClkSrc::Hfclk },
        ];
        Start { commands, op: PowerOn::Reset { iter: 0 } }
    }
}

impl Operation for PowerOn {
    type Output = Result<(), InitializationError>;

    open spec fn awaits(&self) -> Query {
        match *self {
            PowerOn::Reset { .. } | PowerOn::MemInit { .. } => Query::SubsysStat,
            PowerOn::Version => Query::Crel,
        }
    }

    open spec fn admits(&self, reply: Reply) -> bool {
        match *self {
            PowerOn::Reset { .. } | PowerOn::MemInit { .. } => reply is SubsysStat,
            PowerOn::Version => reply is Crel,
        }
    }

    open spec fn commands_on(&self, reply: Reply) -> Seq<Command> {
        match *self {
            PowerOn::Reset { iter } if reply->SubsysStat_0.reset && iter < STATUS_POLLS => seq![
                Command::Delay { cycles: STATUS_DELAY },
            ],
            PowerOn::MemInit { iter } if !reply->SubsysStat_0.mem_init_done && iter < STATUS_POLLS
                => seq![Command::Delay { cycles: STATUS_DELAY }],
            _ => seq![],
        }
    }

    open spec fn next_on(&self, reply: Reply) -> Next<PowerOn, Result<(), InitializationError>> {
        match *self {
            PowerOn::Reset { iter } => if !reply->SubsysStat_0.reset {
                Next::Await(PowerOn::MemInit { iter: 0 })
            } else if iter < STATUS_POLLS {
                Next::Await(PowerOn::Reset { iter: (iter + 1) as u32 })
            } else {
                Next::Done(Err(InitializationError::PeripheralTimedOut))
            },
            PowerOn::MemInit { iter } => if reply->SubsysStat_0.mem_init_done {
                Next::Await(PowerOn::Version)
            } else if iter < STATUS_POLLS {
                Next::Await(PowerOn::MemInit { iter: (iter + 1) as u32 })
            } else {
                Next::Done(Err(InitializationError::PeripheralTimedOut))
            },
            PowerOn::Version => Next::Done(
                if reply->Crel_0 == 0 {
                    Err(InitializationError::PeripheralTimedOut)
                } else {
                    Ok(())
                },
            ),
        }
    }

    fn query(&self) -> (query: Query) {
        match *self {
            PowerOn::Reset { .. } | PowerOn::MemInit { .. } => Query::SubsysStat,
            PowerOn::Version => Query::Crel,
        }
    }

    fn accepts(&self, reply: &Reply) -> (r: bool) {
        match *self {
            PowerOn::Reset { .. } | PowerOn::MemInit { .. } => matches!(
                *reply,
                Reply::SubsysStat(_)
            ),
            PowerOn::Version => matches!(*reply, Reply::Crel(_)),
        }
    }

    fn resume(self, reply: Reply) -> (transition: Transition<
        PowerOn,
        Result<(), InitializationError>,
    >) {
        let mut commands: Vec<Command> = Vec::new();
        let next = match (self, reply) {
            (PowerOn::Reset { iter }, Reply::SubsysStat(stat)) => {
                if !stat.reset {
                    Next::Await(PowerOn::MemInit { iter: 0 })
                } else if iter < STATUS_POLLS {
                    commands.push(Command::Delay { cycles: STATUS_DELAY });
                    Next::Await(PowerOn::Reset { iter: iter + 1 })
                } else {
                    Next::Done(Err(InitializationError::PeripheralTimedOut))
                }
            },
            (PowerOn::MemInit { iter }, Reply::SubsysStat(stat)) => {
                if stat.mem_init_done {
                    Next::Await(PowerOn::Version)
                } else if iter < STATUS_POLLS {
                    commands.push(Command::Delay { cycles: STATUS_DELAY });
                    Next::Await(PowerOn::MemInit { iter: iter + 1 })
                } else {
                    Next::Done(Err(InitializationError::PeripheralTimedOut))
                }
            },
            (PowerOn::Version, Reply::Crel(crel)) => {
                if crel == 0 {
                    Next::Done(Err(InitializationError::PeripheralTimedOut))
                } else {
                    Next::Done(Ok(()))
                }
            },
            (state, _) => Next::Await(state),
        };
        Transition { commands, next }
    }
}

/// Every reply finds the peripheral in reset.
pub open spec fn in_reset(replies: Seq<Reply>) -> bool {
    forall|i: int|
        0 <= i < replies.len() ==> #[trigger] replies[i] is SubsysStat
            && replies[i]->SubsysStat_0.reset
}

/// Every reply finds message RAM not initialized yet.
pub open spec fn in_mem_init(replies: Seq<Reply>) -> bool {
    forall|i: int|
        0 <= i < replies.len() ==> #[trigger] replies[i] is SubsysStat
            && !replies[i]->SubsysStat_0.mem_init_done
}

proof fn lemma_reset_polls(iter: u32, replies: Seq<Reply>)
    requires
        in_reset(replies),
        iter + replies.len() <= STATUS_POLLS,
    ensures
        ({
            let op = PowerOn::Reset { iter };
            &&& outcome(op, replies) == Next::<PowerOn, Result<(), InitializationError>>::Await(
                PowerOn::Reset { iter: (iter + replies.len()) as u32 },
            )
            &&& actions(op, replies) == polls(Query::SubsysStat, STATUS_DELAY, replies.len())
            &&& admissible(op, replies)
        }),
{
    let states = Seq::new(replies.len() + 1, |i: int| PowerOn::Reset { iter: (iter + i) as u32 });
    lemma_polling(states, replies, Query::SubsysStat, STATUS_DELAY);
}

proof fn lemma_mem_init_polls(iter: u32, replies: Seq<Reply>)
    requires
        in_mem_init(replies),
        iter + replies.len() <= STATUS_POLLS,
    ensures
        ({
            let op = PowerOn::MemInit { iter };
            &&& outcome(op, replies) == Next::<PowerOn, Result<(), InitializationError>>::Await(
                PowerOn::MemInit { iter: (iter + replies.len()) as u32 },
            )
            &&& actions(op, replies) == polls(Query::SubsysStat, STATUS_DELAY, replies.len())
            &&& admissible(op, replies)
        }),
{
    let states = Seq::new(replies.len() + 1, |i: int| PowerOn::MemInit { iter: (iter + i) as u32 });
    lemma_polling(states, replies, Query::SubsysStat, STATUS_DELAY);
}

/// Power is up for [`POWER_UP_DELAY`] cycles before the peripheral is accessed
/// again: an earlier access locks it up.
pub proof fn law_pause_after_power_up(config: Config, i: int)
    requires
        0 <= i < power_on_commands(config).len(),
        power_on_commands(config)[i] == (Command::WritePwren { enable: true }),
    ensures
        i + 1 < power_on_commands(config).len(),
        power_on_commands(config)[i + 1] == (Command::Delay { cycles: POWER_UP_DELAY }),
{
}

/// A peripheral that keeps the reset bit set is given up at the read after
/// [`STATUS_POLLS`] of them.
pub proof fn law_reset_times_out(replies: Seq<Reply>)
    requires
        in_reset(replies),
        replies.len() == STATUS_POLLS + 1,
    ensures
        admissible(PowerOn::Reset { iter: 0 }, replies),
        outcome(PowerOn::Reset { iter: 0 }, replies) == Next::<
            PowerOn,
            Result<(), InitializationError>,
        >::Done(Err(InitializationError::PeripheralTimedOut)),
        actions(PowerOn::Reset { iter: 0 }, replies) == polls(
            Query::SubsysStat,
            STATUS_DELAY,
            STATUS_POLLS as nat,
        ) + seq![Action::Read(Query::SubsysStat)],
{
    let op = PowerOn::Reset { iter: 0 };
    let polled = replies.drop_last();
    let last = replies.last();
    lemma_reset_polls(0, polled);
    assert(replies =~= polled + seq![last]);
    lemma_in_two_parts(op, polled, seq![last]);
    lemma_one_reply(PowerOn::Reset { iter: STATUS_POLLS }, last);
    assert(actions(op, replies) =~= polls(Query::SubsysStat, STATUS_DELAY, STATUS_POLLS as nat)
        + seq![Action::Read(Query::SubsysStat)]);
}

/// Once the reset is over, whether after none or as many as [`STATUS_POLLS`]
/// reads that found it going on, the wait for memory initialization starts.
pub proof fn law_reset_ends(resetting: Seq<Reply>, over: SubsysStat)
    requires
        in_reset(resetting),
        resetting.len() <= STATUS_POLLS,
        !over.reset,
    ensures
        ({
            let op = PowerOn::Reset { iter: 0 };
            let replies = resetting + seq![Reply::SubsysStat(over)];
            &&& admissible(op, replies)
            &&& outcome(op, replies) == Next::<PowerOn, Result<(), InitializationError>>::Await(
                PowerOn::MemInit { iter: 0 },
            )
            &&& actions(op, replies) == polls(Query::SubsysStat, STATUS_DELAY, resetting.len())
                + seq![Action::Read(Query::SubsysStat)]
        }),
{
    let op = PowerOn::Reset { iter: 0 };
    let last = Reply::SubsysStat(over);
    lemma_reset_polls(0, resetting);
    lemma_in_two_parts(op, resetting, seq![last]);
    lemma_one_reply(PowerOn::Reset { iter: resetting.len() as u32 }, last);
    assert(actions(op, resetting + seq![last]) =~= polls(
        Query::SubsysStat,
        STATUS_DELAY,
        resetting.len(),
    ) + seq![Action::Read(Query::SubsysStat)]);
}

/// A peripheral that does not get message RAM initialized is given up at the read
/// after [`STATUS_POLLS`] of them.
pub proof fn law_mem_init_times_out(replies: Seq<Reply>)
    requires
        in_mem_init(replies),
        replies.len() == STATUS_POLLS + 1,
    ensures
        admissible(PowerOn::MemInit { iter: 0 }, replies),
        outcome(PowerOn::MemInit { iter: 0 }, replies) == Next::<
            PowerOn,
            Result<(), InitializationError>,
        >::Done(Err(InitializationError::PeripheralTimedOut)),
        actions(PowerOn::MemInit { iter: 0 }, replies) == polls(
            Query::SubsysStat,
            STATUS_DELAY,
            STATUS_POLLS as nat,
        ) + seq![Action::Read(Query::SubsysStat)],
{
    let op = PowerOn::MemInit { iter: 0 };
    let polled = replies.drop_last();
    let last = replies.last();
    lemma_mem_init_polls(0, polled);
    assert(replies =~= polled + seq![last]);
    lemma_in_two_parts(op, polled, seq![last]);
    lemma_one_reply(PowerOn::MemInit { iter: STATUS_POLLS }, last);
    assert(actions(op, replies) =~= polls(Query::SubsysStat, STATUS_DELAY, STATUS_POLLS as nat)
        + seq![Action::Read(Query::SubsysStat)]);
}

/// Once memory initialization is found done, the release register is read, and the
/// peripheral has come up if and only if it is not zero.
pub proof fn law_mem_init_ends(initializing: Seq<Reply>, over: SubsysStat, crel: u32)
    requires
        in_mem_init(initializing),
        initializing.len() <= STATUS_POLLS,
        over.mem_init_done,
    ensures
        ({
            let op = PowerOn::MemInit { iter: 0 };
            let replies = initializing + seq![Reply::SubsysStat(over), Reply::Crel(crel)];
            &&& admissible(op, replies)
            &&& outcome(op, replies) == Next::<PowerOn, Result<(), InitializationError>>::Done(
                if crel == 0 {
                    Err(InitializationError::PeripheralTimedOut)
                } else {
                    Ok(())
                },
            )
            &&& actions(op, replies) == polls(Query::SubsysStat, STATUS_DELAY, initializing.len())
                + seq![Action::Read(Query::SubsysStat), Action::Read(Query::Crel)]
        }),
{
    let op = PowerOn::MemInit { iter: 0 };
    let stat = Reply::SubsysStat(over);
    let release = Reply::Crel(crel);
    let waiting = PowerOn::MemInit { iter: initializing.len() as u32 };
    lemma_mem_init_polls(0, initializing);
    lemma_in_two_parts(op, initializing, seq![stat, release]);
    assert(seq![stat, release] =~= seq![stat] + seq![release]);
    lemma_one_reply(waiting, stat);
    lemma_in_two_parts(waiting, seq![stat], seq![release]);
    lemma_one_reply(PowerOn::Version, release);
    assert(actions(op, initializing + seq![stat, release]) =~= polls(
        Query::SubsysStat,
        STATUS_DELAY,
        initializing.len(),
    ) + seq![Action::Read(Query::SubsysStat), Action::Read(Query::Crel)]);
}

/// A peripheral that comes up: the whole conversation.
pub proof fn law_power_on_succeeds(
    resetting: Seq<Reply>,
    reset_over: SubsysStat,
    initializing: Seq<Reply>,
    init_over: SubsysStat,
    crel: u32,
)
    requires
        in_reset(resetting),
        resetting.len() <= STATUS_POLLS,
        !reset_over.reset,
        in_mem_init(initializing),
        initializing.len() <= STATUS_POLLS,
        init_over.mem_init_done,
        crel != 0,
    ensures
        ({
            let op = PowerOn::Reset { iter: 0 };
            let replies = resetting + seq![Reply::SubsysStat(reset_over)] + (initializing + seq![
                Reply::SubsysStat(init_over),
                Reply::Crel(crel),
            ]);
            &&& admissible(op, replies)
            &&& outcome(op, replies) == Next::<PowerOn, Result<(), InitializationError>>::Done(
                Ok(()),
            )
            &&& actions(op, replies) == polls(Query::SubsysStat, STATUS_DELAY, resetting.len())
                + seq![Action::Read(Query::SubsysStat)] + (polls(
                Query::SubsysStat,
                STATUS_DELAY,
                initializing.len(),
            ) + seq![Action::Read(Query::SubsysStat), Action::Read(Query::Crel)])
        }),
{
    law_reset_ends(resetting, reset_over);
    law_mem_init_ends(initializing, init_over, crel);
    lemma_in_two_parts(
        PowerOn::Reset { iter: 0 },
        resetting + seq![Reply::SubsysStat(reset_over)],
        initializing + seq![Reply::SubsysStat(init_over), Reply::Crel(crel)],
    );
}

/// How many reads are left at most.
pub open spec fn reads_left(op: PowerOn) -> int {
    match op {
        PowerOn::Reset { iter } => (STATUS_POLLS - iter) + 1 + (STATUS_POLLS + 1) + 1,
        PowerOn::MemInit { iter } => (STATUS_POLLS - iter) + 1 + 1,
        PowerOn::Version => 1,
    }
}

proof fn lemma_reads_left(op: PowerOn, replies: Seq<Reply>)
    requires
        admissible(op, replies),
        op matches PowerOn::Reset { iter } ==> iter <= STATUS_POLLS,
        op matches PowerOn::MemInit { iter } ==> iter <= STATUS_POLLS,
    ensures
        replies.len() <= reads_left(op),
        replies.len() == reads_left(op) ==> outcome(op, replies) is Done,
    decreases replies.len(),
{
    if replies.len() > 0 {
        match op.next_on(replies[0]) {
            Next::Await(next) => lemma_reads_left(next, replies.skip(1)),
            Next::Done(_) => {},
        }
    }
}

/// Power-on comes to an end: after 2005 reads at the latest.
pub proof fn law_power_on_ends(replies: Seq<Reply>)
    requires
        admissible(PowerOn::Reset { iter: 0 }, replies),
    ensures
        replies.len() <= 2005,
        replies.len() == 2005 ==> outcome(PowerOn::Reset { iter: 0 }, replies) is Done,
{
    lemma_reads_left(PowerOn::Reset { iter: 0 }, replies);
}

proof fn lemma_mem_init_parts(iter: u32, replies: Seq<Reply>) -> (parts: (
    Seq<Reply>,
    SubsysStat,
    u32,
))
    requires
        iter <= STATUS_POLLS,
        admissible(PowerOn::MemInit { iter }, replies),
        outcome(PowerOn::MemInit { iter }, replies) == Next::<
            PowerOn,
            Result<(), InitializationError>,
        >::Done(Ok(())),
    ensures
        in_mem_init(parts.0),
        iter + parts.0.len() <= STATUS_POLLS,
        parts.1.mem_init_done,
        parts.2 != 0,
        replies == parts.0 + seq![Reply::SubsysStat(parts.1), Reply::Crel(parts.2)],
    decreases replies.len(),
{
    reveal_with_fuel(admissible, 3);
    reveal_with_fuel(outcome, 3);
    let first = replies[0];
    let rest = replies.skip(1);
    if first->SubsysStat_0.mem_init_done {
        let initializing = Seq::<Reply>::empty();
        assert(rest.len() == 1);
        assert(replies =~= initializing + seq![
            Reply::SubsysStat(first->SubsysStat_0),
            Reply::Crel(rest[0]->Crel_0),
        ]);
        (initializing, first->SubsysStat_0, rest[0]->Crel_0)
    } else {
        let parts = lemma_mem_init_parts((iter + 1) as u32, rest);
        let initializing = seq![first] + parts.0;
        assert forall|i: int| 0 <= i < initializing.len() implies (
        #[trigger] initializing[i]) is SubsysStat
            && !initializing[i]->SubsysStat_0.mem_init_done by {
            if i > 0 {
                assert(initializing[i] == parts.0[i - 1]);
            }
        }
        assert(replies =~= seq![first] + rest);
        assert(replies =~= initializing + seq![
            Reply::SubsysStat(parts.1),
            Reply::Crel(parts.2),
        ]);
        (initializing, parts.1, parts.2)
    }
}

proof fn lemma_power_on_parts(iter: u32, replies: Seq<Reply>) -> (parts: (
    Seq<Reply>,
    SubsysStat,
    Seq<Reply>,
    SubsysStat,
    u32,
))
    requires
        iter <= STATUS_POLLS,
        admissible(PowerOn::Reset { iter }, replies),
        outcome(PowerOn::Reset { iter }, replies) == Next::<
            PowerOn,
            Result<(), InitializationError>,
        >::Done(Ok(())),
    ensures
        in_reset(parts.0),
        iter + parts.0.len() <= STATUS_POLLS,
        !parts.1.reset,
        in_mem_init(parts.2),
        parts.2.len() <= STATUS_POLLS,
        parts.3.mem_init_done,
        parts.4 != 0,
        replies == parts.0 + seq![Reply::SubsysStat(parts.1)] + (parts.2 + seq![
            Reply::SubsysStat(parts.3),
            Reply::Crel(parts.4),
        ]),
    decreases replies.len(),
{
    let first = replies[0];
    let rest = replies.skip(1);
    assert(replies =~= seq![first] + rest);
    if !first->SubsysStat_0.reset {
        let parts = lemma_mem_init_parts(0, rest);
        let resetting = Seq::<Reply>::empty();
        assert(replies =~= resetting + seq![Reply::SubsysStat(first->SubsysStat_0)] + (parts.0
            + seq![Reply::SubsysStat(parts.1), Reply::Crel(parts.2)]));
        (resetting, first->SubsysStat_0, parts.0, parts.1, parts.2)
    } else {
        let parts = lemma_power_on_parts((iter + 1) as u32, rest);
        let resetting = seq![first] + parts.0;
        assert forall|i: int| 0 <= i < resetting.len() implies (
        #[trigger] resetting[i]) is SubsysStat && resetting[i]->SubsysStat_0.reset by {
            if i > 0 {
                assert(resetting[i] == parts.0[i - 1]);
            }
        }
        assert(replies =~= resetting + seq![Reply::SubsysStat(parts.1)] + (parts.2 + seq![
            Reply::SubsysStat(parts.3),
            Reply::Crel(parts.4),
        ]));
        (resetting, parts.1, parts.2, parts.3, parts.4)
    }
}

/// Every power-on that succeeds is one of those of [`law_power_on_succeeds`]: the
/// reset, and then memory initialization, was found going on at most
/// [`STATUS_POLLS`] times and then over, and the release was not zero.
pub proof fn law_power_on_succeeds_only_so(replies: Seq<Reply>) -> (parts: (
    Seq<Reply>,
    SubsysStat,
    Seq<Reply>,
    SubsysStat,
    u32,
))
    requires
        admissible(PowerOn::Reset { iter: 0 }, replies),
        outcome(PowerOn::Reset { iter: 0 }, replies) == Next::<
            PowerOn,
            Result<(), InitializationError>,
        >::Done(Ok(())),
    ensures
        in_reset(parts.0),
        parts.0.len() <= STATUS_POLLS,
        !parts.1.reset,
        in_mem_init(parts.2),
        parts.2.len() <= STATUS_POLLS,
        parts.3.mem_init_done,
        parts.4 != 0,
        replies == parts.0 + seq![Reply::SubsysStat(parts.1)] + (parts.2 + seq![
            Reply::SubsysStat(parts.3),
            Reply::Crel(parts.4),
        ]),
{
    lemma_power_on_parts(0, replies)
}

/// The only error of power-on is that the peripheral timed out.
pub proof fn law_power_on_only_times_out(op: PowerOn, replies: Seq<Reply>, e: InitializationError)
    requires
        outcome(op, replies) == Next::<PowerOn, Result<(), InitializationError>>::Done(Err(e)),
    ensures
        e == InitializationError::PeripheralTimedOut,
    decreases replies.len(),
{
    if replies.len() > 0 {
        match op.next_on(replies[0]) {
            Next::Await(next) => law_power_on_only_times_out(next, replies.skip(1), e),
            Next::Done(_) => {},
        }
    }
}

/// The peripheral is reset, power-cycled and clocked, in this order and with these
/// pauses: 16 cycles after the reset, 32 while power is off, 4000 once it is on. The
/// clock is the high frequency clock by the configured divider, and nothing else of
/// the configuration matters.
pub proof fn law_power_on_sequence(config: Config)
    ensures
        ({
            let commands = power_on_commands(config);
            &&& commands.len() == 9
            &&& commands[0] == (Command::WriteRstctl { resetstkyclr: true, resetassert: true })
            &&& commands[1] == (Command::Delay { cycles: 16 })
            &&& commands[2] == (Command::WritePwren { enable: false })
            &&& commands[3] == (Command::Delay { cycles: 32 })
            &&& commands[4] == (Command::WritePwren { enable: true })
            &&& commands[5] == (Command::Delay { cycles: 4000 })
            &&& commands[6] == (Command::WriteSubsysClken { clk_reqen: true })
            &&& commands[7] matches Command::WriteSubsysClkdiv { ratio }
            &&& ratio is DivBy1 <==> config.clock_div is DivBy1
            &&& ratio is DivBy2 <==> config.clock_div is DivBy2
            &&& ratio is DivBy4 <==> config.clock_div is DivBy4
            &&& commands[8] matches Command::ModifyGenclkcfg { canclksrc }
            &&& canclksrc is Hfclk
        }),
{
}

/// The wait for the end of the reset is over exactly when the reset bit is clear. As
/// long as it is set there is a pause of 1000 cycles, up to 1001 times, and at the
/// next time the peripheral is given up. Nothing but the reset bit matters.
pub proof fn law_reset_is_waited_for(iter: u32, stat: SubsysStat)
    ensures
        ({
            let op = PowerOn::Reset { iter };
            let reply = Reply::SubsysStat(stat);
            let next = op.next_on(reply);
            &&& op.awaits() == Query::SubsysStat
            &&& op.admits(reply)
            &&& !stat.reset <==> next == Next::<PowerOn, Result<(), InitializationError>>::Await(
                PowerOn::MemInit { iter: 0 },
            )
            &&& stat.reset && iter < 1001 <==> (next matches Next::Await(PowerOn::Reset {
                iter: later,
            }) && later == iter + 1)
            &&& stat.reset && iter >= 1001 <==> next == Next::<
                PowerOn,
                Result<(), InitializationError>,
            >::Done(Err(InitializationError::PeripheralTimedOut))
            &&& stat.reset && iter < 1001 ==> op.commands_on(reply) == seq![
                Command::Delay { cycles: 1000 },
            ]
            &&& !(stat.reset && iter < 1001) ==> op.commands_on(reply).len() == 0
        }),
{
}

/// The wait for memory initialization is over exactly when it is done. As long as it
/// is not there is a pause of 1000 cycles, up to 1001 times, and at the next time the
/// peripheral is given up. Nothing but that bit matters.
pub proof fn law_mem_init_is_waited_for(iter: u32, stat: SubsysStat)
    ensures
        ({
            let op = PowerOn::MemInit { iter };
            let reply = Reply::SubsysStat(stat);
            let next = op.next_on(reply);
            &&& op.awaits() == Query::SubsysStat
            &&& op.admits(reply)
            &&& stat.mem_init_done <==> next == Next::<
                PowerOn,
                Result<(), InitializationError>,
            >::Await(PowerOn::Version)
            &&& !stat.mem_init_done && iter < 1001 <==> (next matches Next::Await(
                PowerOn::MemInit { iter: later },
            ) && later == iter + 1)
            &&& !stat.mem_init_done && iter >= 1001 <==> next == Next::<
                PowerOn,
                Result<(), InitializationError>,
            >::Done(Err(InitializationError::PeripheralTimedOut))
            &&& !stat.mem_init_done && iter < 1001 ==> op.commands_on(reply) == seq![
                Command::Delay { cycles: 1000 },
            ]
            &&& !(!stat.mem_init_done && iter < 1001) ==> op.commands_on(reply).len() == 0
        }),
{
}

/// The peripheral has come up exactly if its release is not zero, whatever else it
/// is, and nothing is written to find out.
pub proof fn law_any_release_but_zero_is_up(crel: u32)
    ensures
        ({
            let reply = Reply::Crel(crel);
            &&& PowerOn::Version.awaits() == Query::Crel
            &&& PowerOn::Version.admits(reply)
            &&& PowerOn::Version.commands_on(reply).len() == 0
            &&& PowerOn::Version.next_on(reply) matches Next::Done(result)
            &&& result is Ok <==> crel != 0
            &&& result == Err::<(), InitializationError>(InitializationError::PeripheralTimedOut)
                <==> crel == 0
        }),
{
}

/// Power-on goes on from no reply but the answer to what it asked.
pub proof fn law_power_on_admits_only_answers(op: PowerOn, reply: Reply)
    requires
        op.admits(reply),
    ensures
        op.awaits() is SubsysStat <==> reply is SubsysStat,
        op.awaits() is Crel <==> reply is Crel,
{
}

} // verus!
