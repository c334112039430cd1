//! Access to the write-protected registers.
//!
//! While these registers are writable the peripheral is disconnected from the
//! bus: it sends and receives no frames, acknowledgements or errors.

use vstd::prelude::*;

use crate::config::InitializationError;
use crate::io::{Command, Next, Operation, Query, Reply, Start, Transition};
use crate::io::{
    actions, admissible, lemma_in_two_parts, lemma_one_reply, lemma_polling, outcome, performed,
    polls, Action,
};

verus! {

/// How often the initialization bit may be found unchanged before the wait is
/// given up with the next one.
pub const INIT_POLLS: u32 = 10001;

/// Clock cycles between two reads of the initialization bit.
pub const INIT_DELAY: u32 = 10;

/// Write-protected registers are being changed.
pub enum GuardedConfig {
    /// Until the peripheral is in initialization mode. The bit was found clear
    /// `iter` times. Then come `writes`; they count as done, or as failed, by
    /// `result`.
    Entering { iter: u32, writes: Vec<Command>, result: Result<(), InitializationError> },
    /// Until the peripheral is in normal mode. The bit was found set `iter` times.
    Leaving { iter: u32 },
}

/// What is performed in initialization mode: the registers are unlocked and
/// written. They are locked and normal mode is asked for only if that went well:
/// otherwise they may be inconsistent.
pub open spec fn guarded_commands(
    writes: Seq<Command>,
    result: Result<(), InitializationError>,
) -> Seq<Command> {
    let unlocked = seq![Command::ModifyCccrCce { cce: true }] + writes;
    match result {
        Ok(_) => unlocked + seq![
            Command::ModifyCccrCce { cce: false },
            Command::ModifyCccrInit { init: false },
        ],
        Err(_) => unlocked,
    }
}

impl GuardedConfig {
    /// Starts to change write-protected registers: asks for initialization mode.
    pub fn start(writes: Vec<Command>, result: Result<(), InitializationError>) -> (start: Start<
        GuardedConfig,
    >)
        ensures
            start.commands@ == seq![Command::ModifyCccrInit { init: true }],
            start.op == (GuardedConfig::Entering { iter: 0, writes, result }),
    {
        Start {
            commands: vec![Command::ModifyCccrInit { init: true }],
            op: GuardedConfig::Entering { iter: 0, writes, result },
        }
    }
}

impl Operation for GuardedConfig {
    type Output = Result<(), InitializationError>;

    open spec fn awaits(&self) -> Query {
        Query::Cccr
    }

    open spec fn admits(&self, reply: Reply) -> bool {
        reply is Cccr
    }

    open spec fn commands_on(&self, reply: Reply) -> Seq<Command> {
        match *self {
            GuardedConfig::Entering { iter, writes, result } => if reply->init {
                guarded_commands(writes@, result)
            } else if iter < INIT_POLLS {
                seq![Command::Delay { cycles: INIT_DELAY }]
            } else {
                seq![]
            },
            GuardedConfig::Leaving { iter } => if reply->init && iter < INIT_POLLS {
                seq![Command::Delay { cycles: INIT_DELAY }]
            } else {
                seq![]
            },
        }
    }

    open spec fn next_on(&self, reply: Reply) -> Next<
        GuardedConfig,
        Result<(), InitializationError>,
    > {
        match *self {
            GuardedConfig::Entering { iter, writes, result } => if reply->init {
                match result {
                    Ok(_) => Next::Await(GuardedConfig::Leaving { iter: 0 }),
                    Err(e) => Next::Done(Err(e)),
                }
            } else if iter < INIT_POLLS {
                Next::Await(GuardedConfig::Entering { iter: (iter + 1) as u32, writes, result })
            } else {
                Next::Done(Err(InitializationError::PeripheralTimedOut))
            },
            GuardedConfig::Leaving { iter } => if !reply->init {
                Next::Done(Ok(()))
            } else if iter < INIT_POLLS {
                Next::Await(GuardedConfig::Leaving { iter: (iter + 1) as u32 })
            } else {
                Next::Done(Err(InitializationError::PeripheralTimedOut))
            },
        }
    }

    fn query(&self) -> (query: Query) {
        Query::Cccr
    }

    fn accepts(&self, reply: &Reply) -> (r: bool) {
        matches!(*reply, Reply::Cccr { .. })
    }

    fn resume(self, reply: Reply) -> (transition: Transition<
        GuardedConfig,
        Result<(), InitializationError>,
    >) {
        let init: bool = match reply {
            Reply::Cccr { init } => init,
            _ => false,
        };
        let mut commands: Vec<Command> = Vec::new();
        let next = match self {
            GuardedConfig::Entering { iter, mut writes, result } => {
                if init {
                    commands.push(Command::ModifyCccrCce { cce: true });
                    commands.append(&mut writes);
                    match result {
                        Ok(_) => {
                            commands.push(Command::ModifyCccrCce { cce: false });
                            commands.push(Command::ModifyCccrInit { init: false });
                            Next::Await(GuardedConfig::Leaving { iter: 0 })
                        },
                        Err(e) => Next::Done(Err(e)),
                    }
                } else if iter < INIT_POLLS {
                    commands.push(Command::Delay { cycles: INIT_DELAY });
                    Next::Await(GuardedConfig::Entering { iter: iter + 1, writes, result })
                } else {
                    Next::Done(Err(InitializationError::PeripheralTimedOut))
                }
            },
            GuardedConfig::Leaving { iter } => {
                if !init {
                    Next::Done(Ok(()))
                } else if iter < INIT_POLLS {
                    commands.push(Command::Delay { cycles: INIT_DELAY });
                    Next::Await(GuardedConfig::Leaving { iter: iter + 1 })
                } else {
                    Next::Done(Err(InitializationError::PeripheralTimedOut))
                }
            },
        };
        Transition { commands, next }
    }
}

/// Every reply finds the initialization bit as given.
pub open spec fn init_stays(replies: Seq<Reply>, init: bool) -> bool {
    forall|i: int|
        0 <= i < replies.len() ==> #[trigger] replies[i] == (Reply::Cccr { init })
}

proof fn lemma_entering_polls(
    iter: u32,
    writes: Vec<Command>,
    result: Result<(), InitializationError>,
    replies: Seq<Reply>,
)
    requires
        init_stays(replies, false),
        iter + replies.len() <= INIT_POLLS,
    ensures
        ({
            let op = GuardedConfig::Entering { iter, writes, result };
            &&& outcome(op, replies) == Next::<
                GuardedConfig,
                Result<(), InitializationError>,
            >::Await(
                GuardedConfig::Entering { iter: (iter + replies.len()) as u32, writes, result },
            )
            &&& actions(op, replies) == polls(Query::Cccr, INIT_DELAY, replies.len())
            &&& admissible(op, replies)
        }),
{
    let states = Seq::new(
        replies.len() + 1,
        |i: int| GuardedConfig::Entering { iter: (iter + i) as u32, writes, result },
    );
    lemma_polling(states, replies, Query::Cccr, INIT_DELAY);
}

proof fn lemma_leaving_polls(iter: u32, replies: Seq<Reply>)
    requires
        init_stays(replies, true),
        iter + replies.len() <= INIT_POLLS,
    ensures
        ({
            let op = GuardedConfig::Leaving { iter };
            &&& outcome(op, replies) == Next::<
                GuardedConfig,
                Result<(), InitializationError>,
            >::Await(GuardedConfig::Leaving { iter: (iter + replies.len()) as u32 })
            &&& actions(op, replies) == polls(Query::Cccr, INIT_DELAY, replies.len())
            &&& admissible(op, replies)
        }),
{
    let states = Seq::new(
        replies.len() + 1,
        |i: int| GuardedConfig::Leaving { iter: (iter + i) as u32 },
    );
    lemma_polling(states, replies, Query::Cccr, INIT_DELAY);
}

/// A peripheral that does not enter initialization mode is given up at the read
/// after [`INIT_POLLS`] of them, and no protected register is written.
pub proof fn law_entering_times_out(
    writes: Vec<Command>,
    result: Result<(), InitializationError>,
    replies: Seq<Reply>,
)
    requires
        init_stays(replies, false),
        replies.len() == INIT_POLLS + 1,
    ensures
        ({
            let op = GuardedConfig::Entering { iter: 0, writes, result };
            &&& admissible(op, replies)
            &&& outcome(op, replies) == Next::<
                GuardedConfig,
                Result<(), InitializationError>,
            >::Done(Err(InitializationError::PeripheralTimedOut))
            &&& actions(op, replies) == polls(Query::Cccr, INIT_DELAY, INIT_POLLS as nat) + seq![
                Action::Read(Query::Cccr),
            ]
        }),
{
    let op = GuardedConfig::Entering { iter: 0, writes, result };
    let polled = replies.drop_last();
    let last = replies.last();
    lemma_entering_polls(0, writes, result, polled);
    assert(replies =~= polled + seq![last]);
    lemma_in_two_parts(op, polled, seq![last]);
    lemma_one_reply(GuardedConfig::Entering { iter: INIT_POLLS, writes, result }, last);
    assert(actions(op, replies) =~= polls(Query::Cccr, INIT_DELAY, INIT_POLLS as nat) + seq![
        Action::Read(Query::Cccr),
    ]);
}

/// Protected registers are written when initialization mode was found entered:
/// between the unlock and the lock if all went well. If not, the operation ends
/// there with that error, and the peripheral is not placed back into normal mode.
pub proof fn law_writes_are_guarded(
    writes: Vec<Command>,
    result: Result<(), InitializationError>,
    entering: Seq<Reply>,
)
    requires
        init_stays(entering, false),
        entering.len() <= INIT_POLLS,
    ensures
        ({
            let op = GuardedConfig::Entering { iter: 0, writes, result };
            let replies = entering + seq![Reply::Cccr { init: true }];
            &&& admissible(op, replies)
            &&& actions(op, replies) == polls(Query::Cccr, INIT_DELAY, entering.len()) + seq![
                Action::Read(Query::Cccr),
            ] + performed(guarded_commands(writes@, result))
            &&& outcome(op, replies) == match result {
                Ok(_) => Next::<GuardedConfig, Result<(), InitializationError>>::Await(
                    GuardedConfig::Leaving { iter: 0 },
                ),
                Err(e) => Next::<GuardedConfig, Result<(), InitializationError>>::Done(Err(e)),
            }
        }),
{
    let op = GuardedConfig::Entering { iter: 0, writes, result };
    let last = Reply::Cccr { init: true };
    lemma_entering_polls(0, writes, result, entering);
    lemma_in_two_parts(op, entering, seq![last]);
    lemma_one_reply(
        GuardedConfig::Entering { iter: entering.len() as u32, writes, result },
        last,
    );
    assert(actions(op, entering + seq![last]) =~= polls(Query::Cccr, INIT_DELAY, entering.len())
        + seq![Action::Read(Query::Cccr)] + performed(guarded_commands(writes@, result)));
}

/// A peripheral that stays in initialization mode is given up at the read after
/// [`INIT_POLLS`] of them.
pub proof fn law_leaving_times_out(replies: Seq<Reply>)
    requires
        init_stays(replies, true),
        replies.len() == INIT_POLLS + 1,
    ensures
        ({
            let op = GuardedConfig::Leaving { iter: 0 };
            &&& admissible(op, replies)
            &&& outcome(op, replies) == Next::<
                GuardedConfig,
                Result<(), InitializationError>,
            >::Done(Err(InitializationError::PeripheralTimedOut))
            &&& actions(op, replies) == polls(Query::Cccr, INIT_DELAY, INIT_POLLS as nat) + seq![
                Action::Read(Query::Cccr),
            ]
        }),
{
    let op = GuardedConfig::Leaving { iter: 0 };
    let polled = replies.drop_last();
    let last = replies.last();
    lemma_leaving_polls(0, polled);
    assert(replies =~= polled + seq![last]);
    lemma_in_two_parts(op, polled, seq![last]);
    lemma_one_reply(GuardedConfig::Leaving { iter: INIT_POLLS }, last);
    assert(actions(op, replies) =~= polls(Query::Cccr, INIT_DELAY, INIT_POLLS as nat) + seq![
        Action::Read(Query::Cccr),
    ]);
}

/// A peripheral that enters and leaves initialization mode in time has its
/// protected registers written: the whole conversation.
pub proof fn law_guarded_config_succeeds(
    writes: Vec<Command>,
    entering: Seq<Reply>,
    leaving: Seq<Reply>,
)
    requires
        init_stays(entering, false),
        entering.len() <= INIT_POLLS,
        init_stays(leaving, true),
        leaving.len() <= INIT_POLLS,
    ensures
        ({
            let op = GuardedConfig::Entering { iter: 0, writes, result: Ok(()) };
            let replies = entering + seq![Reply::Cccr { init: true }] + (leaving + seq![
                Reply::Cccr { init: false },
            ]);
            &&& admissible(op, replies)
            &&& outcome(op, replies) == Next::<
                GuardedConfig,
                Result<(), InitializationError>,
            >::Done(Ok(()))
            &&& actions(op, replies) == polls(Query::Cccr, INIT_DELAY, entering.len()) + seq![
                Action::Read(Query::Cccr),
            ] + performed(guarded_commands(writes@, Ok(()))) + (polls(
                Query::Cccr,
                INIT_DELAY,
                leaving.len(),
            ) + seq![Action::Read(Query::Cccr)])
        }),
{
    let op = GuardedConfig::Entering { iter: 0, writes, result: Ok(()) };
    let last = Reply::Cccr { init: false };
    let back = GuardedConfig::Leaving { iter: 0 };
    law_writes_are_guarded(writes, Ok(()), entering);
    lemma_leaving_polls(0, leaving);
    lemma_in_two_parts(back, leaving, seq![last]);
    lemma_one_reply(GuardedConfig::Leaving { iter: leaving.len() as u32 }, last);
    assert(actions(back, leaving + seq![last]) =~= polls(Query::Cccr, INIT_DELAY, leaving.len())
        + seq![Action::Read(Query::Cccr)]);
    lemma_in_two_parts(op, entering + seq![Reply::Cccr { init: true }], leaving + seq![last]);
}

/// When the writes fail, nothing that is performed from then on, whatever is
/// read, locks the registers or leaves initialization mode.
pub proof fn law_failure_stays_in_init(
    iter: u32,
    writes: Vec<Command>,
    e: InitializationError,
    replies: Seq<Reply>,
    i: int,
)
    requires
        forall|j: int|
            0 <= j < writes@.len() ==> #[trigger] writes@[j] != (Command::ModifyCccrCce {
                cce: false,
            }) && writes@[j] != (Command::ModifyCccrInit { init: false }),
        0 <= i < actions(GuardedConfig::Entering { iter, writes, result: Err(e) }, replies).len(),
    ensures
        ({
            let done = actions(GuardedConfig::Entering { iter, writes, result: Err(e) }, replies);
            &&& done[i] != Action::Perform(Command::ModifyCccrCce { cce: false })
            &&& done[i] != Action::Perform(Command::ModifyCccrInit { init: false })
        }),
    decreases replies.len(),
{
    let op = GuardedConfig::Entering { iter, writes, result: Err(e) };
    if replies.len() > 0 {
        let step = seq![Action::Read(op.awaits())] + performed(op.commands_on(replies[0]));
        match op.next_on(replies[0]) {
            Next::Await(next) => {
                if i >= step.len() {
                    law_failure_stays_in_init(
                        (iter + 1) as u32,
                        writes,
                        e,
                        replies.skip(1),
                        i - step.len(),
                    );
                }
            },
            Next::Done(_) => {},
        }
        if 1 <= i < step.len() {
            assert(step[i] == Action::Perform(op.commands_on(replies[0])[i - 1]));
        }
    }
}

proof fn lemma_leaving_parts(iter: u32, replies: Seq<Reply>) -> (leaving: Seq<Reply>)
    requires
        iter <= INIT_POLLS,
        admissible(GuardedConfig::Leaving { iter }, replies),
        outcome(GuardedConfig::Leaving { iter }, replies) == Next::<
            GuardedConfig,
            Result<(), InitializationError>,
        >::Done(Ok(())),
    ensures
        init_stays(leaving, true),
        iter + leaving.len() <= INIT_POLLS,
        replies == leaving + seq![Reply::Cccr { init: false }],
    decreases replies.len(),
{
    let first = replies[0];
    let rest = replies.skip(1);
    assert(replies =~= seq![first] + rest);
    if !first->init {
        let leaving = Seq::<Reply>::empty();
        assert(replies =~= leaving + seq![Reply::Cccr { init: false }]);
        leaving
    } else {
        let tail = lemma_leaving_parts((iter + 1) as u32, rest);
        let leaving = seq![first] + tail;
        assert forall|i: int| 0 <= i < leaving.len() implies #[trigger] leaving[i]
            == (Reply::Cccr { init: true }) by {
            if i > 0 {
                assert(leaving[i] == tail[i - 1]);
            }
        }
        assert(replies =~= leaving + seq![Reply::Cccr { init: false }]);
        leaving
    }
}

proof fn lemma_guarded_parts(iter: u32, writes: Vec<Command>, replies: Seq<Reply>) -> (parts: (
    Seq<Reply>,
    Seq<Reply>,
))
    requires
        iter <= INIT_POLLS,
        admissible(GuardedConfig::Entering { iter, writes, result: Ok(()) }, replies),
        outcome(GuardedConfig::Entering { iter, writes, result: Ok(()) }, replies) == Next::<
            GuardedConfig,
            Result<(), InitializationError>,
        >::Done(Ok(())),
    ensures
        init_stays(parts.0, false),
        iter + parts.0.len() <= INIT_POLLS,
        init_stays(parts.1, true),
        parts.1.len() <= INIT_POLLS,
        replies == parts.0 + seq![Reply::Cccr { init: true }] + (parts.1 + seq![
            Reply::Cccr { init: false },
        ]),
    decreases replies.len(),
{
    let first = replies[0];
    let rest = replies.skip(1);
    assert(replies =~= seq![first] + rest);
    if first->init {
        let leaving = lemma_leaving_parts(0, rest);
        let entering = Seq::<Reply>::empty();
        assert(replies =~= entering + seq![Reply::Cccr { init: true }] + (leaving + seq![
            Reply::Cccr { init: false },
        ]));
        (entering, leaving)
    } else {
        let parts = lemma_guarded_parts((iter + 1) as u32, writes, rest);
        let entering = seq![first] + parts.0;
        assert forall|i: int| 0 <= i < entering.len() implies #[trigger] entering[i]
            == (Reply::Cccr { init: false }) by {
            if i > 0 {
                assert(entering[i] == parts.0[i - 1]);
            }
        }
        assert(replies =~= entering + seq![Reply::Cccr { init: true }] + (parts.1 + seq![
            Reply::Cccr { init: false },
        ]));
        (entering, parts.1)
    }
}

/// Every change of protected registers that succeeds is one of those of
/// [`law_guarded_config_succeeds`]: initialization mode was found entered, and
/// later left, with at most [`INIT_POLLS`] reads before each.
pub proof fn law_guarded_config_succeeds_only_so(
    writes: Vec<Command>,
    replies: Seq<Reply>,
) -> (parts: (Seq<Reply>, Seq<Reply>))
    requires
        admissible(GuardedConfig::Entering { iter: 0, writes, result: Ok(()) }, replies),
        outcome(GuardedConfig::Entering { iter: 0, writes, result: Ok(()) }, replies) == Next::<
            GuardedConfig,
            Result<(), InitializationError>,
        >::Done(Ok(())),
    ensures
        init_stays(parts.0, false),
        parts.0.len() <= INIT_POLLS,
        init_stays(parts.1, true),
        parts.1.len() <= INIT_POLLS,
        replies == parts.0 + seq![Reply::Cccr { init: true }] + (parts.1 + seq![
            Reply::Cccr { init: false },
        ]),
{
    lemma_guarded_parts(0, writes, replies)
}

/// How many reads are left at most.
pub open spec fn reads_left(op: GuardedConfig) -> int {
    match op {
        GuardedConfig::Entering { iter, .. } => (INIT_POLLS - iter) + 1 + (INIT_POLLS + 1),
        GuardedConfig::Leaving { iter } => (INIT_POLLS - iter) + 1,
    }
}

proof fn lemma_reads_left(op: GuardedConfig, replies: Seq<Reply>)
    requires
        admissible(op, replies),
        op matches GuardedConfig::Entering { iter, .. } ==> iter <= INIT_POLLS,
        op matches GuardedConfig::Leaving { iter } ==> iter <= INIT_POLLS,
    ensures
        replies.len() <= reads_left(op),
        replies.len() == reads_left(op) ==> outcome(op, replies) is Done,
    decreases replies.len(),
{
    if replies.len() > 0 {
        match op.next_on(replies[0]) {
            Next::Await(next) => lemma_reads_left(next, replies.skip(1)),
            Next::Done(_) => {},
        }
    }
}

/// A change of protected registers comes to an end: after 20004 reads at the
/// latest.
pub proof fn law_guarded_config_ends(
    writes: Vec<Command>,
    result: Result<(), InitializationError>,
    replies: Seq<Reply>,
)
    requires
        admissible(GuardedConfig::Entering { iter: 0, writes, result }, replies),
    ensures
        replies.len() <= 20004,
        replies.len() == 20004 ==> outcome(
            GuardedConfig::Entering { iter: 0, writes, result },
            replies,
        ) is Done,
{
    lemma_reads_left(GuardedConfig::Entering { iter: 0, writes, result }, replies);
}

/// In initialization mode the registers are unlocked first, and then each write is
/// performed, once and in order. If all went well they are locked, and then normal
/// mode is asked for; if not, nothing follows and the error is the result.
pub proof fn law_unlocked_writes(
    iter: u32,
    writes: Vec<Command>,
    result: Result<(), InitializationError>,
)
    ensures
        ({
            let op = GuardedConfig::Entering { iter, writes, result };
            let reply = Reply::Cccr { init: true };
            let commands = op.commands_on(reply);
            let n = writes@.len() as int;
            &&& commands.len() == n + if result is Ok {
                3int
            } else {
                1int
            }
            &&& commands[0] == (Command::ModifyCccrCce { cce: true })
            &&& forall|i: int| 0 <= i < n ==> commands[i + 1] == #[trigger] writes@[i]
            &&& result is Ok ==> commands[n + 1] == (Command::ModifyCccrCce { cce: false })
            &&& result is Ok ==> commands[n + 2] == (Command::ModifyCccrInit { init: false })
            &&& result is Ok ==> op.next_on(reply) == Next::<
                GuardedConfig,
                Result<(), InitializationError>,
            >::Await(GuardedConfig::Leaving { iter: 0 })
            &&& result matches Err(e) ==> op.next_on(reply) == Next::<
                GuardedConfig,
                Result<(), InitializationError>,
            >::Done(Err(e))
        }),
{
}

/// Until initialization mode is entered there is a pause of ten cycles, up to 10001
/// times, and at the next time the peripheral is given up. Nothing is written.
pub proof fn law_initialization_mode_is_waited_for(
    iter: u32,
    writes: Vec<Command>,
    result: Result<(), InitializationError>,
)
    ensures
        ({
            let op = GuardedConfig::Entering { iter, writes, result };
            let reply = Reply::Cccr { init: false };
            let next = op.next_on(reply);
            &&& iter < 10001 ==> op.commands_on(reply) == seq![Command::Delay { cycles: 10 }]
            &&& iter < 10001 ==> next == Next::<
                GuardedConfig,
                Result<(), InitializationError>,
            >::Await(GuardedConfig::Entering { iter: (iter + 1) as u32, writes, result })
            &&& iter >= 10001 ==> op.commands_on(reply).len() == 0
            &&& iter >= 10001 ==> next == Next::<
                GuardedConfig,
                Result<(), InitializationError>,
            >::Done(Err(InitializationError::PeripheralTimedOut))
        }),
{
}

/// The change is done exactly when initialization mode is left. Until then there is
/// a pause of ten cycles, up to 10001 times, and at the next time the peripheral is
/// given up. Nothing is written.
pub proof fn law_normal_mode_is_waited_for(iter: u32, init: bool)
    ensures
        ({
            let op = GuardedConfig::Leaving { iter };
            let reply = Reply::Cccr { init };
            let next = op.next_on(reply);
            &&& !init <==> next == Next::<GuardedConfig, Result<(), InitializationError>>::Done(
                Ok(()),
            )
            &&& init && iter < 10001 <==> (next matches Next::Await(GuardedConfig::Leaving {
                iter: later,
            }) && later == iter + 1)
            &&& init && iter >= 10001 <==> next == Next::<
                GuardedConfig,
                Result<(), InitializationError>,
            >::Done(Err(InitializationError::PeripheralTimedOut))
            &&& init && iter < 10001 ==> op.commands_on(reply) == seq![
                Command::Delay { cycles: 10 },
            ]
            &&& !(init && iter < 10001) ==> op.commands_on(reply).len() == 0
        }),
{
}

/// A change of protected registers reads the control register, and goes on from
/// nothing else.
pub proof fn law_guarded_config_admits_only_answers(op: GuardedConfig, reply: Reply)
    ensures
        op.awaits() == Query::Cccr,
        op.admits(reply) <==> reply is Cccr,
{
}

} // verus!
