//! Bringing the peripheral up.

use vstd::prelude::*;

use crate::can::Can;
use crate::config::{Config, InitializationError};
use crate::guarded::GuardedConfig;
use crate::guarded::{
    guarded_commands, init_stays, law_guarded_config_ends, law_guarded_config_succeeds,
    law_guarded_config_succeeds_only_so, INIT_DELAY, INIT_POLLS,
};
use crate::io::{Command, Next, Operation, Query, Reply, Start, SubsysStat, Transition};
use crate::io::{
    actions, admissible, lemma_in_two_parts, lemma_one_reply, lemma_polls_pause, outcome, performed,
    polls, Action,
};
use crate::msgram::McanMessageRAM;
use crate::poweron::PowerOn;
use crate::poweron::{
    in_mem_init, in_reset, law_power_on_succeeds, law_power_on_succeeds_only_so, STATUS_DELAY,
    STATUS_POLLS,
};
use crate::setup::{law_setup_places_the_configured_timing, setup_commands};

verus! {

/// The peripheral is being brought up: it is powered on, and then its protected
/// registers are set up.
pub enum Initialize {
    /// It is powered on. `setup` comes after that.
    PoweringOn { stage: PowerOn, setup: Vec<Command>, config: Config },
    /// Its protected registers are set up.
    Configuring { guarded: GuardedConfig, config: Config },
}

impl Operation for Initialize {
    type Output = Result<Can, InitializationError>;

    open spec fn awaits(&self) -> Query {
        match *self {
            Initialize::PoweringOn { stage, .. } => stage.awaits(),
            Initialize::Configuring { guarded, .. } => guarded.awaits(),
        }
    }

    /// Once the registers are to be written, the timings have to be representable.
    open spec fn admits(&self, reply: Reply) -> bool {
        match *self {
            Initialize::PoweringOn { stage, .. } => stage.admits(reply),
            Initialize::Configuring { guarded, config } => guarded.admits(reply) && (
            guarded is Entering && reply->init ==> config.timing.representable()),
        }
    }

    /// A peripheral that came up is asked to enter initialization mode.
    open spec fn commands_on(&self, reply: Reply) -> Seq<Command> {
        match *self {
            Initialize::PoweringOn { stage, .. } => match stage.next_on(reply) {
                Next::Done(Ok(_)) => stage.commands_on(reply).push(
                    Command::ModifyCccrInit { init: true },
                ),
                _ => stage.commands_on(reply),
            },
            Initialize::Configuring { guarded, .. } => guarded.commands_on(reply),
        }
    }

    open spec fn next_on(&self, reply: Reply) -> Next<
        Initialize,
        Result<Can, InitializationError>,
    > {
        match *self {
            Initialize::PoweringOn { stage, setup, config } => match stage.next_on(reply) {
                Next::Await(stage) => Next::Await(Initialize::PoweringOn { stage, setup, config }),
                Next::Done(Ok(_)) => Next::Await(
                    Initialize::Configuring {
                        guarded: GuardedConfig::Entering { iter: 0, writes: setup, result: Ok(()) },
                        config,
                    },
                ),
                Next::Done(Err(e)) => Next::Done(Err(e)),
            },
            Initialize::Configuring { guarded, config } => match guarded.next_on(reply) {
                Next::Await(guarded) => Next::Await(Initialize::Configuring { guarded, config }),
                Next::Done(Ok(_)) => Next::Done(Ok(Can::of(config))),
                Next::Done(Err(e)) => Next::Done(Err(e)),
            },
        }
    }

    fn query(&self) -> (query: Query) {
        match self {
            Initialize::PoweringOn { stage, .. } => stage.query(),
            Initialize::Configuring { guarded, .. } => guarded.query(),
        }
    }

    fn accepts(&self, reply: &Reply) -> (r: bool) {
        match self {
            Initialize::PoweringOn { stage, .. } => stage.accepts(reply),
            Initialize::Configuring { guarded, config } => {
                let writes_now: bool = matches!(guarded, GuardedConfig::Entering { .. })
                    && matches!(*reply, Reply::Cccr { init: true });
                guarded.accepts(reply) && (!writes_now || config.timing.is_representable())
            },
        }
    }

    fn resume(self, reply: Reply) -> (transition: Transition<
        Initialize,
        Result<Can, InitializationError>,
    >) {
        match self {
            Initialize::PoweringOn { stage, setup, config } => {
                let Transition { mut commands, next } = stage.resume(reply);
                match next {
                    Next::Await(stage) => Transition {
                        commands,
                        next: Next::Await(Initialize::PoweringOn { stage, setup, config }),
                    },
                    Next::Done(Ok(_)) => {
                        let Start { commands: mut entering, op } = GuardedConfig::start(
                            setup,
                            Ok(()),
                        );
                        commands.append(&mut entering);
                        Transition {
                            commands,
                            next: Next::Await(
                                Initialize::Configuring { guarded: op, config },
                            ),
                        }
                    },
                    Next::Done(Err(e)) => Transition { commands, next: Next::Done(Err(e)) },
                }
            },
            Initialize::Configuring { guarded, config } => {
                let Transition { commands, next } = guarded.resume(reply);
                match next {
                    Next::Await(guarded) => Transition {
                        commands,
                        next: Next::Await(Initialize::Configuring { guarded, config }),
                    },
                    Next::Done(Ok(_)) => Transition {
                        commands,
                        next: Next::Done(Ok(Can::assemble(config))),
                    },
                    Next::Done(Err(e)) => Transition { commands, next: Next::Done(Err(e)) },
                }
            },
        }
    }
}

/// Until the peripheral is up, initialization does what power-on does. If power-on
/// fails so does initialization, and no protected register was written. If it
/// succeeds, initialization mode is asked for.
pub proof fn law_initialize_powers_on_first(
    stage: PowerOn,
    setup: Vec<Command>,
    config: Config,
    replies: Seq<Reply>,
)
    requires
        admissible(stage, replies),
    ensures
        ({
            let op = Initialize::PoweringOn { stage, setup, config };
            &&& admissible(op, replies)
            &&& match outcome(stage, replies) {
                Next::Await(stage) => outcome(op, replies) == Next::<
                    Initialize,
                    Result<Can, InitializationError>,
                >::Await(Initialize::PoweringOn { stage, setup, config }),
                Next::Done(Ok(_)) => outcome(op, replies) == Next::<
                    Initialize,
                    Result<Can, InitializationError>,
                >::Await(
                    Initialize::Configuring {
                        guarded: GuardedConfig::Entering { iter: 0, writes: setup, result: Ok(()) },
                        config,
                    },
                ),
                Next::Done(Err(e)) => outcome(op, replies) == Next::<
                    Initialize,
                    Result<Can, InitializationError>,
                >::Done(Err(e)),
            }
            &&& actions(op, replies) == if outcome(stage, replies) matches Next::Done(Ok(_)) {
                actions(stage, replies).push(
                    Action::Perform(Command::ModifyCccrInit { init: true }),
                )
            } else {
                actions(stage, replies)
            }
        }),
    decreases replies.len(),
{
    let op = Initialize::PoweringOn { stage, setup, config };
    if replies.len() > 0 {
        let step = seq![Action::Read(stage.awaits())] + performed(stage.commands_on(replies[0]));
        match stage.next_on(replies[0]) {
            Next::Await(next) => {
                law_initialize_powers_on_first(next, setup, config, replies.skip(1));
                if outcome(stage, replies) matches Next::Done(Ok(_)) {
                    assert(actions(op, replies) =~= actions(stage, replies).push(
                        Action::Perform(Command::ModifyCccrInit { init: true }),
                    ));
                }
            },
            Next::Done(Ok(_)) => {
                reveal_with_fuel(admissible, 2);
                reveal_with_fuel(outcome, 2);
                reveal_with_fuel(actions, 2);
                assert(replies.skip(1).len() == 0);
                assert(actions(op, replies) =~= actions(stage, replies).push(
                    Action::Perform(Command::ModifyCccrInit { init: true }),
                ));
            },
            Next::Done(Err(_)) => {},
        }
    }
}

/// Once the peripheral is up, initialization does what the guarded change of its
/// registers does, and ends as that ends. If it ends well there is a driver, with
/// the configuration that was given.
pub proof fn law_initialize_configures_last(
    guarded: GuardedConfig,
    config: Config,
    replies: Seq<Reply>,
)
    ensures
        ({
            let op = Initialize::Configuring { guarded, config };
            &&& admissible(op, replies) ==> admissible(guarded, replies)
            &&& config.timing.representable() ==> admissible(op, replies) == admissible(
                guarded,
                replies,
            )
            &&& actions(op, replies) == actions(guarded, replies)
            &&& outcome(op, replies) == match outcome(guarded, replies) {
                Next::Await(guarded) => Next::<Initialize, Result<Can, InitializationError>>::Await(
                    Initialize::Configuring { guarded, config },
                ),
                Next::Done(Ok(_)) => Next::<Initialize, Result<Can, InitializationError>>::Done(
                    Ok(Can::of(config)),
                ),
                Next::Done(Err(e)) => Next::<Initialize, Result<Can, InitializationError>>::Done(
                    Err(e),
                ),
            }
        }),
    decreases replies.len(),
{
    if replies.len() > 0 {
        match guarded.next_on(replies[0]) {
            Next::Await(next) => law_initialize_configures_last(
                next,
                config,
                replies.skip(1),
            ),
            Next::Done(_) => {},
        }
    }
}

/// A peripheral that answers in time is brought up: the whole conversation. The
/// protected registers are written once each, in order, between unlock and lock.
pub proof fn law_initialize_succeeds(
    setup: Vec<Command>,
    config: Config,
    resetting: Seq<Reply>,
    reset_over: SubsysStat,
    initializing: Seq<Reply>,
    init_over: SubsysStat,
    crel: u32,
    entering: Seq<Reply>,
    leaving: Seq<Reply>,
)
    requires
        config.timing.representable(),
        in_reset(resetting),
        resetting.len() <= STATUS_POLLS,
        !reset_over.reset,
        in_mem_init(initializing),
        initializing.len() <= STATUS_POLLS,
        init_over.mem_init_done,
        crel != 0,
        init_stays(entering, false),
        entering.len() <= INIT_POLLS,
        init_stays(leaving, true),
        leaving.len() <= INIT_POLLS,
    ensures
        ({
            let op = Initialize::PoweringOn {
                stage: PowerOn::Reset { iter: 0 },
                setup,
                config,
            };
            let up = resetting + seq![Reply::SubsysStat(reset_over)] + (initializing + seq![
                Reply::SubsysStat(init_over),
                Reply::Crel(crel),
            ]);
            let configured = entering + seq![Reply::Cccr { init: true }] + (leaving + seq![
                Reply::Cccr { init: false },
            ]);
            &&& admissible(op, up + configured)
            &&& outcome(op, up + configured) == Next::<
                Initialize,
                Result<Can, InitializationError>,
            >::Done(Ok(Can::of(config)))
            &&& actions(op, up + configured) == polls(
                Query::SubsysStat,
                STATUS_DELAY,
                resetting.len(),
            ) + seq![Action::Read(Query::SubsysStat)] + (polls(
                Query::SubsysStat,
                STATUS_DELAY,
                initializing.len(),
            ) + seq![
                Action::Read(Query::SubsysStat),
                Action::Read(Query::Crel),
                Action::Perform(Command::ModifyCccrInit { init: true }),
            ]) + (polls(Query::Cccr, INIT_DELAY, entering.len()) + seq![Action::Read(Query::Cccr)]
                + performed(guarded_commands(setup@, Ok(()))) + (polls(
                Query::Cccr,
                INIT_DELAY,
                leaving.len(),
            ) + seq![Action::Read(Query::Cccr)]))
        }),
{
    let stage = PowerOn::Reset { iter: 0 };
    let op = Initialize::PoweringOn { stage, setup, config };
    let up = resetting + seq![Reply::SubsysStat(reset_over)] + (initializing + seq![
        Reply::SubsysStat(init_over),
        Reply::Crel(crel),
    ]);
    let configured = entering + seq![Reply::Cccr { init: true }] + (leaving + seq![
        Reply::Cccr { init: false },
    ]);
    law_power_on_succeeds(resetting, reset_over, initializing, init_over, crel);
    law_initialize_powers_on_first(stage, setup, config, up);
    law_guarded_config_succeeds(setup, entering, leaving);
    law_initialize_configures_last(
        GuardedConfig::Entering { iter: 0, writes: setup, result: Ok(()) },
        config,
        configured,
    );
    lemma_in_two_parts(op, up, configured);
    assert(actions(op, up) =~= polls(Query::SubsysStat, STATUS_DELAY, resetting.len()) + seq![
        Action::Read(Query::SubsysStat),
    ] + (polls(Query::SubsysStat, STATUS_DELAY, initializing.len()) + seq![
        Action::Read(Query::SubsysStat),
        Action::Read(Query::Crel),
        Action::Perform(Command::ModifyCccrInit { init: true }),
    ]));
}

/// Initialization succeeds only if power-on does and then the setup of the
/// protected registers does: after the first of the two returned parts of the
/// replies, and after the second.
pub proof fn law_initialize_succeeds_only_so(
    stage: PowerOn,
    setup: Vec<Command>,
    config: Config,
    replies: Seq<Reply>,
) -> (parts: (Seq<Reply>, Seq<Reply>))
    requires
        admissible(Initialize::PoweringOn { stage, setup, config }, replies),
        outcome(Initialize::PoweringOn { stage, setup, config }, replies) matches Next::Done(
            Ok(_),
        ),
    ensures
        replies == parts.0 + parts.1,
        admissible(stage, parts.0),
        outcome(stage, parts.0) == Next::<PowerOn, Result<(), InitializationError>>::Done(Ok(())),
        ({
            let guarded = GuardedConfig::Entering { iter: 0, writes: setup, result: Ok(()) };
            &&& admissible(guarded, parts.1)
            &&& outcome(guarded, parts.1) == Next::<
                GuardedConfig,
                Result<(), InitializationError>,
            >::Done(Ok(()))
        }),
    decreases replies.len(),
{
    let first = replies[0];
    let rest = replies.skip(1);
    assert(replies =~= seq![first] + rest);
    match stage.next_on(first) {
        Next::Await(next) => {
            let parts = law_initialize_succeeds_only_so(next, setup, config, rest);
            let up = seq![first] + parts.0;
            assert(up.skip(1) =~= parts.0);
            assert(replies =~= up + parts.1);
            (up, parts.1)
        },
        Next::Done(_) => {
            let guarded = GuardedConfig::Entering { iter: 0, writes: setup, result: Ok(()) };
            law_initialize_configures_last(guarded, config, rest);
            lemma_one_reply(stage, first);
            assert(outcome(guarded, rest)->Done_0->Ok_0 == ());
            (seq![first], rest)
        },
    }
}

/// Initialization comes to an end: after 22009 reads at the latest.
pub proof fn law_initialize_ends(
    setup: Vec<Command>,
    config: Config,
    replies: Seq<Reply>,
)
    requires
        admissible(
            Initialize::PoweringOn { stage: PowerOn::Reset { iter: 0 }, setup, config },
            replies,
        ),
    ensures
        replies.len() <= 22009,
        replies.len() == 22009 ==> outcome(
            Initialize::PoweringOn { stage: PowerOn::Reset { iter: 0 }, setup, config },
            replies,
        ) is Done,
{
    lemma_initialize_reads(PowerOn::Reset { iter: 0 }, setup, config, replies);
}

proof fn lemma_initialize_reads(
    stage: PowerOn,
    setup: Vec<Command>,
    config: Config,
    replies: Seq<Reply>,
)
    requires
        admissible(Initialize::PoweringOn { stage, setup, config }, replies),
        stage matches PowerOn::Reset { iter } ==> iter <= STATUS_POLLS,
        stage matches PowerOn::MemInit { iter } ==> iter <= STATUS_POLLS,
    ensures
        replies.len() <= crate::poweron::reads_left(stage) + 20004,
        replies.len() == crate::poweron::reads_left(stage) + 20004 ==> outcome(
            Initialize::PoweringOn { stage, setup, config },
            replies,
        ) is Done,
    decreases replies.len(),
{
    if replies.len() > 0 {
        match stage.next_on(replies[0]) {
            Next::Await(next) => lemma_initialize_reads(
                next,
                setup,
                config,
                replies.skip(1),
            ),
            Next::Done(Ok(_)) => {
                law_initialize_configures_last(
                    GuardedConfig::Entering { iter: 0, writes: setup, result: Ok(()) },
                    config,
                    replies.skip(1),
                );
                law_guarded_config_ends(setup, Ok(()), replies.skip(1));
            },
            Next::Done(Err(_)) => {},
        }
    }
}

/// A driver comes only of a peripheral that was last found in normal mode, and it
/// has the configuration that was given.
pub proof fn law_driver_starts_in_normal_mode(op: Initialize, replies: Seq<Reply>, can: Can)
    requires
        admissible(op, replies),
        outcome(op, replies) == Next::<Initialize, Result<Can, InitializationError>>::Done(Ok(can)),
    ensures
        replies.len() > 0,
        replies.last() == (Reply::Cccr { init: false }),
        match op {
            Initialize::PoweringOn { config, .. } => can == Can::of(config),
            Initialize::Configuring { config, .. } => can == Can::of(config),
        },
    decreases replies.len(),
{
    match op.next_on(replies[0]) {
        Next::Await(next) => {
            law_driver_starts_in_normal_mode(next, replies.skip(1), can);
            assert(replies.skip(1).last() == replies.last());
        },
        Next::Done(_) => {},
    }
}

/// A driver comes only of timings that are representable: without them no reply is
/// admitted that would have the protected registers written.
pub proof fn law_driver_needs_representable_timings(
    op: Initialize,
    replies: Seq<Reply>,
    config: Config,
)
    requires
        admissible(op, replies),
        outcome(op, replies) matches Next::Done(Ok(_)),
        op matches Initialize::PoweringOn { config: kept, .. } ==> kept == config,
        op matches Initialize::Configuring { guarded, config: kept } ==> guarded is Entering && kept
            == config,
    ensures
        config.timing.representable(),
    decreases replies.len(),
{
    match op.next_on(replies[0]) {
        Next::Await(next) => {
            let done = next matches Initialize::Configuring { guarded, .. } && guarded is Leaving;
            if !done {
                law_driver_needs_representable_timings(next, replies.skip(1), config);
            }
        },
        Next::Done(_) => {},
    }
}

/// Each wait has found its end missing no more often than its bound.
pub open spec fn within_bounds(op: Initialize) -> bool {
    match op {
        Initialize::PoweringOn { stage: PowerOn::Reset { iter }, .. } => iter <= STATUS_POLLS,
        Initialize::PoweringOn { stage: PowerOn::MemInit { iter }, .. } => iter <= STATUS_POLLS,
        Initialize::PoweringOn { stage: PowerOn::Version, .. } => true,
        Initialize::Configuring { guarded: GuardedConfig::Entering { iter, result, .. }, .. } => {
            iter <= INIT_POLLS && result is Ok
        },
        Initialize::Configuring { guarded: GuardedConfig::Leaving { iter }, .. } => iter
            <= INIT_POLLS,
    }
}

/// The wait is at its bound and the reply still does not find it over, or the reply
/// is a release of zero.
pub open spec fn gives_up(op: Initialize, reply: Reply) -> bool {
    match op {
        Initialize::PoweringOn { stage: PowerOn::Reset { iter }, .. } => iter == STATUS_POLLS
            && reply->SubsysStat_0.reset,
        Initialize::PoweringOn { stage: PowerOn::MemInit { iter }, .. } => iter == STATUS_POLLS
            && !reply->SubsysStat_0.mem_init_done,
        Initialize::PoweringOn { stage: PowerOn::Version, .. } => reply->Crel_0 == 0,
        Initialize::Configuring { guarded: GuardedConfig::Entering { iter, .. }, .. } => iter
            == INIT_POLLS && !reply->init,
        Initialize::Configuring { guarded: GuardedConfig::Leaving { iter }, .. } => iter
            == INIT_POLLS && reply->init,
    }
}

/// Initialization ends in an error if and only if the last reply came when a wait
/// was at its bound and still did not find it over, or was a release of zero.
pub proof fn law_initialize_fails_only_so(op: Initialize, replies: Seq<Reply>)
    requires
        within_bounds(op),
        admissible(op, replies),
        replies.len() > 0,
    ensures
        outcome(op, replies.drop_last()) matches Next::Await(last) && {
            &&& within_bounds(last)
            &&& last.admits(replies.last())
            &&& (outcome(op, replies) matches Next::Done(Err(_))) <==> gives_up(
                last,
                replies.last(),
            )
        },
    decreases replies.len(),
{
    let rest = replies.skip(1);
    let before = replies.drop_last();
    match op.next_on(replies[0]) {
        Next::Await(next) => {
            if rest.len() > 0 {
                law_initialize_fails_only_so(next, rest);
                assert(before.skip(1) =~= rest.drop_last());
                assert(rest.last() == replies.last());
            }
        },
        Next::Done(_) => {},
    }
}

/// The only error of initialization is that the peripheral timed out, whatever is
/// read.
pub proof fn law_initialize_only_times_out(
    op: Initialize,
    replies: Seq<Reply>,
    e: InitializationError,
)
    requires
        outcome(op, replies) == Next::<Initialize, Result<Can, InitializationError>>::Done(Err(e)),
        op matches Initialize::Configuring {
            guarded: GuardedConfig::Entering { result, .. },
            ..
        } ==> result is Ok,
    ensures
        e == InitializationError::PeripheralTimedOut,
    decreases replies.len(),
{
    if replies.len() > 0 {
        match op.next_on(replies[0]) {
            Next::Await(next) => law_initialize_only_times_out(next, replies.skip(1), e),
            Next::Done(_) => {},
        }
    }
}

/// In every run that brings the peripheral up, each setup write is performed once
/// and in order, from the returned place on: right after the registers were unlocked
/// and right before they are locked and normal mode is asked for. The rest of the
/// run reads, pauses, and asks for initialization mode.
pub proof fn law_bring_up_performs_the_setup(
    setup: Vec<Command>,
    config: Config,
    replies: Seq<Reply>,
) -> (place: int)
    requires
        admissible(
            Initialize::PoweringOn { stage: PowerOn::Reset { iter: 0 }, setup, config },
            replies,
        ),
        outcome(
            Initialize::PoweringOn { stage: PowerOn::Reset { iter: 0 }, setup, config },
            replies,
        ) matches Next::Done(Ok(_)),
    ensures
        ({
            let op = Initialize::PoweringOn { stage: PowerOn::Reset { iter: 0 }, setup, config };
            let done = actions(op, replies);
            let n = setup@.len() as int;
            &&& 1 <= place
            &&& place + n + 2 <= done.len()
            &&& done[place - 1] == Action::Perform(Command::ModifyCccrCce { cce: true })
            &&& forall|k: int|
                0 <= k < n ==> done[place + k] == Action::Perform(#[trigger] setup@[k])
            &&& done[place + n] == Action::Perform(Command::ModifyCccrCce { cce: false })
            &&& done[place + n + 1] == Action::Perform(Command::ModifyCccrInit { init: false })
            &&& forall|j: int|
                (0 <= j < place - 1 || place + n + 2 <= j < done.len()) ==> {
                    ||| (#[trigger] done[j]) is Read
                    ||| done[j]->Perform_0 is Delay
                    ||| done[j] == Action::Perform(Command::ModifyCccrInit { init: true })
                }
        }),
{
    let stage = PowerOn::Reset { iter: 0 };
    let op = Initialize::PoweringOn { stage, setup, config };
    let (up, configured) = law_initialize_succeeds_only_so(stage, setup, config, replies);
    let (resetting, reset_over, initializing, init_over, crel) = law_power_on_succeeds_only_so(up);
    let (entering, leaving) = law_guarded_config_succeeds_only_so(setup, configured);
    law_driver_needs_representable_timings(op, replies, config);
    law_initialize_succeeds(
        setup,
        config,
        resetting,
        reset_over,
        initializing,
        init_over,
        crel,
        entering,
        leaving,
    );
    let done = actions(op, replies);
    let a = polls(Query::SubsysStat, STATUS_DELAY, resetting.len());
    let b = polls(Query::SubsysStat, STATUS_DELAY, initializing.len());
    let c = polls(Query::Cccr, INIT_DELAY, entering.len());
    let d = polls(Query::Cccr, INIT_DELAY, leaving.len());
    let read = seq![Action::Read(Query::SubsysStat)];
    let came_up = seq![
        Action::Read(Query::SubsysStat),
        Action::Read(Query::Crel),
        Action::Perform(Command::ModifyCccrInit { init: true }),
    ];
    let found = seq![Action::Read(Query::Cccr)];
    let unlocked = guarded_commands(setup@, Ok(()));
    let n = setup@.len() as int;
    assert(done == a + read + (b + came_up) + (c + found + performed(unlocked) + (d + found)));
    let start = a.len() as int + 1 + b.len() + 3 + c.len() + 1;
    let place = start + 1;
    assert(unlocked.len() == n + 3);
    assert forall|m: int| 0 <= m < n + 3 implies done[start + m] == Action::Perform(
        #[trigger] unlocked[m],
    ) by {
        assert(performed(unlocked)[m] == Action::Perform(unlocked[m]));
    }
    assert(done[start + 0] == Action::Perform(unlocked[0]));
    assert forall|k: int| 0 <= k < n implies done[place + k] == Action::Perform(
        #[trigger] setup@[k],
    ) by {
        assert(unlocked[k + 1] == setup@[k]);
        assert(done[start + (k + 1)] == Action::Perform(unlocked[k + 1]));
    }
    assert(done[start + (n + 1)] == Action::Perform(unlocked[n + 1]));
    assert(done[start + (n + 2)] == Action::Perform(unlocked[n + 2]));
    assert forall|j: int| (0 <= j < place - 1 || place + n + 2 <= j < done.len()) implies {
        ||| (#[trigger] done[j]) is Read
        ||| done[j]->Perform_0 is Delay
        ||| done[j] == Action::Perform(Command::ModifyCccrInit { init: true })
    } by {
        let p = a.len() as int;
        let q = p + 1;
        let r = q + b.len();
        let s = r + 3;
        let t = s + c.len();
        let u = t + 1 + n + 3;
        if j < p {
            lemma_polls_pause(Query::SubsysStat, STATUS_DELAY, resetting.len(), j);
            assert(done[j] == a[j]);
        } else if j < q {
            assert(done[j] == read[0]);
        } else if j < r {
            lemma_polls_pause(Query::SubsysStat, STATUS_DELAY, initializing.len(), j - q);
            assert(done[j] == b[j - q]);
        } else if j < s {
            assert(done[j] == came_up[j - r]);
        } else if j < t {
            lemma_polls_pause(Query::Cccr, INIT_DELAY, entering.len(), j - s);
            assert(done[j] == c[j - s]);
        } else if j < t + 1 {
            assert(done[j] == found[0]);
        } else if j < u + d.len() {
            lemma_polls_pause(Query::Cccr, INIT_DELAY, leaving.len(), j - u);
            assert(done[j] == d[j - u]);
        } else {
            assert(done[j] == found[0]);
        }
    }
    place
}

/// In every run that brings the peripheral up from the setup writes of a
/// configuration, the bit timing register is written exactly once, at the returned
/// place, and the hardware, which adds one to each field, then uses the configured
/// prescaler, segments and jump width.
pub proof fn law_bring_up_places_the_configured_timing(
    setup: Vec<Command>,
    config: Config,
    ram: McanMessageRAM,
    replies: Seq<Reply>,
) -> (place: int)
    requires
        setup@ == setup_commands(config, ram),
        1 <= config.timing.ntseg1 <= 256,
        admissible(
            Initialize::PoweringOn { stage: PowerOn::Reset { iter: 0 }, setup, config },
            replies,
        ),
        outcome(
            Initialize::PoweringOn { stage: PowerOn::Reset { iter: 0 }, setup, config },
            replies,
        ) matches Next::Done(Ok(_)),
    ensures
        ({
            let op = Initialize::PoweringOn { stage: PowerOn::Reset { iter: 0 }, setup, config };
            let done = actions(op, replies);
            &&& 0 <= place < done.len()
            &&& forall|j: int|
                0 <= j < done.len() && (#[trigger] done[j]) is Perform
                    && done[j]->Perform_0 is WriteNbtp ==> j == place
            &&& done[place] matches Action::Perform(
                Command::WriteNbtp { nbrp, ntseg1, ntseg2, nsjw },
            )
            &&& nbrp + 1 == config.timing.brp
            &&& ntseg1 + 1 == config.timing.ntseg1
            &&& ntseg2 + 1 == config.timing.ntseg2
            &&& nsjw + 1 == config.timing.sjw
        }),
{
    let op = Initialize::PoweringOn { stage: PowerOn::Reset { iter: 0 }, setup, config };
    let done = actions(op, replies);
    let first = law_bring_up_performs_the_setup(setup, config, replies);
    law_driver_needs_representable_timings(op, replies, config);
    law_setup_places_the_configured_timing(config, ram, 1);
    assert(done[first + 1] == Action::Perform(setup@[1]));
    assert forall|j: int|
        0 <= j < done.len() && (#[trigger] done[j]) is Perform
            && done[j]->Perform_0 is WriteNbtp implies j == first + 1 by {
        if first <= j < first + setup@.len() {
            law_setup_places_the_configured_timing(config, ram, j - first);
            assert(done[first + (j - first)] == Action::Perform(setup@[j - first]));
        }
    }
    first + 1
}

} // verus!
