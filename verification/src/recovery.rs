//! Manual recovery from bus-off.

use vstd::prelude::*;

use crate::config::{BusError, RecoveryFailure};
use crate::io::{actions, admissible, lemma_one_reply, outcome, Action};
use crate::io::{Command, Next, Operation, ProtocolStatus, Query, Reply, Transition};

verus! {

/// The protocol status decides whether a recovery is started.
#[derive(Clone, Copy, PartialEq, Eq, Debug)]
pub struct Recover;

impl Operation for Recover {
    type Output = Result<(), RecoveryFailure>;

    open spec fn awaits(&self) -> Query {
        Query::Psr
    }

    open spec fn admits(&self, reply: Reply) -> bool {
        reply is Psr
    }

    /// Leaving initialization mode starts the recovery.
    open spec fn commands_on(&self, reply: Reply) -> Seq<Command> {
        if reply->Psr_0.bo {
            seq![Command::ModifyCccrInit { init: false }]
        } else {
            seq![]
        }
    }

    open spec fn next_on(&self, reply: Reply) -> Next<Recover, Result<(), RecoveryFailure>> {
        Next::Done(
            if reply->Psr_0.bo {
                Ok(())
            } else {
                Err(RecoveryFailure::WasNotBusOff)
            },
        )
    }

    fn query(&self) -> (query: Query) {
        Query::Psr
    }

    fn accepts(&self, reply: &Reply) -> (r: bool) {
        matches!(*reply, Reply::Psr(_))
    }

    fn resume(self, reply: Reply) -> (transition: Transition<
        Recover,
        Result<(), RecoveryFailure>,
    >) {
        match reply {
            Reply::Psr(status) if status.bo => Transition {
                commands: vec![Command::ModifyCccrInit { init: false }],
                next: Next::Done(Ok(())),
            },
            _ => Transition {
                commands: Vec::new(),
                next: Next::Done(Err(RecoveryFailure::WasNotBusOff)),
            },
        }
    }
}

/// A recovery is started if and only if the protocol status reports bus-off, and
/// only then is a register written.
pub proof fn law_recovery_is_from_bus_off(status: ProtocolStatus)
    ensures
        ({
            let replies = seq![Reply::Psr(status)];
            let bus_off = status.error() == Some(BusError::BusOff);
            &&& admissible(Recover, replies)
            &&& outcome(Recover, replies) == Next::<Recover, Result<(), RecoveryFailure>>::Done(
                if bus_off {
                    Ok(())
                } else {
                    Err(RecoveryFailure::WasNotBusOff)
                },
            )
            &&& actions(Recover, replies) == if bus_off {
                seq![
                    Action::Read(Query::Psr),
                    Action::Perform(Command::ModifyCccrInit { init: false }),
                ]
            } else {
                seq![Action::Read(Query::Psr)]
            }
        }),
{
    lemma_one_reply(Recover, Reply::Psr(status));
    crate::status::law_status(status);
    if status.bo {
        assert(actions(Recover, seq![Reply::Psr(status)]) =~= seq![
            Action::Read(Query::Psr),
            Action::Perform(Command::ModifyCccrInit { init: false }),
        ]);
    } else {
        assert(actions(Recover, seq![Reply::Psr(status)]) =~= seq![Action::Read(Query::Psr)]);
    }
}

/// The bus-off bit alone decides: if it is set the recovery is started, by leaving
/// initialization mode and nothing else, and if it is not nothing is written.
pub proof fn law_recovery_is_decided_by_the_bus_off_bit(status: ProtocolStatus)
    ensures
        ({
            let reply = Reply::Psr(status);
            &&& Recover.awaits() == Query::Psr
            &&& Recover.admits(reply)
            &&& Recover.next_on(reply) matches Next::Done(result)
            &&& result is Ok <==> status.bo
            &&& result == Err::<(), RecoveryFailure>(RecoveryFailure::WasNotBusOff) <==> !status.bo
            &&& Recover.commands_on(reply).len() == if status.bo {
                1int
            } else {
                0int
            }
            &&& status.bo ==> Recover.commands_on(reply)[0] == (Command::ModifyCccrInit {
                init: false,
            })
        }),
{
}

/// A recovery goes on from no reply but the answer to what it asked.
pub proof fn law_recovery_admits_only_answers(reply: Reply)
    ensures
        Recover.admits(reply) <==> reply is Psr,
{
}

} // verus!
