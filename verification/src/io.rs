//! How the driver speaks with the hardware.
//!
//! An [`Operation`] waits for one value at a time. It names what to read, and
//! when it is handed what was read it answers with the commands to perform, in
//! order, and either the next state or its result.

use vstd::prelude::*;

use crate::config::ClockDiv;
use crate::msgram::{RxBufferElement, TxBufferElement, TxEvent};

verus! {

/// Which pin of the peripheral.
#[derive(Clone, Copy, PartialEq, Eq, Debug)]
pub enum PinRole {
    Rx,
    Tx,
}

/// Whether a pin is driven by the peripheral.
#[derive(Clone, Copy, PartialEq, Eq, Debug)]
pub enum Direction {
    Input,
    Output,
}

/// Sources of the CAN functional clock.
#[derive(Clone, Copy, PartialEq, Eq, Debug)]
pub enum CanClkSrc {
    /// High frequency clock (HFXT or HFCLKIN).
    Hfclk,
}

/// One change that the driver makes to the hardware, or a pause.
///
/// `Write..` writes a whole register: fields that are not named are zero.
/// `Modify..` changes the named field and leaves the others as they are.
#[derive(Clone, Copy, PartialEq, Eq, Debug)]
pub enum Command {
    /// Wait for at least this number of clock cycles.
    Delay { cycles: u32 },
    /// Connect a pin to the peripheral by its function number.
    ConfigurePin { role: PinRole, pf_num: u8, direction: Direction, pulled: bool, inverted: bool },
    /// Reset control. The write carries the register's key.
    WriteRstctl { resetstkyclr: bool, resetassert: bool },
    /// Power enable. The write carries the register's key.
    WritePwren { enable: bool },
    /// Clock request of the subsystem.
    WriteSubsysClken { clk_reqen: bool },
    /// Clock divider of the subsystem.
    WriteSubsysClkdiv { ratio: ClockDiv },
    /// Source of the CAN clock, in the system controller.
    ModifyGenclkcfg { canclksrc: CanClkSrc },
    /// Initialization mode.
    ModifyCccrInit { init: bool },
    /// Configuration change enable.
    ModifyCccrCce { cce: bool },
    /// CAN-FD operation enable.
    ModifyCccrFdoe { fdoe: bool },
    /// Nominal bit timing.
    WriteNbtp { nbrp: u16, ntseg1: u8, ntseg2: u8, nsjw: u8 },
    /// Global filter.
    WriteGfc { anfs: u8, anfe: u8, rrfs: bool, rrfe: bool },
    /// Standard identifier filters.
    WriteSidfc { lss: u8, flssa: u16 },
    /// Extended identifier filters.
    WriteXidfc { lse: u8, flesa: u16 },
    /// Receive FIFO 0.
    WriteRxf0c { f0om: bool, f0wm: u8, f0s: u8, f0sa: u16 },
    /// Receive FIFO 1.
    WriteRxf1c { f1om: bool, f1wm: u8, f1s: u8, f1sa: u16 },
    /// Receive buffers.
    WriteRxbc { rbsa: u16 },
    /// Data sizes of received elements.
    WriteRxesc { rbds: u8, f1ds: u8, f0ds: u8 },
    /// Transmit event FIFO.
    WriteTxefc { efsa: u16, efs: u8, efwm: u8 },
    /// Transmit buffers.
    WriteTxbc { tfqm: bool, ndtb: u8, tfqs: u8, tbsa: u16 },
    /// Data size of elements to transmit.
    WriteTxesc { tbds: u8 },
    /// Acknowledge the element of receive FIFO 0 with this index.
    WriteRxf0a { f0ai: u8 },
    /// Place an element in the transmit FIFO, in message RAM.
    SetTxElement { index: usize, element: TxBufferElement },
    /// Request transmission of the elements whose bits are set.
    WriteTxbar { bits: u32 },
    /// Acknowledge the element of the transmit event FIFO with this index.
    WriteTxefa { efai: u8 },
    /// Keep the marker of the next frame to transmit. It outlives a driver.
    StoreMarker { marker: u8 },
}

/// One value that the driver reads from the hardware.
#[derive(Clone, Copy, PartialEq, Eq, Debug)]
pub enum Query {
    /// Subsystem status.
    SubsysStat,
    /// Core release.
    Crel,
    /// Control register.
    Cccr,
    /// Protocol status.
    Psr,
    /// Receive FIFO 0 status.
    Rxf0s,
    /// The element of receive FIFO 0 with this index, in message RAM.
    RxElement { index: usize },
    /// Transmit FIFO status.
    Txfqs,
    /// Transmit event FIFO status.
    Txefs,
    /// The element of the transmit event FIFO with this index, in message RAM.
    TxEvent { index: usize },
    /// The marker that was kept last.
    CurrentMarker,
}

/// Subsystem status.
#[derive(Clone, Copy, PartialEq, Eq, Debug)]
pub struct SubsysStat {
    pub reset: bool,
    pub mem_init_done: bool,
}

/// Protocol status.
#[derive(Clone, Copy, PartialEq, Eq, Debug)]
pub struct ProtocolStatus {
    /// Bus-off.
    pub bo: bool,
    /// Error passive.
    pub ep: bool,
    /// Error warning.
    pub ew: bool,
    /// Last error code.
    pub lec: u8,
}

/// Receive FIFO 0 status.
#[derive(Clone, Copy, PartialEq, Eq, Debug)]
pub struct RxFifoStatus {
    /// Get index.
    pub f0gi: u8,
    /// Put index.
    pub f0pi: u8,
    /// FIFO full.
    pub f0f: bool,
}

/// Transmit FIFO status.
#[derive(Clone, Copy, PartialEq, Eq, Debug)]
pub struct TxFifoStatus {
    /// FIFO full.
    pub tfqf: bool,
    /// Put index.
    pub tfqp: u8,
}

/// Transmit event FIFO status.
#[derive(Clone, Copy, PartialEq, Eq, Debug)]
pub struct TxEventFifoStatus {
    /// Get index.
    pub efgi: u8,
    /// Put index.
    pub efpi: u8,
    /// FIFO full.
    pub eff: bool,
}

/// What a [`Query`] read.
#[derive(Clone, Copy, PartialEq, Eq, Debug)]
pub enum Reply {
    SubsysStat(SubsysStat),
    /// The whole register.
    Crel(u32),
    /// The initialization mode bit.
    Cccr { init: bool },
    Psr(ProtocolStatus),
    Rxf0s(RxFifoStatus),
    RxElement(RxBufferElement),
    Txfqs(TxFifoStatus),
    Txefs(TxEventFifoStatus),
    TxEvent(TxEvent),
    CurrentMarker(u8),
}

/// How an operation goes on: it waits for the next value, or it is done.
pub enum Next<O, T> {
    Await(O),
    Done(T),
}

/// What an operation answers: the commands to perform now, and how it goes on.
pub struct Transition<O, T> {
    pub commands: Vec<Command>,
    pub next: Next<O, T>,
}

/// How an operation starts: the commands to perform at once, and the operation.
pub struct Start<O> {
    pub commands: Vec<Command>,
    pub op: O,
}

/// A conversation with the hardware, between two of its reads.
pub trait Operation: Sized {
    /// What the operation results in.
    type Output;

    /// What is to be read next.
    spec fn awaits(&self) -> Query;

    /// The reply answers what was asked, with a value that the operation can go on
    /// from.
    spec fn admits(&self, reply: Reply) -> bool;

    /// The commands performed upon a reply.
    spec fn commands_on(&self, reply: Reply) -> Seq<Command>;

    /// How the operation goes on from a reply.
    spec fn next_on(&self, reply: Reply) -> Next<Self, Self::Output>;

    /// What is to be read next.
    fn query(&self) -> (query: Query)
        ensures
            query == self.awaits(),
    ;

    /// Whether the operation can go on from a reply.
    fn accepts(&self, reply: &Reply) -> (r: bool)
        ensures
            r == self.admits(*reply),
    ;

    /// Goes on from a reply.
    fn resume(self, reply: Reply) -> (transition: Transition<Self, Self::Output>)
        requires
            self.admits(reply),
        ensures
            transition.commands@ == self.commands_on(reply),
            transition.next == self.next_on(reply),
    ;
}

/// What is performed when the reply to a query is one that the operation cannot go
/// on from: an element that was taken out of a FIFO is acknowledged all the same.
pub open spec fn refused_commands(query: Query) -> Seq<Command> {
    match query {
        Query::RxElement { index } => seq![Command::WriteRxf0a { f0ai: index as u8 }],
        Query::TxEvent { index } => seq![Command::WriteTxefa { efai: index as u8 }],
        _ => seq![],
    }
}

/// The commands to perform when the reply to a query is refused.
pub fn refused(query: &Query) -> (commands: Vec<Command>)
    ensures
        commands@ == refused_commands(*query),
{
    match *query {
        Query::RxElement { index } => vec![Command::WriteRxf0a { f0ai: index as u8 }],
        Query::TxEvent { index } => vec![Command::WriteTxefa { efai: index as u8 }],
        _ => Vec::new(),
    }
}

/// One access to the hardware.
pub enum Action {
    Perform(Command),
    Read(Query),
}

/// The accesses that perform `commands` in order.
pub open spec fn performed(commands: Seq<Command>) -> Seq<Action> {
    commands.map_values(|command: Command| Action::Perform(command))
}

/// The replies, handed over one after the other, are all admitted, and none comes
/// after the operation is done.
pub open spec fn admissible<O: Operation>(op: O, replies: Seq<Reply>) -> bool
    decreases replies.len(),
{
    replies.len() > 0 ==> {
        &&& op.admits(replies[0])
        &&& match op.next_on(replies[0]) {
            Next::Await(next) => admissible(next, replies.skip(1)),
            Next::Done(_) => replies.len() == 1,
        }
    }
}

/// Where an operation stands once the replies were handed over.
pub open spec fn outcome<O: Operation>(op: O, replies: Seq<Reply>) -> Next<O, O::Output>
    decreases replies.len(),
{
    if replies.len() == 0 {
        Next::Await(op)
    } else {
        match op.next_on(replies[0]) {
            Next::Await(next) => outcome(next, replies.skip(1)),
            Next::Done(result) => Next::Done(result),
        }
    }
}

/// The accesses made while the replies were handed over.
pub open spec fn actions<O: Operation>(op: O, replies: Seq<Reply>) -> Seq<Action>
    decreases replies.len(),
{
    if replies.len() == 0 {
        Seq::empty()
    } else {
        let step = seq![Action::Read(op.awaits())] + performed(op.commands_on(replies[0]));
        match op.next_on(replies[0]) {
            Next::Await(next) => step + actions(next, replies.skip(1)),
            Next::Done(_) => step,
        }
    }
}

/// `count` reads of the same value, with a pause after each.
pub open spec fn polls(query: Query, cycles: u32, count: nat) -> Seq<Action>
    decreases count,
{
    if count == 0 {
        Seq::empty()
    } else {
        seq![Action::Read(query), Action::Perform(Command::Delay { cycles })] + polls(
            query,
            cycles,
            (count - 1) as nat,
        )
    }
}

/// Polling reads and pauses, and does nothing else.
pub proof fn lemma_polls_pause(query: Query, cycles: u32, count: nat, i: int)
    requires
        0 <= i < polls(query, cycles, count).len(),
    ensures
        ({
            let action = polls(query, cycles, count)[i];
            action == Action::Read(query) || action == Action::Perform(Command::Delay { cycles })
        }),
    decreases count,
{
    if count > 0 && i >= 2 {
        lemma_polls_pause(query, cycles, (count - 1) as nat, i - 2);
    }
}

/// While each reply takes the operation from one of `states` to the next with
/// nothing but a pause, it is polling.
pub proof fn lemma_polling<O: Operation>(
    states: Seq<O>,
    replies: Seq<Reply>,
    query: Query,
    cycles: u32,
)
    requires
        states.len() == replies.len() + 1,
        forall|i: int|
            #![trigger replies[i]]
            0 <= i < replies.len() ==> {
                &&& states[i].awaits() == query
                &&& states[i].admits(replies[i])
                &&& states[i].commands_on(replies[i]) == seq![Command::Delay { cycles }]
                &&& states[i].next_on(replies[i]) == Next::<O, O::Output>::Await(states[i + 1])
            },
    ensures
        outcome(states[0], replies) == Next::<O, O::Output>::Await(states.last()),
        actions(states[0], replies) == polls(query, cycles, replies.len()),
        admissible(states[0], replies),
    decreases replies.len(),
{
    if replies.len() > 0 {
        let first = replies[0];
        let later = states.skip(1);
        let rest = replies.skip(1);
        assert forall|i: int| #![trigger rest[i]] 0 <= i < rest.len() implies {
            &&& later[i].awaits() == query
            &&& later[i].admits(rest[i])
            &&& later[i].commands_on(rest[i]) == seq![Command::Delay { cycles }]
            &&& later[i].next_on(rest[i]) == Next::<O, O::Output>::Await(later[i + 1])
        } by {
            assert(rest[i] == replies[i + 1]);
        }
        lemma_polling(later, rest, query, cycles);
        assert(actions(states[0], replies) =~= polls(query, cycles, replies.len()));
    }
}

/// Handing over `first` and then `second` is handing over both in one.
pub proof fn lemma_in_two_parts<O: Operation>(op: O, first: Seq<Reply>, second: Seq<Reply>)
    requires
        outcome(op, first) is Await,
    ensures
        outcome(op, first + second) == outcome(outcome(op, first)->Await_0, second),
        actions(op, first + second) == actions(op, first) + actions(
            outcome(op, first)->Await_0,
            second,
        ),
        admissible(op, first + second) == (admissible(op, first) && admissible(
            outcome(op, first)->Await_0,
            second,
        )),
    decreases first.len(),
{
    let all = first + second;
    if first.len() == 0 {
        assert(all =~= second);
    } else {
        assert(all[0] == first[0]);
        assert(all.skip(1) =~= first.skip(1) + second);
        match op.next_on(first[0]) {
            Next::Await(next) => {
                lemma_in_two_parts(next, first.skip(1), second);
                let step = seq![Action::Read(op.awaits())] + performed(op.commands_on(first[0]));
                assert(actions(op, all) =~= actions(op, first) + actions(
                    outcome(op, first)->Await_0,
                    second,
                ));
            },
            Next::Done(_) => {},
        }
    }
}

/// Handing over a single reply.
pub proof fn lemma_one_reply<O: Operation>(op: O, reply: Reply)
    ensures
        outcome(op, seq![reply]) == op.next_on(reply),
        actions(op, seq![reply]) == seq![Action::Read(op.awaits())] + performed(
            op.commands_on(reply),
        ),
        admissible(op, seq![reply]) == op.admits(reply),
{
    reveal_with_fuel(outcome, 2);
    reveal_with_fuel(actions, 2);
    reveal_with_fuel(admissible, 2);
    assert(seq![reply].skip(1) =~= Seq::<Reply>::empty());
    assert(actions(op, seq![reply]) =~= seq![Action::Read(op.awaits())] + performed(
        op.commands_on(reply),
    ));
}

/// A refused element of a FIFO is acknowledged, and nothing else, at the index that
/// it was read from; on any other refused reply nothing is performed.
pub proof fn law_refusal_acknowledges_what_was_read(query: Query)
    ensures
        query matches Query::RxElement { index } ==> {
            &&& refused_commands(query).len() == 1
            &&& refused_commands(query)[0] matches Command::WriteRxf0a { f0ai }
            &&& f0ai == index % 256
        },
        query matches Query::TxEvent { index } ==> {
            &&& refused_commands(query).len() == 1
            &&& refused_commands(query)[0] matches Command::WriteTxefa { efai }
            &&& efai == index % 256
        },
        !(query is RxElement) && !(query is TxEvent) ==> refused_commands(query).len() == 0,
{
    match query {
        Query::RxElement { index } => lemma_low_byte(index),
        Query::TxEvent { index } => lemma_low_byte(index),
        _ => {},
    }
}

/// What is left of a number in eight bits.
pub proof fn lemma_low_byte(n: usize)
    ensures
        n as u8 == n % 256,
{
    assert(n as u8 == n % 256) by (bit_vector);
}

/// What is left of a number in sixteen bits.
pub proof fn lemma_low_half(n: usize)
    ensures
        n as u16 == n % 0x1_0000,
{
    assert(n as u16 == n % 0x1_0000) by (bit_vector);
}

/// Steps round a ring: `k` steps from `get` end elsewhere unless they are none or
/// all of it.
pub proof fn lemma_ring(get: int, n: int, k: int)
    requires
        0 <= get < n,
        0 <= k <= n,
    ensures
        (get + k) % n == get <==> k == 0 || k == n,
{
    if get + k < n {
        vstd::arithmetic::div_mod::lemma_fundamental_div_mod_converse(get + k, n, 0, get + k);
    } else {
        vstd::arithmetic::div_mod::lemma_fundamental_div_mod_converse(get + k, n, 1, get + k - n);
    }
}

/// Commands are performed in order, each once.
pub proof fn law_commands_are_performed_in_order(commands: Seq<Command>, i: int)
    requires
        0 <= i < commands.len(),
    ensures
        performed(commands).len() == commands.len(),
        performed(commands)[i] == Action::Perform(commands[i]),
{
}

/// Polling alternates reads and pauses.
pub proof fn law_polling_alternates(query: Query, cycles: u32, count: nat, i: int)
    requires
        0 <= i < count,
    ensures
        polls(query, cycles, count).len() == 2 * count,
        polls(query, cycles, count)[2 * i] == Action::Read(query),
        polls(query, cycles, count)[2 * i + 1] == Action::Perform(Command::Delay { cycles }),
    decreases count,
{
    reveal_with_fuel(polls, 2);
    if i > 0 {
        law_polling_alternates(query, cycles, (count - 1) as nat, i - 1);
    } else if count > 1 {
        law_polling_alternates(query, cycles, (count - 1) as nat, 0);
    }
}

} // verus!
