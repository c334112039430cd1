//! Receiving a frame.

use vstd::prelude::*;

use crate::frame::{law_element_becomes_frame, MCanFrame};
use crate::id::IdView;
use crate::io::{Command, Next, Operation, Query, Reply, RxFifoStatus, Transition};
use crate::io::{
    actions, admissible, lemma_in_two_parts, lemma_one_reply, lemma_polling, outcome, polls,
    refused_commands, Action,
};
use crate::msgram::RxBufferElement;

verus! {

/// Clock cycles between two reads of a FIFO status.
pub const FIFO_DELAY: u32 = 10;

/// A frame is waited for and taken out of receive FIFO 0.
#[derive(Clone, Copy, PartialEq, Eq, Debug)]
pub enum Receive {
    /// Until there is an element.
    Waiting,
    /// The element to take.
    Fetching { read_index: u8 },
}

impl RxFifoStatus {
    /// The FIFO holds an element: the indices differ, or it is full.
    pub open spec fn holds_frame(self) -> bool {
        self.f0gi != self.f0pi || self.f0f
    }

    /// Whether the FIFO holds an element.
    pub fn has_frame(&self) -> (r: bool)
        ensures
            r == self.holds_frame(),
            !r <==> self.f0gi == self.f0pi && !self.f0f,
    {
        self.f0gi != self.f0pi || self.f0f
    }
}

impl Operation for Receive {
    type Output = MCanFrame;

    open spec fn awaits(&self) -> Query {
        match *self {
            Receive::Waiting => Query::Rxf0s,
            Receive::Fetching { read_index } => Query::RxElement { index: read_index as usize },
        }
    }

    open spec fn admits(&self, reply: Reply) -> bool {
        match *self {
            Receive::Waiting => reply is Rxf0s,
            Receive::Fetching { .. } => reply is RxElement && reply->RxElement_0.valid(),
        }
    }

    open spec fn commands_on(&self, reply: Reply) -> Seq<Command> {
        match *self {
            Receive::Waiting => if reply->Rxf0s_0.holds_frame() {
                seq![]
            } else {
                seq![Command::Delay { cycles: FIFO_DELAY }]
            },
            Receive::Fetching { read_index } => seq![Command::WriteRxf0a { f0ai: read_index }],
        }
    }

    open spec fn next_on(&self, reply: Reply) -> Next<Receive, MCanFrame> {
        match *self {
            Receive::Waiting => if reply->Rxf0s_0.holds_frame() {
                Next::Await(Receive::Fetching { read_index: reply->Rxf0s_0.f0gi })
            } else {
                Next::Await(Receive::Waiting)
            },
            Receive::Fetching { .. } => Next::Done(reply->RxElement_0.frame()),
        }
    }

    fn query(&self) -> (query: Query) {
        match *self {
            Receive::Waiting => Query::Rxf0s,
            Receive::Fetching { read_index } => Query::RxElement { index: read_index as usize },
        }
    }

    fn accepts(&self, reply: &Reply) -> (r: bool) {
        match (*self, *reply) {
            (Receive::Waiting, Reply::Rxf0s(_)) => true,
            (Receive::Fetching { .. }, Reply::RxElement(element)) => element.is_valid(),
            _ => false,
        }
    }

    fn resume(self, reply: Reply) -> (transition: Transition<Receive, MCanFrame>) {
        match (self, reply) {
            (Receive::Fetching { read_index }, Reply::RxElement(element)) => Transition {
                commands: vec![Command::WriteRxf0a { f0ai: read_index }],
                next: Next::Done(element.into()),
            },
            (_, Reply::Rxf0s(status)) if status.has_frame() => Transition {
                commands: Vec::new(),
                next: Next::Await(Receive::Fetching { read_index: status.f0gi }),
            },
            _ => Transition {
                commands: vec![Command::Delay { cycles: FIFO_DELAY }],
                next: Next::Await(Receive::Waiting),
            },
        }
    }
}

/// Every reply finds receive FIFO 0 empty.
pub open spec fn no_frame(replies: Seq<Reply>) -> bool {
    forall|i: int|
        0 <= i < replies.len() ==> #[trigger] replies[i] is Rxf0s
            && !replies[i]->Rxf0s_0.holds_frame()
}

proof fn lemma_waiting_polls(replies: Seq<Reply>)
    requires
        no_frame(replies),
    ensures
        outcome(Receive::Waiting, replies) == Next::<Receive, MCanFrame>::Await(Receive::Waiting),
        actions(Receive::Waiting, replies) == polls(Query::Rxf0s, FIFO_DELAY, replies.len()),
        admissible(Receive::Waiting, replies),
{
    let states = Seq::new(replies.len() + 1, |i: int| Receive::Waiting);
    lemma_polling(states, replies, Query::Rxf0s, FIFO_DELAY);
}

/// However long the FIFO stays empty, the first element that appears is read at
/// the get index, acknowledged once at that index, after it was read, and
/// returned as a frame.
pub proof fn law_receive(empty: Seq<Reply>, status: RxFifoStatus, element: RxBufferElement)
    requires
        no_frame(empty),
        status.holds_frame(),
        element.valid(),
    ensures
        ({
            let replies = empty + seq![Reply::Rxf0s(status), Reply::RxElement(element)];
            &&& admissible(Receive::Waiting, replies)
            &&& outcome(Receive::Waiting, replies) == Next::<Receive, MCanFrame>::Done(
                element.frame(),
            )
            &&& element.frame()@ == element.decodes()
            &&& actions(Receive::Waiting, replies) == polls(
                Query::Rxf0s,
                FIFO_DELAY,
                empty.len(),
            ) + seq![
                Action::Read(Query::Rxf0s),
                Action::Read(Query::RxElement { index: status.f0gi as usize }),
                Action::Perform(Command::WriteRxf0a { f0ai: status.f0gi }),
            ]
        }),
{
    let found = Reply::Rxf0s(status);
    let taken = Reply::RxElement(element);
    let fetching = Receive::Fetching { read_index: status.f0gi };
    crate::frame::law_received_frame(element);
    lemma_waiting_polls(empty);
    lemma_in_two_parts(Receive::Waiting, empty, seq![found, taken]);
    assert(seq![found, taken] =~= seq![found] + seq![taken]);
    lemma_one_reply(Receive::Waiting, found);
    lemma_in_two_parts(Receive::Waiting, seq![found], seq![taken]);
    lemma_one_reply(fetching, taken);
    assert(actions(Receive::Waiting, empty + seq![found, taken]) =~= polls(
        Query::Rxf0s,
        FIFO_DELAY,
        empty.len(),
    ) + seq![
        Action::Read(Query::Rxf0s),
        Action::Read(Query::RxElement { index: status.f0gi as usize }),
        Action::Perform(Command::WriteRxf0a { f0ai: status.f0gi }),
    ]);
}

/// Every receive that comes to an end is one of those of [`law_receive`]: it was
/// handed empty statuses, then one that is not, then an element.
pub proof fn law_receive_ends_only_so(replies: Seq<Reply>) -> (parts: (
    Seq<Reply>,
    RxFifoStatus,
    RxBufferElement,
))
    requires
        admissible(Receive::Waiting, replies),
        outcome(Receive::Waiting, replies) is Done,
    ensures
        no_frame(parts.0),
        parts.1.holds_frame(),
        parts.2.valid(),
        replies == parts.0 + seq![Reply::Rxf0s(parts.1), Reply::RxElement(parts.2)],
    decreases replies.len(),
{
    reveal_with_fuel(admissible, 3);
    reveal_with_fuel(outcome, 3);
    let first = replies[0];
    let rest = replies.skip(1);
    if first->Rxf0s_0.holds_frame() {
        let empty = Seq::<Reply>::empty();
        assert(rest.len() == 1);
        assert(replies =~= empty + seq![
            Reply::Rxf0s(first->Rxf0s_0),
            Reply::RxElement(rest[0]->RxElement_0),
        ]);
        (empty, first->Rxf0s_0, rest[0]->RxElement_0)
    } else {
        let parts = law_receive_ends_only_so(rest);
        let empty = seq![first] + parts.0;
        assert forall|i: int| 0 <= i < empty.len() implies (#[trigger] empty[i]) is Rxf0s
            && !empty[i]->Rxf0s_0.holds_frame() by {
            if i > 0 {
                assert(empty[i] == parts.0[i - 1]);
            }
        }
        assert(replies =~= seq![first] + rest);
        assert(replies =~= empty + seq![Reply::Rxf0s(parts.1), Reply::RxElement(parts.2)]);
        (empty, parts.1, parts.2)
    }
}

/// An element that holds no classic frame is acknowledged as any other is.
pub proof fn law_refused_element_is_acknowledged(read_index: u8, element: RxBufferElement)
    ensures
        ({
            let op = Receive::Fetching { read_index };
            &&& refused_commands(op.awaits()) == seq![Command::WriteRxf0a { f0ai: read_index }]
            &&& refused_commands(op.awaits()) == op.commands_on(Reply::RxElement(element))
        }),
{
}

/// A receive does not wait any more if and only if the status says that there is a
/// frame.
pub proof fn law_has_frame_ends_the_wait(status: RxFifoStatus)
    ensures
        status.holds_frame() <==> Receive::Waiting.next_on(Reply::Rxf0s(status)) != Next::<
            Receive,
            MCanFrame,
        >::Await(Receive::Waiting),
{
}

/// A ring of `n` elements is reported as holding a frame exactly if it does. From
/// the get index on, `k` elements are filled; the put index comes after them, round
/// the end of the ring if need be, and the ring is full when all are.
pub proof fn law_ring_reports_its_frames(status: RxFifoStatus, n: int, k: int)
    requires
        status.f0gi < n,
        0 <= k <= n,
        status.f0pi == (status.f0gi + k) % n,
        status.f0f == (k == n),
    ensures
        status.holds_frame() <==> k > 0,
{
    crate::io::lemma_ring(status.f0gi as int, n, k);
}

/// No frame is reported exactly if the indices are equal and the ring is not full.
pub proof fn law_no_frame_only_in_an_empty_ring(status: RxFifoStatus)
    ensures
        !status.holds_frame() <==> status.f0gi == status.f0pi && !status.f0f,
{
}

/// A receive pauses for ten cycles and reads the status again exactly while the
/// indices are equal and the ring is not full. Otherwise it reads the element at the
/// get index, at once.
pub proof fn law_receive_waits_for_an_element(status: RxFifoStatus)
    ensures
        ({
            let reply = Reply::Rxf0s(status);
            let again = Next::<Receive, MCanFrame>::Await(Receive::Waiting);
            let empty = status.f0gi == status.f0pi && !status.f0f;
            &&& Receive::Waiting.awaits() == Query::Rxf0s
            &&& Receive::Waiting.admits(reply)
            &&& empty <==> Receive::Waiting.next_on(reply) == again
            &&& empty ==> Receive::Waiting.commands_on(reply) == seq![
                Command::Delay { cycles: 10 },
            ]
            &&& !empty ==> Receive::Waiting.commands_on(reply).len() == 0
            &&& !empty ==> (Receive::Waiting.next_on(reply) matches Next::Await(op) && op.awaits()
                == (Query::RxElement { index: status.f0gi as usize }))
        }),
{
}

/// The element that was read is acknowledged where it was read, and it becomes the
/// frame: its length code, its remote flag, its identifier, and each byte at its
/// position. Elements of up to eight bytes are taken, and no others.
pub proof fn law_received_element_becomes_the_frame(
    read_index: u8,
    element: RxBufferElement,
    i: int,
)
    requires
        0 <= i < 8,
    ensures
        ({
            let op = Receive::Fetching { read_index };
            let reply = Reply::RxElement(element);
            &&& op.admits(reply) <==> element.rxhdr.dlc <= 8 && element.hdr.id < 0x2000_0000
            &&& op.admits(reply) ==> op.commands_on(reply) == seq![
                Command::WriteRxf0a { f0ai: read_index },
            ]
            &&& op.admits(reply) ==> {
                &&& op.next_on(reply) matches Next::Done(frame)
                &&& frame@.dlc == element.rxhdr.dlc
                &&& frame@.is_remote == element.hdr.rtr
                &&& frame@.data[i] == element.data[i]
                &&& element.hdr.xtd ==> frame@.id == IdView::Extended(element.hdr.id)
                &&& !element.hdr.xtd ==> (frame@.id matches IdView::Standard(raw) && raw * 0x4_0000
                    <= element.hdr.id < (raw + 1) * 0x4_0000)
            }
        }),
{
    if element.valid() {
        law_element_becomes_frame(element, i);
    }
}

/// A receive goes on from no reply but the answer to what it asked.
pub proof fn law_receive_admits_only_answers(op: Receive, reply: Reply)
    requires
        op.admits(reply),
    ensures
        op.awaits() is Rxf0s <==> reply is Rxf0s,
        op.awaits() is RxElement <==> reply is RxElement,
{
}

} // verus!
