//! Transmitting a frame.

use vstd::prelude::*;

use crate::frame::{law_frame_becomes_element, law_transmitted_element, MCanFrame};
use crate::io::{
    Command, Next, Operation, Query, Reply, Transition, TxEventFifoStatus, TxFifoStatus,
};
use crate::io::{
    actions, admissible, lemma_in_two_parts, lemma_one_reply, lemma_polling, lemma_polls_pause,
    outcome, polls, refused_commands, Action,
};
use crate::msgram::{TxBufferElement, TxEvent};
use crate::rx::FIFO_DELAY;

verus! {

/// Number of elements that a transmission can be requested for.
pub const TX_ELEMENTS: u8 = 32;

/// The marker of the first frame.
pub const FIRST_MARKER: u8 = 0;

/// A frame is placed in the transmit FIFO, and the event that confirms it is
/// waited for and taken.
#[derive(Clone, Copy, PartialEq, Eq, Debug)]
pub enum Transmit {
    /// Until the FIFO has room for the frame.
    Queueing { frame: MCanFrame },
    /// The frame gets its marker and goes to where there is room.
    Marking { frame: MCanFrame, write_index: u8 },
    /// Until there is an event.
    Confirming { marker: u8 },
    /// The event to take.
    Fetching { marker: u8, read_index: u8 },
}

impl TxEventFifoStatus {
    /// The FIFO holds an event: the indices differ, or it is full.
    pub open spec fn holds_event(self) -> bool {
        self.efgi != self.efpi || self.eff
    }

    /// Whether the FIFO holds an event.
    pub fn has_event(&self) -> (r: bool)
        ensures
            r == self.holds_event(),
            !r <==> self.efgi == self.efpi && !self.eff,
    {
        self.efgi != self.efpi || self.eff
    }
}

/// The request to transmit one element.
pub open spec fn request_bits(index: u8) -> u32 {
    1u32 << (index as u32)
}

/// The marker after this one. Markers wrap around.
pub open spec fn marker_after(marker: u8) -> u8 {
    ((marker + 1) % 256) as u8
}

/// The marker that the frame after `sends` others gets.
pub open spec fn marker_after_sends(marker: u8, sends: nat) -> u8
    decreases sends,
{
    if sends == 0 {
        marker
    } else {
        marker_after(marker_after_sends(marker, (sends - 1) as nat))
    }
}

impl Operation for Transmit {
    type Output = ();

    open spec fn awaits(&self) -> Query {
        match *self {
            Transmit::Queueing { .. } => Query::Txfqs,
            Transmit::Marking { .. } => Query::CurrentMarker,
            Transmit::Confirming { .. } => Query::Txefs,
            Transmit::Fetching { read_index, .. } => Query::TxEvent { index: read_index as usize },
        }
    }

    /// The put index is one of the elements, and the event is that of the frame.
    open spec fn admits(&self, reply: Reply) -> bool {
        match *self {
            Transmit::Queueing { .. } => reply is Txfqs && (reply->Txfqs_0.tfqf
                || reply->Txfqs_0.tfqp < TX_ELEMENTS),
            Transmit::Marking { write_index, .. } => reply is CurrentMarker && write_index
                < TX_ELEMENTS,
            Transmit::Confirming { .. } => reply is Txefs,
            Transmit::Fetching { marker, .. } => reply is TxEvent && reply->TxEvent_0.mm == marker,
        }
    }

    open spec fn commands_on(&self, reply: Reply) -> Seq<Command> {
        match *self {
            Transmit::Queueing { .. } => if reply->Txfqs_0.tfqf {
                seq![Command::Delay { cycles: FIFO_DELAY }]
            } else {
                seq![]
            },
            Transmit::Marking { frame, write_index } => {
                let marker = reply->CurrentMarker_0;
                seq![
                    Command::StoreMarker { marker: marker_after(marker) },
                    Command::SetTxElement {
                        index: write_index as usize,
                        element: frame.tx_buffer(Some(marker)),
                    },
                    Command::WriteTxbar { bits: request_bits(write_index) },
                ]
            },
            Transmit::Confirming { .. } => if reply->Txefs_0.holds_event() {
                seq![]
            } else {
                seq![Command::Delay { cycles: FIFO_DELAY }]
            },
            Transmit::Fetching { read_index, .. } => seq![
                Command::WriteTxefa { efai: read_index },
            ],
        }
    }

    open spec fn next_on(&self, reply: Reply) -> Next<Transmit, ()> {
        match *self {
            Transmit::Queueing { frame } => if reply->Txfqs_0.tfqf {
                Next::Await(*self)
            } else {
                Next::Await(Transmit::Marking { frame, write_index: reply->Txfqs_0.tfqp })
            },
            Transmit::Marking { .. } => Next::Await(
                Transmit::Confirming { marker: reply->CurrentMarker_0 },
            ),
            Transmit::Confirming { marker } => if reply->Txefs_0.holds_event() {
                Next::Await(Transmit::Fetching { marker, read_index: reply->Txefs_0.efgi })
            } else {
                Next::Await(*self)
            },
            Transmit::Fetching { .. } => Next::Done(()),
        }
    }

    fn query(&self) -> (query: Query) {
        match *self {
            Transmit::Queueing { .. } => Query::Txfqs,
            Transmit::Marking { .. } => Query::CurrentMarker,
            Transmit::Confirming { .. } => Query::Txefs,
            Transmit::Fetching { read_index, .. } => Query::TxEvent { index: read_index as usize },
        }
    }

    fn accepts(&self, reply: &Reply) -> (r: bool) {
        match (*self, *reply) {
            (Transmit::Queueing { .. }, Reply::Txfqs(status)) => status.tfqf || status.tfqp
                < TX_ELEMENTS,
            (Transmit::Marking { write_index, .. }, Reply::CurrentMarker(_)) => write_index
                < TX_ELEMENTS,
            (Transmit::Confirming { .. }, Reply::Txefs(_)) => true,
            (Transmit::Fetching { marker, .. }, Reply::TxEvent(event)) => event.mm == marker,
            _ => false,
        }
    }

    fn resume(self, reply: Reply) -> (transition: Transition<Transmit, ()>) {
        match (self, reply) {
            (Transmit::Queueing { frame }, Reply::Txfqs(status)) if !status.tfqf => Transition {
                commands: Vec::new(),
                next: Next::Await(Transmit::Marking { frame, write_index: status.tfqp }),
            },
            (Transmit::Marking { frame, write_index }, Reply::CurrentMarker(marker)) => {
                let element = frame.into_tx_buffer(Some(marker));
                Transition {
                    commands: vec![
                        Command::StoreMarker { marker: marker.wrapping_add(1) },
                        Command::SetTxElement { index: write_index as usize, element },
                        Command::WriteTxbar { bits: 1u32 << (write_index as u32) },
                    ],
                    next: Next::Await(Transmit::Confirming { marker }),
                }
            },
            (
                Transmit::Confirming { marker },
                Reply::Txefs(status),
            ) if status.has_event() => Transition {
                commands: Vec::new(),
                next: Next::Await(Transmit::Fetching { marker, read_index: status.efgi }),
            },
            (Transmit::Fetching { read_index, .. }, _) => Transition {
                commands: vec![Command::WriteTxefa { efai: read_index }],
                next: Next::Done(()),
            },
            (waiting, _) => Transition {
                commands: vec![Command::Delay { cycles: FIFO_DELAY }],
                next: Next::Await(waiting),
            },
        }
    }
}

/// Every reply finds the transmit FIFO full.
pub open spec fn no_room(replies: Seq<Reply>) -> bool {
    forall|i: int|
        0 <= i < replies.len() ==> #[trigger] replies[i] is Txfqs && replies[i]->Txfqs_0.tfqf
}

/// Every reply finds the transmit event FIFO empty.
pub open spec fn no_event(replies: Seq<Reply>) -> bool {
    forall|i: int|
        0 <= i < replies.len() ==> #[trigger] replies[i] is Txefs
            && !replies[i]->Txefs_0.holds_event()
}

proof fn lemma_queueing_polls(frame: MCanFrame, replies: Seq<Reply>)
    requires
        no_room(replies),
    ensures
        ({
            let op = Transmit::Queueing { frame };
            &&& outcome(op, replies) == Next::<Transmit, ()>::Await(op)
            &&& actions(op, replies) == polls(Query::Txfqs, FIFO_DELAY, replies.len())
            &&& admissible(op, replies)
        }),
{
    let states = Seq::new(replies.len() + 1, |i: int| Transmit::Queueing { frame });
    lemma_polling(states, replies, Query::Txfqs, FIFO_DELAY);
}

proof fn lemma_confirming_polls(marker: u8, replies: Seq<Reply>)
    requires
        no_event(replies),
    ensures
        ({
            let op = Transmit::Confirming { marker };
            &&& outcome(op, replies) == Next::<Transmit, ()>::Await(op)
            &&& actions(op, replies) == polls(Query::Txefs, FIFO_DELAY, replies.len())
            &&& admissible(op, replies)
        }),
{
    let states = Seq::new(replies.len() + 1, |i: int| Transmit::Confirming { marker });
    lemma_polling(states, replies, Query::Txefs, FIFO_DELAY);
}

/// However long the FIFO stays full and the event stays out. While the FIFO is full
/// nothing is written, and the marker does not change. On the first status with
/// room the frame gets the marker that is kept, the next marker is kept, and the
/// frame is placed once, at the put index of that status, and only then requested.
/// The first event that appears is read at the get index and acknowledged once at
/// that index.
pub proof fn law_transmit(
    frame: MCanFrame,
    full: Seq<Reply>,
    room: TxFifoStatus,
    marker: u8,
    silent: Seq<Reply>,
    status: TxEventFifoStatus,
    event: TxEvent,
)
    requires
        frame.classic(),
        no_room(full),
        !room.tfqf,
        room.tfqp < TX_ELEMENTS,
        no_event(silent),
        status.holds_event(),
        event.mm == marker,
    ensures
        ({
            let op = Transmit::Queueing { frame };
            let element = frame.tx_buffer(Some(marker));
            let replies = full + seq![Reply::Txfqs(room), Reply::CurrentMarker(marker)] + (silent
                + seq![Reply::Txefs(status), Reply::TxEvent(event)]);
            &&& admissible(op, replies)
            &&& outcome(op, replies) == Next::<Transmit, ()>::Done(())
            &&& element.encodes(frame@, Some(marker))
            &&& actions(op, replies) == polls(Query::Txfqs, FIFO_DELAY, full.len()) + seq![
                Action::Read(Query::Txfqs),
                Action::Read(Query::CurrentMarker),
                Action::Perform(Command::StoreMarker { marker: marker_after(marker) }),
                Action::Perform(Command::SetTxElement { index: room.tfqp as usize, element }),
                Action::Perform(Command::WriteTxbar { bits: request_bits(room.tfqp) }),
            ] + (polls(Query::Txefs, FIFO_DELAY, silent.len()) + seq![
                Action::Read(Query::Txefs),
                Action::Read(Query::TxEvent { index: status.efgi as usize }),
                Action::Perform(Command::WriteTxefa { efai: status.efgi }),
            ])
        }),
{
    let op = Transmit::Queueing { frame };
    let element = frame.tx_buffer(Some(marker));
    let marking = Transmit::Marking { frame, write_index: room.tfqp };
    let confirming = Transmit::Confirming { marker };
    let fetching = Transmit::Fetching { marker, read_index: status.efgi };
    let free = Reply::Txfqs(room);
    let kept = Reply::CurrentMarker(marker);
    let found = Reply::Txefs(status);
    let taken = Reply::TxEvent(event);
    let placed = seq![
        Action::Read(Query::Txfqs),
        Action::Read(Query::CurrentMarker),
        Action::Perform(Command::StoreMarker { marker: marker_after(marker) }),
        Action::Perform(Command::SetTxElement { index: room.tfqp as usize, element }),
        Action::Perform(Command::WriteTxbar { bits: request_bits(room.tfqp) }),
    ];
    let confirmed = seq![
        Action::Read(Query::Txefs),
        Action::Read(Query::TxEvent { index: status.efgi as usize }),
        Action::Perform(Command::WriteTxefa { efai: status.efgi }),
    ];
    law_transmitted_element(frame, Some(marker));
    lemma_queueing_polls(frame, full);
    lemma_in_two_parts(op, full, seq![free, kept]);
    assert(seq![free, kept] =~= seq![free] + seq![kept]);
    lemma_one_reply(op, free);
    lemma_in_two_parts(op, seq![free], seq![kept]);
    lemma_one_reply(marking, kept);
    assert(actions(op, full + seq![free, kept]) =~= polls(Query::Txfqs, FIFO_DELAY, full.len())
        + placed);
    lemma_confirming_polls(marker, silent);
    lemma_in_two_parts(confirming, silent, seq![found, taken]);
    assert(seq![found, taken] =~= seq![found] + seq![taken]);
    lemma_one_reply(confirming, found);
    lemma_in_two_parts(confirming, seq![found], seq![taken]);
    lemma_one_reply(fetching, taken);
    assert(actions(confirming, silent + seq![found, taken]) =~= polls(
        Query::Txefs,
        FIFO_DELAY,
        silent.len(),
    ) + confirmed);
    lemma_in_two_parts(op, full + seq![free, kept], silent + seq![found, taken]);
}

/// While the FIFO is full a transmission only reads its status and pauses, and it
/// still waits for room.
pub proof fn law_full_fifo_changes_nothing(frame: MCanFrame, full: Seq<Reply>)
    requires
        no_room(full),
    ensures
        admissible(Transmit::Queueing { frame }, full),
        outcome(Transmit::Queueing { frame }, full) == Next::<Transmit, ()>::Await(
            Transmit::Queueing { frame },
        ),
        actions(Transmit::Queueing { frame }, full) == polls(Query::Txfqs, FIFO_DELAY, full.len()),
{
    lemma_queueing_polls(frame, full);
}

proof fn lemma_confirming_parts(marker: u8, replies: Seq<Reply>) -> (parts: (
    Seq<Reply>,
    TxEventFifoStatus,
    TxEvent,
))
    requires
        admissible(Transmit::Confirming { marker }, replies),
        outcome(Transmit::Confirming { marker }, replies) is Done,
    ensures
        no_event(parts.0),
        parts.1.holds_event(),
        parts.2.mm == marker,
        replies == parts.0 + seq![Reply::Txefs(parts.1), Reply::TxEvent(parts.2)],
    decreases replies.len(),
{
    reveal_with_fuel(admissible, 3);
    reveal_with_fuel(outcome, 3);
    let first = replies[0];
    let rest = replies.skip(1);
    if first->Txefs_0.holds_event() {
        let silent = Seq::<Reply>::empty();
        assert(rest.len() == 1);
        assert(replies =~= silent + seq![
            Reply::Txefs(first->Txefs_0),
            Reply::TxEvent(rest[0]->TxEvent_0),
        ]);
        (silent, first->Txefs_0, rest[0]->TxEvent_0)
    } else {
        let parts = lemma_confirming_parts(marker, rest);
        let silent = seq![first] + parts.0;
        assert forall|i: int| 0 <= i < silent.len() implies (#[trigger] silent[i]) is Txefs
            && !silent[i]->Txefs_0.holds_event() by {
            if i > 0 {
                assert(silent[i] == parts.0[i - 1]);
            }
        }
        assert(replies =~= seq![first] + rest);
        assert(replies =~= silent + seq![Reply::Txefs(parts.1), Reply::TxEvent(parts.2)]);
        (silent, parts.1, parts.2)
    }
}

/// Every transmission that comes to an end is one of those of [`law_transmit`]: it
/// was handed full statuses, then one with room, then the marker, then empty event
/// statuses, then one that is not, then the event of the frame.
pub proof fn law_transmit_ends_only_so(frame: MCanFrame, replies: Seq<Reply>) -> (parts: (
    Seq<Reply>,
    TxFifoStatus,
    u8,
    Seq<Reply>,
    TxEventFifoStatus,
    TxEvent,
))
    requires
        admissible(Transmit::Queueing { frame }, replies),
        outcome(Transmit::Queueing { frame }, replies) is Done,
    ensures
        no_room(parts.0),
        !parts.1.tfqf,
        parts.1.tfqp < TX_ELEMENTS,
        no_event(parts.3),
        parts.4.holds_event(),
        parts.5.mm == parts.2,
        replies == parts.0 + seq![Reply::Txfqs(parts.1), Reply::CurrentMarker(parts.2)] + (parts.3
            + seq![Reply::Txefs(parts.4), Reply::TxEvent(parts.5)]),
    decreases replies.len(),
{
    reveal_with_fuel(admissible, 3);
    reveal_with_fuel(outcome, 3);
    let first = replies[0];
    let rest = replies.skip(1);
    assert(replies =~= seq![first] + rest);
    if !first->Txfqs_0.tfqf {
        let marker = rest[0]->CurrentMarker_0;
        let last = rest.skip(1);
        let parts = lemma_confirming_parts(marker, last);
        let full = Seq::<Reply>::empty();
        assert(rest =~= seq![Reply::CurrentMarker(marker)] + last);
        assert(replies =~= full + seq![
            Reply::Txfqs(first->Txfqs_0),
            Reply::CurrentMarker(marker),
        ] + (parts.0 + seq![Reply::Txefs(parts.1), Reply::TxEvent(parts.2)]));
        (full, first->Txfqs_0, marker, parts.0, parts.1, parts.2)
    } else {
        let parts = law_transmit_ends_only_so(frame, rest);
        let full = seq![first] + parts.0;
        assert forall|i: int| 0 <= i < full.len() implies (#[trigger] full[i]) is Txfqs
            && full[i]->Txfqs_0.tfqf by {
            if i > 0 {
                assert(full[i] == parts.0[i - 1]);
            }
        }
        assert(replies =~= full + seq![
            Reply::Txfqs(parts.1),
            Reply::CurrentMarker(parts.2),
        ] + (parts.3 + seq![Reply::Txefs(parts.4), Reply::TxEvent(parts.5)]));
        (full, parts.1, parts.2, parts.3, parts.4, parts.5)
    }
}

/// An event of another frame is acknowledged as one of this frame is.
pub proof fn law_refused_event_is_acknowledged(marker: u8, read_index: u8, event: TxEvent)
    ensures
        ({
            let op = Transmit::Fetching { marker, read_index };
            &&& refused_commands(op.awaits()) == seq![Command::WriteTxefa { efai: read_index }]
            &&& refused_commands(op.awaits()) == op.commands_on(Reply::TxEvent(event))
        }),
{
}

/// The marker of a frame is the first marker plus the number of frames sent since,
/// modulo 256.
pub proof fn law_markers_count_frames(marker: u8, sends: nat)
    ensures
        marker_after_sends(marker, sends) == (marker + sends) % 256,
    decreases sends,
{
    if sends > 0 {
        law_markers_count_frames(marker, (sends - 1) as nat);
    }
}

/// The frame was transmitted: the operation came to an end with these replies.
pub open spec fn transmitted(frame: MCanFrame, replies: Seq<Reply>) -> bool {
    &&& frame.classic()
    &&& admissible(Transmit::Queueing { frame }, replies)
    &&& outcome(Transmit::Queueing { frame }, replies) is Done
}

/// The transmission keeps `marker` for the next one.
pub open spec fn keeps(frame: MCanFrame, replies: Seq<Reply>, marker: u8) -> bool {
    actions(Transmit::Queueing { frame }, replies).contains(
        Action::Perform(Command::StoreMarker { marker }),
    )
}

/// A transmission reads one marker, keeps the one after it, and places one element:
/// the frame under the marker it read.
proof fn lemma_transmitted(frame: MCanFrame, replies: Seq<Reply>) -> (at: (u8, usize))
    requires
        transmitted(frame, replies),
    ensures
        ({
            let (marker, index) = at;
            let element = frame.tx_buffer(Some(marker));
            let done = actions(Transmit::Queueing { frame }, replies);
            &&& replies.contains(Reply::CurrentMarker(marker))
            &&& forall|m: u8| replies.contains(Reply::CurrentMarker(m)) ==> m == marker
            &&& keeps(frame, replies, marker_after(marker))
            &&& forall|m: u8| keeps(frame, replies, m) ==> m == marker_after(marker)
            &&& done.contains(Action::Perform(Command::SetTxElement { index, element }))
            &&& forall|i: usize, e: TxBufferElement|
                done.contains(Action::Perform(Command::SetTxElement { index: i, element: e }))
                    ==> i == index && e == element
        }),
{
    let (full, room, marker, silent, status, event) = law_transmit_ends_only_so(frame, replies);
    law_transmit(frame, full, room, marker, silent, status, event);
    let index = room.tfqp as usize;
    let element = frame.tx_buffer(Some(marker));
    let op = Transmit::Queueing { frame };
    let done = actions(op, replies);
    let queueing = polls(Query::Txfqs, FIFO_DELAY, full.len());
    let confirming = polls(Query::Txefs, FIFO_DELAY, silent.len());
    let placed = seq![
        Action::Read(Query::Txfqs),
        Action::Read(Query::CurrentMarker),
        Action::Perform(Command::StoreMarker { marker: marker_after(marker) }),
        Action::Perform(Command::SetTxElement { index, element }),
        Action::Perform(Command::WriteTxbar { bits: request_bits(room.tfqp) }),
    ];
    let confirmed = seq![
        Action::Read(Query::Txefs),
        Action::Read(Query::TxEvent { index: status.efgi as usize }),
        Action::Perform(Command::WriteTxefa { efai: status.efgi }),
    ];
    assert(done == queueing + placed + (confirming + confirmed));
    assert(replies[full.len() as int + 1] == Reply::CurrentMarker(marker));
    assert(done[queueing.len() as int + 2] == placed[2]);
    assert(done[queueing.len() as int + 3] == placed[3]);
    assert forall|m: u8| replies.contains(Reply::CurrentMarker(m)) implies m == marker by {
        let i = choose|i: int|
            0 <= i < replies.len() && replies[i] == Reply::CurrentMarker(m);
        let n = full.len() as int;
        if i < n {
            assert(replies[i] == full[i]);
        } else if n + 2 <= i < n + 2 + silent.len() {
            assert(replies[i] == silent[i - n - 2]);
        }
    }
    assert forall|i: int| 0 <= i < done.len() implies {
        ||| (#[trigger] done[i]) is Read
        ||| done[i]->Perform_0 is Delay
        ||| i == queueing.len() + 2
        ||| i == queueing.len() + 3
        ||| done[i]->Perform_0 is WriteTxbar
        ||| done[i]->Perform_0 is WriteTxefa
    } by {
        let q = queueing.len() as int;
        let c = confirming.len() as int;
        if i < q {
            lemma_polls_pause(Query::Txfqs, FIFO_DELAY, full.len(), i);
            assert(done[i] == queueing[i]);
        } else if i < q + 5 {
            assert(done[i] == placed[i - q]);
        } else if i < q + 5 + c {
            lemma_polls_pause(Query::Txefs, FIFO_DELAY, silent.len(), i - q - 5);
            assert(done[i] == confirming[i - q - 5]);
        } else {
            assert(done[i] == confirmed[i - q - 5 - c]);
        }
    }
    (marker, index)
}

/// Where each transmission reads the marker that the one before it kept, the frame
/// after `k` others is placed under the first marker plus `k`, modulo 256, and asks
/// for an event.
pub proof fn law_transmissions_are_numbered(
    frames: Seq<MCanFrame>,
    runs: Seq<Seq<Reply>>,
    first: u8,
    k: int,
)
    requires
        frames.len() == runs.len(),
        0 <= k < frames.len(),
        forall|i: int| 0 <= i < frames.len() ==> transmitted(frames[i], #[trigger] runs[i]),
        runs[0].contains(Reply::CurrentMarker(first)),
        forall|i: int, kept: u8|
            0 <= i < frames.len() - 1 && #[trigger] keeps(frames[i], runs[i], kept) ==> runs[i
                + 1].contains(Reply::CurrentMarker(kept)),
    ensures
        ({
            let marker = ((first + k) % 256) as u8;
            let done = actions(Transmit::Queueing { frame: frames[k] }, runs[k]);
            &&& runs[k].contains(Reply::CurrentMarker(marker))
            &&& exists|index: usize, element: TxBufferElement|
                done.contains(Action::Perform(Command::SetTxElement { index, element }))
            &&& forall|index: usize, element: TxBufferElement|
                done.contains(Action::Perform(Command::SetTxElement { index, element })) ==> {
                    &&& element.encodes(frames[k]@, Some(marker))
                    &&& element.txhdr.mm == marker
                    &&& element.txhdr.efc
                }
        }),
    decreases k,
{
    let marker = ((first + k) % 256) as u8;
    let (read, index) = lemma_transmitted(frames[k], runs[k]);
    if k > 0 {
        law_transmissions_are_numbered(frames, runs, first, k - 1);
        let (before, _) = lemma_transmitted(frames[k - 1], runs[k - 1]);
        assert(before == ((first + k - 1) % 256) as u8);
        assert(runs[(k - 1) + 1].contains(Reply::CurrentMarker(marker_after(before))));
    }
    assert(read == marker);
    law_transmitted_element(frames[k], Some(marker));
    let element = frames[k].tx_buffer(Some(marker));
    assert(actions(Transmit::Queueing { frame: frames[k] }, runs[k]).contains(
        Action::Perform(Command::SetTxElement { index, element }),
    ));
}

/// A frame has another marker than the 255 frames before it.
pub proof fn law_markers_tell_frames_apart(marker: u8, earlier: nat, later: nat)
    requires
        earlier < later < earlier + 256,
    ensures
        marker_after_sends(marker, earlier) != marker_after_sends(marker, later),
{
    law_markers_count_frames(marker, earlier);
    law_markers_count_frames(marker, later);
}

/// A request is for one element only.
pub proof fn law_request_is_for_one_element(index: u8, other: u8)
    requires
        index < TX_ELEMENTS,
        other < TX_ELEMENTS,
    ensures
        (request_bits(index) >> (other as u32)) & 1 == 1 <==> other == index,
{
    let i = index as u32;
    let o = other as u32;
    assert(((1u32 << i) >> o) & 1 == 1 <==> o == i) by (bit_vector)
        requires
            i < 32,
            o < 32,
    ;
}

/// A ring of `n` elements is reported as holding an event exactly if it does. From
/// the get index on, `k` elements are filled; the put index comes after them, round
/// the end of the ring if need be, and the ring is full when all are.
pub proof fn law_ring_reports_its_events(status: TxEventFifoStatus, n: int, k: int)
    requires
        status.efgi < n,
        0 <= k <= n,
        status.efpi == (status.efgi + k) % n,
        status.eff == (k == n),
    ensures
        status.holds_event() <==> k > 0,
{
    crate::io::lemma_ring(status.efgi as int, n, k);
}

/// No event is reported exactly if the indices are equal and the ring is not full.
pub proof fn law_no_event_only_in_an_empty_ring(status: TxEventFifoStatus)
    ensures
        !status.holds_event() <==> status.efgi == status.efpi && !status.eff,
{
}

/// While the FIFO is full a frame waits, with pauses of ten cycles. Once it is not,
/// the frame goes to the put index of that status and nothing has been written yet.
/// A put index is one of 32.
pub proof fn law_frame_waits_for_room(frame: MCanFrame, status: TxFifoStatus)
    ensures
        ({
            let op = Transmit::Queueing { frame };
            let reply = Reply::Txfqs(status);
            &&& op.awaits() == Query::Txfqs
            &&& op.admits(reply) <==> status.tfqf || status.tfqp < 32
            &&& status.tfqf <==> op.next_on(reply) == Next::<Transmit, ()>::Await(op)
            &&& status.tfqf ==> op.commands_on(reply) == seq![Command::Delay { cycles: 10 }]
            &&& !status.tfqf ==> op.commands_on(reply).len() == 0
            &&& !status.tfqf ==> op.next_on(reply) == Next::<Transmit, ()>::Await(
                Transmit::Marking { frame, write_index: status.tfqp },
            )
        }),
{
}

/// With the marker at hand, first the marker after it is kept, then the frame is
/// placed at the index under the marker, each byte at its position, and last the
/// element at that index, and no other, is requested.
pub proof fn law_marked_frame_is_placed_and_requested(
    frame: MCanFrame,
    write_index: u8,
    marker: u8,
    i: int,
    bit: u32,
)
    requires
        frame.classic(),
        write_index < 32,
        0 <= i < 8,
        bit < 32,
    ensures
        ({
            let op = Transmit::Marking { frame, write_index };
            let reply = Reply::CurrentMarker(marker);
            let commands = op.commands_on(reply);
            &&& op.awaits() == Query::CurrentMarker
            &&& op.admits(reply)
            &&& commands.len() == 3
            &&& commands[0] matches Command::StoreMarker { marker: kept }
            &&& if marker < 255 {
                kept == marker + 1
            } else {
                kept == 0
            }
            &&& commands[1] matches Command::SetTxElement { index, element }
            &&& index == write_index
            &&& element.txhdr.mm == marker
            &&& element.txhdr.efc
            &&& element.txhdr.dlc == frame@.dlc
            &&& element.hdr.rtr == frame@.is_remote
            &&& element.data[i] == frame@.data[i]
            &&& element == frame.tx_buffer(Some(marker))
            &&& commands[2] matches Command::WriteTxbar { bits }
            &&& (bits >> bit) & 1 == 1 <==> bit == write_index
            &&& op.next_on(reply) == Next::<Transmit, ()>::Await(Transmit::Confirming { marker })
        }),
{
    law_frame_becomes_element(frame, Some(marker), i);
    law_request_is_for_one_element(write_index, bit as u8);
}

/// A request has one bit set, that of the element: it is a power of two.
pub proof fn law_request_is_a_power_of_two(index: u8)
    requires
        index < 32,
    ensures
        index == 0 ==> request_bits(index) == 1,
        index > 0 ==> request_bits(index) == 2 * request_bits((index - 1) as u8),
{
    let i = index as u32;
    assert(1u32 << 0u32 == 1) by (bit_vector);
    if index > 0 {
        let j = (i - 1) as u32;
        assert(1u32 << i == 2 * (1u32 << j)) by (bit_vector)
            requires
                0 < i < 32,
                j == i - 1,
        ;
    }
}

/// The confirmation is waited for, with pauses of ten cycles, exactly while the
/// indices are equal and the ring is not full. Otherwise the event at the get index
/// is read, at once.
pub proof fn law_confirmation_is_waited_for(marker: u8, status: TxEventFifoStatus)
    ensures
        ({
            let op = Transmit::Confirming { marker };
            let reply = Reply::Txefs(status);
            let empty = status.efgi == status.efpi && !status.eff;
            &&& op.awaits() == Query::Txefs
            &&& op.admits(reply)
            &&& empty <==> op.next_on(reply) == Next::<Transmit, ()>::Await(op)
            &&& empty ==> op.commands_on(reply) == seq![Command::Delay { cycles: 10 }]
            &&& !empty ==> op.commands_on(reply).len() == 0
            &&& !empty ==> op.next_on(reply) == Next::<Transmit, ()>::Await(
                Transmit::Fetching { marker, read_index: status.efgi },
            )
        }),
{
}

/// The event is read and acknowledged at the same index, and ends the transmission;
/// it has to carry the frame's marker.
pub proof fn law_event_confirms_its_frame(marker: u8, read_index: u8, event: TxEvent)
    ensures
        ({
            let op = Transmit::Fetching { marker, read_index };
            let reply = Reply::TxEvent(event);
            &&& op.awaits() == (Query::TxEvent { index: read_index as usize })
            &&& op.admits(reply) <==> event.mm == marker
            &&& op.commands_on(reply) == seq![Command::WriteTxefa { efai: read_index }]
            &&& op.next_on(reply) == Next::<Transmit, ()>::Done(())
        }),
{
}

/// A transmission goes on from no reply but the answer to what it asked.
pub proof fn law_transmit_admits_only_answers(op: Transmit, reply: Reply)
    requires
        op.admits(reply),
    ensures
        op.awaits() is Txfqs <==> reply is Txfqs,
        op.awaits() is CurrentMarker <==> reply is CurrentMarker,
        op.awaits() is Txefs <==> reply is Txefs,
        op.awaits() is TxEvent <==> reply is TxEvent,
{
}

} // verus!
