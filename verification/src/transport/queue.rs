//! What waits to be sent on a link: control messages before all others.
use crate::protocol::{Frame, Message};
use std::collections::VecDeque;
use vstd::prelude::*;

verus! {

/// The number of control messages that can wait.
pub const CONTROL_CAPACITY: usize = 16;

/// What is asked of the writer of a link.
#[derive(Debug)]
pub enum TransportCommand {
    Send(Frame),
    Close { reason: Option<String> },
}

/// The queue has not taken a command.
#[derive(Clone, Copy, Debug, PartialEq, Eq, Structural)]
pub struct TransportQueueError;

/// What became of a command that was offered to a queue.
#[derive(Debug)]
pub enum Offered {
    Queued,
    /// There is no room for it now.
    Full(TransportCommand),
    /// Nobody takes commands out any more.
    Closed(TransportCommand),
}

/// The commands that wait for the writer of a link, in two lanes.
pub struct TransportQueue {
    normal: VecDeque<TransportCommand>,
    control: VecDeque<TransportCommand>,
    capacity: usize,
    open: bool,
}

impl TransportCommand {
    /// Commands that do not wait behind the data of files.
    pub open spec fn is_urgent(&self) -> bool {
        match self {
            TransportCommand::Close { .. } => true,
            TransportCommand::Send(frame) => {
                ||| frame.message is Ping
                ||| frame.message is Pong
                ||| frame.message is Disconnect
                ||| frame.message is TransferCancel
                ||| frame.message is TransferCancelAck
            },
        }
    }

    /// Whether the command does not wait behind the data of files.
    pub fn is_high_priority(&self) -> (r: bool)
        ensures
            r == self.is_urgent(),
    {
        match self {
            TransportCommand::Close { .. } => true,
            TransportCommand::Send(frame) => matches!(
                frame.message,
                Message::Ping { .. } | Message::Pong { .. } | Message::Disconnect { .. }
                    | Message::TransferCancel { .. } | Message::TransferCancelAck { .. }
            ),
        }
    }
}

impl TransportQueue {
    /// The commands that wait behind all control messages.
    pub closed spec fn normal(&self) -> Seq<TransportCommand> {
        self.normal@
    }

    /// The control messages that wait.
    pub closed spec fn control(&self) -> Seq<TransportCommand> {
        self.control@
    }

    /// The number of other commands that can wait.
    pub closed spec fn capacity(&self) -> nat {
        self.capacity as nat
    }

    /// Somebody takes commands out.
    pub closed spec fn is_open(&self) -> bool {
        self.open
    }

    /// Each command is in its lane, and no lane is too full.
    pub open spec fn wf(&self) -> bool {
        &&& self.normal().len() <= self.capacity()
        &&& self.control().len() <= CONTROL_CAPACITY
        &&& forall|i: int| 0 <= i < self.normal().len() ==> !(#[trigger] self.normal()[i]).is_urgent()
        &&& forall|i: int| 0 <= i < self.control().len() ==> (#[trigger] self.control()[i]).is_urgent()
    }

    /// All commands that wait, in the order in which they are taken out.
    pub open spec fn waiting(&self) -> Seq<TransportCommand> {
        self.control() + self.normal()
    }

    /// An empty queue.
    pub fn new(capacity: usize) -> (r: Self)
        ensures
            r.wf(),
            r.normal() == Seq::<TransportCommand>::empty(),
            r.control() == Seq::<TransportCommand>::empty(),
            r.capacity() == capacity,
            r.is_open(),
    {
        TransportQueue { normal: VecDeque::new(), control: VecDeque::new(), capacity, open: true }
    }

    /// There is room for this command.
    pub open spec fn has_room_for(&self, command: TransportCommand) -> bool {
        if command.is_urgent() {
            self.control().len() < CONTROL_CAPACITY
        } else {
            self.normal().len() < self.capacity()
        }
    }

    /// Puts a command at the end of its lane, if there is room and somebody to take it out.
    pub fn offer(&mut self, command: TransportCommand) -> (r: Offered)
        requires
            old(self).wf(),
        ensures
            final(self).wf(),
            final(self).capacity() == old(self).capacity(),
            final(self).is_open() == old(self).is_open(),
            if !old(self).is_open() {
                r == Offered::Closed(command) && *final(self) == *old(self)
            } else if !old(self).has_room_for(command) {
                r == Offered::Full(command) && *final(self) == *old(self)
            } else {
                &&& r is Queued
                &&& final(self).control() == if command.is_urgent() {
                    old(self).control().push(command)
                } else {
                    old(self).control()
                }
                &&& final(self).normal() == if command.is_urgent() {
                    old(self).normal()
                } else {
                    old(self).normal().push(command)
                }
            },
    {
        if !self.open {
            return Offered::Closed(command);
        }
        if command.is_high_priority() {
            if self.control.len() >= CONTROL_CAPACITY {
                return Offered::Full(command);
            }
            self.control.push_back(command);
        } else {
            if self.normal.len() >= self.capacity {
                return Offered::Full(command);
            }
            self.normal.push_back(command);
        }
        Offered::Queued
    }

    /// Puts a command at the end of its lane, or says that it could not be done.
    pub fn try_send(&mut self, command: TransportCommand) -> (r: Result<(), TransportQueueError>)
        requires
            old(self).wf(),
        ensures
            final(self).wf(),
            final(self).capacity() == old(self).capacity(),
            final(self).is_open() == old(self).is_open(),
            r is Ok <==> old(self).is_open() && old(self).has_room_for(command),
            if r is Err {
                *final(self) == *old(self)
            } else {
                &&& final(self).control() == if command.is_urgent() {
                    old(self).control().push(command)
                } else {
                    old(self).control()
                }
                &&& final(self).normal() == if command.is_urgent() {
                    old(self).normal()
                } else {
                    old(self).normal().push(command)
                }
            },
    {
        match self.offer(command) {
            Offered::Queued => Ok(()),
            Offered::Full(_) | Offered::Closed(_) => Err(TransportQueueError),
        }
    }

    /// Takes the next command out: the oldest control message, or else the oldest of the others.
    pub fn try_recv(&mut self) -> (r: Option<TransportCommand>)
        requires
            old(self).wf(),
        ensures
            final(self).wf(),
            final(self).capacity() == old(self).capacity(),
            final(self).is_open() == old(self).is_open(),
            if old(self).control().len() > 0 {
                &&& r == Some(old(self).control()[0])
                &&& final(self).control() == old(self).control().drop_first()
                &&& final(self).normal() == old(self).normal()
            } else if old(self).normal().len() > 0 {
                &&& r == Some(old(self).normal()[0])
                &&& final(self).control() == old(self).control()
                &&& final(self).normal() == old(self).normal().drop_first()
            } else {
                r is None && *final(self) == *old(self)
            },
            old(self).waiting().len() > 0 ==> r == Some(old(self).waiting()[0]) && final(
                self
            ).waiting() == old(self).waiting().drop_first(),
    {
        if self.control.len() > 0 {
            let ghost before = self.control@;
            let first = self.control.pop_front();
            proof {
                assert(self.control@ =~= before.drop_first());
            }
            return first;
        }
        if self.normal.len() > 0 {
            let ghost before = self.normal@;
            let first = self.normal.pop_front();
            proof {
                assert(self.normal@ =~= before.drop_first());
            }
            return first;
        }
        None
    }

    /// Notes that nobody takes commands out any more.
    pub fn close(&mut self)
        requires
            old(self).wf(),
        ensures
            final(self).wf(),
            !final(self).is_open(),
            final(self).capacity() == old(self).capacity(),
            final(self).normal() == old(self).normal(),
            final(self).control() == old(self).control(),
    {
        self.open = false;
    }
}

/// Data never stands in the way of a control message: among the commands that wait, all control
/// messages come out before all others.
pub proof fn law_control_messages_come_first(queue: TransportQueue, i: int, j: int)
    requires
        queue.wf(),
        0 <= i < queue.waiting().len(),
        0 <= j < queue.waiting().len(),
        queue.waiting()[i].is_urgent(),
        !queue.waiting()[j].is_urgent(),
    ensures
        i < j,
        i < CONTROL_CAPACITY,
{
    if i >= queue.control().len() {
        assert(queue.waiting()[i] == queue.normal()[i - queue.control().len()]);
    }
    if j < queue.control().len() {
        assert(queue.waiting()[j] == queue.control()[j]);
    }
}

/// Control messages stay on the connection itself: none that is sent ahead of others may take the
/// network link.
pub proof fn law_control_messages_stay_off_the_link(frame: Frame)
    requires
        TransportCommand::Send(frame).is_urgent(),
    ensures
        frame.message.is_link_control(),
{
}

/// What may not wait behind data: the end of the link, signs of life, leave, and cancellations.
pub proof fn law_urgent_commands(command: TransportCommand, r: bool)
    requires
        call_ensures(TransportCommand::is_high_priority, (&command,), r),
    ensures
        command is Close ==> r,
        command matches TransportCommand::Send(frame) ==> (r <==> frame.message is Ping
            || frame.message is Pong || frame.message is Disconnect
            || frame.message is TransferCancel || frame.message is TransferCancelAck),
{
}

/// A command is taken as long as the queue is open and there is room: sixteen places for what is
/// urgent, and the given number for the rest; otherwise it is given back.
pub proof fn law_queue_is_bounded(
    queue: &mut TransportQueue,
    command: TransportCommand,
    urgent: bool,
    r: Offered,
)
    requires
        call_ensures(TransportQueue::offer, (queue, command), r),
        call_ensures(TransportCommand::is_high_priority, (&command,), urgent),
    ensures
        r is Queued <==> old(queue).is_open() && (urgent && old(queue).control().len() < 16
            || !urgent && old(queue).normal().len() < old(queue).capacity()),
        r is Closed <==> !old(queue).is_open(),
        r matches Offered::Full(back) ==> back == command && *final(queue) == *old(queue),
        r matches Offered::Closed(back) ==> back == command && *final(queue) == *old(queue),
        r is Queued ==> final(queue).waiting().len() == old(queue).waiting().len() + 1
            && final(queue).waiting().contains(command),
{
    if r is Queued {
        let c = old(queue).control().len() as int;
        if command.is_urgent() {
            assert(final(queue).waiting()[c] == command);
        } else {
            assert(final(queue).waiting()[c + old(queue).normal().len()] == command);
        }
    }
}

/// Of two commands of the same urgency, the one that was put in first comes out first; an urgent one
/// comes out before all others.
pub proof fn law_order_is_kept(
    queue: &mut TransportQueue,
    next: &mut TransportQueue,
    last: &mut TransportQueue,
    first: TransportCommand,
    second: TransportCommand,
    a: Option<TransportCommand>,
    urgent: (bool, bool),
)
    requires
        old(queue).waiting().len() == 0,
        call_ensures(TransportQueue::offer, (queue, first), Offered::Queued),
        *next == *final(queue),
        call_ensures(TransportQueue::offer, (next, second), Offered::Queued),
        *last == *final(next),
        call_ensures(TransportQueue::try_recv, (last,), a),
        call_ensures(TransportCommand::is_high_priority, (&first,), urgent.0),
        call_ensures(TransportCommand::is_high_priority, (&second,), urgent.1),
    ensures
        urgent.1 && !urgent.0 ==> a == Some(second),
        !(urgent.1 && !urgent.0) ==> a == Some(first),
        final(last).waiting().len() == 1,
{
}

/// What waits comes out in its order, one by one, and nothing is lost; an empty queue gives nothing.
pub proof fn law_nothing_is_lost(queue: &mut TransportQueue, r: Option<TransportCommand>)
    requires
        call_ensures(TransportQueue::try_recv, (queue,), r),
    ensures
        r is Some <==> old(queue).control().len() + old(queue).normal().len() > 0,
        r matches Some(command) ==> seq![command] + final(queue).control() + final(queue).normal()
            =~= old(queue).control() + old(queue).normal(),
        r is None ==> *final(queue) == *old(queue),
{
}

/// A queue that was closed takes nothing more, and what was in it still comes out.
pub proof fn law_closed_queue_takes_nothing(
    queue: &mut TransportQueue,
    next: &mut TransportQueue,
    command: TransportCommand,
    r: Result<(), TransportQueueError>,
)
    requires
        call_ensures(TransportQueue::close, (queue,), ()),
        *next == *final(queue),
        call_ensures(TransportQueue::try_send, (next, command), r),
    ensures
        r is Err,
        final(next).waiting() == old(queue).waiting(),
{
}

} // verus!
