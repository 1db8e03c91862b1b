use vstd::prelude::*;
use heapless::spsc::Queue;
use crate::parser::{Message, MESSAGE_BUFFER_SIZE};

verus! {

/// heapless's fixed-size SPSC ring buffer, `Queue<T, N>`, which holds at most
/// `N - 1` items. Proofs see it only through the item names below.
#[verifier::external_type_specification]
#[verifier::external_body]
#[verifier::reject_recursive_types(T)]
pub struct ExQueue<T, const N: usize>(Queue<T, N>);

/// Slots of the command queue; one of them always stays free.
pub const COMMAND_QUEUE_SIZE: usize = 2;

/// Most bytes the byte channel holds at once.
pub const BYTE_CHANNEL_CAPACITY: usize = MESSAGE_BUFFER_SIZE - 1;

/// Most commands the command channel holds at once.
pub const COMMAND_CHANNEL_CAPACITY: usize = COMMAND_QUEUE_SIZE - 1;

/// The bytes held by a byte queue, front first.
pub uninterp spec fn byte_queue_items(q: Queue<u8, MESSAGE_BUFFER_SIZE>) -> Seq<u8>;

/// The commands held by a command queue, front first.
pub uninterp spec fn command_queue_items(q: Queue<Message, COMMAND_QUEUE_SIZE>) -> Seq<Message>;

/// Relies on heapless::spsc::Queue::new: a new queue is empty.
#[verifier::external_body]
fn new_byte_queue() -> (r: Queue<u8, MESSAGE_BUFFER_SIZE>)
    ensures
        byte_queue_items(r) == Seq::<u8>::empty(),
{
    Queue::new()
}

/// Relies on heapless::spsc::Queue::enqueue: below `N - 1` items the byte goes
/// to the back; otherwise it is handed back and the queue is left as it was.
#[verifier::external_body]
fn enqueue_byte(q: &mut Queue<u8, MESSAGE_BUFFER_SIZE>, b: u8) -> (r: Result<(), u8>)
    ensures
        (byte_queue_items(*final(q)), r) == after_enqueue(
            byte_queue_items(*old(q)),
            b,
            BYTE_CHANNEL_CAPACITY as nat,
        ),
{
    q.enqueue(b)
}

/// Relies on heapless::spsc::Queue::dequeue: the front byte leaves the queue,
/// or `None` comes back when it is empty.
#[verifier::external_body]
fn dequeue_byte(q: &mut Queue<u8, MESSAGE_BUFFER_SIZE>) -> (r: Option<u8>)
    ensures
        (byte_queue_items(*final(q)), r) == after_dequeue(byte_queue_items(*old(q))),
{
    q.dequeue()
}

/// Relies on heapless::spsc::Queue::new: a new queue is empty.
#[verifier::external_body]
fn new_command_queue() -> (r: Queue<Message, COMMAND_QUEUE_SIZE>)
    ensures
        command_queue_items(r) == Seq::<Message>::empty(),
{
    Queue::new()
}

/// Relies on heapless::spsc::Queue::enqueue: below `N - 1` items the command
/// goes to the back; otherwise it is handed back and the queue is left as it was.
#[verifier::external_body]
fn enqueue_command(q: &mut Queue<Message, COMMAND_QUEUE_SIZE>, m: Message) -> (r: Result<
    (),
    Message,
>)
    ensures
        (command_queue_items(*final(q)), r) == after_enqueue(
            command_queue_items(*old(q)),
            m,
            COMMAND_CHANNEL_CAPACITY as nat,
        ),
{
    q.enqueue(m)
}

/// Relies on heapless::spsc::Queue::dequeue: the front command leaves the
/// queue, or `None` comes back when it is empty.
#[verifier::external_body]
fn dequeue_command(q: &mut Queue<Message, COMMAND_QUEUE_SIZE>) -> (r: Option<Message>)
    ensures
        (command_queue_items(*final(q)), r) == after_dequeue(command_queue_items(*old(q))),
{
    q.dequeue()
}

/// The items of a bounded FIFO queue holding `items` after one enqueue of `x`,
/// and what the enqueue returns: the item is added at the back while fewer than
/// `capacity` are held, and handed back otherwise.
pub open spec fn after_enqueue<T>(items: Seq<T>, x: T, capacity: nat) -> (Seq<T>, Result<(), T>) {
    if items.len() < capacity {
        (items.push(x), Ok(()))
    } else {
        (items, Err(x))
    }
}

/// The items of a FIFO queue holding `items` after one dequeue, and what the
/// dequeue returns: the front item, or `None` when the queue is empty.
pub open spec fn after_dequeue<T>(items: Seq<T>) -> (Seq<T>, Option<T>) {
    if items.len() == 0 {
        (items, None)
    } else {
        (items.drop_first(), Some(items[0]))
    }
}

/// The items after enqueueing each of `xs` in turn, and what each enqueue returned.
pub open spec fn enqueue_all<T>(items: Seq<T>, xs: Seq<T>, capacity: nat) -> (
    Seq<T>,
    Seq<Result<(), T>>,
)
    decreases xs.len(),
{
    if xs.len() == 0 {
        (items, Seq::empty())
    } else {
        let (next, r) = after_enqueue(items, xs[0], capacity);
        let (last, rs) = enqueue_all(next, xs.drop_first(), capacity);
        (last, seq![r] + rs)
    }
}

/// What dequeueing until the queue reports empty returns, in order.
pub open spec fn dequeue_all<T>(items: Seq<T>) -> Seq<T>
    decreases items.len(),
{
    if items.len() == 0 {
        Seq::empty()
    } else {
        let (rest, r) = after_dequeue(items);
        seq![r->Some_0] + dequeue_all(rest)
    }
}

proof fn lemma_dequeue_all<T>(items: Seq<T>)
    ensures
        dequeue_all(items) == items,
    decreases items.len(),
{
    if items.len() > 0 {
        lemma_dequeue_all(items.drop_first());
        assert(seq![items[0]] + items.drop_first() =~= items);
    }
}

proof fn lemma_enqueue_all<T>(items: Seq<T>, xs: Seq<T>, capacity: nat)
    requires
        items.len() <= capacity,
    ensures
        ({
            let room = (capacity - items.len()) as int;
            let k = if xs.len() < room {
                xs.len() as int
            } else {
                room
            };
            let (last, rs) = enqueue_all(items, xs, capacity);
            &&& last == items + xs.take(k)
            &&& rs.len() == xs.len()
            &&& forall|i: int|
                0 <= i < xs.len() ==> #[trigger] rs[i] == if i < k {
                    Ok::<(), T>(())
                } else {
                    Err::<(), T>(xs[i])
                }
        }),
    decreases xs.len(),
{
    if xs.len() > 0 {
        let (next, r) = after_enqueue(items, xs[0], capacity);
        lemma_enqueue_all(next, xs.drop_first(), capacity);
        let room = (capacity - items.len()) as int;
        let k = if xs.len() < room {
            xs.len() as int
        } else {
            room
        };
        let (last, rs) = enqueue_all(items, xs, capacity);
        let rs2 = enqueue_all(next, xs.drop_first(), capacity).1;
        assert(rs == seq![r] + rs2);
        if items.len() < capacity {
            assert(items.push(xs[0]) + xs.drop_first().take(k - 1) =~= items + xs.take(k));
        } else {
            assert(xs.take(0) =~= Seq::<T>::empty());
            assert(items + xs.take(0) =~= items);
        }
        assert forall|i: int| 0 <= i < xs.len() implies #[trigger] rs[i] == if i < k {
            Ok::<(), T>(())
        } else {
            Err::<(), T>(xs[i])
        } by {
            if i > 0 {
                assert(rs[i] == rs2[i - 1]);
                assert(xs.drop_first()[i - 1] == xs[i]);
            }
        }
    }
}

/// A channel that can hold `capacity` items, filled from empty with
/// `capacity + 1` of them before any dequeue, accepts the first `capacity`,
/// refuses the last one (handing it back), and then gives the accepted ones
/// back in the order they were enqueued.
pub proof fn lemma_full_channel_refuses<T>(xs: Seq<T>, capacity: nat)
    requires
        xs.len() == capacity + 1,
    ensures
        ({
            let (items, results) = enqueue_all(Seq::empty(), xs, capacity);
            &&& forall|i: int| 0 <= i < capacity ==> #[trigger] results[i] == Ok::<(), T>(())
            &&& results[capacity as int] == Err::<(), T>(xs[capacity as int])
            &&& dequeue_all(items) == xs.take(capacity as int)
        }),
{
    lemma_enqueue_all(Seq::<T>::empty(), xs, capacity);
    let items = enqueue_all(Seq::<T>::empty(), xs, capacity).0;
    assert(Seq::<T>::empty() + xs.take(capacity as int) =~= xs.take(capacity as int));
    lemma_dequeue_all(items);
}

/// A command enqueued on an empty command channel is the one that the next
/// dequeue returns, unchanged, and the channel is empty again.
pub proof fn lemma_command_round_trip(m: Message)
    ensures
        after_enqueue(Seq::empty(), m, COMMAND_CHANNEL_CAPACITY as nat).1 == Ok::<(), Message>(()),
        after_dequeue(after_enqueue(Seq::empty(), m, COMMAND_CHANNEL_CAPACITY as nat).0) == (
            Seq::<Message>::empty(),
            Some(m),
        ),
{
    let one = Seq::<Message>::empty().push(m);
    assert(one.drop_first() =~= Seq::<Message>::empty());
}

/// Single-producer, single-consumer ring buffer of raw bytes, from the serial
/// receiver to the parser. It never blocks and never overwrites: when full, the
/// newest byte is refused.
pub struct ByteChannel {
    queue: Queue<u8, MESSAGE_BUFFER_SIZE>,
}

impl View for ByteChannel {
    type V = Seq<u8>;

    /// The bytes held, front first.
    closed spec fn view(&self) -> Seq<u8> {
        byte_queue_items(self.queue)
    }
}

impl ByteChannel {
    /// An empty channel.
    pub fn new() -> (r: ByteChannel)
        ensures
            r@ == Seq::<u8>::empty(),
    {
        ByteChannel { queue: new_byte_queue() }
    }

    /// Adds `b` at the back, or hands it back when the channel is full.
    pub fn enqueue(&mut self, b: u8) -> (r: Result<(), u8>)
        ensures
            (final(self)@, r) == after_enqueue(old(self)@, b, BYTE_CHANNEL_CAPACITY as nat),
    {
        enqueue_byte(&mut self.queue, b)
    }

    /// Removes and returns the front byte, or `None` when the channel is empty.
    pub fn dequeue(&mut self) -> (r: Option<u8>)
        ensures
            (final(self)@, r) == after_dequeue(old(self)@),
    {
        dequeue_byte(&mut self.queue)
    }
}

/// Single-producer, single-consumer ring buffer of decoded commands, from the
/// parser to the control loop. When full, the newest command is refused.
pub struct CommandChannel {
    queue: Queue<Message, COMMAND_QUEUE_SIZE>,
}

impl View for CommandChannel {
    type V = Seq<Message>;

    /// The commands held, front first.
    closed spec fn view(&self) -> Seq<Message> {
        command_queue_items(self.queue)
    }
}

impl CommandChannel {
    /// An empty channel.
    pub fn new() -> (r: CommandChannel)
        ensures
            r@ == Seq::<Message>::empty(),
    {
        CommandChannel { queue: new_command_queue() }
    }

    /// Adds `m` at the back, or hands it back when the channel is full.
    pub fn enqueue(&mut self, m: Message) -> (r: Result<(), Message>)
        ensures
            (final(self)@, r) == after_enqueue(old(self)@, m, COMMAND_CHANNEL_CAPACITY as nat),
    {
        enqueue_command(&mut self.queue, m)
    }

    /// Removes and returns the front command, or `None` when the channel is empty.
    pub fn dequeue(&mut self) -> (r: Option<Message>)
        ensures
            (final(self)@, r) == after_dequeue(old(self)@),
    {
        dequeue_command(&mut self.queue)
    }
}

} // verus!
