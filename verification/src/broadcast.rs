//! The live feed: every message that is published goes to each listener
//! that is subscribed at that moment.
//!
//! Each listener has a queue of its own, of bounded length. A publisher
//! never waits: where a listener's queue is full, the oldest message in it
//! gives way, and the listener is told, when it next asks, how many
//! messages it has missed. A listener sees nothing that was published
//! before it subscribed.

use crate::models::{message_views, Message, MessageView};
use vstd::prelude::*;

verus! {

/// How many messages a listener's queue holds at most.
pub const BROADCAST_CAPACITY: usize = 16;

/// One subscriber of the feed.
pub struct Listener {
    id: u64,
    queue: Vec<Message>,
    lagged: u64,
}

/// What a [`Listener`] stands for in contracts: its id, the messages that
/// wait for it, oldest first, and how many it has missed since it was last
/// told.
pub struct ListenerView {
    pub id: u64,
    pub pending: Seq<MessageView>,
    pub lagged: u64,
}

impl View for Listener {
    type V = ListenerView;

    closed spec fn view(&self) -> ListenerView {
        ListenerView { id: self.id, pending: message_views(self.queue@), lagged: self.lagged }
    }
}

/// What the hub stands for in contracts: its listeners, in the order in
/// which they subscribed, and the id that the next one will get.
pub struct BroadcastView {
    pub listeners: Seq<ListenerView>,
    pub next_id: u64,
}

/// What a listener gets when it asks for its next message.
#[derive(Debug)]
pub enum Delivery {
    /// The oldest message that waited.
    Message(Message),
    /// The listener fell behind, and this many messages were dropped. It
    /// should read the history to catch up.
    Lagged(u64),
    /// Nothing waits.
    Empty,
    /// The listener is not subscribed.
    Closed,
}

/// What a [`Delivery`] stands for in contracts.
pub enum DeliveryView {
    Message(MessageView),
    Lagged(u64),
    Empty,
    Closed,
}

impl View for Delivery {
    type V = DeliveryView;

    open spec fn view(&self) -> DeliveryView {
        match *self {
            Delivery::Message(m) => DeliveryView::Message(m@),
            Delivery::Lagged(n) => DeliveryView::Lagged(n),
            Delivery::Empty => DeliveryView::Empty,
            Delivery::Closed => DeliveryView::Closed,
        }
    }
}

/// A listener after `message` was published: the message is the newest in
/// its queue. Where the queue was full, its oldest message is gone and
/// counted as missed.
pub open spec fn deliver(listener: ListenerView, message: MessageView) -> ListenerView {
    if listener.pending.len() < BROADCAST_CAPACITY {
        ListenerView { pending: listener.pending.push(message), ..listener }
    } else {
        ListenerView {
            pending: listener.pending.drop_first().push(message),
            lagged: if listener.lagged == u64::MAX {
                u64::MAX
            } else {
                (listener.lagged + 1) as u64
            },
            ..listener
        }
    }
}

/// Whether a listener with the id `id` is subscribed.
pub open spec fn has_listener(listeners: Seq<ListenerView>, id: u64) -> bool {
    exists|i: int| 0 <= i < listeners.len() && (#[trigger] listeners[i]).id == id
}

/// Where the listener with the id `id` stands, if it is subscribed.
pub open spec fn index_of_listener(listeners: Seq<ListenerView>, id: u64) -> int {
    choose|i: int| 0 <= i < listeners.len() && (#[trigger] listeners[i]).id == id
}

impl BroadcastView {
    /// The hub without a listener, whose first id will be 0.
    pub open spec fn empty() -> BroadcastView {
        BroadcastView { listeners: Seq::empty(), next_id: 0 }
    }

    /// The invariant of the hub: no id twice, every id below the next one,
    /// no queue over its capacity.
    pub open spec fn wf(self) -> bool {
        &&& forall|i: int|
            0 <= i < self.listeners.len() ==> (#[trigger] self.listeners[i]).id < self.next_id
        &&& forall|i: int, j: int|
            0 <= i < j < self.listeners.len() ==> (#[trigger] self.listeners[i]).id != (
            #[trigger] self.listeners[j]).id
        &&& forall|i: int|
            0 <= i < self.listeners.len() ==> (#[trigger] self.listeners[i]).pending.len()
                <= BROADCAST_CAPACITY
    }

    /// The id that a new subscriber gets, if one is left.
    pub open spec fn subscribe_outcome(self) -> Option<u64> {
        if self.next_id == u64::MAX {
            None
        } else {
            Some(self.next_id)
        }
    }

    /// The hub after a subscription: the new listener stands last, with
    /// nothing waiting for it.
    pub open spec fn after_subscribe(self) -> BroadcastView {
        if self.next_id == u64::MAX {
            self
        } else {
            BroadcastView {
                listeners: self.listeners.push(
                    ListenerView { id: self.next_id, pending: Seq::empty(), lagged: 0 },
                ),
                next_id: (self.next_id + 1) as u64,
            }
        }
    }

    /// The hub after `message` was published: delivered to every listener.
    pub open spec fn after_publish(self, message: MessageView) -> BroadcastView {
        BroadcastView {
            listeners: Seq::new(
                self.listeners.len(),
                |i: int| deliver(self.listeners[i], message),
            ),
            ..self
        }
    }

    /// What the listener `id` gets when it asks: word of what it missed, if
    /// anything, before any message.
    pub open spec fn poll_outcome(self, id: u64) -> DeliveryView {
        if !has_listener(self.listeners, id) {
            DeliveryView::Closed
        } else {
            let listener = self.listeners[index_of_listener(self.listeners, id)];
            if listener.lagged > 0 {
                DeliveryView::Lagged(listener.lagged)
            } else if listener.pending.len() == 0 {
                DeliveryView::Empty
            } else {
                DeliveryView::Message(listener.pending[0])
            }
        }
    }

    /// The hub after the listener `id` asked: what it was given is off its
    /// record.
    pub open spec fn after_poll(self, id: u64) -> BroadcastView {
        if !has_listener(self.listeners, id) {
            self
        } else {
            let at = index_of_listener(self.listeners, id);
            let listener = self.listeners[at];
            if listener.lagged > 0 {
                BroadcastView {
                    listeners: self.listeners.update(at, ListenerView { lagged: 0, ..listener }),
                    ..self
                }
            } else if listener.pending.len() == 0 {
                self
            } else {
                BroadcastView {
                    listeners: self.listeners.update(
                        at,
                        ListenerView { pending: listener.pending.drop_first(), ..listener },
                    ),
                    ..self
                }
            }
        }
    }

    /// The hub after the listener `id` left.
    pub open spec fn after_unsubscribe(self, id: u64) -> BroadcastView {
        if has_listener(self.listeners, id) {
            BroadcastView {
                listeners: self.listeners.remove(index_of_listener(self.listeners, id)),
                ..self
            }
        } else {
            self
        }
    }
}

/// In a hub without an id twice, the listener found under an id is the one
/// at any index that holds the id.
pub proof fn lemma_listener_found(hub: BroadcastView, at: int)
    requires
        hub.wf(),
        0 <= at < hub.listeners.len(),
    ensures
        has_listener(hub.listeners, hub.listeners[at].id),
        index_of_listener(hub.listeners, hub.listeners[at].id) == at,
{
    let id = hub.listeners[at].id;
    let j = index_of_listener(hub.listeners, id);
    assert(hub.listeners[j].id == id);
    if j < at {
        assert(hub.listeners[j].id != hub.listeners[at].id);
    } else if at < j {
        assert(hub.listeners[at].id != hub.listeners[j].id);
    }
}

/// Subscribing keeps the hub's invariant.
pub proof fn lemma_subscribe_keeps_wf(hub: BroadcastView)
    requires
        hub.wf(),
    ensures
        hub.after_subscribe().wf(),
{
    let subscribed = hub.after_subscribe();
    if hub.next_id != u64::MAX {
        assert forall|i: int| 0 <= i < hub.listeners.len() implies #[trigger] subscribed.listeners[i]
            == hub.listeners[i] by {}
        assert forall|i: int, j: int| 0 <= i < j < subscribed.listeners.len() implies (
        #[trigger] subscribed.listeners[i]).id != (#[trigger] subscribed.listeners[j]).id by {
            assert(hub.listeners[i].id < hub.next_id);
            if j < hub.listeners.len() {
                assert(hub.listeners[i].id != hub.listeners[j].id);
            }
        }
        assert forall|i: int| 0 <= i < subscribed.listeners.len() implies (
        #[trigger] subscribed.listeners[i]).id < subscribed.next_id
            && subscribed.listeners[i].pending.len() <= BROADCAST_CAPACITY by {
            if i < hub.listeners.len() {
                assert(hub.listeners[i].id < hub.next_id);
                assert(hub.listeners[i].pending.len() <= BROADCAST_CAPACITY);
            }
        }
    }
}

/// Publishing keeps the hub's invariant.
pub proof fn lemma_publish_keeps_wf(hub: BroadcastView, message: MessageView)
    requires
        hub.wf(),
    ensures
        hub.after_publish(message).wf(),
{
    let published = hub.after_publish(message);
    assert forall|i: int| 0 <= i < published.listeners.len() implies (
    #[trigger] published.listeners[i]).id == hub.listeners[i].id
        && published.listeners[i].pending.len() <= BROADCAST_CAPACITY by {
        assert(hub.listeners[i].pending.len() <= BROADCAST_CAPACITY);
    }
    assert forall|i: int, j: int| 0 <= i < j < published.listeners.len() implies (
    #[trigger] published.listeners[i]).id != (#[trigger] published.listeners[j]).id by {
        assert(hub.listeners[i].id != hub.listeners[j].id);
    }
    assert forall|i: int| 0 <= i < published.listeners.len() implies (
    #[trigger] published.listeners[i]).id < published.next_id by {
        assert(hub.listeners[i].id < hub.next_id);
    }
}

/// Handing a listener what is next for it keeps the hub's invariant.
pub proof fn lemma_poll_keeps_wf(hub: BroadcastView, id: u64)
    requires
        hub.wf(),
    ensures
        hub.after_poll(id).wf(),
{
    let polled = hub.after_poll(id);
    assert(polled.listeners.len() == hub.listeners.len());
    assert forall|i: int| 0 <= i < polled.listeners.len() implies (
    #[trigger] polled.listeners[i]).id == hub.listeners[i].id
        && polled.listeners[i].pending.len() <= hub.listeners[i].pending.len() by {}
    assert forall|i: int, j: int| 0 <= i < j < polled.listeners.len() implies (
    #[trigger] polled.listeners[i]).id != (#[trigger] polled.listeners[j]).id by {
        assert(hub.listeners[i].id != hub.listeners[j].id);
    }
    assert forall|i: int| 0 <= i < polled.listeners.len() implies (
    #[trigger] polled.listeners[i]).id < polled.next_id && polled.listeners[i].pending.len()
        <= BROADCAST_CAPACITY by {
        assert(hub.listeners[i].id < hub.next_id);
        assert(hub.listeners[i].pending.len() <= BROADCAST_CAPACITY);
    }
}

/// Ending a subscription keeps the hub's invariant.
pub proof fn lemma_unsubscribe_keeps_wf(hub: BroadcastView, id: u64)
    requires
        hub.wf(),
    ensures
        hub.after_unsubscribe(id).wf(),
{
    let left = hub.after_unsubscribe(id);
    if has_listener(hub.listeners, id) {
        let at = index_of_listener(hub.listeners, id);
        assert forall|i: int| 0 <= i < left.listeners.len() implies #[trigger] left.listeners[i]
            == hub.listeners[if i < at { i } else { i + 1 }] by {}
        assert forall|i: int, j: int| 0 <= i < j < left.listeners.len() implies (
        #[trigger] left.listeners[i]).id != (#[trigger] left.listeners[j]).id by {
            let a = if i < at { i } else { i + 1 };
            let b = if j < at { j } else { j + 1 };
            assert(hub.listeners[a].id != hub.listeners[b].id);
        }
        assert forall|i: int| 0 <= i < left.listeners.len() implies (
        #[trigger] left.listeners[i]).id < left.next_id && left.listeners[i].pending.len()
            <= BROADCAST_CAPACITY by {
            let a = if i < at { i } else { i + 1 };
            assert(hub.listeners[a].id < hub.next_id);
            assert(hub.listeners[a].pending.len() <= BROADCAST_CAPACITY);
        }
    }
}

/// A message that is published reaches every listener that is subscribed
/// then: it is the newest in each queue, and a listener for whom nothing
/// waited and who had missed nothing gets it when it asks next.
pub proof fn lemma_publish_reaches_every_listener(
    hub: BroadcastView,
    message: MessageView,
    at: int,
)
    requires
        hub.wf(),
        0 <= at < hub.listeners.len(),
    ensures
        hub.after_publish(message).listeners.len() == hub.listeners.len(),
        hub.after_publish(message).listeners[at].id == hub.listeners[at].id,
        hub.after_publish(message).listeners[at].pending.last() == message,
        hub.listeners[at].pending.len() == 0 && hub.listeners[at].lagged == 0
            ==> hub.after_publish(message).poll_outcome(hub.listeners[at].id)
            == DeliveryView::Message(message),
{
    let after = hub.after_publish(message);
    lemma_publish_keeps_wf(hub, message);
    lemma_listener_found(after, at);
}

/// A listener that subscribes after a message was published does not get
/// it: nothing waits for the newcomer.
pub proof fn lemma_late_subscriber_sees_nothing(hub: BroadcastView, message: MessageView)
    requires
        hub.wf(),
        hub.next_id < u64::MAX,
    ensures
        hub.after_publish(message).after_subscribe().listeners.last().id == hub.next_id,
        hub.after_publish(message).after_subscribe().listeners.last().pending.len() == 0,
        hub.after_publish(message).after_subscribe().poll_outcome(hub.next_id)
            == DeliveryView::Empty,
{
    let published = hub.after_publish(message);
    lemma_publish_keeps_wf(hub, message);
    let after = published.after_subscribe();
    lemma_subscribe_keeps_wf(published);
    lemma_listener_found(after, after.listeners.len() - 1);
}

/// Of two messages published one after the other, each listener has the
/// first before the second: they are the two newest in its queue.
pub proof fn lemma_feed_keeps_order(
    hub: BroadcastView,
    first: MessageView,
    second: MessageView,
    at: int,
)
    requires
        hub.wf(),
        0 <= at < hub.listeners.len(),
    ensures
        ({
            let pending = hub.after_publish(first).after_publish(second).listeners[at].pending;
            &&& pending.len() >= 2
            &&& pending[pending.len() - 2] == first
            &&& pending[pending.len() - 1] == second
        }),
{
    lemma_publish_keeps_wf(hub, first);
    let once = hub.after_publish(first).listeners[at];
    assert(once.pending.last() == first);
    assert(once.pending.len() <= BROADCAST_CAPACITY);
}

/// The hub after the messages of `messages` were published one after the
/// other.
pub open spec fn after_publishing(hub: BroadcastView, messages: Seq<MessageView>) -> BroadcastView
    decreases messages.len(),
{
    if messages.len() == 0 {
        hub
    } else {
        after_publishing(hub, messages.drop_last()).after_publish(messages.last())
    }
}

/// The hub after the listener `id` asked `count` times.
pub open spec fn after_polls(hub: BroadcastView, id: u64, count: nat) -> BroadcastView
    decreases count,
{
    if count == 0 {
        hub
    } else {
        after_polls(hub, id, (count - 1) as nat).after_poll(id)
    }
}

/// Messages published one after the other stand in a listener's queue in
/// the order in which they were published, behind what waited before, as
/// long as the queue has room for them; and the listener has missed no more
/// than before.
pub proof fn lemma_feed_delivers_in_order(
    hub: BroadcastView,
    messages: Seq<MessageView>,
    at: int,
)
    requires
        hub.wf(),
        0 <= at < hub.listeners.len(),
        hub.listeners[at].pending.len() + messages.len() <= BROADCAST_CAPACITY,
    ensures
        after_publishing(hub, messages).wf(),
        after_publishing(hub, messages).next_id == hub.next_id,
        after_publishing(hub, messages).listeners.len() == hub.listeners.len(),
        after_publishing(hub, messages).listeners[at].id == hub.listeners[at].id,
        after_publishing(hub, messages).listeners[at].lagged == hub.listeners[at].lagged,
        after_publishing(hub, messages).listeners[at].pending == hub.listeners[at].pending
            + messages,
    decreases messages.len(),
{
    if messages.len() == 0 {
        assert(hub.listeners[at].pending + messages =~= hub.listeners[at].pending);
    } else {
        let earlier = messages.drop_last();
        lemma_feed_delivers_in_order(hub, earlier, at);
        let before = after_publishing(hub, earlier);
        lemma_publish_keeps_wf(before, messages.last());
        assert(before.listeners[at].pending.push(messages.last()) =~= hub.listeners[at].pending
            + messages);
    }
}

/// A listener that has missed nothing gets what waits for it in order: the
/// answer to its asking for the `count`-th time is the `count`-th message
/// that waited, and once it has had them all, that nothing waits.
pub proof fn lemma_polls_yield_in_order(hub: BroadcastView, at: int, count: nat)
    requires
        hub.wf(),
        0 <= at < hub.listeners.len(),
        hub.listeners[at].lagged == 0,
        count <= hub.listeners[at].pending.len(),
    ensures
        after_polls(hub, hub.listeners[at].id, count).wf(),
        after_polls(hub, hub.listeners[at].id, count).listeners.len() == hub.listeners.len(),
        after_polls(hub, hub.listeners[at].id, count).listeners[at] == (ListenerView {
            pending: hub.listeners[at].pending.skip(count as int),
            ..hub.listeners[at]
        }),
        after_polls(hub, hub.listeners[at].id, count).poll_outcome(hub.listeners[at].id) == (
        if count < hub.listeners[at].pending.len() {
            DeliveryView::Message(hub.listeners[at].pending[count as int])
        } else {
            DeliveryView::Empty
        }),
    decreases count,
{
    let id = hub.listeners[at].id;
    let pending = hub.listeners[at].pending;
    if count == 0 {
        assert(pending.skip(0) =~= pending);
        lemma_listener_found(hub, at);
    } else {
        lemma_polls_yield_in_order(hub, at, (count - 1) as nat);
        let before = after_polls(hub, id, (count - 1) as nat);
        lemma_listener_found(before, at);
        lemma_poll_keeps_wf(before, id);
        let after = before.after_poll(id);
        assert(after.listeners[at].pending =~= pending.skip(count as int));
        lemma_listener_found(after, at);
    }
}

/// A listener gets exactly what is published after it subscribed, in the
/// order in which it is published, whatever was published before: asked
/// for the `count`-th time it gets the `count`-th of those messages, and
/// after the last of them nothing. The messages are no more than its queue
/// holds.
pub proof fn lemma_listener_gets_what_follows(
    hub: BroadcastView,
    messages: Seq<MessageView>,
    count: nat,
)
    requires
        hub.wf(),
        hub.next_id < u64::MAX,
        messages.len() <= BROADCAST_CAPACITY,
        count <= messages.len(),
    ensures
        after_polls(
            after_publishing(hub.after_subscribe(), messages),
            hub.next_id,
            count,
        ).poll_outcome(hub.next_id) == (if count < messages.len() {
            DeliveryView::Message(messages[count as int])
        } else {
            DeliveryView::Empty
        }),
{
    let joined = hub.after_subscribe();
    lemma_subscribe_keeps_wf(hub);
    let at = hub.listeners.len() as int;
    lemma_feed_delivers_in_order(joined, messages, at);
    let fed = after_publishing(joined, messages);
    assert(fed.listeners[at].pending =~= messages);
    lemma_polls_yield_in_order(fed, at, count);
}

/// What one listener does with its queue, and its leaving, changes nothing
/// for another listener.
pub proof fn lemma_listeners_are_independent(hub: BroadcastView, id: u64, other: u64)
    requires
        hub.wf(),
        id != other,
    ensures
        hub.after_poll(id).poll_outcome(other) == hub.poll_outcome(other),
        hub.after_unsubscribe(id).poll_outcome(other) == hub.poll_outcome(other),
{
    lemma_poll_keeps_wf(hub, id);
    lemma_unsubscribe_keeps_wf(hub, id);
    let polled = hub.after_poll(id);
    let left = hub.after_unsubscribe(id);
    if has_listener(hub.listeners, other) {
        let at = index_of_listener(hub.listeners, other);
        assert(hub.listeners[at].id == other);
        assert(polled.listeners[at] == hub.listeners[at]);
        lemma_listener_found(polled, at);
        if has_listener(hub.listeners, id) {
            let gone = index_of_listener(hub.listeners, id);
            assert(hub.listeners[gone].id == id);
            let moved = if at < gone { at } else { at - 1 };
            assert(left.listeners[moved] == hub.listeners[at]);
            lemma_listener_found(left, moved);
        }
    } else {
        assert forall|i: int| 0 <= i < polled.listeners.len() implies (
        #[trigger] polled.listeners[i]).id != other by {
            assert(polled.listeners[i].id == hub.listeners[i].id);
        }
        if has_listener(hub.listeners, id) {
            let gone = index_of_listener(hub.listeners, id);
            assert forall|i: int| 0 <= i < left.listeners.len() implies (
            #[trigger] left.listeners[i]).id != other by {
                assert(left.listeners[i] == hub.listeners[if i < gone { i } else { i + 1 }]);
            }
        }
    }
}

/// The hub of the live feed.
pub struct MessageBroadcast {
    listeners: Vec<Listener>,
    next_id: u64,
}

impl View for MessageBroadcast {
    type V = BroadcastView;

    closed spec fn view(&self) -> BroadcastView {
        BroadcastView {
            listeners: self.listeners@.map_values(|l: Listener| l@),
            next_id: self.next_id,
        }
    }
}

impl Listener {
    /// Takes `message` into the queue, as `deliver` says.
    fn accept(&mut self, message: Message)
        requires
            old(self)@.pending.len() <= BROADCAST_CAPACITY,
        ensures
            final(self)@ == deliver(old(self)@, message@),
    {
        if self.queue.len() >= BROADCAST_CAPACITY {
            self.queue.remove(0);
            if self.lagged < u64::MAX {
                self.lagged = self.lagged + 1;
            }
        }
        self.queue.push(message);
        assert(self@.pending =~= deliver(old(self)@, message@).pending);
    }
}

impl MessageBroadcast {
    /// A hub without listeners.
    pub fn new() -> (hub: MessageBroadcast)
        ensures
            hub@.wf(),
            hub@ == BroadcastView::empty(),
    {
        let hub = MessageBroadcast { listeners: Vec::new(), next_id: 0 };
        assert(hub@.listeners =~= Seq::empty());
        hub
    }

    /// How many listeners are subscribed.
    pub fn listener_count(&self) -> (n: usize)
        ensures
            n == self@.listeners.len(),
    {
        self.listeners.len()
    }

    /// Where the listener `id` stands.
    fn position_of(&self, id: u64) -> (at: Option<usize>)
        requires
            self@.wf(),
        ensures
            match at {
                Some(i) => has_listener(self@.listeners, id) && i == index_of_listener(
                    self@.listeners,
                    id,
                ) && i < self.listeners@.len(),
                None => !has_listener(self@.listeners, id),
            },
    {
        let mut i: usize = 0;
        while i < self.listeners.len()
            invariant
                i <= self.listeners@.len(),
                self@.wf(),
                forall|k: int| 0 <= k < i ==> (#[trigger] self@.listeners[k]).id != id,
            decreases self.listeners@.len() - i,
        {
            if self.listeners[i].id == id {
                proof {
                    lemma_listener_found(self@, i as int);
                }
                return Some(i);
            }
            i += 1;
        }
        None
    }

    /// Subscribes a new listener and returns its id; `None`, with nothing
    /// changed, where the ids have run out. The listener will see what is
    /// published from now on.
    pub fn subscribe(&mut self) -> (id: Option<u64>)
        requires
            old(self)@.wf(),
        ensures
            final(self)@.wf(),
            id == old(self)@.subscribe_outcome(),
            final(self)@ == old(self)@.after_subscribe(),
    {
        if self.next_id == u64::MAX {
            return None;
        }
        let id = self.next_id;
        self.listeners.push(Listener { id, queue: Vec::new(), lagged: 0 });
        self.next_id = self.next_id + 1;
        proof {
            assert(message_views(Seq::<Message>::empty()) =~= Seq::<MessageView>::empty());
            assert(self@.listeners =~= old(self)@.after_subscribe().listeners);
            lemma_subscribe_keeps_wf(old(self)@);
        }
        Some(id)
    }

    /// Publishes `message` to every listener that is subscribed now, and
    /// returns how many there are. Never waits, and never fails: with no
    /// listener it does nothing.
    pub fn publish(&mut self, message: &Message) -> (reached: usize)
        requires
            old(self)@.wf(),
        ensures
            final(self)@.wf(),
            reached == old(self)@.listeners.len(),
            final(self)@ == old(self)@.after_publish(message@),
    {
        let mut i: usize = 0;
        while i < self.listeners.len()
            invariant
                i <= self.listeners@.len(),
                self@.listeners.len() == old(self)@.listeners.len(),
                self@.next_id == old(self)@.next_id,
                old(self)@.wf(),
                forall|k: int|
                    0 <= k < i ==> #[trigger] self@.listeners[k] == deliver(
                        old(self)@.listeners[k],
                        message@,
                    ),
                forall|k: int|
                    i <= k < self@.listeners.len() ==> #[trigger] self@.listeners[k] == old(
                        self,
                    )@.listeners[k],
            decreases self.listeners@.len() - i,
        {
            let ghost before = self@;
            assert(before.listeners[i as int] == old(self)@.listeners[i as int]);
            assert(old(self)@.listeners[i as int].pending.len() <= BROADCAST_CAPACITY);
            self.listeners[i].accept(message.clone());
            proof {
                assert forall|k: int| 0 <= k < self@.listeners.len() && k != i implies (
                #[trigger] self@.listeners[k]) == before.listeners[k] by {}
            }
            i += 1;
        }
        proof {
            assert(self@.listeners =~= old(self)@.after_publish(message@).listeners);
            lemma_publish_keeps_wf(old(self)@, message@);
        }
        self.listeners.len()
    }

    /// Gives the listener `id` what is next for it: word of what it missed,
    /// if anything, else the oldest message that waits, else nothing.
    pub fn poll(&mut self, id: u64) -> (next: Delivery)
        requires
            old(self)@.wf(),
        ensures
            final(self)@.wf(),
            next@ == old(self)@.poll_outcome(id),
            final(self)@ == old(self)@.after_poll(id),
    {
        let at = match self.position_of(id) {
            None => {
                return Delivery::Closed;
            },
            Some(at) => at,
        };
        let ghost before = self@;
        let next = if self.listeners[at].lagged > 0 {
            let missed = self.listeners[at].lagged;
            self.listeners[at].lagged = 0;
            Delivery::Lagged(missed)
        } else if self.listeners[at].queue.len() == 0 {
            Delivery::Empty
        } else {
            let message = self.listeners[at].queue.remove(0);
            Delivery::Message(message)
        };
        proof {
            assert(self@.listeners[at as int].pending =~= old(self)@.after_poll(
                id,
            ).listeners[at as int].pending);
            assert(self@.listeners =~= old(self)@.after_poll(id).listeners);
            lemma_poll_keeps_wf(old(self)@, id);
        }
        next
    }

    /// Ends the subscription of the listener `id`, if it has one. The
    /// other listeners keep what waits for them.
    pub fn unsubscribe(&mut self, id: u64)
        requires
            old(self)@.wf(),
        ensures
            final(self)@.wf(),
            final(self)@ == old(self)@.after_unsubscribe(id),
    {
        match self.position_of(id) {
            None => {},
            Some(at) => {
                self.listeners.remove(at);
                proof {
                    assert(self@.listeners =~= old(self)@.after_unsubscribe(id).listeners);
                }
            },
        }
        proof {
            lemma_unsubscribe_keeps_wf(old(self)@, id);
        }
    }
}

} // verus!
