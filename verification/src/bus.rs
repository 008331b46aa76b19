//! The typed publish/subscribe event bus between the transport layer and
//! the application loop.
//!
//! Each payload type has one ordered channel, created lazily by the first
//! send or registration.  Messages sent before a subscriber registers are
//! kept and delivered to it in order.  Each channel has at most one
//! subscriber for the whole session: registering a type twice is a protocol
//! violation and is refused by precondition.

use vstd::prelude::*;

use crate::assoc::{assoc_map, keys_unique, lemma_assoc_map_contains, lemma_assoc_map_index,
    lemma_assoc_map_push, lemma_assoc_map_update};
use crate::events::{RedrawEvent, UiCommand};

verus! {

/// One payload on the bus.
pub enum BusMessage {
    Redraw(RedrawEvent),
    Command(UiCommand),
}

/// The channel id for redraw events.
pub const REDRAW_CHANNEL: u64 = 1;

/// The channel id for outbound UI commands.
pub const COMMAND_CHANNEL: u64 = 2;

impl BusMessage {
    /// The channel a payload belongs to.
    pub open spec fn spec_type_id(&self) -> u64 {
        match self {
            BusMessage::Redraw(_) => REDRAW_CHANNEL,
            BusMessage::Command(_) => COMMAND_CHANNEL,
        }
    }

    /// The channel a payload belongs to.
    pub fn type_id(&self) -> (r: u64)
        ensures
            r == self.spec_type_id(),
    {
        match self {
            BusMessage::Redraw(_) => REDRAW_CHANNEL,
            BusMessage::Command(_) => COMMAND_CHANNEL,
        }
    }
}

/// One channel: whether its single subscriber has claimed it, and the
/// messages sent but not yet received, oldest first.
struct Channel {
    claimed: bool,
    pending: Vec<BusMessage>,
}

/// Abstract value of a channel.
pub struct ChannelView {
    pub claimed: bool,
    pub pending: Seq<BusMessage>,
}

impl View for Channel {
    type V = ChannelView;

    closed spec fn view(&self) -> ChannelView {
        ChannelView { claimed: self.claimed, pending: self.pending@ }
    }
}

/// The subscriber handle for one channel.
pub struct BusReceiver {
    pub type_id: u64,
}

/// The bus after a send: the payload is appended to its type's channel,
/// which is created unclaimed if this is the first traffic on it.
pub open spec fn spec_send(m: Map<u64, ChannelView>, msg: BusMessage) -> Map<u64, ChannelView> {
    let t = msg.spec_type_id();
    if m.contains_key(t) {
        m.insert(t, ChannelView { claimed: m[t].claimed, pending: m[t].pending.push(msg) })
    } else {
        m.insert(t, ChannelView { claimed: false, pending: seq![msg] })
    }
}

/// Whether a subscriber may still register for channel `t`: never twice.
pub open spec fn spec_can_register(m: Map<u64, ChannelView>, t: u64) -> bool {
    !m.contains_key(t) || !m[t].claimed
}

/// The bus after a registration: the channel is claimed; messages that
/// arrived before the subscriber are kept for it.
pub open spec fn spec_register(m: Map<u64, ChannelView>, t: u64) -> Map<u64, ChannelView> {
    if m.contains_key(t) {
        m.insert(t, ChannelView { claimed: true, pending: m[t].pending })
    } else {
        m.insert(t, ChannelView { claimed: true, pending: Seq::empty() })
    }
}

/// The entry views of the bus's backing list.
spec fn channel_pairs(s: Seq<(u64, Channel)>) -> Seq<(u64, ChannelView)> {
    s.map_values(|p: (u64, Channel)| (p.0, p.1@))
}

/// The event bus: one ordered channel per payload type.
pub struct EventAggregator {
    channels: Vec<(u64, Channel)>,
}

impl View for EventAggregator {
    type V = Map<u64, ChannelView>;

    closed spec fn view(&self) -> Map<u64, ChannelView> {
        assoc_map(channel_pairs(self.channels@))
    }
}

/// Every pending message sits on the channel of its own type.
pub open spec fn channels_typed(m: Map<u64, ChannelView>) -> bool {
    forall|t: u64, i: int|
        m.contains_key(t) && 0 <= i < m[t].pending.len() ==> (#[trigger] m[t].pending[
            i
        ]).spec_type_id() == t
}

impl EventAggregator {
    /// Channel ids are unique and every pending message is on the channel
    /// of its own type.
    pub closed spec fn wf(&self) -> bool {
        &&& keys_unique(channel_pairs(self.channels@))
        &&& channels_typed(self@)
    }

    /// A fresh bus with no channels.
    pub fn new() -> (r: EventAggregator)
        ensures
            r.wf(),
            r@ =~= Map::<u64, ChannelView>::empty(),
    {
        let r = EventAggregator { channels: Vec::new() };
        proof {
            assert(r@ =~= Map::<u64, ChannelView>::empty());
        }
        r
    }

    /// Index of the channel for `t`, if it exists.
    fn position_of(&self, t: u64) -> (r: Option<usize>)
        requires
            self.wf(),
        ensures
            match r {
                Some(i) => {
                    &&& i < self.channels@.len()
                    &&& channel_pairs(self.channels@)[i as int].0 == t
                    &&& self@.contains_key(t)
                    &&& self@[t] == channel_pairs(self.channels@)[i as int].1
                },
                None => !self@.contains_key(t),
            },
    {
        let mut i: usize = 0;
        while i < self.channels.len()
            invariant
                i <= self.channels@.len(),
                self.wf(),
                forall|j: int| 0 <= j < i ==> (#[trigger] channel_pairs(self.channels@)[j]).0 != t,
            decreases self.channels@.len() - i,
        {
            if self.channels[i].0 == t {
                proof {
                    lemma_assoc_map_index(channel_pairs(self.channels@), i as int);
                }
                return Some(i);
            }
            i = i + 1;
        }
        proof {
            lemma_assoc_map_contains(channel_pairs(self.channels@), t);
        }
        None
    }

    /// Publish a payload on the channel of its type, creating the channel
    /// unclaimed if this is its first traffic.  Only that channel changes.
    pub fn send(&mut self, msg: BusMessage)
        requires
            old(self).wf(),
        ensures
            final(self).wf(),
            final(self)@ =~= spec_send(old(self)@, msg),
    {
        let t = msg.type_id();
        match self.position_of(t) {
            None => {
                proof {
                    lemma_assoc_map_contains(channel_pairs(self.channels@), t);
                    assert(forall|j: int| 0 <= j < channel_pairs(self.channels@).len()
                        ==> (#[trigger] channel_pairs(self.channels@)[j]).0 != t);
                }
                let mut pending: Vec<BusMessage> = Vec::new();
                pending.push(msg);
                let ch = Channel { claimed: false, pending };
                let ghost cv: ChannelView = ch@;
                proof {
                    lemma_assoc_map_push(channel_pairs(self.channels@), t, cv);
                }
                self.channels.push((t, ch));
                proof {
                    assert(channel_pairs(self.channels@) =~= channel_pairs(
                        old(self).channels@,
                    ).push((t, cv)));
                    assert(cv.pending =~= seq![msg]);
                    assert(final(self)@ =~= spec_send(old(self)@, msg));
                    assert forall|u: u64, i: int|
                        final(self)@.contains_key(u) && 0 <= i < final(self)@[u].pending.len()
                            implies (#[trigger] final(self)@[u].pending[i]).spec_type_id()
                            == u by {
                        if u != t {
                            assert(final(self)@[u] == old(self)@[u]);
                        }
                    }
                }
            },
            Some(i) => {
                let mut pair = (0u64, Channel { claimed: false, pending: Vec::new() });
                self.channels.set_and_swap(i, &mut pair);
                pair.1.pending.push(msg);
                let ghost cv: ChannelView = pair.1@;
                let ghost newpair: (u64, Channel) = pair;
                self.channels.set_and_swap(i, &mut pair);
                proof {
                    assert(self.channels@ =~= old(self).channels@.update(i as int, newpair));
                    assert(channel_pairs(self.channels@) =~= channel_pairs(
                        old(self).channels@,
                    ).update(i as int, (t, cv)));
                    lemma_assoc_map_update(channel_pairs(old(self).channels@), i as int, cv);
                    assert(final(self)@ =~= spec_send(old(self)@, msg));
                    assert forall|u: u64, i2: int|
                        final(self)@.contains_key(u) && 0 <= i2 < final(self)@[u].pending.len()
                            implies (#[trigger] final(self)@[u].pending[i2]).spec_type_id()
                            == u by {
                        if u != t {
                            assert(final(self)@[u] == old(self)@[u]);
                        } else {
                            if i2 < old(self)@[t].pending.len() {
                                assert(final(self)@[t].pending[i2] == old(self)@[t].pending[i2]);
                            }
                        }
                    }
                }
            },
        }
    }

    /// Claim the single subscription for channel `t`, receiving any messages
    /// that were sent before registration.  Registering the same type twice
    /// is a protocol violation (fatal in the original design), refused here
    /// by precondition; registering different types is independent.
    pub fn register_event(&mut self, t: u64) -> (r: BusReceiver)
        requires
            old(self).wf(),
            spec_can_register(old(self)@, t),
        ensures
            final(self).wf(),
            final(self)@ =~= spec_register(old(self)@, t),
            r.type_id == t,
    {
        match self.position_of(t) {
            None => {
                proof {
                    lemma_assoc_map_contains(channel_pairs(self.channels@), t);
                    assert(forall|j: int| 0 <= j < channel_pairs(self.channels@).len()
                        ==> (#[trigger] channel_pairs(self.channels@)[j]).0 != t);
                }
                let ch = Channel { claimed: true, pending: Vec::new() };
                let ghost cv: ChannelView = ch@;
                proof {
                    lemma_assoc_map_push(channel_pairs(self.channels@), t, cv);
                }
                self.channels.push((t, ch));
                proof {
                    assert(channel_pairs(self.channels@) =~= channel_pairs(
                        old(self).channels@,
                    ).push((t, cv)));
                    assert(cv.pending =~= Seq::<BusMessage>::empty());
                    assert(final(self)@ =~= spec_register(old(self)@, t));
                    assert forall|u: u64, i: int|
                        final(self)@.contains_key(u) && 0 <= i < final(self)@[u].pending.len()
                            implies (#[trigger] final(self)@[u].pending[i]).spec_type_id()
                            == u by {
                        if u != t {
                            assert(final(self)@[u] == old(self)@[u]);
                        }
                    }
                }
                BusReceiver { type_id: t }
            },
            Some(i) => {
                let mut pair = (0u64, Channel { claimed: false, pending: Vec::new() });
                self.channels.set_and_swap(i, &mut pair);
                pair.1.claimed = true;
                let ghost cv: ChannelView = pair.1@;
                let ghost newpair: (u64, Channel) = pair;
                self.channels.set_and_swap(i, &mut pair);
                proof {
                    assert(self.channels@ =~= old(self).channels@.update(i as int, newpair));
                    assert(channel_pairs(self.channels@) =~= channel_pairs(
                        old(self).channels@,
                    ).update(i as int, (t, cv)));
                    lemma_assoc_map_update(channel_pairs(old(self).channels@), i as int, cv);
                    assert(final(self)@ =~= spec_register(old(self)@, t));
                    assert forall|u: u64, i2: int|
                        final(self)@.contains_key(u) && 0 <= i2 < final(self)@[u].pending.len()
                            implies (#[trigger] final(self)@[u].pending[i2]).spec_type_id()
                            == u by {
                        if u != t {
                            assert(final(self)@[u] == old(self)@[u]);
                        } else {
                            assert(final(self)@[t].pending[i2] == old(self)@[t].pending[i2]);
                        }
                    }
                }
                BusReceiver { type_id: t }
            },
        }
    }

    /// Take the oldest pending message of the receiver's channel, if any.
    /// A well-formed bus hands each receiver only payloads of its own type.
    pub fn recv(&mut self, receiver: &BusReceiver) -> (r: Option<BusMessage>)
        requires
            old(self).wf(),
        ensures
            final(self).wf(),
            match r {
                Some(msg) => {
                    &&& old(self)@.contains_key(receiver.type_id)
                    &&& old(self)@[receiver.type_id].pending.len() > 0
                    &&& msg == old(self)@[receiver.type_id].pending[0]
                    &&& msg.spec_type_id() == receiver.type_id
                    &&& final(self)@ =~= old(self)@.insert(
                        receiver.type_id,
                        ChannelView {
                            claimed: old(self)@[receiver.type_id].claimed,
                            pending: old(self)@[receiver.type_id].pending.drop_first(),
                        },
                    )
                },
                None => {
                    &&& (!old(self)@.contains_key(receiver.type_id) || old(self)@[
                        receiver.type_id
                    ].pending.len() == 0)
                    &&& final(self)@ =~= old(self)@
                },
            },
    {
        let t = receiver.type_id;
        match self.position_of(t) {
            None => None,
            Some(i) => {
                let mut pair = (0u64, Channel { claimed: false, pending: Vec::new() });
                self.channels.set_and_swap(i, &mut pair);
                if pair.1.pending.len() == 0 {
                    let ghost cv: ChannelView = pair.1@;
                    let ghost newpair: (u64, Channel) = pair;
                    self.channels.set_and_swap(i, &mut pair);
                    proof {
                        assert(self.channels@ =~= old(self).channels@.update(i as int, newpair));
                        assert(channel_pairs(self.channels@) =~= channel_pairs(
                            old(self).channels@,
                        ).update(i as int, (t, cv)));
                        lemma_assoc_map_update(channel_pairs(old(self).channels@), i as int, cv);
                        assert(cv == old(self)@[t]);
                        assert(final(self)@ =~= old(self)@);
                    }
                    None
                } else {
                    let msg = pair.1.pending.remove(0);
                    let ghost cv: ChannelView = pair.1@;
                    let ghost newpair: (u64, Channel) = pair;
                    self.channels.set_and_swap(i, &mut pair);
                    proof {
                        assert(self.channels@ =~= old(self).channels@.update(i as int, newpair));
                        assert(channel_pairs(self.channels@) =~= channel_pairs(
                            old(self).channels@,
                        ).update(i as int, (t, cv)));
                        lemma_assoc_map_update(channel_pairs(old(self).channels@), i as int, cv);
                        assert(cv.pending =~= old(self)@[t].pending.drop_first());
                        assert(msg == old(self)@[t].pending[0]);
                        assert(final(self)@ =~= old(self)@.insert(
                            t,
                            ChannelView {
                                claimed: old(self)@[t].claimed,
                                pending: old(self)@[t].pending.drop_first(),
                            },
                        ));
                        assert forall|u: u64, i2: int|
                            final(self)@.contains_key(u) && 0 <= i2
                                < final(self)@[u].pending.len() implies (#[trigger] final(self)@[u].pending[i2]).spec_type_id() == u by {
                            if u != t {
                                assert(final(self)@[u] == old(self)@[u]);
                            } else {
                                assert(final(self)@[t].pending[i2] == old(self)@[t].pending[
                                    i2 + 1
                                ]);
                            }
                        }
                    }
                    Some(msg)
                }
            },
        }
    }
}

/// Registering one payload type neither claims nor disturbs another:
/// different types register independently, and traffic on one channel never
/// appears on another.
pub proof fn lemma_bus_type_isolation(
    m: Map<u64, ChannelView>,
    t1: u64,
    t2: u64,
    msg: BusMessage,
)
    requires
        t1 != t2,
        spec_can_register(m, t2),
    ensures
        spec_can_register(spec_register(m, t1), t2),
        msg.spec_type_id() == t1 ==> (spec_send(m, msg).contains_key(t2) ==> spec_send(
            m,
            msg,
        )[t2] == m[t2]),
        spec_register(m, t1).contains_key(t2) == m.contains_key(t2),
        spec_register(m, t1).contains_key(t2) ==> spec_register(m, t1)[t2] == m[t2],
{
}

/// The forwarder between the remote stream and the application loop.
pub struct VimMessager {}

impl VimMessager {
    /// A fresh forwarder.
    pub fn new() -> (r: VimMessager) {
        VimMessager {}
    }

    /// The message the application loop gets for one received event: the
    /// event itself while the session runs, a quit once it stopped.
    pub fn route(&self, running: bool, event: RedrawEvent) -> (r: crate::events::AppMessage)
        ensures
            r == if running {
                crate::events::AppMessage::RedrawEvent(event)
            } else {
                crate::events::AppMessage::Quit
            },
    {
        if running {
            crate::events::AppMessage::RedrawEvent(event)
        } else {
            crate::events::AppMessage::Quit
        }
    }

    /// Publish a redraw event on the bus for the application loop.
    pub fn send(&self, bus: &mut EventAggregator, message: RedrawEvent)
        requires
            old(bus).wf(),
        ensures
            final(bus).wf(),
            final(bus)@ =~= spec_send(old(bus)@, BusMessage::Redraw(message)),
    {
        bus.send(BusMessage::Redraw(message));
    }
}

} // verus!
