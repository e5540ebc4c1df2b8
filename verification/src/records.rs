use vstd::prelude::*;

use crate::errors::MessagingError;
use crate::errors::OpError;
use crate::keys::keys_equal;

verus! {

// ---------------------------------------------------------------------------
// Message threads
// ---------------------------------------------------------------------------

/// One ongoing two-party conversation. Message content travels outside the
/// persisted state; the record keeps only the sequence counter and timestamps.
#[derive(Clone, Copy, Debug)]
pub struct MessageThread {
    /// First participant; pays the deposit and alone may close the thread.
    pub participant_a: [u8; 32],
    /// Second participant; enrolled without their consent.
    pub participant_b: [u8; 32],
    /// Caller-chosen nonce, part of the thread's address derivation.
    pub thread_id: [u8; 32],
    /// Number of accepted messages; advances by exactly one per message.
    pub message_count: u32,
    /// Oracle time at creation.
    pub created_at: i64,
    /// Oracle time of the last accepted message; zero before the first.
    pub last_message_at: i64,
}

/// Mathematical value of a [`MessageThread`].
#[verifier::ext_equal]
pub struct ThreadV {
    pub participant_a: Seq<u8>,
    pub participant_b: Seq<u8>,
    pub thread_id: Seq<u8>,
    pub message_count: u32,
    pub created_at: i64,
    pub last_message_at: i64,
}

impl View for MessageThread {
    type V = ThreadV;

    open spec fn view(&self) -> ThreadV {
        ThreadV {
            participant_a: self.participant_a@,
            participant_b: self.participant_b@,
            thread_id: self.thread_id@,
            message_count: self.message_count,
            created_at: self.created_at,
            last_message_at: self.last_message_at,
        }
    }
}

impl ThreadV {
    /// Well-formedness: identifiers are 32 bytes, and once any message has
    /// been accepted the last-message time is no earlier than creation.
    pub open spec fn wf(self) -> bool {
        &&& self.participant_a.len() == 32
        &&& self.participant_b.len() == 32
        &&& self.thread_id.len() == 32
        &&& self.message_count > 0 ==> self.last_message_at >= self.created_at
    }
}

/// Whether `sender` is one of the two stored participants.
pub open spec fn thread_participant(t: ThreadV, sender: Seq<u8>) -> bool {
    sender == t.participant_a || sender == t.participant_b
}

/// Verdict of the guards of `send_message`, in the order they are checked:
/// sender authorization first, then sequence integrity, then counter width.
pub open spec fn thread_send_outcome(t: ThreadV, sender: Seq<u8>, message_index: u32) -> Result<
    (),
    OpError,
> {
    if !thread_participant(t, sender) {
        Err(OpError::Refused(MessagingError::UnauthorizedSender))
    } else if message_index != t.message_count {
        Err(OpError::Refused(MessagingError::InvalidMessageIndex))
    } else if t.message_count == u32::MAX {
        Err(OpError::ArithmeticOverflow)
    } else {
        Ok(())
    }
}

/// The thread after one accepted message at oracle time `now`.
pub open spec fn thread_after_send(t: ThreadV, now: i64) -> ThreadV
    recommends
        t.message_count < u32::MAX,
{
    ThreadV { message_count: (t.message_count + 1) as u32, last_message_at: now, ..t }
}

impl MessageThread {
    /// A fresh thread: counters zeroed, creation stamped with `now`.
    pub fn new(
        participant_a: &[u8; 32],
        participant_b: &[u8; 32],
        thread_id: &[u8; 32],
        now: i64,
    ) -> (t: Self)
        ensures
            t@ == (ThreadV {
                participant_a: participant_a@,
                participant_b: participant_b@,
                thread_id: thread_id@,
                message_count: 0,
                created_at: now,
                last_message_at: 0,
            }),
            t@.wf(),
    {
        MessageThread {
            participant_a: *participant_a,
            participant_b: *participant_b,
            thread_id: *thread_id,
            message_count: 0,
            created_at: now,
            last_message_at: 0,
        }
    }

    /// Accepts or rejects one message. A rejection leaves the record exactly
    /// as it was; an acceptance advances the counter by one and stamps the
    /// oracle time.
    pub fn send(&mut self, sender: &[u8; 32], message_index: u32, now: i64) -> (r: Result<
        (),
        OpError,
    >)
        requires
            now >= old(self).created_at,
        ensures
            r == thread_send_outcome(old(self)@, sender@, message_index),
            r is Ok ==> final(self)@ == thread_after_send(old(self)@, now),
            r is Err ==> *final(self) == *old(self),
            old(self)@.wf() ==> final(self)@.wf(),
    {
        let authorized = keys_equal(sender, &self.participant_a) || keys_equal(
            sender,
            &self.participant_b,
        );
        if !authorized {
            return Err(OpError::Refused(MessagingError::UnauthorizedSender));
        }
        if message_index != self.message_count {
            return Err(OpError::Refused(MessagingError::InvalidMessageIndex));
        }
        if self.message_count == u32::MAX {
            return Err(OpError::ArithmeticOverflow);
        }
        self.message_count = self.message_count + 1;
        self.last_message_at = now;
        Ok(())
    }
}

// ---------------------------------------------------------------------------
// Broadcast channels
// ---------------------------------------------------------------------------

/// A one-to-many broadcast feed owned by a single principal.
#[derive(Debug)]
pub struct BroadcastChannel {
    /// The broadcaster; alone may send and alone may close the channel.
    pub owner: [u8; 32],
    /// UTF-8 name, at most 32 bytes; part of the channel's address derivation.
    pub channel_name: Vec<u8>,
    /// Number of accepted broadcasts; advances by exactly one per broadcast.
    pub message_count: u32,
    /// Number of successful subscriptions; never decremented.
    pub subscriber_count: u32,
    /// Oracle time at creation.
    pub created_at: i64,
    /// Oracle time of the last accepted broadcast; zero before the first.
    pub last_broadcast_at: i64,
}

/// Mathematical value of a [`BroadcastChannel`].
#[verifier::ext_equal]
pub struct ChannelV {
    pub owner: Seq<u8>,
    pub channel_name: Seq<u8>,
    pub message_count: u32,
    pub subscriber_count: u32,
    pub created_at: i64,
    pub last_broadcast_at: i64,
}

impl View for BroadcastChannel {
    type V = ChannelV;

    open spec fn view(&self) -> ChannelV {
        ChannelV {
            owner: self.owner@,
            channel_name: self.channel_name@,
            message_count: self.message_count,
            subscriber_count: self.subscriber_count,
            created_at: self.created_at,
            last_broadcast_at: self.last_broadcast_at,
        }
    }
}

impl ChannelV {
    /// Well-formedness: the owner is 32 bytes, the name fits in 32 bytes,
    /// and once any broadcast has been accepted the last-broadcast time is
    /// no earlier than creation.
    pub open spec fn wf(self) -> bool {
        &&& self.owner.len() == 32
        &&& self.channel_name.len() <= 32
        &&& self.message_count > 0 ==> self.last_broadcast_at >= self.created_at
    }
}

/// Verdict of the guards of `send_broadcast`, in the order they are checked.
pub open spec fn channel_broadcast_outcome(c: ChannelV, sender: Seq<u8>, message_index: u32) -> Result<
    (),
    OpError,
> {
    if sender != c.owner {
        Err(OpError::Refused(MessagingError::UnauthorizedSender))
    } else if message_index != c.message_count {
        Err(OpError::Refused(MessagingError::InvalidMessageIndex))
    } else if c.message_count == u32::MAX {
        Err(OpError::ArithmeticOverflow)
    } else {
        Ok(())
    }
}

/// The channel after one accepted broadcast at oracle time `now`.
pub open spec fn channel_after_broadcast(c: ChannelV, now: i64) -> ChannelV
    recommends
        c.message_count < u32::MAX,
{
    ChannelV { message_count: (c.message_count + 1) as u32, last_broadcast_at: now, ..c }
}

/// Verdict of the counter guard of `subscribe_channel` on the channel side.
pub open spec fn channel_subscribe_outcome(c: ChannelV) -> Result<(), OpError> {
    if c.subscriber_count == u32::MAX {
        Err(OpError::ArithmeticOverflow)
    } else {
        Ok(())
    }
}

/// The channel after one successful subscription.
pub open spec fn channel_after_subscribe(c: ChannelV) -> ChannelV
    recommends
        c.subscriber_count < u32::MAX,
{
    ChannelV { subscriber_count: (c.subscriber_count + 1) as u32, ..c }
}

impl BroadcastChannel {
    /// A fresh channel: counters zeroed, creation stamped with `now`.
    /// The name must already have passed the 32-byte bound.
    pub fn new(owner: &[u8; 32], channel_name: Vec<u8>, now: i64) -> (c: Self)
        requires
            channel_name@.len() <= 32,
        ensures
            c@ == (ChannelV {
                owner: owner@,
                channel_name: channel_name@,
                message_count: 0,
                subscriber_count: 0,
                created_at: now,
                last_broadcast_at: 0,
            }),
            c@.wf(),
    {
        BroadcastChannel {
            owner: *owner,
            channel_name,
            message_count: 0,
            subscriber_count: 0,
            created_at: now,
            last_broadcast_at: 0,
        }
    }

    /// Accepts or rejects one broadcast, as [`MessageThread::send`] does for
    /// a thread, with the owner as the only authorized sender.
    pub fn broadcast(&mut self, sender: &[u8; 32], message_index: u32, now: i64) -> (r: Result<
        (),
        OpError,
    >)
        requires
            now >= old(self).created_at,
        ensures
            r == channel_broadcast_outcome(old(self)@, sender@, message_index),
            r is Ok ==> final(self)@ == channel_after_broadcast(old(self)@, now),
            r is Err ==> *final(self) == *old(self),
            old(self)@.wf() ==> final(self)@.wf(),
    {
        if !keys_equal(sender, &self.owner) {
            return Err(OpError::Refused(MessagingError::UnauthorizedSender));
        }
        if message_index != self.message_count {
            return Err(OpError::Refused(MessagingError::InvalidMessageIndex));
        }
        if self.message_count == u32::MAX {
            return Err(OpError::ArithmeticOverflow);
        }
        self.message_count = self.message_count + 1;
        self.last_broadcast_at = now;
        Ok(())
    }

    /// Records one more subscriber, unless the counter is at its width.
    pub fn add_subscriber(&mut self) -> (r: Result<(), OpError>)
        ensures
            r == channel_subscribe_outcome(old(self)@),
            r is Ok ==> final(self)@ == channel_after_subscribe(old(self)@),
            r is Err ==> *final(self) == *old(self),
            old(self)@.wf() ==> final(self)@.wf(),
    {
        if self.subscriber_count == u32::MAX {
            return Err(OpError::ArithmeticOverflow);
        }
        self.subscriber_count = self.subscriber_count + 1;
        Ok(())
    }
}

// ---------------------------------------------------------------------------
// Subscriptions
// ---------------------------------------------------------------------------

/// One subscriber's relationship to one channel. Holds a non-owning
/// back-reference to the channel's address: closing the channel does not
/// remove or invalidate outstanding subscriptions.
#[derive(Clone, Copy, Debug)]
pub struct ChannelSubscription {
    /// The subscribing principal.
    pub subscriber: [u8; 32],
    /// Address of the channel subscribed to.
    pub channel: [u8; 32],
    /// Oracle time at subscription.
    pub subscribed_at: i64,
    /// Read position; initialized to zero and updated by no operation here.
    pub last_read_index: u32,
}

/// Mathematical value of a [`ChannelSubscription`].
#[verifier::ext_equal]
pub struct SubscriptionV {
    pub subscriber: Seq<u8>,
    pub channel: Seq<u8>,
    pub subscribed_at: i64,
    pub last_read_index: u32,
}

impl View for ChannelSubscription {
    type V = SubscriptionV;

    open spec fn view(&self) -> SubscriptionV {
        SubscriptionV {
            subscriber: self.subscriber@,
            channel: self.channel@,
            subscribed_at: self.subscribed_at,
            last_read_index: self.last_read_index,
        }
    }
}

impl SubscriptionV {
    /// Well-formedness: both identifiers are 32 bytes.
    pub open spec fn wf(self) -> bool {
        &&& self.subscriber.len() == 32
        &&& self.channel.len() == 32
    }
}

impl ChannelSubscription {
    /// A fresh subscription with its read position at zero.
    pub fn new(subscriber: &[u8; 32], channel: &[u8; 32], now: i64) -> (s: Self)
        ensures
            s@ == (SubscriptionV {
                subscriber: subscriber@,
                channel: channel@,
                subscribed_at: now,
                last_read_index: 0,
            }),
            s@.wf(),
    {
        ChannelSubscription {
            subscriber: *subscriber,
            channel: *channel,
            subscribed_at: now,
            last_read_index: 0,
        }
    }
}

} // verus!
