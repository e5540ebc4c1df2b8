use vstd::prelude::*;

use crate::errors::MessagingError;
use crate::errors::OpError;
use crate::ledger::LedgerV;
use crate::ledger::close_thread_outcome;
use crate::ledger::close_thread_post;
use crate::ledger::initialize_channel_outcome;
use crate::ledger::initialize_channel_post;
use crate::ledger::send_broadcast_outcome;
use crate::ledger::send_broadcast_post;
use crate::ledger::send_message_outcome;
use crate::ledger::send_message_post;
use crate::ledger::subscribe_channel_outcome;
use crate::ledger::subscribe_channel_post;
use crate::records::ChannelV;
use crate::records::ThreadV;
use crate::records::channel_after_broadcast;
use crate::records::channel_broadcast_outcome;
use crate::records::thread_after_send;
use crate::records::thread_send_outcome;

verus! {

// ---------------------------------------------------------------------------
// Sequence integrity
// ---------------------------------------------------------------------------

/// One attempted message on a thread: the claimed sender, the claimed
/// sequence index, and the oracle time of the attempt.
pub struct ThreadEvent {
    pub sender: Seq<u8>,
    pub message_index: u32,
    pub now: i64,
}

/// Whether a thread, starting from `t`, accepts every event of `events` in
/// order.
pub open spec fn thread_accepts_all(t: ThreadV, events: Seq<ThreadEvent>) -> bool
    decreases events.len(),
{
    events.len() == 0 || (thread_send_outcome(t, events[0].sender, events[0].message_index) is Ok
        && thread_accepts_all(thread_after_send(t, events[0].now), events.drop_first()))
}

/// The thread after the events of `events`, each applied in order.
pub open spec fn thread_run(t: ThreadV, events: Seq<ThreadEvent>) -> ThreadV
    decreases events.len(),
{
    if events.len() == 0 {
        t
    } else {
        thread_run(thread_after_send(t, events[0].now), events.drop_first())
    }
}

/// After a thread accepts N messages in a row, its counter has advanced by
/// exactly N, and the i-th accepted message carried exactly the counter
/// value of its moment: no gaps, no replays, no reordering.
pub proof fn lemma_thread_sequence(t: ThreadV, events: Seq<ThreadEvent>)
    requires
        thread_accepts_all(t, events),
    ensures
        thread_run(t, events).message_count == t.message_count + events.len(),
        forall|i: int| 0 <= i < events.len() ==> events[i].message_index == t.message_count + i,
    decreases events.len(),
{
    if events.len() > 0 {
        let t1 = thread_after_send(t, events[0].now);
        lemma_thread_sequence(t1, events.drop_first());
        assert forall|i: int| 0 <= i < events.len() implies events[i].message_index
            == t.message_count + i by {
            if i > 0 {
                assert(events.drop_first()[i - 1] == events[i]);
            }
        }
    }
}

/// The previous law for a freshly created thread: after N accepted messages
/// the counter reads exactly N, and the i-th message carried index i.
pub proof fn lemma_fresh_thread_sequence(t: ThreadV, events: Seq<ThreadEvent>)
    requires
        t.message_count == 0,
        thread_accepts_all(t, events),
    ensures
        thread_run(t, events).message_count == events.len(),
        forall|i: int| 0 <= i < events.len() ==> events[i].message_index == i,
{
    lemma_thread_sequence(t, events);
}

/// One attempted broadcast on a channel.
pub struct ChannelEvent {
    pub sender: Seq<u8>,
    pub message_index: u32,
    pub now: i64,
}

/// Whether a channel, starting from `c`, accepts every broadcast of
/// `events` in order.
pub open spec fn channel_accepts_all(c: ChannelV, events: Seq<ChannelEvent>) -> bool
    decreases events.len(),
{
    events.len() == 0 || (channel_broadcast_outcome(
        c,
        events[0].sender,
        events[0].message_index,
    ) is Ok && channel_accepts_all(channel_after_broadcast(c, events[0].now), events.drop_first()))
}

/// The channel after the broadcasts of `events`, each applied in order.
pub open spec fn channel_run(c: ChannelV, events: Seq<ChannelEvent>) -> ChannelV
    decreases events.len(),
{
    if events.len() == 0 {
        c
    } else {
        channel_run(channel_after_broadcast(c, events[0].now), events.drop_first())
    }
}

/// After a channel accepts N broadcasts in a row, its counter has advanced
/// by exactly N, and the i-th accepted broadcast carried exactly the
/// counter value of its moment.
pub proof fn lemma_channel_sequence(c: ChannelV, events: Seq<ChannelEvent>)
    requires
        channel_accepts_all(c, events),
    ensures
        channel_run(c, events).message_count == c.message_count + events.len(),
        forall|i: int| 0 <= i < events.len() ==> events[i].message_index == c.message_count + i,
    decreases events.len(),
{
    if events.len() > 0 {
        let c1 = channel_after_broadcast(c, events[0].now);
        lemma_channel_sequence(c1, events.drop_first());
        assert forall|i: int| 0 <= i < events.len() implies events[i].message_index
            == c.message_count + i by {
            if i > 0 {
                assert(events.drop_first()[i - 1] == events[i]);
            }
        }
    }
}

// ---------------------------------------------------------------------------
// Atomicity of rejection
// ---------------------------------------------------------------------------

/// A rejected message, whatever its reason, leaves the store exactly as it
/// was: in particular the thread's counter does not move.
pub proof fn lemma_rejected_message_is_ineffective(
    pre: LedgerV,
    sender: Seq<u8>,
    thread_address: Seq<u8>,
    message_index: u32,
    now: i64,
)
    requires
        send_message_outcome(pre, sender, thread_address, message_index) is Err,
    ensures
        send_message_post(pre, sender, thread_address, message_index, now) == pre,
{
}

/// A rejected broadcast, whatever its reason, leaves the store exactly as
/// it was.
pub proof fn lemma_rejected_broadcast_is_ineffective(
    pre: LedgerV,
    sender: Seq<u8>,
    channel_address: Seq<u8>,
    message_index: u32,
    now: i64,
)
    requires
        send_broadcast_outcome(pre, sender, channel_address, message_index) is Err,
    ensures
        send_broadcast_post(pre, sender, channel_address, message_index, now) == pre,
{
}

// ---------------------------------------------------------------------------
// Authorization
// ---------------------------------------------------------------------------

/// A sender who is neither participant of a thread is turned away as
/// unauthorized, whatever message index they claim.
pub proof fn lemma_stranger_cannot_send(t: ThreadV, sender: Seq<u8>, message_index: u32)
    requires
        sender != t.participant_a,
        sender != t.participant_b,
    ensures
        thread_send_outcome(t, sender, message_index) == Err::<(), OpError>(
            OpError::Refused(MessagingError::UnauthorizedSender),
        ),
{
}

/// A sender who is not the owner of a channel is turned away as
/// unauthorized, whatever message index they claim.
pub proof fn lemma_stranger_cannot_broadcast(c: ChannelV, sender: Seq<u8>, message_index: u32)
    requires
        sender != c.owner,
    ensures
        channel_broadcast_outcome(c, sender, message_index) == Err::<(), OpError>(
            OpError::Refused(MessagingError::UnauthorizedSender),
        ),
{
}

/// Only `participant_a` closes a thread: anyone else is turned away with
/// the store untouched, while `participant_a` is owed success, the record
/// is removed, and the refund equals the deposit locked at creation.
pub proof fn lemma_close_thread_authorization(pre: LedgerV, caller: Seq<u8>, thread_address: Seq<u8>)
    requires
        pre.threads.contains_key(thread_address),
    ensures
        caller != pre.threads[thread_address].rec.participant_a ==> close_thread_outcome(
            pre,
            caller,
            thread_address,
        ) == Err::<u64, OpError>(OpError::Refused(MessagingError::UnauthorizedSender))
            && close_thread_post(pre, caller, thread_address) == pre,
        caller == pre.threads[thread_address].rec.participant_a ==> close_thread_outcome(
            pre,
            caller,
            thread_address,
        ) == Ok::<u64, OpError>(pre.threads[thread_address].deposit) && !close_thread_post(
            pre,
            caller,
            thread_address,
        ).threads.contains_key(thread_address),
{
}

// ---------------------------------------------------------------------------
// Creation guards
// ---------------------------------------------------------------------------

/// A channel name over 32 bytes is rejected before any address is derived
/// or any storage allocated.
pub proof fn lemma_long_name_rejected(
    pre: LedgerV,
    owner: Seq<u8>,
    channel_name: Seq<u8>,
    now: i64,
    deposit: u64,
)
    requires
        channel_name.len() > 32,
    ensures
        initialize_channel_outcome(pre, owner, channel_name) == Err::<(Seq<u8>, u8), OpError>(
            OpError::Refused(MessagingError::ChannelNameTooLong),
        ),
        initialize_channel_post(pre, owner, channel_name, now, deposit) == pre,
{
}

/// After one successful subscription of a pair, a second attempt for the
/// same pair derives the same address, collides, and is rejected with the
/// store untouched; the channel counts that pair exactly once.
pub proof fn lemma_second_subscription_rejected(
    pre: LedgerV,
    subscriber: Seq<u8>,
    channel_address: Seq<u8>,
    now: i64,
    deposit: u64,
    second_now: i64,
    second_deposit: u64,
)
    requires
        subscribe_channel_outcome(pre, subscriber, channel_address) is Ok,
    ensures
        ({
            let post = subscribe_channel_post(pre, subscriber, channel_address, now, deposit);
            &&& subscribe_channel_outcome(post, subscriber, channel_address) == Err::<
                (Seq<u8>, u8),
                OpError,
            >(OpError::AddressAlreadyExists)
            &&& subscribe_channel_post(
                post,
                subscriber,
                channel_address,
                second_now,
                second_deposit,
            ) == post
            &&& post.channels[channel_address].rec.subscriber_count
                == pre.channels[channel_address].rec.subscriber_count + 1
        }),
{
}

} // verus!
