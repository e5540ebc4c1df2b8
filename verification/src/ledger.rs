use vstd::prelude::*;

use crate::addresses::channel_seed_vecs;
use crate::addresses::channel_seeds;
use crate::addresses::derive_address;
use crate::addresses::ledger_program_id;
use crate::addresses::pda_of;
use crate::addresses::program_id_bytes;
use crate::addresses::subscription_seed_vecs;
use crate::addresses::subscription_seeds;
use crate::addresses::thread_seed_vecs;
use crate::addresses::thread_seeds;
use crate::errors::MessagingError;
use crate::errors::OpError;
use crate::keys::keys_equal;
use crate::records::MessageThread;
use crate::records::BroadcastChannel;
use crate::records::ChannelSubscription;
use crate::records::ThreadV;
use crate::records::ChannelV;
use crate::records::SubscriptionV;
use crate::records::thread_send_outcome;
use crate::records::thread_after_send;
use crate::records::channel_broadcast_outcome;
use crate::records::channel_after_broadcast;
use crate::records::channel_after_subscribe;

verus! {

// ---------------------------------------------------------------------------
// Storage slots
// ---------------------------------------------------------------------------

/// One record of the store, together with the address it lives at, the
/// discriminant byte of that address, and the deposit locked at creation.
#[derive(Clone, Copy, Debug)]
pub struct Slot<R> {
    pub address: [u8; 32],
    pub bump: u8,
    pub deposit: u64,
    pub rec: R,
}

/// Mathematical value of a [`Slot`], keyed by its address in the store view,
/// so the address itself is not repeated here.
#[verifier::ext_equal]
pub struct SlotV<RV> {
    pub bump: u8,
    pub deposit: u64,
    pub rec: RV,
}

impl<R: View> View for Slot<R> {
    type V = SlotV<R::V>;

    open spec fn view(&self) -> SlotV<R::V> {
        SlotV { bump: self.bump, deposit: self.deposit, rec: self.rec@ }
    }
}

/// Whether some slot of `s` sits at address `k`.
pub open spec fn slots_have<R>(s: Seq<Slot<R>>, k: Seq<u8>) -> bool {
    exists|i: int| 0 <= i < s.len() && s[i].address@ == k
}

/// The index of the slot of `s` at address `k`; meaningful under
/// [`slots_unique`] when [`slots_have`] holds.
pub open spec fn slot_index_of<R>(s: Seq<Slot<R>>, k: Seq<u8>) -> int {
    choose|i: int| 0 <= i < s.len() && s[i].address@ == k
}

/// No two slots of `s` share an address.
pub open spec fn slots_unique<R>(s: Seq<Slot<R>>) -> bool {
    forall|i: int, j: int| 0 <= i < j < s.len() ==> s[i].address@ != s[j].address@
}

/// The slots of `s` as a map from address to slot value.
pub open spec fn slots_map<R: View>(s: Seq<Slot<R>>) -> Map<Seq<u8>, SlotV<R::V>> {
    Map::new(|k: Seq<u8>| slots_have(s, k), |k: Seq<u8>| s[slot_index_of(s, k)]@)
}

/// Under uniqueness, the slot at index `i` is the one found at its address.
pub proof fn lemma_slot_at<R: View>(s: Seq<Slot<R>>, i: int)
    requires
        slots_unique(s),
        0 <= i < s.len(),
    ensures
        slots_have(s, s[i].address@),
        slot_index_of(s, s[i].address@) == i,
        slots_map(s).contains_key(s[i].address@),
        slots_map(s)[s[i].address@] == s[i]@,
{
    assert(slots_have(s, s[i].address@));
    let j = slot_index_of(s, s[i].address@);
    if j < i {
        assert(s[j].address@ != s[i].address@);
    } else if i < j {
        assert(s[i].address@ != s[j].address@);
    }
}

/// Appending a slot at a fresh address adds exactly one entry to the map.
pub proof fn lemma_slots_push<R: View>(s: Seq<Slot<R>>, slot: Slot<R>)
    requires
        slots_unique(s),
        !slots_have(s, slot.address@),
    ensures
        slots_unique(s.push(slot)),
        forall|k: Seq<u8>|
            #[trigger] slots_have(s.push(slot), k) == (slots_have(s, k) || k == slot.address@),
        slots_map(s.push(slot)) =~= slots_map(s).insert(slot.address@, slot@),
{
    let s2 = s.push(slot);
    assert forall|i: int, j: int| 0 <= i < j < s2.len() implies s2[i].address@ != s2[j].address@ by {
        if j == s.len() {
            if s2[i].address@ == slot.address@ {
                assert(s[i].address@ == slot.address@);
                assert(slots_have(s, slot.address@));
            }
        }
    }
    assert forall|k: Seq<u8>|
        #[trigger] slots_have(s2, k) == (slots_have(s, k) || k == slot.address@) by {
        if slots_have(s, k) {
            let i = slot_index_of(s, k);
            assert(s2[i].address@ == k);
            assert(slots_have(s2, k));
        }
        if k == slot.address@ {
            assert(s2[s.len() as int].address@ == k);
            assert(slots_have(s2, k));
        }
        if slots_have(s2, k) {
            let i = choose|i: int| 0 <= i < s2.len() && s2[i].address@ == k;
            if i < s.len() {
                assert(s[i].address@ == k);
                assert(slots_have(s, k));
            } else {
                assert(k == slot.address@);
            }
        }
    }
    assert forall|k: Seq<u8>| slots_have(s2, k) implies slots_map(s2)[k] == slots_map(s).insert(
        slot.address@,
        slot@,
    )[k] by {
        if k == slot.address@ {
            lemma_slot_at(s2, s.len() as int);
        } else {
            let i = slot_index_of(s, k);
            assert(s[i].address@ == k);
            assert(s2[i].address@ == k);
            lemma_slot_at(s2, i);
            lemma_slot_at(s, i);
        }
    }
    assert(slots_map(s2) =~= slots_map(s).insert(slot.address@, slot@));
}

/// Replacing the slot at index `i`, keeping its address, updates exactly one
/// entry of the map and moves no other.
pub proof fn lemma_slots_update<R: View>(s: Seq<Slot<R>>, i: int, slot: Slot<R>)
    requires
        slots_unique(s),
        0 <= i < s.len(),
        slot.address@ == s[i].address@,
    ensures
        slots_unique(s.update(i, slot)),
        forall|k: Seq<u8>| #[trigger] slots_have(s.update(i, slot), k) == slots_have(s, k),
        slots_map(s.update(i, slot)) =~= slots_map(s).insert(slot.address@, slot@),
{
    let s2 = s.update(i, slot);
    assert forall|a: int, b: int| 0 <= a < b < s2.len() implies s2[a].address@ != s2[b].address@ by {
        assert(s[a].address@ != s[b].address@);
    }
    assert forall|k: Seq<u8>| #[trigger] slots_have(s2, k) == slots_have(s, k) by {
        if slots_have(s, k) {
            let j = slot_index_of(s, k);
            assert(s2[j].address@ == k);
            assert(slots_have(s2, k));
        }
        if slots_have(s2, k) {
            let j = choose|j: int| 0 <= j < s2.len() && s2[j].address@ == k;
            assert(s[j].address@ == k);
            assert(slots_have(s, k));
        }
    }
    assert forall|k: Seq<u8>| slots_have(s2, k) implies slots_map(s2)[k] == slots_map(s).insert(
        slot.address@,
        slot@,
    )[k] by {
        if k == slot.address@ {
            lemma_slot_at(s2, i);
        } else {
            let j = slot_index_of(s, k);
            assert(s[j].address@ == k);
            assert(j != i);
            assert(s2[j].address@ == k);
            lemma_slot_at(s2, j);
            lemma_slot_at(s, j);
        }
    }
    assert(slots_map(s2) =~= slots_map(s).insert(slot.address@, slot@));
}

/// Removing the slot at index `i` removes exactly its entry from the map.
pub proof fn lemma_slots_remove<R: View>(s: Seq<Slot<R>>, i: int)
    requires
        slots_unique(s),
        0 <= i < s.len(),
    ensures
        slots_unique(s.remove(i)),
        forall|k: Seq<u8>|
            #[trigger] slots_have(s.remove(i), k) == (slots_have(s, k) && k != s[i].address@),
        slots_map(s.remove(i)) =~= slots_map(s).remove(s[i].address@),
{
    let s2 = s.remove(i);
    assert forall|a: int, b: int| 0 <= a < b < s2.len() implies s2[a].address@ != s2[b].address@ by {
        let a0 = if a < i { a } else { a + 1 };
        let b0 = if b < i { b } else { b + 1 };
        assert(s2[a] == s[a0]);
        assert(s2[b] == s[b0]);
        assert(s[a0].address@ != s[b0].address@);
    }
    assert forall|k: Seq<u8>|
        #[trigger] slots_have(s2, k) == (slots_have(s, k) && k != s[i].address@) by {
        if slots_have(s2, k) {
            let j = choose|j: int| 0 <= j < s2.len() && s2[j].address@ == k;
            let j0 = if j < i { j } else { j + 1 };
            assert(s2[j] == s[j0]);
            assert(s[j0].address@ == k);
            assert(slots_have(s, k));
            lemma_slot_at(s, j0);
            lemma_slot_at(s, i);
            assert(k != s[i].address@);
        }
        if slots_have(s, k) && k != s[i].address@ {
            let j0 = slot_index_of(s, k);
            assert(s[j0].address@ == k);
            assert(j0 != i);
            let j = if j0 < i { j0 } else { j0 - 1 };
            assert(s2[j] == s[j0]);
            assert(slots_have(s2, k));
        }
    }
    assert forall|k: Seq<u8>| slots_have(s2, k) implies slots_map(s2)[k] == slots_map(s).remove(
        s[i].address@,
    )[k] by {
        let j = slot_index_of(s2, k);
        assert(0 <= j < s2.len() && s2[j].address@ == k) by {
            assert(slots_have(s2, k));
        }
        let j0 = if j < i { j } else { j + 1 };
        assert(s2[j] == s[j0]);
        lemma_slot_at(s, j0);
        assert(slots_map(s2)[k] == s2[j]@);
        assert(slots_map(s).remove(s[i].address@)[k] == s[j0]@);
    }
    assert(slots_map(s2) =~= slots_map(s).remove(s[i].address@));
}

// ---------------------------------------------------------------------------
// Executable helpers
// ---------------------------------------------------------------------------

/// Finds the slot at address `key`, if any.
pub(crate) fn find_slot<R>(v: &Vec<Slot<R>>, key: &[u8; 32]) -> (r: Option<usize>)
    ensures
        (match r {
            Some(i) => i < v@.len() && v@[i as int].address@ == key@,
            None => !slots_have(v@, key@),
        }),
{
    let mut i: usize = 0;
    while i < v.len()
        invariant
            0 <= i <= v@.len(),
            forall|j: int| 0 <= j < i ==> v@[j].address@ != key@,
        decreases v@.len() - i,
    {
        if keys_equal(&v[i].address, key) {
            return Some(i);
        }
        i = i + 1;
    }
    None
}

/// Hands out a mutable borrow of the slot at index `i`.
pub(crate) fn slot_mut<R>(v: &mut Vec<Slot<R>>, i: usize) -> (slot: &mut Slot<R>)
    requires
        i < old(v)@.len(),
    ensures
        *slot == old(v)@[i as int],
        final(v)@ == old(v)@.update(i as int, *final(slot)),
{
    &mut v[i]
}

// ---------------------------------------------------------------------------
// The record store
// ---------------------------------------------------------------------------

/// An in-process model of the ledger's key-addressed record store: every
/// record sits at its derived address, addresses are unique across all
/// record kinds, and each operation either applies in full or leaves the
/// store exactly as it was.
pub struct Ledger {
    threads: Vec<Slot<MessageThread>>,
    channels: Vec<Slot<BroadcastChannel>>,
    subscriptions: Vec<Slot<ChannelSubscription>>,
}

/// Mathematical value of a [`Ledger`]: one map per record kind, each keyed
/// by derived address.
#[verifier::ext_equal]
pub struct LedgerV {
    pub threads: Map<Seq<u8>, SlotV<ThreadV>>,
    pub channels: Map<Seq<u8>, SlotV<ChannelV>>,
    pub subscriptions: Map<Seq<u8>, SlotV<SubscriptionV>>,
}

impl LedgerV {
    /// Whether any record of any kind sits at address `k`.
    pub open spec fn in_use(self, k: Seq<u8>) -> bool {
        self.threads.contains_key(k) || self.channels.contains_key(k)
            || self.subscriptions.contains_key(k)
    }
}

impl View for Ledger {
    type V = LedgerV;

    closed spec fn view(&self) -> LedgerV {
        LedgerV {
            threads: slots_map(self.threads@),
            channels: slots_map(self.channels@),
            subscriptions: slots_map(self.subscriptions@),
        }
    }
}

/// All thread records of `s` are well-formed.
pub open spec fn thread_slots_wf(s: Seq<Slot<MessageThread>>) -> bool {
    forall|i: int| 0 <= i < s.len() ==> (#[trigger] s[i])@.rec.wf()
}

/// All channel records of `s` are well-formed.
pub open spec fn channel_slots_wf(s: Seq<Slot<BroadcastChannel>>) -> bool {
    forall|i: int| 0 <= i < s.len() ==> (#[trigger] s[i])@.rec.wf()
}

/// All subscription records of `s` are well-formed.
pub open spec fn subscription_slots_wf(s: Seq<Slot<ChannelSubscription>>) -> bool {
    forall|i: int| 0 <= i < s.len() ==> (#[trigger] s[i])@.rec.wf()
}

impl Ledger {
    /// Well-formedness of the store: addresses are unique within each kind
    /// and shared by no two kinds, and every record is well-formed.
    pub closed spec fn wf(self) -> bool {
        &&& slots_unique(self.threads@)
        &&& slots_unique(self.channels@)
        &&& slots_unique(self.subscriptions@)
        &&& forall|k: Seq<u8>|
            #[trigger] slots_have(self.threads@, k) ==> !slots_have(self.channels@, k)
        &&& forall|k: Seq<u8>|
            #[trigger] slots_have(self.threads@, k) ==> !slots_have(self.subscriptions@, k)
        &&& forall|k: Seq<u8>|
            #[trigger] slots_have(self.channels@, k) ==> !slots_have(self.subscriptions@, k)
        &&& thread_slots_wf(self.threads@)
        &&& channel_slots_wf(self.channels@)
        &&& subscription_slots_wf(self.subscriptions@)
    }

    /// An empty store.
    pub fn new() -> (l: Ledger)
        ensures
            l.wf(),
            l@.threads =~= Map::<Seq<u8>, SlotV<ThreadV>>::empty(),
            l@.channels =~= Map::<Seq<u8>, SlotV<ChannelV>>::empty(),
            l@.subscriptions =~= Map::<Seq<u8>, SlotV<SubscriptionV>>::empty(),
    {
        let l = Ledger { threads: Vec::new(), channels: Vec::new(), subscriptions: Vec::new() };
        proof {
            assert(l@.threads =~= Map::<Seq<u8>, SlotV<ThreadV>>::empty());
            assert(l@.channels =~= Map::<Seq<u8>, SlotV<ChannelV>>::empty());
            assert(l@.subscriptions =~= Map::<Seq<u8>, SlotV<SubscriptionV>>::empty());
        }
        l
    }

    /// Every record of a well-formed store is itself well-formed: 32-byte
    /// identifiers, channel names within their bound, and last-activity
    /// times no earlier than creation once any message was accepted.
    pub proof fn lemma_records_well_formed(self)
        requires
            self.wf(),
        ensures
            forall|k: Seq<u8>| #[trigger]
                self@.threads.contains_key(k) ==> self@.threads[k].rec.wf(),
            forall|k: Seq<u8>| #[trigger]
                self@.channels.contains_key(k) ==> self@.channels[k].rec.wf(),
            forall|k: Seq<u8>| #[trigger]
                self@.subscriptions.contains_key(k) ==> self@.subscriptions[k].rec.wf(),
    {
        assert forall|k: Seq<u8>| #[trigger]
            self@.threads.contains_key(k) implies self@.threads[k].rec.wf() by {
            let i = slot_index_of(self.threads@, k);
            assert(self.threads@[i]@.rec.wf());
        }
        assert forall|k: Seq<u8>| #[trigger]
            self@.channels.contains_key(k) implies self@.channels[k].rec.wf() by {
            let i = slot_index_of(self.channels@, k);
            assert(self.channels@[i]@.rec.wf());
        }
        assert forall|k: Seq<u8>| #[trigger]
            self@.subscriptions.contains_key(k) implies self@.subscriptions[k].rec.wf() by {
            let i = slot_index_of(self.subscriptions@, k);
            assert(self.subscriptions@[i]@.rec.wf());
        }
    }

    /// Whether any record of any kind sits at `address`.
    fn address_in_use(&self, address: &[u8; 32]) -> (r: bool)
        ensures
            r == self@.in_use(address@),
    {
        find_slot(&self.threads, address).is_some() || find_slot(&self.channels, address).is_some()
            || find_slot(&self.subscriptions, address).is_some()
    }
}

/// Relates an executable address result to a specified derivation result.
pub open spec fn addr_result_matches(
    r: Result<[u8; 32], OpError>,
    o: Result<(Seq<u8>, u8), OpError>,
) -> bool {
    match (r, o) {
        (Ok(a), Ok(p)) => a@ == p.0,
        (Err(e), Err(f)) => e == f,
        _ => false,
    }
}

/// Verdict of `initialize_thread`: the derived address if it can be derived
/// and is free, in the order the store checks.
pub open spec fn initialize_thread_outcome(
    pre: LedgerV,
    participant_a: Seq<u8>,
    participant_b: Seq<u8>,
    thread_id: Seq<u8>,
) -> Result<(Seq<u8>, u8), OpError> {
    match pda_of(thread_seeds(participant_a, participant_b, thread_id), ledger_program_id()) {
        None => Err(OpError::DerivationFailed),
        Some(p) => if pre.in_use(p.0) {
            Err(OpError::AddressAlreadyExists)
        } else {
            Ok(p)
        },
    }
}

/// The store after `initialize_thread`: unchanged on rejection, one fresh
/// thread record at the derived address on success.
pub open spec fn initialize_thread_post(
    pre: LedgerV,
    participant_a: Seq<u8>,
    participant_b: Seq<u8>,
    thread_id: Seq<u8>,
    now: i64,
    deposit: u64,
) -> LedgerV {
    match initialize_thread_outcome(pre, participant_a, participant_b, thread_id) {
        Err(_) => pre,
        Ok(p) => LedgerV {
            threads: pre.threads.insert(
                p.0,
                SlotV {
                    bump: p.1,
                    deposit,
                    rec: ThreadV {
                        participant_a,
                        participant_b,
                        thread_id,
                        message_count: 0,
                        created_at: now,
                        last_message_at: 0,
                    },
                },
            ),
            ..pre
        },
    }
}

impl Ledger {
    /// Creates a thread record for the two participants under the
    /// caller-chosen thread id, paid for by `participant_a`, at the address
    /// derived from those inputs; fails if that address already holds a
    /// record.
    pub fn initialize_thread(
        &mut self,
        participant_a: &[u8; 32],
        participant_b: &[u8; 32],
        thread_id: &[u8; 32],
        now: i64,
        deposit: u64,
    ) -> (r: Result<[u8; 32], OpError>)
        requires
            old(self).wf(),
        ensures
            final(self).wf(),
            addr_result_matches(
                r,
                initialize_thread_outcome(old(self)@, participant_a@, participant_b@, thread_id@),
            ),
            final(self)@ == initialize_thread_post(
                old(self)@,
                participant_a@,
                participant_b@,
                thread_id@,
                now,
                deposit,
            ),
    {
        let seeds = thread_seed_vecs(participant_a, participant_b, thread_id);
        let pid = program_id_bytes();
        match derive_address(&seeds, &pid) {
            None => Err(OpError::DerivationFailed),
            Some((address, bump)) => {
                if self.address_in_use(&address) {
                    Err(OpError::AddressAlreadyExists)
                } else {
                    let rec = MessageThread::new(participant_a, participant_b, thread_id, now);
                    let slot = Slot { address, bump, deposit, rec };
                    let ghost pre = self.threads@;
                    self.threads.push(slot);
                    proof {
                        lemma_slots_push(pre, slot);
                        assert(self@ =~= initialize_thread_post(
                            old(self)@,
                            participant_a@,
                            participant_b@,
                            thread_id@,
                            now,
                            deposit,
                        ));
                    }
                    Ok(address)
                }
            },
        }
    }
}

/// Verdict of `send_message`: the record must exist, then the thread's own
/// guards decide.
pub open spec fn send_message_outcome(
    pre: LedgerV,
    sender: Seq<u8>,
    thread_address: Seq<u8>,
    message_index: u32,
) -> Result<(), OpError> {
    if !pre.threads.contains_key(thread_address) {
        Err(OpError::AddressNotFound)
    } else {
        thread_send_outcome(pre.threads[thread_address].rec, sender, message_index)
    }
}

/// The store after `send_message`: unchanged on rejection, the one thread
/// record advanced by one accepted message on success.
pub open spec fn send_message_post(
    pre: LedgerV,
    sender: Seq<u8>,
    thread_address: Seq<u8>,
    message_index: u32,
    now: i64,
) -> LedgerV {
    if send_message_outcome(pre, sender, thread_address, message_index) is Ok {
        LedgerV {
            threads: pre.threads.insert(
                thread_address,
                SlotV {
                    rec: thread_after_send(pre.threads[thread_address].rec, now),
                    ..pre.threads[thread_address]
                },
            ),
            ..pre
        }
    } else {
        pre
    }
}

/// Verdict of `close_thread`: only `participant_a` of an existing record may
/// close it; the verdict carries the deposit to refund.
pub open spec fn close_thread_outcome(
    pre: LedgerV,
    caller: Seq<u8>,
    thread_address: Seq<u8>,
) -> Result<u64, OpError> {
    if !pre.threads.contains_key(thread_address) {
        Err(OpError::AddressNotFound)
    } else if caller != pre.threads[thread_address].rec.participant_a {
        Err(OpError::Refused(MessagingError::UnauthorizedSender))
    } else {
        Ok(pre.threads[thread_address].deposit)
    }
}

/// The store after `close_thread`: unchanged on rejection, the one thread
/// record gone on success.
pub open spec fn close_thread_post(pre: LedgerV, caller: Seq<u8>, thread_address: Seq<u8>) -> LedgerV {
    if close_thread_outcome(pre, caller, thread_address) is Ok {
        LedgerV { threads: pre.threads.remove(thread_address), ..pre }
    } else {
        pre
    }
}

/// A storage deposit released by closing a record, to be paid out to the
/// designated recipient by the ledger's transfer machinery.
#[derive(Clone, Copy, Debug)]
pub struct Refund {
    /// The account the closer designated; it may be any principal.
    pub recipient: [u8; 32],
    /// The deposit locked when the record was created.
    pub amount: u64,
}

impl Ledger {
    /// Accepts or rejects one message on the thread at `thread_address`.
    /// The message content travels outside the store and is not persisted.
    /// The time oracle is monotonic, so `now` is no earlier than the stored
    /// creation time.
    pub fn send_message(
        &mut self,
        sender: &[u8; 32],
        thread_address: &[u8; 32],
        message_index: u32,
        _content_reference: &[u8],
        now: i64,
    ) -> (r: Result<(), OpError>)
        requires
            old(self).wf(),
            old(self)@.threads.contains_key(thread_address@) ==> now >= old(
                self,
            )@.threads[thread_address@].rec.created_at,
        ensures
            final(self).wf(),
            r == send_message_outcome(old(self)@, sender@, thread_address@, message_index),
            final(self)@ == send_message_post(
                old(self)@,
                sender@,
                thread_address@,
                message_index,
                now,
            ),
    {
        let idx = match find_slot(&self.threads, thread_address) {
            None => {
                return Err(OpError::AddressNotFound);
            },
            Some(i) => i,
        };
        let ghost pre = self.threads@;
        proof {
            lemma_slot_at(pre, idx as int);
        }
        let slot = slot_mut(&mut self.threads, idx);
        let r = slot.rec.send(sender, message_index, now);
        proof {
            let s2 = self.threads@;
            assert(s2 == pre.update(idx as int, s2[idx as int]));
            lemma_slots_update(pre, idx as int, s2[idx as int]);
            assert forall|i: int| 0 <= i < s2.len() implies (#[trigger] s2[i])@.rec.wf() by {
                assert(pre[i]@.rec.wf());
            }
            if r is Err {
                assert(s2 =~= pre);
            }
            assert(self@ =~= send_message_post(
                old(self)@,
                sender@,
                thread_address@,
                message_index,
                now,
            ));
        }
        r
    }

    /// Closes the thread at `thread_address` and releases its deposit to
    /// `recipient`; only `participant_a` may close, and the record and its
    /// message history are removed outright.
    pub fn close_thread(
        &mut self,
        caller: &[u8; 32],
        thread_address: &[u8; 32],
        recipient: &[u8; 32],
    ) -> (r: Result<Refund, OpError>)
        requires
            old(self).wf(),
        ensures
            final(self).wf(),
            (match (r, close_thread_outcome(old(self)@, caller@, thread_address@)) {
                (Ok(refund), Ok(amount)) => refund.amount == amount && refund.recipient@
                    == recipient@,
                (Err(e), Err(f)) => e == f,
                _ => false,
            }),
            final(self)@ == close_thread_post(old(self)@, caller@, thread_address@),
    {
        let idx = match find_slot(&self.threads, thread_address) {
            None => {
                return Err(OpError::AddressNotFound);
            },
            Some(i) => i,
        };
        let ghost pre = self.threads@;
        proof {
            lemma_slot_at(pre, idx as int);
        }
        if !keys_equal(caller, &self.threads[idx].rec.participant_a) {
            return Err(OpError::Refused(MessagingError::UnauthorizedSender));
        }
        let slot = self.threads.remove(idx);
        proof {
            lemma_slots_remove(pre, idx as int);
            let s2 = self.threads@;
            assert forall|i: int| 0 <= i < s2.len() implies (#[trigger] s2[i])@.rec.wf() by {
                let j = if i < idx as int {
                    i
                } else {
                    i + 1
                };
                assert(s2[i] == pre[j]);
                assert(pre[j]@.rec.wf());
            }
            assert(self@ =~= close_thread_post(old(self)@, caller@, thread_address@));
        }
        Ok(Refund { recipient: *recipient, amount: slot.deposit })
    }

    /// Reads the thread record at `address`, if one exists.
    pub fn get_thread(&self, address: &[u8; 32]) -> (r: Option<MessageThread>)
        requires
            self.wf(),
        ensures
            (match r {
                Some(t) => self@.threads.contains_key(address@) && t@
                    == self@.threads[address@].rec,
                None => !self@.threads.contains_key(address@),
            }),
    {
        match find_slot(&self.threads, address) {
            None => None,
            Some(i) => {
                proof {
                    lemma_slot_at(self.threads@, i as int);
                }
                Some(self.threads[i].rec)
            },
        }
    }

    /// Reads the subscription record at `address`, if one exists.
    pub fn get_subscription(&self, address: &[u8; 32]) -> (r: Option<ChannelSubscription>)
        requires
            self.wf(),
        ensures
            (match r {
                Some(s) => self@.subscriptions.contains_key(address@) && s@
                    == self@.subscriptions[address@].rec,
                None => !self@.subscriptions.contains_key(address@),
            }),
    {
        match find_slot(&self.subscriptions, address) {
            None => None,
            Some(i) => {
                proof {
                    lemma_slot_at(self.subscriptions@, i as int);
                }
                Some(self.subscriptions[i].rec)
            },
        }
    }

    /// Reads a copy of the channel record at `address`, if one exists.
    pub fn get_channel(&self, address: &[u8; 32]) -> (r: Option<BroadcastChannel>)
        requires
            self.wf(),
        ensures
            (match r {
                Some(c) => self@.channels.contains_key(address@) && c@
                    == self@.channels[address@].rec,
                None => !self@.channels.contains_key(address@),
            }),
    {
        match find_slot(&self.channels, address) {
            None => None,
            Some(i) => {
                proof {
                    lemma_slot_at(self.channels@, i as int);
                }
                let c = &self.channels[i].rec;
                Some(
                    BroadcastChannel {
                        owner: c.owner,
                        channel_name: crate::addresses::clone_bytes(&c.channel_name),
                        message_count: c.message_count,
                        subscriber_count: c.subscriber_count,
                        created_at: c.created_at,
                        last_broadcast_at: c.last_broadcast_at,
                    },
                )
            },
        }
    }

    /// Reads the message counter of the channel at `address`, if one exists.
    pub fn channel_message_count(&self, address: &[u8; 32]) -> (r: Option<u32>)
        requires
            self.wf(),
        ensures
            (match r {
                Some(n) => self@.channels.contains_key(address@) && n
                    == self@.channels[address@].rec.message_count,
                None => !self@.channels.contains_key(address@),
            }),
    {
        match find_slot(&self.channels, address) {
            None => None,
            Some(i) => {
                proof {
                    lemma_slot_at(self.channels@, i as int);
                }
                Some(self.channels[i].rec.message_count)
            },
        }
    }

    /// Reads the subscriber counter of the channel at `address`, if one
    /// exists.
    pub fn channel_subscriber_count(&self, address: &[u8; 32]) -> (r: Option<u32>)
        requires
            self.wf(),
        ensures
            (match r {
                Some(n) => self@.channels.contains_key(address@) && n
                    == self@.channels[address@].rec.subscriber_count,
                None => !self@.channels.contains_key(address@),
            }),
    {
        match find_slot(&self.channels, address) {
            None => None,
            Some(i) => {
                proof {
                    lemma_slot_at(self.channels@, i as int);
                }
                Some(self.channels[i].rec.subscriber_count)
            },
        }
    }
}

/// Verdict of `initialize_channel`: the name bound is checked before any
/// derivation or storage, then the derived address must be free.
pub open spec fn initialize_channel_outcome(
    pre: LedgerV,
    owner: Seq<u8>,
    channel_name: Seq<u8>,
) -> Result<(Seq<u8>, u8), OpError> {
    if channel_name.len() > 32 {
        Err(OpError::Refused(MessagingError::ChannelNameTooLong))
    } else {
        match pda_of(channel_seeds(owner, channel_name), ledger_program_id()) {
            None => Err(OpError::DerivationFailed),
            Some(p) => if pre.in_use(p.0) {
                Err(OpError::AddressAlreadyExists)
            } else {
                Ok(p)
            },
        }
    }
}

/// The store after `initialize_channel`: unchanged on rejection, one fresh
/// channel record at the derived address on success.
pub open spec fn initialize_channel_post(
    pre: LedgerV,
    owner: Seq<u8>,
    channel_name: Seq<u8>,
    now: i64,
    deposit: u64,
) -> LedgerV {
    match initialize_channel_outcome(pre, owner, channel_name) {
        Err(_) => pre,
        Ok(p) => LedgerV {
            channels: pre.channels.insert(
                p.0,
                SlotV {
                    bump: p.1,
                    deposit,
                    rec: ChannelV {
                        owner,
                        channel_name,
                        message_count: 0,
                        subscriber_count: 0,
                        created_at: now,
                        last_broadcast_at: 0,
                    },
                },
            ),
            ..pre
        },
    }
}

/// Verdict of `send_broadcast`: the record must exist, then the channel's
/// own guards decide.
pub open spec fn send_broadcast_outcome(
    pre: LedgerV,
    sender: Seq<u8>,
    channel_address: Seq<u8>,
    message_index: u32,
) -> Result<(), OpError> {
    if !pre.channels.contains_key(channel_address) {
        Err(OpError::AddressNotFound)
    } else {
        channel_broadcast_outcome(pre.channels[channel_address].rec, sender, message_index)
    }
}

/// The store after `send_broadcast`: unchanged on rejection, the one channel
/// record advanced by one accepted broadcast on success.
pub open spec fn send_broadcast_post(
    pre: LedgerV,
    sender: Seq<u8>,
    channel_address: Seq<u8>,
    message_index: u32,
    now: i64,
) -> LedgerV {
    if send_broadcast_outcome(pre, sender, channel_address, message_index) is Ok {
        LedgerV {
            channels: pre.channels.insert(
                channel_address,
                SlotV {
                    rec: channel_after_broadcast(pre.channels[channel_address].rec, now),
                    ..pre.channels[channel_address]
                },
            ),
            ..pre
        }
    } else {
        pre
    }
}

/// Verdict of `subscribe_channel`: the channel must exist, the subscription
/// address must be derivable and free, and the subscriber counter must have
/// room.
pub open spec fn subscribe_channel_outcome(
    pre: LedgerV,
    subscriber: Seq<u8>,
    channel_address: Seq<u8>,
) -> Result<(Seq<u8>, u8), OpError> {
    if !pre.channels.contains_key(channel_address) {
        Err(OpError::AddressNotFound)
    } else {
        match pda_of(subscription_seeds(channel_address, subscriber), ledger_program_id()) {
            None => Err(OpError::DerivationFailed),
            Some(p) => if pre.in_use(p.0) {
                Err(OpError::AddressAlreadyExists)
            } else if pre.channels[channel_address].rec.subscriber_count == u32::MAX {
                Err(OpError::ArithmeticOverflow)
            } else {
                Ok(p)
            },
        }
    }
}

/// The store after `subscribe_channel`: unchanged on rejection; on success
/// one fresh subscription record at the derived address, and the channel's
/// subscriber counter advanced by one, both in one atomic step.
pub open spec fn subscribe_channel_post(
    pre: LedgerV,
    subscriber: Seq<u8>,
    channel_address: Seq<u8>,
    now: i64,
    deposit: u64,
) -> LedgerV {
    match subscribe_channel_outcome(pre, subscriber, channel_address) {
        Err(_) => pre,
        Ok(p) => LedgerV {
            channels: pre.channels.insert(
                channel_address,
                SlotV {
                    rec: channel_after_subscribe(pre.channels[channel_address].rec),
                    ..pre.channels[channel_address]
                },
            ),
            subscriptions: pre.subscriptions.insert(
                p.0,
                SlotV {
                    bump: p.1,
                    deposit,
                    rec: SubscriptionV {
                        subscriber,
                        channel: channel_address,
                        subscribed_at: now,
                        last_read_index: 0,
                    },
                },
            ),
            ..pre
        },
    }
}

/// Verdict of `close_channel`: only the owner of an existing record may
/// close it; the verdict carries the deposit to refund.
pub open spec fn close_channel_outcome(
    pre: LedgerV,
    caller: Seq<u8>,
    channel_address: Seq<u8>,
) -> Result<u64, OpError> {
    if !pre.channels.contains_key(channel_address) {
        Err(OpError::AddressNotFound)
    } else if caller != pre.channels[channel_address].rec.owner {
        Err(OpError::Refused(MessagingError::UnauthorizedSender))
    } else {
        Ok(pre.channels[channel_address].deposit)
    }
}

/// The store after `close_channel`: unchanged on rejection, the one channel
/// record gone on success. Outstanding subscriptions stay behind, with their
/// back-reference now pointing at no record.
pub open spec fn close_channel_post(
    pre: LedgerV,
    caller: Seq<u8>,
    channel_address: Seq<u8>,
) -> LedgerV {
    if close_channel_outcome(pre, caller, channel_address) is Ok {
        LedgerV { channels: pre.channels.remove(channel_address), ..pre }
    } else {
        pre
    }
}

impl Ledger {
    /// Creates a channel record for `owner` under `channel_name`, at the
    /// address derived from those inputs. A name over 32 bytes is rejected
    /// before any address is derived or storage touched.
    pub fn initialize_channel(
        &mut self,
        owner: &[u8; 32],
        channel_name: Vec<u8>,
        now: i64,
        deposit: u64,
    ) -> (r: Result<[u8; 32], OpError>)
        requires
            old(self).wf(),
        ensures
            final(self).wf(),
            addr_result_matches(
                r,
                initialize_channel_outcome(old(self)@, owner@, channel_name@),
            ),
            final(self)@ == initialize_channel_post(
                old(self)@,
                owner@,
                channel_name@,
                now,
                deposit,
            ),
    {
        if channel_name.len() > 32 {
            return Err(OpError::Refused(MessagingError::ChannelNameTooLong));
        }
        let seeds = channel_seed_vecs(owner, &channel_name);
        let pid = program_id_bytes();
        match derive_address(&seeds, &pid) {
            None => Err(OpError::DerivationFailed),
            Some((address, bump)) => {
                if self.address_in_use(&address) {
                    Err(OpError::AddressAlreadyExists)
                } else {
                    let rec = BroadcastChannel::new(owner, channel_name, now);
                    let slot = Slot { address, bump, deposit, rec };
                    let ghost pre = self.channels@;
                    let ghost gslot = slot;
                    self.channels.push(slot);
                    proof {
                        lemma_slots_push(pre, gslot);
                        assert(self@ =~= initialize_channel_post(
                            old(self)@,
                            owner@,
                            gslot.rec.channel_name@,
                            now,
                            deposit,
                        ));
                    }
                    Ok(address)
                }
            },
        }
    }

    /// Accepts or rejects one broadcast on the channel at `channel_address`.
    /// The time oracle is monotonic, so `now` is no earlier than the stored
    /// creation time.
    pub fn send_broadcast(
        &mut self,
        sender: &[u8; 32],
        channel_address: &[u8; 32],
        message_index: u32,
        _content_reference: &[u8],
        now: i64,
    ) -> (r: Result<(), OpError>)
        requires
            old(self).wf(),
            old(self)@.channels.contains_key(channel_address@) ==> now >= old(
                self,
            )@.channels[channel_address@].rec.created_at,
        ensures
            final(self).wf(),
            r == send_broadcast_outcome(old(self)@, sender@, channel_address@, message_index),
            final(self)@ == send_broadcast_post(
                old(self)@,
                sender@,
                channel_address@,
                message_index,
                now,
            ),
    {
        let idx = match find_slot(&self.channels, channel_address) {
            None => {
                return Err(OpError::AddressNotFound);
            },
            Some(i) => i,
        };
        let ghost pre = self.channels@;
        proof {
            lemma_slot_at(pre, idx as int);
        }
        let slot = slot_mut(&mut self.channels, idx);
        let r = slot.rec.broadcast(sender, message_index, now);
        proof {
            let s2 = self.channels@;
            assert(s2 == pre.update(idx as int, s2[idx as int]));
            lemma_slots_update(pre, idx as int, s2[idx as int]);
            assert forall|i: int| 0 <= i < s2.len() implies (#[trigger] s2[i])@.rec.wf() by {
                assert(pre[i]@.rec.wf());
            }
            if r is Err {
                assert(s2 =~= pre);
            }
            assert(self@ =~= send_broadcast_post(
                old(self)@,
                sender@,
                channel_address@,
                message_index,
                now,
            ));
        }
        r
    }

    /// Subscribes `subscriber` to the channel at `channel_address`: creates
    /// the subscription record at its derived address and advances the
    /// channel's subscriber counter, both or neither. A second subscription
    /// to the same pair derives the same address and is rejected.
    pub fn subscribe_channel(
        &mut self,
        subscriber: &[u8; 32],
        channel_address: &[u8; 32],
        now: i64,
        deposit: u64,
    ) -> (r: Result<[u8; 32], OpError>)
        requires
            old(self).wf(),
        ensures
            final(self).wf(),
            addr_result_matches(
                r,
                subscribe_channel_outcome(old(self)@, subscriber@, channel_address@),
            ),
            final(self)@ == subscribe_channel_post(
                old(self)@,
                subscriber@,
                channel_address@,
                now,
                deposit,
            ),
    {
        let cidx = match find_slot(&self.channels, channel_address) {
            None => {
                return Err(OpError::AddressNotFound);
            },
            Some(i) => i,
        };
        proof {
            lemma_slot_at(self.channels@, cidx as int);
        }
        let seeds = subscription_seed_vecs(channel_address, subscriber);
        let pid = program_id_bytes();
        let (address, bump) = match derive_address(&seeds, &pid) {
            None => {
                return Err(OpError::DerivationFailed);
            },
            Some(p) => p,
        };
        if self.address_in_use(&address) {
            return Err(OpError::AddressAlreadyExists);
        }
        let ghost cpre = self.channels@;
        let cslot = slot_mut(&mut self.channels, cidx);
        let cres = cslot.rec.add_subscriber();
        proof {
            let s2 = self.channels@;
            assert(s2 == cpre.update(cidx as int, s2[cidx as int]));
            lemma_slots_update(cpre, cidx as int, s2[cidx as int]);
            assert forall|i: int| 0 <= i < s2.len() implies (#[trigger] s2[i])@.rec.wf() by {
                assert(cpre[i]@.rec.wf());
            }
            if cres is Err {
                assert(s2 =~= cpre);
            }
        }
        match cres {
            Err(e) => {
                proof {
                    assert(self@ =~= subscribe_channel_post(
                        old(self)@,
                        subscriber@,
                        channel_address@,
                        now,
                        deposit,
                    ));
                }
                Err(e)
            },
            Ok(()) => {
                let rec = ChannelSubscription::new(subscriber, channel_address, now);
                let slot = Slot { address, bump, deposit, rec };
                let ghost spre = self.subscriptions@;
                self.subscriptions.push(slot);
                proof {
                    lemma_slots_push(spre, slot);
                    assert(self@ =~= subscribe_channel_post(
                        old(self)@,
                        subscriber@,
                        channel_address@,
                        now,
                        deposit,
                    ));
                }
                Ok(address)
            },
        }
    }

    /// Closes the channel at `channel_address` and releases its deposit to
    /// `recipient`; only the owner may close. Outstanding subscriptions are
    /// not cascaded to and stay behind.
    pub fn close_channel(
        &mut self,
        caller: &[u8; 32],
        channel_address: &[u8; 32],
        recipient: &[u8; 32],
    ) -> (r: Result<Refund, OpError>)
        requires
            old(self).wf(),
        ensures
            final(self).wf(),
            (match (r, close_channel_outcome(old(self)@, caller@, channel_address@)) {
                (Ok(refund), Ok(amount)) => refund.amount == amount && refund.recipient@
                    == recipient@,
                (Err(e), Err(f)) => e == f,
                _ => false,
            }),
            final(self)@ == close_channel_post(old(self)@, caller@, channel_address@),
    {
        let idx = match find_slot(&self.channels, channel_address) {
            None => {
                return Err(OpError::AddressNotFound);
            },
            Some(i) => i,
        };
        let ghost pre = self.channels@;
        proof {
            lemma_slot_at(pre, idx as int);
        }
        if !keys_equal(caller, &self.channels[idx].rec.owner) {
            return Err(OpError::Refused(MessagingError::UnauthorizedSender));
        }
        let slot = self.channels.remove(idx);
        proof {
            lemma_slots_remove(pre, idx as int);
            let s2 = self.channels@;
            assert forall|i: int| 0 <= i < s2.len() implies (#[trigger] s2[i])@.rec.wf() by {
                let j = if i < idx as int {
                    i
                } else {
                    i + 1
                };
                assert(s2[i] == pre[j]);
                assert(pre[j]@.rec.wf());
            }
            assert(self@ =~= close_channel_post(old(self)@, caller@, channel_address@));
        }
        Ok(Refund { recipient: *recipient, amount: slot.deposit })
    }
}

} // verus!
