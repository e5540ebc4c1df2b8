use vstd::prelude::*;

use crate::keys::byte_array_to_vec;

verus! {

// ---------------------------------------------------------------------------
// Domain tags and seed tuples
// ---------------------------------------------------------------------------

/// The bytes of `"message_thread"`, the domain tag of thread addresses.
pub open spec fn thread_tag() -> Seq<u8> {
    seq![109u8, 101, 115, 115, 97, 103, 101, 95, 116, 104, 114, 101, 97, 100]
}

/// The bytes of `"broadcast_channel"`, the domain tag of channel addresses.
pub open spec fn channel_tag() -> Seq<u8> {
    seq![98u8, 114, 111, 97, 100, 99, 97, 115, 116, 95, 99, 104, 97, 110, 110, 101, 108]
}

/// The bytes of `"subscription"`, the domain tag of subscription addresses.
pub open spec fn subscription_tag() -> Seq<u8> {
    seq![115u8, 117, 98, 115, 99, 114, 105, 112, 116, 105, 111, 110]
}

/// The program id under which every address of this store is derived.
pub open spec fn ledger_program_id() -> Seq<u8> {
    seq![
        132u8, 5, 242, 81, 38, 73, 242, 33, 209, 5, 219, 165, 22, 71, 19, 76, 142, 13, 141, 225,
        173, 113, 36, 228, 141, 54, 25, 33, 78, 237, 135, 163,
    ]
}

/// Seed tuple of a thread address: tag, both participants, thread id.
pub open spec fn thread_seeds(
    participant_a: Seq<u8>,
    participant_b: Seq<u8>,
    thread_id: Seq<u8>,
) -> Seq<Seq<u8>> {
    seq![thread_tag(), participant_a, participant_b, thread_id]
}

/// Seed tuple of a channel address: tag, owner, name bytes.
pub open spec fn channel_seeds(owner: Seq<u8>, channel_name: Seq<u8>) -> Seq<Seq<u8>> {
    seq![channel_tag(), owner, channel_name]
}

/// Seed tuple of a subscription address: tag, channel address, subscriber.
pub open spec fn subscription_seeds(channel: Seq<u8>, subscriber: Seq<u8>) -> Seq<Seq<u8>> {
    seq![subscription_tag(), channel, subscriber]
}

/// The executable program id, equal to [`ledger_program_id`].
pub fn program_id_bytes() -> (r: [u8; 32])
    ensures
        r@ == ledger_program_id(),
{
    let r: [u8; 32] = [
        132u8, 5, 242, 81, 38, 73, 242, 33, 209, 5, 219, 165, 22, 71, 19, 76, 142, 13, 141, 225,
        173, 113, 36, 228, 141, 54, 25, 33, 78, 237, 135, 163,
    ];
    proof {
        assert(r@ =~= ledger_program_id());
    }
    r
}

/// The executable bytes of the thread domain tag.
pub fn thread_tag_vec() -> (v: Vec<u8>)
    ensures
        v@ == thread_tag(),
{
    let tag: [u8; 14] = [109u8, 101, 115, 115, 97, 103, 101, 95, 116, 104, 114, 101, 97, 100];
    let v = byte_array_to_vec(&tag);
    proof {
        assert(v@ =~= thread_tag());
    }
    v
}

/// The executable bytes of the channel domain tag.
pub fn channel_tag_vec() -> (v: Vec<u8>)
    ensures
        v@ == channel_tag(),
{
    let tag: [u8; 17] = [
        98u8, 114, 111, 97, 100, 99, 97, 115, 116, 95, 99, 104, 97, 110, 110, 101, 108,
    ];
    let v = byte_array_to_vec(&tag);
    proof {
        assert(v@ =~= channel_tag());
    }
    v
}

/// The executable bytes of the subscription domain tag.
pub fn subscription_tag_vec() -> (v: Vec<u8>)
    ensures
        v@ == subscription_tag(),
{
    let tag: [u8; 12] = [115u8, 117, 98, 115, 99, 114, 105, 112, 116, 105, 111, 110];
    let v = byte_array_to_vec(&tag);
    proof {
        assert(v@ =~= subscription_tag());
    }
    v
}

// ---------------------------------------------------------------------------
// Derivation
// ---------------------------------------------------------------------------

/// The address and bump that the ledger's one-way derivation assigns to a
/// seed tuple under a program id, or `None` in the statistically improbable
/// event that no bump yields a usable address.
pub uninterp spec fn pda_of(seeds: Seq<Seq<u8>>, program_id: Seq<u8>) -> Option<(Seq<u8>, u8)>;

/// Relies on `Pubkey::try_find_program_address` of the Solana SDK, as
/// re-exported by `anchor_lang`: off-chain it hashes the seeds, a bump byte,
/// the program id and a fixed marker with SHA-256, taking the first bump from
/// 255 downward whose hash is not an ed25519 curve point. The result depends
/// on the seeds and the program id alone, and it never panics.
#[verifier::external_body]
pub(crate) fn derive_address(seeds: &Vec<Vec<u8>>, program_id: &[u8; 32]) -> (r: Option<
    ([u8; 32], u8),
>)
    ensures
        (match r {
            Some(p) => pda_of(seeds.deep_view(), program_id@) == Some((p.0@, p.1)),
            None => pda_of(seeds.deep_view(), program_id@) is None,
        }),
{
    let seed_refs: Vec<&[u8]> = seeds.iter().map(|s| s.as_slice()).collect();
    let pid = anchor_lang::solana_program::pubkey::Pubkey::new_from_array(*program_id);
    anchor_lang::solana_program::pubkey::Pubkey::try_find_program_address(&seed_refs, &pid).map(
        |p: (anchor_lang::solana_program::pubkey::Pubkey, u8)| (p.0.to_bytes(), p.1),
    )
}

/// Builds the executable seed tuple of a thread address.
pub fn thread_seed_vecs(
    participant_a: &[u8; 32],
    participant_b: &[u8; 32],
    thread_id: &[u8; 32],
) -> (s: Vec<Vec<u8>>)
    ensures
        s.deep_view() == thread_seeds(participant_a@, participant_b@, thread_id@),
{
    let mut s: Vec<Vec<u8>> = Vec::new();
    s.push(thread_tag_vec());
    s.push(byte_array_to_vec(participant_a));
    s.push(byte_array_to_vec(participant_b));
    s.push(byte_array_to_vec(thread_id));
    proof {
        assert(s.deep_view() =~~= thread_seeds(participant_a@, participant_b@, thread_id@));
    }
    s
}

/// Builds the executable seed tuple of a channel address.
pub fn channel_seed_vecs(owner: &[u8; 32], channel_name: &Vec<u8>) -> (s: Vec<Vec<u8>>)
    ensures
        s.deep_view() == channel_seeds(owner@, channel_name@),
{
    let mut s: Vec<Vec<u8>> = Vec::new();
    s.push(channel_tag_vec());
    s.push(byte_array_to_vec(owner));
    s.push(clone_bytes(channel_name));
    proof {
        assert(s.deep_view() =~~= channel_seeds(owner@, channel_name@));
    }
    s
}

/// Builds the executable seed tuple of a subscription address.
pub fn subscription_seed_vecs(channel: &[u8; 32], subscriber: &[u8; 32]) -> (s: Vec<Vec<u8>>)
    ensures
        s.deep_view() == subscription_seeds(channel@, subscriber@),
{
    let mut s: Vec<Vec<u8>> = Vec::new();
    s.push(subscription_tag_vec());
    s.push(byte_array_to_vec(channel));
    s.push(byte_array_to_vec(subscriber));
    proof {
        assert(s.deep_view() =~~= subscription_seeds(channel@, subscriber@));
    }
    s
}

/// Copies a byte vector.
pub fn clone_bytes(v: &Vec<u8>) -> (c: Vec<u8>)
    ensures
        c@ == v@,
{
    let mut c: Vec<u8> = Vec::new();
    let mut i: usize = 0;
    while i < v.len()
        invariant
            0 <= i <= v@.len(),
            c@.len() == i,
            forall|j: int| 0 <= j < i ==> c@[j] == v@[j],
        decreases v@.len() - i,
    {
        c.push(v[i]);
        i = i + 1;
    }
    proof {
        assert(c@ =~= v@);
    }
    c
}

} // verus!
