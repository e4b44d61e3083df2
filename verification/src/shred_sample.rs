//! The decisions of the shred-sample request listener: how many requests it
//! buffers, which packets it takes on, and which requests it keeps when there
//! are more than it serves in one round.
use vstd::prelude::*;
use crate::keys::{BankHash, Pubkey};

verus! {

broadcast use vstd::seq_lib::group_to_multiset_ensures, vstd::multiset::group_multiset_axioms;

/// The number of slots to answer with when answering an orphan request.
pub const MAX_ORPHAN_REPAIR_RESPONSES: usize = 11;

/// The number of slots whose repair peers and sampling weights are cached.
pub const REPAIR_PEERS_CACHE_CAPACITY: usize = 128;

/// The payload bytes of a packet.
pub const PACKET_DATA_SIZE: usize = 1232;

/// The bytes of the nonce that follows a repair response.
pub const SIZE_OF_NONCE: usize = 4;

/// The bytes of a (slot, hash) pair.
pub const SLOT_HASH_BYTES: usize = 40;

/// Room for ancestor hashes in a packet: the payload less the nonce, the
/// response version's enum tag and the length of the list.
pub const MAX_ANCESTOR_BYTES_IN_PACKET: usize = PACKET_DATA_SIZE - SIZE_OF_NONCE - 4 - 4;

/// How many (slot, hash) pairs fit in one ancestor-hashes response.
pub const MAX_ANCESTOR_RESPONSES: usize = MAX_ANCESTOR_BYTES_IN_PACKET / SLOT_HASH_BYTES;

/// The bytes of the random token sent with a ping.
pub const REPAIR_PING_TOKEN_SIZE: usize = 32;

/// How many remote nodes the ping cache remembers.
pub const REPAIR_PING_CACHE_CAPACITY: usize = 65536;

/// How long a pong keeps a remote node verified, in seconds.
pub const REPAIR_PING_CACHE_TTL_SECS: u64 = 1280;

/// How long the ping cache waits before pinging a node again, in seconds.
pub const REPAIR_PING_CACHE_RATE_LIMIT_DELAY_SECS: u64 = 2;

/// The serialized size of a ping response: enum tag, sender, token, signature.
pub const REPAIR_RESPONSE_SERIALIZED_PING_BYTES: usize = 4 + 32 + REPAIR_PING_TOKEN_SIZE + 64;

/// The requests served in one round of the listener, at most.
pub const MAX_REQUESTS_PER_ITERATION: usize = 1024;

/// The listener's bandwidth budget per second.
pub const MAX_BYTES_PER_SECOND: usize = 12_000_000;

/// The interval at which the listener's bandwidth budget is refilled, in milliseconds.
pub const INTERVAL_MS: u64 = 1000;

/// The bandwidth budget of one interval (of `INTERVAL_MS` milliseconds).
pub const MAX_BYTES_PER_INTERVAL: usize = MAX_BYTES_PER_SECOND / 1000 * 1000;

/// The shred-sample request server.
pub struct ServeSamples {}

/// A 64-byte signature.
#[derive(Clone, Copy, Debug, PartialEq, Eq)]
pub struct Signature(pub [u8; 64]);

impl View for Signature {
    type V = Seq<u8>;

    open spec fn view(&self) -> Seq<u8> {
        self.0@
    }
}

/// The answer to a ping: the answering node, the hash of the ping's token,
/// and the node's signature over that hash.
#[derive(Clone, Copy, Debug, PartialEq, Eq)]
pub struct Pong {
    pub from: Pubkey,
    pub hash: BankHash,
    pub signature: Signature,
}

/// The requests that the shred-sample server answers.
#[derive(Clone, Copy, Debug, PartialEq, Eq)]
pub enum SampleProtocol {
    /// Random shreds of a slot: the slot and how many.
    RandomSamplesForSlot(u64, u64),
    Pong(Pong),
}

/// How many request packets the listener buffers in one round: four rounds'
/// worth off mainnet-beta when a repair whitelist is set, two rounds' worth off
/// mainnet-beta otherwise, one round's worth on mainnet-beta.
pub fn max_buffered_packets(is_mainnet_beta: bool, whitelist_len: usize) -> (res: usize)
    ensures
        res == if !is_mainnet_beta {
            if whitelist_len > 0 {
                4 * MAX_REQUESTS_PER_ITERATION as int
            } else {
                2 * MAX_REQUESTS_PER_ITERATION as int
            }
        } else {
            MAX_REQUESTS_PER_ITERATION as int
        },
{
    if !is_mainnet_beta {
        if whitelist_len > 0 {
            4 * MAX_REQUESTS_PER_ITERATION
        } else {
            2 * MAX_REQUESTS_PER_ITERATION
        }
    } else {
        MAX_REQUESTS_PER_ITERATION
    }
}

/// The counters of the request listener.
#[derive(Clone, Copy, Debug, PartialEq, Eq)]
pub struct ServeRepairStats {
    pub total_requests: usize,
    pub dropped_requests_load_shed: usize,
    pub dropped_requests_low_stake: usize,
    pub whitelisted_requests: usize,
    pub err_malformed: usize,
    pub unsigned_requests: usize,
    pub self_repair: usize,
    pub handle_requests_staked: usize,
    pub handle_requests_unstaked: usize,
    pub err_sig_verify: usize,
    pub decode_time_us: u64,
}

impl Default for ServeRepairStats {
    fn default() -> (res: Self)
        ensures
            res == (ServeRepairStats {
                total_requests: 0,
                dropped_requests_load_shed: 0,
                dropped_requests_low_stake: 0,
                whitelisted_requests: 0,
                err_malformed: 0,
                unsigned_requests: 0,
                self_repair: 0,
                handle_requests_staked: 0,
                handle_requests_unstaked: 0,
                err_sig_verify: 0,
                decode_time_us: 0,
            }),
    {
        ServeRepairStats {
            total_requests: 0,
            dropped_requests_load_shed: 0,
            dropped_requests_low_stake: 0,
            whitelisted_requests: 0,
            err_malformed: 0,
            unsigned_requests: 0,
            self_repair: 0,
            handle_requests_staked: 0,
            handle_requests_unstaked: 0,
            err_sig_verify: 0,
            decode_time_us: 0,
        }
    }
}

/// The intake of request batches in one round: the first batch is always
/// taken; each further batch counts towards the total and is taken only while
/// the total stays within the buffering bound.
pub struct RequestIntake {
    first_batch: usize,
    max_buffered_packets: usize,
    total_requests: usize,
    dropped_requests: usize,
}

impl RequestIntake {
    #[verifier::type_invariant]
    spec fn wf(self) -> bool {
        &&& self.dropped_requests <= self.total_requests
        &&& self.total_requests - self.dropped_requests <= if self.first_batch
            <= self.max_buffered_packets {
            self.max_buffered_packets
        } else {
            self.first_batch
        }
    }

    pub closed spec fn spec_total(self) -> nat {
        self.total_requests as nat
    }

    pub closed spec fn spec_dropped(self) -> nat {
        self.dropped_requests as nat
    }

    pub closed spec fn spec_first_batch(self) -> nat {
        self.first_batch as nat
    }

    pub closed spec fn spec_max_buffered(self) -> nat {
        self.max_buffered_packets as nat
    }

    /// Starts a round with its first batch of `first_batch` requests.
    pub fn new(first_batch: usize, max_buffered_packets: usize) -> (res: Self)
        ensures
            res.spec_total() == first_batch,
            res.spec_dropped() == 0,
            res.spec_first_batch() == first_batch,
            res.spec_max_buffered() == max_buffered_packets,
    {
        RequestIntake { first_batch, max_buffered_packets, total_requests: first_batch, dropped_requests: 0 }
    }

    pub fn total_requests(&self) -> (res: usize)
        ensures
            res == self.spec_total(),
    {
        self.total_requests
    }

    /// The requests dropped so far. What was taken, the total less this, stays
    /// within the buffering bound, or within the first batch when that alone is
    /// larger.
    pub fn dropped_requests(&self) -> (res: usize)
        ensures
            res == self.spec_dropped(),
            res <= self.spec_total(),
            self.spec_total() - res <= if self.spec_first_batch() <= self.spec_max_buffered() {
                self.spec_max_buffered()
            } else {
                self.spec_first_batch()
            },
    {
        proof {
            use_type_invariant(self);
        }
        self.dropped_requests
    }

    /// Decides on a further batch of `batch_len` requests: `true` to take it,
    /// `false` to drop it.
    pub fn offer(&mut self, batch_len: usize) -> (keep: bool)
        requires
            old(self).spec_total() + batch_len <= usize::MAX,
        ensures
            final(self).spec_total() == old(self).spec_total() + batch_len,
            keep == (final(self).spec_total() <= old(self).spec_max_buffered()),
            old(self).spec_total() > old(self).spec_max_buffered() ==> !keep,
            final(self).spec_dropped() == old(self).spec_dropped() + if keep {
                0
            } else {
                batch_len
            },
            final(self).spec_first_batch() == old(self).spec_first_batch(),
            final(self).spec_max_buffered() == old(self).spec_max_buffered(),
    {
        proof {
            use_type_invariant(&*self);
        }
        let total = self.total_requests + batch_len;
        if total > self.max_buffered_packets {
            *self = RequestIntake {
                first_batch: self.first_batch,
                max_buffered_packets: self.max_buffered_packets,
                total_requests: total,
                dropped_requests: self.dropped_requests + batch_len,
            };
            false
        } else {
            *self = RequestIntake {
                first_batch: self.first_batch,
                max_buffered_packets: self.max_buffered_packets,
                total_requests: total,
                dropped_requests: self.dropped_requests,
            };
            true
        }
    }
}

/// Every counter of `new` is at least the same counter of `old`.
pub open spec fn counters_at_least(new: ServeRepairStats, old: ServeRepairStats) -> bool {
    &&& new.total_requests >= old.total_requests
    &&& new.dropped_requests_load_shed >= old.dropped_requests_load_shed
    &&& new.dropped_requests_low_stake >= old.dropped_requests_low_stake
    &&& new.whitelisted_requests >= old.whitelisted_requests
    &&& new.err_malformed >= old.err_malformed
    &&& new.unsigned_requests >= old.unsigned_requests
    &&& new.self_repair >= old.self_repair
    &&& new.handle_requests_staked >= old.handle_requests_staked
    &&& new.handle_requests_unstaked >= old.handle_requests_unstaked
    &&& new.err_sig_verify >= old.err_sig_verify
    &&& new.decode_time_us >= old.decode_time_us
}

/// The counters after a round's intake of `total` requests of which `dropped`
/// were dropped.
pub open spec fn stats_after_intake(stats: ServeRepairStats, total: nat, dropped: nat) -> ServeRepairStats {
    ServeRepairStats {
        total_requests: (stats.total_requests + total) as usize,
        dropped_requests_load_shed: (stats.dropped_requests_load_shed + dropped) as usize,
        ..stats
    }
}

/// The counters after `micros` more microseconds of decoding.
pub open spec fn stats_after_decode_time(stats: ServeRepairStats, micros: u64) -> ServeRepairStats {
    ServeRepairStats { decode_time_us: (stats.decode_time_us + micros) as u64, ..stats }
}

impl ServeRepairStats {
    /// Adds a round's intake to the counters.
    pub fn record_intake(&mut self, intake: &RequestIntake)
        requires
            old(self).total_requests + intake.spec_total() <= usize::MAX,
            old(self).dropped_requests_load_shed + intake.spec_dropped() <= usize::MAX,
        ensures
            *final(self) == stats_after_intake(*old(self), intake.spec_total(), intake.spec_dropped()),
    {
        self.dropped_requests_load_shed = self.dropped_requests_load_shed + intake.dropped_requests();
        self.total_requests = self.total_requests + intake.total_requests();
    }

    /// Adds the time spent decoding a round's packets.
    pub fn record_decode_time(&mut self, micros: u64)
        requires
            old(self).decode_time_us + micros <= u64::MAX,
        ensures
            *final(self) == stats_after_decode_time(*old(self), micros),
    {
        self.decode_time_us = self.decode_time_us + micros;
    }
}

/// A request together with what the listener knows of its sender.
#[derive(Clone, Debug, PartialEq, Eq)]
pub struct RepairRequestWithMeta<T> {
    pub request: T,
    /// The sender's stake in the current epoch (zero when unknown).
    pub stake: u64,
    /// Whether the sender is on the repair whitelist.
    pub whitelisted: bool,
}

/// `a` ranks at least as high as `b`: whitelisted senders first, then by stake.
pub open spec fn ranks_at_least<T>(a: RepairRequestWithMeta<T>, b: RepairRequestWithMeta<T>) -> bool {
    (a.whitelisted && !b.whitelisted) || (a.whitelisted == b.whitelisted && a.stake >= b.stake)
}

/// Highest rank first.
pub open spec fn sorted_by_rank<T>(s: Seq<RepairRequestWithMeta<T>>) -> bool {
    forall|i: int, j: int| 0 <= i < j < s.len() ==> ranks_at_least(#[trigger] s[i], #[trigger] s[j])
}

/// `kept` is what remains of `all` when only the `max` highest-ranked requests
/// are kept: `max` of them (or all, when there are no more), highest rank
/// first, each ranking at least as high as every request left out.
pub open spec fn is_rank_selection<T>(
    kept: Seq<RepairRequestWithMeta<T>>,
    all: Seq<RepairRequestWithMeta<T>>,
    max: nat,
) -> bool {
    &&& kept.len() == if all.len() <= max {
        all.len()
    } else {
        max
    }
    &&& sorted_by_rank(kept)
    &&& exists|rest: Seq<RepairRequestWithMeta<T>>|
        {
            &&& (kept + rest).to_multiset() == all.to_multiset()
            &&& forall|i: int, j: int|
                0 <= i < kept.len() && 0 <= j < rest.len() ==> ranks_at_least(
                    #[trigger] kept[i],
                    #[trigger] rest[j],
                )
        }
}

fn ranks_at_least_exec<T>(a: &RepairRequestWithMeta<T>, b: &RepairRequestWithMeta<T>) -> (res: bool)
    ensures
        res == ranks_at_least(*a, *b),
{
    (a.whitelisted && !b.whitelisted) || (a.whitelisted == b.whitelisted && a.stake >= b.stake)
}

/// Orders requests by rank, highest first.
pub fn sort_by_rank<T>(requests: Vec<RepairRequestWithMeta<T>>) -> (sorted: Vec<
    RepairRequestWithMeta<T>,
>)
    ensures
        sorted@.to_multiset() == requests@.to_multiset(),
        sorted_by_rank(sorted@),
{
    let ghost all = requests@;
    let mut input = requests;
    let mut out: Vec<RepairRequestWithMeta<T>> = Vec::new();
    while input.len() > 0
        invariant
            sorted_by_rank(out@),
            all.to_multiset() == input@.to_multiset().add(out@.to_multiset()),
        decreases input@.len(),
    {
        let ghost before = input@;
        let x = input.pop().unwrap();
        assert(before =~= input@.push(x));
        let mut pos: usize = 0;
        while pos < out.len() && ranks_at_least_exec(&out[pos], &x)
            invariant
                pos <= out@.len(),
                forall|j: int| 0 <= j < pos ==> ranks_at_least(#[trigger] out@[j], x),
            decreases out@.len() - pos,
        {
            pos = pos + 1;
        }
        assert(forall|j: int| pos <= j < out@.len() ==> ranks_at_least(x, #[trigger] out@[j])) by {
            if pos < out@.len() {
                assert(!ranks_at_least(out@[pos as int], x));
                assert forall|j: int| pos <= j < out@.len() implies ranks_at_least(
                    x,
                    #[trigger] out@[j],
                ) by {
                    if j > pos {
                        assert(ranks_at_least(out@[pos as int], out@[j]));
                    }
                }
            }
        }
        let ghost prev = out@;
        out.insert(pos, x);
        assert(sorted_by_rank(out@)) by {
            assert forall|i: int, j: int| 0 <= i < j < out@.len() implies ranks_at_least(
                #[trigger] out@[i],
                #[trigger] out@[j],
            ) by {
                if j < pos {
                    assert(ranks_at_least(prev[i], prev[j]));
                } else if j == pos {
                    assert(ranks_at_least(prev[i], x));
                } else if i < pos {
                    assert(ranks_at_least(prev[i], prev[j - 1]));
                } else if i == pos {
                    assert(ranks_at_least(x, prev[j - 1]));
                } else {
                    assert(ranks_at_least(prev[i - 1], prev[j - 1]));
                }
            }
        }
        assert(all.to_multiset() =~= input@.to_multiset().add(out@.to_multiset()));
    }
    assert(input@ =~= Seq::<RepairRequestWithMeta<T>>::empty());
    assert(all.to_multiset() =~= out@.to_multiset());
    out
}

/// Keeps the `max` highest-ranked requests, highest first, when there are more
/// than `max`; returns them with the number left out. Fewer requests are kept
/// as they are, in their order.
pub fn keep_highest_ranked<T>(requests: Vec<RepairRequestWithMeta<T>>, max: usize) -> (res: (
    Vec<RepairRequestWithMeta<T>>,
    usize,
))
    ensures
        requests@.len() <= max ==> res.0@ == requests@ && res.1 == 0,
        requests@.len() > max ==> is_rank_selection(res.0@, requests@, max as nat) && res.1
            == requests@.len() - max,
{
    let n = requests.len();
    if n <= max {
        return (requests, 0);
    }
    let ghost all = requests@;
    let mut sorted = sort_by_rank(requests);
    let ghost full = sorted@;
    proof {
        vstd::seq_lib::to_multiset_len(all);
        vstd::seq_lib::to_multiset_len(full);
    }
    sorted.truncate(max);
    proof {
        let rest = full.subrange(max as int, full.len() as int);
        assert(sorted@ + rest =~= full);
        assert forall|i: int, j: int| 0 <= i < sorted@.len() && 0 <= j < rest.len() implies ranks_at_least(
            #[trigger] sorted@[i],
            #[trigger] rest[j],
        ) by {
            assert(full[i] == sorted@[i]);
            assert(full[max + j] == rest[j]);
        }
        assert(sorted_by_rank(sorted@)) by {
            assert forall|i: int, j: int| 0 <= i < j < sorted@.len() implies ranks_at_least(
                #[trigger] sorted@[i],
                #[trigger] sorted@[j],
            ) by {
                assert(full[i] == sorted@[i]);
                assert(full[j] == sorted@[j]);
            }
        }
        assert((sorted@ + rest).to_multiset() == all.to_multiset());
    }
    (sorted, n - max)
}

/// What the listener knows of a decoded request's packet and sender.
#[derive(Clone, Copy, Debug, PartialEq, Eq)]
pub struct PacketCheck {
    /// The packet's source address is valid in the cluster's address space.
    pub address_valid: bool,
    /// The request's kind carries a signature.
    pub signed: bool,
    /// The request comes from this node itself.
    pub from_self: bool,
    /// The sender's stake in the current epoch (zero when unknown).
    pub stake: u64,
    /// The sender is on the repair whitelist.
    pub whitelisted: bool,
}

/// What the listener knows of the cluster in a round: its own identity, the
/// staked nodes of the epoch with their stakes, and the repair whitelist.
#[derive(Clone, Debug)]
pub struct ListenerView {
    pub my_id: Pubkey,
    pub staked_nodes: Vec<(Pubkey, u64)>,
    pub whitelist: Vec<Pubkey>,
}

/// The node a request comes from, where the request names one.
pub open spec fn request_sender(request: SampleProtocol) -> Option<Pubkey> {
    match request {
        SampleProtocol::Pong(pong) => Some(pong.from),
        SampleProtocol::RandomSamplesForSlot(_, _) => None,
    }
}

/// Whether the request's kind carries a signature.
pub open spec fn request_signed(request: SampleProtocol) -> bool {
    request is Pong
}

/// The stake listed for `key`: that of the first entry with this key, or zero
/// when there is none.
pub open spec fn stake_of(nodes: Seq<(Pubkey, u64)>, key: Seq<u8>) -> u64
    decreases nodes.len(),
{
    if nodes.len() == 0 {
        0
    } else if nodes[0].0@ == key {
        nodes[0].1
    } else {
        stake_of(nodes.drop_first(), key)
    }
}

/// Whether `key` is in `list`.
pub open spec fn listed(list: Seq<Pubkey>, key: Seq<u8>) -> bool {
    exists|i: int| 0 <= i < list.len() && #[trigger] list[i]@ == key
}

/// What the listener knows of a request from a packet whose source address is
/// (or is not) valid.
pub open spec fn packet_check_of(
    request: SampleProtocol,
    address_valid: bool,
    view: ListenerView,
) -> PacketCheck {
    match request_sender(request) {
        Some(sender) => PacketCheck {
            address_valid,
            signed: request_signed(request),
            from_self: sender@ == view.my_id@,
            stake: stake_of(view.staked_nodes@, sender@),
            whitelisted: listed(view.whitelist@, sender@),
        },
        None => PacketCheck {
            address_valid,
            signed: request_signed(request),
            from_self: false,
            stake: 0,
            whitelisted: false,
        },
    }
}

/// The check of a packet that did not decode: only its address is known.
pub open spec fn undecoded_check(address_valid: bool) -> PacketCheck {
    PacketCheck { address_valid, signed: false, from_self: false, stake: 0, whitelisted: false }
}

/// The two keys are the same.
fn same_key(a: &Pubkey, b: &Pubkey) -> (res: bool)
    ensures
        res == (a@ == b@),
{
    let mut i: usize = 0;
    while i < 32
        invariant
            i <= 32,
            a@.len() == 32,
            b@.len() == 32,
            forall|j: int| 0 <= j < i ==> a@[j] == b@[j],
        decreases 32 - i,
    {
        if a.0[i] != b.0[i] {
            return false;
        }
        i = i + 1;
    }
    assert(a@ =~= b@);
    true
}

fn stake_lookup(nodes: &Vec<(Pubkey, u64)>, key: &Pubkey) -> (res: u64)
    ensures
        res == stake_of(nodes@, key@),
{
    assert(nodes@.skip(0) =~= nodes@);
    let mut i: usize = 0;
    while i < nodes.len()
        invariant
            i <= nodes@.len(),
            stake_of(nodes@, key@) == stake_of(nodes@.skip(i as int), key@),
        decreases nodes@.len() - i,
    {
        assert(nodes@.skip(i as int).drop_first() =~= nodes@.skip(i + 1));
        if same_key(&nodes[i].0, key) {
            return nodes[i].1;
        }
        i = i + 1;
    }
    0
}

fn is_listed(list: &Vec<Pubkey>, key: &Pubkey) -> (res: bool)
    ensures
        res == listed(list@, key@),
{
    let mut i: usize = 0;
    while i < list.len()
        invariant
            i <= list@.len(),
            forall|j: int| 0 <= j < i ==> list@[j]@ != key@,
        decreases list@.len() - i,
    {
        if same_key(&list[i], key) {
            return true;
        }
        i = i + 1;
    }
    false
}

/// The stake found for a key is that of the first entry listing the key,
/// wherever in the list that entry stands.
pub proof fn lemma_stake_is_first_listed(nodes: Seq<(Pubkey, u64)>, key: Seq<u8>, i: int)
    requires
        0 <= i < nodes.len(),
        nodes[i].0@ == key,
        forall|j: int| 0 <= j < i ==> nodes[j].0@ != key,
    ensures
        stake_of(nodes, key) == nodes[i].1,
    decreases i,
{
    if i > 0 {
        assert(nodes[0].0@ != key);
        let rest = nodes.drop_first();
        assert forall|j: int| 0 <= j < i - 1 implies rest[j].0@ != key by {
            assert(rest[j] == nodes[j + 1]);
        }
        lemma_stake_is_first_listed(rest, key, i - 1);
    }
}

/// A key that no entry lists has no stake.
pub proof fn lemma_unlisted_key_has_no_stake(nodes: Seq<(Pubkey, u64)>, key: Seq<u8>)
    requires
        forall|j: int| 0 <= j < nodes.len() ==> nodes[j].0@ != key,
    ensures
        stake_of(nodes, key) == 0,
    decreases nodes.len(),
{
    if nodes.len() > 0 {
        assert(nodes[0].0@ != key);
        let rest = nodes.drop_first();
        assert forall|j: int| 0 <= j < rest.len() implies rest[j].0@ != key by {
            assert(rest[j] == nodes[j + 1]);
        }
        lemma_unlisted_key_has_no_stake(rest, key);
    }
}

/// A stake other than zero is that of an entry listing the key.
pub proof fn lemma_nonzero_stake_is_listed(nodes: Seq<(Pubkey, u64)>, key: Seq<u8>)
    requires
        stake_of(nodes, key) != 0,
    ensures
        exists|i: int|
            0 <= i < nodes.len() && #[trigger] nodes[i].0@ == key && nodes[i].1 == stake_of(
                nodes,
                key,
            ),
    decreases nodes.len(),
{
    if nodes[0].0@ != key {
        let rest = nodes.drop_first();
        lemma_nonzero_stake_is_listed(rest, key);
        let i = choose|i: int|
            0 <= i < rest.len() && #[trigger] rest[i].0@ == key && rest[i].1 == stake_of(rest, key);
        assert(nodes[i + 1] == rest[i]);
    }
}

/// What the listener knows of a pong's sender: it is this node exactly when
/// the pong is from the listener's own key; its stake is that of the first
/// staked-node entry with the sender's key, wherever that entry stands, and
/// zero when no entry has it; it is whitelisted exactly when the whitelist
/// holds its key.
pub proof fn lemma_pong_check_knows_its_sender(
    pong: Pong,
    address_valid: bool,
    view: ListenerView,
    i: int,
)
    ensures
        packet_check_of(SampleProtocol::Pong(pong), address_valid, view).from_self == (pong.from@
            == view.my_id@),
        (0 <= i < view.staked_nodes@.len() && view.staked_nodes@[i].0@ == pong.from@ && (forall|
            j: int,
        | 0 <= j < i ==> view.staked_nodes@[j].0@ != pong.from@)) ==> packet_check_of(
            SampleProtocol::Pong(pong),
            address_valid,
            view,
        ).stake == view.staked_nodes@[i].1,
        (forall|j: int| 0 <= j < view.staked_nodes@.len() ==> view.staked_nodes@[j].0@ != pong.from@)
            ==> packet_check_of(SampleProtocol::Pong(pong), address_valid, view).stake == 0,
        packet_check_of(SampleProtocol::Pong(pong), address_valid, view).whitelisted == (exists|
            k: int,
        | 0 <= k < view.whitelist@.len() && #[trigger] view.whitelist@[k]@ == pong.from@),
{
    let nodes = view.staked_nodes@;
    if 0 <= i < nodes.len() && nodes[i].0@ == pong.from@ && (forall|j: int|
        0 <= j < i ==> nodes[j].0@ != pong.from@) {
        lemma_stake_is_first_listed(nodes, pong.from@, i);
    }
    if forall|j: int| 0 <= j < nodes.len() ==> nodes[j].0@ != pong.from@ {
        lemma_unlisted_key_has_no_stake(nodes, pong.from@);
    }
}

/// Works out what the listener knows of a decoded request: whether its kind is
/// signed and, for a request that names its sender, whether that is this node,
/// the sender's stake and whether it is whitelisted.
pub fn packet_check(request: &SampleProtocol, address_valid: bool, view: &ListenerView) -> (c:
    PacketCheck)
    ensures
        c == packet_check_of(*request, address_valid, *view),
        forall|i: int|
            #![trigger view.staked_nodes@[i]]
            request is Pong && 0 <= i < view.staked_nodes@.len() && view.staked_nodes@[i].0@
                == request->Pong_0.from@ && (forall|j: int|
                0 <= j < i ==> view.staked_nodes@[j].0@ != request->Pong_0.from@) ==> c.stake
                == view.staked_nodes@[i].1,
        (request is Pong && forall|j: int|
            0 <= j < view.staked_nodes@.len() ==> view.staked_nodes@[j].0@ != request->Pong_0.from@)
            ==> c.stake == 0,
{
    proof {
        if let SampleProtocol::Pong(pong) = *request {
            assert forall|i: int|
                #![trigger view.staked_nodes@[i]]
                0 <= i < view.staked_nodes@.len() && view.staked_nodes@[i].0@ == pong.from@ && (
                forall|j: int| 0 <= j < i ==> view.staked_nodes@[j].0@ != pong.from@) implies
                stake_of(view.staked_nodes@, pong.from@) == view.staked_nodes@[i].1 by {
                lemma_stake_is_first_listed(view.staked_nodes@, pong.from@, i);
            }
            if forall|j: int|
                0 <= j < view.staked_nodes@.len() ==> view.staked_nodes@[j].0@ != pong.from@ {
                lemma_unlisted_key_has_no_stake(view.staked_nodes@, pong.from@);
            }
        }
    }
    match request {
        SampleProtocol::Pong(pong) => PacketCheck {
            address_valid,
            signed: true,
            from_self: same_key(&pong.from, &view.my_id),
            stake: stake_lookup(&view.staked_nodes, &pong.from),
            whitelisted: is_listed(&view.whitelist, &pong.from),
        },
        SampleProtocol::RandomSamplesForSlot(_, _) => PacketCheck {
            address_valid,
            signed: false,
            from_self: false,
            stake: 0,
            whitelisted: false,
        },
    }
}

/// Whether `signature` is a valid Ed25519 signature of `message` by `pubkey`,
/// as `solana_sdk::signature::Signature::verify` decides.
pub uninterp spec fn ed25519_verifies(signature: Seq<u8>, pubkey: Seq<u8>, message: Seq<u8>) -> bool;

/// `solana_sdk::signature::Signature::verify`: whether `signature` is a valid
/// (strict) Ed25519 signature of `message` by the key `pubkey`. The result is
/// named by [`ed25519_verifies`]; what it is on given bytes is not stated.
#[verifier::external_body]
fn verify_signature(signature: &Signature, pubkey: &Pubkey, message: &[u8]) -> (res: bool)
    ensures
        res == ed25519_verifies(signature@, pubkey@, message@),
{
    solana_sdk::signature::Signature::from(signature.0).verify(&pubkey.0, message)
}

/// Whether a request's signature checks out: a pong's signature must be the
/// sender's signature of the pong's hash; other requests carry none.
pub open spec fn request_signature_verifies(request: SampleProtocol) -> bool {
    match request {
        SampleProtocol::Pong(pong) => ed25519_verifies(pong.signature@, pong.from@, pong.hash@),
        SampleProtocol::RandomSamplesForSlot(_, _) => true,
    }
}

/// Checks the signature of a request that carries one.
pub fn verify_request_signature(request: &SampleProtocol) -> (res: bool)
    ensures
        res == request_signature_verifies(*request),
{
    match request {
        SampleProtocol::Pong(pong) => verify_signature(&pong.signature, &pong.from, &pong.hash.0),
        SampleProtocol::RandomSamplesForSlot(_, _) => true,
    }
}

/// Whether a packet's request is taken on: it must decode, come from a valid
/// address and not come from this node.
pub open spec fn packet_taken(decoded: bool, check: PacketCheck) -> bool {
    decoded && check.address_valid && !check.from_self
}

/// The counters after looking at one packet. A decoded request from a valid
/// address has its signature checked (a failure is counted) when its kind
/// carries one, and is counted as unsigned otherwise, before the test for
/// requests from this node.
pub open spec fn stats_after_packet(
    stats: ServeRepairStats,
    decoded: bool,
    check: PacketCheck,
    signature_ok: bool,
) -> ServeRepairStats {
    if !decoded || !check.address_valid {
        ServeRepairStats { err_malformed: (stats.err_malformed + 1) as usize, ..stats }
    } else {
        let s1 = if !check.signed {
            ServeRepairStats { unsigned_requests: (stats.unsigned_requests + 1) as usize, ..stats }
        } else if !signature_ok {
            ServeRepairStats { err_sig_verify: (stats.err_sig_verify + 1) as usize, ..stats }
        } else {
            stats
        };
        if check.from_self {
            ServeRepairStats { self_repair: (s1.self_repair + 1) as usize, ..s1 }
        } else if check.stake == 0 {
            ServeRepairStats { handle_requests_unstaked: (s1.handle_requests_unstaked + 1) as usize, ..s1 }
        } else {
            ServeRepairStats { handle_requests_staked: (s1.handle_requests_staked + 1) as usize, ..s1 }
        }
    }
}

/// No counter that looking at the packet increments is at its limit.
pub open spec fn packet_counters_have_room(
    stats: ServeRepairStats,
    decoded: bool,
    check: PacketCheck,
    signature_ok: bool,
) -> bool {
    if !decoded || !check.address_valid {
        stats.err_malformed < usize::MAX
    } else {
        &&& !check.signed ==> stats.unsigned_requests < usize::MAX
        &&& check.signed && !signature_ok ==> stats.err_sig_verify < usize::MAX
        &&& check.from_self ==> stats.self_repair < usize::MAX
        &&& !check.from_self && check.stake == 0 ==> stats.handle_requests_unstaked < usize::MAX
        &&& !check.from_self && check.stake != 0 ==> stats.handle_requests_staked < usize::MAX
    }
}

/// The packets counted as malformed, from this node, or handled.
pub open spec fn packets_counted(stats: ServeRepairStats) -> int {
    stats.err_malformed + stats.self_repair + stats.handle_requests_staked
        + stats.handle_requests_unstaked
}

/// Every packet the listener looks at is counted exactly once: as malformed,
/// as coming from this node, or as handled (staked or unstaked sender); and it
/// is counted as handled exactly when its request is taken on.
pub proof fn lemma_each_packet_counted_once(
    stats: ServeRepairStats,
    decoded: bool,
    check: PacketCheck,
    signature_ok: bool,
)
    requires
        packet_counters_have_room(stats, decoded, check, signature_ok),
    ensures
        packets_counted(stats_after_packet(stats, decoded, check, signature_ok)) == packets_counted(
            stats,
        ) + 1,
        (stats_after_packet(stats, decoded, check, signature_ok).handle_requests_staked
            + stats_after_packet(stats, decoded, check, signature_ok).handle_requests_unstaked
            == stats.handle_requests_staked + stats.handle_requests_unstaked + 1) == packet_taken(
            decoded,
            check,
        ),
{
}

/// The whitelisted requests a round counts: at most one round's worth.
pub open spec fn whitelisted_counted(count: nat) -> nat {
    if count <= MAX_REQUESTS_PER_ITERATION {
        count
    } else {
        MAX_REQUESTS_PER_ITERATION as nat
    }
}

/// The requests a round drops for low stake: those beyond one round's worth.
pub open spec fn low_stake_dropped(taken: nat) -> nat {
    if taken > MAX_REQUESTS_PER_ITERATION {
        (taken - MAX_REQUESTS_PER_ITERATION) as nat
    } else {
        0
    }
}

/// The counters at the end of a round in which `taken` requests were taken on,
/// `whitelisted` of them from whitelisted senders.
pub open spec fn stats_after_round(stats: ServeRepairStats, whitelisted: nat, taken: nat) -> ServeRepairStats {
    ServeRepairStats {
        whitelisted_requests: (stats.whitelisted_requests + whitelisted_counted(whitelisted)) as usize,
        dropped_requests_low_stake: (stats.dropped_requests_low_stake + low_stake_dropped(taken)) as usize,
        ..stats
    }
}

/// No counter of the listener ever decreases: not at the intake of a round, not
/// for a packet, not at the decode time and not at the end of a round.
pub proof fn lemma_counters_never_decrease(
    stats: ServeRepairStats,
    total: nat,
    dropped: nat,
    decoded: bool,
    check: PacketCheck,
    signature_ok: bool,
    micros: u64,
    whitelisted: nat,
    taken: nat,
)
    requires
        stats.total_requests + total <= usize::MAX,
        stats.dropped_requests_load_shed + dropped <= usize::MAX,
        packet_counters_have_room(stats, decoded, check, signature_ok),
        stats.decode_time_us + micros <= u64::MAX,
        stats.whitelisted_requests + whitelisted_counted(whitelisted) <= usize::MAX,
        stats.dropped_requests_low_stake + low_stake_dropped(taken) <= usize::MAX,
    ensures
        counters_at_least(stats_after_intake(stats, total, dropped), stats),
        counters_at_least(stats_after_packet(stats, decoded, check, signature_ok), stats),
        counters_at_least(stats_after_decode_time(stats, micros), stats),
        counters_at_least(stats_after_round(stats, whitelisted, taken), stats),
{
}

/// The requests of one round that the listener has taken on so far.
pub struct DecodedRequests<T> {
    requests: Vec<RepairRequestWithMeta<T>>,
    whitelisted_request_count: usize,
}

impl<T> DecodedRequests<T> {
    pub closed spec fn spec_requests(self) -> Seq<RepairRequestWithMeta<T>> {
        self.requests@
    }

    pub closed spec fn spec_whitelisted_count(self) -> nat {
        self.whitelisted_request_count as nat
    }

    pub fn new() -> (res: Self)
        ensures
            res.spec_requests() == Seq::<RepairRequestWithMeta<T>>::empty(),
            res.spec_whitelisted_count() == 0,
    {
        DecodedRequests { requests: Vec::new(), whitelisted_request_count: 0 }
    }

    /// The number of requests taken on so far.
    pub fn len(&self) -> (res: usize)
        ensures
            res == self.spec_requests().len(),
    {
        self.requests.len()
    }

    /// The number of requests from whitelisted senders taken on so far.
    pub fn whitelisted_request_count(&self) -> (res: usize)
        ensures
            res == self.spec_whitelisted_count(),
    {
        self.whitelisted_request_count
    }

    /// Records one packet: `request` is what it decoded to, if anything,
    /// `check` what is known of it, and `signature_ok` whether its signature
    /// checked out. The request is taken on when [`packet_taken`] holds; the
    /// counters move as [`stats_after_packet`] says.
    pub fn record_packet(
        &mut self,
        stats: &mut ServeRepairStats,
        request: Option<T>,
        check: PacketCheck,
        signature_ok: bool,
    ) -> (taken: bool)
        requires
            packet_counters_have_room(*old(stats), request is Some, check, signature_ok),
            old(self).spec_whitelisted_count() < usize::MAX,
        ensures
            taken == packet_taken(request is Some, check),
            *final(stats) == stats_after_packet(*old(stats), request is Some, check, signature_ok),
            taken ==> final(self).spec_requests() == old(self).spec_requests().push(
                RepairRequestWithMeta {
                    request: request.unwrap(),
                    stake: check.stake,
                    whitelisted: check.whitelisted,
                },
            ),
            !taken ==> final(self).spec_requests() == old(self).spec_requests(),
            final(self).spec_whitelisted_count() == old(self).spec_whitelisted_count() + if taken
                && check.whitelisted {
                1nat
            } else {
                0nat
            },
    {
        let request = match request {
            Some(r) => r,
            None => {
                stats.err_malformed = stats.err_malformed + 1;
                return false;
            },
        };
        if !check.address_valid {
            stats.err_malformed = stats.err_malformed + 1;
            return false;
        }
        if !check.signed {
            stats.unsigned_requests = stats.unsigned_requests + 1;
        } else if !signature_ok {
            stats.err_sig_verify = stats.err_sig_verify + 1;
        }
        if check.from_self {
            stats.self_repair = stats.self_repair + 1;
            return false;
        }
        if check.stake == 0 {
            stats.handle_requests_unstaked = stats.handle_requests_unstaked + 1;
        } else {
            stats.handle_requests_staked = stats.handle_requests_staked + 1;
        }
        self.requests.push(
            RepairRequestWithMeta { request, stake: check.stake, whitelisted: check.whitelisted },
        );
        if check.whitelisted {
            self.whitelisted_request_count = self.whitelisted_request_count + 1;
        }
        true
    }

    /// Ends the round: counts the whitelisted requests (up to one round's worth)
    /// and, when more requests were taken on than one round serves, keeps the
    /// highest-ranked of them and counts the rest as dropped for low stake.
    pub fn finish(self, stats: &mut ServeRepairStats) -> (kept: Vec<RepairRequestWithMeta<T>>)
        requires
            old(stats).whitelisted_requests + whitelisted_counted(self.spec_whitelisted_count())
                <= usize::MAX,
            old(stats).dropped_requests_low_stake + low_stake_dropped(self.spec_requests().len())
                <= usize::MAX,
        ensures
            *final(stats) == stats_after_round(
                *old(stats),
                self.spec_whitelisted_count(),
                self.spec_requests().len(),
            ),
            self.spec_requests().len() <= MAX_REQUESTS_PER_ITERATION ==> kept@
                == self.spec_requests(),
            self.spec_requests().len() > MAX_REQUESTS_PER_ITERATION ==> is_rank_selection(
                kept@,
                self.spec_requests(),
                MAX_REQUESTS_PER_ITERATION as nat,
            ),
    {
        let count = if self.whitelisted_request_count <= MAX_REQUESTS_PER_ITERATION {
            self.whitelisted_request_count
        } else {
            MAX_REQUESTS_PER_ITERATION
        };
        stats.whitelisted_requests = stats.whitelisted_requests + count;
        let DecodedRequests { requests, whitelisted_request_count: _ } = self;
        let (kept, dropped) = keep_highest_ranked(requests, MAX_REQUESTS_PER_ITERATION);
        stats.dropped_requests_low_stake = stats.dropped_requests_low_stake + dropped;
        kept
    }
}

impl<A> DecodedRequests<(SampleProtocol, A)> {
    /// Looks at one packet from `from`: `request` is what it decoded to, if
    /// anything, and `address_valid` whether `from` is valid in the cluster's
    /// address space. A decoded request from a valid address has its signature
    /// checked when its kind carries one; the packet is then recorded as
    /// [`DecodedRequests::record_packet`] says, with the check of
    /// [`packet_check_of`].
    pub fn take_packet(
        &mut self,
        stats: &mut ServeRepairStats,
        request: Option<SampleProtocol>,
        from: A,
        address_valid: bool,
        view: &ListenerView,
    ) -> (taken: bool)
        requires
            old(self).spec_whitelisted_count() < usize::MAX,
            match request {
                Some(r) => packet_counters_have_room(
                    *old(stats),
                    true,
                    packet_check_of(r, address_valid, *view),
                    request_signature_verifies(r),
                ),
                None => old(stats).err_malformed < usize::MAX,
            },
        ensures
            match request {
                Some(r) => {
                    let check = packet_check_of(r, address_valid, *view);
                    &&& taken == packet_taken(true, check)
                    &&& *final(stats) == stats_after_packet(
                        *old(stats),
                        true,
                        check,
                        request_signature_verifies(r),
                    )
                    &&& taken ==> final(self).spec_requests() == old(self).spec_requests().push(
                        RepairRequestWithMeta {
                            request: (r, from),
                            stake: check.stake,
                            whitelisted: check.whitelisted,
                        },
                    )
                    &&& !taken ==> final(self).spec_requests() == old(self).spec_requests()
                    &&& final(self).spec_whitelisted_count() == old(self).spec_whitelisted_count()
                        + if taken && check.whitelisted {
                        1nat
                    } else {
                        0nat
                    }
                },
                None => {
                    &&& !taken
                    &&& *final(stats) == stats_after_packet(
                        *old(stats),
                        false,
                        undecoded_check(address_valid),
                        true,
                    )
                    &&& final(self).spec_requests() == old(self).spec_requests()
                    &&& final(self).spec_whitelisted_count() == old(self).spec_whitelisted_count()
                },
            },
    {
        match request {
            None => self.record_packet(stats, None, undecoded(address_valid), true),
            Some(r) => {
                let check = packet_check(&r, address_valid, view);
                let signature_ok = if address_valid && check.signed {
                    verify_request_signature(&r)
                } else {
                    true
                };
                self.record_packet(stats, Some((r, from)), check, signature_ok)
            },
        }
    }
}

fn undecoded(address_valid: bool) -> (c: PacketCheck)
    ensures
        c == undecoded_check(address_valid),
{
    PacketCheck { address_valid, signed: false, from_self: false, stake: 0, whitelisted: false }
}

} // verus!
