//! The payloads of vote instructions, their mathematical models, and their
//! decoding from instruction data.
use vstd::prelude::*;
use crate::keys::{BankHash, Pubkey};
use crate::wire::{
    agrees, agrees_view, bytes32_at, le_u32, le_u64, option_i64_at, option_u64_at, read_bytes32,
    read_option_i64, read_option_u64, read_string, read_u32, read_u64, read_u64_list, read_u8,
    read_short_u16, read_varint_u64, short_u16_at, string_at, u32_at, u64_at, u64_list_at, u8_at,
    varint_at, lemma_bytes32_at_prefix, lemma_le_u64_prefix, lemma_option_i64_at_prefix,
    lemma_option_u64_at_prefix, lemma_short_u16_at_prefix, lemma_string_at_prefix,
    lemma_u32_at_prefix, lemma_u64_at_prefix, lemma_u64_list_at_prefix, lemma_u8_at_prefix,
    lemma_varint_at_prefix,
};

verus! {

/// Which authority of a vote account an instruction changes.
#[derive(Clone, Copy, Debug, PartialEq, Eq, Structural)]
pub enum VoteAuthorize {
    Voter,
    Withdrawer,
}

/// A slot a validator voted on and how many votes have been stacked on it.
#[derive(Clone, Copy, Debug, PartialEq, Eq, Structural)]
pub struct Lockout {
    pub slot: u64,
    pub confirmation_count: u32,
}

#[derive(Clone, Copy, Debug, PartialEq, Eq)]
pub struct VoteInit {
    pub node_pubkey: Pubkey,
    pub authorized_voter: Pubkey,
    pub authorized_withdrawer: Pubkey,
    pub commission: u8,
}

#[derive(Clone, Debug, PartialEq, Eq)]
pub struct Vote {
    /// The voted slots, oldest first.
    pub slots: Vec<u64>,
    /// The bank hash of the last voted slot.
    pub hash: BankHash,
    pub timestamp: Option<i64>,
}

#[derive(Clone, Debug, PartialEq, Eq)]
pub struct VoteStateUpdate {
    /// The proposed tower.
    pub lockouts: Vec<Lockout>,
    /// The proposed root.
    pub root: Option<u64>,
    pub hash: BankHash,
    pub timestamp: Option<i64>,
}

#[derive(Clone, Debug, PartialEq, Eq)]
pub struct VoteAuthorizeWithSeedArgs {
    pub authorization_type: VoteAuthorize,
    pub current_authority_derived_key_owner: Pubkey,
    pub current_authority_derived_key_seed: String,
    pub new_authority: Pubkey,
}

#[derive(Clone, Debug, PartialEq, Eq)]
pub struct VoteAuthorizeCheckedWithSeedArgs {
    pub authorization_type: VoteAuthorize,
    pub current_authority_derived_key_owner: Pubkey,
    pub current_authority_derived_key_seed: String,
}

pub struct VoteInitModel {
    pub node_pubkey: Seq<u8>,
    pub authorized_voter: Seq<u8>,
    pub authorized_withdrawer: Seq<u8>,
    pub commission: u8,
}

pub struct VoteModel {
    pub slots: Seq<u64>,
    pub hash: Seq<u8>,
    pub timestamp: Option<i64>,
}

pub struct VoteStateUpdateModel {
    pub lockouts: Seq<Lockout>,
    pub root: Option<u64>,
    pub hash: Seq<u8>,
    pub timestamp: Option<i64>,
}

pub struct AuthorizeWithSeedModel {
    pub authorization_type: VoteAuthorize,
    pub owner: Seq<u8>,
    pub seed: Seq<char>,
    pub new_authority: Seq<u8>,
}

pub struct AuthorizeCheckedWithSeedModel {
    pub authorization_type: VoteAuthorize,
    pub owner: Seq<u8>,
    pub seed: Seq<char>,
}

impl View for VoteInit {
    type V = VoteInitModel;

    open spec fn view(&self) -> VoteInitModel {
        VoteInitModel {
            node_pubkey: self.node_pubkey@,
            authorized_voter: self.authorized_voter@,
            authorized_withdrawer: self.authorized_withdrawer@,
            commission: self.commission,
        }
    }
}

impl View for Vote {
    type V = VoteModel;

    open spec fn view(&self) -> VoteModel {
        VoteModel { slots: self.slots@, hash: self.hash@, timestamp: self.timestamp }
    }
}

impl View for VoteStateUpdate {
    type V = VoteStateUpdateModel;

    open spec fn view(&self) -> VoteStateUpdateModel {
        VoteStateUpdateModel {
            lockouts: self.lockouts@,
            root: self.root,
            hash: self.hash@,
            timestamp: self.timestamp,
        }
    }
}

impl View for VoteAuthorizeWithSeedArgs {
    type V = AuthorizeWithSeedModel;

    open spec fn view(&self) -> AuthorizeWithSeedModel {
        AuthorizeWithSeedModel {
            authorization_type: self.authorization_type,
            owner: self.current_authority_derived_key_owner@,
            seed: self.current_authority_derived_key_seed@,
            new_authority: self.new_authority@,
        }
    }
}

impl View for VoteAuthorizeCheckedWithSeedArgs {
    type V = AuthorizeCheckedWithSeedModel;

    open spec fn view(&self) -> AuthorizeCheckedWithSeedModel {
        AuthorizeCheckedWithSeedModel {
            authorization_type: self.authorization_type,
            owner: self.current_authority_derived_key_owner@,
            seed: self.current_authority_derived_key_seed@,
        }
    }
}

/// An enum variant index: `0` is `Voter`, `1` is `Withdrawer`.
pub open spec fn vote_authorize_at(s: Seq<u8>, p: int) -> Option<(VoteAuthorize, int)> {
    match u32_at(s, p) {
        Some((0u32, q)) => Some((VoteAuthorize::Voter, q)),
        Some((1u32, q)) => Some((VoteAuthorize::Withdrawer, q)),
        _ => None,
    }
}

pub open spec fn vote_init_at(s: Seq<u8>, p: int) -> Option<(VoteInitModel, int)> {
    match bytes32_at(s, p) {
        None => None,
        Some((node, p1)) => match bytes32_at(s, p1) {
            None => None,
            Some((voter, p2)) => match bytes32_at(s, p2) {
                None => None,
                Some((withdrawer, p3)) => match u8_at(s, p3) {
                    None => None,
                    Some((commission, p4)) => Some(
                        (
                            VoteInitModel {
                                node_pubkey: node,
                                authorized_voter: voter,
                                authorized_withdrawer: withdrawer,
                                commission,
                            },
                            p4,
                        ),
                    ),
                },
            },
        },
    }
}

pub open spec fn vote_at(s: Seq<u8>, p: int) -> Option<(VoteModel, int)> {
    match u64_list_at(s, p) {
        None => None,
        Some((slots, p1)) => match bytes32_at(s, p1) {
            None => None,
            Some((hash, p2)) => match option_i64_at(s, p2) {
                None => None,
                Some((timestamp, p3)) => Some((VoteModel { slots, hash, timestamp }, p3)),
            },
        },
    }
}

/// The lockout stored at `p`: its slot, then its confirmation count.
pub open spec fn lockout_at_index(s: Seq<u8>, p: int) -> Lockout {
    Lockout {
        slot: le_u64(s, p),
        confirmation_count: le_u32(s[p + 8], s[p + 9], s[p + 10], s[p + 11]),
    }
}

/// A `u64` count followed by that many lockouts of twelve bytes each.
pub open spec fn lockout_list_at(s: Seq<u8>, p: int) -> Option<(Seq<Lockout>, int)> {
    match u64_at(s, p) {
        Some((n, q)) => if q + 12 * n <= s.len() {
            Some((Seq::new(n as nat, |i: int| lockout_at_index(s, q + 12 * i)), q + 12 * n))
        } else {
            None
        },
        None => None,
    }
}

pub open spec fn vote_state_update_at(s: Seq<u8>, p: int) -> Option<(VoteStateUpdateModel, int)> {
    match lockout_list_at(s, p) {
        None => None,
        Some((lockouts, p1)) => match option_u64_at(s, p1) {
            None => None,
            Some((root, p2)) => match bytes32_at(s, p2) {
                None => None,
                Some((hash, p3)) => match option_i64_at(s, p3) {
                    None => None,
                    Some((timestamp, p4)) => Some(
                        (VoteStateUpdateModel { lockouts, root, hash, timestamp }, p4),
                    ),
                },
            },
        },
    }
}

pub open spec fn authorize_with_seed_at(s: Seq<u8>, p: int) -> Option<(AuthorizeWithSeedModel, int)> {
    match vote_authorize_at(s, p) {
        None => None,
        Some((authorization_type, p1)) => match bytes32_at(s, p1) {
            None => None,
            Some((owner, p2)) => match string_at(s, p2) {
                None => None,
                Some((seed, p3)) => match bytes32_at(s, p3) {
                    None => None,
                    Some((new_authority, p4)) => Some(
                        (AuthorizeWithSeedModel { authorization_type, owner, seed, new_authority }, p4),
                    ),
                },
            },
        },
    }
}

pub open spec fn authorize_checked_with_seed_at(s: Seq<u8>, p: int) -> Option<
    (AuthorizeCheckedWithSeedModel, int),
> {
    match vote_authorize_at(s, p) {
        None => None,
        Some((authorization_type, p1)) => match bytes32_at(s, p1) {
            None => None,
            Some((owner, p2)) => match string_at(s, p2) {
                None => None,
                Some((seed, p3)) => Some(
                    (AuthorizeCheckedWithSeedModel { authorization_type, owner, seed }, p3),
                ),
            },
        },
    }
}

pub fn read_vote_authorize(data: &[u8], pos: usize) -> (res: Option<(VoteAuthorize, usize)>)
    ensures
        agrees(res, vote_authorize_at(data@, pos as int)),
{
    match read_u32(data, pos) {
        Some((0u32, q)) => Some((VoteAuthorize::Voter, q)),
        Some((1u32, q)) => Some((VoteAuthorize::Withdrawer, q)),
        _ => None,
    }
}

pub fn read_pubkey(data: &[u8], pos: usize) -> (res: Option<(Pubkey, usize)>)
    ensures
        agrees_view(res, bytes32_at(data@, pos as int)),
{
    match read_bytes32(data, pos) {
        Some((a, q)) => Some((Pubkey(a), q)),
        None => None,
    }
}

pub fn read_hash(data: &[u8], pos: usize) -> (res: Option<(BankHash, usize)>)
    ensures
        agrees_view(res, bytes32_at(data@, pos as int)),
{
    match read_bytes32(data, pos) {
        Some((a, q)) => Some((BankHash(a), q)),
        None => None,
    }
}

pub fn read_vote_init(data: &[u8], pos: usize) -> (res: Option<(VoteInit, usize)>)
    ensures
        agrees_view(res, vote_init_at(data@, pos as int)),
{
    let (node_pubkey, p1) = match read_pubkey(data, pos) {
        Some(r) => r,
        None => return None,
    };
    let (authorized_voter, p2) = match read_pubkey(data, p1) {
        Some(r) => r,
        None => return None,
    };
    let (authorized_withdrawer, p3) = match read_pubkey(data, p2) {
        Some(r) => r,
        None => return None,
    };
    let (commission, p4) = match read_u8(data, p3) {
        Some(r) => r,
        None => return None,
    };
    Some((VoteInit { node_pubkey, authorized_voter, authorized_withdrawer, commission }, p4))
}

pub fn read_vote(data: &[u8], pos: usize) -> (res: Option<(Vote, usize)>)
    ensures
        agrees_view(res, vote_at(data@, pos as int)),
{
    let (slots, p1) = match read_u64_list(data, pos) {
        Some(r) => r,
        None => return None,
    };
    let (hash, p2) = match read_hash(data, p1) {
        Some(r) => r,
        None => return None,
    };
    let (timestamp, p3) = match read_option_i64(data, p2) {
        Some(r) => r,
        None => return None,
    };
    Some((Vote { slots, hash, timestamp }, p3))
}

pub fn read_lockout_list(data: &[u8], pos: usize) -> (res: Option<(Vec<Lockout>, usize)>)
    ensures
        agrees_view(res, lockout_list_at(data@, pos as int)),
{
    let (n, q) = match read_u64(data, pos) {
        Some(r) => r,
        None => return None,
    };
    let room = (data.len() - q) as u64 / 12;
    if n > room {
        assert(q + 12 * n > data@.len()) by (nonlinear_arith)
            requires
                n > room,
                room == (data@.len() - q) / 12,
                q <= data@.len(),
        ;
        return None;
    }
    assert(q + 12 * n <= data@.len()) by (nonlinear_arith)
        requires
            n <= room,
            room == (data@.len() - q) / 12,
            q <= data@.len(),
    ;
    let count = n as usize;
    let mut items: Vec<Lockout> = Vec::new();
    let mut i: usize = 0;
    while i < count
        invariant
            i <= count,
            count == n,
            q + 12 * n <= data@.len(),
            data@.len() <= usize::MAX,
            items@ =~= Seq::new(i as nat, |j: int| lockout_at_index(data@, q + 12 * j)),
        decreases count - i,
    {
        assert(q + 12 * i + 12 <= data@.len() && 12 * i <= 12 * n) by (nonlinear_arith)
            requires
                i < n,
                q + 12 * n <= data@.len(),
        ;
        let at = q + 12 * i;
        let (slot, r) = match read_u64(data, at) {
            Some(x) => x,
            None => return None,
        };
        let (confirmation_count, _) = match read_u32(data, r) {
            Some(x) => x,
            None => return None,
        };
        items.push(Lockout { slot, confirmation_count });
        i = i + 1;
    }
    Some((items, q + 12 * count))
}

pub fn read_vote_state_update(data: &[u8], pos: usize) -> (res: Option<(VoteStateUpdate, usize)>)
    ensures
        agrees_view(res, vote_state_update_at(data@, pos as int)),
{
    let (lockouts, p1) = match read_lockout_list(data, pos) {
        Some(r) => r,
        None => return None,
    };
    let (root, p2) = match read_option_u64(data, p1) {
        Some(r) => r,
        None => return None,
    };
    let (hash, p3) = match read_hash(data, p2) {
        Some(r) => r,
        None => return None,
    };
    let (timestamp, p4) = match read_option_i64(data, p3) {
        Some(r) => r,
        None => return None,
    };
    Some((VoteStateUpdate { lockouts, root, hash, timestamp }, p4))
}

pub fn read_authorize_with_seed(data: &[u8], pos: usize) -> (res: Option<
    (VoteAuthorizeWithSeedArgs, usize),
>)
    ensures
        agrees_view(res, authorize_with_seed_at(data@, pos as int)),
{
    let (authorization_type, p1) = match read_vote_authorize(data, pos) {
        Some(r) => r,
        None => return None,
    };
    let (current_authority_derived_key_owner, p2) = match read_pubkey(data, p1) {
        Some(r) => r,
        None => return None,
    };
    let (current_authority_derived_key_seed, p3) = match read_string(data, p2) {
        Some(r) => r,
        None => return None,
    };
    let (new_authority, p4) = match read_pubkey(data, p3) {
        Some(r) => r,
        None => return None,
    };
    Some(
        (
            VoteAuthorizeWithSeedArgs {
                authorization_type,
                current_authority_derived_key_owner,
                current_authority_derived_key_seed,
                new_authority,
            },
            p4,
        ),
    )
}

pub fn read_authorize_checked_with_seed(data: &[u8], pos: usize) -> (res: Option<
    (VoteAuthorizeCheckedWithSeedArgs, usize),
>)
    ensures
        agrees_view(res, authorize_checked_with_seed_at(data@, pos as int)),
{
    let (authorization_type, p1) = match read_vote_authorize(data, pos) {
        Some(r) => r,
        None => return None,
    };
    let (current_authority_derived_key_owner, p2) = match read_pubkey(data, p1) {
        Some(r) => r,
        None => return None,
    };
    let (current_authority_derived_key_seed, p3) = match read_string(data, p2) {
        Some(r) => r,
        None => return None,
    };
    Some(
        (
            VoteAuthorizeCheckedWithSeedArgs {
                authorization_type,
                current_authority_derived_key_owner,
                current_authority_derived_key_seed,
            },
            p3,
        ),
    )
}

/// `n` compact lockouts: each a variable-length slot offset and a one-byte
/// confirmation count.
pub open spec fn lockout_offsets_at(s: Seq<u8>, p: int, n: nat) -> Option<(Seq<(u64, u8)>, int)>
    decreases n,
{
    if n == 0 {
        Some((seq![], p))
    } else {
        match lockout_offsets_at(s, p, (n - 1) as nat) {
            None => None,
            Some((offsets, q)) => match varint_at(s, q) {
                None => None,
                Some((offset, r)) => match u8_at(s, r) {
                    None => None,
                    Some((count, t)) => Some((offsets.push((offset, count)), t)),
                },
            },
        }
    }
}

/// The sum of the slot offsets.
pub open spec fn offset_sum(offsets: Seq<(u64, u8)>) -> int
    decreases offsets.len(),
{
    if offsets.len() == 0 {
        0
    } else {
        offset_sum(offsets.drop_last()) + offsets.last().0
    }
}

/// The lockouts that compact offsets stand for: each slot is `base` plus the
/// offsets up to and including its own.
pub open spec fn lockouts_from_offsets(base: u64, offsets: Seq<(u64, u8)>) -> Seq<Lockout> {
    Seq::new(
        offsets.len(),
        |i: int|
            Lockout {
                slot: (base + offset_sum(offsets.take(i + 1))) as u64,
                confirmation_count: offsets[i].1 as u32,
            },
    )
}

/// The compact form of a vote state update: the root (`u64::MAX` for none),
/// a short vector of lockout offsets from the root (or from zero), the hash
/// and the timestamp. Refused when a lockout slot would pass `u64::MAX`.
pub open spec fn compact_vote_state_update_at(s: Seq<u8>, p: int) -> Option<
    (VoteStateUpdateModel, int),
> {
    match u64_at(s, p) {
        None => None,
        Some((root, p1)) => match short_u16_at(s, p1) {
            None => None,
            Some((n, p2)) => match lockout_offsets_at(s, p2, n as nat) {
                None => None,
                Some((offsets, p3)) => match bytes32_at(s, p3) {
                    None => None,
                    Some((hash, p4)) => match option_i64_at(s, p4) {
                        None => None,
                        Some((timestamp, p5)) => {
                            let base: u64 = if root == u64::MAX {
                                0
                            } else {
                                root
                            };
                            if base + offset_sum(offsets) <= u64::MAX {
                                Some(
                                    (
                                        VoteStateUpdateModel {
                                            lockouts: lockouts_from_offsets(base, offsets),
                                            root: if root == u64::MAX {
                                                None
                                            } else {
                                                Some(root)
                                            },
                                            hash,
                                            timestamp,
                                        },
                                        p5,
                                    ),
                                )
                            } else {
                                None
                            }
                        },
                    },
                },
            },
        },
    }
}

proof fn lemma_lockout_offsets_fail_later(s: Seq<u8>, p: int, i: nat, j: nat)
    requires
        i <= j,
        lockout_offsets_at(s, p, i) is None,
    ensures
        lockout_offsets_at(s, p, j) is None,
    decreases j,
{
    if j > i {
        lemma_lockout_offsets_fail_later(s, p, i, (j - 1) as nat);
    }
}

pub proof fn lemma_offset_sum_take(offsets: Seq<(u64, u8)>, i: int)
    requires
        0 <= i < offsets.len(),
    ensures
        offset_sum(offsets.take(i + 1)) == offset_sum(offsets.take(i)) + offsets[i].0,
{
    assert(offsets.take(i + 1).drop_last() =~= offsets.take(i));
}

pub proof fn lemma_offset_sum_monotone(offsets: Seq<(u64, u8)>, i: int, j: int)
    requires
        0 <= i <= j <= offsets.len(),
    ensures
        offset_sum(offsets.take(i)) <= offset_sum(offsets.take(j)),
    decreases j - i,
{
    if i < j {
        lemma_offset_sum_take(offsets, j - 1);
        lemma_offset_sum_monotone(offsets, i, j - 1);
    }
}

fn read_lockout_offsets(data: &[u8], pos: usize, n: u16) -> (res: Option<(Vec<(u64, u8)>, usize)>)
    ensures
        agrees_view(res, lockout_offsets_at(data@, pos as int, n as nat)),
{
    let mut offsets: Vec<(u64, u8)> = Vec::new();
    let mut at = pos;
    let mut i: u16 = 0;
    while i < n
        invariant
            i <= n,
            lockout_offsets_at(data@, pos as int, i as nat) == Some((offsets@, at as int)),
        decreases n - i,
    {
        let ghost prev = offsets@;
        let (offset, r) = match read_varint_u64(data, at) {
            Some(x) => x,
            None => {
                proof {
                    lemma_lockout_offsets_fail_later(data@, pos as int, (i + 1) as nat, n as nat);
                }
                return None;
            },
        };
        let (count, t) = match read_u8(data, r) {
            Some(x) => x,
            None => {
                proof {
                    lemma_lockout_offsets_fail_later(data@, pos as int, (i + 1) as nat, n as nat);
                }
                return None;
            },
        };
        offsets.push((offset, count));
        at = t;
        i = i + 1;
    }
    Some((offsets, at))
}

/// Turns compact offsets into lockouts, or `None` when a slot passes `u64::MAX`.
fn lockouts_from_offsets_exec(base: u64, offsets: &Vec<(u64, u8)>) -> (res: Option<Vec<Lockout>>)
    ensures
        base + offset_sum(offsets@) <= u64::MAX ==> (res matches Some(l) && l@
            == lockouts_from_offsets(base, offsets@)),
        base + offset_sum(offsets@) > u64::MAX ==> res is None,
{
    let mut lockouts: Vec<Lockout> = Vec::new();
    let mut slot = base;
    let mut i: usize = 0;
    while i < offsets.len()
        invariant
            i <= offsets@.len(),
            slot == base + offset_sum(offsets@.take(i as int)),
            lockouts@ =~= lockouts_from_offsets(base, offsets@).take(i as int),
        decreases offsets@.len() - i,
    {
        proof {
            lemma_offset_sum_take(offsets@, i as int);
            lemma_offset_sum_monotone(offsets@, i + 1, offsets@.len() as int);
            assert(offsets@.take(offsets@.len() as int) =~= offsets@);
        }
        let (offset, count) = offsets[i];
        slot = match slot.checked_add(offset) {
            Some(next) => next,
            None => return None,
        };
        lockouts.push(Lockout { slot, confirmation_count: count as u32 });
        i = i + 1;
    }
    proof {
        assert(offsets@.take(offsets@.len() as int) =~= offsets@);
    }
    Some(lockouts)
}

pub fn read_compact_vote_state_update(data: &[u8], pos: usize) -> (res: Option<
    (VoteStateUpdate, usize),
>)
    ensures
        agrees_view(res, compact_vote_state_update_at(data@, pos as int)),
{
    let (root, p1) = match read_u64(data, pos) {
        Some(r) => r,
        None => return None,
    };
    let (n, p2) = match read_short_u16(data, p1) {
        Some(r) => r,
        None => return None,
    };
    let (offsets, p3) = match read_lockout_offsets(data, p2, n) {
        Some(r) => r,
        None => return None,
    };
    let (hash, p4) = match read_hash(data, p3) {
        Some(r) => r,
        None => return None,
    };
    let (timestamp, p5) = match read_option_i64(data, p4) {
        Some(r) => r,
        None => return None,
    };
    let base = if root == u64::MAX {
        0
    } else {
        root
    };
    let lockouts = match lockouts_from_offsets_exec(base, &offsets) {
        Some(l) => l,
        None => return None,
    };
    let root = if root == u64::MAX {
        None
    } else {
        Some(root)
    };
    Some((VoteStateUpdate { lockouts, root, hash, timestamp }, p5))
}

pub proof fn lemma_vote_authorize_at_prefix(s: Seq<u8>, extra: Seq<u8>, p: int)
    requires
        vote_authorize_at(s, p) is Some,
    ensures
        vote_authorize_at(s + extra, p) == vote_authorize_at(s, p),
{
    lemma_u32_at_prefix(s, extra, p);
}

pub proof fn lemma_vote_init_at_prefix(s: Seq<u8>, extra: Seq<u8>, p: int)
    requires
        vote_init_at(s, p) is Some,
    ensures
        vote_init_at(s + extra, p) == vote_init_at(s, p),
{
    lemma_bytes32_at_prefix(s, extra, p);
    lemma_bytes32_at_prefix(s, extra, p + 32);
    lemma_bytes32_at_prefix(s, extra, p + 64);
    lemma_u8_at_prefix(s, extra, p + 96);
}

pub proof fn lemma_vote_at_prefix(s: Seq<u8>, extra: Seq<u8>, p: int)
    requires
        vote_at(s, p) is Some,
    ensures
        vote_at(s + extra, p) == vote_at(s, p),
{
    lemma_u64_list_at_prefix(s, extra, p);
    let p1 = u64_list_at(s, p).unwrap().1;
    lemma_bytes32_at_prefix(s, extra, p1);
    lemma_option_i64_at_prefix(s, extra, p1 + 32);
}

proof fn lemma_lockout_list_at_prefix(s: Seq<u8>, extra: Seq<u8>, p: int)
    requires
        lockout_list_at(s, p) is Some,
    ensures
        lockout_list_at(s + extra, p) == lockout_list_at(s, p),
{
    lemma_u64_at_prefix(s, extra, p);
    let (n, q) = u64_at(s, p).unwrap();
    assert forall|i: int| 0 <= i < n implies #[trigger] lockout_at_index(s + extra, q + 12 * i)
        == lockout_at_index(s, q + 12 * i) by {
        assert(q + 12 * i + 12 <= q + 12 * n) by (nonlinear_arith)
            requires
                0 <= i < n,
        ;
        lemma_le_u64_prefix(s, extra, q + 12 * i);
    }
    assert(Seq::new(n as nat, |i: int| lockout_at_index(s + extra, q + 12 * i)) =~= Seq::new(
        n as nat,
        |i: int| lockout_at_index(s, q + 12 * i),
    ));
}

pub proof fn lemma_vote_state_update_at_prefix(s: Seq<u8>, extra: Seq<u8>, p: int)
    requires
        vote_state_update_at(s, p) is Some,
    ensures
        vote_state_update_at(s + extra, p) == vote_state_update_at(s, p),
{
    lemma_lockout_list_at_prefix(s, extra, p);
    let p1 = lockout_list_at(s, p).unwrap().1;
    lemma_option_u64_at_prefix(s, extra, p1);
    let p2 = option_u64_at(s, p1).unwrap().1;
    lemma_bytes32_at_prefix(s, extra, p2);
    lemma_option_i64_at_prefix(s, extra, p2 + 32);
}

pub proof fn lemma_authorize_with_seed_at_prefix(s: Seq<u8>, extra: Seq<u8>, p: int)
    requires
        authorize_with_seed_at(s, p) is Some,
    ensures
        authorize_with_seed_at(s + extra, p) == authorize_with_seed_at(s, p),
{
    lemma_vote_authorize_at_prefix(s, extra, p);
    lemma_bytes32_at_prefix(s, extra, p + 4);
    lemma_string_at_prefix(s, extra, p + 36);
    let p3 = string_at(s, p + 36).unwrap().1;
    lemma_bytes32_at_prefix(s, extra, p3);
}

pub proof fn lemma_authorize_checked_with_seed_at_prefix(s: Seq<u8>, extra: Seq<u8>, p: int)
    requires
        authorize_checked_with_seed_at(s, p) is Some,
    ensures
        authorize_checked_with_seed_at(s + extra, p) == authorize_checked_with_seed_at(s, p),
{
    lemma_vote_authorize_at_prefix(s, extra, p);
    lemma_bytes32_at_prefix(s, extra, p + 4);
    lemma_string_at_prefix(s, extra, p + 36);
}

proof fn lemma_lockout_offsets_at_prefix(s: Seq<u8>, extra: Seq<u8>, p: int, n: nat)
    requires
        lockout_offsets_at(s, p, n) is Some,
    ensures
        lockout_offsets_at(s + extra, p, n) == lockout_offsets_at(s, p, n),
    decreases n,
{
    if n > 0 {
        lemma_lockout_offsets_at_prefix(s, extra, p, (n - 1) as nat);
        let q = lockout_offsets_at(s, p, (n - 1) as nat).unwrap().1;
        lemma_varint_at_prefix(s, extra, q);
        let r = varint_at(s, q).unwrap().1;
        lemma_u8_at_prefix(s, extra, r);
    }
}

pub proof fn lemma_compact_vote_state_update_at_prefix(s: Seq<u8>, extra: Seq<u8>, p: int)
    requires
        compact_vote_state_update_at(s, p) is Some,
    ensures
        compact_vote_state_update_at(s + extra, p) == compact_vote_state_update_at(s, p),
{
    lemma_u64_at_prefix(s, extra, p);
    lemma_short_u16_at_prefix(s, extra, p + 8);
    let (n, p2) = short_u16_at(s, p + 8).unwrap();
    lemma_lockout_offsets_at_prefix(s, extra, p2, n as nat);
    let p3 = lockout_offsets_at(s, p2, n as nat).unwrap().1;
    lemma_bytes32_at_prefix(s, extra, p3);
    lemma_option_i64_at_prefix(s, extra, p3 + 32);
}

} // verus!
