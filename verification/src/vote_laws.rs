//! What parsing and decoding vote instructions give, stated over the bytes of
//! the instruction data.
use vstd::prelude::*;
use crate::json::Json;
use crate::keys::Pubkey;
use crate::parse_vote::{parse_vote_spec, vote_instruction_info, vote_json, vote_state_update_json};
use crate::vote_instruction::{vote_instruction_of, VoteInstructionModel};
use crate::vote_state::{
    compact_vote_state_update_at, lemma_offset_sum_monotone, lemma_offset_sum_take,
    lockout_offsets_at, lockouts_from_offsets, offset_sum, Lockout, VoteModel,
    VoteStateUpdateModel,
};
use crate::wire::{le_u32, le_u64, short_u16_at, u32_at, u64_at, u8_at};

verus! {

/// The text of an authority kind's variant index: `0` is `"Voter"`, any other
/// `"Withdrawer"`.
pub open spec fn authority_kind_text(kind: u32) -> Seq<char> {
    if kind == 0 {
        "Voter"@
    } else {
        "Withdrawer"@
    }
}

/// The two authority kinds are reported under different names.
pub proof fn lemma_authority_kind_texts_differ()
    ensures
        authority_kind_text(0) != authority_kind_text(1),
{
    reveal_strlit("Voter");
    reveal_strlit("Withdrawer");
    assert(authority_kind_text(0).len() != authority_kind_text(1).len());
}

/// A parsed `Authorize` instruction (variant index 1, then the new authority's
/// 32 bytes, then the authority kind) reports the kind that its bytes give as
/// its fifth member, `authorityType`.
pub proof fn lemma_authorize_reports_authority_kind(
    data: Seq<u8>,
    accounts: Seq<u8>,
    keys: Seq<Pubkey>,
    kind: u32,
)
    requires
        u32_at(data, 0) == Some((1u32, 4int)),
        u32_at(data, 36) == Some((kind, 40int)),
        kind <= 1,
    ensures
        parse_vote_spec(data, accounts, keys) matches Ok((name, info)) ==> info matches Json::Object(
            fields,
        ) && fields.len() == 5 && fields[4] == ("authorityType"@, Json::Text(
            authority_kind_text(kind),
        )),
{
}

/// A parsed `AuthorizeChecked` instruction (variant index 7, then the authority
/// kind) reports that kind as its fifth member, `authorityType`.
pub proof fn lemma_authorize_checked_reports_authority_kind(
    data: Seq<u8>,
    accounts: Seq<u8>,
    keys: Seq<Pubkey>,
    kind: u32,
)
    requires
        u32_at(data, 0) == Some((7u32, 4int)),
        u32_at(data, 4) == Some((kind, 8int)),
        kind <= 1,
    ensures
        parse_vote_spec(data, accounts, keys) matches Ok((name, info)) ==> info matches Json::Object(
            fields,
        ) && fields.len() == 5 && fields[4] == ("authorityType"@, Json::Text(
            authority_kind_text(kind),
        )),
{
}

/// A parsed `AuthorizeWithSeed` (variant index 10) or `AuthorizeCheckedWithSeed`
/// (variant index 11) instruction, whose arguments begin with the authority
/// kind, reports that kind as its seventh member, `authorityType`.
pub proof fn lemma_authorize_with_seed_reports_authority_kind(
    data: Seq<u8>,
    accounts: Seq<u8>,
    keys: Seq<Pubkey>,
    tag: u32,
    kind: u32,
)
    requires
        tag == 10 || tag == 11,
        u32_at(data, 0) == Some((tag, 4int)),
        u32_at(data, 4) == Some((kind, 8int)),
        kind <= 1,
    ensures
        parse_vote_spec(data, accounts, keys) matches Ok((name, info)) ==> info matches Json::Object(
            fields,
        ) && fields.len() == 7 && fields[6] == ("authorityType"@, Json::Text(
            authority_kind_text(kind),
        )),
{
}

/// The `i`-th member of a JSON object (an empty key and `Null` when there is none).
pub open spec fn member(j: Json, i: int) -> (Seq<char>, Json) {
    match j {
        Json::Object(fields) => if 0 <= i < fields.len() {
            fields[i]
        } else {
            (seq![], Json::Null)
        },
        _ => (seq![], Json::Null),
    }
}

/// The items of a JSON array (none when it is no array).
pub open spec fn items(j: Json) -> Seq<Json> {
    match j {
        Json::Array(a) => a,
        _ => seq![],
    }
}

/// The vote state update that a decoded instruction carries, if any.
pub open spec fn carried_update(ix: VoteInstructionModel) -> Option<VoteStateUpdateModel> {
    match ix {
        VoteInstructionModel::UpdateVoteState(u) => Some(u),
        VoteInstructionModel::UpdateVoteStateSwitch(u, _) => Some(u),
        VoteInstructionModel::CompactUpdateVoteState(u) => Some(u),
        VoteInstructionModel::CompactUpdateVoteStateSwitch(u, _) => Some(u),
        _ => None,
    }
}

/// The lockout whose twelve bytes start at `p`: the slot (eight bytes), then
/// the confirmation count (four bytes), both little-endian.
pub open spec fn lockout_bytes(data: Seq<u8>, p: int) -> Lockout {
    Lockout {
        slot: le_u64(data, p),
        confirmation_count: le_u32(data[p + 8], data[p + 9], data[p + 10], data[p + 11]),
    }
}

/// A decoded `UpdateVoteState` (variant index 8) or `UpdateVoteStateSwitch`
/// (variant index 9) instruction carries exactly as many lockouts as the `u64`
/// count after the variant index gives, each read from its twelve bytes in
/// turn, and the root that the option after them gives.
pub proof fn lemma_update_vote_state_decodes_every_lockout_and_the_root(
    data: Seq<u8>,
    tag: u32,
    n: u64,
)
    requires
        tag == 8 || tag == 9,
        u32_at(data, 0) == Some((tag, 4int)),
        u64_at(data, 4) == Some((n, 12int)),
    ensures
        vote_instruction_of(data) matches Some(ix) ==> {
            let p = 12 + 12 * n;
            &&& carried_update(ix) is Some
            &&& carried_update(ix)->0.lockouts.len() == n
            &&& forall|i: int|
                0 <= i < n ==> #[trigger] carried_update(ix)->0.lockouts[i] == lockout_bytes(
                    data,
                    12 + 12 * i,
                )
            &&& data[p] == 0 ==> carried_update(ix)->0.root == None::<u64>
            &&& data[p] == 1 ==> carried_update(ix)->0.root == Some(le_u64(data, p + 1))
        },
{
}

/// A parsed `UpdateVoteState` instruction (variant index 8) reports, as its
/// third member `voteStateUpdate`, an object whose `lockouts` lists every
/// lockout of the data (as many as the `u64` count gives, each with its slot
/// and confirmation count) and whose `root` is the root of the data: `null`
/// when the option is none, the number otherwise.
pub proof fn lemma_update_vote_state_reports_lockouts_and_root(
    data: Seq<u8>,
    accounts: Seq<u8>,
    keys: Seq<Pubkey>,
    n: u64,
)
    requires
        u32_at(data, 0) == Some((8u32, 4int)),
        u64_at(data, 4) == Some((n, 12int)),
    ensures
        parse_vote_spec(data, accounts, keys) matches Ok((name, info)) ==> {
            let p = 12 + 12 * n;
            let update = member(info, 2).1;
            let lockouts = items(member(update, 0).1);
            &&& member(info, 2).0 == "voteStateUpdate"@
            &&& member(update, 0).0 == "lockouts"@
            &&& lockouts.len() == n
            &&& forall|i: int|
                0 <= i < n ==> #[trigger] lockouts[i] == Json::Object(
                    seq![
                        ("slot"@, Json::Unsigned(lockout_bytes(data, 12 + 12 * i).slot)),
                        (
                            "confirmation_count"@,
                            Json::Unsigned(lockout_bytes(data, 12 + 12 * i).confirmation_count as u64),
                        ),
                    ],
                )
            &&& member(update, 1).0 == "root"@
            &&& data[p] == 0 ==> member(update, 1).1 == Json::Null
            &&& data[p] == 1 ==> member(update, 1).1 == Json::Unsigned(le_u64(data, p + 1))
        },
{
}

/// A parsed instruction that carries a vote state update (plain, switch,
/// compact or compact switch) reports, as its third member `voteStateUpdate`,
/// an object whose `lockouts` lists every lockout of the decoded update, in
/// order, each with its slot and confirmation count, and whose `root` is the
/// update's root: the number when there is one, `null` only when there is none.
pub proof fn lemma_parsed_update_reports_every_lockout_and_the_root(
    data: Seq<u8>,
    accounts: Seq<u8>,
    keys: Seq<Pubkey>,
)
    ensures
        parse_vote_spec(data, accounts, keys) matches Ok((name, info)) ==> (vote_instruction_of(
            data,
        ) matches Some(ix) ==> (carried_update(ix) matches Some(u) ==> {
            let update = member(info, 2).1;
            let lockouts = items(member(update, 0).1);
            &&& member(info, 2).0 == "voteStateUpdate"@
            &&& member(update, 0).0 == "lockouts"@
            &&& lockouts.len() == u.lockouts.len()
            &&& forall|i: int|
                0 <= i < u.lockouts.len() ==> #[trigger] lockouts[i] == Json::Object(
                    seq![
                        ("slot"@, Json::Unsigned(u.lockouts[i].slot)),
                        ("confirmation_count"@, Json::Unsigned(u.lockouts[i].confirmation_count as u64)),
                    ],
                )
            &&& member(update, 1).0 == "root"@
            &&& u.root is None ==> member(update, 1).1 == Json::Null
            &&& u.root matches Some(r) ==> member(update, 1).1 == Json::Unsigned(r)
        })),
{
    if let Ok((name, info)) = parse_vote_spec(data, accounts, keys) {
        let ix = vote_instruction_of(data).unwrap();
        if let Some(u) = carried_update(ix) {
            assert(info == vote_instruction_info(ix, accounts, keys));
            assert(member(info, 2) == ("voteStateUpdate"@, vote_state_update_json(u))) by {
                match ix {
                    VoteInstructionModel::UpdateVoteState(_) => {},
                    VoteInstructionModel::UpdateVoteStateSwitch(_, _) => {},
                    VoteInstructionModel::CompactUpdateVoteState(_) => {},
                    VoteInstructionModel::CompactUpdateVoteStateSwitch(_, _) => {},
                    _ => {},
                }
            }
        }
    }
}

/// The vote that a decoded instruction carries, if any.
pub open spec fn carried_vote(ix: VoteInstructionModel) -> Option<VoteModel> {
    match ix {
        VoteInstructionModel::Vote(v) => Some(v),
        VoteInstructionModel::VoteSwitch(v, _) => Some(v),
        _ => None,
    }
}

/// A decoded `Vote` (variant index 2) or `VoteSwitch` (variant index 6)
/// instruction carries exactly as many slots as the `u64` count after the
/// variant index gives, each read from its eight little-endian bytes in turn.
pub proof fn lemma_vote_decodes_every_slot(data: Seq<u8>, tag: u32, n: u64)
    requires
        tag == 2 || tag == 6,
        u32_at(data, 0) == Some((tag, 4int)),
        u64_at(data, 4) == Some((n, 12int)),
    ensures
        vote_instruction_of(data) matches Some(ix) ==> {
            &&& carried_vote(ix) is Some
            &&& carried_vote(ix)->0.slots.len() == n
            &&& forall|i: int|
                0 <= i < n ==> #[trigger] carried_vote(ix)->0.slots[i] == le_u64(data, 12 + 8 * i)
        },
{
}

/// A parsed `Vote` or `VoteSwitch` instruction reports, as its fifth member
/// `vote`, an object whose `slots` lists every slot of the decoded vote, in
/// order.
pub proof fn lemma_parsed_vote_reports_every_slot(
    data: Seq<u8>,
    accounts: Seq<u8>,
    keys: Seq<Pubkey>,
)
    ensures
        parse_vote_spec(data, accounts, keys) matches Ok((name, info)) ==> (vote_instruction_of(
            data,
        ) matches Some(ix) ==> (carried_vote(ix) matches Some(v) ==> {
            let slots = items(member(member(info, 4).1, 0).1);
            &&& member(info, 4).0 == "vote"@
            &&& member(member(info, 4).1, 0).0 == "slots"@
            &&& slots.len() == v.slots.len()
            &&& forall|i: int| 0 <= i < v.slots.len() ==> #[trigger] slots[i] == Json::Unsigned(v.slots[i])
        })),
{
    if let Ok((name, info)) = parse_vote_spec(data, accounts, keys) {
        let ix = vote_instruction_of(data).unwrap();
        if let Some(v) = carried_vote(ix) {
            assert(info == vote_instruction_info(ix, accounts, keys));
            assert(member(info, 4) == ("vote"@, vote_json(v))) by {
                match ix {
                    VoteInstructionModel::Vote(_) => {},
                    VoteInstructionModel::VoteSwitch(_, _) => {},
                    _ => {},
                }
            }
        }
    }
}

/// `n` compact lockouts decode to `n` (offset, count) pairs.
pub proof fn lemma_lockout_offsets_count(s: Seq<u8>, p: int, n: nat)
    requires
        lockout_offsets_at(s, p, n) is Some,
    ensures
        lockout_offsets_at(s, p, n).unwrap().0.len() == n,
    decreases n,
{
    if n > 0 {
        lemma_lockout_offsets_count(s, p, (n - 1) as nat);
    }
}

/// The facts of [`lemma_compact_update_decodes_every_lockout`], for the compact
/// update itself.
proof fn lemma_compact_update_lockouts(data: Seq<u8>, root: u64, count: u16, p2: int)
    requires
        u64_at(data, 4) == Some((root, 12int)),
        short_u16_at(data, 12) == Some((count, p2)),
        compact_vote_state_update_at(data, 4) is Some,
    ensures
        ({
            let u = compact_vote_state_update_at(data, 4).unwrap().0;
            let offsets = lockout_offsets_at(data, p2, count as nat).unwrap().0;
            let base: int = if root == u64::MAX {
                0
            } else {
                root as int
            };
            &&& u.lockouts.len() == count
            &&& offsets.len() == count
            &&& count > 0 ==> u.lockouts[0].slot == base + offsets[0].0
            &&& forall|i: int|
                0 <= i < count ==> (#[trigger] u.lockouts[i]).confirmation_count == offsets[i].1
            &&& forall|i: int|
                0 < i < count ==> (#[trigger] u.lockouts[i]).slot == u.lockouts[i - 1].slot
                    + offsets[i].0
            &&& u.root == if root == u64::MAX {
                None
            } else {
                Some(root)
            }
        }),
{
    lemma_lockout_offsets_count(data, p2, count as nat);
    let offsets = lockout_offsets_at(data, p2, count as nat).unwrap().0;
    let base: u64 = if root == u64::MAX {
        0
    } else {
        root
    };
    let u = compact_vote_state_update_at(data, 4).unwrap().0;
    assert(base + offset_sum(offsets) <= u64::MAX);
    assert(u.lockouts == lockouts_from_offsets(base, offsets));
    assert(offsets.take(0) =~= Seq::<(u64, u8)>::empty());
    assert(offsets.take(offsets.len() as int) =~= offsets);
    assert forall|i: int| 0 <= i < count implies base + offset_sum(#[trigger] offsets.take(i + 1))
        <= u64::MAX && offset_sum(offsets.take(i + 1)) == offset_sum(offsets.take(i))
        + offsets[i].0 by {
        lemma_offset_sum_take(offsets, i);
        lemma_offset_sum_monotone(offsets, i + 1, offsets.len() as int);
    }
    if count > 0 {
        lemma_offset_sum_take(offsets, 0);
        lemma_offset_sum_monotone(offsets, 1, offsets.len() as int);
    }
    assert forall|i: int| 0 < i < count implies (#[trigger] u.lockouts[i]).slot == u.lockouts[i
        - 1].slot + offsets[i].0 by {
        lemma_offset_sum_take(offsets, i);
        lemma_offset_sum_monotone(offsets, 0, i);
        lemma_offset_sum_monotone(offsets, i, offsets.len() as int);
        lemma_offset_sum_monotone(offsets, i + 1, offsets.len() as int);
        assert((i - 1) + 1 == i);
        assert(u.lockouts[i - 1].slot == (base + offset_sum(offsets.take(i))) as u64);
        assert(u.lockouts[i].slot == (base + offset_sum(offsets.take(i + 1))) as u64);
    }
}

/// A decoded `CompactUpdateVoteState` (variant index 12) or
/// `CompactUpdateVoteStateSwitch` (variant index 13) instruction carries one
/// lockout per compact offset, as many as the short-vector count gives. The
/// first lockout's slot is the base (the root, or zero when the root is
/// `u64::MAX`) plus the first offset; each further slot is the one before plus
/// its own offset; each confirmation count is the pair's count. The root is
/// none exactly when the stored root is `u64::MAX`.
pub proof fn lemma_compact_update_decodes_every_lockout(
    data: Seq<u8>,
    tag: u32,
    root: u64,
    count: u16,
    p2: int,
)
    requires
        tag == 12 || tag == 13,
        u32_at(data, 0) == Some((tag, 4int)),
        u64_at(data, 4) == Some((root, 12int)),
        short_u16_at(data, 12) == Some((count, p2)),
    ensures
        vote_instruction_of(data) matches Some(ix) ==> {
            let u = carried_update(ix)->0;
            let offsets = lockout_offsets_at(data, p2, count as nat).unwrap().0;
            let base: int = if root == u64::MAX {
                0
            } else {
                root as int
            };
            &&& carried_update(ix) is Some
            &&& u.lockouts.len() == count
            &&& offsets.len() == count
            &&& count > 0 ==> u.lockouts[0].slot == base + offsets[0].0
            &&& forall|i: int|
                0 <= i < count ==> (#[trigger] u.lockouts[i]).confirmation_count == offsets[i].1
            &&& forall|i: int|
                0 < i < count ==> (#[trigger] u.lockouts[i]).slot == u.lockouts[i - 1].slot
                    + offsets[i].0
            &&& u.root == if root == u64::MAX {
                None
            } else {
                Some(root)
            }
        },
{
    if let Some(ix) = vote_instruction_of(data) {
        assert(compact_vote_state_update_at(data, 4) is Some);
        lemma_compact_update_lockouts(data, root, count, p2);
        assert(carried_update(ix) == Some(compact_vote_state_update_at(data, 4).unwrap().0));
    }
}

} // verus!
