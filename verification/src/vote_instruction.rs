//! The vote program's instructions and their decoding from instruction data.
use vstd::prelude::*;
use crate::keys::{BankHash, Pubkey};
use crate::vote_state::{
    authorize_checked_with_seed_at, authorize_with_seed_at, compact_vote_state_update_at,
    read_authorize_checked_with_seed, read_authorize_with_seed, read_compact_vote_state_update,
    read_hash, read_pubkey, read_vote, read_vote_authorize, read_vote_init, read_vote_state_update,
    vote_at, vote_authorize_at, vote_init_at, vote_state_update_at, AuthorizeCheckedWithSeedModel,
    AuthorizeWithSeedModel, Vote, VoteAuthorize, VoteAuthorizeCheckedWithSeedArgs,
    VoteAuthorizeWithSeedArgs, VoteInit, VoteInitModel, VoteModel, VoteStateUpdate,
    VoteStateUpdateModel, lemma_authorize_checked_with_seed_at_prefix,
    lemma_authorize_with_seed_at_prefix, lemma_compact_vote_state_update_at_prefix,
    lemma_vote_at_prefix, lemma_vote_authorize_at_prefix, lemma_vote_init_at_prefix,
    lemma_vote_state_update_at_prefix,
};
use crate::wire::{
    bytes32_at, lemma_bytes32_at_prefix, lemma_u32_at_prefix, lemma_u64_at_prefix,
    lemma_u8_at_prefix, read_u32, read_u64, read_u8, u32_at, u64_at, u8_at,
};

verus! {

/// An instruction of the vote program.
#[derive(Clone, Debug, PartialEq, Eq)]
pub enum VoteInstruction {
    InitializeAccount(VoteInit),
    Authorize(Pubkey, VoteAuthorize),
    Vote(Vote),
    Withdraw(u64),
    UpdateValidatorIdentity,
    UpdateCommission(u8),
    VoteSwitch(Vote, BankHash),
    AuthorizeChecked(VoteAuthorize),
    UpdateVoteState(VoteStateUpdate),
    UpdateVoteStateSwitch(VoteStateUpdate, BankHash),
    AuthorizeWithSeed(VoteAuthorizeWithSeedArgs),
    AuthorizeCheckedWithSeed(VoteAuthorizeCheckedWithSeedArgs),
    CompactUpdateVoteState(VoteStateUpdate),
    CompactUpdateVoteStateSwitch(VoteStateUpdate, BankHash),
}

/// The mathematical value of a vote instruction.
pub enum VoteInstructionModel {
    InitializeAccount(VoteInitModel),
    Authorize(Seq<u8>, VoteAuthorize),
    Vote(VoteModel),
    Withdraw(u64),
    UpdateValidatorIdentity,
    UpdateCommission(u8),
    VoteSwitch(VoteModel, Seq<u8>),
    AuthorizeChecked(VoteAuthorize),
    UpdateVoteState(VoteStateUpdateModel),
    UpdateVoteStateSwitch(VoteStateUpdateModel, Seq<u8>),
    AuthorizeWithSeed(AuthorizeWithSeedModel),
    AuthorizeCheckedWithSeed(AuthorizeCheckedWithSeedModel),
    CompactUpdateVoteState(VoteStateUpdateModel),
    CompactUpdateVoteStateSwitch(VoteStateUpdateModel, Seq<u8>),
}

impl View for VoteInstruction {
    type V = VoteInstructionModel;

    open spec fn view(&self) -> VoteInstructionModel {
        match self {
            VoteInstruction::InitializeAccount(v) => VoteInstructionModel::InitializeAccount(v@),
            VoteInstruction::Authorize(k, t) => VoteInstructionModel::Authorize(k@, *t),
            VoteInstruction::Vote(v) => VoteInstructionModel::Vote(v@),
            VoteInstruction::Withdraw(l) => VoteInstructionModel::Withdraw(*l),
            VoteInstruction::UpdateValidatorIdentity => VoteInstructionModel::UpdateValidatorIdentity,
            VoteInstruction::UpdateCommission(c) => VoteInstructionModel::UpdateCommission(*c),
            VoteInstruction::VoteSwitch(v, h) => VoteInstructionModel::VoteSwitch(v@, h@),
            VoteInstruction::AuthorizeChecked(t) => VoteInstructionModel::AuthorizeChecked(*t),
            VoteInstruction::UpdateVoteState(u) => VoteInstructionModel::UpdateVoteState(u@),
            VoteInstruction::UpdateVoteStateSwitch(u, h) => VoteInstructionModel::UpdateVoteStateSwitch(
                u@,
                h@,
            ),
            VoteInstruction::AuthorizeWithSeed(a) => VoteInstructionModel::AuthorizeWithSeed(a@),
            VoteInstruction::AuthorizeCheckedWithSeed(a) => VoteInstructionModel::AuthorizeCheckedWithSeed(
                a@,
            ),
            VoteInstruction::CompactUpdateVoteState(u) => VoteInstructionModel::CompactUpdateVoteState(
                u@,
            ),
            VoteInstruction::CompactUpdateVoteStateSwitch(u, h) => VoteInstructionModel::CompactUpdateVoteStateSwitch(
                u@,
                h@,
            ),
        }
    }
}

/// The payload of the instruction with variant index `tag`, read from `p`.
pub open spec fn vote_instruction_payload_at(tag: u32, s: Seq<u8>, p: int) -> Option<
    (VoteInstructionModel, int),
> {
    if tag == 0 {
        match vote_init_at(s, p) {
            Some((v, q)) => Some((VoteInstructionModel::InitializeAccount(v), q)),
            None => None,
        }
    } else if tag == 1 {
        match bytes32_at(s, p) {
            Some((k, q)) => match vote_authorize_at(s, q) {
                Some((t, r)) => Some((VoteInstructionModel::Authorize(k, t), r)),
                None => None,
            },
            None => None,
        }
    } else if tag == 2 {
        match vote_at(s, p) {
            Some((v, q)) => Some((VoteInstructionModel::Vote(v), q)),
            None => None,
        }
    } else if tag == 3 {
        match u64_at(s, p) {
            Some((l, q)) => Some((VoteInstructionModel::Withdraw(l), q)),
            None => None,
        }
    } else if tag == 4 {
        Some((VoteInstructionModel::UpdateValidatorIdentity, p))
    } else if tag == 5 {
        match u8_at(s, p) {
            Some((c, q)) => Some((VoteInstructionModel::UpdateCommission(c), q)),
            None => None,
        }
    } else if tag == 6 {
        match vote_at(s, p) {
            Some((v, q)) => match bytes32_at(s, q) {
                Some((h, r)) => Some((VoteInstructionModel::VoteSwitch(v, h), r)),
                None => None,
            },
            None => None,
        }
    } else if tag == 7 {
        match vote_authorize_at(s, p) {
            Some((t, q)) => Some((VoteInstructionModel::AuthorizeChecked(t), q)),
            None => None,
        }
    } else if tag == 8 {
        match vote_state_update_at(s, p) {
            Some((u, q)) => Some((VoteInstructionModel::UpdateVoteState(u), q)),
            None => None,
        }
    } else if tag == 9 {
        match vote_state_update_at(s, p) {
            Some((u, q)) => match bytes32_at(s, q) {
                Some((h, r)) => Some((VoteInstructionModel::UpdateVoteStateSwitch(u, h), r)),
                None => None,
            },
            None => None,
        }
    } else if tag == 10 {
        match authorize_with_seed_at(s, p) {
            Some((a, q)) => Some((VoteInstructionModel::AuthorizeWithSeed(a), q)),
            None => None,
        }
    } else if tag == 11 {
        match authorize_checked_with_seed_at(s, p) {
            Some((a, q)) => Some((VoteInstructionModel::AuthorizeCheckedWithSeed(a), q)),
            None => None,
        }
    } else if tag == 12 {
        match compact_vote_state_update_at(s, p) {
            Some((u, q)) => Some((VoteInstructionModel::CompactUpdateVoteState(u), q)),
            None => None,
        }
    } else if tag == 13 {
        match compact_vote_state_update_at(s, p) {
            Some((u, q)) => match bytes32_at(s, q) {
                Some((h, r)) => Some((VoteInstructionModel::CompactUpdateVoteStateSwitch(u, h), r)),
                None => None,
            },
            None => None,
        }
    } else {
        None
    }
}

/// A vote instruction at `p`: its `u32` variant index, then its payload.
pub open spec fn vote_instruction_at(s: Seq<u8>, p: int) -> Option<(VoteInstructionModel, int)> {
    match u32_at(s, p) {
        Some((tag, q)) => vote_instruction_payload_at(tag, s, q),
        None => None,
    }
}

/// The vote instruction that `data` begins with; bytes after it are ignored.
pub open spec fn vote_instruction_of(data: Seq<u8>) -> Option<VoteInstructionModel> {
    match vote_instruction_at(data, 0) {
        Some((ix, _)) => Some(ix),
        None => None,
    }
}

fn read_vote_instruction_payload(tag: u32, data: &[u8], pos: usize) -> (res: Option<
    (VoteInstruction, usize),
>)
    ensures
        match res {
            Some((ix, q)) => vote_instruction_payload_at(tag, data@, pos as int) == Some(
                (ix@, q as int),
            ),
            None => vote_instruction_payload_at(tag, data@, pos as int) is None,
        },
{
    if tag == 0 {
        match read_vote_init(data, pos) {
            Some((v, q)) => Some((VoteInstruction::InitializeAccount(v), q)),
            None => None,
        }
    } else if tag == 1 {
        match read_pubkey(data, pos) {
            Some((k, q)) => match read_vote_authorize(data, q) {
                Some((t, r)) => Some((VoteInstruction::Authorize(k, t), r)),
                None => None,
            },
            None => None,
        }
    } else if tag == 2 {
        match read_vote(data, pos) {
            Some((v, q)) => Some((VoteInstruction::Vote(v), q)),
            None => None,
        }
    } else if tag == 3 {
        match read_u64(data, pos) {
            Some((l, q)) => Some((VoteInstruction::Withdraw(l), q)),
            None => None,
        }
    } else if tag == 4 {
        Some((VoteInstruction::UpdateValidatorIdentity, pos))
    } else if tag == 5 {
        match read_u8(data, pos) {
            Some((c, q)) => Some((VoteInstruction::UpdateCommission(c), q)),
            None => None,
        }
    } else if tag == 6 {
        match read_vote(data, pos) {
            Some((v, q)) => match read_hash(data, q) {
                Some((h, r)) => Some((VoteInstruction::VoteSwitch(v, h), r)),
                None => None,
            },
            None => None,
        }
    } else if tag == 7 {
        match read_vote_authorize(data, pos) {
            Some((t, q)) => Some((VoteInstruction::AuthorizeChecked(t), q)),
            None => None,
        }
    } else if tag == 8 {
        match read_vote_state_update(data, pos) {
            Some((u, q)) => Some((VoteInstruction::UpdateVoteState(u), q)),
            None => None,
        }
    } else if tag == 9 {
        match read_vote_state_update(data, pos) {
            Some((u, q)) => match read_hash(data, q) {
                Some((h, r)) => Some((VoteInstruction::UpdateVoteStateSwitch(u, h), r)),
                None => None,
            },
            None => None,
        }
    } else if tag == 10 {
        match read_authorize_with_seed(data, pos) {
            Some((a, q)) => Some((VoteInstruction::AuthorizeWithSeed(a), q)),
            None => None,
        }
    } else if tag == 11 {
        match read_authorize_checked_with_seed(data, pos) {
            Some((a, q)) => Some((VoteInstruction::AuthorizeCheckedWithSeed(a), q)),
            None => None,
        }
    } else if tag == 12 {
        match read_compact_vote_state_update(data, pos) {
            Some((u, q)) => Some((VoteInstruction::CompactUpdateVoteState(u), q)),
            None => None,
        }
    } else if tag == 13 {
        match read_compact_vote_state_update(data, pos) {
            Some((u, q)) => match read_hash(data, q) {
                Some((h, r)) => Some((VoteInstruction::CompactUpdateVoteStateSwitch(u, h), r)),
                None => None,
            },
            None => None,
        }
    } else {
        None
    }
}

/// Decodes the vote instruction that `data` begins with, ignoring any bytes
/// after it; `None` when `data` does not begin with one.
pub fn decode_vote_instruction(data: &[u8]) -> (res: Option<VoteInstruction>)
    ensures
        match res {
            Some(ix) => vote_instruction_of(data@) == Some(ix@),
            None => vote_instruction_of(data@) is None,
        },
{
    match read_u32(data, 0) {
        Some((tag, q)) => match read_vote_instruction_payload(tag, data, q) {
            Some((ix, _)) => Some(ix),
            None => None,
        },
        None => None,
    }
}

proof fn lemma_vote_instruction_payload_at_prefix(tag: u32, s: Seq<u8>, extra: Seq<u8>, p: int)
    requires
        vote_instruction_payload_at(tag, s, p) is Some,
    ensures
        vote_instruction_payload_at(tag, s + extra, p) == vote_instruction_payload_at(tag, s, p),
{
    if tag == 0 {
        lemma_vote_init_at_prefix(s, extra, p);
    } else if tag == 1 {
        lemma_bytes32_at_prefix(s, extra, p);
        lemma_vote_authorize_at_prefix(s, extra, p + 32);
    } else if tag == 2 {
        lemma_vote_at_prefix(s, extra, p);
    } else if tag == 3 {
        lemma_u64_at_prefix(s, extra, p);
    } else if tag == 5 {
        lemma_u8_at_prefix(s, extra, p);
    } else if tag == 6 {
        lemma_vote_at_prefix(s, extra, p);
        lemma_bytes32_at_prefix(s, extra, vote_at(s, p).unwrap().1);
    } else if tag == 7 {
        lemma_vote_authorize_at_prefix(s, extra, p);
    } else if tag == 8 {
        lemma_vote_state_update_at_prefix(s, extra, p);
    } else if tag == 9 {
        lemma_vote_state_update_at_prefix(s, extra, p);
        lemma_bytes32_at_prefix(s, extra, vote_state_update_at(s, p).unwrap().1);
    } else if tag == 10 {
        lemma_authorize_with_seed_at_prefix(s, extra, p);
    } else if tag == 11 {
        lemma_authorize_checked_with_seed_at_prefix(s, extra, p);
    } else if tag == 12 {
        lemma_compact_vote_state_update_at_prefix(s, extra, p);
    } else if tag == 13 {
        lemma_compact_vote_state_update_at_prefix(s, extra, p);
        lemma_bytes32_at_prefix(s, extra, compact_vote_state_update_at(s, p).unwrap().1);
    }
}

/// Bytes after an encoded vote instruction do not change what it decodes to.
pub proof fn lemma_vote_instruction_of_ignores_trailing_bytes(data: Seq<u8>, extra: Seq<u8>)
    requires
        vote_instruction_of(data) is Some,
    ensures
        vote_instruction_of(data + extra) == vote_instruction_of(data),
{
    lemma_u32_at_prefix(data, extra, 0);
    let tag = u32_at(data, 0).unwrap().0;
    lemma_vote_instruction_payload_at_prefix(tag, data, extra, 4);
}

} // verus!
