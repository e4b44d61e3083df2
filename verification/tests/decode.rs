use solana_sdk::{
    pubkey::Pubkey,
    vote::{
        instruction::VoteInstruction as SdkVoteInstruction,
        state::{Vote as SdkVote, VoteAuthorize as SdkVoteAuthorize, VoteStateUpdate as SdkVoteStateUpdate},
    },
};
use transaction_status::keys::{hash_to_string, pubkey_to_string, BankHash, Pubkey as KeyBytes};
use transaction_status::vote_instruction::{decode_vote_instruction, VoteInstruction};
use transaction_status::vote_state::{Lockout, Vote, VoteAuthorize, VoteStateUpdate};
use transaction_status::wire::{read_short_u16, read_string, read_varint_u64};

fn encode(ix: &SdkVoteInstruction) -> Vec<u8> {
    bincode::serialize(ix).unwrap()
}

#[test]
fn base58_of_keys_and_hashes() {
    assert_eq!(pubkey_to_string(&KeyBytes([0; 32])), "11111111111111111111111111111111");
    assert_eq!(
        hash_to_string(&BankHash([1; 32])),
        solana_sdk::hash::Hash::new_from_array([1; 32]).to_string()
    );
    assert_eq!(hash_to_string(&BankHash([1; 32])), "4vJ9JU1bJJE96FWSJKvHsmmFADCg4gpZQff4P3bkLKi");
    let k = Pubkey::new_unique();
    assert_eq!(pubkey_to_string(&KeyBytes(k.to_bytes())), k.to_string());
}

#[test]
fn decodes_withdraw_and_commission() {
    assert_eq!(
        decode_vote_instruction(&encode(&SdkVoteInstruction::Withdraw(123_456))),
        Some(VoteInstruction::Withdraw(123_456))
    );
    assert_eq!(
        decode_vote_instruction(&encode(&SdkVoteInstruction::UpdateCommission(42))),
        Some(VoteInstruction::UpdateCommission(42))
    );
    assert_eq!(
        decode_vote_instruction(&encode(&SdkVoteInstruction::AuthorizeChecked(SdkVoteAuthorize::Withdrawer))),
        Some(VoteInstruction::AuthorizeChecked(VoteAuthorize::Withdrawer))
    );
}

#[test]
fn decodes_vote_with_and_without_timestamp() {
    let hash = solana_sdk::hash::Hash::new_from_array([7; 32]);
    let with = SdkVote { slots: vec![5, 9], hash, timestamp: Some(-3) };
    assert_eq!(
        decode_vote_instruction(&encode(&SdkVoteInstruction::Vote(with))),
        Some(VoteInstruction::Vote(Vote { slots: vec![5, 9], hash: BankHash([7; 32]), timestamp: Some(-3) }))
    );
    let without = SdkVote { slots: vec![], hash, timestamp: None };
    assert_eq!(
        decode_vote_instruction(&encode(&SdkVoteInstruction::Vote(without))),
        Some(VoteInstruction::Vote(Vote { slots: vec![], hash: BankHash([7; 32]), timestamp: None }))
    );
}

#[test]
fn decodes_compact_update_with_root() {
    let mut update = SdkVoteStateUpdate::from(vec![(1000, 4), (1003, 2), (200_000, 1)]);
    update.root = Some(900);
    update.timestamp = Some(77);
    let bytes = encode(&SdkVoteInstruction::CompactUpdateVoteState(update.clone()));
    let expected = VoteStateUpdate {
        lockouts: vec![
            Lockout { slot: 1000, confirmation_count: 4 },
            Lockout { slot: 1003, confirmation_count: 2 },
            Lockout { slot: 200_000, confirmation_count: 1 },
        ],
        root: Some(900),
        hash: BankHash([0; 32]),
        timestamp: Some(77),
    };
    assert_eq!(decode_vote_instruction(&bytes), Some(VoteInstruction::CompactUpdateVoteState(expected.clone())));
    let plain = encode(&SdkVoteInstruction::UpdateVoteState(update));
    assert_eq!(decode_vote_instruction(&plain), Some(VoteInstruction::UpdateVoteState(expected)));
}

#[test]
fn refuses_bad_encodings() {
    // Unknown variant.
    assert_eq!(decode_vote_instruction(&[14, 0, 0, 0]), None);
    // Truncated withdraw.
    assert_eq!(decode_vote_instruction(&[3, 0, 0, 0, 1, 2]), None);
    // Option tag other than 0 or 1 for the timestamp.
    let mut bytes = encode(&SdkVoteInstruction::Vote(SdkVote { slots: vec![1], hash: solana_sdk::hash::Hash::default(), timestamp: None }));
    let last = bytes.len() - 1;
    bytes[last] = 2;
    assert_eq!(decode_vote_instruction(&bytes), None);
    // Authority kind out of range.
    assert_eq!(decode_vote_instruction(&[7, 0, 0, 0, 2, 0, 0, 0]), None);
    // Compact update whose slots pass u64::MAX: root u64::MAX - 1, offsets 1 and 5.
    let mut overflow = vec![12, 0, 0, 0];
    overflow.extend_from_slice(&(u64::MAX - 1).to_le_bytes());
    overflow.extend_from_slice(&[2, 1, 1, 5, 1]);
    overflow.extend_from_slice(&[0; 32]);
    overflow.push(0);
    assert_eq!(decode_vote_instruction(&overflow), None);
}

#[test]
fn seed_must_be_utf8() {
    // AuthorizeCheckedWithSeed: kind, owner, seed.
    let mut bytes = vec![11, 0, 0, 0, 0, 0, 0, 0];
    bytes.extend_from_slice(&[9; 32]);
    bytes.extend_from_slice(&2u64.to_le_bytes());
    bytes.extend_from_slice(&[0xff, 0xfe]);
    assert_eq!(decode_vote_instruction(&bytes), None);
    let ok = vec![2, 0, 0, 0, 0, 0, 0, 0, b'h', b'i'];
    assert_eq!(read_string(&ok, 0), Some(("hi".to_string(), 10)));
}

#[test]
fn variable_length_integers() {
    assert_eq!(read_varint_u64(&[0x00], 0), Some((0, 1)));
    assert_eq!(read_varint_u64(&[0x7f], 0), Some((127, 1)));
    assert_eq!(read_varint_u64(&[0x80, 0x01], 0), Some((128, 2)));
    // A zero final byte after the first is refused.
    assert_eq!(read_varint_u64(&[0x80, 0x00], 0), None);
    // u64::MAX takes ten bytes, the last carrying a single bit.
    let max = [0xff, 0xff, 0xff, 0xff, 0xff, 0xff, 0xff, 0xff, 0xff, 0x01];
    assert_eq!(read_varint_u64(&max, 0), Some((u64::MAX, 10)));
    let too_big = [0xff, 0xff, 0xff, 0xff, 0xff, 0xff, 0xff, 0xff, 0xff, 0x02];
    assert_eq!(read_varint_u64(&too_big, 0), None);
    // Short vector lengths.
    assert_eq!(read_short_u16(&[0x05], 0), Some((5, 1)));
    assert_eq!(read_short_u16(&[0x80, 0x01], 0), Some((128, 2)));
    assert_eq!(read_short_u16(&[0x80, 0x00], 0), None);
    assert_eq!(read_short_u16(&[0xff, 0xff, 0x03], 0), Some((u16::MAX, 3)));
    assert_eq!(read_short_u16(&[0xff, 0xff, 0x04], 0), None);
    assert_eq!(read_short_u16(&[0xff, 0xff, 0x83], 0), None);
}
