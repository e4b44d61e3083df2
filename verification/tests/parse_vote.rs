use serde_json::Value;
use solana_sdk::{
    message::Message,
    pubkey::Pubkey,
    sysvar,
    vote::{
        instruction as vote_instruction,
        state::{Vote, VoteAuthorize, VoteInit, VoteStateUpdate},
    },
};
use transaction_status::json::JsonValue;
use transaction_status::keys::{AccountKeys, CompiledInstruction, LoadedAddresses, Pubkey as KeyBytes};
use transaction_status::parse_instruction::{ParsableProgram, ParseInstructionError};
use transaction_status::parse_vote::parse_vote;

fn to_serde(v: &JsonValue) -> Value {
    match v {
        JsonValue::Null => Value::Null,
        JsonValue::Unsigned(n) => Value::from(*n),
        JsonValue::Signed(n) => Value::from(*n),
        JsonValue::Text(s) => Value::String(s.clone()),
        JsonValue::Array(items) => Value::Array(items.iter().map(to_serde).collect()),
        JsonValue::Object(fields) => {
            let mut m = serde_json::Map::new();
            for f in fields {
                m.insert(f.key.clone(), to_serde(&f.value));
            }
            Value::Object(m)
        }
    }
}

fn obj(entries: Vec<(&str, Value)>) -> Value {
    let mut m = serde_json::Map::new();
    for (k, v) in entries {
        m.insert(k.to_string(), v);
    }
    Value::Object(m)
}

fn text(s: String) -> Value {
    Value::String(s)
}

fn keys(keys: &[Pubkey]) -> AccountKeys {
    AccountKeys::new(keys.iter().map(|k| KeyBytes(k.to_bytes())).collect(), None)
}

fn compiled(ix: &solana_sdk::instruction::CompiledInstruction) -> CompiledInstruction {
    CompiledInstruction {
        program_id_index: ix.program_id_index,
        accounts: ix.accounts.clone(),
        data: ix.data.clone(),
    }
}

/// Parses and gives the result as (type, info) with `info` as serde JSON.
fn parse(
    ix: &solana_sdk::instruction::CompiledInstruction,
    account_keys: &[Pubkey],
) -> Result<(String, Value), ParseInstructionError> {
    parse_vote(&compiled(ix), &keys(account_keys)).map(|p| (p.instruction_type.clone(), to_serde(&p.info)))
}

#[test]
fn test_parse_vote_initialize_ix() {
    let lamports = 55;

    let commission = 10;
    let node_pubkey = Pubkey::new_unique();
    let vote_pubkey = Pubkey::new_unique();
    let authorized_voter = Pubkey::new_unique();
    let authorized_withdrawer = Pubkey::new_unique();
    let vote_init = VoteInit {
        node_pubkey,
        authorized_voter,
        authorized_withdrawer,
        commission,
    };

    let instructions =
        vote_instruction::create_account(&Pubkey::new_unique(), &vote_pubkey, &vote_init, lamports);
    let mut message = Message::new(&instructions, None);
    assert_eq!(
        parse(&message.instructions[1], &message.account_keys).unwrap(),
        (
            "initialize".to_string(),
            obj(vec![
                ("voteAccount", text(vote_pubkey.to_string())),
                ("rentSysvar", text(sysvar::rent::ID.to_string())),
                ("clockSysvar", text(sysvar::clock::ID.to_string())),
                ("node", text(node_pubkey.to_string())),
                ("authorizedVoter", text(authorized_voter.to_string())),
                ("authorizedWithdrawer", text(authorized_withdrawer.to_string())),
                ("commission", Value::from(commission)),
            ])
        )
    );
    assert!(parse(&message.instructions[1], &message.account_keys[0..3]).is_err());
    let keys = message.account_keys.clone();
    message.instructions[0].accounts.pop();
    assert!(parse(&message.instructions[0], &keys).is_err());
}

#[test]
fn test_parse_vote_authorize_ix() {
    let vote_pubkey = Pubkey::new_unique();
    let authorized_pubkey = Pubkey::new_unique();
    let new_authorized_pubkey = Pubkey::new_unique();
    let authority_type = VoteAuthorize::Voter;
    let instruction = vote_instruction::authorize(
        &vote_pubkey,
        &authorized_pubkey,
        &new_authorized_pubkey,
        authority_type,
    );
    let mut message = Message::new(&[instruction], None);
    assert_eq!(
        parse(&message.instructions[0], &message.account_keys).unwrap(),
        (
            "authorize".to_string(),
            obj(vec![
                ("voteAccount", text(vote_pubkey.to_string())),
                ("clockSysvar", text(sysvar::clock::ID.to_string())),
                ("authority", text(authorized_pubkey.to_string())),
                ("newAuthority", text(new_authorized_pubkey.to_string())),
                ("authorityType", serde_json::to_value(authority_type).unwrap()),
            ])
        )
    );
    assert!(parse(&message.instructions[0], &message.account_keys[0..2]).is_err());
    let keys = message.account_keys.clone();
    message.instructions[0].accounts.pop();
    assert!(parse(&message.instructions[0], &keys).is_err());
}

#[test]
fn test_parse_vote_authorize_with_seed_ix() {
    let vote_pubkey = Pubkey::new_unique();
    let authorized_base_key = Pubkey::new_unique();
    let new_authorized_pubkey = Pubkey::new_unique();
    let authority_type = VoteAuthorize::Voter;
    let current_authority_owner = Pubkey::new_unique();
    let current_authority_seed = "AUTHORITY_SEED";
    let instruction = vote_instruction::authorize_with_seed(
        &vote_pubkey,
        &authorized_base_key,
        &current_authority_owner,
        current_authority_seed,
        &new_authorized_pubkey,
        authority_type,
    );
    let message = Message::new(&[instruction], None);
    assert_eq!(
        parse(&message.instructions[0], &message.account_keys).unwrap(),
        (
            "authorizeWithSeed".to_string(),
            obj(vec![
                ("voteAccount", text(vote_pubkey.to_string())),
                ("clockSysvar", text(sysvar::clock::ID.to_string())),
                ("authorityBaseKey", text(authorized_base_key.to_string())),
                ("authorityOwner", text(current_authority_owner.to_string())),
                ("authoritySeed", text(current_authority_seed.to_string())),
                ("newAuthority", text(new_authorized_pubkey.to_string())),
                ("authorityType", serde_json::to_value(authority_type).unwrap()),
            ])
        )
    );
    assert!(parse(&message.instructions[0], &message.account_keys[0..2]).is_err());
}

#[test]
fn test_parse_vote_authorize_with_seed_checked_ix() {
    let vote_pubkey = Pubkey::new_unique();
    let authorized_base_key = Pubkey::new_unique();
    let new_authorized_pubkey = Pubkey::new_unique();
    let authority_type = VoteAuthorize::Voter;
    let current_authority_owner = Pubkey::new_unique();
    let current_authority_seed = "AUTHORITY_SEED";
    let instruction = vote_instruction::authorize_checked_with_seed(
        &vote_pubkey,
        &authorized_base_key,
        &current_authority_owner,
        current_authority_seed,
        &new_authorized_pubkey,
        authority_type,
    );
    let message = Message::new(&[instruction], None);
    assert_eq!(
        parse(&message.instructions[0], &message.account_keys).unwrap(),
        (
            "authorizeCheckedWithSeed".to_string(),
            obj(vec![
                ("voteAccount", text(vote_pubkey.to_string())),
                ("clockSysvar", text(sysvar::clock::ID.to_string())),
                ("authorityBaseKey", text(authorized_base_key.to_string())),
                ("authorityOwner", text(current_authority_owner.to_string())),
                ("authoritySeed", text(current_authority_seed.to_string())),
                ("newAuthority", text(new_authorized_pubkey.to_string())),
                ("authorityType", serde_json::to_value(authority_type).unwrap()),
            ])
        )
    );
    assert!(parse(&message.instructions[0], &message.account_keys[0..3]).is_err());
}

#[test]
fn test_parse_vote_ix() {
    let hash = solana_sdk::hash::Hash::new_from_array([1; 32]);
    let vote = Vote {
        slots: vec![1, 2, 4],
        hash,
        timestamp: Some(1_234_567_890),
    };

    let vote_pubkey = Pubkey::new_unique();
    let authorized_voter_pubkey = Pubkey::new_unique();
    let instruction = vote_instruction::vote(&vote_pubkey, &authorized_voter_pubkey, vote);
    let mut message = Message::new(&[instruction], None);
    assert_eq!(
        parse(&message.instructions[0], &message.account_keys).unwrap(),
        (
            "vote".to_string(),
            obj(vec![
                ("voteAccount", text(vote_pubkey.to_string())),
                ("slotHashesSysvar", text(sysvar::slot_hashes::ID.to_string())),
                ("clockSysvar", text(sysvar::clock::ID.to_string())),
                ("voteAuthority", text(authorized_voter_pubkey.to_string())),
                (
                    "vote",
                    obj(vec![
                        ("slots", Value::Array(vec![Value::from(1), Value::from(2), Value::from(4)])),
                        ("hash", text(hash.to_string())),
                        ("timestamp", Value::from(1_234_567_890)),
                    ])
                ),
            ])
        )
    );
    assert!(parse(&message.instructions[0], &message.account_keys[0..3]).is_err());
    let keys = message.account_keys.clone();
    message.instructions[0].accounts.pop();
    assert!(parse(&message.instructions[0], &keys).is_err());
}

#[test]
fn test_parse_vote_withdraw_ix() {
    let lamports = 55;
    let vote_pubkey = Pubkey::new_unique();
    let authorized_withdrawer_pubkey = Pubkey::new_unique();
    let to_pubkey = Pubkey::new_unique();
    let instruction = vote_instruction::withdraw(
        &vote_pubkey,
        &authorized_withdrawer_pubkey,
        lamports,
        &to_pubkey,
    );
    let mut message = Message::new(&[instruction], None);
    assert_eq!(
        parse(&message.instructions[0], &message.account_keys).unwrap(),
        (
            "withdraw".to_string(),
            obj(vec![
                ("voteAccount", text(vote_pubkey.to_string())),
                ("destination", text(to_pubkey.to_string())),
                ("withdrawAuthority", text(authorized_withdrawer_pubkey.to_string())),
                ("lamports", Value::from(lamports)),
            ])
        )
    );
    assert!(parse(&message.instructions[0], &message.account_keys[0..2]).is_err());
    let keys = message.account_keys.clone();
    message.instructions[0].accounts.pop();
    assert!(parse(&message.instructions[0], &keys).is_err());
}

#[test]
fn test_parse_vote_update_validator_identity_ix() {
    let vote_pubkey = Pubkey::new_unique();
    let authorized_withdrawer_pubkey = Pubkey::new_unique();
    let node_pubkey = Pubkey::new_unique();
    let instruction = vote_instruction::update_validator_identity(
        &vote_pubkey,
        &authorized_withdrawer_pubkey,
        &node_pubkey,
    );
    let mut message = Message::new(&[instruction], None);
    assert_eq!(
        parse(&message.instructions[0], &message.account_keys).unwrap(),
        (
            "updateValidatorIdentity".to_string(),
            obj(vec![
                ("voteAccount", text(vote_pubkey.to_string())),
                ("newValidatorIdentity", text(node_pubkey.to_string())),
                ("withdrawAuthority", text(authorized_withdrawer_pubkey.to_string())),
            ])
        )
    );
    assert!(parse(&message.instructions[0], &message.account_keys[0..2]).is_err());
    let keys = message.account_keys.clone();
    message.instructions[0].accounts.pop();
    assert!(parse(&message.instructions[0], &keys).is_err());
}

#[test]
fn test_parse_vote_update_commission_ix() {
    let commission = 10;
    let vote_pubkey = Pubkey::new_unique();
    let authorized_withdrawer_pubkey = Pubkey::new_unique();
    let instruction = vote_instruction::update_commission(
        &vote_pubkey,
        &authorized_withdrawer_pubkey,
        commission,
    );
    let mut message = Message::new(&[instruction], None);
    assert_eq!(
        parse(&message.instructions[0], &message.account_keys).unwrap(),
        (
            "updateCommission".to_string(),
            obj(vec![
                ("voteAccount", text(vote_pubkey.to_string())),
                ("withdrawAuthority", text(authorized_withdrawer_pubkey.to_string())),
                ("commission", Value::from(commission)),
            ])
        )
    );
    assert!(parse(&message.instructions[0], &message.account_keys[0..1]).is_err());
    let keys = message.account_keys.clone();
    message.instructions[0].accounts.pop();
    assert!(parse(&message.instructions[0], &keys).is_err());
}

#[test]
fn test_parse_vote_switch_ix() {
    let hash = solana_sdk::hash::Hash::new_from_array([1; 32]);
    let vote = Vote {
        slots: vec![1, 2, 4],
        hash,
        timestamp: Some(1_234_567_890),
    };

    let vote_pubkey = Pubkey::new_unique();
    let authorized_voter_pubkey = Pubkey::new_unique();
    let proof_hash = solana_sdk::hash::Hash::new_from_array([2; 32]);
    let instruction =
        vote_instruction::vote_switch(&vote_pubkey, &authorized_voter_pubkey, vote, proof_hash);
    let mut message = Message::new(&[instruction], None);
    assert_eq!(
        parse(&message.instructions[0], &message.account_keys).unwrap(),
        (
            "voteSwitch".to_string(),
            obj(vec![
                ("voteAccount", text(vote_pubkey.to_string())),
                ("slotHashesSysvar", text(sysvar::slot_hashes::ID.to_string())),
                ("clockSysvar", text(sysvar::clock::ID.to_string())),
                ("voteAuthority", text(authorized_voter_pubkey.to_string())),
                (
                    "vote",
                    obj(vec![
                        ("slots", Value::Array(vec![Value::from(1), Value::from(2), Value::from(4)])),
                        ("hash", text(hash.to_string())),
                        ("timestamp", Value::from(1_234_567_890)),
                    ])
                ),
                ("hash", text(proof_hash.to_string())),
            ])
        )
    );
    assert!(parse(&message.instructions[0], &message.account_keys[0..3]).is_err());
    let keys = message.account_keys.clone();
    message.instructions[0].accounts.pop();
    assert!(parse(&message.instructions[0], &keys).is_err());
}

#[test]
fn test_parse_vote_authorized_checked_ix() {
    let vote_pubkey = Pubkey::new_unique();
    let authorized_pubkey = Pubkey::new_unique();
    let new_authorized_pubkey = Pubkey::new_unique();
    let authority_type = VoteAuthorize::Voter;
    let instruction = vote_instruction::authorize_checked(
        &vote_pubkey,
        &authorized_pubkey,
        &new_authorized_pubkey,
        authority_type,
    );
    let mut message = Message::new(&[instruction], None);
    assert_eq!(
        parse(&message.instructions[0], &message.account_keys).unwrap(),
        (
            "authorizeChecked".to_string(),
            obj(vec![
                ("voteAccount", text(vote_pubkey.to_string())),
                ("clockSysvar", text(sysvar::clock::ID.to_string())),
                ("authority", text(authorized_pubkey.to_string())),
                ("newAuthority", text(new_authorized_pubkey.to_string())),
                ("authorityType", serde_json::to_value(authority_type).unwrap()),
            ])
        )
    );
    assert!(parse(&message.instructions[0], &message.account_keys[0..3]).is_err());
    let keys = message.account_keys.clone();
    message.instructions[0].accounts.pop();
    assert!(parse(&message.instructions[0], &keys).is_err());
}

/// The `voteStateUpdate` member that the vote state update tests expect.
fn expected_vote_state_update(vote_state_update: &VoteStateUpdate) -> Value {
    obj(vec![
        ("lockouts", serde_json::to_value(&vote_state_update.lockouts).unwrap()),
        ("root", serde_json::to_value(None::<u64>).unwrap()),
        ("hash", text(solana_sdk::hash::Hash::default().to_string())),
        ("timestamp", serde_json::to_value(None::<u64>).unwrap()),
    ])
}

#[test]
fn test_parse_vote_state_update_ix() {
    let vote_state_update = VoteStateUpdate::from(vec![(0, 3), (1, 2), (2, 1)]);

    let vote_pubkey = Pubkey::new_unique();
    let authorized_voter_pubkey = Pubkey::new_unique();
    let instruction = vote_instruction::update_vote_state(
        &vote_pubkey,
        &authorized_voter_pubkey,
        vote_state_update.clone(),
    );
    let mut message = Message::new(&[instruction], None);
    assert_eq!(
        parse(&message.instructions[0], &message.account_keys).unwrap(),
        (
            "updatevotestate".to_string(),
            obj(vec![
                ("voteAccount", text(vote_pubkey.to_string())),
                ("voteAuthority", text(authorized_voter_pubkey.to_string())),
                ("voteStateUpdate", expected_vote_state_update(&vote_state_update)),
            ])
        )
    );
    assert!(parse(&message.instructions[0], &message.account_keys[0..1]).is_err());
    let keys = message.account_keys.clone();
    message.instructions[0].accounts.pop();
    assert!(parse(&message.instructions[0], &keys).is_err());
}

#[test]
fn test_parse_vote_state_update_switch_ix() {
    let vote_state_update = VoteStateUpdate::from(vec![(0, 3), (1, 2), (2, 1)]);

    let vote_pubkey = Pubkey::new_unique();
    let authorized_voter_pubkey = Pubkey::new_unique();
    let proof_hash = solana_sdk::hash::Hash::new_from_array([2; 32]);
    let instruction = vote_instruction::update_vote_state_switch(
        &vote_pubkey,
        &authorized_voter_pubkey,
        vote_state_update.clone(),
        proof_hash,
    );
    let mut message = Message::new(&[instruction], None);
    assert_eq!(
        parse(&message.instructions[0], &message.account_keys).unwrap(),
        (
            "updatevotestateswitch".to_string(),
            obj(vec![
                ("voteAccount", text(vote_pubkey.to_string())),
                ("voteAuthority", text(authorized_voter_pubkey.to_string())),
                ("voteStateUpdate", expected_vote_state_update(&vote_state_update)),
                ("hash", text(proof_hash.to_string())),
            ])
        )
    );
    assert!(parse(&message.instructions[0], &message.account_keys[0..1]).is_err());
    let keys = message.account_keys.clone();
    message.instructions[0].accounts.pop();
    assert!(parse(&message.instructions[0], &keys).is_err());
}

#[test]
fn test_parse_compact_vote_state_update_ix() {
    let vote_state_update = VoteStateUpdate::from(vec![(0, 3), (1, 2), (2, 1)]);
    let compact_vote_state_update = vote_state_update.clone();

    let vote_pubkey = Pubkey::new_unique();
    let authorized_voter_pubkey = Pubkey::new_unique();
    let instruction = vote_instruction::compact_update_vote_state(
        &vote_pubkey,
        &authorized_voter_pubkey,
        compact_vote_state_update,
    );
    let mut message = Message::new(&[instruction], None);
    assert_eq!(
        parse(&message.instructions[0], &message.account_keys).unwrap(),
        (
            "compactupdatevotestate".to_string(),
            obj(vec![
                ("voteAccount", text(vote_pubkey.to_string())),
                ("voteAuthority", text(authorized_voter_pubkey.to_string())),
                ("voteStateUpdate", expected_vote_state_update(&vote_state_update)),
            ])
        )
    );
    assert!(parse(&message.instructions[0], &message.account_keys[0..1]).is_err());
    let keys = message.account_keys.clone();
    message.instructions[0].accounts.pop();
    assert!(parse(&message.instructions[0], &keys).is_err());
}

#[test]
fn test_parse_compact_vote_state_update_switch_ix() {
    let vote_state_update = VoteStateUpdate::from(vec![(0, 3), (1, 2), (2, 1)]);
    let compact_vote_state_update = vote_state_update.clone();

    let vote_pubkey = Pubkey::new_unique();
    let authorized_voter_pubkey = Pubkey::new_unique();
    let proof_hash = solana_sdk::hash::Hash::new_from_array([2; 32]);
    let instruction = vote_instruction::compact_update_vote_state_switch(
        &vote_pubkey,
        &authorized_voter_pubkey,
        compact_vote_state_update,
        proof_hash,
    );
    let mut message = Message::new(&[instruction], None);
    assert_eq!(
        parse(&message.instructions[0], &message.account_keys).unwrap(),
        (
            "compactupdatevotestateswitch".to_string(),
            obj(vec![
                ("voteAccount", text(vote_pubkey.to_string())),
                ("voteAuthority", text(authorized_voter_pubkey.to_string())),
                ("voteStateUpdate", expected_vote_state_update(&vote_state_update)),
                ("hash", text(proof_hash.to_string())),
            ])
        )
    );
    assert!(parse(&message.instructions[0], &message.account_keys[0..1]).is_err());
    let keys = message.account_keys.clone();
    message.instructions[0].accounts.pop();
    assert!(parse(&message.instructions[0], &keys).is_err());
}

#[test]
fn parse_vote_reports_undecodable_data() {
    let ix = CompiledInstruction { program_id_index: 0, accounts: vec![0], data: vec![14, 0, 0, 0] };
    let keys = AccountKeys::new(vec![KeyBytes([0; 32])], None);
    assert_eq!(
        parse_vote(&ix, &keys),
        Err(ParseInstructionError::InstructionNotParsable(ParsableProgram::Vote))
    );
    let empty = CompiledInstruction { program_id_index: 0, accounts: vec![0], data: vec![] };
    assert_eq!(
        parse_vote(&empty, &keys),
        Err(ParseInstructionError::InstructionNotParsable(ParsableProgram::Vote))
    );
}

#[test]
fn parse_vote_reports_key_mismatch() {
    // UpdateValidatorIdentity needs three accounts.
    let data = vec![4, 0, 0, 0];
    let keys = AccountKeys::new(vec![KeyBytes([0; 32]), KeyBytes([1; 32]), KeyBytes([2; 32])], None);
    let no_accounts = CompiledInstruction { program_id_index: 0, accounts: vec![], data: data.clone() };
    assert_eq!(
        parse_vote(&no_accounts, &keys),
        Err(ParseInstructionError::InstructionKeyMismatch(ParsableProgram::Vote))
    );
    let out_of_range = CompiledInstruction { program_id_index: 0, accounts: vec![0, 1, 3], data: data.clone() };
    assert_eq!(
        parse_vote(&out_of_range, &keys),
        Err(ParseInstructionError::InstructionKeyMismatch(ParsableProgram::Vote))
    );
    let too_few = CompiledInstruction { program_id_index: 0, accounts: vec![0, 1], data: data.clone() };
    assert_eq!(
        parse_vote(&too_few, &keys),
        Err(ParseInstructionError::InstructionKeyMismatch(ParsableProgram::Vote))
    );
    // Undecodable data is reported first, whatever the accounts.
    let bad = CompiledInstruction { program_id_index: 0, accounts: vec![], data: vec![99, 0, 0, 0] };
    assert_eq!(
        parse_vote(&bad, &keys),
        Err(ParseInstructionError::InstructionNotParsable(ParsableProgram::Vote))
    );
    let ok = CompiledInstruction { program_id_index: 0, accounts: vec![2, 1, 0], data };
    let parsed = parse_vote(&ok, &keys).unwrap();
    assert_eq!(parsed.instruction_type, "updateValidatorIdentity");
    assert_eq!(
        to_serde(&parsed.info),
        obj(vec![
            ("voteAccount", text(Pubkey::new_from_array([2; 32]).to_string())),
            ("newValidatorIdentity", text(Pubkey::new_from_array([1; 32]).to_string())),
            ("withdrawAuthority", text(Pubkey::new_from_array([0; 32]).to_string())),
        ])
    );
}

#[test]
fn parse_vote_ignores_trailing_bytes() {
    let vote_pubkey = Pubkey::new_unique();
    let withdrawer = Pubkey::new_unique();
    let to = Pubkey::new_unique();
    let instruction = vote_instruction::withdraw(&vote_pubkey, &withdrawer, 7, &to);
    let message = Message::new(&[instruction], None);
    let plain = parse(&message.instructions[0], &message.account_keys).unwrap();
    let mut longer = message.instructions[0].clone();
    longer.data.extend_from_slice(&[1, 2, 3]);
    assert_eq!(parse(&longer, &message.account_keys).unwrap(), plain);
}

#[test]
fn parse_vote_reads_keys_across_loaded_segments() {
    let data = vec![4, 0, 0, 0];
    let keys = AccountKeys::new(
        vec![KeyBytes([1; 32])],
        Some(LoadedAddresses { writable: vec![KeyBytes([2; 32])], readonly: vec![KeyBytes([3; 32])] }),
    );
    let ix = CompiledInstruction { program_id_index: 0, accounts: vec![2, 1, 0], data };
    let parsed = parse_vote(&ix, &keys).unwrap();
    assert_eq!(
        to_serde(&parsed.info),
        obj(vec![
            ("voteAccount", text(Pubkey::new_from_array([3; 32]).to_string())),
            ("newValidatorIdentity", text(Pubkey::new_from_array([2; 32]).to_string())),
            ("withdrawAuthority", text(Pubkey::new_from_array([1; 32]).to_string())),
        ])
    );
}

#[test]
fn parse_vote_reads_only_the_named_keys() {
    let data = vec![4, 0, 0, 0];
    let ix = CompiledInstruction { program_id_index: 0, accounts: vec![0, 1, 2], data };
    let a = AccountKeys::new(vec![KeyBytes([1; 32]), KeyBytes([2; 32]), KeyBytes([3; 32]), KeyBytes([4; 32])], None);
    let b = AccountKeys::new(vec![KeyBytes([1; 32]), KeyBytes([2; 32]), KeyBytes([3; 32]), KeyBytes([9; 32])], None);
    assert_eq!(parse_vote(&ix, &a), parse_vote(&ix, &b));
}
