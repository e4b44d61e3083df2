use vstd::prelude::*;
use crate::json::{
    json_view, optional_signed, optional_signed_json, optional_unsigned, optional_unsigned_json,
    push_field, unsigned_array, json_fields_view, unsigned_array_json, lemma_json_items_push, json_items_view, Json,
    JsonField, JsonValue,
};
use crate::keys::{base58, hash_to_string, pubkey_to_string, AccountKeys, CompiledInstruction, Pubkey};
use crate::parse_instruction::{
    check_num_accounts, ParsableProgram, ParseInstructionError, ParsedInstructionEnum,
};
use crate::vote_instruction::{
    decode_vote_instruction, lemma_vote_instruction_of_ignores_trailing_bytes, vote_instruction_of,
    VoteInstruction, VoteInstructionModel,
};
use crate::vote_state::{
    Lockout, Vote, VoteAuthorize, VoteModel, VoteStateUpdate, VoteStateUpdateModel,
};

verus! {

/// Checks that a vote instruction names at least `num` accounts.
pub fn check_num_vote_accounts(accounts: &[u8], num: usize) -> (res: Result<(), ParseInstructionError>)
    ensures
        accounts@.len() < num ==> res == Err::<(), ParseInstructionError>(
            ParseInstructionError::InstructionKeyMismatch(ParsableProgram::Vote),
        ),
        accounts@.len() >= num ==> res is Ok,
{
    check_num_accounts(accounts, num, ParsableProgram::Vote)
}

/// The text of the account that the instruction's `i`-th account index names.
pub open spec fn account_json(keys: Seq<Pubkey>, accounts: Seq<u8>, i: int) -> Json {
    Json::Text(base58(keys[accounts[i] as int]@))
}

/// An authority kind as JSON: the name of its variant.
pub open spec fn authority_type_json(t: VoteAuthorize) -> Json {
    match t {
        VoteAuthorize::Voter => Json::Text("Voter"@),
        VoteAuthorize::Withdrawer => Json::Text("Withdrawer"@),
    }
}

pub open spec fn vote_json(v: VoteModel) -> Json {
    Json::Object(
        seq![
            ("slots"@, unsigned_array_json(v.slots)),
            ("hash"@, Json::Text(base58(v.hash))),
            ("timestamp"@, optional_signed_json(v.timestamp)),
        ],
    )
}

pub open spec fn lockout_json(l: Lockout) -> Json {
    Json::Object(
        seq![
            ("slot"@, Json::Unsigned(l.slot)),
            ("confirmation_count"@, Json::Unsigned(l.confirmation_count as u64)),
        ],
    )
}

pub open spec fn vote_state_update_json(u: VoteStateUpdateModel) -> Json {
    Json::Object(
        seq![
            ("lockouts"@, Json::Array(Seq::new(u.lockouts.len(), |i: int| lockout_json(u.lockouts[i])))),
            ("root"@, optional_unsigned_json(u.root)),
            ("hash"@, Json::Text(base58(u.hash))),
            ("timestamp"@, optional_signed_json(u.timestamp)),
        ],
    )
}

/// The `type` that a parsed vote instruction is reported under.
pub open spec fn vote_instruction_type(ix: VoteInstructionModel) -> Seq<char> {
    match ix {
        VoteInstructionModel::InitializeAccount(_) => "initialize"@,
        VoteInstructionModel::Authorize(_, _) => "authorize"@,
        VoteInstructionModel::AuthorizeWithSeed(_) => "authorizeWithSeed"@,
        VoteInstructionModel::AuthorizeCheckedWithSeed(_) => "authorizeCheckedWithSeed"@,
        VoteInstructionModel::Vote(_) => "vote"@,
        VoteInstructionModel::UpdateVoteState(_) => "updatevotestate"@,
        VoteInstructionModel::UpdateVoteStateSwitch(_, _) => "updatevotestateswitch"@,
        VoteInstructionModel::CompactUpdateVoteState(_) => "compactupdatevotestate"@,
        VoteInstructionModel::CompactUpdateVoteStateSwitch(_, _) => "compactupdatevotestateswitch"@,
        VoteInstructionModel::Withdraw(_) => "withdraw"@,
        VoteInstructionModel::UpdateValidatorIdentity => "updateValidatorIdentity"@,
        VoteInstructionModel::UpdateCommission(_) => "updateCommission"@,
        VoteInstructionModel::VoteSwitch(_, _) => "voteSwitch"@,
        VoteInstructionModel::AuthorizeChecked(_) => "authorizeChecked"@,
    }
}

/// How many accounts an instruction of this kind must name.
pub open spec fn vote_instruction_accounts(ix: VoteInstructionModel) -> nat {
    match ix {
        VoteInstructionModel::InitializeAccount(_) => 4,
        VoteInstructionModel::Authorize(_, _) => 3,
        VoteInstructionModel::AuthorizeWithSeed(_) => 3,
        VoteInstructionModel::AuthorizeCheckedWithSeed(_) => 4,
        VoteInstructionModel::Vote(_) => 4,
        VoteInstructionModel::UpdateVoteState(_) => 2,
        VoteInstructionModel::UpdateVoteStateSwitch(_, _) => 2,
        VoteInstructionModel::CompactUpdateVoteState(_) => 2,
        VoteInstructionModel::CompactUpdateVoteStateSwitch(_, _) => 2,
        VoteInstructionModel::Withdraw(_) => 3,
        VoteInstructionModel::UpdateValidatorIdentity => 3,
        VoteInstructionModel::UpdateCommission(_) => 2,
        VoteInstructionModel::VoteSwitch(_, _) => 4,
        VoteInstructionModel::AuthorizeChecked(_) => 4,
    }
}

/// The `info` document of a parsed vote instruction.
pub open spec fn vote_instruction_info(
    ix: VoteInstructionModel,
    accounts: Seq<u8>,
    keys: Seq<Pubkey>,
) -> Json {
    let a = |i: int| account_json(keys, accounts, i);
    match ix {
        VoteInstructionModel::InitializeAccount(init) => Json::Object(
            seq![
                ("voteAccount"@, a(0)),
                ("rentSysvar"@, a(1)),
                ("clockSysvar"@, a(2)),
                ("node"@, a(3)),
                ("authorizedVoter"@, Json::Text(base58(init.authorized_voter))),
                ("authorizedWithdrawer"@, Json::Text(base58(init.authorized_withdrawer))),
                ("commission"@, Json::Unsigned(init.commission as u64)),
            ],
        ),
        VoteInstructionModel::Authorize(new_authorized, authority_type) => Json::Object(
            seq![
                ("voteAccount"@, a(0)),
                ("clockSysvar"@, a(1)),
                ("authority"@, a(2)),
                ("newAuthority"@, Json::Text(base58(new_authorized))),
                ("authorityType"@, authority_type_json(authority_type)),
            ],
        ),
        VoteInstructionModel::AuthorizeWithSeed(args) => Json::Object(
            seq![
                ("voteAccount"@, a(0)),
                ("clockSysvar"@, a(1)),
                ("authorityBaseKey"@, a(2)),
                ("authorityOwner"@, Json::Text(base58(args.owner))),
                ("authoritySeed"@, Json::Text(args.seed)),
                ("newAuthority"@, Json::Text(base58(args.new_authority))),
                ("authorityType"@, authority_type_json(args.authorization_type)),
            ],
        ),
        VoteInstructionModel::AuthorizeCheckedWithSeed(args) => Json::Object(
            seq![
                ("voteAccount"@, a(0)),
                ("clockSysvar"@, a(1)),
                ("authorityBaseKey"@, a(2)),
                ("authorityOwner"@, Json::Text(base58(args.owner))),
                ("authoritySeed"@, Json::Text(args.seed)),
                ("newAuthority"@, a(3)),
                ("authorityType"@, authority_type_json(args.authorization_type)),
            ],
        ),
        VoteInstructionModel::Vote(vote) => Json::Object(
            seq![
                ("voteAccount"@, a(0)),
                ("slotHashesSysvar"@, a(1)),
                ("clockSysvar"@, a(2)),
                ("voteAuthority"@, a(3)),
                ("vote"@, vote_json(vote)),
            ],
        ),
        VoteInstructionModel::UpdateVoteState(update) => Json::Object(
            seq![
                ("voteAccount"@, a(0)),
                ("voteAuthority"@, a(1)),
                ("voteStateUpdate"@, vote_state_update_json(update)),
            ],
        ),
        VoteInstructionModel::UpdateVoteStateSwitch(update, hash) => Json::Object(
            seq![
                ("voteAccount"@, a(0)),
                ("voteAuthority"@, a(1)),
                ("voteStateUpdate"@, vote_state_update_json(update)),
                ("hash"@, Json::Text(base58(hash))),
            ],
        ),
        VoteInstructionModel::CompactUpdateVoteState(update) => Json::Object(
            seq![
                ("voteAccount"@, a(0)),
                ("voteAuthority"@, a(1)),
                ("voteStateUpdate"@, vote_state_update_json(update)),
            ],
        ),
        VoteInstructionModel::CompactUpdateVoteStateSwitch(update, hash) => Json::Object(
            seq![
                ("voteAccount"@, a(0)),
                ("voteAuthority"@, a(1)),
                ("voteStateUpdate"@, vote_state_update_json(update)),
                ("hash"@, Json::Text(base58(hash))),
            ],
        ),
        VoteInstructionModel::Withdraw(lamports) => Json::Object(
            seq![
                ("voteAccount"@, a(0)),
                ("destination"@, a(1)),
                ("withdrawAuthority"@, a(2)),
                ("lamports"@, Json::Unsigned(lamports)),
            ],
        ),
        VoteInstructionModel::UpdateValidatorIdentity => Json::Object(
            seq![
                ("voteAccount"@, a(0)),
                ("newValidatorIdentity"@, a(1)),
                ("withdrawAuthority"@, a(2)),
            ],
        ),
        VoteInstructionModel::UpdateCommission(commission) => Json::Object(
            seq![
                ("voteAccount"@, a(0)),
                ("withdrawAuthority"@, a(1)),
                ("commission"@, Json::Unsigned(commission as u64)),
            ],
        ),
        VoteInstructionModel::VoteSwitch(vote, hash) => Json::Object(
            seq![
                ("voteAccount"@, a(0)),
                ("slotHashesSysvar"@, a(1)),
                ("clockSysvar"@, a(2)),
                ("voteAuthority"@, a(3)),
                ("vote"@, vote_json(vote)),
                ("hash"@, Json::Text(base58(hash))),
            ],
        ),
        VoteInstructionModel::AuthorizeChecked(authority_type) => Json::Object(
            seq![
                ("voteAccount"@, a(0)),
                ("clockSysvar"@, a(1)),
                ("authority"@, a(2)),
                ("newAuthority"@, a(3)),
                ("authorityType"@, authority_type_json(authority_type)),
            ],
        ),
    }
}

/// Every account index of the instruction names one of the `n` keys, and there
/// is at least one.
pub open spec fn accounts_fit(accounts: Seq<u8>, n: nat) -> bool {
    &&& accounts.len() > 0
    &&& forall|i: int| 0 <= i < accounts.len() ==> accounts[i] < n
}

/// What parsing a vote instruction yields: its `type` and `info`, or the error.
pub open spec fn parse_vote_spec(data: Seq<u8>, accounts: Seq<u8>, keys: Seq<Pubkey>) -> Result<
    (Seq<char>, Json),
    ParseInstructionError,
> {
    match vote_instruction_of(data) {
        None => Err(ParseInstructionError::InstructionNotParsable(ParsableProgram::Vote)),
        Some(ix) => if !accounts_fit(accounts, keys.len()) || accounts.len()
            < vote_instruction_accounts(ix) {
            Err(ParseInstructionError::InstructionKeyMismatch(ParsableProgram::Vote))
        } else {
            Ok((vote_instruction_type(ix), vote_instruction_info(ix, accounts, keys)))
        },
    }
}

/// The largest account index, or `None` when there is none.
fn max_account_index(accounts: &[u8]) -> (res: Option<u8>)
    ensures
        accounts@.len() == 0 <==> res is None,
        res matches Some(m) ==> (exists|i: int| 0 <= i < accounts@.len() && accounts@[i] == m)
            && (forall|i: int| 0 <= i < accounts@.len() ==> accounts@[i] <= m),
{
    if accounts.len() == 0 {
        return None;
    }
    let mut m = accounts[0];
    let mut i: usize = 1;
    while i < accounts.len()
        invariant
            1 <= i <= accounts@.len(),
            exists|j: int| 0 <= j < i && accounts@[j] == m,
            forall|j: int| 0 <= j < i ==> accounts@[j] <= m,
        decreases accounts@.len() - i,
    {
        if accounts[i] > m {
            m = accounts[i];
        }
        i = i + 1;
    }
    Some(m)
}

fn account_text(keys: &AccountKeys, accounts: &Vec<u8>, i: usize) -> (res: JsonValue)
    requires
        i < accounts@.len(),
        accounts_fit(accounts@, keys@.len()),
    ensures
        json_view(res) == account_json(keys@, accounts@, i as int),
{
    let key = keys.get(accounts[i] as usize).unwrap();
    JsonValue::Text(pubkey_to_string(key))
}

fn authority_type(t: VoteAuthorize) -> (res: JsonValue)
    ensures
        json_view(res) == authority_type_json(t),
{
    match t {
        VoteAuthorize::Voter => JsonValue::Text("Voter".to_owned()),
        VoteAuthorize::Withdrawer => JsonValue::Text("Withdrawer".to_owned()),
    }
}

fn vote_value(vote: &Vote) -> (res: JsonValue)
    ensures
        json_view(res) == vote_json(vote@),
{
    let mut fields: Vec<JsonField> = Vec::new();
    push_field(&mut fields, "slots", unsigned_array(&vote.slots));
    push_field(&mut fields, "hash", JsonValue::Text(hash_to_string(&vote.hash)));
    push_field(&mut fields, "timestamp", optional_signed(vote.timestamp));
    assert(json_fields_view(fields@) =~= seq![
        ("slots"@, unsigned_array_json(vote.slots@)),
        ("hash"@, Json::Text(base58(vote.hash@))),
        ("timestamp"@, optional_signed_json(vote.timestamp)),
    ]);
    JsonValue::Object(fields)
}

fn lockout_value(l: Lockout) -> (res: JsonValue)
    ensures
        json_view(res) == lockout_json(l),
{
    let mut fields: Vec<JsonField> = Vec::new();
    push_field(&mut fields, "slot", JsonValue::Unsigned(l.slot));
    push_field(&mut fields, "confirmation_count", JsonValue::Unsigned(l.confirmation_count as u64));
    assert(json_fields_view(fields@) =~= seq![
        ("slot"@, Json::Unsigned(l.slot)),
        ("confirmation_count"@, Json::Unsigned(l.confirmation_count as u64)),
    ]);
    JsonValue::Object(fields)
}

fn vote_state_update_value(update: &VoteStateUpdate) -> (res: JsonValue)
    ensures
        json_view(res) == vote_state_update_json(update@),
{
    let mut items: Vec<JsonValue> = Vec::new();
    let mut i: usize = 0;
    while i < update.lockouts.len()
        invariant
            i <= update.lockouts@.len(),
            json_items_view(items@) =~= Seq::new(
                i as nat,
                |j: int| lockout_json(update.lockouts@[j]),
            ),
        decreases update.lockouts@.len() - i,
    {
        let item = lockout_value(update.lockouts[i]);
        proof {
            lemma_json_items_push(items@, item);
        }
        items.push(item);
        i = i + 1;
    }
    let mut fields: Vec<JsonField> = Vec::new();
    push_field(&mut fields, "lockouts", JsonValue::Array(items));
    push_field(&mut fields, "root", optional_unsigned(update.root));
    push_field(&mut fields, "hash", JsonValue::Text(hash_to_string(&update.hash)));
    push_field(&mut fields, "timestamp", optional_signed(update.timestamp));
    assert(json_fields_view(fields@) =~= seq![
        ("lockouts"@, Json::Array(Seq::new(update.lockouts@.len(), |i: int| lockout_json(update.lockouts@[i])))),
        ("root"@, optional_unsigned_json(update.root)),
        ("hash"@, Json::Text(base58(update.hash@))),
        ("timestamp"@, optional_signed_json(update.timestamp)),
    ]);
    JsonValue::Object(fields)
}

/// The `type` of a parsed vote instruction.
fn vote_instruction_type_name(ix: &VoteInstruction) -> (res: String)
    ensures
        res@ == vote_instruction_type(ix@),
{
    match ix {
        VoteInstruction::InitializeAccount(_) => "initialize".to_owned(),
        VoteInstruction::Authorize(_, _) => "authorize".to_owned(),
        VoteInstruction::AuthorizeWithSeed(_) => "authorizeWithSeed".to_owned(),
        VoteInstruction::AuthorizeCheckedWithSeed(_) => "authorizeCheckedWithSeed".to_owned(),
        VoteInstruction::Vote(_) => "vote".to_owned(),
        VoteInstruction::UpdateVoteState(_) => "updatevotestate".to_owned(),
        VoteInstruction::UpdateVoteStateSwitch(_, _) => "updatevotestateswitch".to_owned(),
        VoteInstruction::CompactUpdateVoteState(_) => "compactupdatevotestate".to_owned(),
        VoteInstruction::CompactUpdateVoteStateSwitch(_, _) => "compactupdatevotestateswitch".to_owned(),
        VoteInstruction::Withdraw(_) => "withdraw".to_owned(),
        VoteInstruction::UpdateValidatorIdentity => "updateValidatorIdentity".to_owned(),
        VoteInstruction::UpdateCommission(_) => "updateCommission".to_owned(),
        VoteInstruction::VoteSwitch(_, _) => "voteSwitch".to_owned(),
        VoteInstruction::AuthorizeChecked(_) => "authorizeChecked".to_owned(),
    }
}

/// How many accounts a vote instruction must name.
fn vote_instruction_account_count(ix: &VoteInstruction) -> (res: usize)
    ensures
        res == vote_instruction_accounts(ix@),
{
    match ix {
        VoteInstruction::InitializeAccount(_) => 4,
        VoteInstruction::Authorize(_, _) => 3,
        VoteInstruction::AuthorizeWithSeed(_) => 3,
        VoteInstruction::AuthorizeCheckedWithSeed(_) => 4,
        VoteInstruction::Vote(_) => 4,
        VoteInstruction::UpdateVoteState(_) => 2,
        VoteInstruction::UpdateVoteStateSwitch(_, _) => 2,
        VoteInstruction::CompactUpdateVoteState(_) => 2,
        VoteInstruction::CompactUpdateVoteStateSwitch(_, _) => 2,
        VoteInstruction::Withdraw(_) => 3,
        VoteInstruction::UpdateValidatorIdentity => 3,
        VoteInstruction::UpdateCommission(_) => 2,
        VoteInstruction::VoteSwitch(_, _) => 4,
        VoteInstruction::AuthorizeChecked(_) => 4,
    }
}

/// The `info` document of a vote instruction whose accounts have been checked.
#[verifier::rlimit(50)]
fn vote_instruction_info_value(ix: &VoteInstruction, accounts: &Vec<u8>, keys: &AccountKeys) -> (res:
    JsonValue)
    requires
        accounts_fit(accounts@, keys@.len()),
        accounts@.len() >= vote_instruction_accounts(ix@),
    ensures
        json_view(res) == vote_instruction_info(ix@, accounts@, keys@),
{
    let ghost a = |i: int| account_json(keys@, accounts@, i);
    let mut f: Vec<JsonField> = Vec::new();
    match ix {
        VoteInstruction::InitializeAccount(init) => {
            push_field(&mut f, "voteAccount", account_text(keys, accounts, 0));
            push_field(&mut f, "rentSysvar", account_text(keys, accounts, 1));
            push_field(&mut f, "clockSysvar", account_text(keys, accounts, 2));
            push_field(&mut f, "node", account_text(keys, accounts, 3));
            push_field(&mut f, "authorizedVoter", JsonValue::Text(pubkey_to_string(&init.authorized_voter)));
            push_field(
                &mut f,
                "authorizedWithdrawer",
                JsonValue::Text(pubkey_to_string(&init.authorized_withdrawer)),
            );
            push_field(&mut f, "commission", JsonValue::Unsigned(init.commission as u64));
            assert(json_fields_view(f@) =~= seq![
                ("voteAccount"@, a(0)),
                ("rentSysvar"@, a(1)),
                ("clockSysvar"@, a(2)),
                ("node"@, a(3)),
                ("authorizedVoter"@, Json::Text(base58(init.authorized_voter@))),
                ("authorizedWithdrawer"@, Json::Text(base58(init.authorized_withdrawer@))),
                ("commission"@, Json::Unsigned(init.commission as u64)),
            ]);
        },
        VoteInstruction::Authorize(new_authorized, t) => {
            push_field(&mut f, "voteAccount", account_text(keys, accounts, 0));
            push_field(&mut f, "clockSysvar", account_text(keys, accounts, 1));
            push_field(&mut f, "authority", account_text(keys, accounts, 2));
            push_field(&mut f, "newAuthority", JsonValue::Text(pubkey_to_string(new_authorized)));
            push_field(&mut f, "authorityType", authority_type(*t));
            assert(json_fields_view(f@) =~= seq![
                ("voteAccount"@, a(0)),
                ("clockSysvar"@, a(1)),
                ("authority"@, a(2)),
                ("newAuthority"@, Json::Text(base58(new_authorized@))),
                ("authorityType"@, authority_type_json(*t)),
            ]);
        },
        VoteInstruction::AuthorizeWithSeed(args) => {
            push_field(&mut f, "voteAccount", account_text(keys, accounts, 0));
            push_field(&mut f, "clockSysvar", account_text(keys, accounts, 1));
            push_field(&mut f, "authorityBaseKey", account_text(keys, accounts, 2));
            push_field(
                &mut f,
                "authorityOwner",
                JsonValue::Text(pubkey_to_string(&args.current_authority_derived_key_owner)),
            );
            push_field(
                &mut f,
                "authoritySeed",
                JsonValue::Text(args.current_authority_derived_key_seed.clone()),
            );
            push_field(&mut f, "newAuthority", JsonValue::Text(pubkey_to_string(&args.new_authority)));
            push_field(&mut f, "authorityType", authority_type(args.authorization_type));
            assert(json_fields_view(f@) =~= seq![
                ("voteAccount"@, a(0)),
                ("clockSysvar"@, a(1)),
                ("authorityBaseKey"@, a(2)),
                ("authorityOwner"@, Json::Text(base58(args@.owner))),
                ("authoritySeed"@, Json::Text(args@.seed)),
                ("newAuthority"@, Json::Text(base58(args@.new_authority))),
                ("authorityType"@, authority_type_json(args@.authorization_type)),
            ]);
        },
        VoteInstruction::AuthorizeCheckedWithSeed(args) => {
            push_field(&mut f, "voteAccount", account_text(keys, accounts, 0));
            push_field(&mut f, "clockSysvar", account_text(keys, accounts, 1));
            push_field(&mut f, "authorityBaseKey", account_text(keys, accounts, 2));
            push_field(
                &mut f,
                "authorityOwner",
                JsonValue::Text(pubkey_to_string(&args.current_authority_derived_key_owner)),
            );
            push_field(
                &mut f,
                "authoritySeed",
                JsonValue::Text(args.current_authority_derived_key_seed.clone()),
            );
            push_field(&mut f, "newAuthority", account_text(keys, accounts, 3));
            push_field(&mut f, "authorityType", authority_type(args.authorization_type));
            assert(json_fields_view(f@) =~= seq![
                ("voteAccount"@, a(0)),
                ("clockSysvar"@, a(1)),
                ("authorityBaseKey"@, a(2)),
                ("authorityOwner"@, Json::Text(base58(args@.owner))),
                ("authoritySeed"@, Json::Text(args@.seed)),
                ("newAuthority"@, a(3)),
                ("authorityType"@, authority_type_json(args@.authorization_type)),
            ]);
        },
        VoteInstruction::Vote(vote) => {
            push_field(&mut f, "voteAccount", account_text(keys, accounts, 0));
            push_field(&mut f, "slotHashesSysvar", account_text(keys, accounts, 1));
            push_field(&mut f, "clockSysvar", account_text(keys, accounts, 2));
            push_field(&mut f, "voteAuthority", account_text(keys, accounts, 3));
            push_field(&mut f, "vote", vote_value(vote));
            assert(json_fields_view(f@) =~= seq![
                ("voteAccount"@, a(0)),
                ("slotHashesSysvar"@, a(1)),
                ("clockSysvar"@, a(2)),
                ("voteAuthority"@, a(3)),
                ("vote"@, vote_json(vote@)),
            ]);
        },
        VoteInstruction::UpdateVoteState(update) | VoteInstruction::CompactUpdateVoteState(update) => {
            push_field(&mut f, "voteAccount", account_text(keys, accounts, 0));
            push_field(&mut f, "voteAuthority", account_text(keys, accounts, 1));
            push_field(&mut f, "voteStateUpdate", vote_state_update_value(update));
            assert(json_fields_view(f@) =~= seq![
                ("voteAccount"@, a(0)),
                ("voteAuthority"@, a(1)),
                ("voteStateUpdate"@, vote_state_update_json(update@)),
            ]);
        },
        VoteInstruction::UpdateVoteStateSwitch(update, hash)
        | VoteInstruction::CompactUpdateVoteStateSwitch(update, hash) => {
            push_field(&mut f, "voteAccount", account_text(keys, accounts, 0));
            push_field(&mut f, "voteAuthority", account_text(keys, accounts, 1));
            push_field(&mut f, "voteStateUpdate", vote_state_update_value(update));
            push_field(&mut f, "hash", JsonValue::Text(hash_to_string(hash)));
            assert(json_fields_view(f@) =~= seq![
                ("voteAccount"@, a(0)),
                ("voteAuthority"@, a(1)),
                ("voteStateUpdate"@, vote_state_update_json(update@)),
                ("hash"@, Json::Text(base58(hash@))),
            ]);
        },
        VoteInstruction::Withdraw(lamports) => {
            push_field(&mut f, "voteAccount", account_text(keys, accounts, 0));
            push_field(&mut f, "destination", account_text(keys, accounts, 1));
            push_field(&mut f, "withdrawAuthority", account_text(keys, accounts, 2));
            push_field(&mut f, "lamports", JsonValue::Unsigned(*lamports));
            assert(json_fields_view(f@) =~= seq![
                ("voteAccount"@, a(0)),
                ("destination"@, a(1)),
                ("withdrawAuthority"@, a(2)),
                ("lamports"@, Json::Unsigned(*lamports)),
            ]);
        },
        VoteInstruction::UpdateValidatorIdentity => {
            push_field(&mut f, "voteAccount", account_text(keys, accounts, 0));
            push_field(&mut f, "newValidatorIdentity", account_text(keys, accounts, 1));
            push_field(&mut f, "withdrawAuthority", account_text(keys, accounts, 2));
            assert(json_fields_view(f@) =~= seq![
                ("voteAccount"@, a(0)),
                ("newValidatorIdentity"@, a(1)),
                ("withdrawAuthority"@, a(2)),
            ]);
        },
        VoteInstruction::UpdateCommission(commission) => {
            push_field(&mut f, "voteAccount", account_text(keys, accounts, 0));
            push_field(&mut f, "withdrawAuthority", account_text(keys, accounts, 1));
            push_field(&mut f, "commission", JsonValue::Unsigned(*commission as u64));
            assert(json_fields_view(f@) =~= seq![
                ("voteAccount"@, a(0)),
                ("withdrawAuthority"@, a(1)),
                ("commission"@, Json::Unsigned(*commission as u64)),
            ]);
        },
        VoteInstruction::VoteSwitch(vote, hash) => {
            push_field(&mut f, "voteAccount", account_text(keys, accounts, 0));
            push_field(&mut f, "slotHashesSysvar", account_text(keys, accounts, 1));
            push_field(&mut f, "clockSysvar", account_text(keys, accounts, 2));
            push_field(&mut f, "voteAuthority", account_text(keys, accounts, 3));
            push_field(&mut f, "vote", vote_value(vote));
            push_field(&mut f, "hash", JsonValue::Text(hash_to_string(hash)));
            assert(json_fields_view(f@) =~= seq![
                ("voteAccount"@, a(0)),
                ("slotHashesSysvar"@, a(1)),
                ("clockSysvar"@, a(2)),
                ("voteAuthority"@, a(3)),
                ("vote"@, vote_json(vote@)),
                ("hash"@, Json::Text(base58(hash@))),
            ]);
        },
        VoteInstruction::AuthorizeChecked(t) => {
            push_field(&mut f, "voteAccount", account_text(keys, accounts, 0));
            push_field(&mut f, "clockSysvar", account_text(keys, accounts, 1));
            push_field(&mut f, "authority", account_text(keys, accounts, 2));
            push_field(&mut f, "newAuthority", account_text(keys, accounts, 3));
            push_field(&mut f, "authorityType", authority_type(*t));
            assert(json_fields_view(f@) =~= seq![
                ("voteAccount"@, a(0)),
                ("clockSysvar"@, a(1)),
                ("authority"@, a(2)),
                ("newAuthority"@, a(3)),
                ("authorityType"@, authority_type_json(*t)),
            ]);
        },
    }
    JsonValue::Object(f)
}

/// Parses a vote-program instruction into its readable form.
///
/// The instruction data must decode as a vote instruction (else
/// `InstructionNotParsable`); the instruction must name at least one account,
/// every account index must name one of the keys, and there must be as many
/// accounts as the instruction kind uses (else `InstructionKeyMismatch`).
pub fn parse_vote(instruction: &CompiledInstruction, account_keys: &AccountKeys) -> (res: Result<
    ParsedInstructionEnum,
    ParseInstructionError,
>)
    requires
        account_keys@.len() <= usize::MAX,
    ensures
        match res {
            Ok(parsed) => parse_vote_spec(instruction.data@, instruction.accounts@, account_keys@)
                == Ok::<(Seq<char>, Json), ParseInstructionError>(
                (parsed.instruction_type@, json_view(parsed.info)),
            ),
            Err(e) => parse_vote_spec(instruction.data@, instruction.accounts@, account_keys@)
                == Err::<(Seq<char>, Json), ParseInstructionError>(e),
        },
{
    let vote_instruction = match decode_vote_instruction(&instruction.data) {
        Some(ix) => ix,
        None => return Err(ParseInstructionError::InstructionNotParsable(ParsableProgram::Vote)),
    };
    let key_count = account_keys.len();
    match max_account_index(&instruction.accounts) {
        Some(index) if (index as usize) < key_count => {},
        _ => {
            // The runtime never hands over such an instruction.
            return Err(ParseInstructionError::InstructionKeyMismatch(ParsableProgram::Vote));
        },
    }
    match check_num_vote_accounts(
        &instruction.accounts,
        vote_instruction_account_count(&vote_instruction),
    ) {
        Ok(()) => {},
        Err(e) => return Err(e),
    }
    let info = vote_instruction_info_value(&vote_instruction, &instruction.accounts, account_keys);
    Ok(
        ParsedInstructionEnum {
            instruction_type: vote_instruction_type_name(&vote_instruction),
            info,
        },
    )
}

/// Bytes after an encoded vote instruction do not change how it parses.
pub proof fn lemma_parse_vote_ignores_trailing_bytes(
    data: Seq<u8>,
    extra: Seq<u8>,
    accounts: Seq<u8>,
    keys: Seq<Pubkey>,
)
    requires
        vote_instruction_of(data) is Some,
    ensures
        parse_vote_spec(data + extra, accounts, keys) == parse_vote_spec(data, accounts, keys),
{
    lemma_vote_instruction_of_ignores_trailing_bytes(data, extra);
}

/// Parsing reads only the keys that the instruction's account indices name:
/// two key lists of the same length that agree on those keys give the same
/// result.
pub proof fn lemma_parse_vote_reads_only_named_keys(
    data: Seq<u8>,
    accounts: Seq<u8>,
    keys1: Seq<Pubkey>,
    keys2: Seq<Pubkey>,
)
    requires
        keys1.len() == keys2.len(),
        forall|i: int|
            0 <= i < accounts.len() && accounts[i] < keys1.len() ==> keys1[#[trigger] accounts[i] as int]
                == keys2[accounts[i] as int],
    ensures
        parse_vote_spec(data, accounts, keys1) == parse_vote_spec(data, accounts, keys2),
{
    assert forall|i: int| 0 <= i < accounts.len() && accounts_fit(accounts, keys1.len()) implies #[trigger] account_json(keys1, accounts, i)
        == account_json(keys2, accounts, i) by {
        assert(accounts[i] < keys1.len());
    }
    if let Some(ix) = vote_instruction_of(data) {
        if accounts_fit(accounts, keys1.len()) && accounts.len() >= vote_instruction_accounts(ix) {
            assert(vote_instruction_info(ix, accounts, keys1) =~~= vote_instruction_info(ix, accounts, keys2));
        }
    }
}

} // verus!
