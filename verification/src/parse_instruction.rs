use vstd::prelude::*;
use crate::json::JsonValue;

verus! {

/// The programs whose instructions this crate knows how to parse.
#[derive(Clone, Copy, Debug, PartialEq, Eq, Structural)]
pub enum ParsableProgram {
    AddressLookupTable,
    SplAssociatedTokenAccount,
    SplMemo,
    SplToken,
    BpfLoader,
    BpfUpgradeableLoader,
    Stake,
    System,
    Vote,
}

/// Why an instruction could not be parsed.
#[derive(Clone, Copy, Debug, PartialEq, Eq, Structural)]
pub enum ParseInstructionError {
    /// The instruction data does not decode as an instruction of the program.
    InstructionNotParsable(ParsableProgram),
    /// The instruction's account indices do not fit the account keys or the
    /// instruction's layout.
    InstructionKeyMismatch(ParsableProgram),
}

/// An instruction in readable form: its kind, and its accounts and
/// arguments as a JSON document.
#[derive(Debug, PartialEq, Eq)]
pub struct ParsedInstructionEnum {
    pub instruction_type: String,
    pub info: JsonValue,
}

/// Checks that an instruction names at least `num` accounts.
pub fn check_num_accounts(accounts: &[u8], num: usize, parsable_program: ParsableProgram) -> (res:
    Result<(), ParseInstructionError>)
    ensures
        accounts@.len() < num ==> res == Err::<(), ParseInstructionError>(
            ParseInstructionError::InstructionKeyMismatch(parsable_program),
        ),
        accounts@.len() >= num ==> res is Ok,
{
    if accounts.len() < num {
        Err(ParseInstructionError::InstructionKeyMismatch(parsable_program))
    } else {
        Ok(())
    }
}

} // verus!
