use vstd::prelude::*;

use crate::error::ProcessError;
use crate::fibonacci::fib_u32;
use crate::record::{
    decoding, encoding, lemma_decode_encode, overwritten, Fibonacci, RECORD_LEN,
};

verus! {

/// Number of bytes of an identity.
pub const IDENTITY_LEN: usize = 32;

/// The identity of a program or of an account's owner: 32 opaque bytes,
/// compared for equality only.
#[derive(Clone, Copy, Debug)]
pub struct Identity {
    pub bytes: [u8; 32],
}

impl Identity {
    /// Whether the two identities hold the same bytes.
    pub fn same_as(&self, other: &Identity) -> (r: bool)
        ensures
            r == (self.bytes@ == other.bytes@),
    {
        let mut i: usize = 0;
        while i < IDENTITY_LEN
            invariant
                0 <= i <= IDENTITY_LEN,
                self.bytes@.len() == IDENTITY_LEN,
                other.bytes@.len() == IDENTITY_LEN,
                forall|j: int| 0 <= j < i ==> self.bytes@[j] == other.bytes@[j],
            decreases IDENTITY_LEN - i,
        {
            if self.bytes[i] != other.bytes[i] {
                return false;
            }
            i = i + 1;
        }
        assert(self.bytes@ =~= other.bytes@);
        true
    }
}

/// An account handed to the program: who owns it, and its data buffer.
#[derive(Debug)]
pub struct Account {
    pub owner: Identity,
    pub data: Vec<u8>,
}

/// What a call leaves in the target account's data, given its data before
/// and the instruction data; or why the call is refused once the account has
/// passed the ownership check.
pub open spec fn updated_data(data: Seq<u8>, input: Seq<u8>) -> Result<Seq<u8>, ProcessError> {
    if input.len() == 0 {
        Err(ProcessError::MissingInput)
    } else {
        match decoding(data) {
            Err(e) => Err(e),
            Ok(_) => Ok(overwritten(data, Fibonacci { val: fib_u32(input[0]) })),
        }
    }
}

/// The new data of the first account, or the error of the call.
pub open spec fn transition(program_id: Identity, accounts: Seq<Account>, input: Seq<u8>) -> Result<
    Seq<u8>,
    ProcessError,
> {
    if accounts.len() == 0 {
        Err(ProcessError::MissingAccount)
    } else if accounts[0].owner.bytes@ != program_id.bytes@ {
        Err(ProcessError::IncorrectOwner)
    } else {
        updated_data(accounts[0].data@, input)
    }
}

/// `after` is `before` with the data of the first account replaced by `data`.
pub open spec fn target_rewritten(before: Seq<Account>, after: Seq<Account>, data: Seq<u8>) -> bool {
    &&& before.len() > 0
    &&& after.len() == before.len()
    &&& after[0].owner == before[0].owner
    &&& after[0].data@ == data
    &&& forall|i: int| 1 <= i < before.len() ==> after[i] == before[i]
}

/// Runs the program's one operation: checks that the first account is owned
/// by `program_id`, stores in it the Fibonacci number whose index is the
/// first byte of `instruction_data`, and leaves every other byte as it was.
/// On an error no account is changed.
pub fn process_instruction(
    program_id: &Identity,
    accounts: &mut Vec<Account>,
    instruction_data: &[u8],
) -> (r: Result<(), ProcessError>)
    ensures
        match transition(*program_id, old(accounts)@, instruction_data@) {
            Ok(data) => r is Ok && target_rewritten(old(accounts)@, final(accounts)@, data),
            Err(e) => r == Err::<(), ProcessError>(e) && final(accounts)@ == old(accounts)@,
        },
{
    if accounts.len() == 0 {
        return Err(ProcessError::MissingAccount);
    }
    if !accounts[0].owner.same_as(program_id) {
        return Err(ProcessError::IncorrectOwner);
    }
    if instruction_data.len() == 0 {
        return Err(ProcessError::MissingInput);
    }
    let mut record = match Fibonacci::decode(accounts[0].data.as_slice()) {
        Ok(record) => record,
        Err(e) => return Err(e),
    };
    record.calculate(instruction_data[0]);
    record.write_into(&mut accounts[0].data);
    Ok(())
}

/// Only the owner may write: when the first account is owned by another
/// program than `program_id`, the call fails with `IncorrectOwner`, and so
/// `process_instruction` leaves every account as it was.
pub proof fn lemma_wrong_owner_rejected(program_id: Identity, accounts: Seq<Account>, input: Seq<u8>)
    requires
        accounts.len() > 0,
        accounts[0].owner.bytes@ != program_id.bytes@,
    ensures
        transition(program_id, accounts, input) == Err::<Seq<u8>, ProcessError>(
            ProcessError::IncorrectOwner,
        ),
{
}

/// Empty instruction data is refused: once the first account is present and
/// owned by `program_id`, the call fails with `MissingInput`, and so
/// `process_instruction` leaves every account as it was.
pub proof fn lemma_empty_input_rejected(program_id: Identity, accounts: Seq<Account>, input: Seq<u8>)
    requires
        accounts.len() > 0,
        accounts[0].owner.bytes@ == program_id.bytes@,
        input.len() == 0,
    ensures
        transition(program_id, accounts, input) == Err::<Seq<u8>, ProcessError>(
            ProcessError::MissingInput,
        ),
{
}

/// The stored value is recomputed, not accumulated: after a successful call
/// the first account's record holds `fib_u32(input[0])` whatever it held
/// before, and a second call with the same instruction data on the accounts
/// that the first call left succeeds and writes the very same bytes again.
pub proof fn lemma_recompute_idempotent(
    program_id: Identity,
    before: Seq<Account>,
    after: Seq<Account>,
    input: Seq<u8>,
)
    requires
        transition(program_id, before, input) is Ok,
        target_rewritten(before, after, transition(program_id, before, input)->Ok_0),
    ensures
        decoding(after[0].data@) == Ok::<Fibonacci, ProcessError>(
            Fibonacci { val: fib_u32(input[0]) },
        ),
        transition(program_id, after, input) == transition(program_id, before, input),
{
    let rec = Fibonacci { val: fib_u32(input[0]) };
    let once = overwritten(before[0].data@, rec);
    lemma_decode_encode(rec);
    assert(once.take(RECORD_LEN as int) =~= encoding(rec));
    assert(decoding(once) == decoding(encoding(rec)));
    assert(overwritten(once, rec) =~= once);
}

} // verus!
