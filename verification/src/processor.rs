//! The two instructions: what each of them looks at, and what it asks of
//! the ledger.
//!
//! An invocation runs in two steps. `process_instruction` looks at the
//! accounts and the instruction and returns a `Request`: the one thing the
//! ledger has to do. The caller performs it and hands the outcome to
//! `Request::settle`, which returns the state record to write. A `Fault`
//! from either step ends the invocation: the ledger then commits nothing
//! of it.

use vstd::prelude::*;
use vstd::slice::slice_subrange;
use crate::address::{authority_seed, program_address, same_address, state_seed};
use crate::address::{authority_seed_bytes, find_program_address, state_seed_bytes};
use crate::codec::{le_value, lemma_le_value_bound, lemma_radix_pow_8, read_u64};
use crate::fault::Fault;
use crate::rent::{minimum_balance, rent_minimum_balance};
use crate::request::Request;
use crate::state::{State, RECORD_LEN};

verus! {

/// The opcode of the instruction that creates the state record.
pub const OP_INITIALIZE: u8 = 0;

/// The opcode of the instruction that burns the threshold that is due.
pub const OP_SWALLOW: u8 = 1;

/// The number of accounts that the initialisation takes: the state account,
/// the payer, and the ledger's account-creation facility.
pub const INITIALIZE_ACCOUNTS: usize = 3;

/// The number of accounts that a swallow takes: the state account, the burn
/// authority, the token account, the mint, and the ledger's burn facility.
pub const SWALLOW_ACCOUNTS: usize = 5;

/// The place of the state account among the accounts of either instruction.
pub const STATE_ACCOUNT: usize = 0;

/// The place of the payer among the accounts of the initialisation.
pub const PAYER: usize = 1;

/// The place of the burn authority among the accounts of a swallow.
pub const PROGRAM_AUTHORITY: usize = 1;

/// The place of the token account among the accounts of a swallow.
pub const PROGRAM_TOKEN_ACCOUNT: usize = 2;

/// The place of the mint among the accounts of a swallow.
pub const TOKEN_MINT: usize = 3;

/// Where a token account holds its balance: eight bytes from here on.
pub const TOKEN_AMOUNT_OFFSET: usize = 64;

/// The number of bytes of the payload that hold the initial threshold.
pub const THRESHOLD_LEN: usize = 8;

/// What an instruction reads of an account: its address and its data.
#[derive(Clone, Debug, PartialEq, Eq)]
pub struct Account {
    pub key: [u8; 32],
    pub data: Vec<u8>,
}

/// The balance that the data of a token account holds.
pub open spec fn token_balance(data: Seq<u8>) -> nat
    recommends
        data.len() >= TOKEN_AMOUNT_OFFSET + 8,
{
    le_value(data.subrange(TOKEN_AMOUNT_OFFSET as int, TOKEN_AMOUNT_OFFSET + 8))
}

/// The threshold that a payload of the initialisation holds.
pub open spec fn payload_threshold(payload: Seq<u8>) -> nat
    recommends
        payload.len() >= THRESHOLD_LEN,
{
    le_value(payload.subrange(0, THRESHOLD_LEN as int))
}

/// What the initialisation decides, given the address derived for the state
/// record and its bump.
pub open spec fn initialize_decision(
    program_id: [u8; 32],
    address: Seq<u8>,
    bump: u8,
    state_key: Seq<u8>,
    payload: Seq<u8>,
) -> Result<Request, Fault> {
    if state_key != address {
        Err(Fault::InvalidAccountData)
    } else if payload.len() < THRESHOLD_LEN {
        Err(Fault::InvalidInstructionData)
    } else {
        Ok(
            Request::CreateAccount {
                from: PAYER,
                to: STATE_ACCOUNT,
                lamports: minimum_balance(RECORD_LEN as nat) as u64,
                space: RECORD_LEN as u64,
                owner: program_id,
                bump,
                threshold: payload_threshold(payload) as u64,
            },
        )
    }
}

/// What the initialisation decides for the accounts handed in, given what
/// the derivation of the state record's address came to.
pub open spec fn initialize_outcome(
    program_id: [u8; 32],
    derived: Option<(Seq<u8>, u8)>,
    accounts: Seq<Account>,
    payload: Seq<u8>,
) -> Result<Request, Fault> {
    if accounts.len() != INITIALIZE_ACCOUNTS {
        Err(Fault::NotEnoughAccountKeys)
    } else {
        match derived {
            None => Err(Fault::InvalidSeeds),
            Some((address, bump)) => initialize_decision(
                program_id,
                address,
                bump,
                accounts[STATE_ACCOUNT as int].key@,
                payload,
            ),
        }
    }
}

/// What a swallow decides, given the addresses derived for the state record
/// and for the burn authority, and the authority's bump.
pub open spec fn swallow_decision(
    state_address: Seq<u8>,
    authority_address: Seq<u8>,
    authority_bump: u8,
    state_account: Account,
    program_authority: Account,
    program_token_account: Account,
) -> Result<Request, Fault> {
    if state_account.key@ != state_address || program_authority.key@ != authority_address {
        Err(Fault::InvalidAccountData)
    } else if state_account.data@.len() < RECORD_LEN {
        Err(Fault::AccountDataTooSmall)
    } else if program_token_account.data@.len() < TOKEN_AMOUNT_OFFSET + 8 {
        Err(Fault::AccountDataTooSmall)
    } else if token_balance(program_token_account.data@) < State::of_record(
        state_account.data@,
    ).next {
        Err(Fault::InsufficientFunds)
    } else {
        Ok(
            Request::Burn {
                account: PROGRAM_TOKEN_ACCOUNT,
                mint: TOKEN_MINT,
                authority: PROGRAM_AUTHORITY,
                amount: State::of_record(state_account.data@).next,
                bump: authority_bump,
                previous: State::of_record(state_account.data@).prev,
            },
        )
    }
}

/// What a swallow decides for the accounts handed in, given what the two
/// derivations came to.
pub open spec fn swallow_outcome(
    state_derived: Option<(Seq<u8>, u8)>,
    authority_derived: Option<(Seq<u8>, u8)>,
    accounts: Seq<Account>,
) -> Result<Request, Fault> {
    if accounts.len() != SWALLOW_ACCOUNTS {
        Err(Fault::NotEnoughAccountKeys)
    } else {
        match (state_derived, authority_derived) {
            (Some((state_address, _)), Some((authority_address, authority_bump))) => {
                swallow_decision(
                    state_address,
                    authority_address,
                    authority_bump,
                    accounts[STATE_ACCOUNT as int],
                    accounts[PROGRAM_AUTHORITY as int],
                    accounts[PROGRAM_TOKEN_ACCOUNT as int],
                )
            },
            _ => Err(Fault::InvalidSeeds),
        }
    }
}

/// What an invocation decides: the opcode is the first byte of the
/// instruction, the payload what follows it.
pub open spec fn process_outcome(
    program_id: [u8; 32],
    accounts: Seq<Account>,
    instruction_data: Seq<u8>,
) -> Result<Request, Fault> {
    if instruction_data.len() == 0 {
        Err(Fault::InvalidInstructionData)
    } else if instruction_data[0] == OP_INITIALIZE {
        initialize_outcome(
            program_id,
            program_address(state_seed(), program_id@),
            accounts,
            instruction_data.subrange(1, instruction_data.len() as int),
        )
    } else if instruction_data[0] == OP_SWALLOW {
        swallow_outcome(
            program_address(state_seed(), program_id@),
            program_address(authority_seed(), program_id@),
            accounts,
        )
    } else {
        Err(Fault::InvalidInstructionData)
    }
}

/// Reads the balance of a token account. Fails with `AccountDataTooSmall`
/// exactly when the data ends before the balance does.
pub fn read_token_balance(data: &[u8]) -> (result: Result<u64, Fault>)
    ensures
        data@.len() < TOKEN_AMOUNT_OFFSET + 8 ==> result == Err::<u64, Fault>(
            Fault::AccountDataTooSmall,
        ),
        data@.len() >= TOKEN_AMOUNT_OFFSET + 8 ==> (result matches Ok(balance) && balance
            == token_balance(data@)),
{
    if data.len() < TOKEN_AMOUNT_OFFSET + 8 {
        return Err(Fault::AccountDataTooSmall);
    }
    Ok(read_u64(data, TOKEN_AMOUNT_OFFSET))
}

/// The initialisation, for a state record whose derived address and bump
/// are `address` and `bump`.
///
/// Fails with `InvalidAccountData` exactly when the state account is not at
/// `address`; else with `InvalidInstructionData` exactly when the payload
/// has fewer than eight bytes. Else it asks for the creation of the state
/// account: paid by the payer with what keeps sixteen bytes exempt from
/// rent, owned by the program, signed for with `bump`. The request carries
/// the threshold that the first eight bytes of the payload spell.
pub fn initialize_at(
    program_id: &[u8; 32],
    address: &[u8; 32],
    bump: u8,
    state_account: &Account,
    payload: &[u8],
) -> (result: Result<Request, Fault>)
    ensures
        result == initialize_decision(*program_id, address@, bump, state_account.key@, payload@),
        state_account.key@ != address@ ==> result == Err::<Request, Fault>(
            Fault::InvalidAccountData,
        ),
        state_account.key@ == address@ && payload@.len() < THRESHOLD_LEN ==> result == Err::<
            Request,
            Fault,
        >(Fault::InvalidInstructionData),
        state_account.key@ == address@ && payload@.len() >= THRESHOLD_LEN ==> result == Ok::<
            Request,
            Fault,
        >(
            Request::CreateAccount {
                from: PAYER,
                to: STATE_ACCOUNT,
                lamports: 1_002_240,
                space: 16,
                owner: *program_id,
                bump,
                threshold: payload_threshold(payload@) as u64,
            },
        ),
        result is Ok ==> payload_threshold(payload@) <= u64::MAX,
{
    if !same_address(&state_account.key, address) {
        return Err(Fault::InvalidAccountData);
    }
    if payload.len() < THRESHOLD_LEN {
        return Err(Fault::InvalidInstructionData);
    }
    let threshold = read_u64(payload, 0);
    let lamports = rent_minimum_balance(RECORD_LEN);
    Ok(
        Request::CreateAccount {
            from: PAYER,
            to: STATE_ACCOUNT,
            lamports,
            space: RECORD_LEN as u64,
            owner: *program_id,
            bump,
            threshold,
        },
    )
}

/// A swallow, for a state record derived at `state_address` and a burn
/// authority derived at `authority_address` with `authority_bump`.
///
/// Fails with `InvalidAccountData` exactly when the state account or the
/// authority is not at its derived address; else with `AccountDataTooSmall`
/// when the state account holds no record or the token account no balance;
/// else with `InsufficientFunds` exactly when the balance is below the
/// threshold that is due. Else it asks for the burn of exactly that
/// threshold.
pub fn swallow_at(
    state_address: &[u8; 32],
    authority_address: &[u8; 32],
    authority_bump: u8,
    state_account: &Account,
    program_authority: &Account,
    program_token_account: &Account,
) -> (result: Result<Request, Fault>)
    ensures
        result == swallow_decision(
            state_address@,
            authority_address@,
            authority_bump,
            *state_account,
            *program_authority,
            *program_token_account,
        ),
        state_account.key@ != state_address@ || program_authority.key@ != authority_address@
            ==> result == Err::<Request, Fault>(Fault::InvalidAccountData),
        state_account.key@ == state_address@ && program_authority.key@ == authority_address@
            && state_account.data@.len() >= RECORD_LEN && program_token_account.data@.len()
            >= TOKEN_AMOUNT_OFFSET + 8 && token_balance(program_token_account.data@)
            < le_value(state_account.data@.subrange(8, 16)) ==> result == Err::<Request, Fault>(
            Fault::InsufficientFunds,
        ),
        result matches Ok(request) ==> (request matches Request::Burn {
            account,
            mint,
            authority,
            amount,
            bump,
            previous,
        } && account == PROGRAM_TOKEN_ACCOUNT && mint == TOKEN_MINT && authority
            == PROGRAM_AUTHORITY && amount == le_value(state_account.data@.subrange(8, 16))
            && previous == le_value(state_account.data@.subrange(0, 8)) && bump == authority_bump
            && amount <= token_balance(program_token_account.data@)),
{
    if !same_address(&state_account.key, state_address) || !same_address(
        &program_authority.key,
        authority_address,
    ) {
        return Err(Fault::InvalidAccountData);
    }
    let state = State::decode(state_account.data.as_slice())?;
    let balance = read_token_balance(program_token_account.data.as_slice())?;
    if balance < state.next {
        return Err(Fault::InsufficientFunds);
    }
    Ok(
        Request::Burn {
            account: PROGRAM_TOKEN_ACCOUNT,
            mint: TOKEN_MINT,
            authority: PROGRAM_AUTHORITY,
            amount: state.next,
            bump: authority_bump,
            previous: state.prev,
        },
    )
}

/// The initialisation: takes the state account, the payer and the ledger's
/// account-creation facility, in this order, and the threshold as payload.
///
/// Fails with `NotEnoughAccountKeys` exactly when the accounts are not
/// three; else with `InvalidSeeds` exactly when no address can be derived
/// for the state record; else as `initialize_at` does for the derived
/// address. In particular it fails with `InvalidAccountData` whenever the
/// state account is not at the address derived for it.
pub fn initialize(program_id: &[u8; 32], accounts: &[Account], payload: &[u8]) -> (result: Result<
    Request,
    Fault,
>)
    ensures
        result == initialize_outcome(
            *program_id,
            program_address(state_seed(), program_id@),
            accounts@,
            payload@,
        ),
        accounts@.len() != INITIALIZE_ACCOUNTS ==> result == Err::<Request, Fault>(
            Fault::NotEnoughAccountKeys,
        ),
        accounts@.len() == INITIALIZE_ACCOUNTS ==> (program_address(
            state_seed(),
            program_id@,
        ) matches Some((address, _)) && accounts@[STATE_ACCOUNT as int].key@ != address ==> result
            == Err::<Request, Fault>(Fault::InvalidAccountData)),
{
    if accounts.len() != INITIALIZE_ACCOUNTS {
        return Err(Fault::NotEnoughAccountKeys);
    }
    let seed = state_seed_bytes();
    match find_program_address(seed.as_slice(), program_id) {
        None => Err(Fault::InvalidSeeds),
        Some((address, bump)) => initialize_at(
            program_id,
            &address,
            bump,
            &accounts[STATE_ACCOUNT],
            payload,
        ),
    }
}

/// A swallow: takes the state account, the burn authority, the token
/// account, the mint and the ledger's burn facility, in this order.
///
/// Fails with `NotEnoughAccountKeys` exactly when the accounts are not
/// five; else with `InvalidSeeds` exactly when an address cannot be derived
/// for the state record or for the authority; else as `swallow_at` does for
/// the derived addresses. In particular it fails with `InvalidAccountData`
/// whenever the state account or the authority is not at the address
/// derived for it.
pub fn swallow(program_id: &[u8; 32], accounts: &[Account]) -> (result: Result<Request, Fault>)
    ensures
        result == swallow_outcome(
            program_address(state_seed(), program_id@),
            program_address(authority_seed(), program_id@),
            accounts@,
        ),
        accounts@.len() != SWALLOW_ACCOUNTS ==> result == Err::<Request, Fault>(
            Fault::NotEnoughAccountKeys,
        ),
        accounts@.len() == SWALLOW_ACCOUNTS ==> (program_address(state_seed(), program_id@)
            matches Some((state_address, _)) && program_address(authority_seed(), program_id@)
            matches Some((authority_address, _)) && (accounts@[STATE_ACCOUNT as int].key@
            != state_address || accounts@[PROGRAM_AUTHORITY as int].key@ != authority_address)
            ==> result == Err::<Request, Fault>(Fault::InvalidAccountData)),
{
    if accounts.len() != SWALLOW_ACCOUNTS {
        return Err(Fault::NotEnoughAccountKeys);
    }
    let state_seed = state_seed_bytes();
    let authority_seed = authority_seed_bytes();
    let state_derived = find_program_address(state_seed.as_slice(), program_id);
    let authority_derived = find_program_address(authority_seed.as_slice(), program_id);
    match (state_derived, authority_derived) {
        (Some((state_address, _)), Some((authority_address, authority_bump))) => swallow_at(
            &state_address,
            &authority_address,
            authority_bump,
            &accounts[STATE_ACCOUNT],
            &accounts[PROGRAM_AUTHORITY],
            &accounts[PROGRAM_TOKEN_ACCOUNT],
        ),
        _ => Err(Fault::InvalidSeeds),
    }
}

/// Dispatches an invocation on the first byte of the instruction: `0`
/// initialises with the rest of the instruction as payload, `1` swallows.
///
/// Fails with `InvalidInstructionData` when the instruction is empty or its
/// first byte is neither; no account is looked at then.
pub fn process_instruction(
    program_id: &[u8; 32],
    accounts: &[Account],
    instruction_data: &[u8],
) -> (result: Result<Request, Fault>)
    ensures
        result == process_outcome(*program_id, accounts@, instruction_data@),
        instruction_data@.len() == 0 || (instruction_data@[0] != OP_INITIALIZE
            && instruction_data@[0] != OP_SWALLOW) ==> result == Err::<Request, Fault>(
            Fault::InvalidInstructionData,
        ),
{
    if instruction_data.len() == 0 {
        return Err(Fault::InvalidInstructionData);
    }
    let opcode = instruction_data[0];
    if opcode == OP_INITIALIZE {
        let payload = slice_subrange(instruction_data, 1, instruction_data.len());
        initialize(program_id, accounts, payload)
    } else if opcode == OP_SWALLOW {
        swallow(program_id, accounts)
    } else {
        Err(Fault::InvalidInstructionData)
    }
}

/// An initialisation that goes through leaves a record that holds the
/// threshold of the payload twice, as `prev` and as `next`.
pub proof fn lemma_initialize_sets_both_thresholds(
    program_id: [u8; 32],
    derived: Option<(Seq<u8>, u8)>,
    accounts: Seq<Account>,
    payload: Seq<u8>,
)
    requires
        initialize_outcome(program_id, derived, accounts, payload) is Ok,
    ensures
        payload.len() >= THRESHOLD_LEN,
        initialize_outcome(program_id, derived, accounts, payload)->Ok_0.settled(Ok(())) == Ok::<
            State,
            Fault,
        >(
            State {
                prev: payload_threshold(payload) as u64,
                next: payload_threshold(payload) as u64,
            },
        ),
        payload_threshold(payload) <= u64::MAX,
{
    lemma_le_value_bound(payload.subrange(0, THRESHOLD_LEN as int));
    lemma_radix_pow_8();
}

/// A swallow that goes through burns exactly the threshold that was due
/// and leaves a record that holds it as `prev`, with the sum of the two old
/// thresholds as `next`.
pub proof fn lemma_swallow_advances_the_record(
    state_derived: Option<(Seq<u8>, u8)>,
    authority_derived: Option<(Seq<u8>, u8)>,
    accounts: Seq<Account>,
)
    requires
        swallow_outcome(state_derived, authority_derived, accounts) matches Ok(request)
            && request.settled(Ok(())) is Ok,
    ensures
        accounts.len() == SWALLOW_ACCOUNTS,
        ({
            let before = State::of_record(accounts[STATE_ACCOUNT as int].data@);
            let request = swallow_outcome(state_derived, authority_derived, accounts)->Ok_0;
            let after = request.settled(Ok(()))->Ok_0;
            &&& request matches Request::Burn { amount, .. } && amount == before.next
            &&& before.advanced() == Some(after)
            &&& after.prev == before.next
            &&& after.next == before.prev + before.next
            &&& after.well_formed()
        }),
{
}

} // verus!
