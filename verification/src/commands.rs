use vstd::prelude::*;
use crate::accounts::Account;
use crate::command_accounts::{CommandAccount, CommandAccounts, merged, merged_all};
use crate::pubkey::{Pubkey, le_u16, le_u32, u16_to_le_bytes, u32_to_le_bytes, zero_address};

verus! {

/// The tag byte that starts each command.
pub const CREATE_ACCOUNT_TAG: u8 = 0;
pub const DELETE_ACCOUNT_TAG: u8 = 1;
pub const CPU_TAG: u8 = 2;
pub const ALLOC_TAG: u8 = 3;
pub const FREE_TAG: u8 = 4;
pub const CPI_TAG: u8 = 5;
pub const SYSVAR_TAG: u8 = 6;
pub const FAIL_TAG: u8 = 7;

/// The accounts that creating or deleting an account touches: the fee payer
/// (written, signing), the account (written) and the system program.
pub open spec fn account_change_accounts(
    m: Map<Seq<u8>, (bool, bool)>,
    fee_payer: Seq<u8>,
    address: Seq<u8>,
) -> Map<Seq<u8>, (bool, bool)> {
    merged(merged(merged(m, fee_payer, true, true), address, true, false), zero_address(), false, false)
}

pub open spec fn create_account_bytes(fee_payer: Seq<u8>, address: Seq<u8>, seed: Seq<u8>, size: u16) -> Seq<u8> {
    seq![CREATE_ACCOUNT_TAG] + fee_payer + address + seed + le_u16(size)
}

pub open spec fn delete_account_bytes(fee_payer: Seq<u8>, address: Seq<u8>) -> Seq<u8> {
    seq![DELETE_ACCOUNT_TAG] + fee_payer + address
}

pub open spec fn cpu_bytes(loop_count: u32) -> Seq<u8> {
    seq![CPU_TAG] + le_u32(loop_count)
}

pub open spec fn alloc_bytes(amount: u32, index: u8) -> Seq<u8> {
    seq![ALLOC_TAG] + le_u32(amount) + seq![index]
}

pub open spec fn free_bytes(index: u8) -> Seq<u8> {
    seq![FREE_TAG, index]
}

pub open spec fn sysvar_bytes() -> Seq<u8> {
    seq![SYSVAR_TAG]
}

pub open spec fn fail_bytes(error_code: u8) -> Seq<u8> {
    seq![FAIL_TAG, error_code]
}

pub open spec fn bool_byte(b: bool) -> u8 {
    if b {
        1
    } else {
        0
    }
}

/// Each account as its address, then a written byte and a signer byte.
pub open spec fn cpi_accounts_bytes(s: Seq<CommandAccount>) -> Seq<u8>
    decreases s.len(),
{
    if s.len() == 0 {
        Seq::empty()
    } else {
        cpi_accounts_bytes(s.drop_last()) + s.last().address@ + seq![
            bool_byte(s.last().is_write),
            bool_byte(s.last().is_signer),
        ]
    }
}

/// The seed part of a cross-program call: its length byte and its bytes, or
/// a single zero byte where there is none.
pub open spec fn cpi_seed_bytes(seed: Option<Seq<u8>>) -> Seq<u8> {
    match seed {
        Some(s) => seq![(s.len() % 256) as u8] + s,
        None => seq![0u8],
    }
}

pub open spec fn seed_view(seed: Option<Vec<u8>>) -> Option<Seq<u8>> {
    match seed {
        Some(s) => Some(s@),
        None => None,
    }
}

/// A cross-program call: the called program, the number of accounts (modulo
/// 256), the accounts, the data length (modulo 65536) and data, and the seed.
pub open spec fn cpi_bytes(
    program_id: Seq<u8>,
    accounts: Seq<CommandAccount>,
    data: Seq<u8>,
    seed: Option<Seq<u8>>,
) -> Seq<u8> {
    seq![CPI_TAG] + program_id + seq![(accounts.len() % 256) as u8] + cpi_accounts_bytes(accounts)
        + le_u16((data.len() % 65536) as u16) + data + cpi_seed_bytes(seed)
}

/// Appends a command that creates `account`, paid by `fee_payer`.
pub fn add_create_account_command(
    fee_payer: &Pubkey,
    account: &Account,
    command_accounts: &mut CommandAccounts,
    w: &mut Vec<u8>,
)
    ensures
        final(command_accounts)@ == account_change_accounts(old(command_accounts)@, fee_payer@, account.address@),
        final(w)@ == old(w)@ + create_account_bytes(fee_payer@, account.address@, account.seed@, account.size),
{
    command_accounts.add(fee_payer, true, true);
    command_accounts.add(&account.address, true, false);
    command_accounts.add(&Pubkey::zero(), false, false);
    crate::pubkey::write(w, &[CREATE_ACCOUNT_TAG]);
    crate::pubkey::write(w, &fee_payer.to_bytes());
    crate::pubkey::write(w, &account.address.to_bytes());
    crate::pubkey::write(w, account.seed.as_slice());
    crate::pubkey::write(w, &u16_to_le_bytes(account.size));
    assert(w@ =~= old(w)@ + create_account_bytes(fee_payer@, account.address@, account.seed@, account.size));
}

/// Appends a command that deletes `account`, returning its funds to `fee_payer`.
pub fn add_delete_account_command(
    fee_payer: &Pubkey,
    account: &Account,
    command_accounts: &mut CommandAccounts,
    w: &mut Vec<u8>,
)
    ensures
        final(command_accounts)@ == account_change_accounts(old(command_accounts)@, fee_payer@, account.address@),
        final(w)@ == old(w)@ + delete_account_bytes(fee_payer@, account.address@),
{
    command_accounts.add(fee_payer, true, true);
    command_accounts.add(&account.address, true, false);
    command_accounts.add(&Pubkey::zero(), false, false);
    crate::pubkey::write(w, &[DELETE_ACCOUNT_TAG]);
    crate::pubkey::write(w, &fee_payer.to_bytes());
    crate::pubkey::write(w, &account.address.to_bytes());
    assert(w@ =~= old(w)@ + delete_account_bytes(fee_payer@, account.address@));
}

/// Appends a command that spins for `loop_count` iterations.
pub fn add_cpu_command(loop_count: u32, _command_accounts: &mut CommandAccounts, w: &mut Vec<u8>)
    ensures
        final(_command_accounts)@ == old(_command_accounts)@,
        final(w)@ == old(w)@ + cpu_bytes(loop_count),
{
    crate::pubkey::write(w, &[CPU_TAG]);
    crate::pubkey::write(w, &u32_to_le_bytes(loop_count));
    assert(w@ =~= old(w)@ + cpu_bytes(loop_count));
}

/// Appends a command that allocates `amount` bytes into slot `index`.
pub fn add_alloc_command(amount: u32, index: u8, _command_accounts: &mut CommandAccounts, w: &mut Vec<u8>)
    ensures
        final(_command_accounts)@ == old(_command_accounts)@,
        final(w)@ == old(w)@ + alloc_bytes(amount, index),
{
    crate::pubkey::write(w, &[ALLOC_TAG]);
    crate::pubkey::write(w, &u32_to_le_bytes(amount));
    crate::pubkey::write(w, &[index]);
    assert(w@ =~= old(w)@ + alloc_bytes(amount, index));
}

/// Appends a command that frees slot `index`.
pub fn add_free_command(index: u8, _command_accounts: &mut CommandAccounts, w: &mut Vec<u8>)
    ensures
        final(_command_accounts)@ == old(_command_accounts)@,
        final(w)@ == old(w)@ + free_bytes(index),
{
    crate::pubkey::write(w, &[FREE_TAG]);
    crate::pubkey::write(w, &[index]);
    assert(w@ =~= old(w)@ + free_bytes(index));
}

/// Appends a command that calls `program_id` with `accounts` and `data`,
/// signing with `seed` where there is one.
pub fn add_cpi_command(
    program_id: &Pubkey,
    accounts: &Vec<CommandAccount>,
    data: &Vec<u8>,
    seed: Option<Vec<u8>>,
    command_accounts: &mut CommandAccounts,
    w: &mut Vec<u8>,
)
    ensures
        final(command_accounts)@ == merged_all(old(command_accounts)@, accounts@),
        final(w)@ == old(w)@ + cpi_bytes(
            program_id@,
            accounts@,
            data@,
            seed_view(seed),
        ),
{
    let mut i: usize = 0;
    while i < accounts.len()
        invariant
            i <= accounts@.len(),
            command_accounts@ == merged_all(old(command_accounts)@, accounts@.take(i as int)),
        decreases accounts@.len() - i,
    {
        let a = accounts[i];
        command_accounts.add(&a.address, a.is_write, a.is_signer);
        assert(accounts@.take(i + 1).drop_last() =~= accounts@.take(i as int));
        i = i + 1;
    }
    assert(accounts@.take(i as int) =~= accounts@);
    crate::pubkey::write(w, &[CPI_TAG]);
    crate::pubkey::write(w, &program_id.to_bytes());
    crate::pubkey::write(w, &[(accounts.len() % 256) as u8]);
    let ghost start = w@;
    let mut j: usize = 0;
    while j < accounts.len()
        invariant
            j <= accounts@.len(),
            w@ == start + cpi_accounts_bytes(accounts@.take(j as int)),
        decreases accounts@.len() - j,
    {
        let a = accounts[j];
        crate::pubkey::write(w, &a.address.to_bytes());
        crate::pubkey::write(w, &[if a.is_write { 1u8 } else { 0u8 }]);
        crate::pubkey::write(w, &[if a.is_signer { 1u8 } else { 0u8 }]);
        assert(accounts@.take(j + 1).drop_last() =~= accounts@.take(j as int));
        assert(w@ =~= start + cpi_accounts_bytes(accounts@.take(j + 1)));
        j = j + 1;
    }
    assert(accounts@.take(j as int) =~= accounts@);
    crate::pubkey::write(w, &u16_to_le_bytes((data.len() % 65536) as u16));
    crate::pubkey::write(w, data.as_slice());
    let ghost spec_seed = seed_view(seed);
    match seed {
        Some(s) => {
            crate::pubkey::write(w, &[(s.len() % 256) as u8]);
            crate::pubkey::write(w, s.as_slice());
        },
        None => {
            crate::pubkey::write(w, &[0u8]);
        },
    }
    assert(w@ =~= old(w)@ + cpi_bytes(program_id@, accounts@, data@, spec_seed));
}

/// Appends a command that reads the system variables.
pub fn add_sysvar_command(_command_accounts: &mut CommandAccounts, w: &mut Vec<u8>)
    ensures
        final(_command_accounts)@ == old(_command_accounts)@,
        final(w)@ == old(w)@ + sysvar_bytes(),
{
    crate::pubkey::write(w, &[SYSVAR_TAG]);
    assert(w@ =~= old(w)@ + sysvar_bytes());
}

/// Appends a command that makes the program fail with `error_code`.
pub fn add_fail_command(error_code: u8, _command_accounts: &mut CommandAccounts, w: &mut Vec<u8>)
    ensures
        final(_command_accounts)@ == old(_command_accounts)@,
        final(w)@ == old(w)@ + fail_bytes(error_code),
{
    crate::pubkey::write(w, &[FAIL_TAG]);
    crate::pubkey::write(w, &[error_code]);
    assert(w@ =~= old(w)@ + fail_bytes(error_code));
}

} // verus!
