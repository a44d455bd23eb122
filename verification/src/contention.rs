use vstd::prelude::*;
use crate::client_args::{is_flag, is_error, number_option};
use crate::command_accounts::{AccountMeta, Instruction};
use crate::commands::create_account_bytes;
use crate::decimal::parse_unsigned_exec;
use crate::pubkey::{Pubkey, find_program_address, le_u64, program_address, u64_to_le_bytes, zero_address};

verus! {

/// The options of the tool that creates contention accounts, read so far.
pub struct ContentionState {
    pub fee_payer: Option<String>,
    pub rpc_node: Option<String>,
    pub program_id: Option<String>,
    pub account_count: Option<u32>,
}

/// The options of the tool that creates contention accounts.
pub struct ContentionArgs {
    /// The keypair file of the fee payer.
    pub fee_payer: String,
    pub rpc_node: String,
    /// The program, as base-58 text or a key file.
    pub program_id: String,
    pub account_count: u32,
}

/// Accounts created when `--account-count` is not given.
pub const DEFAULT_ACCOUNT_COUNT: u32 = 100;

/// One option `args[pos]` with its value `args[pos + 1]`: the state after
/// it, or the message of the error.
pub open spec fn contention_step(s: ContentionState, args: Seq<String>, pos: int) -> Result<ContentionState, Seq<char>> {
    let arg = args[pos]@;
    let has_value = pos + 1 < args.len();
    let value = args[pos + 1];
    if arg == "--fee-payer"@ {
        if s.fee_payer is Some {
            Err("Duplicate --fee-payer"@)
        } else if !has_value {
            Err("--fee-payer requires a value"@)
        } else {
            Ok(ContentionState { fee_payer: Some(value), ..s })
        }
    } else if arg == "--rpc-node"@ {
        if s.rpc_node is Some {
            Err("Duplicate --rpc-node"@)
        } else if !has_value {
            Err("--rpc-node requires a value"@)
        } else {
            Ok(ContentionState { rpc_node: Some(value), ..s })
        }
    } else if arg == "--program-id"@ {
        if s.program_id is Some {
            Err("Duplicate --program-id"@)
        } else if !has_value {
            Err("--program-id requires a value"@)
        } else {
            Ok(ContentionState { program_id: Some(value), ..s })
        }
    } else if arg == "--account-count"@ {
        if s.account_count is Some {
            Err("Duplicate --account-count"@)
        } else if !has_value {
            Err("--output-file requires a value"@)
        } else {
            match number_option(value@, u32::MAX as int) {
                Ok(v) => Ok(ContentionState { account_count: Some(v as u32), ..s }),
                Err(m) => Err(m),
            }
        }
    } else {
        Err("Invalid argument: "@ + arg)
    }
}

/// Reads the options `args` from `pos` on, from the state `s`.
pub open spec fn contention_parse(s: ContentionState, args: Seq<String>, pos: int) -> Result<ContentionState, Seq<char>>
    decreases args.len() - pos,
{
    if pos >= args.len() || pos < 0 {
        Ok(s)
    } else {
        match contention_step(s, args, pos) {
            Ok(next) => contention_parse(next, args, pos + 2),
            Err(m) => Err(m),
        }
    }
}

/// The options once all are read: fee payer, RPC node and program id are
/// required; 100 accounts unless a count is given.
pub open spec fn contention_finish(s: ContentionState) -> Result<(String, String, String, u32), Seq<char>> {
    if s.fee_payer is None {
        Err("--fee-payer argument is required"@)
    } else if s.rpc_node is None {
        Err("--rpc-node argument is required"@)
    } else if s.program_id is None {
        Err("--program-id argument is required"@)
    } else {
        Ok((
            s.fee_payer->0,
            s.rpc_node->0,
            s.program_id->0,
            match s.account_count {
                Some(n) => n,
                None => DEFAULT_ACCOUNT_COUNT,
            },
        ))
    }
}

pub open spec fn empty_contention_state() -> ContentionState {
    ContentionState { fee_payer: None, rpc_node: None, program_id: None, account_count: None }
}

/// What reading the command line `args` (without the program's name) gives.
pub open spec fn contention_args_spec(args: Seq<String>) -> Result<(String, String, String, u32), Seq<char>> {
    match contention_parse(empty_contention_state(), args, 0) {
        Ok(s) => contention_finish(s),
        Err(m) => Err(m),
    }
}

/// Reads the command line `args` (without the program's name) of the tool
/// that creates contention accounts.
pub fn parse_contention_args(args: &Vec<String>) -> (res: Result<ContentionArgs, String>)
    ensures
        match contention_args_spec(args@) {
            Ok(a) => res matches Ok(r) && r.fee_payer == a.0 && r.rpc_node == a.1 && r.program_id == a.2
                && r.account_count == a.3,
            Err(m) => is_error(res, m),
        },
{
    let mut s = ContentionState { fee_payer: None, rpc_node: None, program_id: None, account_count: None };
    let mut pos: usize = 0;
    while pos < args.len()
        invariant
            contention_parse(empty_contention_state(), args@, 0) == contention_parse(s, args@, pos as int),
        decreases args@.len() - pos,
    {
        let arg = &args[pos];
        let has_value = pos + 1 < args.len();
        if is_flag(arg, "--fee-payer") {
            if s.fee_payer.is_some() {
                return Err(String::from_str("Duplicate --fee-payer"));
            } else if !has_value {
                return Err(String::from_str("--fee-payer requires a value"));
            }
            s.fee_payer = Some(args[pos + 1].clone());
        } else if is_flag(arg, "--rpc-node") {
            if s.rpc_node.is_some() {
                return Err(String::from_str("Duplicate --rpc-node"));
            } else if !has_value {
                return Err(String::from_str("--rpc-node requires a value"));
            }
            s.rpc_node = Some(args[pos + 1].clone());
        } else if is_flag(arg, "--program-id") {
            if s.program_id.is_some() {
                return Err(String::from_str("Duplicate --program-id"));
            } else if !has_value {
                return Err(String::from_str("--program-id requires a value"));
            }
            s.program_id = Some(args[pos + 1].clone());
        } else if is_flag(arg, "--account-count") {
            if s.account_count.is_some() {
                return Err(String::from_str("Duplicate --account-count"));
            } else if !has_value {
                return Err(String::from_str("--output-file requires a value"));
            }
            match parse_unsigned_exec(args[pos + 1].as_str(), u32::MAX as u64) {
                Ok(v) => {
                    s.account_count = Some(v as u32);
                },
                Err(e) => {
                    return Err(e.message());
                },
            }
        } else {
            let mut m = String::from_str("Invalid argument: ");
            m.append(arg.as_str());
            return Err(m);
        }
        pos = pos + 2;
    }
    let ContentionState { fee_payer, rpc_node, program_id, account_count } = s;
    let fee_payer = match fee_payer {
        Some(f) => f,
        None => {
            return Err(String::from_str("--fee-payer argument is required"));
        },
    };
    let rpc_node = match rpc_node {
        Some(r) => r,
        None => {
            return Err(String::from_str("--rpc-node argument is required"));
        },
    };
    let program_id = match program_id {
        Some(p) => p,
        None => {
            return Err(String::from_str("--program-id argument is required"));
        },
    };
    let account_count = match account_count {
        Some(n) => n,
        None => DEFAULT_ACCOUNT_COUNT,
    };
    Ok(ContentionArgs { fee_payer, rpc_node, program_id, account_count })
}

} // verus!

verus! {

/// Size of each contention account, in bytes.
pub const CONTENTION_ACCOUNT_SIZE: u16 = 100;

/// The seven seed bytes of the contention account numbered `index`: the low
/// bytes of the number, little-endian.
#[verifier::opaque]
pub open spec fn index_seed(index: int) -> Seq<u8> {
    le_u64(index as u64).take(7)
}

/// The address and bump seed of the contention account numbered `index`.
pub open spec fn index_address(index: int, program_id: Seq<u8>) -> (Seq<u8>, u8) {
    program_address(index_seed(index), program_id)->0
}

/// The data of the commands that create the contention accounts numbered
/// `start` to `start + k - 1`, paid by `fee_payer`.
pub open spec fn contention_data(fee_payer: Seq<u8>, program_id: Seq<u8>, start: int, k: nat) -> Seq<u8>
    decreases k,
{
    if k == 0 {
        Seq::empty()
    } else {
        let index = start + k - 1;
        let (address, bump) = index_address(index, program_id);
        contention_data(fee_payer, program_id, start, (k - 1) as nat) + create_account_bytes(
            fee_payer,
            address,
            index_seed(index).push(bump),
            CONTENTION_ACCOUNT_SIZE,
        )
    }
}

/// The meta of a written account that does not sign.
pub open spec fn written_meta(m: AccountMeta, address: Seq<u8>) -> bool {
    m.pubkey@ == address && m.is_writable && !m.is_signer
}

/// The seven seed bytes of the account numbered `index`.
fn index_seed_exec(index: u64) -> (seed: Vec<u8>)
    ensures
        seed@ == index_seed(index as int),
{
    let bytes = u64_to_le_bytes(index);
    let mut seed: Vec<u8> = Vec::new();
    let mut b: usize = 0;
    while b < 7
        invariant
            b <= 7,
            seed@ == bytes@.take(b as int),
        decreases 7 - b,
    {
        seed.push(bytes[b]);
        assert(seed@ =~= bytes@.take(b + 1));
        b = b + 1;
    }
    proof {
        reveal(index_seed);
    }
    seed
}

/// Appends the bytes of a create-account command, as the contention tool
/// writes them.
fn append_create_bytes(data: &mut Vec<u8>, fee_payer: &Pubkey, address: &Pubkey, seed: &Vec<u8>, size: u16)
    ensures
        final(data)@ == old(data)@ + create_account_bytes(fee_payer@, address@, seed@, size),
{
    crate::pubkey::write(data, &[crate::commands::CREATE_ACCOUNT_TAG]);
    crate::pubkey::write(data, &fee_payer.to_bytes());
    crate::pubkey::write(data, &address.to_bytes());
    crate::pubkey::write(data, seed.as_slice());
    crate::pubkey::write(data, &crate::pubkey::u16_to_le_bytes(size));
    assert(data@ =~= old(data)@ + create_account_bytes(fee_payer@, address@, seed@, size));
}

/// Creates the contention accounts numbered `*account_index` on, `create_count`
/// of them, for `program_id`, paid by `fee_payer`: returns the instruction,
/// whose accounts are the fee payer, the system program and the new accounts,
/// each written and none signing; none where an address cannot be derived.
pub fn build_contention_instruction(
    fee_payer: &Pubkey,
    program_id: &Pubkey,
    account_index: &mut u64,
    create_count: u32,
) -> (res: Option<Instruction>)
    requires
        *old(account_index) + create_count <= u64::MAX,
    ensures
        res is Some <==> forall|i: int|
            0 <= i < create_count ==> #[trigger] program_address(index_seed(*old(account_index) + i), program_id@) is Some,
        res is Some ==> *final(account_index) == *old(account_index) + create_count,
        res is None ==> exists|i: int|
            0 <= i < create_count && *final(account_index) == *old(account_index) + i + 1 && #[trigger] program_address(
                index_seed(*old(account_index) + i),
                program_id@,
            ) is None,
        res matches Some(ins) ==> {
            &&& ins.program_id == *program_id
            &&& ins.data@ == contention_data(fee_payer@, program_id@, *old(account_index) as int, create_count as nat)
            &&& ins.accounts@.len() == create_count + 2
            &&& written_meta(ins.accounts@[0], fee_payer@)
            &&& written_meta(ins.accounts@[1], zero_address())
            &&& forall|i: int|
                0 <= i < create_count ==> written_meta(
                    #[trigger] ins.accounts@[i + 2],
                    index_address(*old(account_index) + i, program_id@).0,
                )
        },
{
    let start = *account_index;
    let mut data: Vec<u8> = Vec::new();
    let mut metas: Vec<AccountMeta> = Vec::new();
    metas.push(AccountMeta::new(*fee_payer, false));
    metas.push(AccountMeta::new(Pubkey::zero(), false));
    let mut i: u32 = 0;
    while i < create_count
        invariant
            i <= create_count,
            start + create_count <= u64::MAX,
            start == *old(account_index),
            *account_index == start + i,
            forall|j: int| 0 <= j < i ==> #[trigger] program_address(index_seed(start + j), program_id@) is Some,
            data@ == contention_data(fee_payer@, program_id@, start as int, i as nat),
            metas@.len() == i + 2,
            written_meta(metas@[0], fee_payer@),
            written_meta(metas@[1], zero_address()),
            forall|j: int| 0 <= j < i ==> written_meta(#[trigger] metas@[j + 2], index_address(start + j, program_id@).0),
        decreases create_count - i,
    {
        let mut seed = index_seed_exec(*account_index);
        *account_index = *account_index + 1;
        match find_program_address(seed.as_slice(), program_id) {
            Some((address, bump_seed)) => {
                seed.push(bump_seed);
                append_create_bytes(&mut data, fee_payer, &address, &seed, CONTENTION_ACCOUNT_SIZE);
                let ghost old_metas = metas@;
                metas.push(AccountMeta::new(address, false));
                assert forall|j: int| 0 <= j < i + 1 implies written_meta(
                    #[trigger] metas@[j + 2],
                    index_address(start + j, program_id@).0,
                ) by {
                    if j < i {
                        assert(metas@[j + 2] == old_metas[j + 2]);
                    }
                }
            },
            None => {
                assert(!(program_address(index_seed(start + i), program_id@) is Some));
                assert(start == *old(account_index));
                assert(!(program_address(index_seed(*old(account_index) + i as int), program_id@) is Some));
                return None;
            },
        }
        i = i + 1;
    }
    Some(Instruction::new_with_bytes(*program_id, data.as_slice(), metas))
}

} // verus!

verus! {

/// Contention accounts with different numbers below 2^56 are derived from
/// different seeds.
pub proof fn lemma_index_seeds_distinct(i: u64, j: u64)
    requires
        i != j,
        i < 0x100000000000000,
        j < 0x100000000000000,
    ensures
        index_seed(i as int) != index_seed(j as int),
{
    reveal(index_seed);
    if index_seed(i as int) == index_seed(j as int) {
        let si = index_seed(i as int);
        let sj = index_seed(j as int);
        assert(si[0] == sj[0] && si[1] == sj[1] && si[2] == sj[2] && si[3] == sj[3]);
        assert(si[4] == sj[4] && si[5] == sj[5] && si[6] == sj[6]);
        assert(i % 0x100 == j % 0x100);
        assert(i / 0x100 % 0x100 == j / 0x100 % 0x100);
        assert(i / 0x10000 % 0x100 == j / 0x10000 % 0x100);
        assert(i / 0x1000000 % 0x100 == j / 0x1000000 % 0x100);
        assert(i / 0x100000000 % 0x100 == j / 0x100000000 % 0x100);
        assert(i / 0x10000000000 % 0x100 == j / 0x10000000000 % 0x100);
        assert(i / 0x1000000000000 % 0x100 == j / 0x1000000000000 % 0x100);
        assert(i == j) by (bit_vector)
            requires
                i < 0x100000000000000,
                j < 0x100000000000000,
                i % 0x100 == j % 0x100,
                i / 0x100 % 0x100 == j / 0x100 % 0x100,
                i / 0x10000 % 0x100 == j / 0x10000 % 0x100,
                i / 0x1000000 % 0x100 == j / 0x1000000 % 0x100,
                i / 0x100000000 % 0x100 == j / 0x100000000 % 0x100,
                i / 0x10000000000 % 0x100 == j / 0x10000000000 % 0x100,
                i / 0x1000000000000 % 0x100 == j / 0x1000000000000 % 0x100,
        ;
    }
}

} // verus!
