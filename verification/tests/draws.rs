use std::collections::HashSet;
use hammer::accounts::{Account, Accounts};
use hammer::batch::{contention_plan, instruction_with_contention, program_id_at, take_group, Command};
use hammer::blockhash::{after_fetch, RecentBlockhashFetcher};
use hammer::command_accounts::CommandAccounts;
use hammer::creation::{account_from_draws, create_accounts_from_draws, take_batch_at};
use hammer::funding::TransactionCount;
use hammer::generator::command_from_draws;
use hammer::pubkey::Pubkey;
use hammer::rpc::RpcClients;

fn key(b: u8) -> Pubkey {
    Pubkey::new_from_array([b; 32])
}

fn command(units: u32, byte: u8) -> Command {
    Command { data: vec![byte], accounts: CommandAccounts::new(), compute_units: units }
}

fn pool(n: u8) -> Accounts {
    let mut accounts = Accounts::new();
    for b in 1..=n {
        accounts.add_new_account(Account { address: key(b), seed: vec![b], size: 1 });
    }
    accounts
}

#[test]
fn command_chosen_by_draws() {
    let mut ca = CommandAccounts::new();
    let mut slots: HashSet<u8> = HashSet::new();
    // failing: error code from the parameter draw
    assert_eq!(command_from_draws(true, 9, 300, &mut slots, 12000, &mut ca), (vec![7, 46], 1000));
    // kinds that fit 12000 with no slot in use: cpu, alloc, sysvar
    assert_eq!(command_from_draws(false, 0, 7, &mut slots, 12000, &mut ca), (vec![2, 2, 0, 0, 0], 10000));
    assert_eq!(command_from_draws(false, 2, 7, &mut slots, 12000, &mut ca), (vec![6], 500));
    assert_eq!(command_from_draws(false, 1, 1999, &mut slots, 12000, &mut ca), (vec![3, 0xe8, 3, 0, 0, 0], 100));
    assert!(slots.contains(&0));
    assert_eq!(command_from_draws(false, 1, 4, &mut slots, 12000, &mut ca), (vec![3, 5, 0, 0, 0, 1], 100));
    // with slots in use: cpu, alloc, free, sysvar; a free gives back a slot in use
    let (data, cost) = command_from_draws(false, 2, 0, &mut slots, 12000, &mut ca);
    assert_eq!(cost, 100);
    assert_eq!(data[0], 4);
    assert!(data[1] <= 1 && !slots.contains(&data[1]));
    // nothing fits: the whole budget is used
    assert_eq!(command_from_draws(false, 5, 5, &mut HashSet::new(), 50, &mut ca), (vec![], 50));
}

#[test]
fn program_and_accounts_picked_by_draws() {
    let ids = vec![key(3), key(4), key(5)];
    assert_eq!(program_id_at(0, &ids).bytes, [3; 32]);
    assert_eq!(program_id_at(7, &ids).bytes, [4; 32]);
    let accounts = pool(3);
    assert_eq!(accounts.account_at(4).unwrap().address.bytes, [2; 32]);
    assert!(Accounts::new().account_at(4).is_none());
    let mut accounts = pool(3);
    let taken = accounts.take_account_at(0).unwrap();
    assert_eq!(taken.address.bytes, [1; 32]);
    // the last account takes the place of the one taken
    assert_eq!(accounts.account_at(0).unwrap().address.bytes, [3; 32]);
    assert_eq!(accounts.count(), 2);
}

#[test]
fn delete_batch_taken_by_draws() {
    let mut accounts = pool(4);
    let batch = take_batch_at(&mut accounts, &vec![1, 1, 7, 9, 9]);
    let got: Vec<u8> = batch.iter().map(|a| a.address.bytes[0]).collect();
    // [1,2,3,4] -> take 2 -> [1,4,3]; take 4 -> [1,3]; take 3 (7 % 2 = 1) -> [1]; take 1
    assert_eq!(got, vec![2, 4, 3, 1]);
    assert_eq!(accounts.count(), 0);
}

#[test]
fn accounts_created_from_draws() {
    let program = key(9);
    let a = account_from_draws(0x0102030405060708, 10241 + 17, &program).unwrap();
    assert_eq!(&a.seed[..7], &[8, 7, 6, 5, 4, 3, 2]);
    assert_eq!(a.size, 17);
    let (address, bump) =
        solana_sdk::pubkey::Pubkey::find_program_address(&[&a.seed[..7]], &solana_sdk::pubkey::Pubkey::new_from_array([9; 32]));
    assert_eq!(a.address.bytes, address.to_bytes());
    assert_eq!(a.seed[7], bump);
    let mut accounts = Accounts::new();
    let ins = create_accounts_from_draws(&vec![(1, 2), (3, 4)], &key(1), &program, &mut accounts).unwrap();
    assert_eq!(accounts.count(), 2);
    assert_eq!(ins.data.len(), 2 * (1 + 32 + 32 + 8 + 2));
}

#[test]
fn group_taken_by_draw() {
    let mut cmds = vec![command(100, 1), command(200, 2), command(300, 3)];
    let (data, _, kept, dropped) = take_group(&mut cmds, 1);
    assert_eq!((data, kept, dropped), (vec![1, 2], 2, false));
    assert_eq!(cmds.len(), 1);
    let mut cmds = vec![command(500_000, 1), command(200_000, 2), command(300, 3)];
    let (data, _, kept, dropped) = take_group(&mut cmds, 2);
    assert_eq!((data, kept, dropped), (vec![1], 1, true));
    assert_eq!(cmds.len(), 1);
    assert_eq!(cmds[0].data, vec![3]);
}

#[test]
fn contention_counts_and_accounts_by_draws() {
    assert_eq!(contention_plan(12, 5, 5), (0, 0));
    assert_eq!(contention_plan(2, 10, 3), (0, 0));
    assert_eq!(contention_plan(2, 7, 3), (3, 4));
    assert_eq!(contention_plan(0, 13, 0), (0, 1));
    let accounts = pool(3);
    let ins = instruction_with_contention(&key(9), vec![6], CommandAccounts::new(), &accounts, &vec![0, 3], &vec![1]);
    assert_eq!(ins.data, vec![6]);
    assert_eq!(ins.accounts.len(), 2);
    let meta = |b: u8| ins.accounts.iter().find(|m| m.pubkey.bytes == [b; 32]).map(|m| m.is_writable);
    assert_eq!(meta(1), Some(false));
    assert_eq!(meta(2), Some(true));
    assert!(ins.accounts.iter().all(|m| !m.is_signer));
}

#[test]
fn clients_in_turn_and_counted_claims() {
    let mut clients = RpcClients::new(vec![10u32, 11, 12]);
    let got: Vec<u32> = (0..5).map(|_| *clients.get()).collect();
    assert_eq!(got, vec![11, 12, 10, 11, 12]);
    let mut count = TransactionCount::new(3);
    let granted = (0..5).filter(|_| count.claim()).count();
    assert_eq!(granted, 3);
    assert_eq!(count.left(), 0);
    let mut fetcher = RecentBlockhashFetcher::new();
    fetcher.publish(&after_fetch(Some([4; 32])));
    fetcher.publish(&after_fetch(None));
    assert!(matches!(fetcher.get(), hammer::blockhash::ReadAction::Use(h) if h == [4; 32]));
}
