use std::collections::HashSet;
use hammer::accounts::{Account, Accounts};
use hammer::contention::build_contention_instruction;
use hammer::creation::{
    batch_size, build_create_accounts, build_delete_instruction, contention_accounts_to_create, restore_accounts,
    take_delete_batch,
};
use hammer::pubkey::Pubkey;

fn solana_key(b: [u8; 32]) -> solana_sdk::pubkey::Pubkey {
    solana_sdk::pubkey::Pubkey::new_from_array(b)
}

#[test]
fn batch_counts() {
    assert_eq!(contention_accounts_to_create(1), 4);
    assert_eq!(contention_accounts_to_create(5), 20);
    assert_eq!(contention_accounts_to_create(100), 20);
    assert_eq!(contention_accounts_to_create(0), 0);
    assert_eq!(batch_size(20), 8);
    assert_eq!(batch_size(8), 8);
    assert_eq!(batch_size(3), 3);
}

#[test]
fn create_accounts_instruction() {
    let mut rng = rand::thread_rng();
    let mut accounts = Accounts::new();
    let payer = Pubkey::new_from_array([1; 32]);
    let program = Pubkey::new_from_array([2; 32]);
    let ins = build_create_accounts(&mut rng, &payer, &program, 3, &mut accounts).unwrap();
    assert_eq!(accounts.count(), 3);
    assert_eq!(ins.program_id.bytes, [2; 32]);
    assert_eq!(ins.data.len(), 3 * (1 + 32 + 32 + 8 + 2));
    assert_eq!(ins.accounts.len(), 5);
    for chunk in ins.data.chunks(75) {
        assert_eq!(chunk[0], 0);
        assert_eq!(&chunk[1..33], &[1u8; 32]);
        let seed = &chunk[65..72];
        let (address, bump) = solana_sdk::pubkey::Pubkey::find_program_address(&[seed], &solana_key([2; 32]));
        assert_eq!(&chunk[33..65], address.as_ref());
        assert_eq!(chunk[72], bump);
        let size = u16::from_le_bytes([chunk[73], chunk[74]]);
        assert!(size <= 10 * 1024);
    }
    let payer_meta = ins.accounts.iter().find(|m| m.pubkey.bytes == [1; 32]).unwrap();
    assert!(payer_meta.is_signer && payer_meta.is_writable);
    let system = ins.accounts.iter().find(|m| m.pubkey.bytes == [0; 32]).unwrap();
    assert!(!system.is_signer && !system.is_writable);
}

#[test]
fn contention_instruction_matches_derivation() {
    let payer = Pubkey::new_from_array([1; 32]);
    let program = Pubkey::new_from_array([2; 32]);
    let mut index = 5u64;
    let ins = build_contention_instruction(&payer, &program, &mut index, 2).unwrap();
    assert_eq!(index, 7);
    let mut expected = vec![];
    let mut addresses = vec![];
    for i in 5u64..7 {
        let seed = &i.to_le_bytes()[0..7];
        let (address, bump) = solana_sdk::pubkey::Pubkey::find_program_address(&[seed], &solana_key([2; 32]));
        expected.push(0u8);
        expected.extend_from_slice(&[1; 32]);
        expected.extend_from_slice(address.as_ref());
        expected.extend_from_slice(seed);
        expected.push(bump);
        expected.extend_from_slice(&100u16.to_le_bytes());
        addresses.push(address);
    }
    assert_eq!(ins.data, expected);
    assert_eq!(ins.accounts.len(), 4);
    assert_eq!(ins.accounts[0].pubkey.bytes, [1; 32]);
    assert_eq!(ins.accounts[1].pubkey.bytes, [0; 32]);
    assert_eq!(ins.accounts[2].pubkey.bytes, addresses[0].to_bytes());
    assert_eq!(ins.accounts[3].pubkey.bytes, addresses[1].to_bytes());
    assert!(ins.accounts.iter().all(|m| m.is_writable && !m.is_signer));
}

#[test]
fn delete_batch_then_restore_gives_accounts_back() {
    let mut rng = rand::thread_rng();
    let mut accounts = Accounts::new();
    for b in 1..12u8 {
        accounts.add_new_account(Account { address: Pubkey::new_from_array([b; 32]), seed: vec![b], size: 1 });
    }
    let batch = take_delete_batch(&mut accounts, &mut rng);
    assert_eq!(batch.len(), 8);
    assert_eq!(accounts.count(), 3);
    let distinct: HashSet<[u8; 32]> = batch.iter().map(|a| a.address.bytes).collect();
    assert_eq!(distinct.len(), 8);
    let payer = Pubkey::new_from_array([99; 32]);
    let ins = build_delete_instruction(&payer, &Pubkey::new_from_array([98; 32]), &batch);
    assert_eq!(ins.data.len(), 8 * 65);
    assert_eq!(ins.accounts.len(), 10);
    for (i, a) in batch.iter().enumerate() {
        assert_eq!(ins.data[i * 65], 1);
        assert_eq!(&ins.data[i * 65 + 33..i * 65 + 65], &a.address.bytes);
    }
    restore_accounts(&mut accounts, batch);
    assert_eq!(accounts.count(), 11);
    let mut seen = HashSet::new();
    let mut rest = take_delete_batch(&mut accounts, &mut rng);
    rest.extend(take_delete_batch(&mut accounts, &mut rng));
    for a in &rest {
        assert_eq!(a.seed, vec![a.address.bytes[0]]);
        seen.insert(a.address.bytes[0]);
    }
    assert_eq!(seen, (1..12u8).collect::<HashSet<u8>>());
    assert_eq!(accounts.count(), 0);
    assert!(take_delete_batch(&mut accounts, &mut rng).is_empty());
}
