use std::collections::HashSet;
use std::sync::Arc;
use hammer::accounts::{Account, Accounts};
use hammer::batch::{contention_split, contention_total, group_size, initial_compute_budget, pick_program_id, CommandBatch};
use hammer::command_accounts::CommandAccounts;
use hammer::generator::{alloc_amount, command_kinds, cpu_iterations, fail_code, make_command, pick_kind};
use hammer::pubkey::Pubkey;

fn key(b: u8) -> Pubkey {
    Pubkey::new_from_array([b; 32])
}

#[test]
fn draw_formulas() {
    assert_eq!(fail_code(0), 1);
    assert_eq!(fail_code(254), 255);
    assert_eq!(fail_code(255), 1);
    assert_eq!(cpu_iterations(7, 12000), 2);
    assert_eq!(cpu_iterations(0, 5000), 1);
    assert_eq!(alloc_amount(1999), 1000);
    assert_eq!(alloc_amount(0), 1);
    assert_eq!(initial_compute_budget(0), 5000);
    assert_eq!(initial_compute_budget(1_394_999), 1_399_999);
    assert_eq!(initial_compute_budget(1_395_000), 5000);
}

#[test]
fn kinds_that_fit() {
    assert_eq!(command_kinds(5000, 0), vec![0, 1, 4]);
    assert_eq!(command_kinds(5000, 3), vec![0, 1, 2, 4]);
    assert_eq!(command_kinds(100, 256), vec![2]);
    assert_eq!(command_kinds(499, 1), vec![1, 2]);
    assert_eq!(command_kinds(99, 0), Vec::<u8>::new());
}

#[test]
fn failing_command() {
    let mut rng = rand::thread_rng();
    let mut slots = HashSet::new();
    let mut ca = CommandAccounts::new();
    let (data, cost) = make_command(true, &mut rng, &key(1), &mut slots, 50, &mut ca);
    assert_eq!(data.len(), 2);
    assert_eq!(data[0], 7);
    assert!(data[1] >= 1);
    assert_eq!(cost, 1000);
    assert!(slots.is_empty());
}

#[test]
fn no_command_fits_small_budget() {
    let mut rng = rand::thread_rng();
    let mut slots = HashSet::new();
    let mut ca = CommandAccounts::new();
    let (data, cost) = make_command(false, &mut rng, &key(1), &mut slots, 50, &mut ca);
    assert!(data.is_empty());
    assert_eq!(cost, 50);
}

#[test]
fn alloc_takes_least_free_slot() {
    let mut rng = rand::thread_rng();
    let mut slots: HashSet<u8> = [0u8, 1, 3].into_iter().collect();
    let mut ca = CommandAccounts::new();
    // With 100 units only alloc and free fit; repeat until an alloc is drawn.
    loop {
        let before = slots.clone();
        let (data, cost) = make_command(false, &mut rng, &key(1), &mut slots, 100, &mut ca);
        assert_eq!(cost, 100);
        if data[0] == 3 {
            let least = (0u8..=255).find(|x| !before.contains(x)).unwrap();
            assert_eq!(data.len(), 6);
            assert_eq!(data[5], least);
            let amount = u32::from_le_bytes([data[1], data[2], data[3], data[4]]);
            assert!(1 <= amount && amount <= 1000);
            assert!(slots.contains(&least) && slots.len() == before.len() + 1);
            break;
        } else {
            assert_eq!(data[0], 4);
            assert!(before.contains(&data[1]) && !slots.contains(&data[1]));
        }
    }
}

#[test]
fn free_when_all_slots_taken() {
    let mut rng = rand::thread_rng();
    let mut slots: HashSet<u8> = (0u8..=255).collect();
    let mut ca = CommandAccounts::new();
    let (data, cost) = make_command(false, &mut rng, &key(1), &mut slots, 100, &mut ca);
    assert_eq!(cost, 100);
    assert_eq!(data.len(), 2);
    assert_eq!(data[0], 4);
    assert_eq!(slots.len(), 255);
    assert!(!slots.contains(&data[1]));
}

#[test]
fn cpu_command_cost_within_budget() {
    let mut rng = rand::thread_rng();
    let mut slots: HashSet<u8> = (0u8..=255).collect();
    for _ in 0..50 {
        let mut ca = CommandAccounts::new();
        let (data, cost) = make_command(false, &mut rng, &key(1), &mut slots, 12000, &mut ca);
        assert!(cost <= 12000);
        match data[0] {
            2 => {
                let n = u32::from_le_bytes([data[1], data[2], data[3], data[4]]);
                assert!(n == 1 || n == 2);
                assert_eq!(cost, n * 5000);
            }
            4 => {
                assert_eq!(cost, 100);
                slots.insert(data[1]);
            }
            6 => assert_eq!(cost, 500),
            other => panic!("unexpected command {}", other),
        }
    }
}

fn fill_batch(rng: &mut rand::rngs::ThreadRng) -> CommandBatch {
    let mut batch = CommandBatch::new(rng);
    let mut slots = HashSet::new();
    while batch.wants_more() {
        batch.add_command(false, rng, &key(1), &mut slots);
    }
    batch
}

#[test]
fn batch_instructions_respect_limits() {
    let mut rng = rand::thread_rng();
    let mut accounts = Accounts::new();
    for b in 10..30u8 {
        accounts.add_new_account(Account { address: key(b), seed: vec![b], size: 1 });
    }
    for _ in 0..20 {
        let batch = fill_batch(&mut rng);
        let program = key(9);
        let instructions = batch.into_instructions(&mut rng, &program, &mut accounts);
        for ins in &instructions {
            assert_eq!(ins.program_id.bytes, program.bytes);
            assert!(!ins.data.is_empty());
            assert!(ins.accounts.len() <= 11);
            for m in &ins.accounts {
                assert!(!m.is_signer);
                assert!(m.pubkey.bytes[0] >= 10 && m.pubkey.bytes[0] < 30);
            }
        }
        assert_eq!(accounts.count(), 20);
    }
}

#[test]
fn failing_commands_stop_the_batch() {
    let mut rng = rand::thread_rng();
    let mut batch = CommandBatch::new(&mut rng);
    let mut slots = HashSet::new();
    let mut n = 0;
    while batch.wants_more() {
        batch.add_command(true, &mut rng, &key(1), &mut slots);
        n += 1;
    }
    // each failing command is two bytes and costs 1000 units
    assert!(n <= 1400);
    let mut accounts = Accounts::new();
    let instructions = batch.into_instructions(&mut rng, &key(9), &mut accounts);
    let total: usize = instructions.iter().map(|i| i.data.len()).sum();
    assert!(total <= 2 * n);
    assert_eq!(total % 2, 0);
    for ins in &instructions {
        assert!(ins.accounts.is_empty());
        assert!(ins.data.len() / 2 <= 600);
    }
}

#[test]
fn accounts_add_get_take() {
    let mut rng = rand::thread_rng();
    let mut accounts = Accounts::new();
    assert_eq!(accounts.count(), 0);
    assert!(accounts.get_random_account(&mut rng).is_none());
    assert!(accounts.take_random_account(&mut rng).is_none());
    accounts.add_new_account(Account { address: key(1), seed: vec![1], size: 10 });
    accounts.add_new_account(Account { address: key(1), seed: vec![2], size: 20 });
    assert_eq!(accounts.count(), 1);
    let a = accounts.get_random_account(&mut rng).unwrap();
    assert_eq!(a.seed, vec![2]);
    assert_eq!(a.size, 20);
    assert_eq!(accounts.count(), 1);
    let t = accounts.take_random_account(&mut rng).unwrap();
    assert_eq!(t.address.bytes, [1; 32]);
    assert_eq!(accounts.count(), 0);
    accounts.add_existing_account(Arc::clone(&t));
    assert_eq!(accounts.count(), 1);
}

#[test]
fn program_id_is_one_of_the_given() {
    let mut rng = rand::thread_rng();
    let ids = vec![key(3), key(4), key(5)];
    for _ in 0..50 {
        let p = pick_program_id(&mut rng, &ids);
        assert!(ids.iter().any(|k| k.bytes == p.bytes));
    }
    assert_eq!(pick_program_id(&mut rng, &vec![key(8)]).bytes, [8; 32]);
}

#[test]
fn batch_charges_come_off_the_budget() {
    let mut rng = rand::thread_rng();
    for round in 0..20 {
        let mut batch = CommandBatch::new(&mut rng);
        let initial = batch.budget_left();
        assert!(initial >= 5000 && initial < 1_400_000);
        let mut slots = HashSet::new();
        let mut steps = 0;
        while batch.wants_more() {
            // a failing command now and then, as the load generator does
            let fail = round % 4 == 0 && steps % 7 == 3;
            batch.add_command(fail, &mut rng, &key(1), &mut slots);
            steps += 1;
            let spent: u64 = batch.command_list().iter().map(|c| c.compute_units as u64).sum();
            let left = batch.budget_left() as u64;
            if left > 0 {
                assert_eq!(spent + left, initial as u64);
            }
            assert!(spent + left <= initial as u64 + 1000);
        }
    }
}

#[test]
fn kind_picked_by_draw() {
    let kinds = vec![0u8, 1, 2, 4];
    assert_eq!(pick_kind(0, &kinds), 0);
    assert_eq!(pick_kind(3, &kinds), 4);
    assert_eq!(pick_kind(6, &kinds), 2);
    assert_eq!(pick_kind(u32::MAX, &kinds), 4);
    assert_eq!(pick_kind(7, &vec![4u8]), 4);
}

#[test]
fn grouping_and_contention_draws() {
    assert_eq!(group_size(0, 5), 1);
    assert_eq!(group_size(4, 5), 5);
    assert_eq!(group_size(12, 5), 3);
    assert_eq!(group_size(u32::MAX, 1), 1);
    assert_eq!(contention_total(0, 3), 0);
    assert_eq!(contention_total(8, 3), 8);
    assert_eq!(contention_total(9, 3), 0);
    assert_eq!(contention_total(25, 0), 1);
    assert_eq!(contention_split(7, 5), (2, 3));
    assert_eq!(contention_split(4, 5), (4, 1));
    assert_eq!(contention_split(0, 1), (0, 1));
}
