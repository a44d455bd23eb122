use hammer::command_accounts::{AccountMeta, CommandAccount, CommandAccounts};
use hammer::commands::{
    add_alloc_command, add_cpi_command, add_cpu_command, add_create_account_command, add_delete_account_command,
    add_fail_command, add_free_command, add_sysvar_command,
};
use hammer::accounts::Account;
use hammer::pubkey::{u16_to_le_bytes, u32_to_le_bytes, u64_to_le_bytes, Pubkey};

fn key(b: u8) -> Pubkey {
    Pubkey::new_from_array([b; 32])
}

fn meta_for(metas: &[AccountMeta], k: &Pubkey) -> Option<(bool, bool)> {
    metas.iter().find(|m| m.pubkey.bytes == k.bytes).map(|m| (m.is_writable, m.is_signer))
}

#[test]
fn write_appends_bytes() {
    let mut w = vec![1u8, 2];
    hammer::pubkey::write(&mut w, &[3, 4, 5]);
    assert_eq!(w, vec![1, 2, 3, 4, 5]);
    hammer::pubkey::write(&mut w, &[]);
    assert_eq!(w, vec![1, 2, 3, 4, 5]);
}

#[test]
fn little_endian_bytes() {
    assert_eq!(u16_to_le_bytes(0x1234), [0x34, 0x12]);
    assert_eq!(u32_to_le_bytes(0x12345678), [0x78, 0x56, 0x34, 0x12]);
    assert_eq!(u64_to_le_bytes(0x0102030405060708), 0x0102030405060708u64.to_le_bytes());
    assert_eq!(u16_to_le_bytes(u16::MAX), u16::MAX.to_le_bytes());
}

#[test]
fn create_account_command_bytes_and_accounts() {
    let fee_payer = key(1);
    let account = Account { address: key(2), seed: vec![9, 8, 7], size: 0x0102 };
    let mut ca = CommandAccounts::new();
    let mut w = vec![];
    add_create_account_command(&fee_payer, &account, &mut ca, &mut w);
    let mut expected = vec![0u8];
    expected.extend_from_slice(&[1; 32]);
    expected.extend_from_slice(&[2; 32]);
    expected.extend_from_slice(&[9, 8, 7]);
    expected.extend_from_slice(&[0x02, 0x01]);
    assert_eq!(w, expected);
    assert_eq!(ca.count(), 3);
    let metas = ca.get_account_metas();
    assert_eq!(meta_for(&metas, &fee_payer), Some((true, true)));
    assert_eq!(meta_for(&metas, &key(2)), Some((true, false)));
    assert_eq!(meta_for(&metas, &Pubkey::zero()), Some((false, false)));
}

#[test]
fn delete_account_command_bytes() {
    let fee_payer = key(1);
    let account = Account { address: key(2), seed: vec![], size: 5 };
    let mut ca = CommandAccounts::new();
    let mut w = vec![];
    add_delete_account_command(&fee_payer, &account, &mut ca, &mut w);
    let mut expected = vec![1u8];
    expected.extend_from_slice(&[1; 32]);
    expected.extend_from_slice(&[2; 32]);
    assert_eq!(w, expected);
    assert_eq!(ca.count(), 3);
}

#[test]
fn simple_command_bytes() {
    let mut ca = CommandAccounts::new();
    let mut w = vec![];
    add_cpu_command(7, &mut ca, &mut w);
    assert_eq!(w, vec![2, 7, 0, 0, 0]);
    let mut w = vec![];
    add_alloc_command(1000, 3, &mut ca, &mut w);
    assert_eq!(w, vec![3, 0xe8, 0x03, 0, 0, 3]);
    let mut w = vec![];
    add_free_command(200, &mut ca, &mut w);
    assert_eq!(w, vec![4, 200]);
    let mut w = vec![];
    add_sysvar_command(&mut ca, &mut w);
    assert_eq!(w, vec![6]);
    let mut w = vec![];
    add_fail_command(42, &mut ca, &mut w);
    assert_eq!(w, vec![7, 42]);
    assert_eq!(ca.count(), 0);
}

#[test]
fn cpi_command_bytes() {
    let program = key(5);
    let accounts = vec![
        CommandAccount { address: key(6), is_write: true, is_signer: false },
        CommandAccount { address: key(7), is_write: false, is_signer: true },
    ];
    let data = vec![9u8, 9];
    let mut ca = CommandAccounts::new();
    let mut w = vec![];
    add_cpi_command(&program, &accounts, &data, Some(vec![1, 2]), &mut ca, &mut w);
    let mut expected = vec![5u8];
    expected.extend_from_slice(&[5; 32]);
    expected.push(2);
    expected.extend_from_slice(&[6; 32]);
    expected.extend_from_slice(&[1, 0]);
    expected.extend_from_slice(&[7; 32]);
    expected.extend_from_slice(&[0, 1]);
    expected.extend_from_slice(&[2, 0]);
    expected.extend_from_slice(&[9, 9]);
    expected.extend_from_slice(&[2, 1, 2]);
    assert_eq!(w, expected);
    let metas = ca.get_account_metas();
    assert_eq!(metas.len(), 2);
    assert_eq!(meta_for(&metas, &key(6)), Some((true, false)));
    assert_eq!(meta_for(&metas, &key(7)), Some((false, true)));

    let mut w2 = vec![];
    add_cpi_command(&program, &vec![], &vec![], None, &mut CommandAccounts::new(), &mut w2);
    let mut expected2 = vec![5u8];
    expected2.extend_from_slice(&[5; 32]);
    expected2.extend_from_slice(&[0, 0, 0, 0]);
    assert_eq!(w2, expected2);
}

#[test]
fn command_accounts_merge_flags() {
    let mut ca = CommandAccounts::new();
    ca.add(&key(1), false, false);
    ca.add(&key(1), true, false);
    ca.add(&key(1), false, false);
    ca.add(&key(2), false, true);
    assert_eq!(ca.count(), 2);
    let metas = ca.get_account_metas();
    assert_eq!(meta_for(&metas, &key(1)), Some((true, false)));
    assert_eq!(meta_for(&metas, &key(2)), Some((false, true)));
}

#[test]
fn command_accounts_add_is_idempotent_and_commutes() {
    let mut a = CommandAccounts::new();
    a.add(&key(1), true, false);
    a.add(&key(2), false, true);
    a.add(&key(1), true, false);
    let mut b = CommandAccounts::new();
    b.add(&key(2), false, true);
    b.add(&key(1), true, false);
    let ma = a.get_account_metas();
    let mb = b.get_account_metas();
    assert_eq!(ma.len(), mb.len());
    for k in [key(1), key(2)] {
        assert_eq!(meta_for(&ma, &k), meta_for(&mb, &k));
    }
}

#[test]
fn command_accounts_union() {
    let mut a = CommandAccounts::new();
    a.add(&key(1), false, true);
    a.add(&key(3), false, false);
    let mut b = CommandAccounts::new();
    b.add(&key(1), true, false);
    b.add(&key(2), false, false);
    a.add_command_accounts(&b);
    assert_eq!(a.count(), 3);
    let metas = a.get_account_metas();
    assert_eq!(meta_for(&metas, &key(1)), Some((true, true)));
    assert_eq!(meta_for(&metas, &key(2)), Some((false, false)));
    assert_eq!(meta_for(&metas, &key(3)), Some((false, false)));
}

#[test]
fn account_meta_constructors() {
    let m = AccountMeta::new(key(4), true);
    assert!(m.is_writable && m.is_signer);
    let m = AccountMeta::new_readonly(key(4), false);
    assert!(!m.is_writable && !m.is_signer);
}
