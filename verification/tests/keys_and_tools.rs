use hammer::decimal::{parse_unsigned_exec, IntErrorKind};
use hammer::keyfile::{key_file_readable_exec, pubkey_from_key_file, pubkey_from_keypair_result};
use hammer::pubkey::{pubkey_from_base58, pubkey_from_decoded, pubkey_to_string, Pubkey};
use hammer::rpc::RpcClients;
use hammer::blockhash::{after_fetch, read_presented, FetchAction, ReadAction, RecentBlockhashFetcher};
use hammer::funding::{claim_transaction, needs_funding, refund_step, transfer_instruction, RefundAction};
use hammer::tools::{
    bs58_decode_input, bs58_encode_input, bs58_mode, bs58_usage, finish_tpu_args, parse_tpu_options, tpu_poll_step,
    Bs58Mode,
};

fn strings(v: &[&str]) -> Vec<String> {
    v.iter().map(|s| s.to_string()).collect()
}

#[test]
fn decimal_parse_matches_std() {
    for text in ["", "+", "-", "0", "+7", "-7", "255", "256", "12a", "a12", "99999999999999999999a", "18446744073709551615",
        "18446744073709551616", "00042", "+-1", " 1"] {
        let ours = parse_unsigned_exec(text, u64::MAX);
        match text.parse::<u64>() {
            Ok(v) => assert_eq!(ours, Ok(v), "{}", text),
            Err(e) => assert_eq!(ours.unwrap_err().message(), e.to_string(), "{}", text),
        }
        let ours8 = parse_unsigned_exec(text, 255);
        match text.parse::<u8>() {
            Ok(v) => assert_eq!(ours8, Ok(v as u64), "{}", text),
            Err(e) => assert_eq!(ours8.unwrap_err().message(), e.to_string(), "{}", text),
        }
    }
    assert_eq!(parse_unsigned_exec("256", 255), Err(IntErrorKind::PosOverflow));
    assert_eq!(parse_unsigned_exec("", 255), Err(IntErrorKind::Empty));
    assert_eq!(parse_unsigned_exec("-", 255), Err(IntErrorKind::InvalidDigit));
}

#[test]
fn base58_pubkeys() {
    let zero = pubkey_from_base58("11111111111111111111111111111111").unwrap();
    assert_eq!(zero.bytes, [0; 32]);
    let vote = pubkey_from_base58("Vote111111111111111111111111111111111111111").unwrap();
    assert_eq!(vote.bytes.to_vec(), bs58::decode("Vote111111111111111111111111111111111111111").into_vec().unwrap());
    assert!(pubkey_from_base58("0OIl").is_none());
    assert!(pubkey_from_base58("111").is_none());
    assert!(pubkey_from_base58("").is_none());
    assert!(pubkey_from_decoded(Ok(vec![5; 32])).unwrap().bytes == [5; 32]);
    assert!(pubkey_from_decoded(Ok(vec![5; 31])).is_none());
    assert!(pubkey_from_decoded(Err("bad".to_string())).is_none());
}

/// The compressed Ed25519 base point, a valid public key.
const BASE_POINT: [u8; 32] = [
    0x58, 0x66, 0x66, 0x66, 0x66, 0x66, 0x66, 0x66, 0x66, 0x66, 0x66, 0x66, 0x66, 0x66, 0x66, 0x66, 0x66, 0x66, 0x66,
    0x66, 0x66, 0x66, 0x66, 0x66, 0x66, 0x66, 0x66, 0x66, 0x66, 0x66, 0x66, 0x66,
];

fn key_file_text(bytes: &[u8]) -> String {
    format!("[{}]", bytes.iter().map(|b| b.to_string()).collect::<Vec<_>>().join(","))
}

#[test]
fn key_file_gives_public_key() {
    let mut bytes = vec![7u8; 32];
    bytes.extend_from_slice(&BASE_POINT);
    let text = key_file_text(&bytes);
    assert!(key_file_readable_exec(&text));
    let pk = pubkey_from_key_file("id.json", &text).unwrap();
    assert_eq!(pk.bytes, BASE_POINT);
}

#[test]
fn key_file_errors() {
    assert_eq!(pubkey_from_key_file("k", "abc").err().unwrap(), "Short key file");
    assert_eq!(pubkey_from_key_file("k", "").err().unwrap(), "Short key file");
    let text = "[1,2,3]";
    assert!(key_file_readable_exec(text));
    let e = pubkey_from_key_file("k.json", text).err().unwrap();
    let dalek = ed25519_dalek::Keypair::from_bytes(&[1, 2, 3]).err().unwrap().to_string();
    assert_eq!(e, format!("Invalid key file 'k.json' contents: {}", dalek));
    assert!(!key_file_readable_exec("[1,x]"));
    assert!(!key_file_readable_exec(",1"));
    assert!(!key_file_readable_exec("[1,256]"));
    assert!(!key_file_readable_exec("[1,2"));
    assert!(!key_file_readable_exec("[1,2]\n"));
    assert!(key_file_readable_exec("no commas"));
    let r = pubkey_from_keypair_result("p", Err("boom".to_string()));
    assert_eq!(r.err().unwrap(), "Invalid key file 'p' contents: boom");
    assert_eq!(pubkey_from_keypair_result("p", Ok([3; 32])).unwrap().bytes, [3; 32]);
}

#[test]
fn round_robin_clients() {
    let mut clients = RpcClients::new(vec![10, 20, 30]);
    assert_eq!(*clients.get(), 20);
    assert_eq!(*clients.get(), 30);
    assert_eq!(*clients.get(), 10);
    assert_eq!(*clients.get(), 20);
    let mut one = RpcClients::new(vec!["only"]);
    assert_eq!(*one.get(), "only");
    assert_eq!(*one.get(), "only");
}

#[test]
fn round_robin_covers_all_clients() {
    let mut clients = RpcClients::new((0..5).collect::<Vec<u32>>());
    let mut seen: Vec<u32> = (0..5).map(|_| *clients.get()).collect();
    seen.sort();
    assert_eq!(seen, vec![0, 1, 2, 3, 4]);
}

#[test]
fn funding_rules() {
    assert!(needs_funding(0));
    assert!(needs_funding(9_999_999));
    assert!(!needs_funding(10_000_000));
    let mut left = 2u64;
    assert!(claim_transaction(&mut left));
    assert!(claim_transaction(&mut left));
    assert!(!claim_transaction(&mut left));
    assert_eq!(left, 0);
}

#[test]
fn transfer_between_accounts() {
    let a = Pubkey::new_from_array([1; 32]);
    let b = Pubkey::new_from_array([2; 32]);
    assert!(transfer_instruction(&a, &Pubkey::new_from_array([1; 32]), 5).is_none());
    let ins = transfer_instruction(&a, &b, 5).unwrap();
    let expected = solana_sdk::system_instruction::transfer(
        &solana_sdk::pubkey::Pubkey::new_from_array([1; 32]),
        &solana_sdk::pubkey::Pubkey::new_from_array([2; 32]),
        5,
    );
    assert_eq!(ins.data, expected.data);
    assert_eq!(ins.data, vec![2, 0, 0, 0, 5, 0, 0, 0, 0, 0, 0, 0]);
    let big = transfer_instruction(&a, &b, 1_000_000_000).unwrap();
    assert_eq!(big.data, vec![2, 0, 0, 0, 0x00, 0xca, 0x9a, 0x3b, 0, 0, 0, 0]);
    assert_eq!(ins.program_id.bytes, [0; 32]);
    assert_eq!(ins.accounts.len(), 2);
    assert!(ins.accounts[0].is_signer && ins.accounts[0].is_writable && ins.accounts[0].pubkey.bytes == [1; 32]);
    assert!(!ins.accounts[1].is_signer && ins.accounts[1].is_writable && ins.accounts[1].pubkey.bytes == [2; 32]);
}

#[test]
fn tpu_options() {
    let o = parse_tpu_options(&strings(&["--gossip-entrypoint", "h:1", "--output-file", "out"])).unwrap();
    assert_eq!(o.gossip_entrypoint, Some("h:1".to_string()));
    assert_eq!(o.output_file, Some("out".to_string()));
    let err = |v: &[&str]| parse_tpu_options(&strings(v)).err().unwrap();
    assert_eq!(err(&["--output-file", "o"]), "--gossip-entrypoint argument is required");
    assert_eq!(err(&["--gossip-entrypoint", "a", "--gossip-entrypoint", "b"]), "Duplicate --gossip-entrypoint");
    assert_eq!(err(&["--gossip-entrypoint"]), "--gossip-entrypoint requires a value");
    assert_eq!(err(&["--output-file", "a", "--output-file", "b"]), "Duplicate --output-file");
    assert_eq!(err(&["--output-file"]), "--output-file requires a value");
    assert_eq!(err(&["-x"]), "Invalid argument: -x");
    assert_eq!(finish_tpu_args(Ok(5u8), Some("f".to_string())), Ok((5u8, "f".to_string())));
    assert_eq!(finish_tpu_args(Ok(5u8), None), Err("--output-file argument is required".to_string()));
    assert_eq!(finish_tpu_args::<u8>(Err("bad host".to_string()), None), Err("bad host".to_string()));
}

#[test]
fn tpu_polls_stop_after_sixty_stable() {
    let mut unchanged = 0u32;
    let mut polls = 0;
    loop {
        let (u, done) = tpu_poll_step(unchanged, 10, 10);
        polls += 1;
        unchanged = u;
        if done {
            break;
        }
    }
    assert_eq!(polls, 60);
    assert_eq!(tpu_poll_step(30, 10, 11), (0, false));
    assert_eq!(tpu_poll_step(30, 10, 9), (30, false));
    assert_eq!(tpu_poll_step(59, 3, 3), (60, true));
}

#[test]
fn bs58_tool() {
    assert!(matches!(bs58_mode(&"-h".to_string()), Bs58Mode::Help));
    assert!(matches!(bs58_mode(&"--help".to_string()), Bs58Mode::Help));
    assert!(matches!(bs58_mode(&"help".to_string()), Bs58Mode::Help));
    assert!(matches!(bs58_mode(&"-e".to_string()), Bs58Mode::Encode));
    assert!(matches!(bs58_mode(&"-d".to_string()), Bs58Mode::Decode));
    assert!(matches!(bs58_mode(&"".to_string()), Bs58Mode::Invalid));
    assert_eq!(bs58_encode_input(b"hello"), "Cn8eVZg");
    assert_eq!(bs58_encode_input(&[0, 0, 1]), "112");
    assert_eq!(bs58_decode_input(b"Cn8eVZg").unwrap(), b"hello".to_vec());
    let e = bs58_decode_input(b"0").err().unwrap();
    assert_eq!(e, format!("Invalid input: {}", bs58::decode("0").into_vec().err().unwrap()));
    assert!(bs58_usage().starts_with("\nUsage: bs58 -e [string] [< bytes]\n"));
    assert!(bs58_usage().ends_with("via stdin\n\n"));
}

#[test]
fn blockhash_fetch_and_read() {
    match after_fetch(Some([7; 32])) {
        FetchAction::Publish { hash, delay_secs, refresh_secs } => {
            assert_eq!(hash, [7; 32]);
            assert_eq!(delay_secs, 1);
            assert_eq!(refresh_secs, 30);
        }
        FetchAction::Retry => panic!("a fetched blockhash is published"),
    }
    assert!(matches!(after_fetch(None), FetchAction::Retry));
    assert!(matches!(read_presented(None), ReadAction::WaitMillis(100)));
    match read_presented(Some([9; 32])) {
        ReadAction::Use(h) => assert_eq!(h, [9; 32]),
        ReadAction::WaitMillis(_) => panic!("a presented blockhash is used"),
    }
}

#[test]
fn blockhash_presented_over_time() {
    let mut fetcher = RecentBlockhashFetcher::new();
    assert!(matches!(fetcher.get(), ReadAction::WaitMillis(100)));
    for (fetched, expected) in [
        (None, None),
        (Some([1; 32]), Some([1; 32])),
        (None, Some([1; 32])),
        (Some([2; 32]), Some([2; 32])),
        (None, Some([2; 32])),
    ] {
        fetcher.publish(&after_fetch(fetched));
        match (fetcher.get(), expected) {
            (ReadAction::Use(h), Some(e)) => assert_eq!(h, e),
            (ReadAction::WaitMillis(ms), None) => assert_eq!(ms, 100),
            _ => panic!("presented the wrong blockhash"),
        }
    }
}

#[test]
fn refund_decisions() {
    let payer = Pubkey::new_from_array([1; 32]);
    let source = Pubkey::new_from_array([2; 32]);
    assert!(matches!(refund_step(None, &payer, &source), RefundAction::Retry));
    assert!(matches!(refund_step(Some(0), &payer, &source), RefundAction::Stop));
    assert!(matches!(refund_step(Some(5), &payer, &Pubkey::new_from_array([1; 32])), RefundAction::Stop));
    assert!(matches!(refund_step(Some(5), &payer, &source), RefundAction::SendBack { amount: 5 }));
}

#[test]
fn claims_by_many_callers_run_exactly_the_total() {
    // eight callers take turns on one shared count, each stopping at its
    // first refused claim, as the load generator's threads do
    let mut left = 1000u64;
    let mut granted = 0u64;
    let mut running = [true; 8];
    while running.iter().any(|r| *r) {
        for r in running.iter_mut().filter(|r| **r) {
            if claim_transaction(&mut left) {
                granted += 1;
            } else {
                *r = false;
            }
        }
    }
    assert_eq!(granted, 1000);
    assert_eq!(left, 0);
}

#[test]
fn address_text_reads_back() {
    for b in [[0u8; 32], [1u8; 32], [255u8; 32]] {
        let p = Pubkey::new_from_array(b);
        let text = pubkey_to_string(&p);
        assert_eq!(text, solana_sdk::pubkey::Pubkey::new_from_array(b).to_string());
        assert_eq!(pubkey_from_base58(&text).unwrap().bytes, b);
    }
    assert_eq!(pubkey_to_string(&Pubkey::new_from_array([0; 32])), "11111111111111111111111111111111");
}
