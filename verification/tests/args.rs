use hammer::client_args::{add_program_id, finish_args, parse_step, ArgStep, Args, ArgsState};
use hammer::contention::parse_contention_args;
use hammer::pubkey::pubkey_from_base58;

fn strings(v: &[&str]) -> Vec<String> {
    v.iter().map(|s| s.to_string()).collect()
}

/// Runs the option steps the way the load generator does, resolving program
/// ids as base-58 text only.
fn parse(v: &[&str]) -> Result<Args, String> {
    let args = strings(v);
    let mut state = ArgsState::new();
    let mut pos = 0usize;
    loop {
        match parse_step(&mut state, &args, &mut pos)? {
            ArgStep::Done => break,
            ArgStep::Continue => {}
            ArgStep::ReadFundsSource(_) => {}
            ArgStep::ResolveProgramId(text) => {
                let pk = pubkey_from_base58(&text).ok_or("not base58".to_string())?;
                add_program_id(&mut state, pk)?;
            }
        }
    }
    finish_args(state)
}

const ZERO_KEY: &str = "11111111111111111111111111111111";
const OTHER_KEY: &str = "Vote111111111111111111111111111111111111111";

#[test]
fn client_args_full_command_line() {
    let a = parse(&[
        "--rpc-server", "http://a", "--rpc-server", "http://b", "--funds-source", "f.json", "--program-id", ZERO_KEY,
        "--program-id", OTHER_KEY, "--total-transactions", "+42", "--num-threads", "3", "--keys-dir", "k",
    ])
    .unwrap();
    assert_eq!(a.rpc_servers, strings(&["http://a", "http://b"]));
    assert_eq!(a.rpc_from_gossip, None);
    assert_eq!(a.funds_source, "f.json");
    assert_eq!(a.program_ids.len(), 2);
    assert_eq!(a.program_ids[0].bytes, [0; 32]);
    assert_eq!(a.total_transactions, Some(42));
    assert_eq!(a.num_threads, 3);
    assert_eq!(a.keys_dir, "k");
}

#[test]
fn client_args_defaults() {
    let a = parse(&["--rpc-from-gossip", "host:1", "--funds-source", "f", "--program-id", ZERO_KEY]).unwrap();
    assert_eq!(a.keys_dir, "./keys");
    assert_eq!(a.num_threads, 8);
    assert_eq!(a.total_transactions, None);
    assert_eq!(a.rpc_from_gossip, Some("host:1".to_string()));
}

#[test]
fn client_args_errors() {
    let base = ["--funds-source", "f", "--program-id", ZERO_KEY];
    assert_eq!(parse(&["--keys-dir", "a", "--keys-dir", "b"]).err().unwrap(), "Duplicate --keys-dir argument");
    assert_eq!(parse(&["--keys-dir"]).err().unwrap(), "--keys-dir requires a value");
    assert_eq!(
        parse(&["--rpc-server", "x", "--rpc-from-gossip", "y"]).err().unwrap(),
        "Only one of --rpc-from-gossip and --rpc-server may be used"
    );
    assert_eq!(
        parse(&["--rpc-from-gossip", "y", "--rpc-server", "x"]).err().unwrap(),
        "Only one of --rpc-server and --rpc-from-gossip may be used"
    );
    assert_eq!(
        parse(&["--rpc-from-gossip", "y", "--rpc-from-gossip", "x"]).err().unwrap(),
        "Duplicate --rpc-from-gossip argument"
    );
    assert_eq!(parse(&["--rpc-server"]).err().unwrap(), "--rpc-server requires a value");
    assert_eq!(parse(&["--rpc-from-gossip"]).err().unwrap(), "--rpc-from-gossip requires a value");
    assert_eq!(parse(&["--funds-source", "a", "--funds-source", "b"]).err().unwrap(), "Duplicate --funds-source argument");
    assert_eq!(parse(&["--funds-source"]).err().unwrap(), "--funds-source requires a value");
    assert_eq!(parse(&["--program-id"]).err().unwrap(), "--program-id requires a value");
    assert_eq!(
        parse(&["--program-id", ZERO_KEY, "--program-id", ZERO_KEY]).err().unwrap(),
        format!("Duplicate program id: {}", ZERO_KEY)
    );
    assert_eq!(parse(&["--total-transactions", "x"]).err().unwrap(), "invalid digit found in string");
    assert_eq!(parse(&["--total-transactions", ""]).err().unwrap(), "cannot parse integer from empty string");
    assert_eq!(parse(&["--num-threads", "4294967296"]).err().unwrap(), "number too large to fit in target type");
    assert_eq!(
        parse(&["--total-transactions", "1", "--total-transactions", "2"]).err().unwrap(),
        "Duplicate --total-transactions argument"
    );
    assert_eq!(parse(&["--total-transactions"]).err().unwrap(), "--total-transactions requires a value");
    assert_eq!(parse(&["--num-threads", "1", "--num-threads", "2"]).err().unwrap(), "Duplicate --num-threads argument");
    assert_eq!(parse(&["--num-threads"]).err().unwrap(), "--num-threads requires a value");
    assert_eq!(parse(&["--bogus"]).err().unwrap(), "Invalid argument: --bogus");
    assert_eq!(
        parse(&base).err().unwrap(),
        "If --rpc-from-gossip is not set, then at least one RPC server specified via --rpc-server option is required"
    );
    assert_eq!(parse(&["--rpc-server", "x", "--program-id", ZERO_KEY]).err().unwrap(), "--funds-source argument is required");
    assert_eq!(
        parse(&["--rpc-server", "x", "--funds-source", "f"]).err().unwrap(),
        "At least one program id specified via --program-id option is required"
    );
    assert_eq!(
        parse(&["--rpc-server", "x", "--funds-source", "f", "--program-id", ZERO_KEY, "--num-threads", "0"]).err().unwrap(),
        "--num-threads must takea nonzero argument"
    );
}

#[test]
fn client_args_steps() {
    let args = strings(&["--funds-source", "f.json", "--program-id", "abc"]);
    let mut state = ArgsState::new();
    let mut pos = 0usize;
    match parse_step(&mut state, &args, &mut pos).unwrap() {
        ArgStep::ReadFundsSource(p) => assert_eq!(p, "f.json"),
        _ => panic!("expected funds source"),
    }
    assert_eq!(pos, 2);
    assert_eq!(state.funds_source, Some("f.json".to_string()));
    match parse_step(&mut state, &args, &mut pos).unwrap() {
        ArgStep::ResolveProgramId(t) => assert_eq!(t, "abc"),
        _ => panic!("expected program id"),
    }
    assert!(matches!(parse_step(&mut state, &args, &mut pos).unwrap(), ArgStep::Done));
    assert_eq!(pos, 4);
}

#[test]
fn contention_args_parse() {
    let a = parse_contention_args(&strings(&["--fee-payer", "p.json", "--rpc-node", "http://n", "--program-id", "X"])).unwrap();
    assert_eq!(a.fee_payer, "p.json");
    assert_eq!(a.rpc_node, "http://n");
    assert_eq!(a.program_id, "X");
    assert_eq!(a.account_count, 100);
    let a = parse_contention_args(&strings(&[
        "--account-count", "7", "--program-id", "X", "--rpc-node", "n", "--fee-payer", "p",
    ]))
    .unwrap();
    assert_eq!(a.account_count, 7);
}

#[test]
fn contention_args_errors() {
    let err = |v: &[&str]| parse_contention_args(&strings(v)).err().unwrap();
    assert_eq!(err(&["--fee-payer", "a", "--fee-payer", "b"]), "Duplicate --fee-payer");
    assert_eq!(err(&["--fee-payer"]), "--fee-payer requires a value");
    assert_eq!(err(&["--rpc-node", "a", "--rpc-node", "b"]), "Duplicate --rpc-node");
    assert_eq!(err(&["--rpc-node"]), "--rpc-node requires a value");
    assert_eq!(err(&["--program-id", "a", "--program-id", "b"]), "Duplicate --program-id");
    assert_eq!(err(&["--program-id"]), "--program-id requires a value");
    assert_eq!(err(&["--account-count", "1", "--account-count", "2"]), "Duplicate --account-count");
    assert_eq!(err(&["--account-count"]), "--output-file requires a value");
    assert_eq!(err(&["--account-count", "-1"]), "invalid digit found in string");
    assert_eq!(err(&["--x"]), "Invalid argument: --x");
    assert_eq!(err(&[]), "--fee-payer argument is required");
    assert_eq!(err(&["--fee-payer", "a"]), "--rpc-node argument is required");
    assert_eq!(err(&["--fee-payer", "a", "--rpc-node", "b"]), "--program-id argument is required");
}
