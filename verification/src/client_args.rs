use vstd::prelude::*;
use crate::decimal::{parse_unsigned, parse_unsigned_exec};
use crate::pubkey::{Pubkey, base58_encoding, pubkey_to_string};

verus! {

/// Whether the argument `arg` is the option `flag`.
pub fn is_flag(arg: &String, flag: &str) -> (b: bool)
    ensures
        b == (arg@ == flag@),
{
    *arg == String::from_str(flag)
}

/// The options of the load generator read so far.
pub struct ArgsState {
    pub keys_dir: Option<String>,
    pub rpc_from_gossip: Option<String>,
    pub rpc_servers: Vec<String>,
    /// The keypair file of the funds source, once named.
    pub funds_source: Option<String>,
    pub program_ids: Vec<Pubkey>,
    pub total_transactions: Option<u64>,
    pub num_threads: Option<u32>,
}

/// What the caller is to do after one step of reading the options.
pub enum ArgStep {
    /// The option was taken; read the next one.
    Continue,
    /// Read the keypair file at this path (the funds source), then go on.
    ReadFundsSource(String),
    /// Make an address of this text (base 58, or a key file), then hand it
    /// to `add_program_id`.
    ResolveProgramId(String),
    /// There are no more options.
    Done,
}

/// The options of the load generator, checked.
pub struct Args {
    pub keys_dir: String,
    pub rpc_from_gossip: Option<String>,
    pub rpc_servers: Vec<String>,
    /// The keypair file of the funds source.
    pub funds_source: String,
    pub program_ids: Vec<Pubkey>,
    pub total_transactions: Option<u64>,
    pub num_threads: u32,
}

/// The addresses are all different.
pub open spec fn distinct_keys(s: Seq<Pubkey>) -> bool {
    forall|i: int, j: int| 0 <= i < s.len() && 0 <= j < s.len() && i != j ==> #[trigger] s[i]@ != #[trigger] s[j]@
}

impl ArgsState {
    /// At most one way of finding RPC servers is chosen, and no program id
    /// is given twice.
    pub open spec fn consistent(&self) -> bool {
        &&& !(self.rpc_from_gossip is Some && self.rpc_servers@.len() > 0)
        &&& distinct_keys(self.program_ids@)
    }

    pub fn new() -> (s: ArgsState)
        ensures
            s.keys_dir is None,
            s.rpc_from_gossip is None,
            s.rpc_servers@.len() == 0,
            s.funds_source is None,
            s.program_ids@.len() == 0,
            s.total_transactions is None,
            s.num_threads is None,
            s.consistent(),
    {
        ArgsState {
            keys_dir: None,
            rpc_from_gossip: None,
            rpc_servers: Vec::new(),
            funds_source: None,
            program_ids: Vec::new(),
            total_transactions: None,
            num_threads: None,
        }
    }
}

/// The number that `text` gives for an option read as an unsigned number no
/// larger than `max`, or the text of the parse error.
pub open spec fn number_option(text: Seq<char>, max: int) -> Result<int, Seq<char>> {
    match parse_unsigned(text, max) {
        Ok(v) => Ok(v),
        Err(e) => Err(e.spec_message()),
    }
}

fn parse_number(text: &String, max: u64) -> (r: Result<u64, String>)
    ensures
        match number_option(text@, max as int) {
            Ok(v) => r == Ok::<u64, String>(v as u64) && 0 <= v <= max,
            Err(m) => r matches Err(e) && e@ == m,
        },
{
    match parse_unsigned_exec(text.as_str(), max) {
        Ok(v) => Ok(v),
        Err(e) => Err(e.message()),
    }
}

fn message(text: &str) -> (m: String)
    ensures
        m@ == text@,
{
    String::from_str(text)
}

} // verus!

verus! {

/// `res` is the error whose message is `text`.
pub open spec fn is_error<T>(res: Result<T, String>, text: Seq<char>) -> bool {
    res matches Err(m) && m@ == text
}

/// The field numbers of `ArgsState`, for `unchanged_but`.
pub open spec fn unchanged_but(old: ArgsState, new: ArgsState, field: int) -> bool {
    &&& (field == 0 || new.keys_dir == old.keys_dir)
    &&& (field == 1 || new.rpc_from_gossip == old.rpc_from_gossip)
    &&& (field == 2 || new.rpc_servers@ == old.rpc_servers@)
    &&& (field == 3 || new.funds_source == old.funds_source)
    &&& (field == 4 || new.program_ids@ == old.program_ids@)
    &&& (field == 5 || new.total_transactions == old.total_transactions)
    &&& (field == 6 || new.num_threads == old.num_threads)
}

/// One step of reading the options `args` at position `pos`: `new` and
/// `new_pos` are the state and position after it, `res` what it gave.
pub open spec fn parse_step_spec(
    old: ArgsState,
    args: Seq<String>,
    pos: int,
    new: ArgsState,
    new_pos: int,
    res: Result<ArgStep, String>,
) -> bool {
    if pos >= args.len() {
        res matches Ok(ArgStep::Done) && unchanged_but(old, new, -1) && new_pos == pos
    } else {
        let arg = args[pos]@;
        let has_value = pos + 1 < args.len();
        let value = args[pos + 1];
        let next = pos + 2;
        if arg == "--keys-dir"@ {
            if old.keys_dir is Some {
                is_error(res, "Duplicate --keys-dir argument"@)
            } else if !has_value {
                is_error(res, "--keys-dir requires a value"@)
            } else {
                res matches Ok(ArgStep::Continue) && new.keys_dir == Some(value) && unchanged_but(old, new, 0)
                    && new_pos == next
            }
        } else if arg == "--rpc-from-gossip"@ {
            if old.rpc_from_gossip is Some {
                is_error(res, "Duplicate --rpc-from-gossip argument"@)
            } else if old.rpc_servers@.len() > 0 {
                is_error(res, "Only one of --rpc-from-gossip and --rpc-server may be used"@)
            } else if !has_value {
                is_error(res, "--rpc-from-gossip requires a value"@)
            } else {
                res matches Ok(ArgStep::Continue) && new.rpc_from_gossip == Some(value) && unchanged_but(old, new, 1)
                    && new_pos == next
            }
        } else if arg == "--rpc-server"@ {
            if old.rpc_from_gossip is Some {
                is_error(res, "Only one of --rpc-server and --rpc-from-gossip may be used"@)
            } else if !has_value {
                is_error(res, "--rpc-server requires a value"@)
            } else {
                res matches Ok(ArgStep::Continue) && new.rpc_servers@ == old.rpc_servers@.push(value)
                    && unchanged_but(old, new, 2) && new_pos == next
            }
        } else if arg == "--funds-source"@ {
            if old.funds_source is Some {
                is_error(res, "Duplicate --funds-source argument"@)
            } else if !has_value {
                is_error(res, "--funds-source requires a value"@)
            } else {
                res matches Ok(ArgStep::ReadFundsSource(path)) && path == value && new.funds_source == Some(value)
                    && unchanged_but(old, new, 3) && new_pos == next
            }
        } else if arg == "--program-id"@ {
            if !has_value {
                is_error(res, "--program-id requires a value"@)
            } else {
                res matches Ok(ArgStep::ResolveProgramId(text)) && text == value && unchanged_but(old, new, -1)
                    && new_pos == next
            }
        } else if arg == "--total-transactions"@ {
            if old.total_transactions is Some {
                is_error(res, "Duplicate --total-transactions argument"@)
            } else if !has_value {
                is_error(res, "--total-transactions requires a value"@)
            } else {
                match number_option(value@, u64::MAX as int) {
                    Ok(v) => res matches Ok(ArgStep::Continue) && new.total_transactions == Some(v as u64)
                        && unchanged_but(old, new, 5) && new_pos == next,
                    Err(m) => is_error(res, m),
                }
            }
        } else if arg == "--num-threads"@ {
            if old.num_threads is Some {
                is_error(res, "Duplicate --num-threads argument"@)
            } else if !has_value {
                is_error(res, "--num-threads requires a value"@)
            } else {
                match number_option(value@, u32::MAX as int) {
                    Ok(v) => res matches Ok(ArgStep::Continue) && new.num_threads == Some(v as u32)
                        && unchanged_but(old, new, 6) && new_pos == next,
                    Err(m) => is_error(res, m),
                }
            }
        } else {
            is_error(res, "Invalid argument: "@ + arg)
        }
    }
}

/// Reads the option at `*pos` of `args` (the command line without the
/// program's name), with its value where it takes one.
pub fn parse_step(state: &mut ArgsState, args: &Vec<String>, pos: &mut usize) -> (res: Result<ArgStep, String>)
    requires
        *old(pos) <= args@.len(),
    ensures
        parse_step_spec(*old(state), args@, *old(pos) as int, *final(state), *final(pos) as int, res),
        res is Ok ==> *final(pos) <= args@.len(),
        old(state).consistent() && res is Ok ==> final(state).consistent(),
        res matches Ok(ArgStep::Done) ==> *old(pos) >= args@.len() && final(state).model() == old(state).model(),
        (res matches Ok(ArgStep::Continue) || res matches Ok(ArgStep::ReadFundsSource(_))) ==> *old(pos) < args@.len()
            && *final(pos) == *old(pos) + 2 && forall|id: Result<Pubkey, Seq<char>>|
            #[trigger] step_model(old(state).model(), args@, *old(pos) as int, id) == Ok::<ArgsModel, Seq<char>>(
                final(state).model(),
            ),
        res matches Ok(ArgStep::ResolveProgramId(text)) ==> *old(pos) < args@.len() && *final(pos) == *old(pos) + 2
            && text == args@[*old(pos) + 1] && final(state).model() == old(state).model() && forall|
            id: Result<Pubkey, Seq<char>>,
        | #[trigger] step_model(old(state).model(), args@, *old(pos) as int, id) == add_id_model(old(state).model(), id),
        res matches Err(e) ==> *old(pos) < args@.len() && forall|id: Result<Pubkey, Seq<char>>|
            #[trigger] step_model(old(state).model(), args@, *old(pos) as int, id) == Err::<ArgsModel, Seq<char>>(e@),
{
    let p = *pos;
    if p >= args.len() {
        return Ok(ArgStep::Done);
    }
    let arg = &args[p];
    let has_value = p + 1 < args.len();
    if is_flag(arg, "--keys-dir") {
        if state.keys_dir.is_some() {
            Err(message("Duplicate --keys-dir argument"))
        } else if !has_value {
            Err(message("--keys-dir requires a value"))
        } else {
            state.keys_dir = Some(args[p + 1].clone());
            *pos = p + 2;
            Ok(ArgStep::Continue)
        }
    } else if is_flag(arg, "--rpc-from-gossip") {
        if state.rpc_from_gossip.is_some() {
            Err(message("Duplicate --rpc-from-gossip argument"))
        } else if state.rpc_servers.len() > 0 {
            Err(message("Only one of --rpc-from-gossip and --rpc-server may be used"))
        } else if !has_value {
            Err(message("--rpc-from-gossip requires a value"))
        } else {
            state.rpc_from_gossip = Some(args[p + 1].clone());
            *pos = p + 2;
            Ok(ArgStep::Continue)
        }
    } else if is_flag(arg, "--rpc-server") {
        if state.rpc_from_gossip.is_some() {
            Err(message("Only one of --rpc-server and --rpc-from-gossip may be used"))
        } else if !has_value {
            Err(message("--rpc-server requires a value"))
        } else {
            state.rpc_servers.push(args[p + 1].clone());
            *pos = p + 2;
            Ok(ArgStep::Continue)
        }
    } else if is_flag(arg, "--funds-source") {
        if state.funds_source.is_some() {
            Err(message("Duplicate --funds-source argument"))
        } else if !has_value {
            Err(message("--funds-source requires a value"))
        } else {
            state.funds_source = Some(args[p + 1].clone());
            *pos = p + 2;
            Ok(ArgStep::ReadFundsSource(args[p + 1].clone()))
        }
    } else if is_flag(arg, "--program-id") {
        if !has_value {
            Err(message("--program-id requires a value"))
        } else {
            *pos = p + 2;
            Ok(ArgStep::ResolveProgramId(args[p + 1].clone()))
        }
    } else if is_flag(arg, "--total-transactions") {
        if state.total_transactions.is_some() {
            Err(message("Duplicate --total-transactions argument"))
        } else if !has_value {
            Err(message("--total-transactions requires a value"))
        } else {
            match parse_number(&args[p + 1], u64::MAX) {
                Ok(v) => {
                    state.total_transactions = Some(v);
                    *pos = p + 2;
                    Ok(ArgStep::Continue)
                },
                Err(e) => Err(e),
            }
        }
    } else if is_flag(arg, "--num-threads") {
        if state.num_threads.is_some() {
            Err(message("Duplicate --num-threads argument"))
        } else if !has_value {
            Err(message("--num-threads requires a value"))
        } else {
            match parse_number(&args[p + 1], u32::MAX as u64) {
                Ok(v) => {
                    state.num_threads = Some(v as u32);
                    *pos = p + 2;
                    Ok(ArgStep::Continue)
                },
                Err(e) => Err(e),
            }
        }
    } else {
        let mut m = String::from_str("Invalid argument: ");
        m.append(arg.as_str());
        Err(m)
    }
}

} // verus!

verus! {

/// Records a program id that a `--program-id` option named; one named before
/// is refused.
pub fn add_program_id(state: &mut ArgsState, program_id: Pubkey) -> (res: Result<(), String>)
    ensures
        (exists|i: int| 0 <= i < old(state).program_ids@.len() && #[trigger] old(state).program_ids@[i]@ == program_id@)
            ==> is_error(res, "Duplicate program id: "@ + base58_encoding(program_id@)),
        !(exists|i: int| 0 <= i < old(state).program_ids@.len() && #[trigger] old(state).program_ids@[i]@ == program_id@)
            ==> res is Ok && final(state).program_ids@ == old(state).program_ids@.push(program_id) && unchanged_but(
            *old(state),
            *final(state),
            4,
        ),
        old(state).consistent() && res is Ok ==> final(state).consistent(),
        add_id_model(old(state).model(), Ok(program_id)) == match res {
            Ok(_) => Ok::<ArgsModel, Seq<char>>(final(state).model()),
            Err(e) => Err::<ArgsModel, Seq<char>>(e@),
        },
{
    let mut i: usize = 0;
    while i < state.program_ids.len()
        invariant
            i <= state.program_ids@.len(),
            forall|j: int| 0 <= j < i ==> state.program_ids@[j]@ != program_id@,
        decreases state.program_ids@.len() - i,
    {
        if state.program_ids[i].same_as(&program_id) {
            let mut m = String::from_str("Duplicate program id: ");
            let text = pubkey_to_string(&program_id);
            m.append(text.as_str());
            return Err(m);
        }
        i = i + 1;
    }
    state.program_ids.push(program_id);
    Ok(())
}

/// The message for a command line that names no way of finding RPC servers.
pub open spec fn no_rpc_message() -> Seq<char> {
    "If --rpc-from-gossip is not set, then at least one RPC server specified via --rpc-server option is required"@
}

/// The options once all are read: the keys directory defaults to `./keys`
/// and the number of threads to 8; a way of finding RPC servers, a funds
/// source and a program id are required, and the number of threads may not
/// be zero.
pub fn finish_args(state: ArgsState) -> (res: Result<Args, String>)
    ensures
        state.rpc_from_gossip is None && state.rpc_servers@.len() == 0 ==> is_error(res, no_rpc_message()),
        !(state.rpc_from_gossip is None && state.rpc_servers@.len() == 0) && state.funds_source is None
            ==> is_error(res, "--funds-source argument is required"@),
        !(state.rpc_from_gossip is None && state.rpc_servers@.len() == 0) && state.funds_source is Some
            && state.program_ids@.len() == 0 ==> is_error(
            res,
            "At least one program id specified via --program-id option is required"@,
        ),
        !(state.rpc_from_gossip is None && state.rpc_servers@.len() == 0) && state.funds_source is Some
            && state.program_ids@.len() > 0 && state.num_threads == Some(0u32) ==> is_error(
            res,
            "--num-threads must takea nonzero argument"@,
        ),
        res matches Ok(a) ==> {
            &&& !(state.rpc_from_gossip is None && state.rpc_servers@.len() == 0)
            &&& state.funds_source == Some(a.funds_source)
            &&& state.program_ids@.len() > 0
            &&& state.num_threads != Some(0u32)
            &&& a.keys_dir@ == match state.keys_dir {
                Some(d) => d@,
                None => "./keys"@,
            }
            &&& a.rpc_from_gossip == state.rpc_from_gossip
            &&& a.rpc_servers@ == state.rpc_servers@
            &&& a.program_ids@ == state.program_ids@
            &&& a.total_transactions == state.total_transactions
            &&& a.num_threads == match state.num_threads {
                Some(n) => n,
                None => 8u32,
            }
        },
        !(state.rpc_from_gossip is None && state.rpc_servers@.len() == 0) && state.funds_source is Some
            && state.program_ids@.len() > 0 && state.num_threads != Some(0u32) ==> res is Ok,
        res matches Ok(a) ==> (state.consistent() ==> a.consistent()),
        finish_model(state.model()) == match res {
            Ok(a) => Ok::<ArgsValues, Seq<char>>(a.model()),
            Err(e) => Err::<ArgsValues, Seq<char>>(e@),
        },
{
    let ArgsState {
        keys_dir,
        rpc_from_gossip,
        rpc_servers,
        funds_source,
        program_ids,
        total_transactions,
        num_threads,
    } = state;
    let keys_dir = match keys_dir {
        Some(d) => d,
        None => String::from_str("./keys"),
    };
    if rpc_from_gossip.is_none() && rpc_servers.len() == 0 {
        return Err(String::from_str(
            "If --rpc-from-gossip is not set, then at least one RPC server specified via --rpc-server option is required",
        ));
    }
    let funds_source = match funds_source {
        Some(f) => f,
        None => {
            return Err(String::from_str("--funds-source argument is required"));
        },
    };
    if program_ids.len() == 0 {
        return Err(String::from_str("At least one program id specified via --program-id option is required"));
    }
    let num_threads = match num_threads {
        Some(n) => n,
        None => 8,
    };
    if num_threads == 0 {
        return Err(String::from_str("--num-threads must takea nonzero argument"));
    }
    Ok(Args { keys_dir, rpc_from_gossip, rpc_servers, funds_source, program_ids, total_transactions, num_threads })
}

impl Args {
    /// At most one way of finding RPC servers, distinct program ids, and at
    /// least one thread.
    pub open spec fn consistent(&self) -> bool {
        &&& !(self.rpc_from_gossip is Some && self.rpc_servers@.len() > 0)
        &&& (self.rpc_from_gossip is Some || self.rpc_servers@.len() > 0)
        &&& distinct_keys(self.program_ids@)
        &&& self.program_ids@.len() > 0
        &&& self.num_threads > 0
    }
}

} // verus!

verus! {

/// The options of the load generator read so far, as values.
pub struct ArgsModel {
    pub keys_dir: Option<String>,
    pub rpc_from_gossip: Option<String>,
    pub rpc_servers: Seq<String>,
    pub funds_source: Option<String>,
    pub program_ids: Seq<Pubkey>,
    pub total_transactions: Option<u64>,
    pub num_threads: Option<u32>,
}

impl ArgsState {
    /// The options read so far, as values.
    pub open spec fn model(&self) -> ArgsModel {
        ArgsModel {
            keys_dir: self.keys_dir,
            rpc_from_gossip: self.rpc_from_gossip,
            rpc_servers: self.rpc_servers@,
            funds_source: self.funds_source,
            program_ids: self.program_ids@,
            total_transactions: self.total_transactions,
            num_threads: self.num_threads,
        }
    }
}

/// No option read yet.
pub open spec fn initial_model() -> ArgsModel {
    ArgsModel {
        keys_dir: None,
        rpc_from_gossip: None,
        rpc_servers: Seq::empty(),
        funds_source: None,
        program_ids: Seq::empty(),
        total_transactions: None,
        num_threads: None,
    }
}

/// Records the program id that a `--program-id` value resolved to (`id`),
/// or fails with the resolution's message; an id named before is refused.
pub open spec fn add_id_model(m: ArgsModel, id: Result<Pubkey, Seq<char>>) -> Result<ArgsModel, Seq<char>> {
    match id {
        Err(e) => Err(e),
        Ok(k) => if exists|i: int| 0 <= i < m.program_ids.len() && #[trigger] m.program_ids[i]@ == k@ {
            Err("Duplicate program id: "@ + base58_encoding(k@))
        } else {
            Ok(ArgsModel { program_ids: m.program_ids.push(k), ..m })
        },
    }
}

/// One option `args[pos]` (with its value `args[pos + 1]`) read onto `m`,
/// where `id` is what the value resolves to should the option be
/// `--program-id`: the options after it, or the message of the error.
pub open spec fn step_model(m: ArgsModel, args: Seq<String>, pos: int, id: Result<Pubkey, Seq<char>>) -> Result<
    ArgsModel,
    Seq<char>,
> {
    let arg = args[pos]@;
    let has_value = pos + 1 < args.len();
    let value = args[pos + 1];
    if arg == "--keys-dir"@ {
        if m.keys_dir is Some {
            Err("Duplicate --keys-dir argument"@)
        } else if !has_value {
            Err("--keys-dir requires a value"@)
        } else {
            Ok(ArgsModel { keys_dir: Some(value), ..m })
        }
    } else if arg == "--rpc-from-gossip"@ {
        if m.rpc_from_gossip is Some {
            Err("Duplicate --rpc-from-gossip argument"@)
        } else if m.rpc_servers.len() > 0 {
            Err("Only one of --rpc-from-gossip and --rpc-server may be used"@)
        } else if !has_value {
            Err("--rpc-from-gossip requires a value"@)
        } else {
            Ok(ArgsModel { rpc_from_gossip: Some(value), ..m })
        }
    } else if arg == "--rpc-server"@ {
        if m.rpc_from_gossip is Some {
            Err("Only one of --rpc-server and --rpc-from-gossip may be used"@)
        } else if !has_value {
            Err("--rpc-server requires a value"@)
        } else {
            Ok(ArgsModel { rpc_servers: m.rpc_servers.push(value), ..m })
        }
    } else if arg == "--funds-source"@ {
        if m.funds_source is Some {
            Err("Duplicate --funds-source argument"@)
        } else if !has_value {
            Err("--funds-source requires a value"@)
        } else {
            Ok(ArgsModel { funds_source: Some(value), ..m })
        }
    } else if arg == "--program-id"@ {
        if !has_value {
            Err("--program-id requires a value"@)
        } else {
            add_id_model(m, id)
        }
    } else if arg == "--total-transactions"@ {
        if m.total_transactions is Some {
            Err("Duplicate --total-transactions argument"@)
        } else if !has_value {
            Err("--total-transactions requires a value"@)
        } else {
            match number_option(value@, u64::MAX as int) {
                Ok(v) => Ok(ArgsModel { total_transactions: Some(v as u64), ..m }),
                Err(e) => Err(e),
            }
        }
    } else if arg == "--num-threads"@ {
        if m.num_threads is Some {
            Err("Duplicate --num-threads argument"@)
        } else if !has_value {
            Err("--num-threads requires a value"@)
        } else {
            match number_option(value@, u32::MAX as int) {
                Ok(v) => Ok(ArgsModel { num_threads: Some(v as u32), ..m }),
                Err(e) => Err(e),
            }
        }
    } else {
        Err("Invalid argument: "@ + arg)
    }
}

/// Reads the options `args` from `pos` on onto `m`, each `--program-id`
/// value resolved by `resolve` (base 58, or a key file).
pub open spec fn run_model(
    m: ArgsModel,
    args: Seq<String>,
    pos: int,
    resolve: spec_fn(String) -> Result<Pubkey, Seq<char>>,
) -> Result<ArgsModel, Seq<char>>
    decreases args.len() - pos,
{
    if pos < 0 || pos >= args.len() {
        Ok(m)
    } else {
        match step_model(m, args, pos, resolve(args[pos + 1])) {
            Ok(n) => run_model(n, args, pos + 2, resolve),
            Err(e) => Err(e),
        }
    }
}

/// The options of the load generator once all are read, as values.
pub struct ArgsValues {
    pub keys_dir: Seq<char>,
    pub rpc_from_gossip: Option<String>,
    pub rpc_servers: Seq<String>,
    pub funds_source: String,
    pub program_ids: Seq<Pubkey>,
    pub total_transactions: Option<u64>,
    pub num_threads: u32,
}

impl Args {
    /// The options, as values.
    pub open spec fn model(&self) -> ArgsValues {
        ArgsValues {
            keys_dir: self.keys_dir@,
            rpc_from_gossip: self.rpc_from_gossip,
            rpc_servers: self.rpc_servers@,
            funds_source: self.funds_source,
            program_ids: self.program_ids@,
            total_transactions: self.total_transactions,
            num_threads: self.num_threads,
        }
    }
}

/// The options once all are read, as `finish_args` checks them.
pub open spec fn finish_model(m: ArgsModel) -> Result<ArgsValues, Seq<char>> {
    if m.rpc_from_gossip is None && m.rpc_servers.len() == 0 {
        Err(no_rpc_message())
    } else if m.funds_source is None {
        Err("--funds-source argument is required"@)
    } else if m.program_ids.len() == 0 {
        Err("At least one program id specified via --program-id option is required"@)
    } else if m.num_threads == Some(0u32) {
        Err("--num-threads must takea nonzero argument"@)
    } else {
        Ok(
            ArgsValues {
                keys_dir: match m.keys_dir {
                    Some(d) => d@,
                    None => "./keys"@,
                },
                rpc_from_gossip: m.rpc_from_gossip,
                rpc_servers: m.rpc_servers,
                funds_source: m.funds_source->0,
                program_ids: m.program_ids,
                total_transactions: m.total_transactions,
                num_threads: match m.num_threads {
                    Some(n) => n,
                    None => 8u32,
                },
            },
        )
    }
}

/// What the whole command line `args` (without the program's name) gives,
/// each `--program-id` value resolved by `resolve`.
pub open spec fn command_line(args: Seq<String>, resolve: spec_fn(String) -> Result<Pubkey, Seq<char>>) -> Result<
    ArgsValues,
    Seq<char>,
> {
    match run_model(initial_model(), args, 0, resolve) {
        Ok(m) => finish_model(m),
        Err(e) => Err(e),
    }
}

/// The values of the option `flag` on the command line `args`, from `pos`
/// on, in order.
pub open spec fn values_of(args: Seq<String>, flag: Seq<char>, pos: int) -> Seq<String>
    decreases args.len() + 1 - pos,
{
    if pos < 0 || pos >= args.len() {
        Seq::empty()
    } else {
        let rest = values_of(args, flag, pos + 2);
        if args[pos]@ == flag && pos + 1 < args.len() {
            seq![args[pos + 1]] + rest
        } else {
            rest
        }
    }
}

/// The program ids that the values `vals` resolve to, in order.
pub open spec fn resolved_ids(vals: Seq<String>, resolve: spec_fn(String) -> Result<Pubkey, Seq<char>>) -> Seq<Pubkey> {
    vals.map_values(|v: String| resolve(v)->Ok_0)
}

} // verus!

verus! {

/// At most one value, and the option's result is that value, or `prior`
/// where there is none.
pub open spec fn single_value(vals: Seq<String>, prior: Option<String>, result: Option<String>) -> bool {
    &&& vals.len() <= 1
    &&& (prior is Some ==> vals.len() == 0)
    &&& result == if vals.len() == 0 {
        prior
    } else {
        Some(vals[0])
    }
}

proof fn lemma_distinct_push(s: Seq<Pubkey>, k: Pubkey)
    requires
        distinct_keys(s),
        !(exists|i: int| 0 <= i < s.len() && #[trigger] s[i]@ == k@),
    ensures
        distinct_keys(s.push(k)),
{
    let t = s.push(k);
    assert forall|i: int, j: int| 0 <= i < t.len() && 0 <= j < t.len() && i != j implies #[trigger] t[i]@
        != #[trigger] t[j]@ by {
        if i == s.len() {
            assert(t[j] == s[j]);
        } else if j == s.len() {
            assert(t[i] == s[i]);
        } else {
            assert(t[i] == s[i] && t[j] == s[j]);
        }
    }
}

proof fn lemma_flags_differ()
    ensures
        "--keys-dir"@ != "--rpc-from-gossip"@,
        "--keys-dir"@ != "--rpc-server"@,
        "--keys-dir"@ != "--funds-source"@,
        "--keys-dir"@ != "--program-id"@,
        "--keys-dir"@ != "--total-transactions"@,
        "--keys-dir"@ != "--num-threads"@,
        "--rpc-from-gossip"@ != "--rpc-server"@,
        "--rpc-from-gossip"@ != "--funds-source"@,
        "--rpc-from-gossip"@ != "--program-id"@,
        "--rpc-from-gossip"@ != "--total-transactions"@,
        "--rpc-from-gossip"@ != "--num-threads"@,
        "--rpc-server"@ != "--funds-source"@,
        "--rpc-server"@ != "--program-id"@,
        "--rpc-server"@ != "--total-transactions"@,
        "--rpc-server"@ != "--num-threads"@,
        "--funds-source"@ != "--program-id"@,
        "--funds-source"@ != "--total-transactions"@,
        "--funds-source"@ != "--num-threads"@,
        "--program-id"@ != "--total-transactions"@,
        "--program-id"@ != "--num-threads"@,
        "--total-transactions"@ != "--num-threads"@,
{
    reveal_strlit("--keys-dir");
    reveal_strlit("--rpc-from-gossip");
    reveal_strlit("--rpc-server");
    reveal_strlit("--funds-source");
    reveal_strlit("--program-id");
    reveal_strlit("--total-transactions");
    reveal_strlit("--num-threads");
    assert("--keys-dir"@.len() == 10);
    assert("--rpc-from-gossip"@.len() == 17);
    assert("--rpc-server"@.len() == 12);
    assert("--funds-source"@.len() == 14);
    assert("--program-id"@.len() == 12);
    assert("--total-transactions"@.len() == 20);
    assert("--num-threads"@.len() == 13);
    assert("--rpc-server"@[2] != "--program-id"@[2]);
}

/// What reading the options from `pos` on does to `m`, option by option.
proof fn lemma_run(
    m: ArgsModel,
    args: Seq<String>,
    pos: int,
    resolve: spec_fn(String) -> Result<Pubkey, Seq<char>>,
)
    requires
        0 <= pos,
        run_model(m, args, pos, resolve) is Ok,
    ensures
        ({
            let f = run_model(m, args, pos, resolve)->Ok_0;
            let ids = values_of(args, "--program-id"@, pos);
            &&& f.rpc_servers == m.rpc_servers + values_of(args, "--rpc-server"@, pos)
            &&& forall|i: int| 0 <= i < ids.len() ==> #[trigger] resolve(ids[i]) is Ok
            &&& f.program_ids == m.program_ids + resolved_ids(ids, resolve)
            &&& distinct_keys(m.program_ids) ==> distinct_keys(f.program_ids)
            &&& !(m.rpc_from_gossip is Some && m.rpc_servers.len() > 0) ==> !(f.rpc_from_gossip is Some
                && f.rpc_servers.len() > 0)
            &&& single_value(values_of(args, "--keys-dir"@, pos), m.keys_dir, f.keys_dir)
            &&& single_value(values_of(args, "--rpc-from-gossip"@, pos), m.rpc_from_gossip, f.rpc_from_gossip)
            &&& f.num_threads == if values_of(args, "--num-threads"@, pos).len() == 0 {
                m.num_threads
            } else {
                Some(number_option(values_of(args, "--num-threads"@, pos)[0]@, u32::MAX as int)->Ok_0 as u32)
            }
            &&& values_of(args, "--num-threads"@, pos).len() <= 1
            &&& (values_of(args, "--num-threads"@, pos).len() == 1 ==> number_option(
                values_of(args, "--num-threads"@, pos)[0]@,
                u32::MAX as int,
            ) is Ok)
            &&& (m.num_threads is Some ==> values_of(args, "--num-threads"@, pos).len() == 0)
        }),
    decreases args.len() - pos,
{
    lemma_flags_differ();
    if pos >= args.len() {
        assert(resolved_ids(Seq::<String>::empty(), resolve) =~= Seq::<Pubkey>::empty());
        assert(m.rpc_servers + Seq::<String>::empty() =~= m.rpc_servers);
        assert(m.program_ids + Seq::<Pubkey>::empty() =~= m.program_ids);
    } else {
        let id = resolve(args[pos + 1]);
        let n = step_model(m, args, pos, id)->Ok_0;
        lemma_run(n, args, pos + 2, resolve);
        let f = run_model(m, args, pos, resolve)->Ok_0;
        assert(f == run_model(n, args, pos + 2, resolve)->Ok_0);
        let arg = args[pos]@;
        let rest_ids = values_of(args, "--program-id"@, pos + 2);
        let ids = values_of(args, "--program-id"@, pos);
        if arg == "--program-id"@ {
            assert(id is Ok);
            let k = id->Ok_0;
            assert(n.program_ids == m.program_ids.push(k));
            assert(!(exists|i: int| 0 <= i < m.program_ids.len() && #[trigger] m.program_ids[i]@ == k@));
            assert(ids == seq![args[pos + 1]] + rest_ids);
            assert(resolved_ids(ids, resolve) =~= seq![k] + resolved_ids(rest_ids, resolve));
            assert(f.program_ids =~= m.program_ids + resolved_ids(ids, resolve));
            assert forall|i: int| 0 <= i < ids.len() implies #[trigger] resolve(ids[i]) is Ok by {
                if i > 0 {
                    assert(ids[i] == rest_ids[i - 1]);
                }
            }
            if distinct_keys(m.program_ids) {
                lemma_distinct_push(m.program_ids, k);
            }
            assert(m.rpc_servers + values_of(args, "--rpc-server"@, pos) =~= n.rpc_servers + values_of(
                args,
                "--rpc-server"@,
                pos + 2,
            ));
        } else {
            assert(ids == rest_ids);
            assert(n.program_ids == m.program_ids);
            if arg == "--rpc-server"@ {
                assert(n.rpc_servers == m.rpc_servers.push(args[pos + 1]));
                assert(values_of(args, "--rpc-server"@, pos) == seq![args[pos + 1]] + values_of(
                    args,
                    "--rpc-server"@,
                    pos + 2,
                ));
                assert(m.rpc_servers + values_of(args, "--rpc-server"@, pos) =~= n.rpc_servers + values_of(
                    args,
                    "--rpc-server"@,
                    pos + 2,
                ));
            } else {
                assert(n.rpc_servers == m.rpc_servers);
            }
        }
    }
}

/// A command line that the load generator accepts, whatever its program ids
/// resolve to, names at least one program and each once, in the order of the
/// `--program-id` options; runs at least one thread (8 unless
/// `--num-threads` says otherwise); keeps keys in the one `--keys-dir` value
/// or `./keys`; and finds RPC servers in exactly one way, the `--rpc-server`
/// values being the servers, in order.
pub proof fn lemma_command_line(args: Seq<String>, resolve: spec_fn(String) -> Result<Pubkey, Seq<char>>)
    ensures
        command_line(args, resolve) matches Ok(a) ==> {
            let ids = values_of(args, "--program-id"@, 0);
            let threads = values_of(args, "--num-threads"@, 0);
            let dirs = values_of(args, "--keys-dir"@, 0);
            &&& forall|i: int| 0 <= i < ids.len() ==> #[trigger] resolve(ids[i]) is Ok
            &&& a.program_ids == resolved_ids(ids, resolve)
            &&& a.program_ids.len() > 0
            &&& distinct_keys(a.program_ids)
            &&& a.num_threads >= 1
            &&& threads.len() <= 1
            &&& (threads.len() == 0 ==> a.num_threads == 8)
            &&& (threads.len() == 1 ==> number_option(threads[0]@, u32::MAX as int) == Ok::<int, Seq<char>>(
                a.num_threads as int,
            ))
            &&& dirs.len() <= 1
            &&& a.keys_dir == if dirs.len() == 0 {
                "./keys"@
            } else {
                dirs[0]@
            }
            &&& (a.rpc_from_gossip is Some) != (a.rpc_servers.len() > 0)
            &&& a.rpc_servers == values_of(args, "--rpc-server"@, 0)
            &&& single_value(values_of(args, "--rpc-from-gossip"@, 0), None, a.rpc_from_gossip)
        },
{
    if run_model(initial_model(), args, 0, resolve) is Ok {
        lemma_run(initial_model(), args, 0, resolve);
        let f = run_model(initial_model(), args, 0, resolve)->Ok_0;
        assert(Seq::<String>::empty() + values_of(args, "--rpc-server"@, 0) =~= values_of(args, "--rpc-server"@, 0));
        assert(Seq::<Pubkey>::empty() + resolved_ids(values_of(args, "--program-id"@, 0), resolve) =~= resolved_ids(
            values_of(args, "--program-id"@, 0),
            resolve,
        ));
        let threads = values_of(args, "--num-threads"@, 0);
        if threads.len() == 1 {
            crate::decimal::lemma_parse_unsigned_bounded(threads[0]@, u32::MAX as int);
        }
    }
}

} // verus!
