use vstd::prelude::*;
use crate::client_args::{is_flag, is_error};
use crate::pubkey::{base58_decode_result, base58_encoding, bs58_decode, bs58_encode};

verus! {

/// The options of the tool that fetches TPU addresses, read so far.
pub struct TpuOptions {
    pub gossip_entrypoint: Option<String>,
    pub output_file: Option<String>,
}

/// One option of the TPU tool at `pos`: the options after it, or the
/// message of the error.
pub open spec fn tpu_step(s: TpuOptions, args: Seq<String>, pos: int) -> Result<TpuOptions, Seq<char>> {
    let arg = args[pos]@;
    let has_value = pos + 1 < args.len();
    let value = args[pos + 1];
    if arg == "--gossip-entrypoint"@ {
        if s.gossip_entrypoint is Some {
            Err("Duplicate --gossip-entrypoint"@)
        } else if !has_value {
            Err("--gossip-entrypoint requires a value"@)
        } else {
            Ok(TpuOptions { gossip_entrypoint: Some(value), ..s })
        }
    } else if arg == "--output-file"@ {
        if s.output_file is Some {
            Err("Duplicate --output-file"@)
        } else if !has_value {
            Err("--output-file requires a value"@)
        } else {
            Ok(TpuOptions { output_file: Some(value), ..s })
        }
    } else {
        Err("Invalid argument: "@ + arg)
    }
}

/// Reads the options of the TPU tool from `pos` on.
pub open spec fn tpu_parse(s: TpuOptions, args: Seq<String>, pos: int) -> Result<TpuOptions, Seq<char>>
    decreases args.len() - pos,
{
    if pos >= args.len() || pos < 0 {
        Ok(s)
    } else {
        match tpu_step(s, args, pos) {
            Ok(next) => tpu_parse(next, args, pos + 2),
            Err(m) => Err(m),
        }
    }
}

pub open spec fn no_tpu_options() -> TpuOptions {
    TpuOptions { gossip_entrypoint: None, output_file: None }
}

/// Reads the command line `args` (without the program's name) of the tool
/// that fetches TPU addresses; the gossip entrypoint is required.
pub fn parse_tpu_options(args: &Vec<String>) -> (res: Result<TpuOptions, String>)
    ensures
        match tpu_parse(no_tpu_options(), args@, 0) {
            Ok(s) => if s.gossip_entrypoint is Some {
                res == Ok::<TpuOptions, String>(s)
            } else {
                is_error(res, "--gossip-entrypoint argument is required"@)
            },
            Err(m) => is_error(res, m),
        },
{
    let mut s = TpuOptions { gossip_entrypoint: None, output_file: None };
    let mut pos: usize = 0;
    while pos < args.len()
        invariant
            tpu_parse(no_tpu_options(), args@, 0) == tpu_parse(s, args@, pos as int),
        decreases args@.len() - pos,
    {
        let arg = &args[pos];
        let has_value = pos + 1 < args.len();
        if is_flag(arg, "--gossip-entrypoint") {
            if s.gossip_entrypoint.is_some() {
                return Err(String::from_str("Duplicate --gossip-entrypoint"));
            } else if !has_value {
                return Err(String::from_str("--gossip-entrypoint requires a value"));
            }
            s.gossip_entrypoint = Some(args[pos + 1].clone());
        } else if is_flag(arg, "--output-file") {
            if s.output_file.is_some() {
                return Err(String::from_str("Duplicate --output-file"));
            } else if !has_value {
                return Err(String::from_str("--output-file requires a value"));
            }
            s.output_file = Some(args[pos + 1].clone());
        } else {
            let mut m = String::from_str("Invalid argument: ");
            m.append(arg.as_str());
            return Err(m);
        }
        pos = pos + 2;
    }
    if s.gossip_entrypoint.is_none() {
        return Err(String::from_str("--gossip-entrypoint argument is required"));
    }
    Ok(s)
}

/// The TPU tool's options once the entrypoint was resolved to `entrypoint`
/// (or failed to, with that message): the output file is required.
pub fn finish_tpu_args<A>(entrypoint: Result<A, String>, output_file: Option<String>) -> (res: Result<(A, String), String>)
    ensures
        match entrypoint {
            Err(e) => res == Err::<(A, String), String>(e),
            Ok(a) => match output_file {
                Some(f) => res == Ok::<(A, String), String>((a, f)),
                None => is_error(res, "--output-file argument is required"@),
            },
        },
{
    match entrypoint {
        Err(e) => Err(e),
        Ok(a) => match output_file {
            Some(f) => Ok((a, f)),
            None => Err(String::from_str("--output-file argument is required")),
        },
    }
}

/// Seconds without a new validator after which the TPU tool stops.
pub const STABLE_ITERATIONS: u32 = 60;

/// The streak of unchanged polls and whether to stop, after a poll that saw
/// `known` validators where `last_known` were known before.
pub open spec fn poll_state(unchanged: u32, last_known: int, known: int) -> (u32, bool) {
    if known == last_known {
        ((unchanged + 1) as u32, unchanged + 1 == STABLE_ITERATIONS)
    } else if known > last_known {
        (0u32, false)
    } else {
        (unchanged, false)
    }
}

/// The streak after `k` more polls in a row that saw no change, from a
/// streak of `unchanged`.
pub open spec fn streak_after(unchanged: u32, k: nat) -> u32
    decreases k,
{
    if k == 0 {
        unchanged
    } else {
        poll_state(streak_after(unchanged, (k - 1) as nat), 0, 0).0
    }
}

/// From a fresh streak, polls that see no change stop the tool exactly at
/// the `STABLE_ITERATIONS`-th of them: the `k`-th such poll leaves a streak of
/// `k`, and asks to stop only when `k` is `STABLE_ITERATIONS`.
pub proof fn lemma_stops_after_stable_polls(k: nat)
    requires
        1 <= k <= STABLE_ITERATIONS,
    ensures
        streak_after(0, k) == k,
        poll_state(streak_after(0, (k - 1) as nat), 0, 0).1 == (k == STABLE_ITERATIONS),
    decreases k,
{
    assert(streak_after(0, 0) == 0);
    if k > 1 {
        lemma_stops_after_stable_polls((k - 1) as nat);
    }
}

/// How a poll moves the streak of polls without change: any rise in the
/// number of validators known, by one or by many, starts the streak anew and
/// never stops the tool; a poll that sees the same number lengthens the
/// streak by one and stops the tool exactly when the streak reaches 60; a
/// drop leaves the streak as it was and does not stop the tool.
pub proof fn lemma_poll_rules(unchanged: u32, last_known: int, known: int)
    requires
        unchanged < 60,
    ensures
        known > last_known ==> poll_state(unchanged, last_known, known) == (0u32, false),
        known == last_known ==> poll_state(unchanged, last_known, known).0 == unchanged + 1 && (poll_state(
            unchanged,
            last_known,
            known,
        ).1 <==> unchanged + 1 == 60),
        known < last_known ==> poll_state(unchanged, last_known, known) == (unchanged, false),
{
}

/// One poll of the TPU tool, which knew `last_known` validators and now
/// knows `known`: the count of polls in a row without change, and whether to
/// stop (after `STABLE_ITERATIONS` of them). A drop in the count leaves the
/// streak as it was; a rise starts it anew.
pub fn tpu_poll_step(unchanged: u32, last_known: usize, known: usize) -> (r: (u32, bool))
    requires
        unchanged < STABLE_ITERATIONS,
    ensures
        r == poll_state(unchanged, last_known as int, known as int),
        r.0 < STABLE_ITERATIONS || r.1,
        known > last_known ==> r == (0u32, false),
        known == last_known ==> r.0 == unchanged + 1 && (r.1 <==> unchanged + 1 == 60),
        known < last_known ==> r == (unchanged, false),
{
    if known == last_known {
        let next = unchanged + 1;
        (next, next == STABLE_ITERATIONS)
    } else if known > last_known {
        (0, false)
    } else {
        (unchanged, false)
    }
}

/// What the base-58 tool is asked to do by its first argument.
pub enum Bs58Mode {
    Help,
    Encode,
    Decode,
    Invalid,
}

/// The mode named by the first argument (empty where there is none).
pub fn bs58_mode(arg: &String) -> (m: Bs58Mode)
    ensures
        (arg@ == "-h"@ || arg@ == "--help"@ || arg@ == "help"@) ==> m is Help,
        !(arg@ == "-h"@ || arg@ == "--help"@ || arg@ == "help"@) && arg@ == "-e"@ ==> m is Encode,
        !(arg@ == "-h"@ || arg@ == "--help"@ || arg@ == "help"@) && arg@ != "-e"@ && arg@ == "-d"@ ==> m is Decode,
        !(arg@ == "-h"@ || arg@ == "--help"@ || arg@ == "help"@ || arg@ == "-e"@ || arg@ == "-d"@) ==> m is Invalid,
{
    if is_flag(arg, "-h") || is_flag(arg, "--help") || is_flag(arg, "help") {
        Bs58Mode::Help
    } else if is_flag(arg, "-e") {
        Bs58Mode::Encode
    } else if is_flag(arg, "-d") {
        Bs58Mode::Decode
    } else {
        Bs58Mode::Invalid
    }
}

/// The usage text of the base-58 tool.
pub open spec fn bs58_usage_spec() -> Seq<char> {
    "\nUsage: bs58 -e [string] [< bytes]\n"@
        + "         -- Encodes to base58 a value provided either on the command line or via stdin\n\n"@
        + "       bs58 -d [encoded_string] [< encoded_string]\n"@
        + "         -- Decodes from base58 a string provided either on the command line or via stdin\n\n"@
}

pub fn bs58_usage() -> (u: String)
    ensures
        u@ == bs58_usage_spec(),
{
    let mut u = String::from_str("\nUsage: bs58 -e [string] [< bytes]\n");
    u.append("         -- Encodes to base58 a value provided either on the command line or via stdin\n\n");
    u.append("       bs58 -d [encoded_string] [< encoded_string]\n");
    u.append("         -- Decodes from base58 a string provided either on the command line or via stdin\n\n");
    u
}

/// The base-58 text of the input bytes.
pub fn bs58_encode_input(input: &[u8]) -> (s: String)
    ensures
        s@ == base58_encoding(input@),
{
    bs58_encode(input)
}

/// The bytes that base-58 input decodes to, or the message for input that
/// does not decode.
pub fn bs58_decode_input(input: &[u8]) -> (r: Result<Vec<u8>, String>)
    ensures
        match base58_decode_result(input@) {
            Ok(v) => r matches Ok(b) && b@ == v,
            Err(e) => is_error(r, "Invalid input: "@ + e),
        },
{
    decode_outcome(bs58_decode(input))
}

/// What the tool reports for the result of decoding: the bytes, or the
/// message for input that does not decode.
pub fn decode_outcome(decoded: Result<Vec<u8>, String>) -> (r: Result<Vec<u8>, String>)
    ensures
        match decoded {
            Ok(v) => r matches Ok(b) && b@ == v@,
            Err(e) => is_error(r, "Invalid input: "@ + e@),
        },
{
    match decoded {
        Ok(v) => Ok(v),
        Err(e) => {
            let mut m = String::from_str("Invalid input: ");
            m.append(e.as_str());
            Err(m)
        },
    }
}

} // verus!
