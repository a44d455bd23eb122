use vstd::prelude::*;
use crate::command_accounts::{AccountMeta, Instruction};
use crate::pubkey::{Pubkey, le_u64, zero_address};

verus! {

/// Lamports in one SOL (`solana_sdk::native_token::LAMPORTS_PER_SOL`).
pub const LAMPORTS_PER_SOL: u64 = 1_000_000_000;

/// A fee payer is topped up when its balance falls below this.
pub const LOW_BALANCE: u64 = LAMPORTS_PER_SOL / 100;

/// A fee payer that is low on funds receives this much.
pub const TOP_UP_AMOUNT: u64 = LAMPORTS_PER_SOL;

/// Whether a fee payer with `balance` lamports is to be topped up.
pub fn needs_funding(balance: u64) -> (b: bool)
    ensures
        b == (balance < LOW_BALANCE),
{
    balance < LOW_BALANCE
}

/// One claim on a count of `c` transactions left to run: whether it is
/// granted, and the count after it.
pub open spec fn claim_step(c: u64) -> (bool, u64) {
    if c > 0 {
        (true, (c - 1) as u64)
    } else {
        (false, 0u64)
    }
}

/// The count left after `k` claims, one after the other, on a count of `c`.
pub open spec fn left_after(c: u64, k: nat) -> u64
    decreases k,
{
    if k == 0 {
        c
    } else {
        claim_step(left_after(c, (k - 1) as nat)).1
    }
}

/// How many of `k` claims, one after the other, on a count of `c` are
/// granted.
pub open spec fn granted(c: u64, k: nat) -> nat
    decreases k,
{
    if k == 0 {
        0
    } else {
        granted(c, (k - 1) as nat) + if claim_step(left_after(c, (k - 1) as nat)).0 {
            1nat
        } else {
            0nat
        }
    }
}

/// Claims made one at a time on a shared count of `c` transactions (by any
/// number of threads, each claim under the count's lock) grant exactly as
/// many transactions as were asked for, up to `c`; the count left is `c`
/// less those granted, never below zero; and once a claim is refused, all
/// `c` transactions were granted, so exactly `c` are run in all.
pub proof fn lemma_claims(c: u64, k: nat)
    ensures
        granted(c, k) == if k <= c { k } else { c as nat },
        left_after(c, k) == c - granted(c, k),
        k > 0 && !claim_step(left_after(c, (k - 1) as nat)).0 ==> granted(c, k) == c,
    decreases k,
{
    if k > 0 {
        lemma_claims(c, (k - 1) as nat);
    }
}

/// Claims one of the `*remaining` transactions that are left to run: false,
/// leaving the count, when none is left.
pub fn claim_transaction(remaining: &mut u64) -> (claimed: bool)
    ensures
        (claimed, *final(remaining)) == claim_step(*old(remaining)),
        claimed == (*old(remaining) > 0),
        *final(remaining) == if *old(remaining) > 0 { *old(remaining) - 1 } else { 0 },
    no_unwind
{
    if *remaining == 0 {
        false
    } else {
        *remaining = *remaining - 1;
        true
    }
}

/// Claims one transaction as `claim_transaction` does, counting it among
/// those granted.
fn claim_counted(remaining: &mut u64, granted: &mut Ghost<nat>) -> (claimed: bool)
    ensures
        (claimed, *final(remaining)) == claim_step(*old(remaining)),
        final(granted)@ == old(granted)@ + if claimed { 1nat } else { 0nat },
    no_unwind
{
    let claimed = claim_transaction(remaining);
    if claimed {
        *granted = Ghost(granted@ + 1);
    }
    claimed
}

/// The transactions that the threads of the load generator may still run,
/// shared by them all: how many are left, and how many the count started
/// with and has granted.
pub struct TransactionCount {
    remaining: u64,
    initial: Ghost<u64>,
    granted: Ghost<nat>,
}

impl TransactionCount {
    #[verifier::type_invariant]
    closed spec fn inv(self) -> bool {
        self.remaining + self.granted@ == self.initial@
    }

    /// How many transactions are left.
    pub closed spec fn remaining(&self) -> u64 {
        self.remaining
    }

    /// How many transactions the count started with.
    pub closed spec fn initial(&self) -> u64 {
        self.initial@
    }

    /// How many transactions have been granted.
    pub closed spec fn granted(&self) -> nat {
        self.granted@
    }

    /// A count of `n` transactions, none granted.
    pub fn new(n: u64) -> (c: TransactionCount)
        ensures
            c.remaining() == n,
            c.initial() == n,
            c.granted() == 0,
    {
        TransactionCount { remaining: n, initial: Ghost(n), granted: Ghost(0) }
    }

    /// How many transactions are left.
    pub fn left(&self) -> (n: u64)
        ensures
            n == self.remaining(),
    {
        self.remaining
    }

    /// Claims one transaction for the calling thread: granted while any is
    /// left. However the threads' claims interleave, no more than the count
    /// started with are granted, the count never goes below zero, and once a
    /// claim is refused every one of them has been granted, so that exactly
    /// that many transactions are run in all.
    pub fn claim(&mut self) -> (claimed: bool)
        ensures
            (claimed, final(self).remaining()) == claim_step(old(self).remaining()),
            final(self).initial() == old(self).initial(),
            final(self).granted() == old(self).granted() + if claimed { 1nat } else { 0nat },
            final(self).granted() + final(self).remaining() == final(self).initial(),
            final(self).granted() <= final(self).initial(),
            !claimed ==> final(self).granted() == final(self).initial(),
    {
        proof {
            use_type_invariant(&*self);
        }
        let claimed = claim_counted(&mut self.remaining, &mut self.granted);
        proof {
            use_type_invariant(&*self);
        }
        claimed
    }
}

/// What a thread does with its fee payer's balance once it has run its
/// transactions.
pub enum RefundAction {
    /// The balance could not be read: read it again.
    Retry,
    /// Nothing is left to give back, or the fee payer is the funds source.
    Stop,
    /// Send `amount` lamports back to the funds source, then read the
    /// balance again.
    SendBack { amount: u64 },
}

/// The next step of giving a fee payer's lamports back to the funds source,
/// given the balance read (none where reading it failed): stop at a zero
/// balance or where the fee payer is the funds source, else send back the
/// whole balance.
pub fn refund_step(balance: Option<u64>, fee_payer: &Pubkey, funds_source: &Pubkey) -> (a: RefundAction)
    ensures
        match balance {
            None => a is Retry,
            Some(b) => if b == 0 || fee_payer@ == funds_source@ {
                a is Stop
            } else {
                a == (RefundAction::SendBack { amount: b })
            },
        },
{
    match balance {
        None => RefundAction::Retry,
        Some(b) => {
            if b == 0 {
                RefundAction::Stop
            } else if funds_source.same_as(fee_payer) {
                RefundAction::Stop
            } else {
                RefundAction::SendBack { amount: b }
            }
        },
    }
}

/// The data of the system program's transfer of `lamports`: the variant
/// index of `SystemInstruction::Transfer` (2) as a little-endian 32-bit
/// number, then the lamports as a little-endian 64-bit number, which is how
/// bincode writes `SystemInstruction::Transfer { lamports }`.
pub open spec fn system_transfer_data(lamports: u64) -> Seq<u8> {
    seq![2u8, 0u8, 0u8, 0u8] + le_u64(lamports)
}

/// `solana_sdk::system_instruction::transfer`: an instruction of the system
/// program (the zero address) whose data is the bincode form of
/// `SystemInstruction::Transfer { lamports }` (see `system_transfer_data`),
/// naming `from` (written, signing) and then `to` (written).
#[verifier::external_body]
fn system_transfer(from: &Pubkey, to: &Pubkey, lamports: u64) -> (ins: Instruction)
    ensures
        ins.program_id@ == zero_address(),
        ins.data@ == system_transfer_data(lamports),
        ins.accounts@.len() == 2,
        ins.accounts@[0].pubkey == *from && ins.accounts@[0].is_signer && ins.accounts@[0].is_writable,
        ins.accounts@[1].pubkey == *to && !ins.accounts@[1].is_signer && ins.accounts@[1].is_writable,
{
    let i = solana_sdk::system_instruction::transfer(
        &solana_sdk::pubkey::Pubkey::new_from_array(from.bytes),
        &solana_sdk::pubkey::Pubkey::new_from_array(to.bytes),
        lamports,
    );
    let accounts = i.accounts.iter().map(|m| AccountMeta { pubkey: Pubkey { bytes: m.pubkey.to_bytes() }, is_signer: m.is_signer, is_writable: m.is_writable }).collect();
    Instruction { program_id: Pubkey { bytes: i.program_id.to_bytes() }, data: i.data, accounts }
}

/// The instruction that moves `amount` lamports from `funds_source` to
/// `target`; none where the target is the funds source itself.
pub fn transfer_instruction(funds_source: &Pubkey, target: &Pubkey, amount: u64) -> (ins: Option<Instruction>)
    ensures
        ins is None <==> target@ == funds_source@,
        ins matches Some(i) ==> {
            &&& i.program_id@ == zero_address()
            &&& i.data@ == system_transfer_data(amount)
            &&& i.accounts@.len() == 2
            &&& i.accounts@[0].pubkey == *funds_source && i.accounts@[0].is_signer && i.accounts@[0].is_writable
            &&& i.accounts@[1].pubkey == *target && !i.accounts@[1].is_signer && i.accounts@[1].is_writable
        },
{
    if target.same_as(funds_source) {
        None
    } else {
        Some(system_transfer(funds_source, target, amount))
    }
}

} // verus!
