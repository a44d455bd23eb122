use vstd::prelude::*;
use std::collections::HashSet;
use rand::rngs::ThreadRng;
use crate::command_accounts::{CommandAccounts, Flags, merge_maps, merged, metas_match, AccountMeta, Instruction};
use crate::accounts::{Account, Accounts};
use crate::generator::{
    make_command, command_outcome, CPU_COMMAND_COST_PER_ITERATION, FAIL_COMMAND_COST,
    MAX_INSTRUCTION_COMPUTE_UNITS, MAX_TX_COMPUTE_UNITS,
};
use crate::pubkey::Pubkey;
use crate::rng::next_u32;

verus! {

/// Commands are made for a transaction while their data stays under this
/// many bytes.
pub const MAX_TX_DATA_SIZE: usize = 1100;

/// One command: its bytes, the accounts it touches and the compute units it
/// is charged.
pub struct Command {
    pub data: Vec<u8>,
    pub accounts: CommandAccounts,
    pub compute_units: u32,
}

/// The bytes of the commands, one after the other.
pub open spec fn concat_data(cmds: Seq<Command>) -> Seq<u8>
    decreases cmds.len(),
{
    if cmds.len() == 0 {
        Seq::empty()
    } else {
        concat_data(cmds.drop_last()) + cmds.last().data@
    }
}

/// None of the commands names an account (the commands that the generator
/// makes touch no account).
pub open spec fn no_command_accounts(cmds: Seq<Command>) -> bool {
    forall|i: int| 0 <= i < cmds.len() ==> #[trigger] cmds[i].accounts@ == Map::<Seq<u8>, Flags>::empty()
}

/// The compute units of the commands together.
pub open spec fn units_sum(cmds: Seq<Command>) -> int
    decreases cmds.len(),
{
    if cmds.len() == 0 {
        0
    } else {
        units_sum(cmds.drop_last()) + cmds.last().compute_units
    }
}

/// The accounts of the commands together, each with every flag it has in any.
pub open spec fn merged_accounts(cmds: Seq<Command>) -> Map<Seq<u8>, Flags>
    decreases cmds.len(),
{
    if cmds.len() == 0 {
        Map::empty()
    } else {
        merge_maps(merged_accounts(cmds.drop_last()), cmds.last().accounts@)
    }
}

/// The compute budget that a transaction starts with, for the random number
/// `draw`: at least one cpu iteration and less than a transaction's limit.
pub fn initial_compute_budget(draw: u32) -> (b: u32)
    ensures
        b == draw as int % (MAX_TX_COMPUTE_UNITS - CPU_COMMAND_COST_PER_ITERATION) + CPU_COMMAND_COST_PER_ITERATION,
        CPU_COMMAND_COST_PER_ITERATION <= b < MAX_TX_COMPUTE_UNITS,
{
    (draw % (MAX_TX_COMPUTE_UNITS - CPU_COMMAND_COST_PER_ITERATION)) + CPU_COMMAND_COST_PER_ITERATION
}

/// The program id of `ids` that the random number `draw` picks: the one at
/// `draw` modulo their number.
pub open spec fn drawn_program(ids: Seq<Pubkey>, draw: u32) -> Pubkey {
    ids[(draw as int) % (ids.len() as int)]
}

/// The program id that the random number `draw` picks (see
/// `drawn_program`).
pub fn program_id_at(draw: u32, program_ids: &Vec<Pubkey>) -> (p: Pubkey)
    requires
        program_ids@.len() > 0,
    ensures
        p == drawn_program(program_ids@, draw),
{
    program_ids[(draw as usize) % program_ids.len()]
}

/// One of the program ids, picked with a random number of `rng` as
/// `program_id_at` says.
pub fn pick_program_id(rng: &mut ThreadRng, program_ids: &Vec<Pubkey>) -> (p: Pubkey)
    requires
        program_ids@.len() > 0,
    ensures
        exists|draw: u32| p == #[trigger] drawn_program(program_ids@, draw),
        exists|i: int| 0 <= i < program_ids@.len() && p == program_ids@[i],
{
    let draw = next_u32(rng);
    let p = program_id_at(draw, program_ids);
    assert(p == drawn_program(program_ids@, draw));
    assert(p == program_ids@[(draw as int) % (program_ids@.len() as int)]);
    p
}

/// How many commands, of the `remaining` ones, the next instruction is to
/// take, for the random number `draw`: 1 up to all of them.
pub fn group_size(draw: u32, remaining: usize) -> (n: u32)
    requires
        0 < remaining <= u32::MAX,
    ensures
        n == draw as int % remaining as int + 1,
        1 <= n <= remaining,
{
    (draw % (remaining as u32)) + 1
}

/// How many accounts are added for contention to an instruction that names
/// `count` accounts, for the random number `draw`: fewer than bring it to
/// `MAX_CONTENTION_ACCOUNTS`.
pub fn contention_total(draw: u32, count: usize) -> (n: u32)
    requires
        count < MAX_CONTENTION_ACCOUNTS,
    ensures
        n == draw as int % (MAX_CONTENTION_ACCOUNTS - count) as int,
        count + n < MAX_CONTENTION_ACCOUNTS,
{
    draw % ((MAX_CONTENTION_ACCOUNTS - count) as u32)
}

/// How `total` contention accounts split into read-only and written ones,
/// for the random number `draw`: fewer read-only ones than `total`, the rest
/// written.
pub fn contention_split(draw: u32, total: u32) -> (r: (u32, u32))
    requires
        total > 0,
    ensures
        r.0 == draw % total,
        r.1 == total - r.0,
        r.0 < total,
        r.1 >= 1,
{
    let read_only = draw % total;
    (read_only, total - read_only)
}

/// The commands made so far for one transaction, the size of their data, and
/// the compute units that are left.
pub struct CommandBatch {
    commands: Vec<Command>,
    total_data_size: usize,
    compute_budget: u32,
    initial_budget: Ghost<u32>,
    overcharged: Ghost<bool>,
}

impl CommandBatch {
    pub closed spec fn commands(&self) -> Seq<Command> {
        self.commands@
    }

    pub closed spec fn budget(&self) -> u32 {
        self.compute_budget
    }

    pub closed spec fn data_size(&self) -> nat {
        self.total_data_size as nat
    }

    /// The compute budget that the batch started with.
    pub closed spec fn initial(&self) -> u32 {
        self.initial_budget@
    }

    /// A failing command was charged more than the budget that was left.
    pub closed spec fn overcharged(&self) -> bool {
        self.overcharged@
    }

    /// The batch's bookkeeping is consistent: the size is that of the
    /// commands' data, the costs fit a transaction, what the commands were
    /// charged comes off the starting budget (a failing command charged more
    /// than was left leaves none), and only a command that used up the budget
    /// has no data.
    pub closed spec fn wf(&self) -> bool {
        &&& self.total_data_size == concat_data(self.commands@).len()
        &&& self.total_data_size < MAX_TX_DATA_SIZE + 7
        &&& self.compute_budget < MAX_TX_COMPUTE_UNITS
        &&& self.initial_budget@ < MAX_TX_COMPUTE_UNITS
        &&& self.compute_budget > 0 ==> units_sum(self.commands@) + self.compute_budget == self.initial_budget@
        &&& !self.overcharged@ ==> units_sum(self.commands@) + self.compute_budget == self.initial_budget@
        &&& self.overcharged@ ==> self.compute_budget == 0
        &&& units_sum(self.commands@) + self.compute_budget <= self.initial_budget@ + FAIL_COMMAND_COST
        &&& forall|i: int| 0 <= i < self.commands@.len() ==> #[trigger] self.commands@[i].compute_units < MAX_TX_COMPUTE_UNITS
        &&& self.commands@.len() <= self.total_data_size + if self.compute_budget == 0 { 1int } else { 0int }
        &&& no_command_accounts(self.commands@)
    }

    /// A consistent batch holds commands whose data comes to its size, which
    /// stays under `MAX_TX_DATA_SIZE` plus one command's worth, each costing
    /// less than a transaction may use; while budget is left, the commands
    /// were charged exactly what came off the starting budget, and in any case
    /// no more than it and one failing command's cost.
    pub proof fn lemma_batch_bounds(&self)
        requires
            self.wf(),
        ensures
            concat_data(self.commands()).len() == self.data_size(),
            self.data_size() < MAX_TX_DATA_SIZE + 7,
            self.budget() < MAX_TX_COMPUTE_UNITS,
            self.budget() > 0 ==> units_sum(self.commands()) + self.budget() == self.initial(),
            units_sum(self.commands()) <= self.initial() + FAIL_COMMAND_COST,
            no_command_accounts(self.commands()),
            forall|i: int|
                0 <= i < self.commands().len() ==> #[trigger] self.commands()[i].compute_units < MAX_TX_COMPUTE_UNITS,
    {
    }

    /// The commands of a transaction take no more compute units than its
    /// starting budget, and so fewer than `MAX_TX_COMPUTE_UNITS`, unless a
    /// failing command was charged more than the budget that was left.
    pub proof fn lemma_transaction_total(&self)
        requires
            self.wf(),
            !self.overcharged(),
        ensures
            units_sum(self.commands()) <= self.initial(),
            units_sum(self.commands()) < MAX_TX_COMPUTE_UNITS,
    {
    }

    /// An empty batch with the budget drawn from `rng`.
    pub fn new(rng: &mut ThreadRng) -> (b: CommandBatch)
        ensures
            b.wf(),
            b.commands() == Seq::<Command>::empty(),
            CPU_COMMAND_COST_PER_ITERATION <= b.budget() < MAX_TX_COMPUTE_UNITS,
            b.initial() == b.budget(),
            !b.overcharged(),
    {
        let budget = initial_compute_budget(next_u32(rng));
        CommandBatch {
            commands: Vec::new(),
            total_data_size: 0,
            compute_budget: budget,
            initial_budget: Ghost(budget),
            overcharged: Ghost(false),
        }
    }

    /// The compute units that are left.
    pub fn budget_left(&self) -> (b: u32)
        ensures
            b == self.budget(),
    {
        self.compute_budget
    }

    /// The commands made so far, in order.
    pub fn command_list(&self) -> (c: &Vec<Command>)
        ensures
            c@ == self.commands(),
    {
        &self.commands
    }

    /// Whether another command is to be made: the data is still under
    /// `MAX_TX_DATA_SIZE` bytes and compute units are left.
    pub fn wants_more(&self) -> (b: bool)
        ensures
            b == (self.data_size() < MAX_TX_DATA_SIZE && self.budget() > 0),
    {
        self.total_data_size < MAX_TX_DATA_SIZE && self.compute_budget > 0
    }

    /// Makes one more command (see `make_command`) and charges its compute
    /// units to the budget; a charge beyond the budget leaves none.
    pub fn add_command(
        &mut self,
        fail: bool,
        rng: &mut ThreadRng,
        fee_payer: &Pubkey,
        allocated_indices: &mut HashSet<u8>,
    )
        requires
            old(self).wf(),
            old(self).data_size() < MAX_TX_DATA_SIZE,
            old(self).budget() > 0,
        ensures
            final(self).wf(),
            final(self).initial() == old(self).initial(),
            final(self).overcharged() == (final(self).commands().last().compute_units > old(self).budget()),
            final(self).overcharged() ==> fail && old(self).budget() < FAIL_COMMAND_COST,
            final(self).commands().len() == old(self).commands().len() + 1,
            final(self).commands().drop_last() == old(self).commands(),
            command_outcome(
                fail,
                old(self).budget(),
                old(allocated_indices)@,
                final(allocated_indices)@,
                final(self).commands().last().data@,
                final(self).commands().last().compute_units,
            ),
            final(self).commands().last().accounts@ == Map::<Seq<u8>, Flags>::empty(),
            final(self).budget() == if final(self).commands().last().compute_units <= old(self).budget() {
                old(self).budget() - final(self).commands().last().compute_units
            } else {
                0
            },
    {
        let mut command_accounts = CommandAccounts::new();
        let (data, compute_units) = make_command(
            fail,
            rng,
            fee_payer,
            allocated_indices,
            self.compute_budget,
            &mut command_accounts,
        );
        let ghost old_cmds = self.commands@;
        let size = data.len();
        self.total_data_size = self.total_data_size + size;
        self.compute_budget = self.compute_budget.saturating_sub(compute_units);
        self.overcharged = Ghost(compute_units > old(self).compute_budget);
        let command = Command { data, accounts: command_accounts, compute_units };
        self.commands.push(command);
        assert(self.commands@.drop_last() =~= old_cmds);
        assert(units_sum(self.commands@) == units_sum(old_cmds) + compute_units);
    }
}

} // verus!

verus! {

/// A group of consecutive commands that went into one instruction:
/// its first command, how many commands it kept, and whether the command
/// after those was dropped because it took the instruction past its compute
/// limit.
pub type Group = (int, int, bool);

pub open spec fn group_end(g: Group) -> int {
    g.0 + g.1 + if g.2 {
        1int
    } else {
        0int
    }
}

pub open spec fn kept_commands(cmds: Seq<Command>, g: Group) -> Seq<Command> {
    cmds.subrange(g.0, g.0 + g.1)
}

/// The group takes at least one command; the kept ones fit an instruction's
/// compute limit, and a dropped one did not fit after them.
pub open spec fn valid_group(cmds: Seq<Command>, g: Group) -> bool {
    &&& 0 <= g.0
    &&& 0 <= g.1
    &&& g.0 < group_end(g) <= cmds.len()
    &&& units_sum(kept_commands(cmds, g)) <= MAX_INSTRUCTION_COMPUTE_UNITS
    &&& g.2 ==> units_sum(cmds.subrange(g.0, g.0 + g.1 + 1)) > MAX_INSTRUCTION_COMPUTE_UNITS
}

/// The groups cover the commands in order, one after the other.
pub open spec fn valid_grouping(cmds: Seq<Command>, gs: Seq<Group>) -> bool {
    &&& forall|i: int| 0 <= i < gs.len() ==> valid_group(cmds, #[trigger] gs[i])
    &&& forall|i: int| 0 < i < gs.len() ==> (#[trigger] gs[i]).0 == group_end(gs[i - 1])
    &&& gs.len() == 0 ==> cmds.len() == 0
    &&& gs.len() > 0 ==> gs[0].0 == 0 && group_end(gs.last()) == cmds.len()
}

/// A group whose kept commands carry data becomes an instruction.
pub open spec fn produces(cmds: Seq<Command>, g: Group) -> bool {
    concat_data(kept_commands(cmds, g)).len() > 0
}

} // verus!

verus! {

/// The groups that become instructions, in order.
pub open spec fn produced_groups(cmds: Seq<Command>, gs: Seq<Group>) -> Seq<Group>
    decreases gs.len(),
{
    if gs.len() == 0 {
        Seq::empty()
    } else if produces(cmds, gs.last()) {
        produced_groups(cmds, gs.drop_last()).push(gs.last())
    } else {
        produced_groups(cmds, gs.drop_last())
    }
}

/// The account map `a` of an instruction holds the accounts `m` of its
/// commands, each signing as there and written where written there; the
/// other accounts of `a` are accounts of `pool`, none of them signing.
pub open spec fn extends_accounts(a: Map<Seq<u8>, Flags>, m: Map<Seq<u8>, Flags>, pool: Map<Seq<u8>, Account>) -> bool {
    &&& forall|k: Seq<u8>| #[trigger] m.contains_key(k) ==> a.contains_key(k) && a[k].1 == m[k].1 && (m[k].0 ==> a[k].0)
    &&& forall|k: Seq<u8>| #[trigger] a.contains_key(k) && !m.contains_key(k) ==> !a[k].1 && pool.contains_key(k)
}

/// Fewest accounts that extra accounts may bring an instruction up to.
pub const MAX_CONTENTION_ACCOUNTS: usize = 12;

/// The account metas of an instruction whose commands touch `m`: each
/// address once, every account of `m` named with its signer flag and written
/// where `m` writes it, any other a non-signing account of `pool`, and no more
/// than eleven accounts unless the commands alone touch more.
pub open spec fn metas_for(metas: Seq<AccountMeta>, m: Map<Seq<u8>, Flags>, pool: Map<Seq<u8>, Account>) -> bool {
    &&& forall|i: int, j: int|
        0 <= i < metas.len() && 0 <= j < metas.len() && i != j ==> #[trigger] metas[i].pubkey@ != #[trigger] metas[j].pubkey@
    &&& forall|k: Seq<u8>| #[trigger] m.contains_key(k) ==> exists|i: int| 0 <= i < metas.len() && metas[i].pubkey@ == k
    &&& forall|i: int|
        0 <= i < metas.len() ==> if m.contains_key(#[trigger] metas[i].pubkey@) {
            metas[i].is_signer == m[metas[i].pubkey@].1 && (m[metas[i].pubkey@].0 ==> metas[i].is_writable)
        } else {
            !metas[i].is_signer && pool.contains_key(metas[i].pubkey@)
        }
    &&& metas.len() <= if m.dom().len() < MAX_CONTENTION_ACCOUNTS {
        (MAX_CONTENTION_ACCOUNTS - 1) as nat
    } else {
        m.dom().len()
    }
}

/// The instruction names no more than `MAX_CONTENTION_ACCOUNTS - 1` accounts,
/// each an account of `pool`, none of them signing: what an instruction of
/// commands that touch no account is given for contention.
pub open spec fn contention_only(ins: Instruction, pool: Map<Seq<u8>, Account>) -> bool {
    &&& ins.accounts@.len() < MAX_CONTENTION_ACCOUNTS
    &&& forall|i: int|
        0 <= i < ins.accounts@.len() ==> !(#[trigger] ins.accounts@[i]).is_signer && pool.contains_key(
            ins.accounts@[i].pubkey@,
        )
}

/// `ins` is the instruction made of the group `g` of `cmds` for `program_id`.
pub open spec fn instruction_for(
    ins: Instruction,
    cmds: Seq<Command>,
    g: Group,
    program_id: Seq<u8>,
    pool: Map<Seq<u8>, Account>,
) -> bool {
    &&& ins.program_id@ == program_id
    &&& ins.data@ == concat_data(kept_commands(cmds, g))
    &&& metas_for(ins.accounts@, merged_accounts(kept_commands(cmds, g)), pool)
}

/// The instructions `ins` are those made from the commands `cmds` grouped as
/// `gs`, in order.
pub open spec fn instructions_from(
    cmds: Seq<Command>,
    gs: Seq<Group>,
    program_id: Seq<u8>,
    pool: Map<Seq<u8>, Account>,
    ins: Seq<Instruction>,
) -> bool {
    &&& valid_grouping(cmds, gs)
    &&& ins.len() == produced_groups(cmds, gs).len()
    &&& forall|j: int| 0 <= j < ins.len() ==> instruction_for(#[trigger] ins[j], cmds, produced_groups(cmds, gs)[j], program_id, pool)
}

/// The account map `m` after adding each address of `keys` in turn, with the
/// write flag `is_write` and not signing.
pub open spec fn added_keys(m: Map<Seq<u8>, Flags>, keys: Seq<Seq<u8>>, is_write: bool) -> Map<Seq<u8>, Flags>
    decreases keys.len(),
{
    if keys.len() == 0 {
        m
    } else {
        merged(added_keys(m, keys.drop_last(), is_write), keys.last(), is_write, false)
    }
}

/// The addresses that the random numbers `draws` pick among the accounts
/// kept as `e` (see `Accounts::account_at`), in order; none where there is no
/// account.
pub open spec fn picked_keys(e: Seq<Account>, draws: Seq<u32>) -> Seq<Seq<u8>> {
    if e.len() == 0 {
        Seq::empty()
    } else {
        draws.map_values(|d: u32| e[(d as int) % (e.len() as int)].address@)
    }
}

/// Adds the accounts of `pool` that the random numbers `draws` pick (the
/// same one may come up more than once), with the given write flag and not
/// signing; none where the pool is empty.
fn add_random_accounts(
    instruction_accounts: &mut CommandAccounts,
    accounts: &Accounts,
    draws: &Vec<u32>,
    is_write: bool,
    m: Ghost<Map<Seq<u8>, Flags>>,
)
    requires
        extends_accounts(old(instruction_accounts)@, m@, accounts@),
        old(instruction_accounts)@.dom().finite(),
    ensures
        extends_accounts(final(instruction_accounts)@, m@, accounts@),
        final(instruction_accounts)@.dom().finite(),
        final(instruction_accounts)@.dom().len() <= old(instruction_accounts)@.dom().len() + draws@.len(),
        final(instruction_accounts)@ == added_keys(
            old(instruction_accounts)@,
            picked_keys(accounts.entries(), draws@),
            is_write,
        ),
{
    let ghost keys = picked_keys(accounts.entries(), draws@);
    let count = accounts.count();
    let mut t: usize = 0;
    while t < draws.len()
        invariant
            t <= draws@.len(),
            count == accounts.entries().len(),
            keys == picked_keys(accounts.entries(), draws@),
            instruction_accounts@ == added_keys(
                old(instruction_accounts)@,
                if count == 0 { Seq::<Seq<u8>>::empty() } else { keys.take(t as int) },
                is_write,
            ),
            extends_accounts(instruction_accounts@, m@, accounts@),
            instruction_accounts@.dom().finite(),
            instruction_accounts@.dom().len() <= old(instruction_accounts)@.dom().len() + t,
        decreases draws@.len() - t,
    {
        if let Some(account) = accounts.account_at(draws[t]) {
            let ghost before = instruction_accounts@;
            instruction_accounts.add(&account.address, is_write, false);
            proof {
                let k = account.address@;
                assert(keys[t as int] == k);
                assert(keys.take(t + 1).drop_last() =~= keys.take(t as int));
                assert(instruction_accounts@ == merged(before, k, is_write, false));
                assert(instruction_accounts@.dom() =~= before.dom().insert(k));
                assert(extends_accounts(instruction_accounts@, m@, accounts@)) by {
                    assert forall|x: Seq<u8>| #[trigger] m@.contains_key(x) implies instruction_accounts@.contains_key(x)
                        && instruction_accounts@[x].1 == m@[x].1 && (m@[x].0 ==> instruction_accounts@[x].0) by {
                        assert(before.contains_key(x));
                    }
                    assert forall|x: Seq<u8>| #[trigger] instruction_accounts@.contains_key(x) && !m@.contains_key(x)
                        implies !instruction_accounts@[x].1 && accounts@.contains_key(x) by {
                        if x != k {
                            assert(before.contains_key(x));
                        } else if before.contains_key(x) {
                            assert(!before[x].1);
                        }
                    }
                }
            }
        }
        t = t + 1;
    }
    proof {
        if count != 0 {
            assert(keys.take(t as int) =~= keys);
        } else {
            assert(keys =~= Seq::<Seq<u8>>::empty());
        }
    }
}

} // verus!

verus! {

proof fn lemma_units_push(cmds: Seq<Command>, a: int, b: int)
    requires
        0 <= a <= b < cmds.len(),
    ensures
        units_sum(cmds.subrange(a, b + 1)) == units_sum(cmds.subrange(a, b)) + cmds[b].compute_units,
        concat_data(cmds.subrange(a, b + 1)) == concat_data(cmds.subrange(a, b)) + cmds[b].data@,
        merged_accounts(cmds.subrange(a, b + 1)) == merge_maps(merged_accounts(cmds.subrange(a, b)), cmds[b].accounts@),
{
    assert(cmds.subrange(a, b + 1).drop_last() =~= cmds.subrange(a, b));
}

proof fn lemma_merged_none(cmds: Seq<Command>)
    requires
        no_command_accounts(cmds),
    ensures
        merged_accounts(cmds) == Map::<Seq<u8>, Flags>::empty(),
    decreases cmds.len(),
{
    if cmds.len() > 0 {
        let p = cmds.drop_last();
        assert forall|i: int| 0 <= i < p.len() implies #[trigger] p[i].accounts@ == Map::<Seq<u8>, Flags>::empty() by {
            assert(p[i] == cmds[i]);
        }
        lemma_merged_none(p);
        assert(cmds[cmds.len() - 1].accounts@ == Map::<Seq<u8>, Flags>::empty());
        assert(merge_maps(Map::<Seq<u8>, Flags>::empty(), Map::<Seq<u8>, Flags>::empty()) =~= Map::<Seq<u8>, Flags>::empty());
    }
}

proof fn lemma_units_nonneg(cmds: Seq<Command>)
    ensures
        units_sum(cmds) >= 0,
    decreases cmds.len(),
{
    if cmds.len() > 0 {
        lemma_units_nonneg(cmds.drop_last());
    }
}

proof fn lemma_metas_for(metas: Seq<AccountMeta>, a: Map<Seq<u8>, Flags>, m: Map<Seq<u8>, Flags>, pool: Map<Seq<u8>, Account>)
    requires
        extends_accounts(a, m, pool),
        a.dom().finite(),
        m.dom().finite(),
        metas.len() == a.dom().len(),
        a.dom().len() <= if m.dom().len() < MAX_CONTENTION_ACCOUNTS {
            (MAX_CONTENTION_ACCOUNTS - 1) as nat
        } else {
            m.dom().len()
        },
        forall|i: int|
            0 <= i < metas.len() ==> #[trigger] a.contains_key(metas[i].pubkey@)
                && a[metas[i].pubkey@] == (metas[i].is_writable, metas[i].is_signer),
        forall|i: int, j: int|
            0 <= i < metas.len() && 0 <= j < metas.len() && i != j ==> #[trigger] metas[i].pubkey@
                != #[trigger] metas[j].pubkey@,
        forall|k: Seq<u8>| #[trigger] a.contains_key(k) ==> exists|i: int| 0 <= i < metas.len() && metas[i].pubkey@ == k,
    ensures
        metas_for(metas, m, pool),
{
    assert forall|k: Seq<u8>| #[trigger] m.contains_key(k) implies exists|i: int| 0 <= i < metas.len() && metas[i].pubkey@ == k by {
        assert(a.contains_key(k));
    }
    assert forall|i: int| 0 <= i < metas.len() implies if m.contains_key(#[trigger] metas[i].pubkey@) {
        metas[i].is_signer == m[metas[i].pubkey@].1 && (m[metas[i].pubkey@].0 ==> metas[i].is_writable)
    } else {
        !metas[i].is_signer && pool.contains_key(metas[i].pubkey@)
    } by {
        assert(a.contains_key(metas[i].pubkey@));
    }
}

/// How many accounts are added for contention to an instruction that names
/// `count` accounts, read-only and written, for the random numbers
/// `total_draw` and `split_draw` (see `contention_total` and
/// `contention_split`): none where it already names `MAX_CONTENTION_ACCOUNTS`
/// or more, or where the total drawn is zero.
pub fn contention_plan(count: usize, total_draw: u32, split_draw: u32) -> (r: (u32, u32))
    ensures
        r == if count >= MAX_CONTENTION_ACCOUNTS {
            (0u32, 0u32)
        } else {
            let t = (total_draw as int) % ((MAX_CONTENTION_ACCOUNTS - count) as int);
            if t == 0 {
                (0u32, 0u32)
            } else {
                ((split_draw as int % t) as u32, (t - split_draw as int % t) as u32)
            }
        },
        count < MAX_CONTENTION_ACCOUNTS ==> count + r.0 + r.1 < MAX_CONTENTION_ACCOUNTS,
{
    if count >= MAX_CONTENTION_ACCOUNTS {
        return (0, 0);
    }
    let total = contention_total(total_draw, count);
    if total == 0 {
        (0, 0)
    } else {
        contention_split(split_draw, total)
    }
}

/// The instruction for `program_id` with the bytes `data` and the accounts
/// of its commands, to which the accounts of `accounts` that the random
/// numbers `read_only_draws` pick are added read-only, and then those that
/// `written_draws` pick are added written, none of them signing.
pub fn instruction_with_contention(
    program_id: &Pubkey,
    data: Vec<u8>,
    instruction_accounts: CommandAccounts,
    accounts: &Accounts,
    read_only_draws: &Vec<u32>,
    written_draws: &Vec<u32>,
) -> (ins: Instruction)
    requires
        read_only_draws@.len() + written_draws@.len() == 0 || instruction_accounts@.dom().len()
            + read_only_draws@.len() + written_draws@.len() < MAX_CONTENTION_ACCOUNTS,
    ensures
        ins.program_id == *program_id,
        ins.data@ == data@,
        metas_match(
            ins.accounts@,
            added_keys(
                added_keys(instruction_accounts@, picked_keys(accounts.entries(), read_only_draws@), false),
                picked_keys(accounts.entries(), written_draws@),
                true,
            ),
        ),
        metas_for(ins.accounts@, instruction_accounts@, accounts@),
        instruction_accounts@ == Map::<Seq<u8>, Flags>::empty() ==> contention_only(ins, accounts@),
{
    let ghost pool = accounts@;
    let ghost m = instruction_accounts@;
    let mut instruction_accounts = instruction_accounts;
    let count = instruction_accounts.count();
    proof {
        assert(extends_accounts(instruction_accounts@, m, pool));
    }
    add_random_accounts(&mut instruction_accounts, accounts, read_only_draws, false, Ghost(m));
    add_random_accounts(&mut instruction_accounts, accounts, written_draws, true, Ghost(m));
    let metas = instruction_accounts.get_account_metas();
    proof {
        lemma_metas_for(metas@, instruction_accounts@, m, pool);
    }
    let ins = Instruction::new_with_bytes(*program_id, data.as_slice(), metas);
    proof {
        if m == Map::<Seq<u8>, Flags>::empty() {
            assert(m.dom() =~= Set::<Seq<u8>>::empty());
            assert forall|i: int| 0 <= i < ins.accounts@.len() implies !(#[trigger] ins.accounts@[i]).is_signer
                && pool.contains_key(ins.accounts@[i].pubkey@) by {
                assert(!m.contains_key(ins.accounts@[i].pubkey@));
            }
        }
    }
    ins
}

/// `n` random numbers of `rng`.
fn draw_numbers(rng: &mut ThreadRng, n: u32) -> (v: Vec<u32>)
    ensures
        v@.len() == n,
{
    let mut v: Vec<u32> = Vec::new();
    let mut k: u32 = 0;
    while k < n
        invariant
            k <= n,
            v@.len() == k,
        decreases n - k,
    {
        v.push(next_u32(rng));
        k = k + 1;
    }
    v
}

/// The commands that `take_group` takes, with the count `n` asked for: the
/// first `kept` of `cmds` fit an instruction's compute limit, and either all
/// `n` were kept, or the one after the kept ones was dropped because it would
/// have taken the instruction past that limit.
pub open spec fn group_taken(cmds: Seq<Command>, n: int, kept: int, dropped: bool) -> bool {
    &&& 0 <= kept <= n
    &&& kept + (if dropped { 1int } else { 0int }) <= cmds.len()
    &&& units_sum(cmds.take(kept)) <= MAX_INSTRUCTION_COMPUTE_UNITS
    &&& !dropped ==> kept == n
    &&& dropped ==> kept < n && units_sum(cmds.take(kept + 1)) > MAX_INSTRUCTION_COMPUTE_UNITS
}

/// Takes the next group of commands off the front of `command_data` for one
/// instruction: as many as `group_size` gives for the random number
/// `count_draw`, in order, until one would take the instruction past
/// `MAX_INSTRUCTION_COMPUTE_UNITS` (that one is taken off and dropped).
/// Returns the kept commands' bytes and accounts, how many were kept, and
/// whether one was dropped.
pub fn take_group(command_data: &mut Vec<Command>, count_draw: u32) -> (r: (Vec<u8>, CommandAccounts, usize, bool))
    requires
        0 < old(command_data)@.len() <= u32::MAX,
        forall|i: int|
            0 <= i < old(command_data)@.len() ==> #[trigger] old(command_data)@[i].compute_units < MAX_TX_COMPUTE_UNITS,
    ensures
        group_taken(
            old(command_data)@,
            (count_draw as int) % (old(command_data)@.len() as int) + 1,
            r.2 as int,
            r.3,
        ),
        final(command_data)@ == old(command_data)@.skip(r.2 + if r.3 { 1int } else { 0int }),
        r.0@ == concat_data(old(command_data)@.take(r.2 as int)),
        r.1@ == merged_accounts(old(command_data)@.take(r.2 as int)),
{
    let ghost cmds = command_data@;
    let n = group_size(count_draw, command_data.len());
    let mut command_count: u32 = n;
    let mut instruction_compute_units: u32 = 0;
    let mut data: Vec<u8> = Vec::new();
    let mut instruction_accounts = CommandAccounts::new();
    let mut kept: usize = 0;
    let ghost mut pos: int = 0;
    let mut over = false;
    proof {
        assert(cmds.subrange(0, 0) =~= Seq::<Command>::empty());
        assert(cmds.subrange(0, cmds.len() as int) =~= cmds);
    }
    while command_count > 0 && !over
        invariant
            0 <= pos <= cmds.len(),
            command_data@ == cmds.subrange(pos, cmds.len() as int),
            pos + command_data@.len() == cmds.len(),
            n == (count_draw as int) % (cmds.len() as int) + 1,
            1 <= n <= cmds.len(),
            !over ==> command_count <= command_data@.len(),
            kept + command_count == n,
            forall|i: int| 0 <= i < cmds.len() ==> #[trigger] cmds[i].compute_units < MAX_TX_COMPUTE_UNITS,
            kept == pos - if over { 1int } else { 0int },
            !over ==> instruction_compute_units == units_sum(cmds.subrange(0, pos)),
            units_sum(cmds.subrange(0, kept as int)) <= MAX_INSTRUCTION_COMPUTE_UNITS,
            over ==> command_count > 0 && units_sum(cmds.subrange(0, pos)) > MAX_INSTRUCTION_COMPUTE_UNITS,
            data@ == concat_data(cmds.subrange(0, kept as int)),
            instruction_accounts@ == merged_accounts(cmds.subrange(0, kept as int)),
        decreases command_data@.len(), if over { 0int } else { 1int },
    {
        proof {
            lemma_units_push(cmds, 0, pos);
        }
        let command = command_data.remove(0);
        let Command { data: mut command_bytes, accounts: command_accounts, compute_units } = command;
        instruction_compute_units = instruction_compute_units + compute_units;
        proof {
            pos = pos + 1;
        }
        if instruction_compute_units > MAX_INSTRUCTION_COMPUTE_UNITS {
            over = true;
        } else {
            data.append(&mut command_bytes);
            instruction_accounts.add_command_accounts(&command_accounts);
            command_count = command_count - 1;
            kept = kept + 1;
        }
        assert(command_data@ =~= cmds.subrange(pos, cmds.len() as int));
    }
    proof {
        assert(cmds.take(kept as int) =~= cmds.subrange(0, kept as int));
        if over {
            assert(cmds.take(kept + 1) =~= cmds.subrange(0, pos));
        }
        assert(command_data@ =~= cmds.skip(kept + if over { 1int } else { 0int }));
    }
    (data, instruction_accounts, kept, over)
}

impl CommandBatch {
    /// Groups the commands into instructions for `program_id`: each time a
    /// random number of the remaining commands, taken in order until one
    /// would take the instruction past `MAX_INSTRUCTION_COMPUTE_UNITS` (that
    /// one is dropped); a group with data becomes an instruction, to which
    /// random accounts of `accounts` are added for contention while it
    /// names fewer than `MAX_CONTENTION_ACCOUNTS`.
    pub fn into_instructions(
        self,
        rng: &mut ThreadRng,
        program_id: &Pubkey,
        accounts: &mut Accounts,
    ) -> (instructions: Vec<Instruction>)
        requires
            self.wf(),
        ensures
            final(accounts)@ == old(accounts)@,
            exists|gs: Seq<Group>|
                instructions_from(self.commands(), gs, program_id@, old(accounts)@, instructions@),
            forall|j: int| 0 <= j < instructions@.len() ==> contention_only(#[trigger] instructions@[j], old(accounts)@),
    {
        let ghost cmds = self.commands@;
        let ghost pool = accounts@;
        let mut command_data = self.commands;
        let mut instructions: Vec<Instruction> = Vec::new();
        let ghost mut gs: Seq<Group> = Seq::empty();
        let ghost mut pos: int = 0;
        while command_data.len() > 0
            invariant
                0 <= pos <= cmds.len(),
                command_data@ == cmds.subrange(pos, cmds.len() as int),
                pos + command_data@.len() == cmds.len(),
                cmds.len() <= MAX_TX_DATA_SIZE + 7,
                forall|i: int| 0 <= i < cmds.len() ==> #[trigger] cmds[i].compute_units < MAX_TX_COMPUTE_UNITS,
                accounts@ == pool,
                no_command_accounts(cmds),
                forall|j: int| 0 <= j < instructions@.len() ==> contention_only(#[trigger] instructions@[j], pool),
                forall|i: int| 0 <= i < gs.len() ==> valid_group(cmds, #[trigger] gs[i]),
                forall|i: int| 0 < i < gs.len() ==> (#[trigger] gs[i]).0 == group_end(gs[i - 1]),
                gs.len() == 0 ==> pos == 0,
                gs.len() > 0 ==> gs[0].0 == 0 && group_end(gs.last()) == pos,
                instructions@.len() == produced_groups(cmds, gs).len(),
                forall|j: int|
                    0 <= j < instructions@.len() ==> instruction_for(
                        #[trigger] instructions@[j],
                        cmds,
                        produced_groups(cmds, gs)[j],
                        program_id@,
                        pool,
                    ),
            decreases command_data@.len(),
        {
            let ghost start = pos;
            let ghost before = command_data@;
            let (data, instruction_accounts, kept, dropped) = take_group(&mut command_data, next_u32(rng));
            let ghost g: Group = (start, kept as int, dropped);
            proof {
                let d: int = if dropped { 1 } else { 0 };
                assert(before.take(kept as int) =~= cmds.subrange(start, start + kept));
                assert(kept_commands(cmds, g) =~= before.take(kept as int));
                if dropped {
                    assert(before.take(kept + 1) =~= cmds.subrange(start, start + kept + 1));
                }
                assert(command_data@ =~= cmds.subrange(start + kept + d, cmds.len() as int));
                pos = start + kept + d;
            }
            let ghost old_gs = gs;
            proof {
                gs = gs.push(g);
                assert(gs.drop_last() =~= old_gs);
            }
            if data.len() > 0 {
                proof {
                    let sub = cmds.subrange(start, start + kept);
                    assert forall|i: int| 0 <= i < sub.len() implies #[trigger] sub[i].accounts@ == Map::<
                        Seq<u8>,
                        Flags,
                    >::empty() by {
                        assert(sub[i] == cmds[start + i]);
                    }
                    lemma_merged_none(sub);
                }
                let count = instruction_accounts.count();
                let total_draw: u32 = if count < MAX_CONTENTION_ACCOUNTS {
                    next_u32(rng)
                } else {
                    0
                };
                let split_draw: u32 = if count < MAX_CONTENTION_ACCOUNTS && contention_total(total_draw, count) > 0 {
                    next_u32(rng)
                } else {
                    0
                };
                let (read_only, written) = contention_plan(count, total_draw, split_draw);
                let read_only_draws = draw_numbers(rng, read_only);
                let written_draws = draw_numbers(rng, written);
                let ins = instruction_with_contention(
                    program_id,
                    data,
                    instruction_accounts,
                    accounts,
                    &read_only_draws,
                    &written_draws,
                );
                let ghost old_ins = instructions@;
                instructions.push(ins);
                proof {
                    assert forall|j: int| 0 <= j < instructions@.len() implies contention_only(
                        #[trigger] instructions@[j],
                        pool,
                    ) by {
                        if j < old_ins.len() {
                            assert(instructions@[j] == old_ins[j]);
                        }
                    }
                    assert(produced_groups(cmds, gs) == produced_groups(cmds, old_gs).push(g));
                    assert(instruction_for(ins, cmds, g, program_id@, pool));
                    assert forall|j: int| 0 <= j < instructions@.len() implies instruction_for(
                        #[trigger] instructions@[j],
                        cmds,
                        produced_groups(cmds, gs)[j],
                        program_id@,
                        pool,
                    ) by {
                        if j < old_ins.len() {
                            assert(instructions@[j] == old_ins[j]);
                        }
                    }
                }
            } else {
                proof {
                    assert(produced_groups(cmds, gs) == produced_groups(cmds, old_gs));
                }
            }
        }
        proof {
            assert(instructions_from(cmds, gs, program_id@, pool, instructions@));
            assert(cmds == self.commands());
            assert(instructions_from(self.commands(), gs, program_id@, pool, instructions@));
        }
        instructions
    }
}

} // verus!
