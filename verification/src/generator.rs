use vstd::prelude::*;
use std::collections::HashSet;
use rand::rngs::ThreadRng;
use crate::command_accounts::CommandAccounts;
use crate::commands::{
    add_alloc_command, add_cpu_command, add_fail_command, add_free_command, add_sysvar_command,
    alloc_bytes, cpu_bytes, fail_bytes, free_bytes, sysvar_bytes,
};
use crate::pubkey::Pubkey;
use crate::rng::next_u32;
use vstd::std_specs::iter::IteratorSpec;

verus! {

broadcast use vstd::std_specs::hash::group_hash_axioms;

/// Compute units that one transaction may use at most.
pub const MAX_TX_COMPUTE_UNITS: u32 = 1_400_000;
/// Compute units that one instruction may use at most.
pub const MAX_INSTRUCTION_COMPUTE_UNITS: u32 = 600_000;
/// Cost of a command that fails the program.
pub const FAIL_COMMAND_COST: u32 = 1000;
/// Cost of one iteration of a cpu command.
pub const CPU_COMMAND_COST_PER_ITERATION: u32 = 5000;
/// Cost of an alloc command.
pub const ALLOC_COMMAND_COST: u32 = 100;
/// Cost of a free command.
pub const FREE_COMMAND_COST: u32 = 100;
/// Cost of a sysvar command.
pub const SYSVAR_COMMAND_COST: u32 = 500;
/// Largest number of bytes that one alloc command asks for.
pub const MAX_ALLOC_BYTES: u32 = 1000;
/// Number of allocation slots.
pub const ALLOC_SLOTS: usize = 256;

/// The kinds of command that the generator picks among, when it does not fail.
pub const CPU_KIND: u8 = 0;
pub const ALLOC_KIND: u8 = 1;
pub const FREE_KIND: u8 = 2;
pub const SYSVAR_KIND: u8 = 4;

/// The kinds of command that fit a budget of `budget` compute units with
/// `allocated` slots in use, in the order in which they are listed.
pub open spec fn available_kinds(budget: u32, allocated: nat) -> Seq<u8> {
    let s0 = Seq::<u8>::empty();
    let s1 = if budget >= CPU_COMMAND_COST_PER_ITERATION {
        s0.push(CPU_KIND)
    } else {
        s0
    };
    let s2 = if budget >= ALLOC_COMMAND_COST && allocated < 256 {
        s1.push(ALLOC_KIND)
    } else {
        s1
    };
    let s3 = if budget >= FREE_COMMAND_COST && allocated > 0 {
        s2.push(FREE_KIND)
    } else {
        s2
    };
    if budget >= SYSVAR_COMMAND_COST {
        s3.push(SYSVAR_KIND)
    } else {
        s3
    }
}

/// The kinds of command offered for a budget of `budget` compute units
/// with `allocated` slots in use: cpu exactly when one iteration (5000
/// units) fits, alloc when 100 units fit and a slot is free, free when 100
/// units fit and a slot is in use, and sysvar exactly when 500 units fit,
/// whatever the budget above that; each at most once, in the order cpu,
/// alloc, free, sysvar.
pub proof fn lemma_kinds_offered(budget: u32, allocated: nat)
    ensures
        available_kinds(budget, allocated).contains(CPU_KIND) <==> budget >= 5000,
        available_kinds(budget, allocated).contains(ALLOC_KIND) <==> budget >= 100 && allocated < 256,
        available_kinds(budget, allocated).contains(FREE_KIND) <==> budget >= 100 && allocated > 0,
        available_kinds(budget, allocated).contains(SYSVAR_KIND) <==> budget >= 500,
        forall|i: int|
            0 <= i < available_kinds(budget, allocated).len() ==> #[trigger] available_kinds(budget, allocated)[i]
                == CPU_KIND || available_kinds(budget, allocated)[i] == ALLOC_KIND || available_kinds(
                budget,
                allocated,
            )[i] == FREE_KIND || available_kinds(budget, allocated)[i] == SYSVAR_KIND,
        forall|i: int, j: int|
            0 <= i < j < available_kinds(budget, allocated).len() ==> #[trigger] available_kinds(budget, allocated)[i]
                < #[trigger] available_kinds(budget, allocated)[j],
{
    let k = available_kinds(budget, allocated);
    let s0 = Seq::<u8>::empty();
    let s1 = if budget >= CPU_COMMAND_COST_PER_ITERATION { s0.push(CPU_KIND) } else { s0 };
    let s2 = if budget >= ALLOC_COMMAND_COST && allocated < 256 { s1.push(ALLOC_KIND) } else { s1 };
    let s3 = if budget >= FREE_COMMAND_COST && allocated > 0 { s2.push(FREE_KIND) } else { s2 };
    assert(k == if budget >= SYSVAR_COMMAND_COST { s3.push(SYSVAR_KIND) } else { s3 });
    assert(s1.contains(CPU_KIND) <==> budget >= 5000) by {
        if budget >= 5000 {
            assert(s1[0] == CPU_KIND);
        }
    }
    assert(forall|x: u8| s1.contains(x) ==> x == CPU_KIND);
    assert(s2.contains(ALLOC_KIND) <==> budget >= 100 && allocated < 256) by {
        if budget >= 100 && allocated < 256 {
            assert(s2[s2.len() - 1] == ALLOC_KIND);
        }
    }
    assert(forall|x: u8| s2.contains(x) ==> x == CPU_KIND || x == ALLOC_KIND);
    assert(s2.contains(CPU_KIND) <==> budget >= 5000) by {
        if budget >= 5000 {
            assert(s2[0] == CPU_KIND);
        }
    }
    assert(s3.contains(FREE_KIND) <==> budget >= 100 && allocated > 0) by {
        if budget >= 100 && allocated > 0 {
            assert(s3[s3.len() - 1] == FREE_KIND);
        }
    }
    assert(s3.contains(CPU_KIND) <==> budget >= 5000) by {
        if budget >= 5000 {
            assert(s3[0] == CPU_KIND);
        }
    }
    assert(s3.contains(ALLOC_KIND) <==> budget >= 100 && allocated < 256) by {
        if budget >= 100 && allocated < 256 {
            let j = s2.len() - 1;
            assert(s3[j] == ALLOC_KIND);
        }
    }
    assert(forall|x: u8| s3.contains(x) ==> x == CPU_KIND || x == ALLOC_KIND || x == FREE_KIND);
    assert(k.contains(SYSVAR_KIND) <==> budget >= 500) by {
        if budget >= 500 {
            assert(k[k.len() - 1] == SYSVAR_KIND);
        }
    }
    assert(k.contains(CPU_KIND) <==> budget >= 5000) by {
        if budget >= 5000 {
            assert(k[0] == CPU_KIND);
        }
    }
    assert(k.contains(ALLOC_KIND) <==> budget >= 100 && allocated < 256) by {
        if budget >= 100 && allocated < 256 {
            let j = s2.len() - 1;
            assert(k[j] == ALLOC_KIND);
        }
    }
    assert(k.contains(FREE_KIND) <==> budget >= 100 && allocated > 0) by {
        if budget >= 100 && allocated > 0 {
            let j = s3.len() - 1;
            assert(k[j] == FREE_KIND);
        }
    }
}

/// The kinds of command that fit the budget, as `available_kinds` lists them.
pub fn command_kinds(budget: u32, allocated: usize) -> (v: Vec<u8>)
    ensures
        v@ == available_kinds(budget, allocated as nat),
        v@.contains(CPU_KIND) <==> budget >= 5000,
        v@.contains(ALLOC_KIND) <==> budget >= 100 && allocated < 256,
        v@.contains(FREE_KIND) <==> budget >= 100 && allocated > 0,
        v@.contains(SYSVAR_KIND) <==> budget >= 500,
        forall|i: int|
            0 <= i < v@.len() ==> #[trigger] v@[i] == CPU_KIND || v@[i] == ALLOC_KIND || v@[i] == FREE_KIND || v@[i]
                == SYSVAR_KIND,
        forall|i: int, j: int| 0 <= i < j < v@.len() ==> #[trigger] v@[i] < #[trigger] v@[j],
{
    proof {
        lemma_kinds_offered(budget, allocated as nat);
    }
    let mut v: Vec<u8> = Vec::new();
    if budget >= CPU_COMMAND_COST_PER_ITERATION {
        v.push(CPU_KIND);
    }
    if budget >= ALLOC_COMMAND_COST && allocated < ALLOC_SLOTS {
        v.push(ALLOC_KIND);
    }
    if budget >= FREE_COMMAND_COST && allocated > 0 {
        v.push(FREE_KIND);
    }
    if budget >= SYSVAR_COMMAND_COST {
        v.push(SYSVAR_KIND);
    }
    v
}

/// The error code of a failing command drawn as `draw`: 1 to 255.
pub fn fail_code(draw: u32) -> (code: u8)
    ensures
        code == (draw % 255) + 1,
        1 <= code,
{
    ((draw % 255) + 1) as u8
}

/// The number of iterations of a cpu command drawn as `draw` under `budget`:
/// 1 up to as many as the budget pays for.
pub fn cpu_iterations(draw: u32, budget: u32) -> (n: u32)
    requires
        budget >= CPU_COMMAND_COST_PER_ITERATION,
    ensures
        n == draw % (budget / CPU_COMMAND_COST_PER_ITERATION) + 1,
        1 <= n <= budget / CPU_COMMAND_COST_PER_ITERATION,
        n * CPU_COMMAND_COST_PER_ITERATION <= budget,
{
    let max_iterations = budget / CPU_COMMAND_COST_PER_ITERATION;
    let n = (draw % max_iterations) + 1;
    assert(n * CPU_COMMAND_COST_PER_ITERATION <= budget) by (nonlinear_arith)
        requires
            1 <= n <= max_iterations,
            max_iterations == budget / CPU_COMMAND_COST_PER_ITERATION,
            CPU_COMMAND_COST_PER_ITERATION == 5000,
    ;
    n
}

/// The number of bytes that an alloc command drawn as `draw` asks for:
/// 1 to `MAX_ALLOC_BYTES`.
pub fn alloc_amount(draw: u32) -> (n: u32)
    ensures
        n == draw % MAX_ALLOC_BYTES + 1,
        1 <= n <= MAX_ALLOC_BYTES,
{
    (draw % MAX_ALLOC_BYTES) + 1
}

proof fn lemma_u8_set_not_full(s: Set<u8>)
    requires
        s.finite() ==> s.len() < 256,
    ensures
        exists|x: u8| !s.contains(x),
{
    if forall|x: u8| s.contains(x) {
        broadcast use vstd::set_lib::full_set_properties, vstd::set_lib::range_set_properties;

        assert(s =~= Set::<u8>::full());
        assert(Set::<u8>::full() =~= Set::<u8>::range_inclusive(0u8, 255u8));
        assert(Set::<u8>::range(0u8, 255u8).len() == 255);
        assert(!Set::<u8>::range(0u8, 255u8).contains(255u8));
        assert(s.len() == 256);
    }
}

/// The least slot that is not in use.
pub open spec fn least_free_slot(s: Set<u8>, x: u8) -> bool {
    &&& !s.contains(x)
    &&& forall|y: u8| y < x ==> s.contains(y)
}

/// What one command did, whatever the random numbers: the command bytes
/// `data`, the compute units `cost` it was charged, and the slots in use after
/// it (`after`) against before it (`before`).
pub open spec fn command_outcome(
    fail: bool,
    budget: u32,
    before: Set<u8>,
    after: Set<u8>,
    data: Seq<u8>,
    cost: u32,
) -> bool {
    let kinds = available_kinds(budget, before.len());
    if fail {
        &&& exists|code: u8| 1 <= code && data == fail_bytes(code)
        &&& cost == FAIL_COMMAND_COST
        &&& after == before
    } else if kinds.len() == 0 {
        &&& data == Seq::<u8>::empty()
        &&& cost == budget
        &&& after == before
    } else {
        ||| {
            &&& kinds.contains(CPU_KIND)
            &&& exists|n: u32|
                1 <= n && n * CPU_COMMAND_COST_PER_ITERATION <= budget && data == cpu_bytes(n)
                    && cost == n * CPU_COMMAND_COST_PER_ITERATION
            &&& after == before
        }
        ||| {
            &&& kinds.contains(ALLOC_KIND)
            &&& exists|amount: u32, slot: u8|
                1 <= amount <= MAX_ALLOC_BYTES && least_free_slot(before, slot) && data
                    == alloc_bytes(amount, slot) && after == before.insert(slot)
            &&& cost == ALLOC_COMMAND_COST
        }
        ||| {
            &&& kinds.contains(FREE_KIND)
            &&& exists|slot: u8| before.contains(slot) && data == free_bytes(slot) && after == before.remove(slot)
            &&& cost == FREE_COMMAND_COST
        }
        ||| {
            &&& kinds.contains(SYSVAR_KIND)
            &&& data == sysvar_bytes()
            &&& cost == SYSVAR_COMMAND_COST
            &&& after == before
        }
    }
}

} // verus!

verus! {

/// The kind of command that the random number `draw` picks among `kinds`:
/// the one at `draw` modulo their number.
pub fn pick_kind(draw: u32, kinds: &Vec<u8>) -> (k: u8)
    requires
        kinds@.len() > 0,
    ensures
        k == kinds@[(draw as int) % (kinds@.len() as int)],
{
    kinds[(draw as usize) % kinds.len()]
}

/// The least slot that `slots` does not hold.
fn first_free_slot(slots: &HashSet<u8>) -> (slot: u8)
    requires
        slots@.finite() ==> slots@.len() < 256,
    ensures
        least_free_slot(slots@, slot),
{
    proof {
        lemma_u8_set_not_full(slots@);
    }
    let ghost free = choose|x: u8| !slots@.contains(x);
    let mut index: u8 = 0;
    loop
        invariant
            !slots@.contains(free),
            index <= free,
            forall|y: u8| y < index ==> slots@.contains(y),
        decreases free - index,
    {
        if !slots.contains(&index) {
            return index;
        }
        index = index + 1;
    }
}

/// The slot in position `k` of the order in which `slots` hands out its
/// members.
fn nth_slot(slots: &HashSet<u8>, k: usize) -> (slot: u8)
    requires
        k < slots@.len(),
    ensures
        slots@.contains(slot),
{
    let n = slots.len();
    let mut slot: u8 = 0;
    let mut i: usize = 0;
    for x in it: slots.iter()
        invariant
            i == it.index(),
            n == slots@.len(),
            it.seq().unref().to_set() == slots@,
            it.seq().len() == slots@.len(),
            k < slots@.len(),
            i > k ==> slots@.contains(slot),
    {
        if i == k {
            slot = *x;
            assert(it.seq().unref().to_set().contains(*it.seq()[k as int]));
        }
        i = i + 1;
    }
    assert(i == slots@.len());
    slot
}

/// The kind of command that the random number `kind_draw` picks among those
/// that fit `budget` with `allocated` slots in use.
pub open spec fn chosen_kind(budget: u32, allocated: nat, kind_draw: u32) -> u8 {
    available_kinds(budget, allocated)[(kind_draw as int) % (available_kinds(budget, allocated).len() as int)]
}

/// The command made for the random numbers `kind_draw` and `param_draw`,
/// given the slots in use `before` and after it `after`, the bytes `data`
/// and the charge `cost`: a failing command with the error code of
/// `param_draw`; else, among the kinds that fit the budget, the one at
/// `kind_draw`, with its iteration count or allocation size from
/// `param_draw`. An alloc takes the least free slot; a free gives back a slot
/// in use (the one at `param_draw` in the order in which the set of slots is
/// walked, which is left open).
pub open spec fn drawn_command(
    fail: bool,
    kind_draw: u32,
    param_draw: u32,
    budget: u32,
    before: Set<u8>,
    after: Set<u8>,
    data: Seq<u8>,
    cost: u32,
) -> bool {
    let kinds = available_kinds(budget, before.len());
    if fail {
        &&& data == fail_bytes(((param_draw % 255) + 1) as u8)
        &&& cost == FAIL_COMMAND_COST
        &&& after == before
    } else if kinds.len() == 0 {
        &&& data == Seq::<u8>::empty()
        &&& cost == budget
        &&& after == before
    } else {
        let kind = chosen_kind(budget, before.len(), kind_draw);
        if kind == CPU_KIND {
            let n = ((param_draw as int) % ((budget / CPU_COMMAND_COST_PER_ITERATION) as int) + 1) as u32;
            &&& data == cpu_bytes(n)
            &&& cost == n * CPU_COMMAND_COST_PER_ITERATION
            &&& after == before
        } else if kind == ALLOC_KIND {
            &&& exists|slot: u8|
                least_free_slot(before, slot) && data == alloc_bytes((param_draw % MAX_ALLOC_BYTES + 1) as u32, slot)
                    && after == before.insert(slot)
            &&& cost == ALLOC_COMMAND_COST
        } else if kind == FREE_KIND {
            &&& exists|slot: u8| before.contains(slot) && data == free_bytes(slot) && after == before.remove(slot)
            &&& cost == FREE_COMMAND_COST
        } else {
            &&& data == sysvar_bytes()
            &&& cost == SYSVAR_COMMAND_COST
            &&& after == before
        }
    }
}

/// Makes the command that the random numbers `kind_draw` and `param_draw`
/// pick (see `drawn_command`): a failing one where `fail` holds, else one of
/// the kinds that fit `compute_budget`. Returns the command bytes and the
/// compute units charged for them; slots that an alloc takes or a free gives
/// back are recorded in `allocated_indices`.
pub fn command_from_draws(
    fail: bool,
    kind_draw: u32,
    param_draw: u32,
    allocated_indices: &mut HashSet<u8>,
    compute_budget: u32,
    command_accounts: &mut CommandAccounts,
) -> (res: (Vec<u8>, u32))
    ensures
        drawn_command(
            fail,
            kind_draw,
            param_draw,
            compute_budget,
            old(allocated_indices)@,
            final(allocated_indices)@,
            res.0@,
            res.1,
        ),
        command_outcome(fail, compute_budget, old(allocated_indices)@, final(allocated_indices)@, res.0@, res.1),
        final(command_accounts)@ == old(command_accounts)@,
        res.0@.len() <= 6,
        res.1 <= if fail { FAIL_COMMAND_COST } else { compute_budget },
{
    let mut data: Vec<u8> = Vec::new();
    if fail {
        let code = fail_code(param_draw);
        add_fail_command(code, command_accounts, &mut data);
        return (data, FAIL_COMMAND_COST);
    }
    let kinds = command_kinds(compute_budget, allocated_indices.len());
    if kinds.len() == 0 {
        return (data, compute_budget);
    }
    let choice = pick_kind(kind_draw, &kinds);
    assert(kinds@.contains(choice));
    if choice == CPU_KIND {
        let iterations = cpu_iterations(param_draw, compute_budget);
        add_cpu_command(iterations, command_accounts, &mut data);
        (data, iterations * CPU_COMMAND_COST_PER_ITERATION)
    } else if choice == ALLOC_KIND {
        let index = first_free_slot(allocated_indices);
        let amount = alloc_amount(param_draw);
        add_alloc_command(amount, index, command_accounts, &mut data);
        allocated_indices.insert(index);
        (data, ALLOC_COMMAND_COST)
    } else if choice == FREE_KIND {
        let k = (param_draw as usize) % allocated_indices.len();
        let index = nth_slot(allocated_indices, k);
        add_free_command(index, command_accounts, &mut data);
        allocated_indices.remove(&index);
        (data, FREE_COMMAND_COST)
    } else {
        add_sysvar_command(command_accounts, &mut data);
        (data, SYSVAR_COMMAND_COST)
    }
}

/// Makes one command: a failing one where `fail` holds, else one of the
/// kinds that fit `compute_budget`, picked with the random numbers of `rng`
/// as `command_from_draws` says. Returns the command bytes and the compute
/// units charged for them; slots that an alloc takes or a free gives back
/// are recorded in `allocated_indices`.
pub fn make_command(
    fail: bool,
    rng: &mut ThreadRng,
    fee_payer: &Pubkey,
    allocated_indices: &mut HashSet<u8>,
    compute_budget: u32,
    command_accounts: &mut CommandAccounts,
) -> (res: (Vec<u8>, u32))
    ensures
        exists|kind_draw: u32, param_draw: u32|
            drawn_command(
                fail,
                kind_draw,
                param_draw,
                compute_budget,
                old(allocated_indices)@,
                final(allocated_indices)@,
                res.0@,
                res.1,
            ),
        command_outcome(fail, compute_budget, old(allocated_indices)@, final(allocated_indices)@, res.0@, res.1),
        final(command_accounts)@ == old(command_accounts)@,
        res.0@.len() <= 6,
        res.1 <= if fail { FAIL_COMMAND_COST } else { compute_budget },
{
    if fail {
        let param_draw = next_u32(rng);
        return command_from_draws(true, 0, param_draw, allocated_indices, compute_budget, command_accounts);
    }
    let kinds = command_kinds(compute_budget, allocated_indices.len());
    if kinds.len() == 0 {
        return command_from_draws(false, 0, 0, allocated_indices, compute_budget, command_accounts);
    }
    let kind_draw = next_u32(rng);
    let kind = pick_kind(kind_draw, &kinds);
    let param_draw = if kind == SYSVAR_KIND {
        0
    } else {
        next_u32(rng)
    };
    command_from_draws(false, kind_draw, param_draw, allocated_indices, compute_budget, command_accounts)
}

} // verus!
