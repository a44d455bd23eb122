use vstd::prelude::*;
use std::sync::Arc;
use rand::rngs::ThreadRng;
use crate::accounts::{Account, Accounts};
use crate::command_accounts::{CommandAccounts, Flags, Instruction, metas_match};
use crate::commands::{
    account_change_accounts, add_create_account_command, add_delete_account_command, create_account_bytes,
    delete_account_bytes,
};
use crate::pubkey::{Pubkey, find_program_address, le_u64, program_address, u64_to_le_bytes};
use crate::rng::{next_u32, next_u64};

verus! {

/// How many accounts are made for contention at start, at most.
pub const CONTENTION_ACCOUNT_COUNT: u32 = 20;
/// How many accounts one transaction creates or deletes, at most.
pub const ACCOUNTS_PER_TRANSACTION: u32 = 8;
/// The size of a created account is at most this many bytes.
pub const MAX_ACCOUNT_SIZE: u32 = 10 * 1024;

/// How many contention accounts to create for `num_threads` threads: four per
/// thread, and no more than `CONTENTION_ACCOUNT_COUNT`.
pub fn contention_accounts_to_create(num_threads: u32) -> (n: u32)
    requires
        num_threads * 4 <= u32::MAX,
    ensures
        n == if CONTENTION_ACCOUNT_COUNT > num_threads * 4 { num_threads * 4 } else { CONTENTION_ACCOUNT_COUNT as int },
{
    let mut n = CONTENTION_ACCOUNT_COUNT;
    if n > num_threads * 4 {
        n = num_threads * 4;
    }
    n
}

/// How many of `remaining` accounts the next transaction handles.
pub fn batch_size(remaining: u32) -> (n: u32)
    ensures
        n == if remaining > ACCOUNTS_PER_TRANSACTION { ACCOUNTS_PER_TRANSACTION } else { remaining },
{
    if remaining > ACCOUNTS_PER_TRANSACTION {
        ACCOUNTS_PER_TRANSACTION
    } else {
        remaining
    }
}

/// The data of commands that create the accounts `s`, paid by `fee_payer`.
pub open spec fn create_data(fee_payer: Seq<u8>, s: Seq<Account>) -> Seq<u8>
    decreases s.len(),
{
    if s.len() == 0 {
        Seq::empty()
    } else {
        create_data(fee_payer, s.drop_last()) + create_account_bytes(
            fee_payer,
            s.last().address@,
            s.last().seed@,
            s.last().size,
        )
    }
}

/// The data of commands that delete the accounts `s`, paid by `fee_payer`.
pub open spec fn delete_data(fee_payer: Seq<u8>, s: Seq<Account>) -> Seq<u8>
    decreases s.len(),
{
    if s.len() == 0 {
        Seq::empty()
    } else {
        delete_data(fee_payer, s.drop_last()) + delete_account_bytes(fee_payer, s.last().address@)
    }
}

/// The accounts that creating or deleting each of `s` touches, added to `m`.
pub open spec fn change_accounts(m: Map<Seq<u8>, Flags>, fee_payer: Seq<u8>, s: Seq<Account>) -> Map<Seq<u8>, Flags>
    decreases s.len(),
{
    if s.len() == 0 {
        m
    } else {
        account_change_accounts(change_accounts(m, fee_payer, s.drop_last()), fee_payer, s.last().address@)
    }
}

/// The recorded accounts `m` with each of `s` recorded.
pub open spec fn with_accounts(m: Map<Seq<u8>, Account>, s: Seq<Account>) -> Map<Seq<u8>, Account>
    decreases s.len(),
{
    if s.len() == 0 {
        m
    } else {
        with_accounts(m, s.drop_last()).insert(s.last().address@, s.last())
    }
}

/// The account was derived for `program_id` from a seed of seven bytes and
/// the bump seed that comes last in its seed.
pub open spec fn derived_account(a: Account, program_id: Seq<u8>) -> bool {
    &&& a.seed@.len() == 8
    &&& program_address(a.seed@.take(7), program_id) == Some((a.address@, a.seed@[7]))
}

/// The account made for the random numbers `draw`: its seed is the first
/// seven little-endian bytes of `draw.0` followed by the bump seed, its
/// address is derived from them for `program_id`, and its size is `draw.1`
/// modulo `MAX_ACCOUNT_SIZE + 1`.
pub open spec fn drawn_account(a: Account, draw: (u64, u32), program_id: Seq<u8>) -> bool {
    &&& a.seed@.len() == 8
    &&& a.seed@.take(7) == le_u64(draw.0).take(7)
    &&& program_address(a.seed@.take(7), program_id) == Some((a.address@, a.seed@[7]))
    &&& a.size as int == draw.1 as int % (MAX_ACCOUNT_SIZE + 1) as int
}

/// The seed that the random number `seed_draw` gives cannot be turned into
/// an address of `program_id`.
pub open spec fn underivable(seed_draw: u64, program_id: Seq<u8>) -> bool {
    program_address(le_u64(seed_draw).take(7), program_id) is None
}

/// The account for `program_id` that the random numbers `seed_draw` and
/// `size_draw` give (see `drawn_account`), or the seven seed bytes where no
/// address can be derived from them.
pub fn account_from_draws(seed_draw: u64, size_draw: u32, program_id: &Pubkey) -> (r: Result<Account, Vec<u8>>)
    ensures
        r matches Ok(a) ==> drawn_account(a, (seed_draw, size_draw), program_id@) && a.size <= MAX_ACCOUNT_SIZE,
        r matches Err(seed) ==> seed@ == le_u64(seed_draw).take(7) && underivable(seed_draw, program_id@),
{
    let draw = u64_to_le_bytes(seed_draw);
    let mut seed: Vec<u8> = Vec::new();
    let mut i: usize = 0;
    while i < 7
        invariant
            i <= 7,
            seed@ == draw@.take(i as int),
        decreases 7 - i,
    {
        seed.push(draw[i]);
        assert(seed@ =~= draw@.take(i + 1));
        i = i + 1;
    }
    match find_program_address(seed.as_slice(), program_id) {
        Some((address, bump_seed)) => {
            let ghost seven = seed@;
            seed.push(bump_seed);
            assert(seed@.take(7) =~= seven);
            let size = (size_draw % (MAX_ACCOUNT_SIZE + 1)) as u16;
            Ok(Account { address, seed, size })
        },
        None => Err(seed),
    }
}

/// Creates one account of `program_id` for each pair of random numbers of
/// `draws` (see `drawn_account`), paid by `funds_source`, records them in
/// `accounts`, and returns the instruction that creates them; none where an
/// address cannot be derived from a seed drawn, the accounts made before it
/// being recorded.
pub fn create_accounts_from_draws(
    draws: &Vec<(u64, u32)>,
    funds_source: &Pubkey,
    program_id: &Pubkey,
    accounts: &mut Accounts,
) -> (res: Option<Instruction>)
    ensures
        res is None <==> exists|i: int| 0 <= i < draws@.len() && underivable(#[trigger] draws@[i].0, program_id@),
        res matches Some(ins) ==> exists|made: Seq<Account>|
            {
                &&& made.len() == draws@.len()
                &&& forall|i: int| 0 <= i < made.len() ==> drawn_account(#[trigger] made[i], draws@[i], program_id@)
                &&& final(accounts)@ == with_accounts(old(accounts)@, made)
                &&& ins.program_id == *program_id
                &&& ins.data@ == create_data(funds_source@, made)
                &&& metas_match(ins.accounts@, change_accounts(Map::empty(), funds_source@, made))
            },
        res is None ==> exists|made: Seq<Account>|
            {
                &&& made.len() < draws@.len()
                &&& forall|i: int| 0 <= i < made.len() ==> drawn_account(#[trigger] made[i], draws@[i], program_id@)
                &&& underivable(draws@[made.len() as int].0, program_id@)
                &&& final(accounts)@ == with_accounts(old(accounts)@, made)
            },
{
    let mut command_accounts = CommandAccounts::new();
    let mut data: Vec<u8> = Vec::new();
    let ghost mut made: Seq<Account> = Seq::empty();
    let mut i: usize = 0;
    while i < draws.len()
        invariant
            i <= draws@.len(),
            made.len() == i,
            forall|j: int| 0 <= j < made.len() ==> drawn_account(#[trigger] made[j], draws@[j], program_id@),
            forall|j: int| 0 <= j < i ==> !underivable(#[trigger] draws@[j].0, program_id@),
            accounts@ == with_accounts(old(accounts)@, made),
            data@ == create_data(funds_source@, made),
            command_accounts@ == change_accounts(Map::empty(), funds_source@, made),
        decreases draws@.len() - i,
    {
        let (seed_draw, size_draw) = draws[i];
        match account_from_draws(seed_draw, size_draw, program_id) {
            Ok(account) => {
                add_create_account_command(funds_source, &account, &mut command_accounts, &mut data);
                let ghost a = account;
                let ghost before = made;
                accounts.add_new_account(account);
                proof {
                    made = made.push(a);
                    assert(made.drop_last() =~= before);
                    assert(made[i as int] == a);
                    assert(!underivable(draws@[i as int].0, program_id@));
                }
            },
            Err(_) => {
                assert(underivable(draws@[i as int].0, program_id@));
                return None;
            },
        }
        i = i + 1;
    }
    let metas = command_accounts.get_account_metas();
    Some(Instruction::new_with_bytes(*program_id, data.as_slice(), metas))
}

/// Creates `create_count` accounts of `program_id`, paid by `funds_source`,
/// from random numbers of `rng` as `create_accounts_from_draws` says,
/// records them in `accounts`, and returns the instruction that creates
/// them; none where an address cannot be derived from a seed drawn.
pub fn build_create_accounts(
    rng: &mut ThreadRng,
    funds_source: &Pubkey,
    program_id: &Pubkey,
    create_count: u32,
    accounts: &mut Accounts,
) -> (res: Option<Instruction>)
    ensures
        res matches Some(ins) ==> exists|made: Seq<Account>|
            {
                &&& made.len() == create_count
                &&& forall|i: int| 0 <= i < made.len() ==> derived_account(#[trigger] made[i], program_id@)
                    && made[i].size <= MAX_ACCOUNT_SIZE
                &&& final(accounts)@ == with_accounts(old(accounts)@, made)
                &&& ins.program_id == *program_id
                &&& ins.data@ == create_data(funds_source@, made)
                &&& metas_match(ins.accounts@, change_accounts(Map::empty(), funds_source@, made))
            },
        res is None ==> exists|seed: Seq<u8>| seed.len() == 7 && program_address(seed, program_id@) is None,
        res is None ==> exists|made: Seq<Account>|
            {
                &&& made.len() < create_count
                &&& forall|i: int| 0 <= i < made.len() ==> derived_account(#[trigger] made[i], program_id@)
                    && made[i].size <= MAX_ACCOUNT_SIZE
                &&& final(accounts)@ == with_accounts(old(accounts)@, made)
            },
{
    let mut draws: Vec<(u64, u32)> = Vec::new();
    let mut k: u32 = 0;
    while k < create_count
        invariant
            k <= create_count,
            draws@.len() == k,
        decreases create_count - k,
    {
        let seed_draw = next_u64(rng);
        let size_draw = next_u32(rng);
        draws.push((seed_draw, size_draw));
        k = k + 1;
    }
    let res = create_accounts_from_draws(&draws, funds_source, program_id, accounts);
    proof {
        assert forall|a: Account, d: (u64, u32)| drawn_account(a, d, program_id@) implies derived_account(
            a,
            program_id@,
        ) && a.size <= MAX_ACCOUNT_SIZE by {
            assert(a.size as int == d.1 as int % (MAX_ACCOUNT_SIZE + 1) as int);
        }
        if res is None {
            let i = choose|i: int| 0 <= i < draws@.len() && underivable(#[trigger] draws@[i].0, program_id@);
            assert(le_u64(draws@[i].0).take(7).len() == 7);
        }
    }
    res
}

} // verus!

verus! {

/// The accounts behind the shared pointers.
pub open spec fn derefs(s: Seq<Arc<Account>>) -> Seq<Account> {
    s.map_values(|a: Arc<Account>| *a)
}

/// The recorded accounts `m` without the addresses of `s`.
pub open spec fn without_accounts(m: Map<Seq<u8>, Account>, s: Seq<Account>) -> Map<Seq<u8>, Account>
    decreases s.len(),
{
    if s.len() == 0 {
        m
    } else {
        without_accounts(m, s.drop_last()).remove(s.last().address@)
    }
}

/// What the random numbers `draws` take, one each in turn, out of the
/// accounts kept as `e` (see `Accounts::take_account_at`): the accounts
/// taken, in order, and those kept after. A draw takes the entry at it
/// modulo their number, and the last entry takes its place; a draw finds
/// nothing once no account is left.
pub open spec fn taken_by(e: Seq<Account>, draws: Seq<u32>) -> (Seq<Account>, Seq<Account>)
    decreases draws.len(),
{
    if draws.len() == 0 || e.len() == 0 {
        (Seq::empty(), e)
    } else {
        let i = (draws[0] as int) % (e.len() as int);
        let rest = taken_by(e.update(i, e.last()).drop_last(), draws.drop_first());
        (seq![e[i]] + rest.0, rest.1)
    }
}

/// Takes out of `accounts` one account for each of the random numbers
/// `draws`, as `taken_by` says, while any is left.
pub fn take_batch_at(accounts: &mut Accounts, draws: &Vec<u32>) -> (batch: Vec<Arc<Account>>)
    ensures
        derefs(batch@) == taken_by(old(accounts).entries(), draws@).0,
        final(accounts).entries() == taken_by(old(accounts).entries(), draws@).1,
        old(accounts)@.dom().finite(),
        batch@.len() == if draws@.len() <= old(accounts)@.dom().len() {
            draws@.len() as int
        } else {
            old(accounts)@.dom().len() as int
        },
        final(accounts)@ == without_accounts(old(accounts)@, derefs(batch@)),
        taken_in_turn(old(accounts)@, derefs(batch@)),
{
    let ghost start = accounts@;
    let ghost start_entries = accounts.entries();
    let start_count = accounts.count();
    let mut batch: Vec<Arc<Account>> = Vec::new();
    let mut i: usize = 0;
    proof {
        assert(draws@.skip(0) =~= draws@);
        assert(derefs(batch@) =~= Seq::<Account>::empty());
        assert(derefs(batch@) + taken_by(start_entries, draws@).0 =~= taken_by(start_entries, draws@).0);
    }
    while i < draws.len()
        invariant
            i <= draws@.len(),
            start.dom().finite(),
            start_count == start.dom().len(),
            start_count == start_entries.len(),
            batch@.len() == if i <= start_count { i as int } else { start_count as int },
            taken_by(start_entries, draws@) == (
                derefs(batch@) + taken_by(accounts.entries(), draws@.skip(i as int)).0,
                taken_by(accounts.entries(), draws@.skip(i as int)).1,
            ),
            accounts.entries().len() == start_count - batch@.len(),
            accounts@ == without_accounts(start, derefs(batch@)),
            accounts@.dom().finite(),
            accounts@.dom().len() == start_count - batch@.len(),
            forall|j: int|
                0 <= j < batch@.len() ==> #[trigger] without_accounts(start, derefs(batch@).take(j)).contains_key(
                    batch@[j].address@,
                ) && without_accounts(start, derefs(batch@).take(j))[batch@[j].address@] == *batch@[j],
        decreases draws@.len() - i,
    {
        let ghost before = batch@;
        let ghost before_map = accounts@;
        let ghost cur = accounts.entries();
        let ghost rest = draws@.skip(i as int);
        assert(rest.drop_first() =~= draws@.skip(i + 1));
        assert(rest[0] == draws@[i as int]);
        let n = accounts.count();
        match accounts.take_account_at(draws[i]) {
            Some(account) => {
                batch.push(account);
                proof {
                    assert(derefs(batch@).drop_last() =~= derefs(before));
                    assert(derefs(batch@).take(before.len() as int) =~= derefs(before));
                    let t = taken_by(accounts.entries(), draws@.skip(i + 1));
                    assert(derefs(batch@) + t.0 =~= derefs(before) + (seq![*account] + t.0));
                    assert forall|j: int|
                        0 <= j < batch@.len() implies #[trigger] without_accounts(start, derefs(batch@).take(j)).contains_key(
                        batch@[j].address@,
                    ) && without_accounts(start, derefs(batch@).take(j))[batch@[j].address@] == *batch@[j] by {
                        if j < before.len() {
                            assert(derefs(batch@).take(j) =~= derefs(before).take(j));
                        } else {
                            assert(j == before.len());
                            assert(derefs(batch@).take(j) =~= derefs(before));
                            assert(before_map == without_accounts(start, derefs(before)));
                            assert(batch@[j] == account);
                            assert(before_map.contains_key(account.address@) && before_map[account.address@] == *account);
                        }
                    }
                }
            },
            None => {
                proof {
                    assert(taken_by(cur, draws@.skip(i + 1)) == (Seq::<Account>::empty(), cur));
                }
            },
        }
        i = i + 1;
    }
    proof {
        assert(draws@.skip(i as int).len() == 0);
        assert(derefs(batch@) + Seq::<Account>::empty() =~= derefs(batch@));
    }
    assert(taken_in_turn(start, derefs(batch@))) by {
        assert forall|i: int| 0 <= i < derefs(batch@).len() implies #[trigger] without_accounts(start, derefs(batch@).take(i)).contains_key(
            derefs(batch@)[i].address@,
        ) && without_accounts(start, derefs(batch@).take(i))[derefs(batch@)[i].address@] == derefs(batch@)[i] by {
            assert(derefs(batch@)[i] == *batch@[i]);
        }
    }
    batch
}

/// Takes up to `ACCOUNTS_PER_TRANSACTION` of the recorded accounts, picked at
/// random as `take_batch_at` says, out of `accounts`, to be deleted.
pub fn take_delete_batch(accounts: &mut Accounts, rng: &mut ThreadRng) -> (batch: Vec<Arc<Account>>)
    ensures
        old(accounts)@.dom().finite(),
        batch@.len() == if old(accounts)@.dom().len() < ACCOUNTS_PER_TRANSACTION {
            old(accounts)@.dom().len() as int
        } else {
            ACCOUNTS_PER_TRANSACTION as int
        },
        final(accounts)@ == without_accounts(old(accounts)@, derefs(batch@)),
        taken_in_turn(old(accounts)@, derefs(batch@)),
        exists|draws: Seq<u32>| derefs(batch@) == #[trigger] taken_by(old(accounts).entries(), draws).0,
{
    let count = accounts.count();
    let n: usize = if count < ACCOUNTS_PER_TRANSACTION as usize {
        count
    } else {
        ACCOUNTS_PER_TRANSACTION as usize
    };
    let mut draws: Vec<u32> = Vec::new();
    while draws.len() < n
        invariant
            draws@.len() <= n,
        decreases n - draws@.len(),
    {
        draws.push(next_u32(rng));
    }
    let batch = take_batch_at(accounts, &draws);
    assert(derefs(batch@) == taken_by(old(accounts).entries(), draws@).0);
    batch
}

/// The instruction that deletes the accounts of `batch`, paid by
/// `funds_source`.
pub fn build_delete_instruction(
    funds_source: &Pubkey,
    program_id: &Pubkey,
    batch: &Vec<Arc<Account>>,
) -> (ins: Instruction)
    ensures
        ins.program_id == *program_id,
        ins.data@ == delete_data(funds_source@, derefs(batch@)),
        metas_match(ins.accounts@, change_accounts(Map::empty(), funds_source@, derefs(batch@))),
{
    let mut command_accounts = CommandAccounts::new();
    let mut data: Vec<u8> = Vec::new();
    let mut i: usize = 0;
    while i < batch.len()
        invariant
            i <= batch@.len(),
            data@ == delete_data(funds_source@, derefs(batch@).take(i as int)),
            command_accounts@ == change_accounts(Map::empty(), funds_source@, derefs(batch@).take(i as int)),
        decreases batch@.len() - i,
    {
        add_delete_account_command(funds_source, &batch[i], &mut command_accounts, &mut data);
        assert(derefs(batch@).take(i + 1).drop_last() =~= derefs(batch@).take(i as int));
        i = i + 1;
    }
    assert(derefs(batch@).take(i as int) =~= derefs(batch@));
    let metas = command_accounts.get_account_metas();
    Instruction::new_with_bytes(*program_id, data.as_slice(), metas)
}

/// Records again the accounts of a batch whose deletion failed.
pub fn restore_accounts(accounts: &mut Accounts, batch: Vec<Arc<Account>>)
    ensures
        final(accounts)@ == with_accounts(old(accounts)@, derefs(batch@)),
{
    let ghost all = batch@;
    let mut rest = batch;
    let n = rest.len();
    let mut k: usize = 0;
    while rest.len() > 0
        invariant
            n == all.len(),
            k + rest@.len() == all.len(),
            rest@ == all.subrange(k as int, all.len() as int),
            accounts@ == with_accounts(old(accounts)@, derefs(all).take(k as int)),
        decreases rest@.len(),
    {
        let account = rest.remove(0);
        accounts.add_existing_account(account);
        assert(derefs(all).take(k + 1).drop_last() =~= derefs(all).take(k as int));
        k = k + 1;
        assert(rest@ =~= all.subrange(k as int, all.len() as int));
    }
    assert(derefs(all).take(k as int) =~= derefs(all));
}

} // verus!

verus! {

/// Some account of `s` has the address `k`.
pub open spec fn has_address_in(s: Seq<Account>, k: Seq<u8>) -> bool {
    exists|j: int| 0 <= j < s.len() && #[trigger] s[j].address@ == k
}

proof fn lemma_without_lacks(m: Map<Seq<u8>, Account>, s: Seq<Account>, k: Seq<u8>)
    requires
        has_address_in(s, k),
    ensures
        !without_accounts(m, s).contains_key(k),
    decreases s.len(),
{
    let p = s.drop_last();
    if s.last().address@ != k {
        let j = choose|j: int| 0 <= j < s.len() && #[trigger] s[j].address@ == k;
        assert(p[j].address@ == k);
        lemma_without_lacks(m, p, k);
    }
}

proof fn lemma_reinsert(x: Map<Seq<u8>, Account>, p: Seq<Account>, k: Seq<u8>)
    requires
        !has_address_in(p, k),
        x.contains_key(k),
    ensures
        with_accounts(x.remove(k), p).insert(k, x[k]) == with_accounts(x, p),
    decreases p.len(),
{
    if p.len() == 0 {
        assert(x.remove(k).insert(k, x[k]) =~= x);
    } else {
        let q = p.drop_last();
        let b = p.last();
        assert(!has_address_in(q, k)) by {
            if has_address_in(q, k) {
                let j = choose|j: int| 0 <= j < q.len() && #[trigger] q[j].address@ == k;
                assert(p[j].address@ == k);
            }
        }
        assert(b.address@ != k) by {
            assert(p[p.len() - 1].address@ == b.address@);
        }
        lemma_reinsert(x, q, k);
        assert(with_accounts(x.remove(k), p).insert(k, x[k]) =~= with_accounts(x.remove(k), q).insert(k, x[k]).insert(
            b.address@,
            b,
        ));
    }
}

/// The condition under which the batch `s` was taken out of the accounts
/// `m`: each account, when it was taken, was recorded under its address.
pub open spec fn taken_in_turn(m: Map<Seq<u8>, Account>, s: Seq<Account>) -> bool {
    forall|i: int|
        0 <= i < s.len() ==> #[trigger] without_accounts(m, s.take(i)).contains_key(s[i].address@)
            && without_accounts(m, s.take(i))[s[i].address@] == s[i]
}

/// A batch that was taken out of the accounts for deletion and recorded again
/// after its transaction failed leaves the accounts as they were before.
pub proof fn lemma_restore_undoes_take(m: Map<Seq<u8>, Account>, s: Seq<Account>)
    requires
        taken_in_turn(m, s),
    ensures
        with_accounts(without_accounts(m, s), s) == m,
    decreases s.len(),
{
    if s.len() > 0 {
        let p = s.drop_last();
        let a = s.last();
        let n = s.len() - 1;
        assert(s.take(n) =~= p);
        assert(taken_in_turn(m, p)) by {
            assert forall|i: int| 0 <= i < p.len() implies #[trigger] without_accounts(m, p.take(i)).contains_key(
                p[i].address@,
            ) && without_accounts(m, p.take(i))[p[i].address@] == p[i] by {
                assert(p.take(i) =~= s.take(i));
                assert(s[i] == p[i]);
            }
        }
        lemma_restore_undoes_take(m, p);
        let x = without_accounts(m, p);
        assert(x.contains_key(a.address@) && x[a.address@] == a) by {
            assert(s[n] == a);
        }
        assert(!has_address_in(p, a.address@)) by {
            if has_address_in(p, a.address@) {
                lemma_without_lacks(m, p, a.address@);
            }
        }
        lemma_reinsert(x, p, a.address@);
    }
}

} // verus!
